//! Which player a button means, and what is asked of it.
use acrylius::linux::media::{
    bus_name, call, length_ms, listed_text, machine_volume, no_track, pick_active, player_id,
    player_names, rewind_by, settled, state, target, to_ms, volume_outcome, Call, Reading,
    AGGREGATOR, PREFIX,
};
use acrylius::plugins::media::{MediaPlayer, MediaState};
use acrylius::vocab::MediaAction;

fn player(id: &str, status: &str, can_control: bool) -> MediaPlayer {
    MediaPlayer {
        id: id.to_string(),
        status: status.to_string(),
        can_control,
        name: id.to_uppercase(),
        title: String::new(),
        artist: String::new(),
        album: String::new(),
        length_ms: 0,
        position_ms: 0,
        volume_percent: None,
        can_go_next: false,
        can_go_previous: false,
        can_seek: false,
    }
}

#[test]
fn something_playing_wins_over_something_merely_open() {
    let players = vec![
        player("vlc", "paused", true),
        player("spotify", "playing", true),
    ];
    assert_eq!(pick_active(&players), "spotify");
}

#[test]
fn a_player_that_accepts_control_is_preferred_to_one_that_does_not() {
    // A browser tab that reports playing but refuses commands would
    // otherwise capture every button press.
    let players = vec![
        player("chromium", "playing", false),
        player("spotify", "playing", true),
    ];
    assert_eq!(pick_active(&players), "spotify");
}

#[test]
fn a_paused_player_is_better_than_a_stopped_one() {
    let players = vec![
        player("mpv", "stopped", true),
        player("vlc", "paused", true),
    ];
    assert_eq!(pick_active(&players), "vlc");
}

#[test]
fn nothing_running_names_nothing() {
    assert_eq!(pick_active(&vec![]), "");
}

#[test]
fn a_stopped_player_is_still_named_rather_than_nothing() {
    // So the remote can offer play on something that is open.
    let players = vec![player("mpv", "stopped", true)];
    assert_eq!(pick_active(&players), "mpv");
}

#[test]
fn a_player_is_known_by_what_follows_the_prefix() {
    let names = vec![
        ":1.42".to_string(),
        AGGREGATOR.to_string(),
        format!("{PREFIX}vlc"),
        format!("{PREFIX}spotify"),
    ];
    assert_eq!(
        player_names(&names),
        vec![format!("{PREFIX}spotify"), format!("{PREFIX}vlc")]
    );
    assert_eq!(player_id("org.mpris.MediaPlayer2.vlc"), "vlc");
    assert_eq!(bus_name("vlc"), "org.mpris.MediaPlayer2.vlc");
}

#[test]
fn times_are_milliseconds_and_never_negative() {
    assert_eq!(to_ms(1_500_999), 1_500);
    assert_eq!(to_ms(-1), 0);
    assert_eq!(length_ms(Some(3_000_000), None), 3_000);
    assert_eq!(length_ms(None, Some(4_000_000)), 4_000);
    assert_eq!(length_ms(None, None), 0);
}

#[test]
fn artists_are_listed() {
    assert_eq!(listed_text(&vec![]), "");
    assert_eq!(
        listed_text(&vec!["One".to_string(), "Another".to_string()]),
        "One, Another"
    );
}

#[test]
fn a_status_is_lower_case_and_a_name_falls_back_to_the_id() {
    let p = acrylius::linux::media::player(Reading {
        bus: "org.mpris.MediaPlayer2.vlc".to_string(),
        identity: None,
        status: Some("Playing".to_string()),
        title: "A Song".to_string(),
        artist: String::new(),
        album: String::new(),
        length_ms: 60_000,
        position_us: Some(1_000_000),
        volume_percent: Some(30),
        can_go_next: Some(true),
        can_go_previous: None,
        can_seek: None,
        can_control: Some(true),
    });
    assert_eq!((p.id.as_str(), p.name.as_str(), p.status.as_str()), ("vlc", "vlc", "playing"));
    assert_eq!((p.position_ms, p.length_ms, p.volume_percent), (1_000, 60_000, Some(30)));
    assert!(p.can_control && p.can_go_next && !p.can_go_previous && !p.can_seek);
}

#[test]
fn a_state_names_its_active_player() {
    let s = state(vec![player("vlc", "playing", true)], Some(12));
    assert_eq!((s.active.as_str(), s.system_volume), ("vlc", Some(12)));
}

#[test]
fn a_volume_that_names_no_player_is_the_machines() {
    assert_eq!(machine_volume("", &MediaAction::SetVolume { percent: 40 }), Some(40));
    assert_eq!(machine_volume("vlc", &MediaAction::SetVolume { percent: 40 }), None);
    assert_eq!(machine_volume("", &MediaAction::Play), None);
}

#[test]
fn a_command_goes_to_the_player_it_names() {
    let s = MediaState {
        players: vec![player("vlc", "paused", true), player("mpv", "playing", true)],
        active: "mpv".to_string(),
        system_volume: None,
    };
    assert_eq!(target("vlc", &s).unwrap().id, "vlc");
    assert_eq!(target("", &s).unwrap().id, "mpv");
    assert!(target("gone", &s).is_err());
}

#[test]
fn every_action_is_one_call() {
    assert_eq!(call(&MediaAction::Play), Call::Play);
    assert_eq!(call(&MediaAction::PlayPause), Call::PlayPause);
    assert_eq!(call(&MediaAction::Seek { offset_ms: -1_500 }), Call::Seek { us: -1_500_000 });
    assert_eq!(call(&MediaAction::Seek { offset_ms: i64::MIN }), Call::Seek { us: i64::MIN });
    assert_eq!(call(&MediaAction::Seek { offset_ms: i64::MAX }), Call::Seek { us: i64::MAX });
    assert_eq!(call(&MediaAction::SetPosition { ms: 7 }), Call::SetPosition { us: 7_000 });
    assert_eq!(call(&MediaAction::SetPosition { ms: 0 }), Call::Rewind);
    assert_eq!(
        call(&MediaAction::SetPosition { ms: u64::MAX }),
        Call::SetPosition { us: i64::MAX }
    );
    assert_eq!(call(&MediaAction::SetVolume { percent: 3 }), Call::SetVolume { percent: 3 });
}

#[test]
fn going_to_the_start_is_seeking_past_it() {
    assert_eq!(rewind_by(5_000_000), -6_000_000);
    assert_eq!(rewind_by(i64::MAX), -i64::MAX);
}

#[test]
fn a_refusal_names_the_player() {
    assert_eq!(no_track("VLC"), "VLC reports no track id");
    assert_eq!(volume_outcome("VLC", 40, Some(40)), Ok(()));
    assert_eq!(volume_outcome("VLC", 40, Some(45)), Ok(()));
    assert_eq!(volume_outcome("VLC", 40, None), Ok(()));
    assert_eq!(
        volume_outcome("VLC", 40, Some(46)),
        Err("VLC ignores volume changes; use the player's own controls".to_string())
    );
}

#[test]
fn a_wait_ends_when_the_player_has_acted_or_time_is_up() {
    let playing = state(vec![player("vlc", "playing", true)], None);
    let paused = state(vec![player("vlc", "paused", true)], None);
    let pause = MediaAction::Pause;
    assert!(settled(&pause, "vlc", Some(&playing), &paused, false));
    assert!(!settled(&pause, "vlc", Some(&playing), &playing, false));
    assert!(settled(&pause, "vlc", Some(&playing), &playing, true));
    assert!(settled(&pause, "vlc", None, &playing, false));
}
