//! Driving players and hearing about them.
#![allow(dead_code)]

use acrylius::body::{from_bytes, to_bytes};
use acrylius::ids::DeviceId;
use acrylius::plugin::{BulkRequest, Cx, PendingSend, Plugin, PluginError};
use acrylius::plugins::media::{landed, MediaCommand, MediaPlayer, MediaPlugin, MediaState, CAP, PAUSED, PLAYING, STOPPED};
use acrylius::vocab::{Effect, EffectResult, EffectSet, EffectToken, MediaAction, UiEvent};
use acrylius::wire::Envelope;

struct Ran {
    sends: Vec<PendingSend>,
    effects: Vec<(EffectToken, Effect)>,
    ui: Vec<UiEvent>,
    bulk: Vec<BulkRequest>,
    /// Carried into the next `run` so a test can mint distinct transfers.
    next_transfer: u64,
    next_token: u64,
}

impl Ran {
    fn one_effect(&self) -> &Effect {
        assert_eq!(self.effects.len(), 1, "expected exactly one effect");
        &self.effects[0].1
    }

    fn token(&self) -> EffectToken {
        self.effects.first().expect("expected an effect").0
    }

    fn sent(&self, ty: &str) -> Option<&PendingSend> {
        self.sends.iter().find(|s| s.ty == ty)
    }
}

/// Run one plugin interaction on a host that serves everything; use
/// [`run_on`] when behaviour depends on what the machine can do.
fn run(next_token: u64, f: impl FnOnce(&mut Cx)) -> Ran {
    run_on(next_token, EffectSet::all(), f)
}

/// The same, on a host that can carry out only the effects named.
fn run_on(next_token: u64, serves: EffectSet, f: impl FnOnce(&mut Cx)) -> Ran {
    let mut cx = Cx::new(1_000, next_token, next_token, serves);
    f(&mut cx);
    Ran {
        sends: cx.sends,
        effects: cx.effects,
        ui: cx.ui,
        bulk: cx.bulk,
        next_token: cx.next_token,
        next_transfer: cx.next_transfer,
    }
}

/// A request as it would arrive over a session.
fn envelope(id: u32, cap: &str, ty: &str, body: &[u8]) -> Envelope {
    Envelope::new(id, cap, ty, body)
}

fn device(byte: u8) -> DeviceId {
    DeviceId::new(format!("device-{byte}"))
}

fn peer() -> DeviceId {
    device(3)
}

fn state(status: &str) -> MediaState {
    MediaState {
        players: vec![MediaPlayer {
            id: "spotify".to_string(),
            name: "Spotify".to_string(),
            status: status.to_string(),
            title: "A Song".to_string(),
            can_control: true,
            ..Default::default()
        }],
        active: "spotify".to_string(),
        system_volume: Some(40),
    }
}

fn player(status: &str, position_ms: u64) -> MediaPlayer {
    MediaPlayer {
        id: "spotify".to_string(),
        name: "Spotify".to_string(),
        status: status.to_string(),
        title: "A Song".to_string(),
        position_ms,
        can_control: true,
        ..Default::default()
    }
}

#[test]
fn media_a_broadcast_skips_the_peer_that_left_and_reaches_the_one_that_stayed() {
    // See the twin of this in `plugins::session`. The third of three
    // identical untested `retain`s that mutation testing turned up.
    let mut p = MediaPlugin::default();
    let gone = peer();
    let stayed = device(9);
    run(0, |cx| p.on_peer_connected(cx, &gone));
    run(0, |cx| p.on_peer_connected(cx, &stayed));
    run(0, |cx| p.on_peer_disconnected(cx, &gone));

    let r = run(0, |cx| p.on_local(cx, &gone, "notify", b"").unwrap());
    let r2 = run(r.next_token, |cx| {
        p.on_effect_result(
            cx,
            r.token(),
            &EffectResult::Done(to_bytes(&state(PLAYING))),
        );
    });

    let told: Vec<&DeviceId> = r2
        .sends
        .iter()
        .filter(|s| s.ty == "state")
        .map(|s| &s.peer)
        .collect();
    assert_eq!(told, vec![&stayed]);
}

#[test]
fn a_pause_has_landed_only_once_the_player_says_paused() {
    // The whole point: a reading taken before the player acted looks exactly
    // like a player that ignored the command, and answering the first one
    // with "done" is how a phone ends up showing a running timeline on a
    // track that is already paused.
    let before = state(PLAYING);
    assert_eq!(
        landed(&MediaAction::Pause, "", &before, &state(PLAYING)),
        Some(false),
        "still playing: the command has not landed yet"
    );
    assert_eq!(
        landed(&MediaAction::Pause, "", &before, &state(PAUSED)),
        Some(true)
    );
}

#[test]
fn a_position_that_moved_on_its_own_is_not_a_command_landing() {
    // The bug this function exists to remove: comparing whole states makes a
    // playing track answer "landed" for any command at all, because its
    // position moves between any two readings.
    let before = MediaState {
        players: vec![player(PLAYING, 1_000)],
        ..state(PLAYING)
    };
    let later = MediaState {
        players: vec![player(PLAYING, 2_000)],
        ..state(PLAYING)
    };
    assert_ne!(before, later, "the states do differ, which is the trap");
    assert_eq!(
        landed(&MediaAction::Pause, "", &before, &later),
        Some(false),
        "a moving position must not be mistaken for a pause"
    );
}

#[test]
fn play_and_stop_are_answered_from_the_status_the_player_reports() {
    // The other two absolute verbs, each needing both answers. A test that
    // only checks the success case passes just as happily when the
    // comparison has been inverted — which is how the pause arm ended up
    // being the only one of the three that was really pinned.
    let paused = state(PAUSED);
    assert_eq!(
        landed(&MediaAction::Play, "", &paused, &state(PAUSED)),
        Some(false)
    );
    assert_eq!(
        landed(&MediaAction::Play, "", &paused, &state(PLAYING)),
        Some(true)
    );

    let playing = state(PLAYING);
    assert_eq!(
        landed(&MediaAction::Stop, "", &playing, &state(PLAYING)),
        Some(false)
    );
    assert_eq!(
        landed(&MediaAction::Stop, "", &playing, &state(STOPPED)),
        Some(true)
    );
}

#[test]
fn play_pause_is_answered_against_where_it_started() {
    let playing = state(PLAYING);
    let paused = state(PAUSED);
    assert_eq!(
        landed(&MediaAction::PlayPause, "", &playing, &paused),
        Some(true)
    );
    assert_eq!(
        landed(&MediaAction::PlayPause, "", &playing, &playing),
        Some(false)
    );
}

#[test]
fn a_skip_has_landed_when_the_track_changed_and_not_when_it_only_moved() {
    let before = MediaState {
        players: vec![player(PLAYING, 1_000)],
        ..state(PLAYING)
    };
    let same_track_later = MediaState {
        players: vec![player(PLAYING, 9_000)],
        ..state(PLAYING)
    };
    assert_eq!(
        landed(&MediaAction::Next, "", &before, &same_track_later),
        Some(false),
        "the same song further along is not the next song"
    );

    let next_track = MediaState {
        players: vec![MediaPlayer {
            title: "Another Song".to_string(),
            ..player(PLAYING, 0)
        }],
        ..state(PLAYING)
    };
    assert_eq!(
        landed(&MediaAction::Next, "", &before, &next_track),
        Some(true)
    );
}

#[test]
fn a_player_that_went_away_has_stopped_and_has_not_started() {
    let before = state(PLAYING);
    let gone = MediaState {
        players: vec![],
        active: String::new(),
        system_volume: Some(40),
    };
    assert_eq!(landed(&MediaAction::Stop, "", &before, &gone), Some(true));
    assert_eq!(landed(&MediaAction::Play, "", &before, &gone), Some(false));
}

#[test]
fn what_a_reading_cannot_answer_is_not_guessed_at() {
    // A caller that gets `None` stops waiting. Returning `false` here would
    // make every seek wait out its deadline and then report a failure.
    let s = state(PLAYING);
    for action in [
        MediaAction::Seek { offset_ms: 30_000 },
        MediaAction::SetPosition { ms: 0 },
        MediaAction::SetVolume { percent: 50 },
    ] {
        assert_eq!(landed(&action, "", &s, &s), None, "{action:?}");
    }
}

#[test]
fn a_named_player_is_answered_and_not_the_active_one() {
    // A command that names a player must be judged on that player, or a
    // second player happening to pause would answer for it.
    let before = MediaState {
        players: vec![
            MediaPlayer {
                id: "vlc".to_string(),
                ..player(PLAYING, 0)
            },
            player(PLAYING, 0),
        ],
        active: "spotify".to_string(),
        system_volume: None,
    };
    let vlc_paused = MediaState {
        players: vec![
            MediaPlayer {
                id: "vlc".to_string(),
                ..player(PAUSED, 0)
            },
            player(PLAYING, 0),
        ],
        ..before.clone()
    };
    assert_eq!(
        landed(&MediaAction::Pause, "vlc", &before, &vlc_paused),
        Some(true)
    );
    assert_eq!(
        landed(&MediaAction::Pause, "", &before, &vlc_paused),
        Some(false),
        "the active player is spotify, which is still playing"
    );
}

fn command(body: &MediaCommand) -> Vec<u8> {
    to_bytes(body)
}

#[test]
fn a_bare_verb_needs_no_body() {
    // `next` with an empty body is the common case, and requiring an empty
    // map for it would be ceremony a hand-written client would get wrong.
    let mut p = MediaPlugin::default();
    let r = run(0, |cx| {
        p.on_message(cx, &peer(), &envelope(1, CAP, "next", b""))
            .unwrap();
    });
    assert_eq!(r.effects.len(), 1);
    assert!(matches!(
        &r.effects[0].1,
        Effect::MediaControl { action: MediaAction::Next, player } if player.is_empty()
    ));
}

#[test]
fn a_command_may_name_its_player() {
    let mut p = MediaPlugin::default();
    let body = command(&MediaCommand {
        player: "firefox".to_string(),
        value: 0,
    });
    let r = run(0, |cx| {
        p.on_message(cx, &peer(), &envelope(1, CAP, "pause", &body))
            .unwrap();
    });
    assert!(matches!(
        &r.effects[0].1,
        Effect::MediaControl { player, .. } if player == "firefox"
    ));
}

#[test]
fn a_volume_outside_the_range_is_refused_here() {
    // Refused in the plugin so every host does not have to remember, and so
    // a host that forgot cannot hand a player something out of range.
    let mut p = MediaPlugin::default();
    for bad in [-1, 101] {
        let body = command(&MediaCommand {
            player: String::new(),
            value: bad,
        });
        let r = run(0, |cx| {
            assert_eq!(
                p.on_message(cx, &peer(), &envelope(1, CAP, "volume", &body))
                    .unwrap_err(),
                PluginError::NotAllowed,
                "{bad} should be refused"
            );
        });
        assert!(r.effects.is_empty(), "nothing should reach a player");
    }
}

#[test]
fn seek_is_relative_and_may_go_backwards() {
    let mut p = MediaPlugin::default();
    let body = command(&MediaCommand {
        player: String::new(),
        value: -10_000,
    });
    let r = run(0, |cx| {
        p.on_message(cx, &peer(), &envelope(1, CAP, "seek", &body))
            .unwrap();
    });
    assert!(matches!(
        &r.effects[0].1,
        Effect::MediaControl {
            action: MediaAction::Seek { offset_ms: -10_000 },
            ..
        }
    ));
}

#[test]
fn media_an_unknown_verb_is_named_in_the_error() {
    let mut p = MediaPlugin::default();
    run(0, |cx| {
        assert_eq!(
            p.on_message(cx, &peer(), &envelope(1, CAP, "eject", b""))
                .unwrap_err(),
            PluginError::UnknownType("eject".to_string())
        );
    });
}

#[test]
fn a_command_is_answered_with_what_happened_to_the_music() {
    // Not an acknowledgement. A player may ignore a command, clamp a seek,
    // or stop of its own accord, and only reading it back afterwards says
    // which.
    let mut p = MediaPlugin::default();
    let r = run(0, |cx| {
        p.on_message(cx, &peer(), &envelope(7, CAP, "playpause", b""))
            .unwrap();
    });
    let token = r.effects[0].0;
    let answer = to_bytes(&state("playing"));
    let r = run(0, |cx| {
        p.on_effect_result(cx, token, &EffectResult::Done(answer));
    });
    let sent = r.sent("state").expect("answered with state");
    assert_eq!(sent.re, Some(7));
    let got: MediaState = from_bytes(&sent.body).unwrap();
    assert_eq!(got.players[0].status, "playing");
}

#[test]
fn a_peer_that_connects_is_told_what_is_playing() {
    let mut p = MediaPlugin::default();
    let asked = run(0, |cx| p.on_local(cx, &peer(), "notify", b"").unwrap());
    run(0, |cx| {
        p.on_effect_result(
            cx,
            asked.token(),
            &EffectResult::Done(to_bytes(&state("playing"))),
        )
    });
    let r = run(0, |cx| p.on_peer_connected(cx, &peer()));
    assert!(r.sent("state").is_some(), "without being asked");
}

#[test]
fn nothing_is_broadcast_when_nothing_changed() {
    // A player reports its position, so a poll that broadcast every answer
    // would send a message a second forever.
    let mut p = MediaPlugin::default();
    run(0, |cx| p.on_peer_connected(cx, &peer()));

    let first = run(0, |cx| p.on_local(cx, &peer(), "notify", b"").unwrap());
    let token = first.effects[0].0;
    let answer = to_bytes(&state("playing"));
    let r = run(0, |cx| {
        p.on_effect_result(cx, token, &EffectResult::Done(answer.clone()))
    });
    assert!(r.sent("state").is_some(), "the first answer is news");

    let second = run(0, |cx| p.on_local(cx, &peer(), "notify", b"").unwrap());
    let token = second.effects[0].0;
    let r = run(0, |cx| {
        p.on_effect_result(cx, token, &EffectResult::Done(answer))
    });
    assert!(r.sent("state").is_none(), "the same answer is not");
}

#[test]
fn a_track_playing_on_does_not_announce_itself_every_second() {
    // The case that matters, and the one identical states do not cover: a
    // playing track's position moves with every reading, so comparing whole
    // states would broadcast to every connected device once a second for as
    // long as anything is playing.
    let mut p = MediaPlugin::default();
    run(0, |cx| p.on_peer_connected(cx, &peer()));

    let mut announce = |players: Vec<MediaPlayer>| {
        let first = run(0, |cx| p.on_local(cx, &peer(), "notify", b"").unwrap());
        let token = first.effects[0].0;
        let body = to_bytes(&MediaState {
            players,
            active: "spotify".to_string(),
            system_volume: None,
        });
        run(0, |cx| {
            p.on_effect_result(cx, token, &EffectResult::Done(body))
        })
        .sent("state")
        .is_some()
    };

    assert!(
        announce(vec![player("playing", 1_000)]),
        "the first reading is news"
    );
    assert!(
        !announce(vec![player("playing", 2_000)]),
        "the track merely playing on is not"
    );
    assert!(
        !announce(vec![player("playing", 3_000)]),
        "and still is not, a reading later"
    );
    assert!(
        announce(vec![player("paused", 3_000)]),
        "but pausing is worth hearing about"
    );
}

#[test]
fn a_device_with_nothing_to_control_says_so() {
    let mut p = MediaPlugin::default();
    let r = run(0, |cx| {
        p.on_message(cx, &peer(), &envelope(3, CAP, "next", b""))
            .unwrap();
    });
    let token = r.effects[0].0;
    let r = run(0, |cx| {
        p.on_effect_result(cx, token, &EffectResult::Unsupported);
    });
    assert!(r.sent("err").is_some());
}
