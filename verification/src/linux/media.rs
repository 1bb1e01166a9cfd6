//! Media control through MPRIS.
//!
//! Every player speaks `org.mpris.MediaPlayer2` on the session bus. MPRIS is
//! widely implemented but rarely fully, so everything a player says here may be
//! missing.
use crate::body::views;
use crate::linux::mixer::{apart, took};
use crate::plugins::media::{
    acted, landed, player_with, MediaPlayer, MediaState, PlayerView, StateView, PAUSED, PLAYING,
    STOPPED,
};
use crate::text::{before, comes_before, is_empty, join2, same, starts_with, texts};
use crate::vocab::MediaAction;
use crate::words::{between, text_of};
use vstd::prelude::*;
use vstd::string::StringExecFns;

verus! {

/// The prefix every player's bus name carries.
pub const PREFIX: &'static str = "org.mpris.MediaPlayer2.";

/// `playerctld` mirrors whichever player is active; skipped so it doesn't
/// duplicate an entry already listed.
pub const AGGREGATOR: &'static str = "org.mpris.MediaPlayer2.playerctld";

/// How often to re-read while waiting for a command to show; short since most
/// players act in well under a tenth of a second.
pub const CONTROL_INTERVAL_MS: u64 = 60;

// ------------------------------------------------------------------- reading

/// Whether a bus name is a player's own.
pub open spec fn is_player(name: Seq<char>) -> bool {
    PREFIX@.is_prefix_of(name) && name != AGGREGATOR@
}

/// Whether a list is in dictionary order.
pub open spec fn in_order(list: Seq<Seq<char>>) -> bool {
    forall|i: int, j: int| 0 <= i < j < list.len() ==> !before(#[trigger] list[j], #[trigger] list[i])
}

fn insert_sorted(list: &mut Vec<String>, name: String)
    requires
        in_order(texts(old(list)@)),
    ensures
        in_order(texts(final(list)@)),
        texts(final(list)@).to_multiset() == texts(old(list)@).to_multiset().insert(name@),
{
    let ghost was = texts(list@);
    let mut i: usize = 0;
    while i < list.len() && !comes_before(name.as_str(), list[i].as_str())
        invariant
            was == texts(list@),
            i <= list@.len(),
            forall|k: int| 0 <= k < i ==> !before(name@, #[trigger] was[k]),
        decreases list@.len() - i,
    {
        i = i + 1;
    }
    let ghost n = name@;
    list.insert(i, name);
    proof {
        let now = texts(list@);
        assert(now =~= was.insert(i as int, n));
        assert forall|x: int, y: int| 0 <= x < y < now.len() implies !before(
            #[trigger] now[y],
            #[trigger] now[x],
        ) by {
            if y < i {
                assert(now[y] == was[y] && now[x] == was[x]);
            } else if y == i {
                assert(now[x] == was[x]);
            } else {
                assert(now[y] == was[y - 1]);
                if x < i {
                    assert(now[x] == was[x]);
                } else if x > i {
                    assert(now[x] == was[x - 1]);
                } else {
                    // The name comes before the one it was put in front of, and
                    // that one before none of those after it.
                    assert(before(n, was[i as int]));
                    if before(was[y - 1], n) {
                        crate::text::before_transitive(was[y - 1], n, was[i as int]);
                        if y - 1 > i {
                            assert(!before(was[y - 1], was[i as int]));
                        } else {
                            crate::text::before_irreflexive(was[i as int]);
                        }
                    }
                }
            }
        }
        vstd::seq_lib::to_multiset_insert(was, i as int, n);
    }
}

/// The players among the names on a bus, aggregators excluded, in a stable order
/// so that an unchanged state compares equal.
pub fn player_names(names: &Vec<String>) -> (r: Vec<String>)
    ensures
        in_order(texts(r@)),
        texts(r@).to_multiset() == texts(names@).filter(|n: Seq<char>| is_player(n)).to_multiset(),
{
    let mut out: Vec<String> = Vec::new();
    let ghost all = texts(names@);
    let ghost test = |n: Seq<char>| is_player(n);
    proof {
        reveal(Seq::filter);
        assert(all.take(0) =~= Seq::<Seq<char>>::empty());
        assert(texts(out@) =~= all.take(0).filter(test));
    }
    for i in 0..names.len()
        invariant
            all == texts(names@),
            test == (|n: Seq<char>| is_player(n)),
            in_order(texts(out@)),
            texts(out@).to_multiset() == all.take(i as int).filter(test).to_multiset(),
    {
        proof {
            reveal(Seq::filter);
            assert(all.take(i + 1).drop_last() =~= all.take(i as int));
            assert(all.take(i + 1).last() == names@[i as int]@);
        }
        if starts_with(names[i].as_str(), PREFIX) && !same(names[i].as_str(), AGGREGATOR) {
            insert_sorted(&mut out, names[i].clone());
            proof {
                let sofar = all.take(i as int).filter(test);
                sofar.to_multiset_ensures();
                assert(sofar.push(names@[i as int]@).to_multiset() =~= sofar.to_multiset().insert(
                    names@[i as int]@,
                ));
            }
        }
    }
    assert(all.take(all.len() as int) =~= all);
    out
}

/// The id of a player: its bus name without the prefix.
pub open spec fn id_of(bus: Seq<char>) -> Seq<char> {
    if PREFIX@.is_prefix_of(bus) {
        bus.skip(PREFIX@.len() as int)
    } else {
        bus
    }
}

/// The id of a player.
pub fn player_id(bus: &str) -> (r: String)
    ensures
        r@ == id_of(bus@),
{
    if starts_with(bus, PREFIX) {
        let all = crate::text::chars_of(bus);
        let n: usize = crate::text::chars_of(PREFIX).len();
        proof {
            assert(PREFIX@.len() <= bus@.len());
            assert(bus@.subrange(n as int, bus@.len() as int) =~= bus@.skip(n as int));
        }
        text_of(&between(&all, n, all.len()))
    } else {
        bus.to_owned()
    }
}

/// The bus name of a player.
pub fn bus_name(id: &str) -> (r: String)
    ensures
        r@ == PREFIX@ + id@,
{
    join2(PREFIX, id)
}

/// A player's id leads back to its bus name.
pub proof fn an_id_names_its_bus(bus: Seq<char>)
    requires
        PREFIX@.is_prefix_of(bus),
    ensures
        PREFIX@ + id_of(bus) == bus,
{
    assert(PREFIX@ =~= bus.take(PREFIX@.len() as int));
    assert(PREFIX@ + bus.skip(PREFIX@.len() as int) =~= bus);
}

/// A text in lower case.
pub uninterp spec fn lowercase(t: Seq<char>) -> Seq<char>;

/// `str::to_lowercase`, under the name [`lowercase`].
#[verifier::external_body]
fn to_lowercase(t: &str) -> (r: String)
    ensures
        r@ == lowercase(t@),
{
    t.to_lowercase()
}

/// Texts one after the other, with a comma between.
pub open spec fn listed(list: Seq<Seq<char>>) -> Seq<char>
    decreases list.len(),
{
    if list.len() == 0 {
        Seq::empty()
    } else if list.len() == 1 {
        list[0]
    } else {
        listed(list.drop_last()) + ", "@ + list.last()
    }
}

/// Several artists as one text.
pub fn listed_text(list: &Vec<String>) -> (r: String)
    ensures
        r@ == listed(texts(list@)),
{
    let ghost all = texts(list@);
    if list.len() == 0 {
        let r = String::new();
        assert(r@ =~= listed(all));
        return r;
    }
    let mut out = list[0].clone();
    assert(all.take(1)[0] == list@[0]@);
    for i in 1..list.len()
        invariant
            all == texts(list@),
            out@ == listed(all.take(i as int)),
    {
        out.append(", ");
        out.append(list[i].as_str());
        proof {
            assert(all.take(i + 1).drop_last() =~= all.take(i as int));
            assert(all.take(i + 1).last() == list@[i as int]@);
        }
    }
    assert(all.take(all.len() as int) =~= all);
    out
}

/// Microseconds as milliseconds; less than none is none.
pub open spec fn micros_to_ms(us: int) -> u64 {
    if us < 0 {
        0
    } else {
        (us / 1000) as u64
    }
}

/// Microseconds as milliseconds.
pub fn to_ms(us: i64) -> (r: u64)
    ensures
        r == micros_to_ms(us as int),
{
    if us < 0 {
        0
    } else {
        us as u64 / 1000
    }
}

/// A length, in milliseconds, whatever integer width it arrived as.
pub fn length_ms(signed: Option<i64>, unsigned: Option<u64>) -> (r: u64)
    ensures
        r == (match (signed, unsigned) {
            (Some(n), _) => micros_to_ms(n as int),
            (None, Some(n)) => micros_to_ms(n as int),
            (None, None) => 0u64,
        }),
{
    match signed {
        Some(n) => to_ms(n),
        None => match unsigned {
            Some(n) => n / 1000,
            None => 0,
        },
    }
}

/// What a player said of itself. What it did not say is `None`.
pub struct Reading {
    pub bus: String,
    pub identity: Option<String>,
    pub status: Option<String>,
    pub title: String,
    pub artist: String,
    pub album: String,
    pub length_ms: u64,
    pub position_us: Option<i64>,
    pub volume_percent: Option<u8>,
    pub can_go_next: Option<bool>,
    pub can_go_previous: Option<bool>,
    pub can_seek: Option<bool>,
    pub can_control: Option<bool>,
}

/// A player, from what it said of itself.
pub open spec fn player_of(r: Reading) -> PlayerView {
    PlayerView {
        id: id_of(r.bus@),
        name: match r.identity {
            Some(n) => n@,
            None => id_of(r.bus@),
        },
        status: match r.status {
            Some(s) => lowercase(s@),
            None => lowercase(STOPPED@),
        },
        title: r.title@,
        artist: r.artist@,
        album: r.album@,
        length_ms: r.length_ms,
        position_ms: match r.position_us {
            Some(us) => micros_to_ms(us as int),
            None => 0,
        },
        volume_percent: r.volume_percent,
        can_go_next: r.can_go_next == Some(true),
        can_go_previous: r.can_go_previous == Some(true),
        can_seek: r.can_seek == Some(true),
        can_control: r.can_control == Some(true),
    }
}

fn said_yes(v: Option<bool>) -> (r: bool)
    ensures
        r == (v == Some(true)),
{
    match v {
        Some(b) => b,
        None => false,
    }
}

/// A player, from what it said of itself. One that answers nothing still gets an
/// entry, so it is distinguishable from having closed.
pub fn player(reading: Reading) -> (p: MediaPlayer)
    ensures
        p@ == player_of(reading),
{
    let id = player_id(reading.bus.as_str());
    MediaPlayer {
        name: match reading.identity {
            Some(n) => n,
            None => id.clone(),
        },
        id,
        status: match reading.status {
            Some(s) => to_lowercase(s.as_str()),
            None => to_lowercase(STOPPED),
        },
        title: reading.title,
        artist: reading.artist,
        album: reading.album,
        length_ms: reading.length_ms,
        position_ms: match reading.position_us {
            Some(us) => to_ms(us),
            None => 0,
        },
        volume_percent: reading.volume_percent,
        can_go_next: said_yes(reading.can_go_next),
        can_go_previous: said_yes(reading.can_go_previous),
        can_seek: said_yes(reading.can_seek),
        can_control: said_yes(reading.can_control),
    }
}

// --------------------------------------------------------- which one is active

/// Whether a player has a status, and takes commands where that is asked for.
pub open spec fn fits(p: PlayerView, status: Seq<char>, controlled: bool) -> bool {
    p.status == status && (controlled ==> p.can_control)
}

/// The first player that fits, from `i` on.
pub open spec fn first_fit(
    p: Seq<PlayerView>,
    status: Seq<char>,
    controlled: bool,
    i: int,
) -> Option<
    PlayerView,
>
    decreases p.len() - i,
{
    if i >= p.len() {
        None
    } else if fits(p[i], status, controlled) {
        Some(p[i])
    } else {
        first_fit(p, status, controlled, i + 1)
    }
}

/// The best player with a status: one that takes commands, or else any.
pub open spec fn best_with(p: Seq<PlayerView>, status: Seq<char>) -> Option<PlayerView> {
    match first_fit(p, status, true, 0) {
        Some(x) => Some(x),
        None => first_fit(p, status, false, 0),
    }
}

/// Which player a nameless command targets: playing beats paused, and paused
/// beats merely open.
pub open spec fn active_of(p: Seq<PlayerView>) -> Seq<char> {
    match best_with(p, PLAYING@) {
        Some(x) => x.id,
        None => match best_with(p, PAUSED@) {
            Some(x) => x.id,
            None => if p.len() > 0 {
                p[0].id
            } else {
                Seq::empty()
            },
        },
    }
}

fn find_fit<'a>(players: &'a Vec<MediaPlayer>, status: &str, controlled: bool) -> (r: Option<
    &'a MediaPlayer,
>)
    ensures
        match r {
            Some(p) => first_fit(views(players@), status@, controlled, 0) == Some(p@),
            None => first_fit(views(players@), status@, controlled, 0) is None,
        },
{
    let ghost all = views(players@);
    for i in 0..players.len()
        invariant
            all == views(players@),
            first_fit(all, status@, controlled, 0) == first_fit(all, status@, controlled, i as int),
    {
        assert(all[i as int] == players@[i as int]@);
        if same(players[i].status.as_str(), status) && (!controlled || players[i].can_control) {
            return Some(&players[i]);
        }
    }
    None
}

fn find_best<'a>(players: &'a Vec<MediaPlayer>, status: &str) -> (r: Option<&'a MediaPlayer>)
    ensures
        match r {
            Some(p) => best_with(views(players@), status@) == Some(p@),
            None => best_with(views(players@), status@) is None,
        },
{
    match find_fit(players, status, true) {
        Some(p) => Some(p),
        None => find_fit(players, status, false),
    }
}

/// Which player a nameless command targets: playing beats merely open.
pub fn pick_active(players: &Vec<MediaPlayer>) -> (r: String)
    ensures
        r@ == active_of(views(players@)),
{
    match find_best(players, PLAYING) {
        Some(p) => p.id.clone(),
        None => match find_best(players, PAUSED) {
            Some(p) => p.id.clone(),
            None => if players.len() > 0 {
                players[0].id.clone()
            } else {
                let none = String::new();
                assert(none@ =~= Seq::<char>::empty());
                none
            },
        },
    }
}

/// Every player, and which one a command with no name goes to.
pub fn state(players: Vec<MediaPlayer>, system_volume: Option<u8>) -> (s: MediaState)
    ensures
        s@ == (StateView {
            players: views(players@),
            active: active_of(views(players@)),
            system_volume,
        }),
{
    let active = pick_active(&players);
    MediaState { players, active, system_volume }
}

/// A player that is playing is active before any that is not.
pub proof fn something_playing_is_active(p: Seq<PlayerView>, k: int)
    requires
        0 <= k < p.len(),
        p[k].status == PLAYING@,
    ensures
        exists|i: int| 0 <= i < p.len() && (#[trigger] p[i]).status == PLAYING@ && p[i].id == active_of(p),
{
    first_fit_fits(p, PLAYING@, true, 0);
    first_fit_fits(p, PLAYING@, false, 0);
    first_fit_is_found(p, PLAYING@, false, 0, k);
}

/// Among the players that are playing, one that takes commands is active before
/// one that does not: a browser tab that refuses them would otherwise capture
/// every button press.
pub proof fn one_that_takes_commands_is_preferred(p: Seq<PlayerView>, k: int)
    requires
        0 <= k < p.len(),
        p[k].status == PLAYING@,
        p[k].can_control,
    ensures
        exists|i: int|
            0 <= i < p.len() && (#[trigger] p[i]).status == PLAYING@ && p[i].can_control && p[i].id
                == active_of(p),
{
    first_fit_fits(p, PLAYING@, true, 0);
    first_fit_is_found(p, PLAYING@, true, 0, k);
}

proof fn first_fit_fits(p: Seq<PlayerView>, status: Seq<char>, controlled: bool, i: int)
    requires
        0 <= i <= p.len(),
    ensures
        first_fit(p, status, controlled, i) matches Some(x) ==> exists|k: int|
            i <= k < p.len() && #[trigger] p[k] == x && fits(p[k], status, controlled),
    decreases p.len() - i,
{
    if i < p.len() && !fits(p[i], status, controlled) {
        first_fit_fits(p, status, controlled, i + 1);
    }
}

proof fn first_fit_is_found(p: Seq<PlayerView>, status: Seq<char>, controlled: bool, i: int, k: int)
    requires
        0 <= i <= k < p.len(),
        fits(p[k], status, controlled),
    ensures
        first_fit(p, status, controlled, i) is Some,
    decreases p.len() - i,
{
    if !fits(p[i], status, controlled) {
        first_fit_is_found(p, status, controlled, i + 1, k);
    }
}

// ------------------------------------------------------------------- commands

/// The machine's own volume, where that is what a command sets: no player named
/// means the machine, and it works even with nothing playing.
pub fn machine_volume(player: &str, action: &MediaAction) -> (r: Option<u8>)
    ensures
        r == (match *action {
            MediaAction::SetVolume { percent } => if player@.len() == 0 {
                Some(percent)
            } else {
                None
            },
            _ => None,
        }),
{
    match action {
        MediaAction::SetVolume { percent } => if is_empty(player) {
            Some(*percent)
        } else {
            None
        },
        _ => None,
    }
}

/// The id a command is for: the one it names, or the active one.
pub open spec fn aimed_at(player: Seq<char>, s: StateView) -> Seq<char> {
    if player.len() == 0 {
        s.active
    } else {
        player
    }
}

/// The player a command is for, or why there is none. A call to a player that
/// cannot be controlled would be silently ignored, so it is refused.
pub fn target<'a>(player: &str, state: &'a MediaState) -> (r: Result<&'a MediaPlayer, String>)
    ensures
        match r {
            Ok(p) => player_with(state@.players, aimed_at(player@, state@)) == Some(p@)
                && p.can_control && aimed_at(player@, state@).len() > 0,
            Err(e) => if aimed_at(player@, state@).len() == 0 {
                e@ == "nothing is playing"@
            } else {
                match player_with(state@.players, aimed_at(player@, state@)) {
                    None => e@ == "no player called "@ + aimed_at(player@, state@),
                    Some(p) => !p.can_control && e@ == p.name + " does not accept control"@,
                }
            },
        },
{
    let id: &str = if is_empty(player) {
        state.active.as_str()
    } else {
        player
    };
    if is_empty(id) {
        return Err("nothing is playing".to_owned());
    }
    match crate::plugins::media::find(&state.players, id) {
        None => Err(join2("no player called ", id)),
        Some(p) => if p.can_control {
            Ok(p)
        } else {
            Err(join2(p.name.as_str(), " does not accept control"))
        },
    }
}

/// What is called on a player.
#[derive(Clone, Copy, PartialEq, Eq, Debug, Structural)]
pub enum Call {
    Play,
    Pause,
    PlayPause,
    Next,
    Previous,
    Stop,
    /// By so many microseconds.
    Seek { us: i64 },
    /// To so many microseconds into the track that is playing.
    SetPosition { us: i64 },
    /// To the start. Chromium ignores a position of zero; seeking past the start
    /// instead is defined as clamping to it. See [`rewind_by`].
    Rewind,
    SetVolume { percent: u8 },
}

/// A number of milliseconds as microseconds, as far as there are any.
pub open spec fn ms_to_micros(ms: int) -> int {
    if ms * 1000 > i64::MAX {
        i64::MAX as int
    } else if ms * 1000 < i64::MIN {
        i64::MIN as int
    } else {
        ms * 1000
    }
}

/// What a command calls.
pub open spec fn call_of(a: MediaAction) -> Call {
    match a {
        MediaAction::Play => Call::Play,
        MediaAction::Pause => Call::Pause,
        MediaAction::PlayPause => Call::PlayPause,
        MediaAction::Next => Call::Next,
        MediaAction::Previous => Call::Previous,
        MediaAction::Stop => Call::Stop,
        MediaAction::Seek { offset_ms } => Call::Seek { us: ms_to_micros(offset_ms as int) as i64 },
        MediaAction::SetPosition { ms } => if ms == 0 {
            Call::Rewind
        } else {
            Call::SetPosition { us: ms_to_micros(ms as int) as i64 }
        },
        MediaAction::SetVolume { percent } => Call::SetVolume { percent },
    }
}

/// What a command calls.
pub fn call(action: &MediaAction) -> (c: Call)
    ensures
        c == call_of(*action),
{
    match action {
        MediaAction::Play => Call::Play,
        MediaAction::Pause => Call::Pause,
        MediaAction::PlayPause => Call::PlayPause,
        MediaAction::Next => Call::Next,
        MediaAction::Previous => Call::Previous,
        MediaAction::Stop => Call::Stop,
        MediaAction::Seek { offset_ms } => {
            let n: i64 = *offset_ms;
            Call::Seek {
                us: if n > i64::MAX / 1000 {
                    i64::MAX
                } else if n < -9_223_372_036_854_775 {
                    i64::MIN
                } else {
                    n * 1000
                },
            }
        },
        MediaAction::SetPosition { ms } => {
            let n: u64 = *ms;
            if n == 0 {
                Call::Rewind
            } else if n > i64::MAX as u64 / 1000 {
                Call::SetPosition { us: i64::MAX }
            } else {
                Call::SetPosition { us: (n * 1000) as i64 }
            }
        },
        MediaAction::SetVolume { percent } => Call::SetVolume { percent: *percent },
    }
}

/// How far to seek to be past the start from `here`.
pub fn rewind_by(here: i64) -> (us: i64)
    ensures
        us == -(if here + 1_000_000 > i64::MAX {
            i64::MAX as int
        } else {
            here + 1_000_000
        }),
        here >= 0 ==> us < 0,
{
    if here > i64::MAX - 1_000_000 {
        -i64::MAX
    } else {
        -(here + 1_000_000)
    }
}

/// What is said of a player that reports no track id. The id pins a position to
/// this track, not to whatever plays next; it is required.
pub fn no_track(name: &str) -> (e: String)
    ensures
        e@ == name@ + " reports no track id"@,
{
    join2(name, " reports no track id")
}

/// What came of setting a player's volume, read back rather than trusted:
/// Chromium accepts the write and ignores it. A player that cannot be read back
/// is believed.
pub fn volume_outcome(name: &str, percent: u8, landed: Option<u8>) -> (r: Result<(), String>)
    ensures
        r is Ok <==> (landed matches Some(v) ==> apart(v, percent) <= 5),
        r matches Err(e) ==> e@ == name@
            + " ignores volume changes; use the player's own controls"@,
{
    match landed {
        None => Ok(()),
        Some(v) => if took(v, percent) {
            Ok(())
        } else {
            Err(join2(name, " ignores volume changes; use the player's own controls"))
        },
    }
}

/// Whether a reading answers a command: there is nothing to compare it with, it
/// shows the command or cannot show it, or there is no more time.
pub fn settled(
    action: &MediaAction,
    player: &str,
    before: Option<&MediaState>,
    now: &MediaState,
    out_of_time: bool,
) -> (r: bool)
    ensures
        r == (match before {
            None => true,
            Some(b) => out_of_time || acted(*action, player@, b@, now@) != Some(false),
        }),
{
    match before {
        None => true,
        Some(b) => match landed(action, player, b, now) {
            Some(false) => out_of_time,
            _ => true,
        },
    }
}

/// Each command calls what it is called; times are counted in microseconds, as far as
/// there are any, and a position at the start is a rewind.
pub proof fn each_command_calls_what_it_is_called(a: MediaAction, c: Call)
    requires
        call_ensures(call, (&a,), c),
    ensures
        a is Play <==> c is Play,
        a is Pause <==> c is Pause,
        a is PlayPause <==> c is PlayPause,
        a is Next <==> c is Next,
        a is Previous <==> c is Previous,
        a is Stop <==> c is Stop,
        a matches MediaAction::Seek { offset_ms } ==> (c matches Call::Seek { us } && (
        -9_000_000_000_000_000 <= offset_ms <= 9_000_000_000_000_000 ==> us == offset_ms * 1000) && (
        offset_ms >= 0 ==> us >= 0) && (offset_ms <= 0 ==> us <= 0)),
        a matches MediaAction::SetPosition { ms } ==> (ms == 0 ==> c is Rewind),
        a matches MediaAction::SetPosition { ms } ==> (0 < ms <= 9_000_000_000_000_000 ==> c == (
        Call::SetPosition { us: (ms * 1000) as i64 })),
        a matches MediaAction::SetVolume { percent } ==> c == (Call::SetVolume { percent }),
{
}

/// A time in microseconds is that many whole milliseconds, and none where it is negative;
/// a length is read the same whichever way it was written.
pub proof fn times_are_in_milliseconds(us: i64, r: u64, n: u64, l: u64, m: u64)
    requires
        call_ensures(to_ms, (us,), r),
        call_ensures(length_ms, (Some(us), None), l),
        call_ensures(length_ms, (None, Some(n)), m),
    ensures
        us >= 0 ==> r * 1000 <= us < r * 1000 + 1000,
        us < 0 ==> r == 0,
        l == r,
        m * 1000 <= n < m * 1000 + 1000,
{
}

/// A player is reported as it says it is: under its own id, by its name or, where it has
/// none, its id, and able to do what it says it can and nothing that it does not say.
pub proof fn a_player_is_what_it_says_it_is(r: Reading, p: MediaPlayer)
    requires
        call_ensures(player, (r,), p),
    ensures
        p@.id == id_of(r.bus@),
        r.identity matches Some(n) ==> p@.name == n@,
        r.identity is None ==> p@.name == p@.id,
        r.status matches Some(t) ==> p@.status == lowercase(t@),
        r.status is None ==> p@.status == lowercase(STOPPED@),
        p@.title == r.title@,
        p@.artist == r.artist@,
        p@.album == r.album@,
        p@.length_ms == r.length_ms,
        r.position_us is None ==> p@.position_ms == 0,
        r.position_us matches Some(us) ==> us >= 0 ==> p@.position_ms * 1000 <= us
            < p@.position_ms * 1000 + 1000,
        p@.volume_percent == r.volume_percent,
        p@.can_go_next <==> r.can_go_next == Some(true),
        p@.can_go_previous <==> r.can_go_previous == Some(true),
        p@.can_seek <==> r.can_seek == Some(true),
        p@.can_control <==> r.can_control == Some(true),
{
    assert(p@ == player_of(r));
}

/// With nothing playing, one that is paused is active; with nothing paused either, the
/// first there is; and with nobody there, nobody.
pub proof fn what_is_paused_comes_next(p: Seq<PlayerView>, k: int)
    requires
        forall|i: int| 0 <= i < p.len() ==> (#[trigger] p[i]).status != PLAYING@,
    ensures
        0 <= k < p.len() && p[k].status == PAUSED@ ==> exists|i: int|
            0 <= i < p.len() && (#[trigger] p[i]).status == PAUSED@ && p[i].id == active_of(p),
        (p.len() > 0 && forall|i: int| 0 <= i < p.len() ==> (#[trigger] p[i]).status != PAUSED@)
            ==> active_of(p) == p[0].id,
        p.len() == 0 ==> active_of(p).len() == 0,
{
    first_fit_fits(p, PLAYING@, true, 0);
    first_fit_fits(p, PLAYING@, false, 0);
    first_fit_fits(p, PAUSED@, true, 0);
    first_fit_fits(p, PAUSED@, false, 0);
    if 0 <= k < p.len() && p[k].status == PAUSED@ {
        first_fit_is_found(p, PAUSED@, false, 0, k);
    }
}

/// The players of a bus are the names with the players' prefix, but for the one that only
/// mirrors others, each as often as it was there.
pub proof fn every_player_is_found(names: Vec<String>, r: Vec<String>, n: Seq<char>)
    requires
        call_ensures(player_names, (&names,), r),
    ensures
        texts(r@).contains(n) <==> texts(names@).contains(n)
            && "org.mpris.MediaPlayer2."@.is_prefix_of(n) && n
            != "org.mpris.MediaPlayer2.playerctld"@,
{
    let all = texts(names@);
    let test = |n: Seq<char>| is_player(n);
    let some = all.filter(test);
    assert(texts(r@).to_multiset() == some.to_multiset());
    texts(r@).to_multiset_ensures();
    some.to_multiset_ensures();
    assert(texts(r@).to_multiset().count(n) == some.to_multiset().count(n));
    assert(texts(r@).contains(n) <==> some.contains(n));
    if some.contains(n) {
        all.lemma_filter_contains_rev(test, n);
        let i = choose|i: int| 0 <= i < some.len() && some[i] == n;
        all.lemma_filter_pred(test, i);
    }
    if all.contains(n) && test(n) {
        let i = choose|i: int| 0 <= i < all.len() && all[i] == n;
        all.lemma_filter_contains(test, i);
    }
}

/// A volume without a player is the machine's own, and nothing else is; a command without
/// one is for the active player, and one with a name for the player of that name.
pub proof fn a_command_finds_its_target(
    name: &str,
    action: MediaAction,
    m: Option<u8>,
    s: MediaState,
    r: Result<&MediaPlayer, String>,
)
    requires
        call_ensures(machine_volume, (name, &action), m),
        call_ensures(target, (name, &s), r),
    ensures
        m matches Some(v) ==> action == (MediaAction::SetVolume { percent: v }) && name@.len() == 0,
        name@.len() == 0 && action is SetVolume ==> m is Some,
        r matches Ok(p) ==> p@.can_control && (name@.len() > 0 ==> player_with(
            s@.players,
            name@,
        ) == Some(p@)) && (name@.len() == 0 ==> player_with(s@.players, s@.active) == Some(p@)),
        name@.len() == 0 && s@.active.len() == 0 ==> (r matches Err(e) && e@
            == "nothing is playing"@),
        name@.len() > 0 && player_with(s@.players, name@) is None ==> (r matches Err(e) && e@
            == "no player called "@ + name@),
        name@.len() > 0 && (player_with(s@.players, name@) matches Some(p) && p.can_control)
            ==> r is Ok,
{
}

/// Rewinding seeks past the start from wherever the track is.
pub proof fn rewinding_gets_to_the_start(here: i64, us: i64)
    requires
        call_ensures(rewind_by, (here,), us),
        0 <= here <= i64::MAX - 1_000_000,
    ensures
        here + us < 0,
        us == -here - 1_000_000,
{
}

/// A volume that a player took, or that cannot be read back, is fine; one it ignored is
/// said to be ignored. A reading settles a command where it shows it, cannot show it, or
/// there is no time left.
pub proof fn what_a_player_ignores_is_said(
    name: &str,
    percent: u8,
    landed: Option<u8>,
    r: Result<(), String>,
    action: MediaAction,
    player: &str,
    was: MediaState,
    now: MediaState,
    late: bool,
    done: bool,
)
    requires
        call_ensures(volume_outcome, (name, percent, landed), r),
        call_ensures(settled, (&action, player, Some(&was), &now, late), done),
    ensures
        landed is None ==> r is Ok,
        landed == Some(percent) ==> r is Ok,
        landed matches Some(v) ==> (v > percent + 5 || percent > v + 5) ==> (r matches Err(e)
            && e@ == name@ + " ignores volume changes; use the player's own controls"@),
        late ==> done,
        acted(action, player@, was@, now@) == Some(true) ==> done,
        acted(action, player@, was@, now@) is None ==> done,
        !late && acted(action, player@, was@, now@) == Some(false) ==> !done,
{
}

/// Artists are listed in order, with a comma and a space between.
pub proof fn artists_are_listed_in_order(list: Seq<Seq<char>>, one: Seq<char>)
    ensures
        listed(seq![one]) == one,
        list.len() > 0 ==> listed(list.push(one)) == listed(list) + seq![',', ' '] + one,
{
    reveal_strlit(", ");
    assert(", "@ =~= seq![',', ' ']);
    assert(list.push(one).drop_last() =~= list);
}

/// The state that is reported holds every player as it is, the machine's volume, and the
/// player that a command without a name goes to.
pub proof fn a_state_holds_every_player(players: Vec<MediaPlayer>, volume: Option<u8>, s: MediaState)
    requires
        call_ensures(state, (players, volume), s),
    ensures
        s@.players == views(players@),
        s@.system_volume == volume,
        s@.active == active_of(views(players@)),
{
}

/// A player that takes no orders is refused by its name, and so is one without a track to
/// move in.
pub proof fn a_player_that_cannot_be_moved_is_named<'a>(
    player: &str,
    state: &'a MediaState,
    r: Result<&'a MediaPlayer, String>,
    p: PlayerView,
    name: &str,
    e: String,
)
    requires
        call_ensures(target, (player, state), r),
        player@.len() > 0,
        player_with(state@.players, player@) == Some(p),
        call_ensures(no_track, (name,), e),
    ensures
        r is Ok <==> p.can_control,
        r matches Ok(q) ==> q@ == p,
        r matches Err(why) ==> why@ == p.name + " does not accept control"@,
        e@ == name@ + " reports no track id"@,
{
}

} // verus!
