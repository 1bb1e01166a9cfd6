//! `org.acrylius.media/1`: control whatever is playing.
//!
//! The protocol half only. Which player a machine has, and what "the active
//! one" means there, is the host's business: on Linux that is MPRIS, and on
//! another host it would be something else entirely.
//!
//! Two things are decided here rather than in the host, because a second host
//! would have to make the same promises:
//!
//! * A command with no player named goes to the active one. A remote whose
//!   buttons stop working because a second player appeared is worse than one
//!   that occasionally guesses, and the guess is visible: `state` says which
//!   player is active, so a caller that cares can name one.
//! * `position` is reported, never counted. A phone that ticked a position
//!   forward on its own would drift, and would keep ticking after the media
//!   stopped somewhere it could not see.
//!
//! Album art is deliberately absent. MPRIS hands over a URL, usually to a file
//! on the machine the phone cannot read, and the image itself is far past what
//! an envelope should carry: it belongs on the bulk channel.
use crate::body::{
    body_reads_back, field_list, from_bytes, list_field, list_item, list_reads, put_list, to_bytes, value_of, views,
    Body,
};
use crate::cbor::{
    array_reads, bool_field, bool_item, bool_reads, close, end_of, every_end_is_later, field_bool,
    field_i64, field_maybe_u8, field_text, field_u64, got, head, int_field, int_item, int_reads,
    maybe_field, maybe_item, maybe_reads, open, open_at, open_moves_on, put_array, put_bool,
    put_int, put_maybe, put_text, put_uint, rest, stands_split, text_field, text_item, text_reads,
    uint_field, uint_reads, written_on, Place,
};
use crate::ids::DeviceId;
use crate::plugin::{
    after, answer, both_ways, Cx, CxView, FaultView, Memory, Plugin, PluginError, PluginManifest,
    SendView, Told, REPLY_SLACK_MS,
};
use crate::plugins::roster::{
    a_round_reaches_everyone_else, departed, departed_is_gone, joined, joined_is_there, sent_round,
    Pending, PendingView, Roster,
};
use crate::table::Table;
use crate::text::{copy_bytes, is_empty, same};
use crate::vocab::{
    Effect, EffectKind, EffectResult, EffectToken, EffectView, MediaAction, ResultView, TransferId,
};
use crate::wire::{Envelope, EnvelopeView};
use vstd::prelude::*;

verus! {

pub const CAP: &'static str = "org.acrylius.media/1";

/// How long a host may spend waiting for a command to show up in a reading
/// before it answers with whatever it has.
///
/// A player acts on an MPRIS call asynchronously, so the first reading after one
/// is routinely the state we started from. Short, because most players act in
/// well under a tenth of a second, and a player that has not moved by now was
/// probably never going to.
pub const CONTROL_CONFIRM_MS: u64 = 1_500;

/// How long a client waits for the answer to a media command: the host's budget
/// plus [`REPLY_SLACK_MS`].
pub const CONTROL_REPLY_BUDGET_MS: u64 = CONTROL_CONFIRM_MS + REPLY_SLACK_MS;

/// A client waits longer than the host may take.
pub proof fn a_client_outwaits_the_host()
    ensures
        CONTROL_REPLY_BUDGET_MS > CONTROL_CONFIRM_MS,
{
}

/// The values [`MediaPlayer::status`] may take. A host lower-cases whatever its
/// own player vocabulary is down to one of these.
pub const PLAYING: &'static str = "playing";

/// See [`PLAYING`].
pub const PAUSED: &'static str = "paused";

/// See [`PLAYING`].
pub const STOPPED: &'static str = "stopped";

/// One player, as the host found it.
#[derive(PartialEq, Eq, Debug)]
pub struct MediaPlayer {
    /// Stable enough to name in a command. On Linux, the MPRIS bus suffix.
    pub id: String,
    /// What to show a person: "Spotify", "Firefox".
    pub name: String,
    /// `playing`, `paused` or `stopped`.
    pub status: String,
    pub title: String,
    pub artist: String,
    pub album: String,
    /// Milliseconds. Zero when the player does not say, common for streams.
    pub length_ms: u64,
    /// Milliseconds, as read at the moment the state was taken. Never counted
    /// forward by a receiver: it would drift, and would keep counting after the
    /// media stopped somewhere the receiver cannot see.
    pub position_ms: u64,
    /// 0 to 100, or absent when the player has no volume of its own.
    pub volume_percent: Option<u8>,
    pub can_go_next: bool,
    pub can_go_previous: bool,
    pub can_seek: bool,
    /// False for a player that only reports. Sending it commands is refused
    /// rather than attempted, so a dead button is visibly dead.
    pub can_control: bool,
}

/// The model of a [`MediaPlayer`].
pub struct PlayerView {
    pub id: Seq<char>,
    pub name: Seq<char>,
    pub status: Seq<char>,
    pub title: Seq<char>,
    pub artist: Seq<char>,
    pub album: Seq<char>,
    pub length_ms: u64,
    pub position_ms: u64,
    pub volume_percent: Option<u8>,
    pub can_go_next: bool,
    pub can_go_previous: bool,
    pub can_seek: bool,
    pub can_control: bool,
}

impl View for MediaPlayer {
    type V = PlayerView;

    open spec fn view(&self) -> PlayerView {
        PlayerView {
            id: self.id@,
            name: self.name@,
            status: self.status@,
            title: self.title@,
            artist: self.artist@,
            album: self.album@,
            length_ms: self.length_ms,
            position_ms: self.position_ms,
            volume_percent: self.volume_percent,
            can_go_next: self.can_go_next,
            can_go_previous: self.can_go_previous,
            can_seek: self.can_seek,
            can_control: self.can_control,
        }
    }
}

impl Clone for MediaPlayer {
    fn clone(&self) -> (r: MediaPlayer)
        ensures
            r@ == self@,
    {
        MediaPlayer {
            id: self.id.clone(),
            name: self.name.clone(),
            status: self.status.clone(),
            title: self.title.clone(),
            artist: self.artist.clone(),
            album: self.album.clone(),
            length_ms: self.length_ms,
            position_ms: self.position_ms,
            volume_percent: self.volume_percent,
            can_go_next: self.can_go_next,
            can_go_previous: self.can_go_previous,
            can_seek: self.can_seek,
            can_control: self.can_control,
        }
    }
}

impl Default for MediaPlayer {
    fn default() -> (p: MediaPlayer)
        ensures
            p@ == (PlayerView {
                id: Seq::empty(),
                name: Seq::empty(),
                status: Seq::empty(),
                title: Seq::empty(),
                artist: Seq::empty(),
                album: Seq::empty(),
                length_ms: 0,
                position_ms: 0,
                volume_percent: None,
                can_go_next: false,
                can_go_previous: false,
                can_seek: false,
                can_control: false,
            }),
    {
        let p = MediaPlayer {
            id: String::new(),
            name: String::new(),
            status: String::new(),
            title: String::new(),
            artist: String::new(),
            album: String::new(),
            length_ms: 0,
            position_ms: 0,
            volume_percent: None,
            can_go_next: false,
            can_go_previous: false,
            can_seek: false,
            can_control: false,
        };
        assert(p@.id =~= Seq::<char>::empty() && p@.name =~= Seq::<char>::empty() && p@.status
            =~= Seq::<char>::empty() && p@.title =~= Seq::<char>::empty() && p@.artist
            =~= Seq::<char>::empty() && p@.album =~= Seq::<char>::empty());
        p
    }
}

impl Body for MediaPlayer {
    open spec fn item(v: PlayerView) -> Seq<u8> {
        head(4, 13) + text_item(v.id) + text_item(v.name) + text_item(v.status)
            + text_item(v.title) + text_item(v.artist) + text_item(v.album)
            + head(0, v.length_ms as int) + head(0, v.position_ms as int)
            + maybe_item(v.volume_percent) + bool_item(v.can_go_next)
            + bool_item(v.can_go_previous) + bool_item(v.can_seek) + bool_item(v.can_control)
    }

    open spec fn item_at(b: Seq<u8>, at: int) -> Option<(PlayerView, int)> {
        let id = text_field(b, open_at(b, at));
        let name = text_field(b, rest(id));
        let status = text_field(b, rest(name));
        let title = text_field(b, rest(status));
        let artist = text_field(b, rest(title));
        let album = text_field(b, rest(artist));
        let length_ms = uint_field(b, rest(album), u64::MAX as int);
        let position_ms = uint_field(b, rest(length_ms), u64::MAX as int);
        let volume_percent = maybe_field(b, rest(position_ms));
        let can_go_next = bool_field(b, rest(volume_percent));
        let can_go_previous = bool_field(b, rest(can_go_next));
        let can_seek = bool_field(b, rest(can_go_previous));
        let can_control = bool_field(b, rest(can_seek));
        match end_of(b, rest(can_control)) {
            Some(end) => Some(
                (
                    PlayerView {
                        id: got(id),
                        name: got(name),
                        status: got(status),
                        title: got(title),
                        artist: got(artist),
                        album: got(album),
                        length_ms: got(length_ms) as u64,
                        position_ms: got(position_ms) as u64,
                        volume_percent: got(volume_percent),
                        can_go_next: got(can_go_next),
                        can_go_previous: got(can_go_previous),
                        can_seek: got(can_seek),
                        can_control: got(can_control),
                    },
                    end,
                ),
            ),
            None => None,
        }
    }

    proof fn item_reads(w: Seq<u8>, at: int, v: PlayerView) {
        let p0 = head(4, 13);
        let p1 = p0 + text_item(v.id);
        let p2 = p1 + text_item(v.name);
        let p3 = p2 + text_item(v.status);
        let p4 = p3 + text_item(v.title);
        let p5 = p4 + text_item(v.artist);
        let p6 = p5 + text_item(v.album);
        let p7 = p6 + head(0, v.length_ms as int);
        let p8 = p7 + head(0, v.position_ms as int);
        let p9 = p8 + maybe_item(v.volume_percent);
        let p10 = p9 + bool_item(v.can_go_next);
        let p11 = p10 + bool_item(v.can_go_previous);
        let p12 = p11 + bool_item(v.can_seek);
        stands_split(w, at, p12, bool_item(v.can_control));
        stands_split(w, at, p11, bool_item(v.can_seek));
        stands_split(w, at, p10, bool_item(v.can_go_previous));
        stands_split(w, at, p9, bool_item(v.can_go_next));
        stands_split(w, at, p8, maybe_item(v.volume_percent));
        stands_split(w, at, p7, head(0, v.position_ms as int));
        stands_split(w, at, p6, head(0, v.length_ms as int));
        stands_split(w, at, p5, text_item(v.album));
        stands_split(w, at, p4, text_item(v.artist));
        stands_split(w, at, p3, text_item(v.title));
        stands_split(w, at, p2, text_item(v.status));
        stands_split(w, at, p1, text_item(v.name));
        stands_split(w, at, p0, text_item(v.id));
        let q0 = Place { at: at + p0.len(), left: Some(13) };
        assert(open_at(w, at) == Some(q0)) by {
            array_reads(w, at, 13);
        }
        let q1 = Place { at: at + p1.len(), left: Some(12) };
        assert(text_field(w, Some(q0)) == Some((v.id, q1))) by {
            text_reads(w, at + p0.len(), v.id);
        }
        let q2 = Place { at: at + p2.len(), left: Some(11) };
        assert(text_field(w, Some(q1)) == Some((v.name, q2))) by {
            text_reads(w, at + p1.len(), v.name);
        }
        let q3 = Place { at: at + p3.len(), left: Some(10) };
        assert(text_field(w, Some(q2)) == Some((v.status, q3))) by {
            text_reads(w, at + p2.len(), v.status);
        }
        let q4 = Place { at: at + p4.len(), left: Some(9) };
        assert(text_field(w, Some(q3)) == Some((v.title, q4))) by {
            text_reads(w, at + p3.len(), v.title);
        }
        let q5 = Place { at: at + p5.len(), left: Some(8) };
        assert(text_field(w, Some(q4)) == Some((v.artist, q5))) by {
            text_reads(w, at + p4.len(), v.artist);
        }
        let q6 = Place { at: at + p6.len(), left: Some(7) };
        assert(text_field(w, Some(q5)) == Some((v.album, q6))) by {
            text_reads(w, at + p5.len(), v.album);
        }
        let q7 = Place { at: at + p7.len(), left: Some(6) };
        assert(uint_field(w, Some(q6), u64::MAX as int) == Some((v.length_ms as int, q7))) by {
            uint_reads(w, at + p6.len(), v.length_ms as int, u64::MAX as int);
        }
        let q8 = Place { at: at + p8.len(), left: Some(5) };
        assert(uint_field(w, Some(q7), u64::MAX as int) == Some((v.position_ms as int, q8))) by {
            uint_reads(w, at + p7.len(), v.position_ms as int, u64::MAX as int);
        }
        let q9 = Place { at: at + p9.len(), left: Some(4) };
        assert(maybe_field(w, Some(q8)) == Some((v.volume_percent, q9))) by {
            maybe_reads(w, at + p8.len(), v.volume_percent);
        }
        let q10 = Place { at: at + p10.len(), left: Some(3) };
        assert(bool_field(w, Some(q9)) == Some((v.can_go_next, q10))) by {
            bool_reads(w, at + p9.len(), v.can_go_next);
        }
        let q11 = Place { at: at + p11.len(), left: Some(2) };
        assert(bool_field(w, Some(q10)) == Some((v.can_go_previous, q11))) by {
            bool_reads(w, at + p10.len(), v.can_go_previous);
        }
        let q12 = Place { at: at + p12.len(), left: Some(1) };
        assert(bool_field(w, Some(q11)) == Some((v.can_seek, q12))) by {
            bool_reads(w, at + p11.len(), v.can_seek);
        }
        let q13 = Place { at: at + Self::item(v).len(), left: Some(0) };
        assert(bool_field(w, Some(q12)) == Some((v.can_control, q13))) by {
            bool_reads(w, at + p12.len(), v.can_control);
        }
        array_reads(w, at, 13);
    }

    proof fn item_moves_on(b: Seq<u8>, at: int) {
        open_moves_on(b, at);
        every_end_is_later(b);
    }

    fn put(&self, out: &mut Vec<u8>) {
        put_array(out, 13);
        let ghost v = self@;
        let ghost p0 = head(4, 13);
        put_text(out, self.id.as_str());
        let ghost p1 = p0 + text_item(v.id);
        proof {
            written_on(old(out)@, p0, text_item(v.id));
        }
        put_text(out, self.name.as_str());
        let ghost p2 = p1 + text_item(v.name);
        proof {
            written_on(old(out)@, p1, text_item(v.name));
        }
        put_text(out, self.status.as_str());
        let ghost p3 = p2 + text_item(v.status);
        proof {
            written_on(old(out)@, p2, text_item(v.status));
        }
        put_text(out, self.title.as_str());
        let ghost p4 = p3 + text_item(v.title);
        proof {
            written_on(old(out)@, p3, text_item(v.title));
        }
        put_text(out, self.artist.as_str());
        let ghost p5 = p4 + text_item(v.artist);
        proof {
            written_on(old(out)@, p4, text_item(v.artist));
        }
        put_text(out, self.album.as_str());
        let ghost p6 = p5 + text_item(v.album);
        proof {
            written_on(old(out)@, p5, text_item(v.album));
        }
        put_uint(out, self.length_ms);
        let ghost p7 = p6 + head(0, v.length_ms as int);
        proof {
            written_on(old(out)@, p6, head(0, v.length_ms as int));
        }
        put_uint(out, self.position_ms);
        let ghost p8 = p7 + head(0, v.position_ms as int);
        proof {
            written_on(old(out)@, p7, head(0, v.position_ms as int));
        }
        put_maybe(out, self.volume_percent);
        let ghost p9 = p8 + maybe_item(v.volume_percent);
        proof {
            written_on(old(out)@, p8, maybe_item(v.volume_percent));
        }
        put_bool(out, self.can_go_next);
        let ghost p10 = p9 + bool_item(v.can_go_next);
        proof {
            written_on(old(out)@, p9, bool_item(v.can_go_next));
        }
        put_bool(out, self.can_go_previous);
        let ghost p11 = p10 + bool_item(v.can_go_previous);
        proof {
            written_on(old(out)@, p10, bool_item(v.can_go_previous));
        }
        put_bool(out, self.can_seek);
        let ghost p12 = p11 + bool_item(v.can_seek);
        proof {
            written_on(old(out)@, p11, bool_item(v.can_seek));
        }
        put_bool(out, self.can_control);
        let ghost p13 = p12 + bool_item(v.can_control);
        proof {
            written_on(old(out)@, p12, bool_item(v.can_control));
        }
    }

    fn get(b: &[u8], at: usize) -> (r: Option<(MediaPlayer, usize)>) {
        let c = open(b, at)?;
        let (id, c) = field_text(b, c)?;
        let (name, c) = field_text(b, c)?;
        let (status, c) = field_text(b, c)?;
        let (title, c) = field_text(b, c)?;
        let (artist, c) = field_text(b, c)?;
        let (album, c) = field_text(b, c)?;
        let (length_ms, c) = field_u64(b, c)?;
        let (position_ms, c) = field_u64(b, c)?;
        let (volume_percent, c) = field_maybe_u8(b, c)?;
        let (can_go_next, c) = field_bool(b, c)?;
        let (can_go_previous, c) = field_bool(b, c)?;
        let (can_seek, c) = field_bool(b, c)?;
        let (can_control, c) = field_bool(b, c)?;
        let end: usize = close(b, c)?;
        Some(
            (
                MediaPlayer {
                    id,
                    name,
                    status,
                    title,
                    artist,
                    album,
                    length_ms,
                    position_ms,
                    volume_percent,
                    can_go_next,
                    can_go_previous,
                    can_seek,
                    can_control,
                },
                end,
            ),
        )
    }
}

/// The host's answer to [`Effect::MediaQuery`], and the payload of `state`.
#[derive(Clone, PartialEq, Eq, Debug)]
pub struct MediaState {
    pub players: Vec<MediaPlayer>,
    /// The id a command with no player named goes to. Empty when there is
    /// nothing playing anywhere.
    pub active: String,
    /// The machine's own output volume, 0 to 100, or `None` where there is no
    /// mixer to ask.
    ///
    /// Separate from a player's, and not the same question. MPRIS gives every
    /// player a writable `Volume` that a great many of them ignore, so a remote
    /// that offered only that would have a slider working for some of what you
    /// play and silently not for the rest. This one always moves something.
    pub system_volume: Option<u8>,
}

/// The model of a [`MediaState`].
pub struct StateView {
    pub players: Seq<PlayerView>,
    pub active: Seq<char>,
    pub system_volume: Option<u8>,
}

impl View for MediaState {
    type V = StateView;

    open spec fn view(&self) -> StateView {
        StateView {
            players: views(self.players@),
            active: self.active@,
            system_volume: self.system_volume,
        }
    }
}

impl Default for MediaState {
    fn default() -> (s: MediaState)
        ensures
            s@ == (StateView { players: Seq::empty(), active: Seq::empty(), system_volume: None }),
    {
        let s = MediaState { players: Vec::new(), active: String::new(), system_volume: None };
        assert(s@.players =~= Seq::<PlayerView>::empty());
        assert(s@.active =~= Seq::<char>::empty());
        s
    }
}

impl Body for MediaState {
    open spec fn item(v: StateView) -> Seq<u8> {
        match v.system_volume {
            Some(n) => head(4, 3) + list_item::<MediaPlayer>(v.players) + text_item(v.active)
                + head(0, n as int),
            None => head(4, 2) + list_item::<MediaPlayer>(v.players) + text_item(v.active),
        }
    }

    open spec fn item_at(b: Seq<u8>, at: int) -> Option<(StateView, int)> {
        let players = list_field::<MediaPlayer>(b, open_at(b, at));
        let active = text_field(b, rest(players));
        let system_volume = maybe_field(b, rest(active));
        match end_of(b, rest(system_volume)) {
            Some(end) => Some(
                (
                    StateView {
                        players: got(players),
                        active: got(active),
                        system_volume: got(system_volume),
                    },
                    end,
                ),
            ),
            None => None,
        }
    }

    proof fn item_reads(w: Seq<u8>, at: int, v: StateView) {
        match v.system_volume {
            Some(n) => {
                let p0 = head(4, 3);
                let p1 = p0 + list_item::<MediaPlayer>(v.players);
                let p2 = p1 + text_item(v.active);
                stands_split(w, at, p2, head(0, n as int));
                stands_split(w, at, p1, text_item(v.active));
                stands_split(w, at, p0, list_item::<MediaPlayer>(v.players));
                array_reads(w, at, 3);
                list_reads::<MediaPlayer>(w, at + p0.len(), v.players);
                text_reads(w, at + p1.len(), v.active);
                uint_reads(w, at + p2.len(), n as int, u8::MAX as int);
            },
            None => {
                let p0 = head(4, 2);
                let p1 = p0 + list_item::<MediaPlayer>(v.players);
                stands_split(w, at, p1, text_item(v.active));
                stands_split(w, at, p0, list_item::<MediaPlayer>(v.players));
                array_reads(w, at, 2);
                list_reads::<MediaPlayer>(w, at + p0.len(), v.players);
                text_reads(w, at + p1.len(), v.active);
            },
        }
    }

    proof fn item_moves_on(b: Seq<u8>, at: int) {
        open_moves_on(b, at);
        every_end_is_later(b);
    }

    fn put(&self, out: &mut Vec<u8>) {
        put_array(out, if self.system_volume.is_some() { 3 } else { 2 });
        put_list::<MediaPlayer>(out, &self.players);
        put_text(out, self.active.as_str());
        match self.system_volume {
            Some(n) => put_uint(out, n as u64),
            None => {},
        }
        assert(out@ =~= old(out)@ + Self::item(self@));
    }

    fn get(b: &[u8], at: usize) -> (r: Option<(MediaState, usize)>) {
        let c = open(b, at)?;
        let (players, c) = field_list::<MediaPlayer>(b, c)?;
        let (active, c) = field_text(b, c)?;
        let (system_volume, c) = field_maybe_u8(b, c)?;
        let end: usize = close(b, c)?;
        Some((MediaState { players, active, system_volume }, end))
    }
}

/// A command, from a peer or from a local UI.
#[derive(Clone, PartialEq, Eq, Debug)]
pub struct MediaCommand {
    /// Empty for "whichever is active".
    pub player: String,
    /// Milliseconds for `seek` (may be negative) and `position`; 0 to 100 for
    /// `volume`. Ignored otherwise.
    pub value: i64,
}

/// The model of a [`MediaCommand`].
pub struct CommandView {
    pub player: Seq<char>,
    pub value: i64,
}

impl View for MediaCommand {
    type V = CommandView;

    open spec fn view(&self) -> CommandView {
        CommandView { player: self.player@, value: self.value }
    }
}

impl Default for MediaCommand {
    fn default() -> (c: MediaCommand)
        ensures
            c@ == (CommandView { player: Seq::empty(), value: 0 }),
    {
        let c = MediaCommand { player: String::new(), value: 0 };
        assert(c@.player =~= Seq::<char>::empty());
        c
    }
}

impl Body for MediaCommand {
    open spec fn item(v: CommandView) -> Seq<u8> {
        head(4, 2) + text_item(v.player) + int_item(v.value as int)
    }

    open spec fn item_at(b: Seq<u8>, at: int) -> Option<(CommandView, int)> {
        let player = text_field(b, open_at(b, at));
        let value = int_field(b, rest(player), i64::MAX as int);
        match end_of(b, rest(value)) {
            Some(end) => Some((CommandView { player: got(player), value: got(value) as i64 }, end)),
            None => None,
        }
    }

    proof fn item_reads(w: Seq<u8>, at: int, v: CommandView) {
        let p0 = head(4, 2);
        let p1 = p0 + text_item(v.player);
        stands_split(w, at, p1, int_item(v.value as int));
        stands_split(w, at, p0, text_item(v.player));
        array_reads(w, at, 2);
        text_reads(w, at + p0.len(), v.player);
        int_reads(w, at + p1.len(), v.value as int, i64::MAX as int);
    }

    proof fn item_moves_on(b: Seq<u8>, at: int) {
        open_moves_on(b, at);
        every_end_is_later(b);
    }

    fn put(&self, out: &mut Vec<u8>) {
        put_array(out, 2);
        put_text(out, self.player.as_str());
        put_int(out, self.value);
        assert(out@ =~= old(out)@ + Self::item(self@));
    }

    fn get(b: &[u8], at: usize) -> (r: Option<(MediaCommand, usize)>) {
        let c = open(b, at)?;
        let (player, c) = field_text(b, c)?;
        let (value, c) = field_i64(b, c)?;
        let end: usize = close(b, c)?;
        Some((MediaCommand { player, value }, end))
    }
}

pub struct MediaPlugin {
    pending: Table<u64, Pending>,
    connected: Roster,
    last: Option<MediaState>,
}

/// The model of a [`MediaPlugin`].
pub struct RemoteView {
    pub pending: Map<u64, PendingView>,
    pub connected: Seq<Seq<char>>,
    pub last: Option<StateView>,
}

impl View for MediaPlugin {
    type V = RemoteView;

    closed spec fn view(&self) -> RemoteView {
        RemoteView {
            pending: self.pending@,
            connected: self.connected@,
            last: match self.last {
                Some(s) => Some(s@),
                None => None,
            },
        }
    }
}

/// The verbs that carry no value.
pub open spec fn simple_verb(ty: Seq<char>) -> Option<MediaAction> {
    if ty == "play"@ {
        Some(MediaAction::Play)
    } else if ty == "pause"@ {
        Some(MediaAction::Pause)
    } else if ty == "playpause"@ {
        Some(MediaAction::PlayPause)
    } else if ty == "next"@ {
        Some(MediaAction::Next)
    } else if ty == "previous"@ {
        Some(MediaAction::Previous)
    } else if ty == "stop"@ {
        Some(MediaAction::Stop)
    } else {
        None
    }
}

/// What a verb with its value means, or why it is refused.
pub open spec fn verb(ty: Seq<char>, value: i64) -> Result<MediaAction, FaultView> {
    match simple_verb(ty) {
        Some(a) => Ok(a),
        None => if ty == "seek"@ {
            Ok(MediaAction::Seek { offset_ms: value })
        } else if ty == "position"@ {
            if value < 0 {
                Err(FaultView::NotAllowed)
            } else {
                Ok(MediaAction::SetPosition { ms: value as u64 })
            }
        } else if ty == "volume"@ {
            if 0 <= value <= 100 {
                Ok(MediaAction::SetVolume { percent: value as u8 })
            } else {
                Err(FaultView::NotAllowed)
            }
        } else {
            Err(FaultView::UnknownType(ty))
        },
    }
}

/// The first player with an id.
pub open spec fn player_with(players: Seq<PlayerView>, id: Seq<char>) -> Option<PlayerView>
    decreases players.len(),
{
    if players.len() == 0 {
        None
    } else if players[0].id == id {
        Some(players[0])
    } else {
        player_with(players.skip(1), id)
    }
}

/// Whether two readings are of the same track: what identifies it, without the
/// position, which moves on its own.
pub open spec fn same_track(a: PlayerView, b: PlayerView) -> bool {
    a.title == b.title && a.artist == b.artist && a.album == b.album && a.length_ms == b.length_ms
}

/// Whether a reading taken after `action` shows the player having acted on it;
/// `None` where a reading cannot answer that.
pub open spec fn acted(
    action: MediaAction,
    player: Seq<char>,
    before: StateView,
    now: StateView,
) -> Option<
    bool,
> {
    let target = if player.len() == 0 {
        before.active
    } else {
        player
    };
    let was = player_with(before.players, target);
    match player_with(now.players, target) {
        None => Some(action == MediaAction::Stop),
        Some(is) => match action {
            MediaAction::Play => Some(is.status == PLAYING@),
            MediaAction::Pause => Some(is.status == PAUSED@),
            MediaAction::Stop => Some(is.status == STOPPED@),
            MediaAction::PlayPause => match was {
                Some(w) => Some(w.status != is.status),
                None => None,
            },
            MediaAction::Next | MediaAction::Previous => match was {
                Some(w) => Some(!same_track(w, is)),
                None => None,
            },
            MediaAction::Seek { .. } | MediaAction::SetPosition { .. }
            | MediaAction::SetVolume { .. } => None,
        },
    }
}

/// A player as if its track stood at the start.
pub open spec fn still(p: PlayerView) -> PlayerView {
    PlayerView { position_ms: 0, ..p }
}

/// Whether a new reading differs in anything but where the tracks have got to.
pub open spec fn is_news(before: Option<StateView>, now: StateView) -> bool {
    match before {
        None => true,
        Some(b) => {
            ||| b.active != now.active
            ||| b.players.len() != now.players.len()
            ||| b.system_volume != now.system_volume
            ||| exists|k: int|
                0 <= k < now.players.len() && still(#[trigger] b.players[k]) != still(now.players[k])
        },
    }
}

pub type Step = (RemoteView, CxView, Result<(), FaultView>);

/// The host is asked for something, and where the answer goes is remembered.
pub open spec fn asked(s: RemoteView, cx: CxView, effect: EffectView, who: PendingView) -> Step {
    (
        RemoteView { pending: s.pending.insert(after(cx.next_token), who), ..s },
        cx.asked(effect),
        Ok(()),
    )
}

/// The command in a body; an empty body is a bare verb.
pub open spec fn command_of(body: Seq<u8>) -> Option<CommandView> {
    if body.len() == 0 {
        Some(CommandView { player: Seq::empty(), value: 0 })
    } else {
        value_of::<MediaCommand>(body)
    }
}

/// A message from a peer.
pub open spec fn message(
    s: RemoteView,
    cx: CxView,
    peer: Seq<char>,
    id: u32,
    ty: Seq<char>,
    body: Seq<u8>,
) -> Step {
    if ty == "query"@ {
        asked(s, cx, EffectView::MediaQuery, PendingView { peer, request: id, reply: "state"@ })
    } else if ty == "state"@ {
        (s, cx.told(peer, CAP@, ty, body), Ok(()))
    } else {
        match command_of(body) {
            None => (s, cx, Err(FaultView::BadBody)),
            Some(cmd) => match verb(ty, cmd.value) {
                Err(e) => (s, cx, Err(e)),
                Ok(action) => asked(
                    s,
                    cx,
                    EffectView::MediaControl { player: cmd.player, action },
                    PendingView { peer, request: id, reply: "state"@ },
                ),
            },
        }
    }
}

/// A request from the local screen.
pub open spec fn local(
    s: RemoteView,
    cx: CxView,
    peer: Seq<char>,
    ty: Seq<char>,
    body: Seq<u8>,
) -> Step {
    if ty == "notify"@ {
        asked(s, cx, EffectView::MediaQuery, PendingView { peer, request: 0, reply: "broadcast"@ })
    } else if ty == "query"@ {
        (s, cx.sent(peer, CAP@, "query"@, Seq::empty(), None), Ok(()))
    } else {
        match command_of(body) {
            None => (s, cx, Err(FaultView::BadBody)),
            Some(cmd) => match verb(ty, cmd.value) {
                Err(e) => (s, cx, Err(e)),
                Ok(_) => (s, cx.sent(peer, CAP@, ty, body, None), Ok(())),
            },
        }
    }
}

/// What is sent to whoever asked, when what was asked for failed. What nobody
/// asked for is answered to nobody.
pub open spec fn turned_down(
    cx: CxView,
    p: PendingView,
    code: Seq<char>,
    why: Seq<char>,
) -> CxView {
    if p.reply == "broadcast"@ {
        cx
    } else {
        cx.refused(p.peer, CAP@, p.request, code, why)
    }
}

/// The host has answered.
pub open spec fn effect_done(s: RemoteView, cx: CxView, token: u64, result: ResultView) -> (
    RemoteView,
    CxView,
) {
    if !s.pending.dom().contains(token) {
        (s, cx)
    } else {
        let p = s.pending[token];
        let left = RemoteView { pending: s.pending.remove(token), ..s };
        match result {
            ResultView::Done(data) => match value_of::<MediaState>(data) {
                None => (left, turned_down(cx, p, "internal"@, "unreadable state"@)),
                Some(state) => (
                    RemoteView { last: Some(state), ..left },
                    if p.reply != "broadcast"@ {
                        cx.sent(
                            p.peer,
                            CAP@,
                            "state"@,
                            MediaState::item(state),
                            Some(p.request),
                        )
                    } else if is_news(s.last, state) {
                        sent_round(cx, s.connected, None, CAP@, "state"@, MediaState::item(state))
                    } else {
                        cx
                    },
                ),
            },
            ResultView::Failed(detail) => (left, turned_down(cx, p, "effect_failed"@, detail)),
            ResultView::Unsupported => (
                left,
                turned_down(cx, p, "not_allowed"@, "this device has nothing to control"@),
            ),
        }
    }
}

/// The verbs that carry no value.
fn simple_action(ty: &str) -> (r: Option<MediaAction>)
    ensures
        r == simple_verb(ty@),
{
    if same(ty, "play") {
        Some(MediaAction::Play)
    } else if same(ty, "pause") {
        Some(MediaAction::Pause)
    } else if same(ty, "playpause") {
        Some(MediaAction::PlayPause)
    } else if same(ty, "next") {
        Some(MediaAction::Next)
    } else if same(ty, "previous") {
        Some(MediaAction::Previous)
    } else if same(ty, "stop") {
        Some(MediaAction::Stop)
    } else {
        None
    }
}

/// The place of the first player with an id.
pub(crate) fn find<'a>(players: &'a Vec<MediaPlayer>, id: &str) -> (r: Option<&'a MediaPlayer>)
    ensures
        r matches Some(p) ==> player_with(views(players@), id@) == Some(p@),
        r is None ==> player_with(views(players@), id@) is None,
{
    let ghost all = views(players@);
    assert(all.skip(0) =~= all);
    for i in 0..players.len()
        invariant
            all == views(players@),
            player_with(all, id@) == player_with(all.skip(i as int), id@),
    {
        proof {
            assert(all.skip(i as int)[0] == players@[i as int]@);
            assert(all.skip(i as int).skip(1) =~= all.skip(i + 1));
        }
        if same(players[i].id.as_str(), id) {
            return Some(&players[i]);
        }
    }
    None
}

/// Whether a reading taken after `action` shows the player having acted on it.
///
/// Here rather than in either host: both ends need this answer and they do not
/// share a runtime. A desktop waits on it before it answers a command, and a
/// phone uses it to decide whether the command it sent landed. A second
/// implementation of "did it land" is how one of them ends up reporting success
/// for something that did nothing.
///
/// `player` is the id the command named, or empty for "whichever was active",
/// which is resolved against `before` because that is the reading the command
/// was aimed at.
///
/// `None` means a reading cannot answer the question, and a caller that gets it
/// must stop waiting rather than guess. A seek moves a position that also moves
/// on its own, so nothing in a later reading tells a seek that worked from one
/// that was ignored; a volume set is confirmed by the host that wrote it,
/// against the value it asked for, which is not something a reading shows.
pub fn landed(
    action: &MediaAction,
    player: &str,
    before: &MediaState,
    now: &MediaState,
) -> (r: Option<
    bool,
>)
    ensures
        r == acted(*action, player@, before@, now@),
{
    let target: &str = if is_empty(player) {
        before.active.as_str()
    } else {
        player
    };
    let was = find(&before.players, target);
    // A player that has gone away since is not going to report anything. It has
    // certainly stopped; it has certainly not started.
    let is = match find(&now.players, target) {
        Some(p) => p,
        None => {
            return Some(matches!(action, MediaAction::Stop));
        },
    };
    match action {
        MediaAction::Play => Some(same(is.status.as_str(), PLAYING)),
        MediaAction::Pause => Some(same(is.status.as_str(), PAUSED)),
        MediaAction::Stop => Some(same(is.status.as_str(), STOPPED)),
        // Nothing absolute to compare against: the answer is whichever way it was
        // pointing before.
        MediaAction::PlayPause => match was {
            Some(w) => Some(!same(w.status.as_str(), is.status.as_str())),
            None => None,
        },
        MediaAction::Next | MediaAction::Previous => match was {
            Some(w) => Some(
                !(same(w.title.as_str(), is.title.as_str()) && same(
                    w.artist.as_str(),
                    is.artist.as_str(),
                ) && same(w.album.as_str(), is.album.as_str()) && w.length_ms == is.length_ms),
            ),
            None => None,
        },
        MediaAction::Seek { .. } | MediaAction::SetPosition { .. } | MediaAction::SetVolume {
            ..
        } => None,
    }
}

impl MediaPlayer {
    /// Whether two readings of a player differ in nothing but the position.
    fn same_but_position(&self, other: &MediaPlayer) -> (r: bool)
        ensures
            r == (still(self@) == still(other@)),
    {
        same(self.id.as_str(), other.id.as_str()) && same(self.name.as_str(), other.name.as_str())
            && same(self.status.as_str(), other.status.as_str()) && same(
            self.title.as_str(),
            other.title.as_str(),
        ) && same(self.artist.as_str(), other.artist.as_str()) && same(
            self.album.as_str(),
            other.album.as_str(),
        ) && self.length_ms == other.length_ms && self.volume_percent == other.volume_percent
            && self.can_go_next == other.can_go_next && self.can_go_previous == other.can_go_previous
            && self.can_seek == other.can_seek && self.can_control == other.can_control
    }
}

/// Whether a new reading is worth telling anyone about.
///
/// Everything except where the track has got to. A playing track's position
/// changes with every reading, so comparing whole states would find a
/// difference every time and broadcast a message a second, forever, to every
/// connected device. What a listener actually needs to hear about is a track
/// change, a pause, a volume move, or a player coming and going.
///
/// A phone still gets a position: it is in the state it receives, and it asks
/// again when someone is looking at it.
pub fn worth_announcing(before: &Option<MediaState>, now: &MediaState) -> (r: bool)
    ensures
        r == is_news(
            match *before {
                Some(s) => Some(s@),
                None => None,
            },
            now@,
        ),
{
    let was = match before {
        Some(b) => b,
        None => {
            return true;
        },
    };
    if !same(was.active.as_str(), now.active.as_str()) || was.players.len() != now.players.len()
        || was.system_volume != now.system_volume {
        return true;
    }
    for i in 0..now.players.len()
        invariant
            *before == Some(*was),
            was@.players.len() == now@.players.len(),
            forall|k: int| 0 <= k < i ==> still(#[trigger] was@.players[k]) == still(now@.players[k]),
    {
        if !was.players[i].same_but_position(&now.players[i]) {
            assert(still(was@.players[i as int]) != still(now@.players[i as int]));
            return true;
        }
    }
    false
}

impl MediaPlugin {
    /// Turn a message into an effect, refusing what cannot be honoured.
    ///
    /// Free rather than private, because a client needs the same mapping to ask
    /// [`landed`] whether the verb it sent has taken effect, and a second copy of
    /// "what does `playpause` mean" is how the two ends come to disagree.
    pub fn action_for(ty: &str, cmd: &MediaCommand) -> (r: Result<MediaAction, PluginError>)
        ensures
            match r {
                Ok(a) => verb(ty@, cmd.value) == Ok::<MediaAction, FaultView>(a),
                Err(e) => verb(ty@, cmd.value) == Err::<MediaAction, FaultView>(e@),
            },
    {
        match simple_action(ty) {
            Some(a) => {
                return Ok(a);
            },
            None => {},
        }
        if same(ty, "seek") {
            // Relative, because that is what a skip button means and it needs no
            // agreement about where the track currently is.
            Ok(MediaAction::Seek { offset_ms: cmd.value })
        } else if same(ty, "position") {
            if cmd.value < 0 {
                return Err(PluginError::NotAllowed);
            }
            Ok(MediaAction::SetPosition { ms: cmd.value as u64 })
        } else if same(ty, "volume") {
            // Range-checked here rather than at the host: every host would
            // otherwise have to remember, and one that forgot would hand a
            // player something it may or may not check itself.
            if cmd.value < 0 || cmd.value > 100 {
                return Err(PluginError::NotAllowed);
            }
            Ok(MediaAction::SetVolume { percent: cmd.value as u8 })
        } else {
            Err(PluginError::UnknownType(ty.to_owned()))
        }
    }

    fn read_command(body: &[u8]) -> (r: Option<MediaCommand>)
        ensures
            r matches Some(c) ==> command_of(body@) == Some(c@),
            r is None ==> command_of(body@) is None,
    {
        // An empty body is a bare verb: `next` needs no arguments, and requiring
        // an empty map for it would be ceremony.
        if body.len() == 0 {
            Some(MediaCommand::default())
        } else {
            from_bytes(body)
        }
    }

    fn ask(
        &mut self,
        cx: &mut Cx,
        effect: Effect,
        peer: &DeviceId,
        request: u32,
        reply: &'static str,
    ) -> (r: Result<(), PluginError>)
        ensures
            (final(self)@, final(cx)@, answer(r)) == asked(
                old(self)@,
                old(cx)@,
                effect@,
                PendingView { peer: peer@, request, reply: reply@ },
            ),
    {
        let token = cx.effect(effect);
        self.pending.insert(token.0, Pending { peer: peer.clone(), request, reply });
        Ok(())
    }
}

impl Default for MediaPlugin {
    fn default() -> (p: MediaPlugin)
        ensures
            p@ == (RemoteView { pending: Map::empty(), connected: Seq::empty(), last: None }),
    {
        MediaPlugin { pending: Table::new(), connected: Roster::new(), last: None }
    }
}

impl Plugin for MediaPlugin {
    open spec fn memory(&self) -> Memory {
        Memory::Media(self@)
    }

    open spec fn may(
        &self,
        told: Told,
        cx: CxView,
        after: CxView,
        r: Result<(), FaultView>,
        next: Memory,
    ) -> bool {
        match told {
            Told::Message { peer, env } => {
                let (end, told, said) = message(self@, cx, peer, env.id, env.ty, env.body);
                after == told && r == said && next == Memory::Media(end)
            },
            Told::Local { peer, ty, body } => {
                let (end, told, said) = local(self@, cx, peer, ty, body);
                after == told && r == said && next == Memory::Media(end)
            },
            Told::Answer { token, result } => {
                let (end, told) = effect_done(self@, cx, token, result);
                after == told && next == Memory::Media(end)
            },
            Told::Connected { peer } => {
                &&& next == Memory::Media(RemoteView { connected: joined(self@.connected, peer), ..self@ })
                &&& after == match self@.last {
                    Some(state) => cx.sent(peer, CAP@, "state"@, MediaState::item(state), None),
                    None => cx,
                }
            },
            Told::Disconnected { peer } => {
                &&& next == Memory::Media(RemoteView { connected: departed(self@.connected, peer), ..self@ })
                &&& after == cx
            },
            _ => after == cx && next == self.memory(),
        }
    }

    fn manifest(&self) -> (m: PluginManifest)
        ensures
            m@ == both_ways("org.acrylius.media"@, CAP@, seq![EffectKind::Media]),
    {
        let m = PluginManifest::both_ways("org.acrylius.media", CAP, vec![EffectKind::Media]);
        assert(m@.requires_effects =~= seq![EffectKind::Media]);
        m
    }

    fn on_peer_connected(&mut self, cx: &mut Cx, peer: &DeviceId)
        ensures
            final(self)@ == (RemoteView {
                connected: joined(old(self)@.connected, peer@),
                ..old(self)@
            }),
            final(cx)@ == (match old(self)@.last {
                Some(state) => old(cx)@.sent(peer@, CAP@, "state"@, MediaState::item(state), None),
                None => old(cx)@,
            }),
    {
        self.connected.add(peer);
        // Say what is playing without being asked. A remote that shows nothing
        // until you press something is a remote people assume is broken.
        match &self.last {
            Some(state) => cx.send(peer, CAP, "state", to_bytes(state)),
            None => {},
        }
    }

    fn on_peer_disconnected(&mut self, cx: &mut Cx, peer: &DeviceId)
        ensures
            final(self)@ == (RemoteView {
                connected: departed(old(self)@.connected, peer@),
                ..old(self)@
            }),
            final(cx)@ == old(cx)@,
    {
        self.connected.drop(peer);
    }

    fn on_message(&mut self, cx: &mut Cx, peer: &DeviceId, env: &Envelope) -> (r: Result<
        (),
        PluginError,
    >)
        ensures
            (final(self)@, final(cx)@, answer(r)) == message(
                old(self)@,
                old(cx)@,
                peer@,
                env.id,
                env.ty@,
                env.body@,
            ),
    {
        let ty = env.ty.as_str();
        if same(ty, "query") {
            return self.ask(cx, Effect::MediaQuery, peer, env.id, "state");
        }
        if same(ty, "state") {
            // A device that only sends may receive these and ignore them.
            cx.tell(peer, CAP, ty, copy_bytes(&env.body));
            return Ok(());
        }
        let cmd = match Self::read_command(&env.body) {
            Some(c) => c,
            None => return Err(PluginError::BadBody),
        };
        let action = match Self::action_for(ty, &cmd) {
            Ok(a) => a,
            Err(e) => return Err(e),
        };
        // Answered with the state afterwards rather than an acknowledgement. What
        // a caller wants to know is what happened to the music, and reading it
        // back is the only honest answer: a player may ignore a command, or clamp
        // a seek, or stop.
        self.ask(cx, Effect::MediaControl { player: cmd.player, action }, peer, env.id, "state")
    }

    fn on_local(&mut self, cx: &mut Cx, peer: &DeviceId, ty: &str, body: &[u8]) -> (r: Result<
        (),
        PluginError,
    >)
        ensures
            (final(self)@, final(cx)@, answer(r)) == local(old(self)@, old(cx)@, peer@, ty@, body@),
    {
        // The host noticed something change. The peer argument is ignored.
        if same(ty, "notify") {
            return self.ask(cx, Effect::MediaQuery, peer, 0, "broadcast");
        }
        if same(ty, "query") {
            cx.send(peer, CAP, "query", Vec::new());
            return Ok(());
        }
        // A local UI sends the same verbs a peer does, so the same validation
        // applies and there is one place it lives.
        let cmd = match Self::read_command(body) {
            Some(c) => c,
            None => return Err(PluginError::BadBody),
        };
        match Self::action_for(ty, &cmd) {
            Ok(_) => {},
            Err(e) => return Err(e),
        }
        cx.send(peer, CAP, ty, copy_bytes(body));
        Ok(())
    }

    fn on_effect_result(&mut self, cx: &mut Cx, token: EffectToken, result: &EffectResult)
        ensures
            (final(self)@, final(cx)@) == effect_done(old(self)@, old(cx)@, token.0, result@),
    {
        let p = match self.pending.remove(&token.0) {
            Some(p) => p,
            None => {
                proof {
                    let s = old(self)@;
                    assert(s.pending.remove(token.0) =~= s.pending);
                }
                return;
            },
        };
        let broadcast = same(p.reply, "broadcast");
        match result {
            EffectResult::Done(data) => {
                let state = match from_bytes::<MediaState>(data) {
                    Some(s) => s,
                    None => {
                        if !broadcast {
                            cx.send_error(&p.peer, CAP, p.request, "internal", "unreadable state");
                        }
                        return;
                    },
                };
                let changed = worth_announcing(&self.last, &state);
                let body = to_bytes(&state);
                self.last = Some(state);
                if broadcast {
                    if changed {
                        self.connected.tell_all(cx, None, CAP, "state", &body);
                    }
                } else {
                    cx.send_reply(&p.peer, CAP, "state", body, p.request);
                }
            },
            EffectResult::Failed(detail) => if !broadcast {
                cx.send_error(&p.peer, CAP, p.request, "effect_failed", detail.as_str());
            },
            EffectResult::Unsupported => if !broadcast {
                cx.send_error(
                    &p.peer,
                    CAP,
                    p.request,
                    "not_allowed",
                    "this device has nothing to control",
                );
            },
        }
    }

    fn on_bulk_listening(&mut self, cx: &mut Cx, transfer: TransferId, endpoint: &str)
        ensures
            *final(self) == *old(self),
            final(cx)@ == old(cx)@,
    {
    }

    fn on_bulk_finished(&mut self, cx: &mut Cx, transfer: TransferId, ok: bool, detail: &str)
        ensures
            *final(self) == *old(self),
            final(cx)@ == old(cx)@,
    {
    }

    fn on_tick(&mut self, cx: &mut Cx)
        ensures
            *final(self) == *old(self),
            final(cx)@ == old(cx)@,
    {
    }
}

/// A reading with every track back at its start.
pub open spec fn at_rest(s: StateView) -> StateView {
    StateView { players: s.players.map_values(|p: PlayerView| still(p)), ..s }
}

/// The first reading is announced, and after that just those that differ in more
/// than where the tracks have got to.
pub proof fn only_positions_go_unannounced(before: Option<StateView>, now: StateView)
    ensures
        is_news(before, now) <==> (before matches Some(b) ==> at_rest(b) != at_rest(now)),
{
    match before {
        Some(b) => {
            if !is_news(before, now) {
                assert(at_rest(b).players =~= at_rest(now).players) by {
                    assert forall|k: int| 0 <= k < now.players.len() implies at_rest(b).players[k]
                        == at_rest(now).players[k] by {
                        assert(still(b.players[k]) == still(now.players[k]));
                    }
                }
            } else if at_rest(b) == at_rest(now) {
                assert(at_rest(b).players.len() == b.players.len());
                assert(at_rest(now).players.len() == now.players.len());
                let k = choose|k: int|
                    0 <= k < now.players.len() && still(#[trigger] b.players[k]) != still(
                        now.players[k],
                    );
                assert(at_rest(b).players[k] == still(b.players[k]));
                assert(at_rest(now).players[k] == still(now.players[k]));
            }
        },
        None => {},
    }
}

/// A track that merely plays on is not announced.
pub proof fn playing_on_is_not_news(before: StateView, now: StateView)
    requires
        before.active == now.active,
        before.system_volume == now.system_volume,
        before.players.len() == now.players.len(),
        forall|k: int|
            0 <= k < now.players.len() ==> still(#[trigger] before.players[k]) == still(
                now.players[k],
            ),
    ensures
        !is_news(Some(before), now),
{
}

/// A reading cannot answer for a seek or a volume, unless the player is gone.
pub proof fn what_a_reading_cannot_answer(
    action: MediaAction,
    player: Seq<char>,
    before: StateView,
    now: StateView,
)
    requires
        action is Seek || action is SetPosition || action is SetVolume,
    ensures
        acted(action, player, before, now) is None || acted(action, player, before, now) == Some(false),
{
}

/// A player that has gone away has stopped, and has done nothing else.
pub proof fn a_player_that_is_gone_has_stopped(
    action: MediaAction,
    player: Seq<char>,
    before: StateView,
    now: StateView,
)
    requires
        player.len() > 0,
        player_with(now.players, player) is None,
    ensures
        acted(action, player, before, now) == Some(action == MediaAction::Stop),
{
}

/// A volume that reaches the host is a percentage.
pub proof fn a_volume_is_a_percentage(ty: Seq<char>, value: i64)
    ensures
        verb(ty, value) matches Ok(MediaAction::SetVolume { percent }) ==> percent <= 100,
{
}

proof fn verbs_differ()
    ensures
        "play"@ != "query"@ && "play"@ != "state"@ && "play"@ != "notify"@,
        "pause"@ != "query"@ && "pause"@ != "state"@ && "pause"@ != "notify"@ && "pause"@ != "play"@,
        "playpause"@ != "query"@ && "playpause"@ != "state"@ && "playpause"@ != "play"@ && "playpause"@
            != "pause"@ && "playpause"@ != "notify"@,
        "next"@ != "query"@ && "next"@ != "state"@ && "next"@ != "play"@ && "next"@ != "pause"@
            && "next"@ != "playpause"@ && "next"@ != "notify"@,
        "previous"@ != "query"@ && "previous"@ != "state"@ && "previous"@ != "play"@ && "previous"@
            != "pause"@ && "previous"@ != "playpause"@ && "previous"@ != "next"@ && "previous"@
            != "notify"@,
        "stop"@ != "query"@ && "stop"@ != "state"@ && "stop"@ != "play"@ && "stop"@ != "pause"@
            && "stop"@ != "playpause"@ && "stop"@ != "next"@ && "stop"@ != "previous"@ && "stop"@
            != "notify"@,
        "state"@ != "query"@ && "state"@ != "broadcast"@ && "query"@ != "notify"@,
        "seek"@ != "query"@ && "seek"@ != "state"@ && "seek"@ != "notify"@ && simple_verb("seek"@) is None,
        "position"@ != "query"@ && "position"@ != "state"@ && "position"@ != "notify"@ && "position"@
            != "seek"@ && simple_verb("position"@) is None,
        "volume"@ != "query"@ && "volume"@ != "state"@ && "volume"@ != "notify"@ && "volume"@ != "seek"@
            && "volume"@ != "position"@ && simple_verb("volume"@) is None,
{
    reveal_strlit("play");
    reveal_strlit("pause");
    reveal_strlit("playpause");
    reveal_strlit("next");
    reveal_strlit("previous");
    reveal_strlit("stop");
    reveal_strlit("query");
    reveal_strlit("state");
    reveal_strlit("notify");
    reveal_strlit("broadcast");
    reveal_strlit("seek");
    reveal_strlit("position");
    reveal_strlit("volume");
    assert("play"@.len() == 4 && "pause"@.len() == 5 && "playpause"@.len() == 9 && "next"@.len() == 4
        && "previous"@.len() == 8 && "stop"@.len() == 4 && "query"@.len() == 5 && "state"@.len() == 5
        && "notify"@.len() == 6 && "broadcast"@.len() == 9 && "seek"@.len() == 4 && "position"@.len()
        == 8 && "volume"@.len() == 6);
    assert("play"@[0] == 'p' && "next"@[0] == 'n' && "stop"@[0] == 's' && "seek"@[0] == 's');
    assert("stop"@[1] == 't' && "seek"@[1] == 'e');
    assert("pause"@[0] == 'p' && "query"@[0] == 'q' && "state"@[0] == 's');
    assert("previous"@[1] == 'r' && "position"@[1] == 'o');
    assert("notify"@[0] == 'n' && "volume"@[0] == 'v');
}

/// Each verb does what it is called: the simple ones their own action, a skip by as
/// much as was asked and in that direction, a position and a volume the one that was
/// asked for. A position before the start and a volume beyond what there is are refused.
pub proof fn each_verb_does_what_it_is_called(value: i64)
    ensures
        verb("play"@, value) == Ok::<MediaAction, FaultView>(MediaAction::Play),
        verb("pause"@, value) == Ok::<MediaAction, FaultView>(MediaAction::Pause),
        verb("playpause"@, value) == Ok::<MediaAction, FaultView>(MediaAction::PlayPause),
        verb("next"@, value) == Ok::<MediaAction, FaultView>(MediaAction::Next),
        verb("previous"@, value) == Ok::<MediaAction, FaultView>(MediaAction::Previous),
        verb("stop"@, value) == Ok::<MediaAction, FaultView>(MediaAction::Stop),
        verb("seek"@, value) == Ok::<MediaAction, FaultView>(MediaAction::Seek { offset_ms: value }),
        value >= 0 <==> verb("position"@, value) is Ok,
        verb("position"@, value) matches Ok(a) ==> (a matches MediaAction::SetPosition { ms } && ms
            == value),
        0 <= value <= 100 <==> verb("volume"@, value) is Ok,
        verb("volume"@, value) matches Ok(a) ==> (a matches MediaAction::SetVolume { percent }
            && percent == value),
        value < 0 ==> verb("position"@, value) == Err::<MediaAction, FaultView>(FaultView::NotAllowed),
        !(0 <= value <= 100) ==> verb("volume"@, value) == Err::<MediaAction, FaultView>(
            FaultView::NotAllowed,
        ),
{
    verbs_differ();
}

/// A verb that is not one of these is refused by name.
pub proof fn an_unknown_verb_is_refused(ty: Seq<char>, value: i64)
    requires
        ty != "play"@ && ty != "pause"@ && ty != "playpause"@ && ty != "next"@ && ty != "previous"@
            && ty != "stop"@ && ty != "seek"@ && ty != "position"@ && ty != "volume"@,
    ensures
        verb(ty, value) == Err::<MediaAction, FaultView>(FaultView::UnknownType(ty)),
{
}

/// A command of a peer is handed to the host for the player it names, or for whichever
/// is active where it names none; a question is answered with a reading. Whoever asked
/// gets the state that came of it, under its own request, or is told why there is none.
pub proof fn a_command_is_carried_out_and_answered(
    s: RemoteView,
    cx: CxView,
    peer: Seq<char>,
    id: u32,
    ty: Seq<char>,
    body: Seq<u8>,
    later: CxView,
    result: ResultView,
)
    requires
        ty != "state"@,
    ensures
        ({
            let (mid, asked, r) = message(s, cx, peer, id, ty, body);
            let token = asked.effects.last().0;
            let (end, told) = effect_done(mid, later, token, result);
            let cmd = if body.len() == 0 {
                Some(CommandView { player: Seq::empty(), value: 0 })
            } else {
                value_of::<MediaCommand>(body)
            };
            &&& ty == "query"@ ==> r is Ok && asked == cx.asked(EffectView::MediaQuery)
            &&& ty != "query"@ && cmd is None ==> r == Err::<(), FaultView>(FaultView::BadBody)
            &&& ty != "query"@ && cmd is Some ==> match verb(ty, cmd->Some_0.value) {
                Ok(action) => r is Ok && asked == cx.asked(
                    EffectView::MediaControl { player: cmd->Some_0.player, action },
                ),
                Err(e) => r == Err::<(), FaultView>(e),
            }
            &&& r is Err ==> mid == s && asked == cx
            &&& r is Ok ==> {
                &&& match result {
                    ResultView::Done(data) => match value_of::<MediaState>(data) {
                        Some(state) => told == later.sent(
                            peer,
                            "org.acrylius.media/1"@,
                            "state"@,
                            MediaState::item(state),
                            Some(id),
                        ) && end.last == Some(state),
                        None => told == later.refused(
                            peer,
                            "org.acrylius.media/1"@,
                            id,
                            "internal"@,
                            "unreadable state"@,
                        ) && end.last == s.last,
                    },
                    ResultView::Failed(detail) => told == later.refused(
                        peer,
                        "org.acrylius.media/1"@,
                        id,
                        "effect_failed"@,
                        detail,
                    ) && end.last == s.last,
                    ResultView::Unsupported => told == later.refused(
                        peer,
                        "org.acrylius.media/1"@,
                        id,
                        "not_allowed"@,
                        "this device has nothing to control"@,
                    ) && end.last == s.last,
                }
                &&& end.pending == s.pending.remove(token)
                &&& end.connected == s.connected
            }
        }),
{
    verbs_differ();
    let (mid, asked, r) = message(s, cx, peer, id, ty, body);
    let token = asked.effects.last().0;
    assert(r is Ok ==> mid.pending.remove(token) =~= s.pending.remove(token));
}

/// The state that a peer sends is shown as it sent it; what a person asks of a peer's
/// players goes to that peer as they asked it, if it is something a peer could do.
pub proof fn what_is_said_of_media_is_passed_on(
    p: MediaPlugin,
    cx: CxView,
    peer: Seq<char>,
    env: EnvelopeView,
    end: CxView,
    r: Result<(), FaultView>,
    next: Memory,
    ty: Seq<char>,
    body: Seq<u8>,
    end2: CxView,
    r2: Result<(), FaultView>,
    next2: Memory,
)
    requires
        p.may(Told::Message { peer, env }, cx, end, r, next),
        p.may(Told::Local { peer, ty, body }, cx, end2, r2, next2),
        ty != "notify"@,
    ensures
        env.ty == "state"@ ==> r is Ok && next == Memory::Media(p@) && end == cx.told(
            peer,
            "org.acrylius.media/1"@,
            "state"@,
            env.body,
        ),
        next2 == Memory::Media(p@),
        ty == "query"@ ==> r2 is Ok && end2 == cx.sent(
            peer,
            "org.acrylius.media/1"@,
            "query"@,
            Seq::empty(),
            None,
        ),
        ty != "query"@ && r2 is Ok ==> end2 == cx.sent(
            peer,
            "org.acrylius.media/1"@,
            ty,
            body,
            None,
        ),
        r2 is Err ==> end2 == cx,
        ty != "query"@ && body.len() == 0 ==> (r2 is Ok <==> verb(ty, 0) is Ok),
{
    verbs_differ();
}

/// A reading that nobody asked for goes to everybody connected where it is the first or
/// differs in anything but a position, and to nobody otherwise; either way it is what
/// the next one is held against.
pub proof fn news_of_media_goes_to_everyone(
    s: RemoteView,
    cx: CxView,
    peer: Seq<char>,
    body: Seq<u8>,
    later: CxView,
    state: StateView,
)
    requires
        MediaState::item(state).len() <= u64::MAX,
    ensures
        ({
            let (mid, asked, r) = local(s, cx, peer, "notify"@, body);
            let (end, told) = effect_done(
                mid,
                later,
                asked.effects.last().0,
                ResultView::Done(MediaState::item(state)),
            );
            let n = later.sends.len() as int;
            let news = match s.last {
                None => true,
                Some(b) => b.active != state.active || b.system_volume != state.system_volume
                    || b.players.len() != state.players.len() || exists|k: int|
                    0 <= k < state.players.len() && (PlayerView {
                        position_ms: state.players[k].position_ms,
                        ..#[trigger] b.players[k]
                    }) != state.players[k],
            };
            &&& r is Ok && asked == cx.asked(EffectView::MediaQuery)
            &&& end.last == Some(state)
            &&& !news ==> told == later
            &&& news ==> told.sends.len() == n + s.connected.len() && forall|k: int|
                0 <= k < s.connected.len() ==> #[trigger] told.sends[n + k] == (SendView {
                    peer: s.connected[k],
                    cap: "org.acrylius.media/1"@,
                    ty: "state"@,
                    body: MediaState::item(state),
                    re: None,
                })
        }),
{
    verbs_differ();
    body_reads_back::<MediaState>(state);
    a_round_reaches_everyone_else(
        later,
        s.connected,
        None,
        CAP@,
        "state"@,
        MediaState::item(state),
    );
    match s.last {
        Some(b) => {
            if is_news(s.last, state) && b.active == state.active && b.system_volume
                == state.system_volume && b.players.len() == state.players.len() {
                let k = choose|k: int|
                    0 <= k < state.players.len() && still(#[trigger] b.players[k]) != still(
                        state.players[k],
                    );
                assert((PlayerView { position_ms: state.players[k].position_ms, ..b.players[k] })
                    != state.players[k]);
            }
            if b.players.len() == state.players.len() && exists|k: int|
                0 <= k < state.players.len() && (PlayerView {
                    position_ms: state.players[k].position_ms,
                    ..#[trigger] b.players[k]
                }) != state.players[k] {
                let k = choose|k: int|
                    0 <= k < state.players.len() && (PlayerView {
                        position_ms: state.players[k].position_ms,
                        ..#[trigger] b.players[k]
                    }) != state.players[k];
                let (x, y) = (b.players[k], state.players[k]);
                if still(x) == still(y) {
                    assert((PlayerView { position_ms: y.position_ms, ..still(x) }) == (PlayerView {
                        position_ms: y.position_ms,
                        ..still(y)
                    }));
                }
                assert(still(x) != still(y));
            }
        },
        None => {},
    }
}

/// The player with an id is one of those there are that has it, and the first that
/// does; there is none just where none has it.
pub proof fn the_player_with_an_id_has_it(players: Seq<PlayerView>, id: Seq<char>)
    ensures
        match player_with(players, id) {
            Some(p) => exists|k: int|
                0 <= k < players.len() && #[trigger] players[k] == p && p.id == id && forall|j: int|
                    0 <= j < k ==> (#[trigger] players[j]).id != id,
            None => forall|k: int| 0 <= k < players.len() ==> (#[trigger] players[k]).id != id,
        },
    decreases players.len(),
{
    if players.len() > 0 && players[0].id != id {
        let rest = players.skip(1);
        the_player_with_an_id_has_it(rest, id);
        match player_with(rest, id) {
            Some(p) => {
                let k = choose|k: int|
                    0 <= k < rest.len() && #[trigger] rest[k] == p && p.id == id && forall|j: int|
                        0 <= j < k ==> (#[trigger] rest[j]).id != id;
                assert(players[k + 1] == p);
                assert forall|j: int| 0 <= j < k + 1 implies (#[trigger] players[j]).id != id by {
                    if j > 0 {
                        assert(rest[j - 1] == players[j]);
                    }
                }
            },
            None => {
                assert forall|k: int| 0 <= k < players.len() implies (#[trigger] players[k]).id
                    != id by {
                    if k > 0 {
                        assert(rest[k - 1] == players[k]);
                    }
                }
            },
        }
    } else if players.len() > 0 {
        assert(players[0] == players[0]);
    }
}

/// A player has done what it was told once a reading shows it so: that it plays, is
/// paused or has stopped; that it is the other way from before; or that another track
/// is on. It is read of the player that was named, or else of the one that was active.
pub proof fn a_reading_shows_what_a_player_did(
    player: Seq<char>,
    before: StateView,
    now: StateView,
    was: PlayerView,
    is: PlayerView,
)
    requires
        ({
            let id = if player.len() == 0 {
                before.active
            } else {
                player
            };
            &&& player_with(before.players, id) == Some(was)
            &&& player_with(now.players, id) == Some(is)
        }),
    ensures
        acted(MediaAction::Play, player, before, now) == Some(is.status == "playing"@),
        acted(MediaAction::Pause, player, before, now) == Some(is.status == "paused"@),
        acted(MediaAction::Stop, player, before, now) == Some(is.status == "stopped"@),
        acted(MediaAction::PlayPause, player, before, now) == Some(is.status != was.status),
        ({
            let other = is.title != was.title || is.artist != was.artist || is.album != was.album
                || is.length_ms != was.length_ms;
            &&& acted(MediaAction::Next, player, before, now) == Some(other)
            &&& acted(MediaAction::Previous, player, before, now) == Some(other)
        }),
{
}

/// Who comes is told what is playing, where that is known, and hears of every change from
/// then on; who goes is told nothing more.
pub proof fn who_comes_hears_what_is_playing(
    p: MediaPlugin,
    cx: CxView,
    peer: Seq<char>,
    end: CxView,
    r: Result<(), FaultView>,
    next: Memory,
    end2: CxView,
    r2: Result<(), FaultView>,
    next2: Memory,
)
    requires
        p.may(Told::Connected { peer }, cx, end, r, next),
        p.may(Told::Disconnected { peer }, cx, end2, r2, next2),
    ensures
        p@.last matches Some(state) ==> end.sends.len() == cx.sends.len() + 1 && end.sends.last()
            == (SendView {
            peer,
            cap: "org.acrylius.media/1"@,
            ty: "state"@,
            body: MediaState::item(p@.last->Some_0),
            re: None,
        }),
        p@.last is None ==> end == cx,
        end2 == cx,
        next matches Memory::Media(v) && v.connected.contains(peer) && v.last == p@.last
            && v.pending == p@.pending,
        next2 matches Memory::Media(v) && !v.connected.contains(peer) && v.last == p@.last
            && v.pending == p@.pending,
{
    joined_is_there(p@.connected, peer, peer);
    departed_is_gone(p@.connected, peer, peer);
}

} // verus!
