//! How each message looks in bytes: an array of items, in a fixed order.
use crate::body::{items, list_item, Body};
use crate::cbor::{
    bool_item, bytes_item, head, int_item, maybe_item, text_item,
};
use crate::peer::{PeerRecord, RecordView};
use crate::plugins::clipboard::{ClipboardSet, SetView};
use crate::plugins::command::{
    CommandEntry, CommandList, EntryView, Exited, ListView, RunRequest, RunView,
};
use crate::plugins::media::{
    CommandView, MediaCommand, MediaPlayer, MediaState, PlayerView, StateView,
};
use crate::plugins::session::{LockView, SeatView, SessionOutcome, SessionState};
use crate::plugins::share::{Accept, AcceptView, Finished, FinishedView, Offer, OfferView};
use crate::plugins::touchpad::{Begin, Frame, FrameView, Point};
use crate::plugins::wol::{ConfigView, RelayRequest, RelayView, WolConfig};
use crate::wire::{ErrorBody, ErrorBodyView};
use vstd::prelude::*;
use vstd::utf8::encode_utf8;

verus! {

/// One item of an array.
pub enum Piece {
    Text(Seq<char>),
    Bytes(Seq<u8>),
    Number(int),
    YesNo(bool),
    /// Bytes that are an item already.
    Other(Seq<u8>),
}

/// The bytes of one item.
pub open spec fn piece(p: Piece) -> Seq<u8> {
    match p {
        Piece::Text(t) => text_item(t),
        Piece::Bytes(b) => bytes_item(b),
        Piece::Number(n) => int_item(n),
        Piece::YesNo(b) => bool_item(b),
        Piece::Other(b) => b,
    }
}

/// The bytes of some items, one after the other.
pub open spec fn pieces(list: Seq<Piece>) -> Seq<u8>
    decreases list.len(),
{
    if list.len() == 0 {
        Seq::empty()
    } else {
        pieces(list.drop_last()) + piece(list.last())
    }
}

/// The bytes of an array of items.
pub open spec fn array_of(list: Seq<Piece>) -> Seq<u8> {
    head(4, list.len() as int) + pieces(list)
}

proof fn one_more(list: Seq<Piece>, p: Piece)
    ensures
        pieces(list.push(p)) == pieces(list) + piece(p),
{
    assert(list.push(p).drop_last() =~= list);
}

proof fn on_top(start: Seq<u8>, list: Seq<Piece>, p: Piece, so_far: Seq<u8>)
    requires
        start + pieces(list) == so_far,
    ensures
        start + pieces(list.push(p)) == so_far + piece(p),
{
    one_more(list, p);
    assert(start + (pieces(list) + piece(p)) =~= (start + pieces(list)) + piece(p));
}

/// An item begins with its kind and its length in as few bytes as there can be: five bits
/// of the first byte, or one, two, four or eight bytes after it, the greatest first.
pub proof fn an_item_begins_with_its_kind(major: int, n: int)
    requires
        0 <= major < 8,
        0 <= n <= u64::MAX,
    ensures
        n < 24 ==> head(major, n).len() == 1 && head(major, n)[0] == major * 32 + n,
        24 <= n < 256 ==> head(major, n).len() == 2 && head(major, n)[0] == major * 32 + 24 && head(
            major,
            n,
        )[1] == n,
        256 <= n < 65536 ==> head(major, n).len() == 3 && head(major, n)[0] == major * 32 + 25
            && head(major, n)[1] * 256 + head(major, n)[2] == n,
        65536 <= n < 0x1_0000_0000 ==> head(major, n).len() == 5 && head(major, n)[0] == major * 32
            + 26 && head(major, n)[1] * 0x100_0000 + head(major, n)[2] * 0x1_0000 + head(
            major,
            n,
        )[3] * 0x100 + head(major, n)[4] == n,
        n >= 0x1_0000_0000 ==> head(major, n).len() == 9 && head(major, n)[0] == major * 32 + 27,
{
    reveal(head);
    reveal(crate::cbor::be4);
}

/// Texts, byte strings, numbers and answers are each of their own kind: a text is its
/// UTF-8 after its length, bytes are themselves after theirs, a number below nothing is
/// counted from minus one, and yes and no are one byte each.
pub proof fn each_item_is_of_its_kind(t: Seq<char>, b: Seq<u8>, n: int)
    ensures
        text_item(t) == head(3, encode_utf8(t).len() as int) + encode_utf8(t),
        bytes_item(b) == head(2, b.len() as int) + b,
        n >= 0 ==> int_item(n) == head(0, n),
        n < 0 ==> int_item(n) == head(1, -n - 1),
        bool_item(true) == seq![0xf5u8],
        bool_item(false) == seq![0xf4u8],
        maybe_item(None) == seq![0xf6u8],
{
    reveal(text_item);
    reveal(int_item);
    reveal(bytes_item);
    reveal(bool_item);
    reveal(crate::cbor::null_item);
}

/// A list is an array of its members, each as it is, in order.
pub proof fn a_list_is_its_members<T: Body>(list: Seq<T::V>, v: T::V)
    ensures
        list_item::<T>(list) == head(4, list.len() as int) + items::<T>(list),
        items::<T>(list.push(v)) == items::<T>(list) + T::item(v),
        items::<T>(Seq::empty()).len() == 0,
{
    reveal(list_item);
    reveal(items);
    assert(list.push(v).drop_last() =~= list);
}

/// A kept record is the device's id, its key, its name and platform, the secret shared with it,
/// how far its clock has got, and what it sends and takes.
pub proof fn the_layout_of_a_record(v: RecordView)
    ensures
        PeerRecord::item(v) == array_of(
            seq![
                Piece::Text(v.device_id),
                Piece::Bytes(v.public_key),
                Piece::Text(v.name),
                Piece::Text(v.platform),
                Piece::Bytes(v.session_psk),
                Piece::Number(v.greatest_seen as int),
                Piece::Other(list_item::<String>(v.caps_out)),
                Piece::Other(list_item::<String>(v.caps_in)),
            ],
        ),
{
    reveal(int_item);
    let none = Seq::<Piece>::empty();
    let p0 = none.push(Piece::Text(v.device_id));
    one_more(none, Piece::Text(v.device_id));
    let p1 = p0.push(Piece::Bytes(v.public_key));
    one_more(p0, Piece::Bytes(v.public_key));
    let p2 = p1.push(Piece::Text(v.name));
    one_more(p1, Piece::Text(v.name));
    let p3 = p2.push(Piece::Text(v.platform));
    one_more(p2, Piece::Text(v.platform));
    let p4 = p3.push(Piece::Bytes(v.session_psk));
    one_more(p3, Piece::Bytes(v.session_psk));
    let p5 = p4.push(Piece::Number(v.greatest_seen as int));
    one_more(p4, Piece::Number(v.greatest_seen as int));
    let p6 = p5.push(Piece::Other(list_item::<String>(v.caps_out)));
    one_more(p5, Piece::Other(list_item::<String>(v.caps_out)));
    let p7 = p6.push(Piece::Other(list_item::<String>(v.caps_in)));
    one_more(p6, Piece::Other(list_item::<String>(v.caps_in)));
    assert(p7 =~= seq![
        Piece::Text(v.device_id),
        Piece::Bytes(v.public_key),
        Piece::Text(v.name),
        Piece::Text(v.platform),
        Piece::Bytes(v.session_psk),
        Piece::Number(v.greatest_seen as int),
        Piece::Other(list_item::<String>(v.caps_out)),
        Piece::Other(list_item::<String>(v.caps_in)),
    ]);
    assert(PeerRecord::item(v) =~= array_of(p7));
}

/// An error is its code and a message.
pub proof fn the_layout_of_an_error(v: ErrorBodyView)
    ensures
        ErrorBody::item(v) == array_of(
            seq![
                Piece::Text(v.code),
                Piece::Text(v.message),
            ],
        ),
{
    let none = Seq::<Piece>::empty();
    let p0 = none.push(Piece::Text(v.code));
    one_more(none, Piece::Text(v.code));
    let p1 = p0.push(Piece::Text(v.message));
    one_more(p0, Piece::Text(v.message));
    assert(p1 =~= seq![
        Piece::Text(v.code),
        Piece::Text(v.message),
    ]);
    assert(ErrorBody::item(v) =~= array_of(p1));
}

/// A command is its id, its name, and whether it wants to be confirmed.
pub proof fn the_layout_of_a_command(v: EntryView)
    ensures
        CommandEntry::item(v) == array_of(
            seq![
                Piece::Text(v.id),
                Piece::Text(v.name),
                Piece::YesNo(v.needs_confirm),
            ],
        ),
{
    let none = Seq::<Piece>::empty();
    let p0 = none.push(Piece::Text(v.id));
    one_more(none, Piece::Text(v.id));
    let p1 = p0.push(Piece::Text(v.name));
    one_more(p0, Piece::Text(v.name));
    let p2 = p1.push(Piece::YesNo(v.needs_confirm));
    one_more(p1, Piece::YesNo(v.needs_confirm));
    assert(p2 =~= seq![
        Piece::Text(v.id),
        Piece::Text(v.name),
        Piece::YesNo(v.needs_confirm),
    ]);
    assert(CommandEntry::item(v) =~= array_of(p2));
}

/// A list of commands holds nothing else.
pub proof fn the_layout_of_a_list_of_commands(v: ListView)
    ensures
        CommandList::item(v) == array_of(
            seq![
                Piece::Other(list_item::<CommandEntry>(v.commands)),
            ],
        ),
{
    let none = Seq::<Piece>::empty();
    let p0 = none.push(Piece::Other(list_item::<CommandEntry>(v.commands)));
    one_more(none, Piece::Other(list_item::<CommandEntry>(v.commands)));
    assert(p0 =~= seq![
        Piece::Other(list_item::<CommandEntry>(v.commands)),
    ]);
    assert(CommandList::item(v) =~= array_of(p0));
}

/// A request to run a command is its id.
pub proof fn the_layout_of_a_request_to_run(v: RunView)
    ensures
        RunRequest::item(v) == array_of(
            seq![
                Piece::Text(v.id),
            ],
        ),
{
    let none = Seq::<Piece>::empty();
    let p0 = none.push(Piece::Text(v.id));
    one_more(none, Piece::Text(v.id));
    assert(p0 =~= seq![
        Piece::Text(v.id),
    ]);
    assert(RunRequest::item(v) =~= array_of(p0));
}

/// The end of a run is the run's number, its code, and whether it was cut short.
pub proof fn the_layout_of_an_exit(v: Exited)
    ensures
        Exited::item(v) == array_of(
            seq![
                Piece::Number(v.run_id as int),
                Piece::Number(v.code as int),
                Piece::YesNo(v.truncated),
            ],
        ),
{
    reveal(int_item);
    let none = Seq::<Piece>::empty();
    let p0 = none.push(Piece::Number(v.run_id as int));
    one_more(none, Piece::Number(v.run_id as int));
    let p1 = p0.push(Piece::Number(v.code as int));
    one_more(p0, Piece::Number(v.code as int));
    let p2 = p1.push(Piece::YesNo(v.truncated));
    one_more(p1, Piece::YesNo(v.truncated));
    assert(p2 =~= seq![
        Piece::Number(v.run_id as int),
        Piece::Number(v.code as int),
        Piece::YesNo(v.truncated),
    ]);
    assert(Exited::item(v) =~= array_of(p2));
}

/// How a machine is woken is its addresses, where to call, the port, and where it was last
/// seen.
pub proof fn the_layout_of_a_wake_configuration(v: ConfigView)
    ensures
        WolConfig::item(v) == array_of(
            seq![
                Piece::Other(list_item::<String>(v.macs)),
                Piece::Text(v.broadcast),
                Piece::Number(v.port as int),
                Piece::Text(v.last_ipv4),
            ],
        ),
{
    reveal(int_item);
    let none = Seq::<Piece>::empty();
    let p0 = none.push(Piece::Other(list_item::<String>(v.macs)));
    one_more(none, Piece::Other(list_item::<String>(v.macs)));
    let p1 = p0.push(Piece::Text(v.broadcast));
    one_more(p0, Piece::Text(v.broadcast));
    let p2 = p1.push(Piece::Number(v.port as int));
    one_more(p1, Piece::Number(v.port as int));
    let p3 = p2.push(Piece::Text(v.last_ipv4));
    one_more(p2, Piece::Text(v.last_ipv4));
    assert(p3 =~= seq![
        Piece::Other(list_item::<String>(v.macs)),
        Piece::Text(v.broadcast),
        Piece::Number(v.port as int),
        Piece::Text(v.last_ipv4),
    ]);
    assert(WolConfig::item(v) =~= array_of(p3));
}

/// A request to wake a machine for somebody is its address.
pub proof fn the_layout_of_a_relay(v: RelayView)
    ensures
        RelayRequest::item(v) == array_of(
            seq![
                Piece::Text(v.mac),
            ],
        ),
{
    let none = Seq::<Piece>::empty();
    let p0 = none.push(Piece::Text(v.mac));
    one_more(none, Piece::Text(v.mac));
    assert(p0 =~= seq![
        Piece::Text(v.mac),
    ]);
    assert(RelayRequest::item(v) =~= array_of(p0));
}

/// A stream of touches begins with the width and the height of the pad.
pub proof fn the_layout_of_a_beginning(v: Begin)
    ensures
        Begin::item(v) == array_of(
            seq![
                Piece::Number(v.w_mm as int),
                Piece::Number(v.h_mm as int),
            ],
        ),
{
    reveal(int_item);
    let none = Seq::<Piece>::empty();
    let p0 = none.push(Piece::Number(v.w_mm as int));
    one_more(none, Piece::Number(v.w_mm as int));
    let p1 = p0.push(Piece::Number(v.h_mm as int));
    one_more(p0, Piece::Number(v.h_mm as int));
    assert(p1 =~= seq![
        Piece::Number(v.w_mm as int),
        Piece::Number(v.h_mm as int),
    ]);
    assert(Begin::item(v) =~= array_of(p1));
}

/// A finger is which one it is, and where it is across and down.
pub proof fn the_layout_of_a_point(v: Point)
    ensures
        Point::item(v) == array_of(
            seq![
                Piece::Number(v.id as int),
                Piece::Number(v.x as int),
                Piece::Number(v.y as int),
            ],
        ),
{
    reveal(int_item);
    let none = Seq::<Piece>::empty();
    let p0 = none.push(Piece::Number(v.id as int));
    one_more(none, Piece::Number(v.id as int));
    let p1 = p0.push(Piece::Number(v.x as int));
    one_more(p0, Piece::Number(v.x as int));
    let p2 = p1.push(Piece::Number(v.y as int));
    one_more(p1, Piece::Number(v.y as int));
    assert(p2 =~= seq![
        Piece::Number(v.id as int),
        Piece::Number(v.x as int),
        Piece::Number(v.y as int),
    ]);
    assert(Point::item(v) =~= array_of(p2));
}

/// A frame is its number and every finger that is down.
pub proof fn the_layout_of_a_frame(v: FrameView)
    ensures
        Frame::item(v) == array_of(
            seq![
                Piece::Number(v.seq as int),
                Piece::Other(list_item::<Point>(v.points)),
            ],
        ),
{
    reveal(int_item);
    let none = Seq::<Piece>::empty();
    let p0 = none.push(Piece::Number(v.seq as int));
    one_more(none, Piece::Number(v.seq as int));
    let p1 = p0.push(Piece::Other(list_item::<Point>(v.points)));
    one_more(p0, Piece::Other(list_item::<Point>(v.points)));
    assert(p1 =~= seq![
        Piece::Number(v.seq as int),
        Piece::Other(list_item::<Point>(v.points)),
    ]);
    assert(Frame::item(v) =~= array_of(p1));
}

/// An offer is its number, the file's name, how long it is, and of what type.
pub proof fn the_layout_of_an_offer(v: OfferView)
    ensures
        Offer::item(v) == array_of(
            seq![
                Piece::Number(v.transfer as int),
                Piece::Text(v.name),
                Piece::Number(v.size as int),
                Piece::Text(v.mime),
            ],
        ),
{
    reveal(int_item);
    let none = Seq::<Piece>::empty();
    let p0 = none.push(Piece::Number(v.transfer as int));
    one_more(none, Piece::Number(v.transfer as int));
    let p1 = p0.push(Piece::Text(v.name));
    one_more(p0, Piece::Text(v.name));
    let p2 = p1.push(Piece::Number(v.size as int));
    one_more(p1, Piece::Number(v.size as int));
    let p3 = p2.push(Piece::Text(v.mime));
    one_more(p2, Piece::Text(v.mime));
    assert(p3 =~= seq![
        Piece::Number(v.transfer as int),
        Piece::Text(v.name),
        Piece::Number(v.size as int),
        Piece::Text(v.mime),
    ]);
    assert(Offer::item(v) =~= array_of(p3));
}

/// An acceptance is the number of the offer and where to connect.
pub proof fn the_layout_of_an_acceptance(v: AcceptView)
    ensures
        Accept::item(v) == array_of(
            seq![
                Piece::Number(v.transfer as int),
                Piece::Text(v.endpoint),
            ],
        ),
{
    reveal(int_item);
    let none = Seq::<Piece>::empty();
    let p0 = none.push(Piece::Number(v.transfer as int));
    one_more(none, Piece::Number(v.transfer as int));
    let p1 = p0.push(Piece::Text(v.endpoint));
    one_more(p0, Piece::Text(v.endpoint));
    assert(p1 =~= seq![
        Piece::Number(v.transfer as int),
        Piece::Text(v.endpoint),
    ]);
    assert(Accept::item(v) =~= array_of(p1));
}

/// The end of a transfer is its number, whether it went well, and how it ended otherwise.
pub proof fn the_layout_of_an_ending(v: FinishedView)
    ensures
        Finished::item(v) == array_of(
            seq![
                Piece::Number(v.transfer as int),
                Piece::YesNo(v.ok),
                Piece::Text(v.detail),
            ],
        ),
{
    reveal(int_item);
    let none = Seq::<Piece>::empty();
    let p0 = none.push(Piece::Number(v.transfer as int));
    one_more(none, Piece::Number(v.transfer as int));
    let p1 = p0.push(Piece::YesNo(v.ok));
    one_more(p0, Piece::YesNo(v.ok));
    let p2 = p1.push(Piece::Text(v.detail));
    one_more(p1, Piece::Text(v.detail));
    assert(p2 =~= seq![
        Piece::Number(v.transfer as int),
        Piece::YesNo(v.ok),
        Piece::Text(v.detail),
    ]);
    assert(Finished::item(v) =~= array_of(p2));
}

/// A player is its id, its name and status, what it plays, by whom and from where, how long
/// that is and how far it has got, how loud it is, and what it can do.
pub proof fn the_layout_of_a_player(v: PlayerView)
    ensures
        MediaPlayer::item(v) == array_of(
            seq![
                Piece::Text(v.id),
                Piece::Text(v.name),
                Piece::Text(v.status),
                Piece::Text(v.title),
                Piece::Text(v.artist),
                Piece::Text(v.album),
                Piece::Number(v.length_ms as int),
                Piece::Number(v.position_ms as int),
                Piece::Other(maybe_item(v.volume_percent)),
                Piece::YesNo(v.can_go_next),
                Piece::YesNo(v.can_go_previous),
                Piece::YesNo(v.can_seek),
                Piece::YesNo(v.can_control),
            ],
        ),
{
    assert(head(4, 13) + pieces(Seq::empty()) =~= head(4, 13));
    reveal(int_item);
    let none = Seq::<Piece>::empty();
    let p0 = none.push(Piece::Text(v.id));
    let w0 = head(4, 13) + text_item(v.id);
    on_top(head(4, 13), none, Piece::Text(v.id), head(4, 13));
    let p1 = p0.push(Piece::Text(v.name));
    let w1 = w0 + text_item(v.name);
    on_top(head(4, 13), p0, Piece::Text(v.name), w0);
    let p2 = p1.push(Piece::Text(v.status));
    let w2 = w1 + text_item(v.status);
    on_top(head(4, 13), p1, Piece::Text(v.status), w1);
    let p3 = p2.push(Piece::Text(v.title));
    let w3 = w2 + text_item(v.title);
    on_top(head(4, 13), p2, Piece::Text(v.title), w2);
    let p4 = p3.push(Piece::Text(v.artist));
    let w4 = w3 + text_item(v.artist);
    on_top(head(4, 13), p3, Piece::Text(v.artist), w3);
    let p5 = p4.push(Piece::Text(v.album));
    let w5 = w4 + text_item(v.album);
    on_top(head(4, 13), p4, Piece::Text(v.album), w4);
    let p6 = p5.push(Piece::Number(v.length_ms as int));
    let w6 = w5 + int_item(v.length_ms as int);
    on_top(head(4, 13), p5, Piece::Number(v.length_ms as int), w5);
    let p7 = p6.push(Piece::Number(v.position_ms as int));
    let w7 = w6 + int_item(v.position_ms as int);
    on_top(head(4, 13), p6, Piece::Number(v.position_ms as int), w6);
    let p8 = p7.push(Piece::Other(maybe_item(v.volume_percent)));
    let w8 = w7 + maybe_item(v.volume_percent);
    on_top(head(4, 13), p7, Piece::Other(maybe_item(v.volume_percent)), w7);
    let p9 = p8.push(Piece::YesNo(v.can_go_next));
    let w9 = w8 + bool_item(v.can_go_next);
    on_top(head(4, 13), p8, Piece::YesNo(v.can_go_next), w8);
    let p10 = p9.push(Piece::YesNo(v.can_go_previous));
    let w10 = w9 + bool_item(v.can_go_previous);
    on_top(head(4, 13), p9, Piece::YesNo(v.can_go_previous), w9);
    let p11 = p10.push(Piece::YesNo(v.can_seek));
    let w11 = w10 + bool_item(v.can_seek);
    on_top(head(4, 13), p10, Piece::YesNo(v.can_seek), w10);
    let p12 = p11.push(Piece::YesNo(v.can_control));
    let w12 = w11 + bool_item(v.can_control);
    on_top(head(4, 13), p11, Piece::YesNo(v.can_control), w11);
    assert(p12 =~= seq![
        Piece::Text(v.id),
        Piece::Text(v.name),
        Piece::Text(v.status),
        Piece::Text(v.title),
        Piece::Text(v.artist),
        Piece::Text(v.album),
        Piece::Number(v.length_ms as int),
        Piece::Number(v.position_ms as int),
        Piece::Other(maybe_item(v.volume_percent)),
        Piece::YesNo(v.can_go_next),
        Piece::YesNo(v.can_go_previous),
        Piece::YesNo(v.can_seek),
        Piece::YesNo(v.can_control),
    ]);
    assert(MediaPlayer::item(v) == w12);
}

/// A command for a player is which player, and a value.
pub proof fn the_layout_of_a_media_command(v: CommandView)
    ensures
        MediaCommand::item(v) == array_of(
            seq![
                Piece::Text(v.player),
                Piece::Number(v.value as int),
            ],
        ),
{
    reveal(int_item);
    let none = Seq::<Piece>::empty();
    let p0 = none.push(Piece::Text(v.player));
    one_more(none, Piece::Text(v.player));
    let p1 = p0.push(Piece::Number(v.value as int));
    one_more(p0, Piece::Number(v.value as int));
    assert(p1 =~= seq![
        Piece::Text(v.player),
        Piece::Number(v.value as int),
    ]);
    assert(MediaCommand::item(v) =~= array_of(p1));
}

/// A desktop is whether it is locked, its session, of what kind that is, and whether it is
/// in front.
pub proof fn the_layout_of_a_desktop(v: SeatView)
    ensures
        SessionState::item(v) == array_of(
            seq![
                Piece::YesNo(v.locked),
                Piece::Text(v.session_id),
                Piece::Text(v.kind),
                Piece::YesNo(v.active),
            ],
        ),
{
    let none = Seq::<Piece>::empty();
    let p0 = none.push(Piece::YesNo(v.locked));
    one_more(none, Piece::YesNo(v.locked));
    let p1 = p0.push(Piece::Text(v.session_id));
    one_more(p0, Piece::Text(v.session_id));
    let p2 = p1.push(Piece::Text(v.kind));
    one_more(p1, Piece::Text(v.kind));
    let p3 = p2.push(Piece::YesNo(v.active));
    one_more(p2, Piece::YesNo(v.active));
    assert(p3 =~= seq![
        Piece::YesNo(v.locked),
        Piece::Text(v.session_id),
        Piece::Text(v.kind),
        Piece::YesNo(v.active),
    ]);
    assert(SessionState::item(v) =~= array_of(p3));
}

/// What came of a lock is whether it was locked before, whether it is now, and the session.
pub proof fn the_layout_of_a_lock(v: LockView)
    ensures
        SessionOutcome::item(v) == array_of(
            seq![
                Piece::YesNo(v.was_locked),
                Piece::YesNo(v.locked),
                Piece::Text(v.session_id),
            ],
        ),
{
    let none = Seq::<Piece>::empty();
    let p0 = none.push(Piece::YesNo(v.was_locked));
    one_more(none, Piece::YesNo(v.was_locked));
    let p1 = p0.push(Piece::YesNo(v.locked));
    one_more(p0, Piece::YesNo(v.locked));
    let p2 = p1.push(Piece::Text(v.session_id));
    one_more(p1, Piece::Text(v.session_id));
    assert(p2 =~= seq![
        Piece::YesNo(v.was_locked),
        Piece::YesNo(v.locked),
        Piece::Text(v.session_id),
    ]);
    assert(SessionOutcome::item(v) =~= array_of(p2));
}

/// A copy is its type, its bytes, and their hash.
pub proof fn the_layout_of_a_copy(v: SetView)
    ensures
        ClipboardSet::item(v) == array_of(
            seq![
                Piece::Text(v.mime),
                Piece::Bytes(v.data),
                Piece::Bytes(v.hash),
            ],
        ),
{
    let none = Seq::<Piece>::empty();
    let p0 = none.push(Piece::Text(v.mime));
    one_more(none, Piece::Text(v.mime));
    let p1 = p0.push(Piece::Bytes(v.data));
    one_more(p0, Piece::Bytes(v.data));
    let p2 = p1.push(Piece::Bytes(v.hash));
    one_more(p1, Piece::Bytes(v.hash));
    assert(p2 =~= seq![
        Piece::Text(v.mime),
        Piece::Bytes(v.data),
        Piece::Bytes(v.hash),
    ]);
    assert(ClipboardSet::item(v) =~= array_of(p2));
}

/// What is playing is every player and which of them is active, and the machine's volume
/// where it has one.
pub proof fn the_layout_of_what_is_playing(v: StateView)
    ensures
        v.system_volume is None ==> MediaState::item(v) == array_of(
            seq![Piece::Other(list_item::<MediaPlayer>(v.players)), Piece::Text(v.active)],
        ),
        v.system_volume matches Some(n) ==> MediaState::item(v) == array_of(
            seq![
                Piece::Other(list_item::<MediaPlayer>(v.players)),
                Piece::Text(v.active),
                Piece::Number(n as int),
            ],
        ),
{
    reveal(int_item);
    let none = Seq::<Piece>::empty();
    let p0 = none.push(Piece::Other(list_item::<MediaPlayer>(v.players)));
    one_more(none, Piece::Other(list_item::<MediaPlayer>(v.players)));
    let p1 = p0.push(Piece::Text(v.active));
    one_more(p0, Piece::Text(v.active));
    assert(p1 =~= seq![Piece::Other(list_item::<MediaPlayer>(v.players)), Piece::Text(v.active)]);
    match v.system_volume {
        Some(n) => {
            let p2 = p1.push(Piece::Number(n as int));
            one_more(p1, Piece::Number(n as int));
            assert(p2 =~= seq![
                Piece::Other(list_item::<MediaPlayer>(v.players)),
                Piece::Text(v.active),
                Piece::Number(n as int),
            ]);
            assert(MediaState::item(v) =~= array_of(p2));
        },
        None => {
            assert(MediaState::item(v) =~= array_of(p1));
        },
    }
}

} // verus!
