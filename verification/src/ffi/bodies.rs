//! Decoding plugin bodies, for hosts.
//!
//! The core keeps message bodies opaque, which is right for routing and useless
//! for a user interface. Rather than have every host learn the format and grow a
//! second definition of every body shape, the decoders live here and hand back
//! plain records. A view that wants a command list gets a list of [`FfiCommand`].
use crate::body::{body_reads_back, from_bytes, to_bytes, value_of, views, Body};
use crate::ffi::types::{FfiError, FfiErrorView};
use crate::linux::wol::{build, mac_bytes, mac_digits, magic, not_a_mac, parse_mac};
use crate::plugins::clipboard::{hash, set_body, sha256, ClipboardSet, SetView, TEXT_PLAIN};
use crate::plugins::command::{
    CommandEntry, CommandList, EntryView, Exited, ListView, RunRequest, RunView,
};
use crate::plugins::session::{LockView, SeatView, SessionOutcome, SessionState};
use crate::plugins::wol::{ConfigView, WolConfig};
use crate::text::{is_empty, join2, join3, texts};
use crate::wire::{ErrorBody, ErrorBodyView};
use vstd::prelude::*;
use vstd::utf8::{decode_utf8, encode_utf8, valid_utf8};

verus! {

/// What is said of bytes that are not what they were taken for.
pub open spec fn not_a(what: Seq<char>) -> FfiErrorView {
    FfiErrorView::BadInput("this is not a "@ + what)
}

fn bad(what: &str) -> (e: FfiError)
    ensures
        e@ == not_a(what@),
{
    FfiError::BadInput { detail: join2("this is not a ", what) }
}

#[derive(Clone, Debug)]
pub struct FfiSessionState {
    pub locked: bool,
    pub session_id: String,
    /// `wayland` or `x11`.
    pub kind: String,
    pub active: bool,
}

impl View for FfiSessionState {
    type V = SeatView;

    open spec fn view(&self) -> SeatView {
        SeatView {
            locked: self.locked,
            session_id: self.session_id@,
            kind: self.kind@,
            active: self.active,
        }
    }
}

pub fn decode_session_state(body: Vec<u8>) -> (r: Result<FfiSessionState, FfiError>)
    ensures
        match r {
            Ok(s) => value_of::<SessionState>(body@) == Some(s@),
            Err(e) => value_of::<SessionState>(body@) is None && e@ == not_a("session state"@),
        },
{
    match from_bytes::<SessionState>(body.as_slice()) {
        Some(s) => Ok(
            FfiSessionState {
                locked: s.locked,
                session_id: s.session_id,
                kind: s.kind,
                active: s.active,
            },
        ),
        None => Err(bad("session state")),
    }
}

#[derive(Clone, Debug)]
pub struct FfiSessionOutcome {
    pub was_locked: bool,
    /// Read back after the operation, never inferred from an exit status.
    pub locked: bool,
    pub session_id: String,
}

impl View for FfiSessionOutcome {
    type V = LockView;

    open spec fn view(&self) -> LockView {
        LockView {
            was_locked: self.was_locked,
            locked: self.locked,
            session_id: self.session_id@,
        }
    }
}

pub fn decode_session_outcome(body: Vec<u8>) -> (r: Result<FfiSessionOutcome, FfiError>)
    ensures
        match r {
            Ok(o) => value_of::<SessionOutcome>(body@) == Some(o@),
            Err(e) => value_of::<SessionOutcome>(body@) is None && e@ == not_a("session outcome"@),
        },
{
    match from_bytes::<SessionOutcome>(body.as_slice()) {
        Some(o) => Ok(
            FfiSessionOutcome {
                was_locked: o.was_locked,
                locked: o.locked,
                session_id: o.session_id,
            },
        ),
        None => Err(bad("session outcome")),
    }
}

#[derive(Clone, Debug)]
pub struct FfiCommand {
    pub id: String,
    pub name: String,
    /// A hint for the interface. It is not enforcement; the peer's allowlist is.
    pub needs_confirm: bool,
}

impl View for FfiCommand {
    type V = EntryView;

    open spec fn view(&self) -> EntryView {
        EntryView { id: self.id@, name: self.name@, needs_confirm: self.needs_confirm }
    }
}

pub fn decode_command_list(body: Vec<u8>) -> (r: Result<Vec<FfiCommand>, FfiError>)
    ensures
        match r {
            Ok(l) => value_of::<CommandList>(body@) == Some(ListView { commands: views(l@) }),
            Err(e) => value_of::<CommandList>(body@) is None && e@ == not_a("command list"@),
        },
{
    match from_bytes::<CommandList>(body.as_slice()) {
        Some(l) => {
            let mut out: Vec<FfiCommand> = Vec::new();
            for i in 0..l.commands.len()
                invariant
                    out.len() == i,
                    forall|k: int| 0 <= k < i ==> (#[trigger] out@[k])@ == l.commands@[k]@,
            {
                let c = &l.commands[i];
                out.push(
                    FfiCommand {
                        id: c.id.clone(),
                        name: c.name.clone(),
                        needs_confirm: c.needs_confirm,
                    },
                );
            }
            assert(views(out@) =~= views(l.commands@));
            Ok(out)
        },
        None => Err(bad("command list")),
    }
}

/// The body of a `run`. An id from the peer's own list, never a command string.
pub fn encode_run_request(id: String) -> (b: Vec<u8>)
    ensures
        b@ == RunRequest::item(RunView { id: id@ }),
{
    to_bytes(&RunRequest { id })
}

#[derive(Clone, Copy, PartialEq, Eq, Debug, Structural)]
pub struct FfiExited {
    pub run_id: u32,
    pub code: i32,
    pub truncated: bool,
}

impl View for FfiExited {
    type V = Exited;

    open spec fn view(&self) -> Exited {
        Exited { run_id: self.run_id, code: self.code, truncated: self.truncated }
    }
}

pub fn decode_exited(body: Vec<u8>) -> (r: Result<FfiExited, FfiError>)
    ensures
        match r {
            Ok(x) => value_of::<Exited>(body@) == Some(x@),
            Err(e) => value_of::<Exited>(body@) is None && e@ == not_a("command outcome"@),
        },
{
    match from_bytes::<Exited>(body.as_slice()) {
        Some(e) => Ok(FfiExited { run_id: e.run_id, code: e.code, truncated: e.truncated }),
        None => Err(bad("command outcome")),
    }
}

#[derive(Clone, Debug)]
pub struct FfiClipboard {
    pub mime: String,
    pub text: String,
}

/// Bytes that are not UTF-8 as text: what is not becomes replacement characters.
pub uninterp spec fn lossy(b: Seq<u8>) -> Seq<char>;

/// `String::from_utf8_lossy`: the text that UTF-8 bytes encode, and of other
/// bytes the text named [`lossy`].
#[verifier::external_body]
fn text_of_bytes(b: &[u8]) -> (t: String)
    ensures
        t@ == if valid_utf8(b@) {
            decode_utf8(b@)
        } else {
            lossy(b@)
        },
{
    String::from_utf8_lossy(b).into_owned()
}

/// The text a clipboard value is shown as.
pub open spec fn shown(b: Seq<u8>) -> Seq<char> {
    if valid_utf8(b) {
        decode_utf8(b)
    } else {
        lossy(b)
    }
}

pub fn decode_clipboard(body: Vec<u8>) -> (r: Result<FfiClipboard, FfiError>)
    ensures
        match r {
            Ok(c) => value_of::<ClipboardSet>(body@) matches Some(v) && c.mime@ == v.mime && c.text@
                == shown(v.data),
            Err(e) => value_of::<ClipboardSet>(body@) is None && e@ == not_a("clipboard value"@),
        },
{
    match from_bytes::<ClipboardSet>(body.as_slice()) {
        Some(c) => Ok(FfiClipboard { mime: c.mime, text: text_of_bytes(c.data.as_slice()) }),
        None => Err(bad("clipboard value")),
    }
}

#[derive(Clone, Debug)]
pub struct FfiWolConfig {
    pub macs: Vec<String>,
    pub broadcast: String,
    pub port: u16,
    /// Aim here first.
    ///
    /// A network interface matches a magic packet by its payload and ignores
    /// the destination address, so unicast wakes a machine just as well as
    /// broadcast. iOS cannot broadcast without an entitlement a free developer
    /// account cannot get, which makes this the primary path rather than a
    /// fallback. It needs the router to still hold an ARP entry for the
    /// sleeping machine.
    pub last_ipv4: String,
}

impl View for FfiWolConfig {
    type V = ConfigView;

    open spec fn view(&self) -> ConfigView {
        ConfigView {
            macs: texts(self.macs@),
            broadcast: self.broadcast@,
            port: self.port,
            last_ipv4: self.last_ipv4@,
        }
    }
}

pub fn decode_wol_config(body: Vec<u8>) -> (r: Result<FfiWolConfig, FfiError>)
    ensures
        match r {
            Ok(c) => value_of::<WolConfig>(body@) == Some(c@),
            Err(e) => value_of::<WolConfig>(body@) is None && e@ == not_a("wake configuration"@),
        },
{
    match from_bytes::<WolConfig>(body.as_slice()) {
        Some(c) => {
            let r = FfiWolConfig {
                macs: c.macs,
                broadcast: c.broadcast,
                port: c.port,
                last_ipv4: c.last_ipv4,
            };
            assert(r@.macs =~= c@.macs);
            Ok(r)
        },
        None => Err(bad("wake configuration")),
    }
}

/// The bytes a host sends to wake a machine.
///
/// Built here so there is one definition of the packet. `ff` six times, then
/// the MAC sixteen times: 102 bytes.
pub fn magic_packet(mac: String) -> (r: Result<Vec<u8>, FfiError>)
    ensures
        match r {
            Ok(p) => mac_digits(mac@).len() == 12 && p@ == magic(
                mac_bytes(mac_digits(mac@)),
                None,
            ),
            Err(e) => mac_digits(mac@).len() != 12 && e@ == FfiErrorView::BadInput(not_a_mac(mac@)),
        },
{
    match parse_mac(mac.as_str()) {
        Ok(m) => Ok(build(m, None)),
        Err(detail) => Err(FfiError::BadInput { detail }),
    }
}

// The encoders below are the other half of the pair. A phone never sends a
// session state or a command catalogue, but a host that serves those verbs does,
// and it must not reimplement the format to do it.

pub fn encode_session_state(state: FfiSessionState) -> (b: Vec<u8>)
    ensures
        b@ == SessionState::item(state@),
{
    to_bytes(
        &SessionState {
            locked: state.locked,
            session_id: state.session_id,
            kind: state.kind,
            active: state.active,
        },
    )
}

pub fn encode_command_list(commands: Vec<FfiCommand>) -> (b: Vec<u8>)
    ensures
        b@ == CommandList::item(ListView { commands: views(commands@) }),
{
    let mut out: Vec<CommandEntry> = Vec::new();
    for i in 0..commands.len()
        invariant
            out.len() == i,
            forall|k: int| 0 <= k < i ==> (#[trigger] out@[k])@ == commands@[k]@,
    {
        let c = &commands[i];
        out.push(
            CommandEntry {
                id: c.id.clone(),
                name: c.name.clone(),
                needs_confirm: c.needs_confirm,
            },
        );
    }
    let list = CommandList { commands: out };
    assert(list@.commands =~= views(commands@));
    to_bytes(&list)
}

pub fn encode_clipboard(text: String) -> (b: Vec<u8>)
    ensures
        b@ == set_body(encode_utf8(text@)),
{
    let data = crate::text::copy_bytes(text.as_str().as_bytes());
    to_bytes(
        &ClipboardSet { mime: TEXT_PLAIN.to_owned(), hash: hash(data.as_slice()), data },
    )
}

pub fn encode_wol_config(config: FfiWolConfig) -> (b: Vec<u8>)
    ensures
        b@ == WolConfig::item(config@),
{
    let c = WolConfig {
        macs: config.macs,
        broadcast: config.broadcast,
        port: config.port,
        last_ipv4: config.last_ipv4,
    };
    assert(c@.macs =~= config@.macs);
    to_bytes(&c)
}

/// What an error answer is shown as: its code, behind the message where there
/// is one.
pub open spec fn told(e: ErrorBodyView) -> Seq<char> {
    if e.message.len() == 0 {
        e.code
    } else {
        e.message + " ("@ + e.code + ")"@
    }
}

/// The error code from an `err` reply, for a host that wants to say why.
pub fn decode_error(body: Vec<u8>) -> (r: Result<String, FfiError>)
    ensures
        match r {
            Ok(t) => value_of::<ErrorBody>(body@) matches Some(e) && t@ == told(e),
            Err(e) => value_of::<ErrorBody>(body@) is None && e@ == not_a("error"@),
        },
{
    match from_bytes::<ErrorBody>(body.as_slice()) {
        Some(e) => Ok(
            if is_empty(e.message.as_str()) {
                e.code
            } else {
                let start = join3(e.message.as_str(), " (", e.code.as_str());
                join2(start.as_str(), ")")
            },
        ),
        None => Err(bad("error")),
    }
}

/// Capability identifiers, so a host does not spell one wrong.
pub fn cap_session() -> (t: String)
    ensures
        t@ == crate::plugins::session::CAP@,
{
    crate::plugins::session::CAP.to_owned()
}

pub fn cap_clipboard() -> (t: String)
    ensures
        t@ == crate::plugins::clipboard::CAP@,
{
    crate::plugins::clipboard::CAP.to_owned()
}

pub fn cap_command() -> (t: String)
    ensures
        t@ == crate::plugins::command::CAP@,
{
    crate::plugins::command::CAP.to_owned()
}

pub fn cap_wol() -> (t: String)
    ensures
        t@ == crate::plugins::wol::CAP@,
{
    crate::plugins::wol::CAP.to_owned()
}

pub fn cap_ping() -> (t: String)
    ensures
        t@ == crate::plugins::ping::CAP@,
{
    crate::plugins::ping::CAP.to_owned()
}

/// Clipboard text reads back as it was written.
pub proof fn clipboard_text_reads_back(text: Seq<char>)
    requires
        set_body(encode_utf8(text)).len() <= u64::MAX,
    ensures
        value_of::<ClipboardSet>(set_body(encode_utf8(text))) matches Some(v) && v.mime
            == TEXT_PLAIN@ && shown(v.data) == text,
{
    let data = encode_utf8(text);
    body_reads_back::<ClipboardSet>(SetView { mime: TEXT_PLAIN@, data, hash: sha256(data) });
    vstd::utf8::encode_utf8_valid_utf8(text);
    vstd::utf8::encode_utf8_decode_utf8(text);
}

/// What one host writes of its desktop another reads: whether it is locked, which session
/// it is, of what kind, and whether it is in front.
pub proof fn a_desktop_reads_back(
    s: FfiSessionState,
    b: Vec<u8>,
    again: Vec<u8>,
    r: Result<FfiSessionState, FfiError>,
)
    requires
        call_ensures(encode_session_state, (s,), b),
        again@ == b@,
        b@.len() <= u64::MAX,
        call_ensures(decode_session_state, (again,), r),
    ensures
        r matches Ok(x) && x.locked == s.locked && x.session_id@ == s.session_id@ && x.kind@
            == s.kind@ && x.active == s.active,
{
    body_reads_back::<SessionState>(s@);
}

/// A list of commands that one host writes another reads: as many, in the same order, each
/// by its id and its name and whether it wants to be confirmed.
pub proof fn a_list_of_commands_reads_back(
    l: Vec<FfiCommand>,
    b: Vec<u8>,
    again: Vec<u8>,
    r: Result<Vec<FfiCommand>, FfiError>,
    i: int,
)
    requires
        call_ensures(encode_command_list, (l,), b),
        again@ == b@,
        b@.len() <= u64::MAX,
        call_ensures(decode_command_list, (again,), r),
    ensures
        r matches Ok(x) && x.len() == l.len() && (0 <= i < l.len() ==> x@[i].id@ == l@[i].id@
            && x@[i].name@ == l@[i].name@ && x@[i].needs_confirm == l@[i].needs_confirm),
{
    let v = ListView { commands: views(l@) };
    body_reads_back::<CommandList>(v);
    let x = r->Ok_0;
    assert(views(x@) == views(l@));
    assert(views(x@).len() == x@.len());
    assert(views(l@).len() == l@.len());
    if 0 <= i < l.len() {
        assert(views(x@)[i] == x@[i]@);
        assert(views(l@)[i] == l@[i]@);
    }
}

/// How a machine is woken reads back as it was written: its addresses, where to call, on
/// which port, and where it was last seen.
pub proof fn a_wake_configuration_reads_back(
    c: FfiWolConfig,
    b: Vec<u8>,
    again: Vec<u8>,
    r: Result<FfiWolConfig, FfiError>,
)
    requires
        call_ensures(encode_wol_config, (c,), b),
        again@ == b@,
        b@.len() <= u64::MAX,
        call_ensures(decode_wol_config, (again,), r),
    ensures
        r matches Ok(x) && texts(x.macs@) == texts(c.macs@) && x.broadcast@ == c.broadcast@ && x.port
            == c.port && x.last_ipv4@ == c.last_ipv4@,
{
    body_reads_back::<WolConfig>(c@);
}

/// A text that is copied on one device is the text that another shows, as plain text.
pub proof fn copied_text_is_shown(
    text: String,
    b: Vec<u8>,
    again: Vec<u8>,
    r: Result<FfiClipboard, FfiError>,
)
    requires
        call_ensures(encode_clipboard, (text,), b),
        again@ == b@,
        b@.len() <= u64::MAX,
        call_ensures(decode_clipboard, (again,), r),
    ensures
        r matches Ok(c) && c.text@ == text@ && c.mime@ == "text/plain;charset=utf-8"@,
{
    clipboard_text_reads_back(text@);
}

/// What a peer answers is read as it was written: how a lock went, how a command ended, and
/// why something was refused; what is none of these is said not to be.
pub proof fn an_answer_is_read_as_it_was_written(
    body: Vec<u8>,
    lock: Result<FfiSessionOutcome, FfiError>,
    l: LockView,
    exited: Result<FfiExited, FfiError>,
    x: Exited,
    error: Result<String, FfiError>,
    e: ErrorBodyView,
)
    requires
        call_ensures(decode_session_outcome, (body,), lock),
        call_ensures(decode_exited, (body,), exited),
        call_ensures(decode_error, (body,), error),
    ensures
        value_of::<SessionOutcome>(body@) == Some(l) ==> (lock matches Ok(o) && o.was_locked
            == l.was_locked && o.locked == l.locked && o.session_id@ == l.session_id),
        value_of::<SessionOutcome>(body@) is None ==> lock is Err,
        value_of::<Exited>(body@) == Some(x) ==> (exited matches Ok(o) && o.run_id == x.run_id
            && o.code == x.code && o.truncated == x.truncated),
        value_of::<Exited>(body@) is None ==> exited is Err,
        value_of::<ErrorBody>(body@) == Some(e) && e.message.len() == 0 ==> (error matches Ok(t)
            && t@ == e.code),
        value_of::<ErrorBody>(body@) == Some(e) && e.message.len() > 0 ==> (error matches Ok(t)
            && t@ == e.message + " ("@ + e.code + ")"@),
        value_of::<ErrorBody>(body@) is None ==> error is Err,
{
}

/// A host that asks for a command names it by its id; a packet that it sends is the one
/// that wakes the machine; and it calls each capability by its name.
pub proof fn a_host_asks_in_the_right_words(
    id: String,
    run: Vec<u8>,
    mac: String,
    packet: Result<Vec<u8>, FfiError>,
    session: String,
    clipboard: String,
    command: String,
    wol: String,
    ping: String,
)
    requires
        call_ensures(encode_run_request, (id,), run),
        run@.len() <= u64::MAX,
        call_ensures(magic_packet, (mac,), packet),
        call_ensures(cap_session, (), session),
        call_ensures(cap_clipboard, (), clipboard),
        call_ensures(cap_command, (), command),
        call_ensures(cap_wol, (), wol),
        call_ensures(cap_ping, (), ping),
    ensures
        value_of::<RunRequest>(run@) matches Some(v) && v.id == id@,
        packet is Ok <==> mac_digits(mac@).len() == 12,
        packet matches Ok(p) ==> p@ == magic(mac_bytes(mac_digits(mac@)), None),
        session@ == "org.acrylius.session/1"@,
        clipboard@ == "org.acrylius.clipboard/1"@,
        command@ == "org.acrylius.command/1"@,
        wol@ == "org.acrylius.wol/1"@,
        ping@ == "org.acrylius.ping/1"@,
{
    body_reads_back::<RunRequest>(RunView { id: id@ });
}

/// Bytes that are not what they were taken for are said to be not that; and an error is
/// told by its code alone, or by what was said with the code in brackets behind it.
pub proof fn a_fault_is_put_into_words(what: Seq<char>, e: ErrorBodyView)
    ensures
        not_a(what) == FfiErrorView::BadInput("this is not a "@ + what),
        e.message.len() == 0 ==> told(e) == e.code,
        e.message.len() > 0 ==> e.message.is_prefix_of(told(e)) && told(e).skip(
            e.message.len() as int,
        ) == " ("@ + e.code + ")"@,
{
}

} // verus!
