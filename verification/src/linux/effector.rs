//! What this machine can actually do.
//!
//! [`LinuxEffector::supported`] decides the feature set when the daemon starts:
//! a plugin with missing effects answers that it is not allowed. An effect is
//! turned into work for the desktop, and what came of the work into an answer.
use crate::body::{body_reads_back, to_bytes, value_of, Body};
use crate::linux::command::{manifest_of, CommandCatalog, CommandSpec, SpecView};
use crate::plugin::{quote, quoted, CxView, FaultView, Memory, Plugin, Told};
use crate::plugins::command::{CommandList, Exited, ListView};
use crate::plugins::session::{each_request_asks_for_itself, SessionPlugin};
use crate::text::{join2, texts};
use crate::vocab::{
    Effect, EffectKind, EffectResult, EffectView, MediaAction, ResultView, TouchpadOp, TouchpadView,
};
use crate::wire::EnvelopeView;
use vstd::prelude::*;

verus! {

/// Where this machine's wake targets live.
#[derive(Debug)]
pub struct WolSettings {
    pub allowlist: Vec<String>,
    pub broadcast: String,
    pub port: u16,
}

/// What was found on this machine. No system bus or no graphical session is a
/// normal configuration, not an error.
#[derive(Clone, Copy, PartialEq, Eq, Debug, Structural)]
pub struct Abilities {
    pub session: bool,
    pub wayland: bool,
    /// A session bus: players are per-login.
    pub media: bool,
    pub touchpad: bool,
}

pub struct LinuxEffector {
    abilities: Abilities,
    catalog: CommandCatalog,
    wol: WolSettings,
    run_counter: u32,
}

/// The model of a [`LinuxEffector`].
pub struct HostView {
    pub abilities: Abilities,
    pub catalog: Map<Seq<char>, SpecView>,
    pub runs: u32,
}

impl View for LinuxEffector {
    type V = HostView;

    closed spec fn view(&self) -> HostView {
        HostView { abilities: self.abilities, catalog: self.catalog@, runs: self.run_counter }
    }
}

/// What the desktop is to do for an effect.
#[derive(Debug)]
pub enum Work {
    /// Nothing: this is the answer.
    Answer(EffectResult),
    QuerySession,
    LockSession,
    UnlockSession,
    ReadClipboard,
    WriteClipboard(Vec<u8>),
    Run { spec: CommandSpec, run_id: u32 },
    Wake { macs: Vec<String>, dests: Vec<String>, port: u16 },
    ReadMedia,
    ControlMedia { player: String, action: MediaAction },
    Touchpad { order: u32, op: TouchpadOp },
}

/// The model of [`Work`].
pub enum WorkView {
    Answer(ResultView),
    QuerySession,
    LockSession,
    UnlockSession,
    ReadClipboard,
    WriteClipboard(Seq<u8>),
    Run { spec: SpecView, run_id: u32 },
    Wake { macs: Seq<Seq<char>>, dests: Seq<Seq<char>>, port: u16 },
    ReadMedia,
    ControlMedia { player: Seq<char>, action: MediaAction },
    Touchpad { order: u32, op: TouchpadView },
}

impl View for Work {
    type V = WorkView;

    open spec fn view(&self) -> WorkView {
        match self {
            Work::Answer(r) => WorkView::Answer(r@),
            Work::QuerySession => WorkView::QuerySession,
            Work::LockSession => WorkView::LockSession,
            Work::UnlockSession => WorkView::UnlockSession,
            Work::ReadClipboard => WorkView::ReadClipboard,
            Work::WriteClipboard(b) => WorkView::WriteClipboard(b@),
            Work::Run { spec, run_id } => WorkView::Run { spec: spec@, run_id: *run_id },
            Work::Wake { macs, dests, port } => WorkView::Wake {
                macs: texts(macs@),
                dests: texts(dests@),
                port: *port,
            },
            Work::ReadMedia => WorkView::ReadMedia,
            Work::ControlMedia { player, action } => WorkView::ControlMedia {
                player: player@,
                action: *action,
            },
            Work::Touchpad { order, op } => WorkView::Touchpad { order: *order, op: op@ },
        }
    }
}

/// Work, where the machine can do it.
pub open spec fn if_able(able: bool, work: WorkView) -> WorkView {
    if able {
        work
    } else {
        WorkView::Answer(ResultView::Unsupported)
    }
}

/// The number after `n`; it starts over when it is used up.
pub open spec fn next_run(n: u32) -> u32 {
    if n == u32::MAX {
        0
    } else {
        (n + 1) as u32
    }
}

/// What an effect comes to on a machine.
pub open spec fn work_for(h: HostView, e: EffectView) -> WorkView {
    match e {
        EffectView::QuerySession => if_able(h.abilities.session, WorkView::QuerySession),
        EffectView::LockSession => if_able(h.abilities.session, WorkView::LockSession),
        EffectView::UnlockSession => if_able(h.abilities.session, WorkView::UnlockSession),
        EffectView::ClipboardRead => if_able(h.abilities.wayland, WorkView::ReadClipboard),
        EffectView::ClipboardWrite { data, .. } => if_able(
            h.abilities.wayland,
            WorkView::WriteClipboard(data),
        ),
        EffectView::ListCommands => WorkView::Answer(
            ResultView::Done(CommandList::item(ListView { commands: manifest_of(h.catalog) })),
        ),
        EffectView::RunCommand { id } => if h.catalog.dom().contains(id) {
            WorkView::Run { spec: h.catalog[id], run_id: next_run(h.runs) }
        } else {
            WorkView::Answer(ResultView::Failed(quoted(id) + " is not a configured command"@))
        },
        EffectView::SendMagicPacket { macs, dests, port } => WorkView::Wake { macs, dests, port },
        EffectView::MediaQuery => if_able(h.abilities.media, WorkView::ReadMedia),
        EffectView::MediaControl { player, action } => if_able(
            h.abilities.media,
            WorkView::ControlMedia { player, action },
        ),
        EffectView::Touchpad { order, op } => if_able(
            h.abilities.touchpad,
            WorkView::Touchpad { order, op },
        ),
        EffectView::Custom { .. } => WorkView::Answer(ResultView::Unsupported),
    }
}

/// The classes of effect a machine serves.
pub open spec fn serves(h: HostView, k: EffectKind) -> bool {
    match k {
        EffectKind::Wol => true,
        EffectKind::Session => h.abilities.session,
        EffectKind::Clipboard => h.abilities.wayland,
        EffectKind::Command => h.catalog.dom() != Set::<Seq<char>>::empty(),
        EffectKind::Media => h.abilities.media,
        EffectKind::Touchpad => h.abilities.touchpad,
        EffectKind::Share | EffectKind::Custom => false,
    }
}

/// A class, where it is served.
pub open spec fn if_served(h: HostView, k: EffectKind) -> Seq<EffectKind> {
    if serves(h, k) {
        seq![k]
    } else {
        Seq::empty()
    }
}

/// The classes a machine serves, in the order they are announced.
pub open spec fn served(h: HostView) -> Seq<EffectKind> {
    seq![EffectKind::Wol] + if_served(h, EffectKind::Session) + if_served(h, EffectKind::Clipboard)
        + if_served(h, EffectKind::Command) + if_served(h, EffectKind::Media) + if_served(
        h,
        EffectKind::Touchpad,
    )
}

/// What is announced is what is served.
pub proof fn announced_is_served(h: HostView, k: EffectKind)
    ensures
        served(h).contains(k) <==> serves(h, k),
{
    let a = seq![EffectKind::Wol];
    let b = a + if_served(h, EffectKind::Session);
    let c = b + if_served(h, EffectKind::Clipboard);
    let d = c + if_served(h, EffectKind::Command);
    let e = d + if_served(h, EffectKind::Media);
    assert(a.contains(k) <==> k == EffectKind::Wol) by {
        assert(a[0] == EffectKind::Wol);
    }
    holds_either(a, if_served(h, EffectKind::Session), k);
    holds_either(b, if_served(h, EffectKind::Clipboard), k);
    holds_either(c, if_served(h, EffectKind::Command), k);
    holds_either(d, if_served(h, EffectKind::Media), k);
    holds_either(e, if_served(h, EffectKind::Touchpad), k);
    one_is_itself(h, EffectKind::Session, k);
    one_is_itself(h, EffectKind::Clipboard, k);
    one_is_itself(h, EffectKind::Command, k);
    one_is_itself(h, EffectKind::Media, k);
    one_is_itself(h, EffectKind::Touchpad, k);
}

proof fn holds_either(a: Seq<EffectKind>, b: Seq<EffectKind>, k: EffectKind)
    ensures
        (a + b).contains(k) <==> a.contains(k) || b.contains(k),
{
    if a.contains(k) {
        let i = choose|i: int| 0 <= i < a.len() && a[i] == k;
        assert((a + b)[i] == k);
    }
    if b.contains(k) {
        let i = choose|i: int| 0 <= i < b.len() && b[i] == k;
        assert((a + b)[a.len() + i] == k);
    }
    if (a + b).contains(k) {
        let i = choose|i: int| 0 <= i < (a + b).len() && (a + b)[i] == k;
        if i < a.len() {
            assert(a[i] == k);
        } else {
            assert(b[i - a.len()] == k);
        }
    }
}

proof fn one_is_itself(h: HostView, own: EffectKind, k: EffectKind)
    ensures
        if_served(h, own).contains(k) <==> serves(h, own) && k == own,
{
    if serves(h, own) {
        assert(if_served(h, own)[0] == own);
    }
}

impl LinuxEffector {
    pub fn new(
        catalog: CommandCatalog,
        wol: WolSettings,
        abilities: Abilities,
    ) -> (e: LinuxEffector)
        ensures
            e@ == (HostView { abilities, catalog: catalog@, runs: 0 }),
            e.settings() == wol,
    {
        LinuxEffector { abilities, catalog, wol, run_counter: 0 }
    }

    pub fn catalog(&self) -> (c: &CommandCatalog)
        ensures
            c@ == self@.catalog,
    {
        &self.catalog
    }

    pub fn wol_settings(&self) -> (w: &WolSettings)
        ensures
            *w == self.settings(),
    {
        &self.wol
    }

    /// The wake targets this was made with.
    pub closed spec fn settings(self) -> WolSettings {
        self.wol
    }

    /// The classes of effect this machine serves. An empty catalogue means the
    /// capability is absent, not present but empty; a session bus means media
    /// even while nothing plays, or a phone would renegotiate constantly.
    pub fn supported(&self) -> (kinds: Vec<EffectKind>)
        ensures
            kinds@ == served(self@),
    {
        let mut kinds: Vec<EffectKind> = Vec::new();
        kinds.push(EffectKind::Wol);
        if self.abilities.session {
            kinds.push(EffectKind::Session);
        }
        if self.abilities.wayland {
            kinds.push(EffectKind::Clipboard);
        }
        if !self.catalog.is_empty() {
            kinds.push(EffectKind::Command);
        }
        if self.abilities.media {
            kinds.push(EffectKind::Media);
        }
        if self.abilities.touchpad {
            kinds.push(EffectKind::Touchpad);
        }
        assert(kinds@ =~= served(self@));
        kinds
    }

    /// What an effect comes to. What a command may run is looked up here again:
    /// this layer starts the process and should not trust the caller.
    pub fn start(&mut self, effect: Effect) -> (w: Work)
        ensures
            w@ == work_for(old(self)@, effect@),
            final(self)@ == (HostView {
                runs: if w@ is Run {
                    next_run(old(self)@.runs)
                } else {
                    old(self)@.runs
                },
                ..old(self)@
            }),
            final(self).settings() == old(self).settings(),
    {
        let a: Abilities = self.abilities;
        match effect {
            Effect::QuerySession => if a.session {
                Work::QuerySession
            } else {
                Work::Answer(EffectResult::Unsupported)
            },
            Effect::LockSession => if a.session {
                Work::LockSession
            } else {
                Work::Answer(EffectResult::Unsupported)
            },
            Effect::UnlockSession => if a.session {
                Work::UnlockSession
            } else {
                Work::Answer(EffectResult::Unsupported)
            },
            Effect::ClipboardRead => if a.wayland {
                Work::ReadClipboard
            } else {
                Work::Answer(EffectResult::Unsupported)
            },
            Effect::ClipboardWrite { data, .. } => if a.wayland {
                Work::WriteClipboard(data)
            } else {
                Work::Answer(EffectResult::Unsupported)
            },
            Effect::ListCommands => Work::Answer(
                EffectResult::Done(to_bytes(&CommandList { commands: self.catalog.manifest() })),
            ),
            Effect::RunCommand { id } => match self.catalog.get(id.as_str()) {
                Some(spec) => {
                    let spec = spec.clone();
                    self.run_counter = self.run_counter.wrapping_add(1);
                    Work::Run { spec, run_id: self.run_counter }
                },
                None => Work::Answer(
                    EffectResult::Failed(
                        join2(quote(id.as_str()).as_str(), " is not a configured command"),
                    ),
                ),
            },
            Effect::SendMagicPacket { macs, dests, port } => Work::Wake { macs, dests, port },
            Effect::MediaQuery => if a.media {
                Work::ReadMedia
            } else {
                Work::Answer(EffectResult::Unsupported)
            },
            Effect::MediaControl { player, action } => if a.media {
                Work::ControlMedia { player, action }
            } else {
                Work::Answer(EffectResult::Unsupported)
            },
            Effect::Touchpad { order, op } => if a.touchpad {
                Work::Touchpad { order, op }
            } else {
                Work::Answer(EffectResult::Unsupported)
            },
            // Unknown namespace: `Unsupported` lets the core drop the plugin
            // quietly.
            Effect::Custom { .. } => Work::Answer(EffectResult::Unsupported),
        }
    }
}

/// The answer for work that gives something: the thing itself, or why not.
pub fn answer_with<T: Body>(done: Result<T, String>) -> (r: EffectResult)
    ensures
        r@ == (match done {
            Ok(v) => ResultView::Done(T::item(v@)),
            Err(e) => ResultView::Failed(e@),
        }),
{
    match done {
        Ok(v) => EffectResult::Done(to_bytes(&v)),
        Err(e) => EffectResult::Failed(e),
    }
}

/// The answer for work that gives nothing.
pub fn answer_done(done: Result<(), String>) -> (r: EffectResult)
    ensures
        r@ == (match done {
            Ok(_) => ResultView::Done(Seq::empty()),
            Err(e) => ResultView::Failed(e@),
        }),
{
    match done {
        Ok(_) => EffectResult::Done(Vec::new()),
        Err(e) => EffectResult::Failed(e),
    }
}

/// The answer for reading the clipboard. An empty one is not a failure; there is
/// nothing to hand over.
pub fn answer_clipboard(read: Result<Option<Vec<u8>>, String>) -> (r: EffectResult)
    ensures
        r@ == (match read {
            Ok(Some(data)) => ResultView::Done(data@),
            Ok(None) => ResultView::Done(Seq::empty()),
            Err(e) => ResultView::Failed(e@),
        }),
{
    match read {
        Ok(Some(data)) => EffectResult::Done(data),
        Ok(None) => EffectResult::Done(Vec::new()),
        Err(e) => EffectResult::Failed(e),
    }
}

/// The answer for sending magic packets.
pub fn answer_wake(sent: Result<usize, String>) -> (r: EffectResult)
    ensures
        r@ == (match sent {
            Ok(n) => ResultView::Done(
                Exited::item(Exited { run_id: 0, code: 0, truncated: n == 0 }),
            ),
            Err(e) => ResultView::Failed(e@),
        }),
{
    match sent {
        Ok(n) => EffectResult::Done(to_bytes(&Exited { run_id: 0, code: 0, truncated: n == 0 })),
        Err(e) => EffectResult::Failed(e),
    }
}

/// Only a configured command is ever run, as it was configured.
pub proof fn only_configured_commands_run(h: HostView, e: EffectView)
    ensures
        work_for(h, e) matches WorkView::Run { spec, .. } ==> (e matches EffectView::RunCommand { id }
            && h.catalog.dom().contains(id) && spec == h.catalog[id]),
{
}

/// A class of effect that a machine does not serve is never worked on, and one
/// it serves is never answered that it is unsupported.
pub proof fn what_is_served_is_worked_on(h: HostView, e: EffectView)
    requires
        e.kind() != EffectKind::Custom,
        e.kind() != EffectKind::Command,
    ensures
        serves(h, e.kind()) <==> work_for(h, e) != WorkView::Answer(ResultView::Unsupported),
{
}

/// A desktop that is asked to lock is locked and never unlocked, one that is asked to
/// unlock is unlocked, and one that is asked how it stands is read. Without a session
/// it answers each that it cannot, and does nothing.
pub proof fn a_lock_locks_and_an_unlock_unlocks(h: HostView)
    ensures
        h.abilities.session ==> {
            &&& work_for(h, EffectView::LockSession) is LockSession
            &&& work_for(h, EffectView::UnlockSession) is UnlockSession
            &&& work_for(h, EffectView::QuerySession) is QuerySession
        },
        !h.abilities.session ==> forall|e: EffectView|
            e is LockSession || e is UnlockSession || e is QuerySession ==> #[trigger] work_for(h, e)
                == WorkView::Answer(ResultView::Unsupported),
{
}

/// What is done for an effect is of the effect's own kind, with just what the effect
/// names: nothing is locked, read, written, run, woken, played or touched that was not
/// asked for.
pub proof fn work_is_what_was_asked_for(h: HostView, e: EffectView)
    ensures
        match work_for(h, e) {
            WorkView::Answer(_) => true,
            WorkView::QuerySession => e is QuerySession,
            WorkView::LockSession => e is LockSession,
            WorkView::UnlockSession => e is UnlockSession,
            WorkView::ReadClipboard => e is ClipboardRead,
            WorkView::WriteClipboard(bytes) => e matches EffectView::ClipboardWrite { data, .. }
                && bytes == data,
            WorkView::Run { spec, run_id } => e matches EffectView::RunCommand { id }
                && h.catalog.dom().contains(id) && spec == h.catalog[id] && (h.runs < u32::MAX
                ==> run_id == h.runs + 1),
            WorkView::Wake { macs, dests, port } => e matches EffectView::SendMagicPacket {
                macs: m,
                dests: d,
                port: p,
            } && macs == m && dests == d && port == p,
            WorkView::ReadMedia => e is MediaQuery,
            WorkView::ControlMedia { player, action } => e matches EffectView::MediaControl {
                player: p,
                action: a,
            } && player == p && action == a,
            WorkView::Touchpad { order, op } => e matches EffectView::Touchpad { order: n, op: o }
                && order == n && op == o,
        },
{
}

/// What a machine can do is done, and what it cannot is answered so: by whether it has
/// a session, a compositor, players, a pad, or a command of that name.
pub proof fn what_a_machine_can_do_is_done(h: HostView, e: EffectView)
    ensures
        e is ClipboardRead || e is ClipboardWrite ==> (h.abilities.wayland <==> work_for(h, e)
            != WorkView::Answer(ResultView::Unsupported)),
        e is MediaQuery || e is MediaControl ==> (h.abilities.media <==> work_for(h, e)
            != WorkView::Answer(ResultView::Unsupported)),
        e is Touchpad ==> (h.abilities.touchpad <==> work_for(h, e) is Touchpad),
        e is SendMagicPacket ==> work_for(h, e) is Wake,
        e matches EffectView::RunCommand { id } ==> if h.catalog.dom().contains(id) {
            work_for(h, e) is Run
        } else {
            work_for(h, e) matches WorkView::Answer(ResultView::Failed(_))
        },
        e is ListCommands ==> (work_for(h, e) matches WorkView::Answer(ResultView::Done(_))),
        e is Custom ==> work_for(h, e) == WorkView::Answer(ResultView::Unsupported),
{
}

/// What a machine announces is what it has.
pub proof fn what_is_announced_is_there(h: HostView)
    ensures
        served(h).contains(EffectKind::Wol),
        served(h).contains(EffectKind::Session) <==> h.abilities.session,
        served(h).contains(EffectKind::Clipboard) <==> h.abilities.wayland,
        served(h).contains(EffectKind::Command) <==> exists|id: Seq<char>| #[trigger]
            h.catalog.dom().contains(id),
        served(h).contains(EffectKind::Media) <==> h.abilities.media,
        served(h).contains(EffectKind::Touchpad) <==> h.abilities.touchpad,
        !served(h).contains(EffectKind::Share),
        !served(h).contains(EffectKind::Custom),
{
    announced_is_served(h, EffectKind::Wol);
    announced_is_served(h, EffectKind::Session);
    announced_is_served(h, EffectKind::Clipboard);
    announced_is_served(h, EffectKind::Command);
    announced_is_served(h, EffectKind::Media);
    announced_is_served(h, EffectKind::Touchpad);
    announced_is_served(h, EffectKind::Share);
    announced_is_served(h, EffectKind::Custom);
    if h.catalog.dom() != Set::<Seq<char>>::empty() {
        assert(exists|id: Seq<char>| #[trigger] h.catalog.dom().contains(id)) by {
            if forall|id: Seq<char>| !#[trigger] h.catalog.dom().contains(id) {
                assert(h.catalog.dom() =~= Set::<Seq<char>>::empty());
            }
        }
    }
}

/// A peer that asks a desktop to lock has the desktop lock, and one that asks it to
/// unlock has it unlock, from the message to the work.
pub proof fn a_peers_lock_is_a_lock(
    p: SessionPlugin,
    cx: CxView,
    peer: Seq<char>,
    env: EnvelopeView,
    end: CxView,
    r: Result<(), FaultView>,
    next: Memory,
    h: HostView,
)
    requires
        p.may(Told::Message { peer, env }, cx, end, r, next),
        h.abilities.session,
    ensures
        env.ty == "lock"@ ==> work_for(h, end.effects.last().1) is LockSession,
        env.ty == "unlock"@ ==> work_for(h, end.effects.last().1) is UnlockSession,
        env.ty == "query"@ ==> work_for(h, end.effects.last().1) is QuerySession,
{
    each_request_asks_for_itself(p, cx, peer, env, end, r, next);
}

/// Work that went well is answered with what it gave, and work that did not with why;
/// a failure is never answered as a success, nor a success as a failure.
pub proof fn an_answer_says_how_the_work_went<T: Body>(
    given: Result<T, String>,
    a: EffectResult,
    done: Result<(), String>,
    b: EffectResult,
    read: Result<Option<Vec<u8>>, String>,
    c: EffectResult,
    sent: Result<usize, String>,
    d: EffectResult,
)
    requires
        call_ensures(answer_with::<T>, (given,), a),
        call_ensures(answer_done, (done,), b),
        call_ensures(answer_clipboard, (read,), c),
        call_ensures(answer_wake, (sent,), d),
    ensures
        given matches Ok(v) ==> a@ == ResultView::Done(T::item(v@)),
        given matches Err(e) ==> a@ == ResultView::Failed(e@),
        done is Ok ==> b@ == ResultView::Done(Seq::empty()),
        done matches Err(e) ==> b@ == ResultView::Failed(e@),
        read matches Ok(Some(data)) ==> c@ == ResultView::Done(data@),
        read matches Ok(None) ==> c@ == ResultView::Done(Seq::empty()),
        read matches Err(e) ==> c@ == ResultView::Failed(e@),
        sent is Ok ==> (d@ matches ResultView::Done(bytes) && (bytes.len() <= u64::MAX ==> (value_of::<
            Exited,
        >(bytes) matches Some(x) && x.code == 0 && (x.truncated <==> sent == Ok::<usize, String>(0))))),
        sent matches Err(e) ==> d@ == ResultView::Failed(e@),
{
    match sent {
        Ok(n) => {
            let x = Exited { run_id: 0, code: 0, truncated: n == 0 };
            if Exited::item(x).len() <= u64::MAX {
                body_reads_back::<Exited>(x);
            }
        },
        _ => {},
    }
}

/// A command that nobody configured is not run but answered with its name; one that is
/// configured is run under the number after the last, which starts over where the numbers
/// are used up.
pub proof fn each_run_has_the_next_number(h: HostView, id: Seq<char>)
    ensures
        !h.catalog.dom().contains(id) ==> work_for(h, EffectView::RunCommand { id })
            == WorkView::Answer(ResultView::Failed(quoted(id) + " is not a configured command"@)),
        h.catalog.dom().contains(id) ==> (work_for(h, EffectView::RunCommand { id }) matches
            WorkView::Run { spec, run_id } && spec == h.catalog[id] && (run_id == h.runs + 1 || (
        run_id == 0 && h.runs == u32::MAX))),
{
}

} // verus!
