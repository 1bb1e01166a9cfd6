//! `org.acrylius.command/1`: run a named command on the computer.
//!
//! One rule makes this a command runner and not a remote shell. The wire carries
//! an `id` from the computer's own configuration, never a command string.
//!
//! An id that is not in the allowlist is refused. Everything about what actually
//! runs (the absolute path, the argv vector, the timeout, the output cap) lives
//! on the machine that will run it, where the person who owns that machine put
//! it. A peer cannot influence any of it beyond choosing from the list.
use crate::body::{
    body_reads_back, field_list, from_bytes, list_field, list_item, list_reads, put_list, to_bytes, value_of, views,
    Body,
};
use crate::cbor::{
    array_reads, bool_field, bool_item, bool_reads, close, end_of, every_end_is_later, field_bool,
    field_i32, field_text, field_u32, got, head, int_field, int_item, int_reads, open, open_at,
    open_moves_on, put_array, put_bool, put_int, put_text, put_uint, rest, stands_split, text_field,
    text_item, text_reads, uint_field, uint_reads,
};
use crate::ids::DeviceId;
use crate::plugin::{
    after, answer, both_ways, holdable, Cx, CxView, FaultView, Memory, Plugin, PluginError, PluginManifest, Told,
};
use crate::plugins::roster::{Asker, AskerView};
use crate::table::Table;
use crate::text::{copy_bytes, same};
use crate::vocab::{
    Effect, EffectKind, EffectResult, EffectToken, EffectView, ResultView, TransferId,
};
use crate::wire::{Envelope, EnvelopeView};
use vstd::prelude::*;

verus! {

pub const CAP: &'static str = "org.acrylius.command/1";

#[derive(PartialEq, Eq, Debug)]
pub struct CommandEntry {
    pub id: String,
    pub name: String,
    /// A hint for the user interface. It is not enforcement: a peer that
    /// ignores it still only reaches an allowlisted id.
    pub needs_confirm: bool,
}

/// The model of a [`CommandEntry`].
pub struct EntryView {
    pub id: Seq<char>,
    pub name: Seq<char>,
    pub needs_confirm: bool,
}

impl View for CommandEntry {
    type V = EntryView;

    open spec fn view(&self) -> EntryView {
        EntryView { id: self.id@, name: self.name@, needs_confirm: self.needs_confirm }
    }
}

impl Clone for CommandEntry {
    fn clone(&self) -> (r: CommandEntry)
        ensures
            r@ == self@,
    {
        CommandEntry {
            id: self.id.clone(),
            name: self.name.clone(),
            needs_confirm: self.needs_confirm,
        }
    }
}

impl Body for CommandEntry {
    open spec fn item(v: EntryView) -> Seq<u8> {
        head(4, 3) + text_item(v.id) + text_item(v.name) + bool_item(v.needs_confirm)
    }

    open spec fn item_at(b: Seq<u8>, at: int) -> Option<(EntryView, int)> {
        let id = text_field(b, open_at(b, at));
        let name = text_field(b, rest(id));
        let needs_confirm = bool_field(b, rest(name));
        match end_of(b, rest(needs_confirm)) {
            Some(end) => Some(
                (
                    EntryView {
                        id: got(id),
                        name: got(name),
                        needs_confirm: got(needs_confirm),
                    },
                    end,
                ),
            ),
            None => None,
        }
    }

    proof fn item_reads(w: Seq<u8>, at: int, v: EntryView) {
        let p0 = head(4, 3);
        let p1 = p0 + text_item(v.id);
        let p2 = p1 + text_item(v.name);
        stands_split(w, at, p2, bool_item(v.needs_confirm));
        stands_split(w, at, p1, text_item(v.name));
        stands_split(w, at, p0, text_item(v.id));
        array_reads(w, at, 3);
        text_reads(w, at + p0.len(), v.id);
        text_reads(w, at + p1.len(), v.name);
        bool_reads(w, at + p2.len(), v.needs_confirm);
    }

    proof fn item_moves_on(b: Seq<u8>, at: int) {
        open_moves_on(b, at);
        every_end_is_later(b);
    }

    fn put(&self, out: &mut Vec<u8>) {
        put_array(out, 3);
        put_text(out, self.id.as_str());
        put_text(out, self.name.as_str());
        put_bool(out, self.needs_confirm);
        assert(out@ =~= old(out)@ + Self::item(self@));
    }

    fn get(b: &[u8], at: usize) -> (r: Option<(CommandEntry, usize)>) {
        let c = open(b, at)?;
        let (id, c) = field_text(b, c)?;
        let (name, c) = field_text(b, c)?;
        let (needs_confirm, c) = field_bool(b, c)?;
        let end: usize = close(b, c)?;
        Some((CommandEntry { id, name, needs_confirm }, end))
    }
}

#[derive(PartialEq, Eq, Debug)]
pub struct CommandList {
    pub commands: Vec<CommandEntry>,
}

/// The model of a [`CommandList`].
pub struct ListView {
    pub commands: Seq<EntryView>,
}

impl View for CommandList {
    type V = ListView;

    open spec fn view(&self) -> ListView {
        ListView { commands: views(self.commands@) }
    }
}

impl Clone for CommandList {
    fn clone(&self) -> (r: CommandList)
        ensures
            r@ == self@,
    {
        let mut commands: Vec<CommandEntry> = Vec::new();
        for i in 0..self.commands.len()
            invariant
                commands@.len() == i,
                forall|k: int| 0 <= k < i ==> commands@[k]@ == self.commands@[k]@,
        {
            commands.push(self.commands[i].clone());
        }
        assert(views(commands@) =~= views(self.commands@));
        CommandList { commands }
    }
}

impl Body for CommandList {
    open spec fn item(v: ListView) -> Seq<u8> {
        head(4, 1) + list_item::<CommandEntry>(v.commands)
    }

    open spec fn item_at(b: Seq<u8>, at: int) -> Option<(ListView, int)> {
        let commands = list_field::<CommandEntry>(b, open_at(b, at));
        match end_of(b, rest(commands)) {
            Some(end) => Some((ListView { commands: got(commands) }, end)),
            None => None,
        }
    }

    proof fn item_reads(w: Seq<u8>, at: int, v: ListView) {
        let p0 = head(4, 1);
        stands_split(w, at, p0, list_item::<CommandEntry>(v.commands));
        array_reads(w, at, 1);
        list_reads::<CommandEntry>(w, at + p0.len(), v.commands);
    }

    proof fn item_moves_on(b: Seq<u8>, at: int) {
        open_moves_on(b, at);
        every_end_is_later(b);
    }

    fn put(&self, out: &mut Vec<u8>) {
        put_array(out, 1);
        put_list::<CommandEntry>(out, &self.commands);
        assert(out@ =~= old(out)@ + Self::item(self@));
    }

    fn get(b: &[u8], at: usize) -> (r: Option<(CommandList, usize)>) {
        let c = open(b, at)?;
        let (commands, c) = field_list::<CommandEntry>(b, c)?;
        let end: usize = close(b, c)?;
        Some((CommandList { commands }, end))
    }
}

#[derive(Clone, PartialEq, Eq, Debug)]
pub struct RunRequest {
    pub id: String,
}

/// The model of a [`RunRequest`].
pub struct RunView {
    pub id: Seq<char>,
}

impl View for RunRequest {
    type V = RunView;

    open spec fn view(&self) -> RunView {
        RunView { id: self.id@ }
    }
}

impl Body for RunRequest {
    open spec fn item(v: RunView) -> Seq<u8> {
        head(4, 1) + text_item(v.id)
    }

    open spec fn item_at(b: Seq<u8>, at: int) -> Option<(RunView, int)> {
        let id = text_field(b, open_at(b, at));
        match end_of(b, rest(id)) {
            Some(end) => Some((RunView { id: got(id) }, end)),
            None => None,
        }
    }

    proof fn item_reads(w: Seq<u8>, at: int, v: RunView) {
        let p0 = head(4, 1);
        stands_split(w, at, p0, text_item(v.id));
        array_reads(w, at, 1);
        text_reads(w, at + p0.len(), v.id);
    }

    proof fn item_moves_on(b: Seq<u8>, at: int) {
        open_moves_on(b, at);
        every_end_is_later(b);
    }

    fn put(&self, out: &mut Vec<u8>) {
        put_array(out, 1);
        put_text(out, self.id.as_str());
        assert(out@ =~= old(out)@ + Self::item(self@));
    }

    fn get(b: &[u8], at: usize) -> (r: Option<(RunRequest, usize)>) {
        let c = open(b, at)?;
        let (id, c) = field_text(b, c)?;
        let end: usize = close(b, c)?;
        Some((RunRequest { id }, end))
    }
}

#[derive(Clone, Copy, PartialEq, Eq, Debug, Structural)]
pub struct Exited {
    pub run_id: u32,
    pub code: i32,
    /// Set when the output cap was reached, so a reader knows it is not seeing
    /// everything.
    pub truncated: bool,
}

impl View for Exited {
    type V = Exited;

    open spec fn view(&self) -> Exited {
        *self
    }
}

impl Body for Exited {
    open spec fn item(v: Exited) -> Seq<u8> {
        head(4, 3) + head(0, v.run_id as int) + int_item(v.code as int) + bool_item(v.truncated)
    }

    open spec fn item_at(b: Seq<u8>, at: int) -> Option<(Exited, int)> {
        let run_id = uint_field(b, open_at(b, at), u32::MAX as int);
        let code = int_field(b, rest(run_id), i32::MAX as int);
        let truncated = bool_field(b, rest(code));
        match end_of(b, rest(truncated)) {
            Some(end) => Some(
                (
                    Exited {
                        run_id: got(run_id) as u32,
                        code: got(code) as i32,
                        truncated: got(truncated),
                    },
                    end,
                ),
            ),
            None => None,
        }
    }

    proof fn item_reads(w: Seq<u8>, at: int, v: Exited) {
        let p0 = head(4, 3);
        let p1 = p0 + head(0, v.run_id as int);
        let p2 = p1 + int_item(v.code as int);
        stands_split(w, at, p2, bool_item(v.truncated));
        stands_split(w, at, p1, int_item(v.code as int));
        stands_split(w, at, p0, head(0, v.run_id as int));
        array_reads(w, at, 3);
        uint_reads(w, at + p0.len(), v.run_id as int, u32::MAX as int);
        int_reads(w, at + p1.len(), v.code as int, i32::MAX as int);
        bool_reads(w, at + p2.len(), v.truncated);
    }

    proof fn item_moves_on(b: Seq<u8>, at: int) {
        open_moves_on(b, at);
        every_end_is_later(b);
    }

    fn put(&self, out: &mut Vec<u8>) {
        put_array(out, 3);
        put_uint(out, self.run_id as u64);
        put_int(out, self.code as i64);
        put_bool(out, self.truncated);
        assert(out@ =~= old(out)@ + Self::item(self@));
    }

    fn get(b: &[u8], at: usize) -> (r: Option<(Exited, usize)>) {
        let c = open(b, at)?;
        let (run_id, c) = field_u32(b, c)?;
        let (code, c) = field_i32(b, c)?;
        let (truncated, c) = field_bool(b, c)?;
        let end: usize = close(b, c)?;
        Some((Exited { run_id, code, truncated }, end))
    }
}

pub struct CommandPlugin {
    /// What this machine is willing to run. Empty means nothing.
    catalog: CommandList,
    /// What each peer told us it is willing to run.
    ///
    /// A catalogue arrives unprompted when a peer connects, which is the right
    /// time to send it and the wrong time for anyone to be listening. Keeping
    /// it means a user interface that opens later can still show the list
    /// without a round trip.
    remote: Table<String, CommandList>,
    pending: Table<u64, Asker>,
}

/// The model of a [`CommandPlugin`].
pub struct RunnerView {
    pub catalog: Seq<EntryView>,
    pub remote: Map<Seq<char>, ListView>,
    pub pending: Map<u64, AskerView>,
}

impl View for CommandPlugin {
    type V = RunnerView;

    closed spec fn view(&self) -> RunnerView {
        RunnerView {
            catalog: self.catalog@.commands,
            remote: self.remote@,
            pending: self.pending@,
        }
    }
}

/// Whether a list names a command.
pub open spec fn listed(catalog: Seq<EntryView>, id: Seq<char>) -> bool {
    exists|k: int| 0 <= k < catalog.len() && (#[trigger] catalog[k]).id == id
}

pub type Step = (RunnerView, CxView, Result<(), FaultView>);

/// A peer asks for a command. The only decision this plugin makes, and the one
/// that matters: an id that is not in the catalogue is refused.
pub open spec fn run_asked(
    s: RunnerView,
    cx: CxView,
    peer: Seq<char>,
    id: u32,
    body: Seq<u8>,
) -> Step {
    match value_of::<RunRequest>(body) {
        None => (s, cx, Err(FaultView::BadBody)),
        Some(req) => if !listed(s.catalog, req.id) {
            (s, cx, Err(FaultView::NotAllowed))
        } else {
            (
                RunnerView {
                    pending: s.pending.insert(after(cx.next_token), AskerView { peer, request: id }),
                    ..s
                },
                cx.asked(EffectView::RunCommand { id: req.id }),
                Ok(()),
            )
        },
    }
}

/// A message from a peer.
pub open spec fn message(
    s: RunnerView,
    cx: CxView,
    peer: Seq<char>,
    id: u32,
    ty: Seq<char>,
    body: Seq<u8>,
) -> Step {
    if ty == "run"@ {
        run_asked(s, cx, peer, id, body)
    } else if ty == "list"@ {
        (
            match value_of::<CommandList>(body) {
                Some(list) => RunnerView { remote: s.remote.insert(peer, list), ..s },
                None => s,
            },
            cx.told(peer, CAP@, "list"@, body),
            Ok(()),
        )
    } else if ty == "started"@ || ty == "output"@ || ty == "exited"@ || ty == "ok"@ {
        (s, cx.told(peer, CAP@, ty, body), Ok(()))
    } else {
        (s, cx, Err(FaultView::UnknownType(ty)))
    }
}

/// The list a peer is known to offer.
pub open spec fn known(s: RunnerView, peer: Seq<char>) -> ListView {
    if s.remote.dom().contains(peer) {
        s.remote[peer]
    } else {
        ListView { commands: Seq::empty() }
    }
}

/// A request from the local screen.
pub open spec fn local(
    s: RunnerView,
    cx: CxView,
    peer: Seq<char>,
    ty: Seq<char>,
    body: Seq<u8>,
) -> (
    CxView,
    Result<(), FaultView>,
) {
    if ty == "run"@ {
        (cx.sent(peer, CAP@, "run"@, body, None), Ok(()))
    } else if ty == "list"@ {
        (cx.told(peer, CAP@, "list"@, CommandList::item(known(s, peer))), Ok(()))
    } else {
        (cx, Err(FaultView::UnknownType(ty)))
    }
}

/// The command is over, or could not be run.
pub open spec fn effect_done(s: RunnerView, cx: CxView, token: u64, result: ResultView) -> (
    RunnerView,
    CxView,
) {
    if !s.pending.dom().contains(token) {
        (s, cx)
    } else {
        let p = s.pending[token];
        (
            RunnerView { pending: s.pending.remove(token), ..s },
            match result {
                ResultView::Done(bytes) => cx.sent(
                    p.peer,
                    CAP@,
                    "exited"@,
                    bytes,
                    Some(p.request),
                ),
                ResultView::Failed(detail) => cx.refused(
                    p.peer,
                    CAP@,
                    p.request,
                    "effect_failed"@,
                    detail,
                ),
                ResultView::Unsupported => cx.refused(
                    p.peer,
                    CAP@,
                    p.request,
                    "not_allowed"@,
                    "cannot run commands"@,
                ),
            },
        )
    }
}

impl CommandPlugin {
    pub fn new(catalog: Vec<CommandEntry>) -> (p: CommandPlugin)
        ensures
            p@ == (RunnerView {
                catalog: views(catalog@),
                remote: Map::empty(),
                pending: Map::empty(),
            }),
    {
        CommandPlugin {
            catalog: CommandList { commands: catalog },
            remote: Table::new(),
            pending: Table::new(),
        }
    }

    fn offers(&self, id: &str) -> (r: bool)
        ensures
            r == listed(self@.catalog, id@),
    {
        for i in 0..self.catalog.commands.len()
            invariant
                forall|k: int| 0 <= k < i ==> (#[trigger] self@.catalog[k]).id != id@,
        {
            if same(self.catalog.commands[i].id.as_str(), id) {
                assert(self@.catalog[i as int].id == id@);
                return true;
            }
        }
        false
    }
}

impl Default for CommandPlugin {
    fn default() -> (p: CommandPlugin)
        ensures
            p@ == (RunnerView {
                catalog: Seq::empty(),
                remote: Map::empty(),
                pending: Map::empty(),
            }),
    {
        let none: Vec<CommandEntry> = Vec::new();
        assert(views(none@) =~= Seq::<EntryView>::empty());
        CommandPlugin::new(none)
    }
}

impl Plugin for CommandPlugin {
    open spec fn memory(&self) -> Memory {
        Memory::Command(self@)
    }

    open spec fn may(
        &self,
        told: Told,
        cx: CxView,
        after: CxView,
        r: Result<(), FaultView>,
        next: Memory,
    ) -> bool {
        match told {
            Told::Message { peer, env } => {
                let (end, told, said) = message(self@, cx, peer, env.id, env.ty, env.body);
                after == told && r == said && next == Memory::Command(end)
            },
            Told::Local { peer, ty, body } => {
                &&& next == self.memory()
                &&& (after, r) == local(self@, cx, peer, ty, body)
            },
            Told::Answer { token, result } => {
                let (end, told) = effect_done(self@, cx, token, result);
                after == told && next == Memory::Command(end)
            },
            Told::Connected { peer } => {
                &&& next == self.memory()
                &&& after == if self@.catalog.len() == 0 {
                    cx
                } else {
                    cx.sent(
                        peer,
                        CAP@,
                        "list"@,
                        CommandList::item(ListView { commands: self@.catalog }),
                        None,
                    )
                }
            },
            _ => after == cx && next == self.memory(),
        }
    }

    fn manifest(&self) -> (m: PluginManifest)
        ensures
            m@ == both_ways("org.acrylius.command"@, CAP@, seq![EffectKind::Command]),
    {
        let m = PluginManifest::both_ways("org.acrylius.command", CAP, vec![EffectKind::Command]);
        assert(m@.requires_effects =~= seq![EffectKind::Command]);
        m
    }

    fn on_peer_connected(&mut self, cx: &mut Cx, peer: &DeviceId)
        ensures
            final(self)@ == old(self)@,
            final(cx)@ == (if old(self)@.catalog.len() == 0 {
                old(cx)@
            } else {
                old(cx)@.sent(
                    peer@,
                    CAP@,
                    "list"@,
                    CommandList::item(ListView { commands: old(self)@.catalog }),
                    None,
                )
            }),
    {
        if self.catalog.commands.len() == 0 {
            return;
        }
        cx.send(peer, CAP, "list", to_bytes(&self.catalog));
    }

    fn on_message(&mut self, cx: &mut Cx, peer: &DeviceId, env: &Envelope) -> (r: Result<
        (),
        PluginError,
    >)
        ensures
            (final(self)@, final(cx)@, answer(r)) == message(
                old(self)@,
                old(cx)@,
                peer@,
                env.id,
                env.ty@,
                env.body@,
            ),
    {
        let ty = env.ty.as_str();
        if same(ty, "run") {
            let req = match from_bytes::<RunRequest>(&env.body) {
                Some(r) => r,
                None => return Err(PluginError::BadBody),
            };
            if !self.offers(req.id.as_str()) {
                return Err(PluginError::NotAllowed);
            }
            let token = cx.effect(Effect::RunCommand { id: req.id });
            self.pending.insert(token.0, Asker { peer: peer.clone(), request: env.id });
            Ok(())
        } else if same(ty, "list") {
            match from_bytes::<CommandList>(&env.body) {
                Some(list) => self.remote.insert(peer.text(), list),
                None => {},
            }
            cx.tell(peer, CAP, "list", copy_bytes(&env.body));
            Ok(())
        } else if same(ty, "started") || same(ty, "output") || same(ty, "exited") || same(ty, "ok") {
            cx.tell(peer, CAP, ty, copy_bytes(&env.body));
            Ok(())
        } else {
            Err(PluginError::UnknownType(env.ty.clone()))
        }
    }

    fn on_local(&mut self, cx: &mut Cx, peer: &DeviceId, ty: &str, body: &[u8]) -> (r: Result<
        (),
        PluginError,
    >)
        ensures
            final(self)@ == old(self)@,
            (final(cx)@, answer(r)) == local(old(self)@, old(cx)@, peer@, ty@, body@),
    {
        if same(ty, "run") {
            cx.send(peer, CAP, "run", copy_bytes(body));
            Ok(())
        } else if same(ty, "list") {
            // Answer from what the peer already told us, rather than asking
            // again for something that does not change.
            let encoded = match self.remote.get(&peer.text()) {
                Some(list) => to_bytes(list),
                None => {
                    let none: Vec<CommandEntry> = Vec::new();
                    assert(views(none@) =~= Seq::<EntryView>::empty());
                    to_bytes(&CommandList { commands: none })
                },
            };
            cx.tell(peer, CAP, "list", encoded);
            Ok(())
        } else {
            Err(PluginError::UnknownType(ty.to_owned()))
        }
    }

    fn on_effect_result(&mut self, cx: &mut Cx, token: EffectToken, result: &EffectResult)
        ensures
            (final(self)@, final(cx)@) == effect_done(old(self)@, old(cx)@, token.0, result@),
    {
        let who = match self.pending.remove(&token.0) {
            Some(w) => w,
            None => {
                proof {
                    let s = old(self)@;
                    assert(s.pending.remove(token.0) =~= s.pending);
                }
                return;
            },
        };
        match result {
            // The host returns an encoded `Exited`. Output streaming is a
            // version 2 concern; version 1 answers once, when it is over.
            EffectResult::Done(bytes) => {
                cx.send_reply(&who.peer, CAP, "exited", copy_bytes(bytes), who.request);
            },
            EffectResult::Failed(detail) => {
                cx.send_error(&who.peer, CAP, who.request, "effect_failed", detail.as_str());
            },
            EffectResult::Unsupported => {
                cx.send_error(&who.peer, CAP, who.request, "not_allowed", "cannot run commands");
            },
        }
    }

    fn on_peer_disconnected(&mut self, cx: &mut Cx, peer: &DeviceId)
        ensures
            *final(self) == *old(self),
            final(cx)@ == old(cx)@,
    {
    }

    fn on_bulk_listening(&mut self, cx: &mut Cx, transfer: TransferId, endpoint: &str)
        ensures
            *final(self) == *old(self),
            final(cx)@ == old(cx)@,
    {
    }

    fn on_bulk_finished(&mut self, cx: &mut Cx, transfer: TransferId, ok: bool, detail: &str)
        ensures
            *final(self) == *old(self),
            final(cx)@ == old(cx)@,
    {
    }

    fn on_tick(&mut self, cx: &mut Cx)
        ensures
            *final(self) == *old(self),
            final(cx)@ == old(cx)@,
    {
    }
}

/// Whatever a peer sends, the host is asked for nothing but a command in its own
/// catalogue.
pub proof fn only_listed_commands_reach_the_host(
    s: RunnerView,
    cx: CxView,
    peer: Seq<char>,
    id: u32,
    ty: Seq<char>,
    body: Seq<u8>,
)
    ensures
        ({
            let end = message(s, cx, peer, id, ty, body).1.effects;
            ||| end == cx.effects
            ||| {
                &&& end.len() == cx.effects.len() + 1
                &&& end.drop_last() == cx.effects
                &&& (end.last().1 matches EffectView::RunCommand { id } && listed(s.catalog, id))
            }
        }),
{
    let end = message(s, cx, peer, id, ty, body).1.effects;
    assert(end.len() > cx.effects.len() ==> end.drop_last() =~= cx.effects);
}

/// No message changes what this machine is willing to run.
pub proof fn a_peer_cannot_extend_the_catalog(
    s: RunnerView,
    cx: CxView,
    peer: Seq<char>,
    id: u32,
    ty: Seq<char>,
    body: Seq<u8>,
)
    ensures
        message(s, cx, peer, id, ty, body).0.catalog == s.catalog,
{
}

proof fn verbs_differ()
    ensures
        "list"@ != "run"@,
        "started"@ != "run"@,
        "started"@ != "list"@,
        "output"@ != "run"@,
        "output"@ != "list"@,
        "exited"@ != "run"@,
        "exited"@ != "list"@,
        "ok"@ != "run"@,
        "ok"@ != "list"@,
{
    reveal_strlit("run");
    reveal_strlit("list");
    reveal_strlit("started");
    reveal_strlit("output");
    reveal_strlit("exited");
    reveal_strlit("ok");
    assert("run"@[0] == 'r' && "list"@[0] == 'l' && "started"@[0] == 's' && "output"@[0] == 'o'
        && "exited"@[0] == 'e' && "ok"@[0] == 'o');
}

/// A command that is on the list is run, under the very id the peer named; one that is
/// not is refused and nothing is run. Whoever asked is told how it ended, under its own
/// request and as the host said it.
pub proof fn a_listed_command_is_run_and_reported(
    s: RunnerView,
    cx: CxView,
    peer: Seq<char>,
    id: u32,
    body: Seq<u8>,
    later: CxView,
    result: ResultView,
)
    ensures
        ({
            let (mid, asked, r) = message(s, cx, peer, id, "run"@, body);
            let (end, told) = effect_done(mid, later, asked.effects.last().0, result);
            match value_of::<RunRequest>(body) {
                None => r == Err::<(), FaultView>(FaultView::BadBody) && mid == s && asked == cx,
                Some(req) => if exists|k: int|
                    0 <= k < s.catalog.len() && (#[trigger] s.catalog[k]).id == req.id {
                    &&& r is Ok
                    &&& asked == cx.asked(EffectView::RunCommand { id: req.id })
                    &&& mid.catalog == s.catalog && mid.remote == s.remote
                    &&& told == match result {
                        ResultView::Done(bytes) => later.sent(
                            peer,
                            "org.acrylius.command/1"@,
                            "exited"@,
                            bytes,
                            Some(id),
                        ),
                        ResultView::Failed(detail) => later.refused(
                            peer,
                            "org.acrylius.command/1"@,
                            id,
                            "effect_failed"@,
                            detail,
                        ),
                        ResultView::Unsupported => later.refused(
                            peer,
                            "org.acrylius.command/1"@,
                            id,
                            "not_allowed"@,
                            "cannot run commands"@,
                        ),
                    }
                    &&& end.pending == s.pending.remove(asked.effects.last().0)
                } else {
                    r == Err::<(), FaultView>(FaultView::NotAllowed) && mid == s && asked == cx
                },
            }
        }),
{
    let (mid, asked, r) = message(s, cx, peer, id, "run"@, body);
    let token = asked.effects.last().0;
    assert(r is Ok ==> mid.pending.remove(token) =~= s.pending.remove(token));
}

/// The list that a peer offers is what is shown of it afterwards, until it offers
/// another; the lists of others stay as they were.
pub proof fn a_peers_list_is_remembered(
    s: RunnerView,
    cx: CxView,
    peer: Seq<char>,
    id: u32,
    list: ListView,
    other: Seq<char>,
    later: CxView,
    body: Seq<u8>,
)
    requires
        CommandList::item(list).len() <= u64::MAX,
    ensures
        ({
            let (end, told, r) = message(s, cx, peer, id, "list"@, CommandList::item(list));
            &&& r is Ok
            &&& told == cx.told(peer, "org.acrylius.command/1"@, "list"@, CommandList::item(list))
            &&& end.catalog == s.catalog && end.pending == s.pending
            &&& local(end, later, peer, "list"@, body) == (
                later.told(peer, "org.acrylius.command/1"@, "list"@, CommandList::item(list)),
                Ok::<(), FaultView>(()),
            )
            &&& other != peer ==> local(end, later, other, "list"@, body) == local(
                s,
                later,
                other,
                "list"@,
                body,
            )
        }),
        !s.remote.dom().contains(other) ==> local(s, later, other, "list"@, body).0 == later.told(
            other,
            "org.acrylius.command/1"@,
            "list"@,
            CommandList::item(ListView { commands: Seq::empty() }),
        ),
{
    verbs_differ();
    body_reads_back::<CommandList>(list);
}

/// What a peer says of a command that it runs is shown as it said it, and what a person
/// wants run goes to the peer they name.
pub proof fn what_is_said_of_a_run_is_passed_on(
    p: CommandPlugin,
    cx: CxView,
    peer: Seq<char>,
    env: EnvelopeView,
    end: CxView,
    r: Result<(), FaultView>,
    next: Memory,
    body: Seq<u8>,
    end2: CxView,
    r2: Result<(), FaultView>,
    next2: Memory,
)
    requires
        p.may(Told::Message { peer, env }, cx, end, r, next),
        p.may(Told::Local { peer, ty: "run"@, body }, cx, end2, r2, next2),
    ensures
        env.ty == "started"@ || env.ty == "output"@ || env.ty == "exited"@ || env.ty == "ok"@ ==> r is Ok
            && end == cx.told(peer, "org.acrylius.command/1"@, env.ty, env.body) && next
            == Memory::Command(p@),
        env.ty != "run"@ && env.ty != "list"@ && env.ty != "started"@ && env.ty != "output"@ && env.ty
            != "exited"@ && env.ty != "ok"@ ==> r == Err::<(), FaultView>(
            FaultView::UnknownType(env.ty),
        ) && end == cx,
        r2 is Ok && next2 == Memory::Command(p@) && end2 == cx.sent(
            peer,
            "org.acrylius.command/1"@,
            "run"@,
            body,
            None,
        ),
{
    verbs_differ();
}

/// A machine that runs commands says which, to everybody that connects; one that runs
/// none says nothing.
pub proof fn a_machine_says_what_it_runs(
    p: CommandPlugin,
    cx: CxView,
    peer: Seq<char>,
    end: CxView,
    r: Result<(), FaultView>,
    next: Memory,
)
    requires
        p.may(Told::Connected { peer }, cx, end, r, next),
        holdable(end),
    ensures
        next == Memory::Command(p@),
        p@.catalog.len() == 0 ==> end == cx,
        p@.catalog.len() > 0 ==> {
            let m = end.sends.last();
            &&& end == (CxView { sends: end.sends, ..cx })
            &&& end.sends.len() == cx.sends.len() + 1
            &&& m.peer == peer && m.cap == "org.acrylius.command/1"@ && m.ty == "list"@ && m.re is None
            &&& value_of::<CommandList>(m.body) == Some(ListView { commands: p@.catalog })
        },
{
    if p@.catalog.len() > 0 {
        assert(end.sends[end.sends.len() - 1] == end.sends.last());
        body_reads_back::<CommandList>(ListView { commands: p@.catalog });
    }
}

} // verus!
