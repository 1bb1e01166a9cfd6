//! `org.acrylius.wol/1`: wake a sleeping computer.
//!
//! Almost all of the interesting behaviour involves no messages at all. A
//! sleeping computer is not running this daemon, so nothing on it can receive
//! "please wake up", so the phone sends the magic packet. What travels over the
//! session, while the computer is still awake, is the information the phone will
//! need later.
//!
//! `relay` exists only to ask a computer that is awake to wake a different one.
//! It is allowlisted, because otherwise it would be an open UDP relay.
use crate::body::{
    body_reads_back, field_list, from_bytes, list_field, list_item, list_reads, put_list, to_bytes, value_of, views,
    Body,
};
use crate::cbor::{
    array_reads, close, end_of, every_end_is_later, field_text, field_u16, got, head, open, open_at,
    open_moves_on, put_array, put_text, put_uint, rest, stands_split, text_field, text_item,
    text_reads, uint_field, uint_reads,
};
use crate::ids::DeviceId;
use crate::plugin::{
    after, answer, both_ways, holdable, Cx, CxView, FaultView, Memory, Plugin, PluginError, PluginManifest, Told,
};
use crate::plugins::roster::{Asker, AskerView};
use crate::table::Table;
use crate::text::{chars_of, code_point, copy_bytes, same, texts};
use crate::vocab::{
    Effect, EffectKind, EffectResult, EffectToken, EffectView, ResultView, TransferId,
};
use crate::wire::{Envelope, EnvelopeView};
use vstd::prelude::*;

verus! {

pub const CAP: &'static str = "org.acrylius.wol/1";

/// What a phone needs in order to wake this machine later.
#[derive(Clone, PartialEq, Eq, Debug)]
pub struct WolConfig {
    pub macs: Vec<String>,
    pub broadcast: String,
    pub port: u16,
    /// The address to try first.
    ///
    /// A network interface matches a magic packet by its payload, not its
    /// destination address, so a unicast datagram wakes the machine just as
    /// well as a broadcast. That matters because iOS gates UDP broadcast behind
    /// an entitlement a free developer account cannot get.
    pub last_ipv4: String,
}

/// The model of a [`WolConfig`].
pub struct ConfigView {
    pub macs: Seq<Seq<char>>,
    pub broadcast: Seq<char>,
    pub port: u16,
    pub last_ipv4: Seq<char>,
}

impl View for WolConfig {
    type V = ConfigView;

    open spec fn view(&self) -> ConfigView {
        ConfigView {
            macs: views(self.macs@),
            broadcast: self.broadcast@,
            port: self.port,
            last_ipv4: self.last_ipv4@,
        }
    }
}

impl Default for WolConfig {
    fn default() -> (c: WolConfig)
        ensures
            c@ == (ConfigView {
                macs: Seq::empty(),
                broadcast: Seq::empty(),
                port: 0,
                last_ipv4: Seq::empty(),
            }),
    {
        let c = WolConfig {
            macs: Vec::new(),
            broadcast: String::new(),
            port: 0,
            last_ipv4: String::new(),
        };
        assert(c@.macs =~= Seq::<Seq<char>>::empty());
        assert(c@.broadcast =~= Seq::<char>::empty());
        assert(c@.last_ipv4 =~= Seq::<char>::empty());
        c
    }
}

impl Body for WolConfig {
    open spec fn item(v: ConfigView) -> Seq<u8> {
        head(4, 4) + list_item::<String>(v.macs) + text_item(v.broadcast)
            + head(0, v.port as int) + text_item(v.last_ipv4)
    }

    open spec fn item_at(b: Seq<u8>, at: int) -> Option<(ConfigView, int)> {
        let macs = list_field::<String>(b, open_at(b, at));
        let broadcast = text_field(b, rest(macs));
        let port = uint_field(b, rest(broadcast), u16::MAX as int);
        let last_ipv4 = text_field(b, rest(port));
        match end_of(b, rest(last_ipv4)) {
            Some(end) => Some(
                (
                    ConfigView {
                        macs: got(macs),
                        broadcast: got(broadcast),
                        port: got(port) as u16,
                        last_ipv4: got(last_ipv4),
                    },
                    end,
                ),
            ),
            None => None,
        }
    }

    proof fn item_reads(w: Seq<u8>, at: int, v: ConfigView) {
        let p0 = head(4, 4);
        let p1 = p0 + list_item::<String>(v.macs);
        let p2 = p1 + text_item(v.broadcast);
        let p3 = p2 + head(0, v.port as int);
        stands_split(w, at, p3, text_item(v.last_ipv4));
        stands_split(w, at, p2, head(0, v.port as int));
        stands_split(w, at, p1, text_item(v.broadcast));
        stands_split(w, at, p0, list_item::<String>(v.macs));
        array_reads(w, at, 4);
        list_reads::<String>(w, at + p0.len(), v.macs);
        text_reads(w, at + p1.len(), v.broadcast);
        uint_reads(w, at + p2.len(), v.port as int, u16::MAX as int);
        text_reads(w, at + p3.len(), v.last_ipv4);
    }

    proof fn item_moves_on(b: Seq<u8>, at: int) {
        open_moves_on(b, at);
        every_end_is_later(b);
    }

    fn put(&self, out: &mut Vec<u8>) {
        put_array(out, 4);
        put_list::<String>(out, &self.macs);
        put_text(out, self.broadcast.as_str());
        put_uint(out, self.port as u64);
        put_text(out, self.last_ipv4.as_str());
        assert(out@ =~= old(out)@ + Self::item(self@));
    }

    fn get(b: &[u8], at: usize) -> (r: Option<(WolConfig, usize)>) {
        let c = open(b, at)?;
        let (macs, c) = field_list::<String>(b, c)?;
        let (broadcast, c) = field_text(b, c)?;
        let (port, c) = field_u16(b, c)?;
        let (last_ipv4, c) = field_text(b, c)?;
        let end: usize = close(b, c)?;
        Some((WolConfig { macs, broadcast, port, last_ipv4 }, end))
    }
}

#[derive(Clone, PartialEq, Eq, Debug)]
pub struct RelayRequest {
    pub mac: String,
}

/// The model of a [`RelayRequest`].
pub struct RelayView {
    pub mac: Seq<char>,
}

impl View for RelayRequest {
    type V = RelayView;

    open spec fn view(&self) -> RelayView {
        RelayView { mac: self.mac@ }
    }
}

impl Body for RelayRequest {
    open spec fn item(v: RelayView) -> Seq<u8> {
        head(4, 1) + text_item(v.mac)
    }

    open spec fn item_at(b: Seq<u8>, at: int) -> Option<(RelayView, int)> {
        let mac = text_field(b, open_at(b, at));
        match end_of(b, rest(mac)) {
            Some(end) => Some((RelayView { mac: got(mac) }, end)),
            None => None,
        }
    }

    proof fn item_reads(w: Seq<u8>, at: int, v: RelayView) {
        let p0 = head(4, 1);
        stands_split(w, at, p0, text_item(v.mac));
        array_reads(w, at, 1);
        text_reads(w, at + p0.len(), v.mac);
    }

    proof fn item_moves_on(b: Seq<u8>, at: int) {
        open_moves_on(b, at);
        every_end_is_later(b);
    }

    fn put(&self, out: &mut Vec<u8>) {
        put_array(out, 1);
        put_text(out, self.mac.as_str());
        assert(out@ =~= old(out)@ + Self::item(self@));
    }

    fn get(b: &[u8], at: usize) -> (r: Option<(RelayRequest, usize)>) {
        let c = open(b, at)?;
        let (mac, c) = field_text(b, c)?;
        let end: usize = close(b, c)?;
        Some((RelayRequest { mac }, end))
    }
}

pub struct WolPlugin {
    config: WolConfig,
    /// MACs this machine will relay a wake to. Anything else is refused.
    allowlist: Vec<String>,
    pending: Table<u64, Asker>,
}

/// The model of a [`WolPlugin`].
pub struct WakerView {
    pub config: ConfigView,
    pub allowlist: Seq<Seq<char>>,
    pub pending: Map<u64, AskerView>,
}

impl View for WolPlugin {
    type V = WakerView;

    closed spec fn view(&self) -> WakerView {
        WakerView {
            config: self.config@,
            allowlist: texts(self.allowlist@),
            pending: self.pending@,
        }
    }
}

/// Whether a character is a hexadecimal digit.
pub open spec fn is_hex(c: char) -> bool {
    '0' <= c <= '9' || 'a' <= c <= 'f' || 'A' <= c <= 'F'
}

/// A hexadecimal digit in lower case.
pub open spec fn lower(c: char) -> char {
    if 'A' <= c <= 'F' {
        (c as int + 32) as char
    } else {
        c
    }
}

/// A MAC as its digits alone, in lower case: how it is punctuated does not
/// matter.
pub open spec fn plain(mac: Seq<char>) -> Seq<char> {
    mac.filter(|c: char| is_hex(c)).map_values(|c: char| lower(c))
}

/// Whether a MAC is on the list, however it is written there.
pub open spec fn allowed(list: Seq<Seq<char>>, mac: Seq<char>) -> bool {
    exists|k: int| 0 <= k < list.len() && plain(#[trigger] list[k]) == plain(mac)
}

pub type Step = (WakerView, CxView, Result<(), FaultView>);

/// A peer asks for another machine to be woken. Without the allowlist the
/// endpoint would spray UDP wherever a peer asks it to.
pub open spec fn relay_asked(
    s: WakerView,
    cx: CxView,
    peer: Seq<char>,
    id: u32,
    body: Seq<u8>,
) -> Step {
    match value_of::<RelayRequest>(body) {
        None => (s, cx, Err(FaultView::BadBody)),
        Some(req) => if plain(req.mac).len() != 12 {
            (s, cx, Err(FaultView::BadBody))
        } else if !allowed(s.allowlist, req.mac) {
            (s, cx, Err(FaultView::NotAllowed))
        } else {
            (
                WakerView {
                    pending: s.pending.insert(after(cx.next_token), AskerView { peer, request: id }),
                    ..s
                },
                cx.asked(
                    EffectView::SendMagicPacket {
                        macs: seq![req.mac],
                        dests: seq![s.config.broadcast],
                        port: s.config.port,
                    },
                ),
                Ok(()),
            )
        },
    }
}

/// A message from a peer.
pub open spec fn message(
    s: WakerView,
    cx: CxView,
    peer: Seq<char>,
    id: u32,
    ty: Seq<char>,
    body: Seq<u8>,
) -> Step {
    if ty == "ok"@ || ty == "err"@ || ty == "config"@ {
        (s, cx.told(peer, CAP@, ty, body), Ok(()))
    } else if ty == "relay"@ {
        relay_asked(s, cx, peer, id, body)
    } else {
        (s, cx, Err(FaultView::UnknownType(ty)))
    }
}

/// The packet is out, or could not be sent.
pub open spec fn effect_done(s: WakerView, cx: CxView, token: u64, result: ResultView) -> (
    WakerView,
    CxView,
) {
    if !s.pending.dom().contains(token) {
        (s, cx)
    } else {
        let p = s.pending[token];
        (
            WakerView { pending: s.pending.remove(token), ..s },
            match result {
                ResultView::Done(_) => cx.sent(p.peer, CAP@, "ok"@, Seq::empty(), Some(p.request)),
                ResultView::Failed(detail) => cx.refused(
                    p.peer,
                    CAP@,
                    p.request,
                    "effect_failed"@,
                    detail,
                ),
                ResultView::Unsupported => cx.refused(
                    p.peer,
                    CAP@,
                    p.request,
                    "not_allowed"@,
                    "cannot send packets"@,
                ),
            },
        )
    }
}

/// A hexadecimal digit in lower case; `None` for any other character.
fn hex_digit(c: char) -> (r: Option<char>)
    ensures
        r is Some <==> is_hex(c),
        r matches Some(d) ==> d == lower(c),
{
    let n: u32 = code_point(c);
    if 48 <= n && n <= 57 || 97 <= n && n <= 102 {
        Some(c)
    } else if 65 <= n && n <= 70 {
        let d: u8 = (n + 32) as u8;
        Some(d as char)
    } else {
        None
    }
}

/// A MAC as its digits alone, in lower case.
fn normalize_mac(m: &str) -> (r: String)
    ensures
        r@ == plain(m@),
{
    let all = chars_of(m);
    let mut out = String::new();
    let ghost test = |c: char| is_hex(c);
    let ghost small = |c: char| lower(c);
    proof {
        reveal(Seq::filter);
        assert(all@.take(0) =~= Seq::<char>::empty());
        assert(out@ =~= all@.take(0).filter(test).map_values(small));
    }
    for i in 0..all.len()
        invariant
            all@ == m@,
            test == (|c: char| is_hex(c)),
            small == (|c: char| lower(c)),
            out@ == all@.take(i as int).filter(test).map_values(small),
    {
        let c: char = all[i];
        proof {
            reveal(Seq::filter);
            assert(all@.take(i + 1).drop_last() =~= all@.take(i as int));
            assert(all@.take(i + 1).last() == c);
        }
        match hex_digit(c) {
            Some(d) => {
                out.push(d);
                proof {
                    let before = all@.take(i as int).filter(test);
                    assert(before.push(c).map_values(small) =~= before.map_values(small).push(d));
                }
            },
            None => {},
        }
    }
    assert(all@.take(all@.len() as int) =~= all@);
    out
}

impl WolPlugin {
    pub fn new(config: WolConfig, allowlist: Vec<String>) -> (p: WolPlugin)
        ensures
            p@ == (WakerView { config: config@, allowlist: texts(allowlist@), pending: Map::empty() }),
    {
        WolPlugin { config, allowlist, pending: Table::new() }
    }

    fn relays_to(&self, mac: &str) -> (r: bool)
        ensures
            r == allowed(self@.allowlist, mac@),
    {
        let wanted = normalize_mac(mac);
        for i in 0..self.allowlist.len()
            invariant
                wanted@ == plain(mac@),
                forall|k: int| 0 <= k < i ==> plain(#[trigger] self@.allowlist[k]) != plain(mac@),
        {
            if same(normalize_mac(self.allowlist[i].as_str()).as_str(), wanted.as_str()) {
                assert(plain(self@.allowlist[i as int]) == plain(mac@));
                return true;
            }
        }
        false
    }
}

impl Default for WolPlugin {
    fn default() -> (p: WolPlugin)
        ensures
            p@ == (WakerView {
                config: ConfigView {
                    macs: Seq::empty(),
                    broadcast: Seq::empty(),
                    port: 0,
                    last_ipv4: Seq::empty(),
                },
                allowlist: Seq::empty(),
                pending: Map::empty(),
            }),
    {
        let nothing: Vec<String> = Vec::new();
        assert(texts(nothing@) =~= Seq::<Seq<char>>::empty());
        WolPlugin::new(WolConfig::default(), nothing)
    }
}

impl Plugin for WolPlugin {
    open spec fn memory(&self) -> Memory {
        Memory::Wol(self@)
    }

    open spec fn may(
        &self,
        told: Told,
        cx: CxView,
        after: CxView,
        r: Result<(), FaultView>,
        next: Memory,
    ) -> bool {
        match told {
            Told::Message { peer, env } => {
                let (end, told, said) = message(self@, cx, peer, env.id, env.ty, env.body);
                after == told && r == said && next == Memory::Wol(end)
            },
            Told::Answer { token, result } => {
                let (end, told) = effect_done(self@, cx, token, result);
                after == told && next == Memory::Wol(end)
            },
            Told::Local { peer, ty, body } => {
                &&& next == self.memory()
                &&& (after, r) == if ty == "relay"@ {
                    (cx.sent(peer, CAP@, "relay"@, body, None), Ok(()))
                } else {
                    (cx, Err(FaultView::UnknownType(ty)))
                }
            },
            Told::Connected { peer } => {
                &&& next == self.memory()
                &&& after == if self@.config.macs.len() == 0 {
                    cx
                } else {
                    cx.sent(peer, CAP@, "config"@, WolConfig::item(self@.config), None)
                }
            },
            _ => after == cx && next == self.memory(),
        }
    }

    fn manifest(&self) -> (m: PluginManifest)
        ensures
            m@ == both_ways("org.acrylius.wol"@, CAP@, seq![EffectKind::Wol]),
    {
        let m = PluginManifest::both_ways("org.acrylius.wol", CAP, vec![EffectKind::Wol]);
        assert(m@.requires_effects =~= seq![EffectKind::Wol]);
        m
    }

    fn on_peer_connected(&mut self, cx: &mut Cx, peer: &DeviceId)
        ensures
            final(self)@ == old(self)@,
            final(cx)@ == (if old(self)@.config.macs.len() == 0 {
                old(cx)@
            } else {
                old(cx)@.sent(peer@, CAP@, "config"@, WolConfig::item(old(self)@.config), None)
            }),
    {
        // Send it unprompted: by the time the phone wants it, this machine is
        // asleep and cannot answer a question.
        if self.config.macs.len() == 0 {
            return;
        }
        cx.send(peer, CAP, "config", to_bytes(&self.config));
    }

    fn on_message(&mut self, cx: &mut Cx, peer: &DeviceId, env: &Envelope) -> (r: Result<
        (),
        PluginError,
    >)
        ensures
            (final(self)@, final(cx)@, answer(r)) == message(
                old(self)@,
                old(cx)@,
                peer@,
                env.id,
                env.ty@,
                env.body@,
            ),
    {
        let ty = env.ty.as_str();
        if same(ty, "ok") || same(ty, "err") || same(ty, "config") {
            cx.tell(peer, CAP, ty, copy_bytes(&env.body));
            Ok(())
        } else if same(ty, "relay") {
            let req = match from_bytes::<RelayRequest>(&env.body) {
                Some(r) => r,
                None => return Err(PluginError::BadBody),
            };
            let wanted = normalize_mac(req.mac.as_str());
            if chars_of(wanted.as_str()).len() != 12 {
                return Err(PluginError::BadBody);
            }
            if !self.relays_to(req.mac.as_str()) {
                return Err(PluginError::NotAllowed);
            }
            let macs = vec![req.mac];
            let dests = vec![self.config.broadcast.clone()];
            assert(texts(macs@) =~= seq![macs@[0]@]);
            assert(texts(dests@) =~= seq![dests@[0]@]);
            let token = cx.effect(
                Effect::SendMagicPacket { macs, dests, port: self.config.port },
            );
            self.pending.insert(token.0, Asker { peer: peer.clone(), request: env.id });
            Ok(())
        } else {
            Err(PluginError::UnknownType(env.ty.clone()))
        }
    }

    fn on_local(&mut self, cx: &mut Cx, peer: &DeviceId, ty: &str, body: &[u8]) -> (r: Result<
        (),
        PluginError,
    >)
        ensures
            final(self)@ == old(self)@,
            (final(cx)@, answer(r)) == (if ty@ == "relay"@ {
                (old(cx)@.sent(peer@, CAP@, "relay"@, body@, None), Ok(()))
            } else {
                (old(cx)@, Err(FaultView::UnknownType(ty@)))
            }),
    {
        // Ask a peer that is awake to wake a third machine.
        if same(ty, "relay") {
            cx.send(peer, CAP, "relay", copy_bytes(body));
            Ok(())
        } else {
            Err(PluginError::UnknownType(ty.to_owned()))
        }
    }

    fn on_effect_result(&mut self, cx: &mut Cx, token: EffectToken, result: &EffectResult)
        ensures
            (final(self)@, final(cx)@) == effect_done(old(self)@, old(cx)@, token.0, result@),
    {
        let who = match self.pending.remove(&token.0) {
            Some(w) => w,
            None => {
                proof {
                    let s = old(self)@;
                    assert(s.pending.remove(token.0) =~= s.pending);
                }
                return;
            },
        };
        match result {
            EffectResult::Done(_) => {
                cx.send_reply(&who.peer, CAP, "ok", Vec::new(), who.request);
            },
            EffectResult::Failed(detail) => {
                cx.send_error(&who.peer, CAP, who.request, "effect_failed", detail.as_str());
            },
            EffectResult::Unsupported => {
                cx.send_error(&who.peer, CAP, who.request, "not_allowed", "cannot send packets");
            },
        }
    }

    fn on_peer_disconnected(&mut self, cx: &mut Cx, peer: &DeviceId)
        ensures
            *final(self) == *old(self),
            final(cx)@ == old(cx)@,
    {
    }

    fn on_bulk_listening(&mut self, cx: &mut Cx, transfer: TransferId, endpoint: &str)
        ensures
            *final(self) == *old(self),
            final(cx)@ == old(cx)@,
    {
    }

    fn on_bulk_finished(&mut self, cx: &mut Cx, transfer: TransferId, ok: bool, detail: &str)
        ensures
            *final(self) == *old(self),
            final(cx)@ == old(cx)@,
    {
    }

    fn on_tick(&mut self, cx: &mut Cx)
        ensures
            *final(self) == *old(self),
            final(cx)@ == old(cx)@,
    {
    }
}

/// Whatever a peer sends, the host is asked to wake nothing but a machine on its
/// own list, at its own broadcast address.
pub proof fn only_allowed_machines_are_woken(
    s: WakerView,
    cx: CxView,
    peer: Seq<char>,
    id: u32,
    ty: Seq<char>,
    body: Seq<u8>,
)
    ensures
        ({
            let end = message(s, cx, peer, id, ty, body).1.effects;
            ||| end == cx.effects
            ||| {
                &&& end.len() == cx.effects.len() + 1
                &&& end.drop_last() == cx.effects
                &&& (end.last().1 matches EffectView::SendMagicPacket { macs, dests, port } && {
                    &&& macs.len() == 1
                    &&& plain(macs[0]).len() == 12
                    &&& allowed(s.allowlist, macs[0])
                    &&& dests == seq![s.config.broadcast]
                    &&& port == s.config.port
                })
            }
        }),
{
    let end = message(s, cx, peer, id, ty, body).1.effects;
    assert(end.len() > cx.effects.len() ==> end.drop_last() =~= cx.effects);
}

/// How a MAC is punctuated, and in which case its digits are, does not change
/// whether it is on the list.
pub proof fn punctuation_does_not_matter(list: Seq<Seq<char>>, a: Seq<char>, b: Seq<char>)
    requires
        plain(a) == plain(b),
    ensures
        allowed(list, a) == allowed(list, b),
{
}

proof fn verbs_differ()
    ensures
        "relay"@ != "ok"@,
        "relay"@ != "err"@,
        "relay"@ != "config"@,
{
    reveal_strlit("relay");
    reveal_strlit("ok");
    reveal_strlit("err");
    reveal_strlit("config");
    assert("relay"@.len() == 5 && "ok"@.len() == 2 && "err"@.len() == 3 && "config"@.len() == 6);
}

/// A machine's address is read digit by digit: what comes after another text adds its
/// own digits to it, and a single character is its digit, or nothing.
pub proof fn an_address_is_its_digits(a: Seq<char>, b: Seq<char>, c: char)
    ensures
        plain(a + b) == plain(a) + plain(b),
        plain(seq![c]) == (if ('0' <= c && c <= '9') || ('a' <= c && c <= 'f') {
            seq![c]
        } else if 'A' <= c && c <= 'F' {
            seq![(c as int + 32) as char]
        } else {
            Seq::<char>::empty()
        }),
        plain(Seq::<char>::empty()) == Seq::<char>::empty(),
{
    reveal(Seq::filter);
    Seq::filter_distributes_over_add(a, b, |c: char| is_hex(c));
    assert(plain(a + b) =~= plain(a) + plain(b));
    assert(seq![c] =~= Seq::<char>::empty().push(c));
    Seq::<char>::empty().lemma_filter_push(c, |c: char| is_hex(c));
    assert(plain(Seq::<char>::empty()) =~= Seq::<char>::empty());
    assert(plain(seq![c]) =~= if ('0' <= c && c <= '9') || ('a' <= c && c <= 'f') {
        seq![c]
    } else if 'A' <= c && c <= 'F' {
        seq![(c as int + 32) as char]
    } else {
        Seq::<char>::empty()
    });
}

/// A list allows a machine that one of its entries has the digits of, and no other: an
/// empty one allows nobody, and one more entry allows that machine more.
pub proof fn a_list_allows_its_entries(list: Seq<Seq<char>>, entry: Seq<char>, mac: Seq<char>)
    ensures
        !allowed(Seq::<Seq<char>>::empty(), mac),
        allowed(list.push(entry), mac) <==> allowed(list, mac) || plain(entry) == plain(mac),
{
    let more = list.push(entry);
    if allowed(list, mac) {
        let k = choose|k: int| 0 <= k < list.len() && plain(#[trigger] list[k]) == plain(mac);
        assert(plain(more[k]) == plain(mac));
    }
    if plain(entry) == plain(mac) {
        assert(plain(more[list.len() as int]) == plain(mac));
    }
    if allowed(more, mac) && plain(entry) != plain(mac) {
        let k = choose|k: int| 0 <= k < more.len() && plain(#[trigger] more[k]) == plain(mac);
        assert(plain(list[k]) == plain(mac));
    }
}

/// A machine on the list is woken for the peer that asks, at this machine's own
/// broadcast address; one that is not on it is refused, and nothing is sent. Whoever
/// asked is told what came of it, under its own request.
pub proof fn a_relay_wakes_and_reports(
    s: WakerView,
    cx: CxView,
    peer: Seq<char>,
    id: u32,
    body: Seq<u8>,
    later: CxView,
    result: ResultView,
)
    ensures
        ({
            let (mid, asked, r) = message(s, cx, peer, id, "relay"@, body);
            let good = value_of::<RelayRequest>(body) matches Some(req) && plain(req.mac).len() == 12
                && allowed(s.allowlist, req.mac);
            let (end, told) = effect_done(mid, later, asked.effects.last().0, result);
            &&& r is Ok <==> good
            &&& !good ==> mid == s && asked == cx
            &&& good ==> {
                &&& asked == cx.asked(
                    EffectView::SendMagicPacket {
                        macs: seq![value_of::<RelayRequest>(body)->Some_0.mac],
                        dests: seq![s.config.broadcast],
                        port: s.config.port,
                    },
                )
                &&& mid.allowlist == s.allowlist && mid.config == s.config
                &&& told == match result {
                    ResultView::Done(_) => later.sent(
                        peer,
                        "org.acrylius.wol/1"@,
                        "ok"@,
                        Seq::empty(),
                        Some(id),
                    ),
                    ResultView::Failed(detail) => later.refused(
                        peer,
                        "org.acrylius.wol/1"@,
                        id,
                        "effect_failed"@,
                        detail,
                    ),
                    ResultView::Unsupported => later.refused(
                        peer,
                        "org.acrylius.wol/1"@,
                        id,
                        "not_allowed"@,
                        "cannot send packets"@,
                    ),
                }
                &&& end.pending == s.pending.remove(asked.effects.last().0)
            }
            &&& value_of::<RelayRequest>(body) matches Some(req) ==> (plain(req.mac).len() == 12
                && !allowed(s.allowlist, req.mac) ==> r == Err::<(), FaultView>(FaultView::NotAllowed))
        }),
{
    verbs_differ();
    let (mid, asked, r) = message(s, cx, peer, id, "relay"@, body);
    let token = asked.effects.last().0;
    assert(r is Ok ==> mid.pending.remove(token) =~= s.pending.remove(token));
}

/// A machine that can be woken says how, to everybody that connects: by its own
/// configuration, whole.
pub proof fn a_machine_says_how_to_wake_it(
    p: WolPlugin,
    cx: CxView,
    peer: Seq<char>,
    end: CxView,
    r: Result<(), FaultView>,
    next: Memory,
)
    requires
        p.may(Told::Connected { peer }, cx, end, r, next),
        holdable(end),
    ensures
        next == Memory::Wol(p@),
        p@.config.macs.len() == 0 ==> end == cx,
        p@.config.macs.len() > 0 ==> {
            let m = end.sends.last();
            &&& end == (CxView { sends: end.sends, ..cx })
            &&& end.sends.len() == cx.sends.len() + 1
            &&& m.peer == peer && m.cap == "org.acrylius.wol/1"@ && m.ty == "config"@ && m.re is None
            &&& value_of::<WolConfig>(m.body) == Some(p@.config)
        },
{
    if p@.config.macs.len() > 0 {
        assert(end.sends[end.sends.len() - 1] == end.sends.last());
        body_reads_back::<WolConfig>(p@.config);
    }
}

/// What a peer says of a relay, and how it is to be woken, is shown as it said it; what
/// a person asks a peer to wake goes to that peer.
pub proof fn what_is_said_of_waking_is_passed_on(
    p: WolPlugin,
    cx: CxView,
    peer: Seq<char>,
    env: EnvelopeView,
    end: CxView,
    r: Result<(), FaultView>,
    next: Memory,
    body: Seq<u8>,
    end2: CxView,
    r2: Result<(), FaultView>,
    next2: Memory,
)
    requires
        p.may(Told::Message { peer, env }, cx, end, r, next),
        p.may(Told::Local { peer, ty: "relay"@, body }, cx, end2, r2, next2),
    ensures
        env.ty == "ok"@ || env.ty == "err"@ || env.ty == "config"@ ==> r is Ok && end == cx.told(
            peer,
            "org.acrylius.wol/1"@,
            env.ty,
            env.body,
        ) && next == Memory::Wol(p@),
        env.ty != "ok"@ && env.ty != "err"@ && env.ty != "config"@ && env.ty != "relay"@ ==> r
            == Err::<(), FaultView>(FaultView::UnknownType(env.ty)) && end == cx,
        r2 is Ok && next2 == Memory::Wol(p@) && end2 == cx.sent(
            peer,
            "org.acrylius.wol/1"@,
            "relay"@,
            body,
            None,
        ),
{
    verbs_differ();
}

} // verus!
