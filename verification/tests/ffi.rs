//! The facade a phone drives.
use acrylius::config::CoreConfig;
use acrylius::ffi::bulk::{greeted, temp_name, BulkListener, Progress};
use acrylius::ffi::types::{
    ble_attrs, link_id, tcp_lan_attrs, FfiAction, FfiBulk, FfiDiscoveredPeer, FfiEffect,
    FfiEffectKind, FfiEffectResult, FfiError, FfiEvent, FfiLatency, FfiLinkAttrs, FfiLinkDown,
    FfiOutcome, FfiPeerState, FfiTransportKind, FfiUiEvent,
};
use acrylius::ffi::{
    dead_peer_ms, default_config, dial_timeout_ms, fingerprint_of, generate_identity,
    media_command_budget_ms, media_command_landed, session_lock_budget_ms,
    session_unlock_budget_ms, AcryliusCore,
};
use acrylius::ids::{DeviceId, Fingerprint, PublicKey};
use acrylius::link::{BulkSupport, LinkAttrs, LinkId, TransportId, TransportKind};
use acrylius::link::{DEAD_PEER_MS, DIAL_TIMEOUT_MS};
use acrylius::peer::PeerState;
use acrylius::plugins::media::{MediaCommand, MediaPlayer, MediaPlugin, MediaState};
use acrylius::plugins::ping;
use acrylius::vocab::{Effect, EffectKind, EffectResult, MediaAction};
use acrylius::wire::{Envelope, FrameKind, Hello, Wire};
use sha2::{Digest, Sha256};

fn hash(parts: &[&[u8]]) -> Vec<u8> {
    let mut h = Sha256::new();
    for p in parts {
        h.update(p);
    }
    h.finalize().to_vec()
}

fn hex(b: &[u8]) -> String {
    b.iter().map(|x| format!("{x:02x}")).collect()
}

fn put_texts(e: &mut minicbor::Encoder<Vec<u8>>, list: &[String]) {
    e.array(list.len() as u64).unwrap();
    for t in list {
        e.str(t).unwrap();
    }
}

fn get_texts(d: &mut minicbor::Decoder<'_>) -> Option<Vec<String>> {
    let n = d.array().ok()??;
    (0..n).map(|_| d.str().ok().map(str::to_string)).collect()
}

/// A wire format good enough for two cores in one process.
#[derive(Clone, Copy)]
struct Line;

impl Wire for Line {
    fn device_id(&self, key: &PublicKey) -> DeviceId {
        DeviceId::new(hex(&hash(&[b"id", key])[..16]))
    }

    fn fingerprint(&self, key: &PublicKey) -> Fingerprint {
        Fingerprint::new(hex(&hash(&[b"fp", key])))
    }

    fn parse_device_id(&self, text: &str) -> Result<DeviceId, String> {
        if text.len() == 32 {
            Ok(DeviceId::new(text.to_string()))
        } else {
            Err("wrong length".to_string())
        }
    }

    fn parse_fingerprint(&self, text: &str) -> Option<Fingerprint> {
        if text.len() == 64 { Some(Fingerprint::new(text.to_string())) } else { None }
    }

    fn split(&self, msg: &[u8]) -> Option<(FrameKind, Vec<u8>)> {
        let kind = match msg.first()? {
            1 => FrameKind::PairHandshake,
            2 => FrameKind::SessionHandshake,
            3 => FrameKind::Transport,
            _ => return None,
        };
        Some((kind, msg[1..].to_vec()))
    }

    fn join(&self, kind: FrameKind, body: &[u8]) -> Vec<u8> {
        let mut out = vec![match kind {
            FrameKind::PairHandshake => 1,
            FrameKind::SessionHandshake => 2,
            FrameKind::Transport => 3,
        }];
        out.extend_from_slice(body);
        out
    }

    fn encode_hello(&self, hello: &Hello) -> Vec<u8> {
        let mut e = minicbor::Encoder::new(Vec::new());
        e.u8(hello.v).unwrap();
        e.u64(hello.ts_ms).unwrap();
        e.str(&hello.device_id).unwrap();
        e.str(&hello.name).unwrap();
        e.str(&hello.platform).unwrap();
        put_texts(&mut e, &hello.caps_out);
        put_texts(&mut e, &hello.caps_in);
        e.into_writer()
    }

    fn decode_hello(&self, payload: &[u8]) -> Option<Hello> {
        let mut d = minicbor::Decoder::new(payload);
        Some(Hello {
            v: d.u8().ok()?,
            ts_ms: d.u64().ok()?,
            device_id: d.str().ok()?.to_string(),
            name: d.str().ok()?.to_string(),
            platform: d.str().ok()?.to_string(),
            caps_out: get_texts(&mut d)?,
            caps_in: get_texts(&mut d)?,
        })
    }

    fn check_freshness(&self, hello: &Hello, wall_ms: u64, greatest_seen: u64) -> Result<u64, String> {
        if hello.ts_ms <= greatest_seen {
            return Err("a hello no newer than the last one".to_string());
        }
        if hello.ts_ms.abs_diff(wall_ms) > 300_000 {
            return Err("a hello from another time".to_string());
        }
        Ok(hello.ts_ms)
    }

    fn encode_envelope(&self, env: &Envelope) -> Option<Vec<u8>> {
        let mut e = minicbor::Encoder::new(Vec::new());
        e.u8(env.v).ok()?;
        e.u32(env.id).ok()?;
        match env.re {
            Some(n) => e.u32(n).ok()?,
            None => e.null().ok()?,
        };
        e.str(&env.cap).ok()?;
        e.str(&env.ty).ok()?;
        e.bytes(&env.body).ok()?;
        Some(e.into_writer())
    }

    fn decode_envelope(&self, plaintext: &[u8]) -> Option<Envelope> {
        let mut d = minicbor::Decoder::new(plaintext);
        let v = d.u8().ok()?;
        let id = d.u32().ok()?;
        let re = if d.datatype().ok()? == minicbor::data::Type::Null {
            d.null().ok()?;
            None
        } else {
            Some(d.u32().ok()?)
        };
        Some(Envelope {
            v,
            id,
            re,
            cap: d.str().ok()?.to_string(),
            ty: d.str().ok()?.to_string(),
            body: d.bytes().ok()?.to_vec(),
        })
    }

    fn sas(&self, handshake_hash: &[u8]) -> String {
        let h = hash(&[b"sas", handshake_hash]);
        let n = u32::from_be_bytes([h[0], h[1], h[2], h[3]]) % 1_000_000;
        format!("{n:06}")
    }

    fn session_psk(&self, handshake_hash: &[u8]) -> Vec<u8> {
        hash(&[b"psk", handshake_hash])
    }

    fn bulk_key(&self, handshake_hash: &[u8], offerer: &str, number: u64) -> Vec<u8> {
        hash(&[b"bulk", handshake_hash, offerer.as_bytes(), &number.to_be_bytes()])
    }
}

const WALL: u64 = 1_700_000_000_000;

fn phone(name: &str, key: Vec<u8>, peers: Vec<Vec<u8>>) -> AcryliusCore<Line> {
    AcryliusCore::new(
        Line,
        default_config(name.to_string(), "ios".to_string()),
        key,
        peers,
        vec![FfiEffectKind::Session],
    )
    .unwrap_or_else(|e| panic!("{e:?}"))
}

/// Two phones with a wire between them.
struct Pair {
    cores: [AcryliusCore<Line>; 2],
    now: u64,
    /// The link each side has, once it is up.
    link: u64,
    /// What each side was told to keep.
    kept: [Vec<Vec<u8>>; 2],
    ui: [Vec<FfiUiEvent>; 2],
}

impl Pair {
    fn new() -> Self {
        let keys = [generate_identity().unwrap(), generate_identity().unwrap()];
        let [a, b] = keys;
        Self {
            cores: [phone("a", a, vec![]), phone("b", b, vec![])],
            now: 1_000,
            link: 0,
            kept: [vec![], vec![]],
            ui: [vec![], vec![]],
        }
    }

    /// Hands an event to one side, and everything that comes of it to both.
    fn tell(&mut self, side: usize, event: FfiEvent) {
        let mut queue = vec![(side, event)];
        while !queue.is_empty() {
            let (side, event) = queue.remove(0);
            self.now += 1;
            let out: FfiOutcome = self.cores[side]
                .handle(self.now, WALL + self.now, event)
                .unwrap_or_else(|e| panic!("{e:?}"));
            for a in out.actions {
                match a {
                    FfiAction::Dial { dial, .. } => {
                        self.link += 1;
                        let link = link_id(1, self.link);
                        let attrs = tcp_lan_attrs(1);
                        let up = |dial| FfiEvent::LinkUp { link, attrs: attrs.clone(), dial };
                        queue.push((1 - side, up(None)));
                        queue.push((side, up(Some(dial))));
                    }
                    FfiAction::LinkSend { link, msg } => {
                        queue.push((1 - side, FfiEvent::LinkRecv { link, msg }));
                    }
                    FfiAction::Persist { value: Some(v), .. } => self.kept[side].push(v),
                    FfiAction::Ui { event } => self.ui[side].push(event),
                    _ => {}
                }
            }
        }
    }

    fn paired() -> Self {
        let mut p = Self::new();
        p.tell(0, FfiEvent::RequestPairing { transport: 1, addr: "b".to_string() });
        assert_eq!(p.cores[0].pending_sas(), p.cores[1].pending_sas());
        assert!(p.cores[0].pending_sas().is_some());
        p.tell(0, FfiEvent::ConfirmPairing { accept: true });
        p.tell(1, FfiEvent::ConfirmPairing { accept: true });
        p
    }
}

#[test]
fn two_phones_pair_and_see_each_other() {
    let p = Pair::paired();
    for (me, other) in [(0, 1), (1, 0)] {
        let peers = p.cores[me].peers();
        assert_eq!(peers.len(), 1);
        assert_eq!(peers[0].device_id, p.cores[other].device_id());
        assert_eq!(peers[0].fingerprint, p.cores[other].fingerprint());
        assert_eq!(peers[0].platform, "ios");
        assert!(!p.kept[me].is_empty(), "the pairing is written down");
        assert!(p.cores[me].pending_sas().is_none());
    }
}

#[test]
fn a_paired_peer_is_reached_over_the_address_given() {
    let mut p = Pair::paired();
    let id = p.cores[1].device_id();
    let link = link_id(1, p.link);
    for side in [0, 1] {
        p.tell(side, FfiEvent::LinkDown { link, reason: FfiLinkDown::Closed });
    }
    assert_eq!(p.cores[0].peers()[0].state, FfiPeerState::Unreachable);
    assert!(p.cores[0].peers()[0].transport.is_none());
    p.tell(
        0,
        FfiEvent::SetPeerAddress { peer: id.clone(), transport: 1, addr: "b".to_string() },
    );
    p.tell(0, FfiEvent::Connect { peer: id.clone() });
    let seen = p.cores[0].peers();
    assert_eq!(seen[0].state, FfiPeerState::Reachable);
    assert!(matches!(seen[0].transport, Some(FfiTransportKind::TcpLan)));

    p.ui[1].clear();
    p.tell(
        0,
        FfiEvent::PluginCommand {
            peer: id,
            cap: ping::CAP.to_string(),
            ty: "ping".to_string(),
            body: b"hi".to_vec(),
        },
    );
    assert!(
        p.ui[0]
            .iter()
            .any(|e| matches!(e, FfiUiEvent::Plugin { cap, .. } if cap == ping::CAP)),
        "the answer comes back: {:?}",
        p.ui[0]
    );
}

#[test]
fn a_saved_peer_is_there_after_a_restart() {
    let p = Pair::paired();
    let again = phone("a", vec![7; 32], p.kept[0].clone());
    assert_eq!(again.restored_peers(), 1);
    assert_eq!(again.peers()[0].device_id, p.cores[1].device_id());
    let spoilt = phone("a", vec![7; 32], vec![vec![0xff], p.kept[0][0].clone()]);
    assert_eq!(spoilt.restored_peers(), 1, "one bad blob costs only itself");
}

#[test]
fn a_key_of_the_wrong_length_is_no_identity() {
    let made = AcryliusCore::new(
        Line,
        default_config("a".to_string(), "ios".to_string()),
        vec![1; 31],
        vec![],
        vec![],
    );
    let Err(e) = made else { panic!("31 bytes are no key") };
    assert_eq!(e, FfiError::BadInput { detail: "an identity key is 32 bytes".to_string() });
    assert_eq!(e.message(), "an identity key is 32 bytes");
    assert!(fingerprint_of(&Line, vec![]).is_err());
}

#[test]
fn a_fingerprint_is_known_before_there_is_a_core() {
    let key = generate_identity().unwrap();
    assert_eq!(key.len(), 32);
    assert_ne!(key, generate_identity().unwrap());
    let fp = fingerprint_of(&Line, key.clone()).unwrap();
    assert_eq!(phone("a", key, vec![]).fingerprint(), fp);
}

#[test]
fn a_text_that_is_no_device_id_is_refused() {
    let mut c = phone("a", vec![7; 32], vec![]);
    let e = c.handle(1, WALL, FfiEvent::Connect { peer: "short".to_string() }).unwrap_err();
    assert_eq!(
        e,
        FfiError::BadInput { detail: "device id \"short\": wrong length".to_string() }
    );
}

#[test]
fn an_unreadable_fingerprint_leaves_a_discovery_without_one() {
    let mut c = phone("a", vec![7; 32], vec![]);
    for fingerprint in [None, Some("??".to_string())] {
        let peer = FfiDiscoveredPeer {
            fingerprint,
            name: "b".to_string(),
            addr: "x".to_string(),
            pairing: true,
        };
        assert!(c.handle(1, WALL, FfiEvent::Discovered { transport: 1, peer }).is_ok());
    }
}

#[test]
fn a_phone_serves_what_it_has_effects_for() {
    let c = phone("a", vec![7; 32], vec![]);
    let served = c.caps_served();
    let inwards = c.caps_in();
    let outwards = c.caps_out();
    assert!(served.contains(&ping::CAP.to_string()));
    assert!(outwards.contains(&ping::CAP.to_string()));
    assert!(inwards.len() >= served.len());
    assert!(served.iter().all(|cap| inwards.contains(cap)));
    assert!(!served.contains(&acrylius::plugins::media::CAP.to_string()));
    assert!(inwards.contains(&acrylius::plugins::media::CAP.to_string()));
}

#[test]
fn hosts_hear_of_the_cores_own_budgets() {
    assert_eq!(dead_peer_ms(), DEAD_PEER_MS);
    assert_eq!(dial_timeout_ms(), DIAL_TIMEOUT_MS);
    // Host must give up before the core's backstop; only the host can hang up.
    assert!(dial_timeout_ms() < CoreConfig::default().dial_timeout_ms);
    assert!(session_lock_budget_ms() > 0);
    assert!(session_unlock_budget_ms() > 0);
    assert!(media_command_budget_ms() > 0);
}

#[test]
fn link_attributes_survive_the_boundary() {
    assert_eq!(LinkAttrs::from(ble_attrs(2)), LinkAttrs::ble(TransportId(2)));
    assert_eq!(LinkAttrs::from(tcp_lan_attrs(1)), LinkAttrs::tcp_lan(TransportId(1)));
    let odd = LinkAttrs::from(FfiLinkAttrs {
        transport: 9,
        kind: FfiTransportKind::Custom { name: "usb".to_string() },
        max_message: 5,
        reliable: false,
        ordered: true,
        latency: FfiLatency::Wan,
        bulk: FfiBulk::Unsupported,
    });
    assert_eq!(odd.kind, TransportKind::Custom("usb"));
    assert_eq!(odd.bulk, BulkSupport::Unsupported);
    assert!(!odd.reliable && odd.ordered && odd.max_message == 5);
    assert_eq!(link_id(3, 8), LinkId::new(TransportId(3), 8).0);
    assert!(matches!(
        FfiTransportKind::from(TransportKind::Custom("usb")),
        FfiTransportKind::Custom { name } if name == "usb"
    ));
    assert_eq!(FfiPeerState::from(PeerState::Connecting), FfiPeerState::Connecting);
}

#[test]
fn effects_and_answers_survive_the_boundary() {
    assert_eq!(
        EffectResult::from(FfiEffectResult::Failed { detail: "x".to_string() }),
        EffectResult::Failed("x".to_string())
    );
    assert_eq!(
        EffectResult::from(FfiEffectResult::Done { data: vec![1] }),
        EffectResult::Done(vec![1])
    );
    assert_eq!(EffectKind::from(FfiEffectKind::Touchpad), EffectKind::Touchpad);
    assert!(matches!(
        FfiEffect::from(Effect::RunCommand { id: "a".to_string() }),
        FfiEffect::RunCommand { id } if id == "a"
    ));
    assert!(matches!(
        FfiEffect::from(Effect::MediaControl {
            player: "vlc".to_string(),
            action: MediaAction::SetVolume { percent: 5 },
        }),
        FfiEffect::MediaControl { player, value: 5, .. } if player == "vlc"
    ));
}

#[test]
fn an_action_is_told_in_the_verb_that_asks_for_it() {
    for action in [
        MediaAction::Play,
        MediaAction::Pause,
        MediaAction::PlayPause,
        MediaAction::Next,
        MediaAction::Previous,
        MediaAction::Stop,
        MediaAction::Seek { offset_ms: -5_000 },
        MediaAction::SetPosition { ms: 61_000 },
        MediaAction::SetVolume { percent: 100 },
    ] {
        let told = FfiEffect::from(Effect::MediaControl { player: String::new(), action });
        let FfiEffect::MediaControl { verb, value, .. } = told else {
            panic!("a media command is told as one");
        };
        let asked = MediaCommand { player: String::new(), value };
        assert_eq!(MediaPlugin::action_for(&verb, &asked).unwrap(), action);
    }
    // A position no command can ask for is as far as one can.
    let told = FfiEffect::from(Effect::MediaControl {
        player: String::new(),
        action: MediaAction::SetPosition { ms: u64::MAX },
    });
    assert!(matches!(told, FfiEffect::MediaControl { value: i64::MAX, .. }));
}

fn media(status: &str) -> MediaState {
    MediaState {
        players: vec![MediaPlayer {
            id: "vlc".to_string(),
            name: "VLC".to_string(),
            status: status.to_string(),
            title: String::new(),
            artist: String::new(),
            album: String::new(),
            length_ms: 0,
            position_ms: 0,
            volume_percent: None,
            can_go_next: false,
            can_go_previous: false,
            can_seek: false,
            can_control: true,
        }],
        active: "vlc".to_string(),
        system_volume: None,
    }
}

#[test]
fn a_reading_shows_whether_a_command_landed() {
    let ask = |verb: &str, now: &str| {
        media_command_landed(verb.to_string(), "vlc".to_string(), 0, &media("playing"), &media(now))
    };
    assert_eq!(ask("pause", "paused"), Some(true));
    assert_eq!(ask("pause", "playing"), Some(false));
    assert_eq!(ask("seek", "playing"), None);
    assert_eq!(ask("juggle", "playing"), None);
}

#[test]
fn a_listener_takes_one_transfer() {
    let mut l = BulkListener::bind("10.0.0.2", 4711);
    assert_eq!(l.endpoint(), "10.0.0.2:4711");
    assert_eq!(
        l.receive().unwrap_err().message(),
        "nothing has connected to this listener"
    );
    assert!(l.accept().is_ok());
    assert_eq!(
        l.accept().unwrap_err().message(),
        "this listener has already taken its transfer"
    );
    l.let_in();
    assert!(l.receive().is_ok());
    assert!(l.receive().is_err());
}

#[test]
fn a_connection_says_which_transfer_it_is_for() {
    assert_eq!(greeted(7, 7), Ok(()));
    assert_eq!(
        greeted(8, 7),
        Err("that connection is for transfer 8, not 7".to_string())
    );
}

#[test]
fn a_transfer_is_as_long_as_was_offered() {
    let mut p = Progress::new();
    assert_eq!(p.arrived(10, 15), Ok(()));
    assert_eq!(p.finished(15), Err("10 bytes of 15 arrived".to_string()));
    assert_eq!(p.arrived(6, 15), Err("more arrived than was offered".to_string()));
    assert_eq!(p.arrived(5, 15), Ok(()));
    assert_eq!((p.bytes, p.seq), (15, 2));
    assert_eq!(p.finished(15), Ok(15));
    assert_eq!(Progress::frame(16, 16), Ok(()));
    assert_eq!(Progress::frame(17, 16), Err("frame of 17 bytes is too big".to_string()));
    let mut out = Progress::new();
    out.sent(3);
    assert_eq!((out.bytes, out.seq), (3, 1));
    assert_eq!(temp_name("photo.jpg"), "photo.jpg.part");
}
