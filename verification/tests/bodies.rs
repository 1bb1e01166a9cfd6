//! Bodies, byte for byte.
use acrylius::body::{from_bytes, to_bytes};
use acrylius::ids::{DeviceId, Fingerprint};
use acrylius::peer::PeerRecord;
use acrylius::plugins::clipboard::ClipboardSet;
use acrylius::plugins::command::{CommandEntry, CommandList, Exited};
use acrylius::plugins::media::{MediaCommand, MediaPlayer, MediaState};
use acrylius::plugins::session::SessionState;
use acrylius::wire::{negotiate, Envelope, ErrorBody, ErrorCode, WIRE_VERSION};

fn record() -> PeerRecord {
    PeerRecord {
        device_id: "id".to_string(),
        public_key: vec![1; 32],
        name: "Laptop".to_string(),
        platform: "linux".to_string(),
        session_psk: vec![2; 32],
        greatest_seen: 1_700_000_000_123,
        caps_out: vec!["a".to_string(), "b".to_string()],
        caps_in: vec![],
    }
}

#[test]
fn an_item_is_written_in_its_shortest_form() {
    let b = to_bytes(&Exited { run_id: 500, code: -1, truncated: false });
    assert_eq!(b, vec![0x83, 0x19, 0x01, 0xf4, 0x20, 0xf4]);
    let mut e = minicbor::Encoder::new(Vec::new());
    e.array(3).unwrap().u32(500).unwrap().i32(-1).unwrap().bool(false).unwrap();
    assert_eq!(b, e.into_writer());
}

#[test]
fn numbers_of_every_width_read_back() {
    for run_id in [0, 23, 24, 255, 256, 65_535, 65_536, u32::MAX] {
        for code in [0, -1, -24, -25, -256, i32::MIN, i32::MAX] {
            let v = Exited { run_id, code, truncated: true };
            assert_eq!(from_bytes::<Exited>(&to_bytes(&v)), Some(v));
        }
    }
}

#[test]
fn a_number_too_wide_for_its_field_is_refused() {
    let mut e = minicbor::Encoder::new(Vec::new());
    e.array(3).unwrap().u64(1 << 32).unwrap().i32(0).unwrap().bool(true).unwrap();
    assert!(from_bytes::<Exited>(&e.into_writer()).is_none());
}

#[test]
fn a_body_from_a_newer_build_still_reads() {
    // Fields this build does not know stand at the end, and are stepped over.
    let mut e = minicbor::Encoder::new(Vec::new());
    e.array(4).unwrap().u32(7).unwrap().i32(0).unwrap().bool(true).unwrap();
    e.array(2).unwrap().str("new").unwrap().bytes(b"x").unwrap();
    assert_eq!(
        from_bytes::<Exited>(&e.into_writer()),
        Some(Exited { run_id: 7, code: 0, truncated: true })
    );
}

#[test]
fn a_body_cut_short_is_refused() {
    let whole = to_bytes(&SessionState {
        locked: true,
        session_id: "2".to_string(),
        kind: "wayland".to_string(),
        active: false,
    });
    assert!(from_bytes::<SessionState>(&whole).is_some());
    for n in 0..whole.len() {
        assert!(from_bytes::<SessionState>(&whole[..n]).is_none(), "{n} bytes");
    }
}

#[test]
fn an_array_of_unknown_length_reads_too() {
    let mut e = minicbor::Encoder::new(Vec::new());
    e.begin_array().unwrap();
    e.u32(7).unwrap().i32(0).unwrap().bool(true).unwrap();
    e.end().unwrap();
    assert_eq!(
        from_bytes::<Exited>(&e.into_writer()),
        Some(Exited { run_id: 7, code: 0, truncated: true })
    );
}

#[test]
fn lists_and_bytes_read_back() {
    let list = CommandList {
        commands: (0..30)
            .map(|i| CommandEntry {
                id: format!("{i}"),
                name: "ж".repeat(i),
                needs_confirm: i % 2 == 0,
            })
            .collect(),
    };
    assert_eq!(from_bytes::<CommandList>(&to_bytes(&list)), Some(list));
    let clip = ClipboardSet {
        mime: "text/plain".to_string(),
        data: vec![9; 70_000],
        hash: vec![0; 32],
    };
    assert_eq!(from_bytes::<ClipboardSet>(&to_bytes(&clip)), Some(clip));
}

#[test]
fn what_may_be_missing_is_null() {
    let state = |v: Option<u8>| MediaState {
        players: vec![MediaPlayer {
            id: "vlc".to_string(),
            name: "VLC".to_string(),
            status: "playing".to_string(),
            title: "t".to_string(),
            artist: "a".to_string(),
            album: "b".to_string(),
            length_ms: 1,
            position_ms: u64::MAX,
            volume_percent: v,
            can_go_next: true,
            can_go_previous: false,
            can_seek: true,
            can_control: false,
        }],
        active: "vlc".to_string(),
        system_volume: v,
    };
    for v in [None, Some(0), Some(100)] {
        assert_eq!(from_bytes::<MediaState>(&to_bytes(&state(v))), Some(state(v)));
    }
    let seek = MediaCommand { player: String::new(), value: i64::MIN };
    assert_eq!(from_bytes::<MediaCommand>(&to_bytes(&seek)), Some(seek));
}

#[test]
fn text_has_to_be_text() {
    let mut e = minicbor::Encoder::new(Vec::new());
    e.array(2).unwrap();
    let mut b = e.into_writer();
    b.extend_from_slice(&[0x61, 0xff, 0x61, b'x']);
    assert!(ErrorBody::decode(&b).is_none());
}

#[test]
fn a_peer_record_reads_back() {
    let r = record();
    assert_eq!(PeerRecord::decode(&r.encode()), Some(record()));
    assert!(PeerRecord::decode(b"rubbish").is_none());
    assert_eq!(r.public_key_array(), Some([1; 32]));
    assert_eq!(r.session_psk_array(), Some([2; 32]));
}

#[test]
fn a_record_with_a_bad_key_has_no_key() {
    let mut r = record();
    r.public_key = vec![1; 31];
    r.session_psk = vec![];
    assert_eq!(r.public_key_array(), None);
    assert_eq!(r.session_psk_array(), None);
}

#[test]
fn a_refusal_is_a_code_and_a_message() {
    let b = ErrorBody::encode(ErrorCode::NotAllowed.as_str(), "no");
    let back = ErrorBody::decode(&b).unwrap();
    assert_eq!((back.code.as_str(), back.message.as_str()), (ErrorCode::NotAllowed.as_str(), "no"));
}

#[test]
fn only_what_both_have_is_negotiated() {
    let t = |list: &[&str]| list.iter().map(|s| s.to_string()).collect::<Vec<_>>();
    assert_eq!(negotiate(&t(&["a", "b", "c"]), &t(&["c", "a", "x"])), t(&["a", "c"]));
    assert_eq!(negotiate(&t(&["a"]), &t(&[])), t(&[]));
}

#[test]
fn a_message_starts_a_conversation() {
    let e = Envelope::new(3, "cap", "ty", b"body");
    assert_eq!((e.v, e.id, e.re), (WIRE_VERSION, 3, None));
    assert_eq!((e.cap.as_str(), e.ty.as_str(), e.body.as_slice()), ("cap", "ty", &b"body"[..]));
}

#[test]
fn ids_are_their_text() {
    let a = DeviceId::new("a".to_string());
    assert_eq!((a.as_str(), a.text()), ("a", "a".to_string()));
    assert!(a.is(&DeviceId::new("a".to_string())) && !a.is(&DeviceId::new("b".to_string())));
    let f = Fingerprint::new("f".to_string());
    assert!(f.is(&Fingerprint::new("f".to_string())) && !f.is(&Fingerprint::new("g".to_string())));
}
