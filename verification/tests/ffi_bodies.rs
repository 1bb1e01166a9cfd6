//! Bodies across the foreign boundary.
use acrylius::ffi::bodies::{
    cap_clipboard, cap_command, cap_ping, cap_session, cap_wol, decode_clipboard,
    decode_command_list, decode_error, decode_exited, decode_session_outcome,
    decode_session_state, decode_wol_config, encode_clipboard, encode_command_list,
    encode_run_request, encode_session_state, encode_wol_config, magic_packet, FfiCommand,
    FfiSessionState, FfiWolConfig,
};
use acrylius::body::{from_bytes, to_bytes};
use acrylius::plugins::clipboard::ClipboardSet;
use acrylius::plugins::command::{CommandEntry, CommandList, Exited, RunRequest};
use acrylius::plugins::session::SessionOutcome;
use acrylius::wire::ErrorBody;

#[test]
fn a_magic_packet_is_the_shape_the_hardware_looks_for() {
    let p = magic_packet("00:11:22:33:44:55".to_string()).unwrap();
    assert_eq!(p.len(), 102);
    assert_eq!(&p[..6], &[0xFF; 6]);
    assert_eq!(&p[6..12], &[0x00, 0x11, 0x22, 0x33, 0x44, 0x55]);
    assert_eq!(&p[96..102], &[0x00, 0x11, 0x22, 0x33, 0x44, 0x55]);
}

#[test]
fn bodies_a_mac_can_be_written_three_ways() {
    let a = magic_packet("aa:bb:cc:dd:ee:ff".to_string()).unwrap();
    assert_eq!(magic_packet("AA-BB-CC-DD-EE-FF".to_string()).unwrap(), a);
    assert_eq!(magic_packet("aabbccddeeff".to_string()).unwrap(), a);
}

#[test]
fn bodies_anything_that_is_not_a_mac_is_refused() {
    assert!(magic_packet("nope".to_string()).is_err());
    assert!(magic_packet(String::new()).is_err());
}

#[test]
fn bodies_round_trip_through_the_decoders() {
    let list = to_bytes(&CommandList {
        commands: vec![CommandEntry {
            id: "screenshot".to_string(),
            name: "Screenshot".to_string(),
            needs_confirm: true,
        }],
    });
    let decoded = decode_command_list(list).unwrap();
    assert_eq!(decoded.len(), 1);
    assert_eq!(decoded[0].id, "screenshot");
    assert!(decoded[0].needs_confirm);
}

#[test]
fn every_decoder_has_a_matching_encoder() {
    let state = FfiSessionState {
        locked: true,
        session_id: "2".to_string(),
        kind: "wayland".to_string(),
        active: true,
    };
    let back = decode_session_state(encode_session_state(state.clone())).unwrap();
    assert_eq!(
        (back.locked, back.session_id, back.kind),
        (true, "2".to_string(), "wayland".to_string())
    );

    let clip = decode_clipboard(encode_clipboard("hello".to_string())).unwrap();
    assert_eq!(clip.text, "hello");

    let wake = FfiWolConfig {
        macs: vec!["00:11:22:33:44:55".to_string()],
        broadcast: "192.168.1.255".to_string(),
        port: 9,
        last_ipv4: "192.168.1.50".to_string(),
    };
    let back = decode_wol_config(encode_wol_config(wake)).unwrap();
    assert_eq!(back.last_ipv4, "192.168.1.50");
}

#[test]
fn a_body_of_the_wrong_shape_is_refused_rather_than_guessed_at() {
    assert!(decode_session_state(b"not cbor".to_vec()).is_err());
    assert!(decode_command_list(vec![0xff, 0xff]).is_err());
}

#[test]
fn what_a_peer_answers_is_read() {
    let o = decode_session_outcome(to_bytes(&SessionOutcome {
        was_locked: false,
        locked: true,
        session_id: "3".to_string(),
    }))
    .unwrap();
    assert!(!o.was_locked && o.locked);
    assert_eq!(o.session_id, "3");

    let e = decode_exited(to_bytes(&Exited { run_id: 9, code: -1, truncated: true })).unwrap();
    assert_eq!((e.run_id, e.code, e.truncated), (9, -1, true));

    let list = vec![FfiCommand {
        id: "a".to_string(),
        name: "A".to_string(),
        needs_confirm: false,
    }];
    assert_eq!(decode_command_list(encode_command_list(list)).unwrap()[0].name, "A");

    let asked: RunRequest = from_bytes(&encode_run_request("a".to_string())).unwrap();
    assert_eq!(asked.id, "a");
}

#[test]
fn a_refusal_reads_as_what_to_tell_a_person() {
    let b = ErrorBody::encode("not_allowed", "not here");
    assert!(decode_error(b).unwrap().contains("not here"));
    assert!(decode_error(vec![0xff]).is_err());
}

#[test]
fn a_clipboard_that_is_not_text_loses_only_what_is_not_text() {
    let odd = to_bytes(&ClipboardSet {
        mime: "text/plain".to_string(),
        data: vec![b'a', 0xff],
        hash: vec![],
    });
    assert_eq!(decode_clipboard(odd).unwrap().text, "a\u{fffd}");
}

#[test]
fn the_capabilities_have_names() {
    for cap in [cap_session(), cap_clipboard(), cap_command(), cap_wol(), cap_ping()] {
        assert!(cap.starts_with("org.acrylius."), "{cap}");
    }
}
