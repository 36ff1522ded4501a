use chat_relay::frame::{bytes_needed, decode_text_frame, encode_text_frame, send_websocket_text};
use chat_relay::handshake::{negotiate, HandshakeError, HandshakeRequest};
use chat_relay::key::convert_key;
use chat_relay::router::{cors_headers, route, Method, RouteDecision};

#[test]
fn key_derivation_test_vector() {
    assert_eq!(
        convert_key("dGhlIHNhbXBsZSBub25jZQ=="),
        "s3pPLMBiTxaQ9kYGzzhZRbK+xOo="
    );
}

#[test]
fn key_derivation_depends_on_input() {
    assert_ne!(convert_key("AAAAAAAAAAAAAAAAAAAAAA=="), convert_key("BBBBBBBBBBBBBBBBBBBBBB=="));
}

fn round_trip(len: usize) {
    let msg = "a".repeat(len);
    let frame = send_websocket_text(&msg);
    let decoded = decode_text_frame(&frame);
    assert_eq!(decoded, Some(msg));
}

#[test]
fn frame_round_trip_empty() {
    round_trip(0);
}

#[test]
fn frame_round_trip_one() {
    round_trip(1);
}

#[test]
fn frame_round_trip_125() {
    round_trip(125);
}

#[test]
fn frame_round_trip_126() {
    round_trip(126);
}

#[test]
fn frame_round_trip_65535() {
    round_trip(65535);
}

#[test]
fn frame_round_trip_65536() {
    round_trip(65536);
}

#[test]
fn frame_round_trip_multibyte_text() {
    let msg = "héllo wörld — ☃".to_string();
    let frame = send_websocket_text(&msg);
    assert_eq!(decode_text_frame(&frame), Some(msg));
}

#[test]
fn length_prefix_one_byte_form() {
    let payload = vec![0x61u8; 125];
    let frame = encode_text_frame(&payload);
    assert_eq!(frame[0], 0x81);
    assert_eq!(frame[1], 125);
    assert_eq!(&frame[2..], &payload[..]);
    assert_eq!(frame.len(), 2 + 125);
}

#[test]
fn length_prefix_two_byte_form_lower_boundary() {
    let payload = vec![0x62u8; 126];
    let frame = encode_text_frame(&payload);
    assert_eq!(frame[0], 0x81);
    assert_eq!(frame[1], 126);
    assert_eq!(frame[2], 0);
    assert_eq!(frame[3], 126);
    assert_eq!(&frame[4..], &payload[..]);
    assert_eq!(frame.len(), 4 + 126);
}

#[test]
fn length_prefix_two_byte_form_upper_boundary() {
    let payload = vec![0x63u8; 65535];
    let frame = encode_text_frame(&payload);
    assert_eq!(frame[0], 0x81);
    assert_eq!(frame[1], 126);
    assert_eq!(frame[2], 0xff);
    assert_eq!(frame[3], 0xff);
    assert_eq!(frame.len(), 4 + 65535);
}

#[test]
fn length_prefix_eight_byte_form() {
    let payload = vec![0x64u8; 65536];
    let frame = encode_text_frame(&payload);
    assert_eq!(frame[0], 0x81);
    assert_eq!(frame[1], 127);
    assert_eq!(&frame[2..10], &[0, 0, 0, 0, 0, 1, 0, 0]);
    assert_eq!(frame.len(), 10 + 65536);
}

#[test]
fn masked_frame_decodes_to_unmasked_text() {
    // "Hello" masked with 37 fa 21 3d, the well-known protocol example.
    let frame = vec![0x81, 0x85, 0x37, 0xfa, 0x21, 0x3d, 0x7f, 0x9f, 0x4d, 0x51, 0x58];
    assert_eq!(decode_text_frame(&frame), Some("Hello".to_string()));
}

#[test]
fn masked_frame_with_zero_mask() {
    let mut frame = vec![0x81, 0x83, 0x00, 0x00, 0x00, 0x00];
    frame.extend_from_slice(b"abc");
    assert_eq!(decode_text_frame(&frame), Some("abc".to_string()));
}

#[test]
fn non_text_opcode_is_refused() {
    // A binary frame (opcode 2) with a 3-byte payload.
    let frame = vec![0x82, 0x03, 0x61, 0x62, 0x63];
    assert_eq!(decode_text_frame(&frame), None);
}

#[test]
fn short_buffer_is_refused() {
    assert_eq!(decode_text_frame(&[0x81, 0x05, 0x61]), None);
    assert_eq!(decode_text_frame(&[0x81]), None);
    assert_eq!(decode_text_frame(&[]), None);
}

#[test]
fn invalid_utf8_payload_is_refused() {
    let frame = vec![0x81, 0x02, 0xff, 0xfe];
    assert_eq!(decode_text_frame(&frame), None);
}

#[test]
fn bytes_needed_counts_down_to_a_whole_frame() {
    assert_eq!(bytes_needed(&[]), Some(2));
    assert_eq!(bytes_needed(&[0x81]), Some(1));
    assert_eq!(bytes_needed(&[0x81, 0x05]), Some(5));
    assert_eq!(bytes_needed(&[0x81, 0x05, 0x61, 0x62]), Some(3));
    assert_eq!(bytes_needed(&[0x81, 0x05, 0x61, 0x62, 0x63, 0x64, 0x65]), Some(0));
    // The two-byte extended form: the length bytes themselves are owed first.
    assert_eq!(bytes_needed(&[0x81, 0x7e]), Some(2));
    assert_eq!(bytes_needed(&[0x81, 0x7e, 0x01, 0x00]), Some(256));
    // A masked frame owes its mask bytes too.
    assert_eq!(bytes_needed(&[0x81, 0x85]), Some(9));
}

#[test]
fn handshake_without_upgrade_header_is_405() {
    let req = HandshakeRequest { upgrade: None, key: Some("k".to_string()) };
    match negotiate(&req) {
        Err(e) => {
            assert!(matches!(e, HandshakeError::NotWebSocket));
            assert_eq!(e.status_code(), 405);
        }
        Ok(_) => panic!("negotiation should fail without an Upgrade header"),
    }
}

#[test]
fn handshake_with_wrong_upgrade_value_is_405() {
    let req = HandshakeRequest {
        upgrade: Some("h2c".to_string()),
        key: Some("k".to_string()),
    };
    let e = negotiate(&req).err().expect("negotiation should fail");
    assert_eq!(e.status_code(), 405);
}

#[test]
fn handshake_without_key_is_400() {
    let req = HandshakeRequest { upgrade: Some("websocket".to_string()), key: None };
    match negotiate(&req) {
        Err(e) => {
            assert!(matches!(e, HandshakeError::MissingKey));
            assert_eq!(e.status_code(), 400);
        }
        Ok(_) => panic!("negotiation should fail without a key"),
    }
}

#[test]
fn handshake_success_carries_the_accept_token() {
    let req = HandshakeRequest {
        upgrade: Some("websocket".to_string()),
        key: Some("dGhlIHNhbXBsZSBub25jZQ==".to_string()),
    };
    let resp = negotiate(&req).ok().expect("negotiation should succeed");
    assert_eq!(resp.upgrade, "websocket");
    assert_eq!(resp.connection, "Upgrade");
    assert_eq!(resp.accept, "s3pPLMBiTxaQ9kYGzzhZRbK+xOo=");
}

#[test]
fn routing_table() {
    assert_eq!(route(Method::Options, "/anything"), RouteDecision::CorsPreflight);
    assert_eq!(route(Method::Post, "/messages"), RouteDecision::SubmitMessage);
    assert_eq!(route(Method::Post, "/api/messages?x=1"), RouteDecision::SubmitMessage);
    assert_eq!(route(Method::Post, "/other"), RouteDecision::NotAllowed);
    assert_eq!(route(Method::Get, "/messages"), RouteDecision::OpenSocket);
    assert_eq!(route(Method::Get, "/"), RouteDecision::NotAllowed);
    assert_eq!(route(Method::Other, "/messages"), RouteDecision::NotAllowed);
}

#[test]
fn cors_preflight_headers() {
    let h = cors_headers();
    assert_eq!(h.len(), 3);
    assert_eq!(h[0].0, "Access-Control-Allow-Origin");
    assert_eq!(h[0].1, "*");
    assert_eq!(h[1].0, "Access-Control-Allow-Methods");
    assert_eq!(h[1].1, "POST, GET, OPTIONS");
    assert_eq!(h[2].0, "Access-Control-Allow-Headers");
    assert_eq!(h[2].1, "Content-Type");
}
