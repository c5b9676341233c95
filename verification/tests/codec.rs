//! Wire-format round trips and the exact canonical texts.

use nexus_relay::protocol::{ClientMessage, ServerMessage};
use nexus_relay::json::{encode_client, encode_server};
use nexus_relay::decode::{decode_client_chars, decode_server_chars};
use nexus_relay::frame::{encode_client_frame, encode_server_frame, read_client_msg, read_server_msg};
use nexus_relay::ext::str_to_chars;

fn chars(s: &str) -> Vec<char> {
    str_to_chars(s)
}

#[test]
fn heartbeat_text_is_canonical() {
    let text = encode_client(&ClientMessage::Heartbeat);
    assert_eq!(text, "{\"type\":\"heartbeat\"}");
}

#[test]
fn ping_text_is_canonical() {
    let text = encode_server(&ServerMessage::Ping);
    assert_eq!(text, "{\"type\":\"ping\"}");
}

#[test]
fn register_text_is_canonical() {
    let m = ClientMessage::Register { slug: "demo".to_string(), token: "s3cr3t".to_string() };
    let text = encode_client(&m);
    assert_eq!(text, "{\"type\":\"register\",\"slug\":\"demo\",\"token\":\"s3cr3t\"}");
}

#[test]
fn register_round_trip() {
    let m = ClientMessage::Register { slug: "demo".to_string(), token: "tok".to_string() };
    let text = encode_client(&m);
    match decode_client_chars(&chars(&text)) {
        Some(ClientMessage::Register { slug, token }) => {
            assert_eq!(slug, "demo");
            assert_eq!(token, "tok");
        },
        _ => panic!("wrong decode"),
    }
}

#[test]
fn response_round_trip_with_escapes() {
    let m = ClientMessage::Response {
        id: "abc-123".to_string(),
        status: 200,
        headers: vec![
            ("content-type".to_string(), "text/html".to_string()),
            ("x-odd".to_string(), "a\"b\\c\nd\te\u{1}f".to_string()),
            ("x-unicode".to_string(), "héllo→".to_string()),
        ],
        body_b64: "aGVsbG8=".to_string(),
    };
    let text = encode_client(&m);
    match decode_client_chars(&chars(&text)) {
        Some(ClientMessage::Response { id, status, headers, body_b64 }) => {
            assert_eq!(id, "abc-123");
            assert_eq!(status, 200);
            assert_eq!(headers.len(), 3);
            assert_eq!(headers[0], ("content-type".to_string(), "text/html".to_string()));
            assert_eq!(headers[1].1, "a\"b\\c\nd\te\u{1}f");
            assert_eq!(headers[2].1, "héllo→");
            assert_eq!(body_b64, "aGVsbG8=");
        },
        _ => panic!("wrong decode"),
    }
}

#[test]
fn registered_round_trip_both_ways() {
    let ok = ServerMessage::Registered { ok: true, error: None };
    let text = encode_server(&ok);
    assert_eq!(text, "{\"type\":\"registered\",\"ok\":true,\"error\":null}");
    match decode_server_chars(&chars(&text)) {
        Some(ServerMessage::Registered { ok: true, error: None }) => {},
        _ => panic!("wrong decode"),
    }
    let bad = ServerMessage::Registered {
        ok: false,
        error: Some("Invalid slug or token".to_string()),
    };
    let text2 = encode_server(&bad);
    match decode_server_chars(&chars(&text2)) {
        Some(ServerMessage::Registered { ok: false, error: Some(e) }) => {
            assert_eq!(e, "Invalid slug or token");
        },
        _ => panic!("wrong decode"),
    }
}

#[test]
fn request_round_trip_with_empty_headers() {
    let m = ServerMessage::Request {
        id: "id-1".to_string(),
        method: "POST".to_string(),
        path: "/hi?x=1".to_string(),
        headers: vec![],
        body_b64: String::new(),
    };
    let text = encode_server(&m);
    match decode_server_chars(&chars(&text)) {
        Some(ServerMessage::Request { id, method, path, headers, body_b64 }) => {
            assert_eq!(id, "id-1");
            assert_eq!(method, "POST");
            assert_eq!(path, "/hi?x=1");
            assert!(headers.is_empty());
            assert_eq!(body_b64, "");
        },
        _ => panic!("wrong decode"),
    }
}

#[test]
fn status_is_a_bare_number() {
    let m = ClientMessage::Response {
        id: "i".to_string(),
        status: 204,
        headers: vec![],
        body_b64: String::new(),
    };
    let text = encode_client(&m);
    assert!(text.contains("\"status\":204,"));
}

#[test]
fn unknown_tag_is_rejected() {
    assert!(decode_client_chars(&chars("{\"type\":\"bogus\"}")).is_none());
    assert!(decode_server_chars(&chars("{\"type\":\"bogus\"}")).is_none());
}

#[test]
fn trailing_garbage_is_rejected() {
    assert!(decode_client_chars(&chars("{\"type\":\"heartbeat\"}x")).is_none());
}

#[test]
fn serde_json_reads_the_canonical_text() {
    let m = ServerMessage::Request {
        id: "u-1".to_string(),
        method: "GET".to_string(),
        path: "/p".to_string(),
        headers: vec![("accept".to_string(), "*/*".to_string())],
        body_b64: "Zm9v".to_string(),
    };
    let text = encode_server(&m);
    let v: serde_json::Value = serde_json::from_str(&text).unwrap();
    assert_eq!(v["type"], "request");
    assert_eq!(v["id"], "u-1");
    assert_eq!(v["method"], "GET");
    assert_eq!(v["path"], "/p");
    assert_eq!(v["headers"]["accept"], "*/*");
    assert_eq!(v["body_b64"], "Zm9v");
}

#[test]
fn the_parser_reads_serde_json_output() {
    // A peer that serializes with serde_json emits the tag first, the
    // fields in order, and short escapes in strings.
    let token = serde_json::to_string("a\tb\"c\u{1}").unwrap();
    let text = format!(
        "{{\"type\":\"register\",\"slug\":\"demo\",\"token\":{}}}",
        token
    );
    match decode_client_chars(&chars(&text)) {
        Some(ClientMessage::Register { slug, token }) => {
            assert_eq!(slug, "demo");
            assert_eq!(token, "a\tb\"c\u{1}");
        },
        _ => panic!("wrong decode"),
    }
}

#[test]
fn framed_round_trip_client() {
    let m = ClientMessage::Response {
        id: "rid".to_string(),
        status: 502,
        headers: vec![("x".to_string(), "y".to_string())],
        body_b64: "TG9jYWw=".to_string(),
    };
    let bytes = encode_client_frame(&m).unwrap();
    let (m2, pos) = read_client_msg(&bytes, 0).unwrap().unwrap();
    assert_eq!(pos, bytes.len());
    match m2 {
        ClientMessage::Response { id, status, headers, body_b64 } => {
            assert_eq!(id, "rid");
            assert_eq!(status, 502);
            assert_eq!(headers, vec![("x".to_string(), "y".to_string())]);
            assert_eq!(body_b64, "TG9jYWw=");
        },
        _ => panic!("wrong decode"),
    }
}

#[test]
fn framed_round_trip_server_two_frames() {
    let a = ServerMessage::Ping;
    let b = ServerMessage::Registered { ok: true, error: None };
    let mut bytes = encode_server_frame(&a).unwrap();
    bytes.extend_from_slice(&encode_server_frame(&b).unwrap());
    let (m1, p1) = read_server_msg(&bytes, 0).unwrap().unwrap();
    assert!(matches!(m1, ServerMessage::Ping));
    let (m2, p2) = read_server_msg(&bytes, p1).unwrap().unwrap();
    assert!(matches!(m2, ServerMessage::Registered { ok: true, error: None }));
    // A clean end exactly between frames is "no message".
    assert!(read_server_msg(&bytes, p2).unwrap().is_none());
}

#[test]
fn whitespace_is_insignificant() {
    // A JSON producer may lay the text out freely.
    match decode_server_chars(&chars("{ \"type\":\"ping\"}")) {
        Some(ServerMessage::Ping) => {},
        _ => panic!("wrong decode"),
    }
    let text = " \t{ \"type\" : \"register\" ,\r\n \"slug\" : \"demo\" , \"token\" : \"t\" } \n";
    match decode_client_chars(&chars(text)) {
        Some(ClientMessage::Register { slug, token }) => {
            assert_eq!(slug, "demo");
            assert_eq!(token, "t");
        },
        _ => panic!("wrong decode"),
    }
}

#[test]
fn member_order_is_free() {
    let text = "{\"token\":\"t\",\"slug\":\"demo\",\"type\":\"register\"}";
    match decode_client_chars(&chars(text)) {
        Some(ClientMessage::Register { slug, token }) => {
            assert_eq!(slug, "demo");
            assert_eq!(token, "t");
        },
        _ => panic!("wrong decode"),
    }
}

#[test]
fn serde_json_value_output_parses() {
    // serde_json::Value sorts members, so the tag comes last here.
    let mut obj = serde_json::Map::new();
    obj.insert("type".to_string(), serde_json::Value::String("register".to_string()));
    obj.insert("slug".to_string(), serde_json::Value::String("demo".to_string()));
    obj.insert("token".to_string(), serde_json::Value::String("a\tb\"c".to_string()));
    let text = serde_json::to_string(&serde_json::Value::Object(obj)).unwrap();
    match decode_client_chars(&chars(&text)) {
        Some(ClientMessage::Register { slug, token }) => {
            assert_eq!(slug, "demo");
            assert_eq!(token, "a\tb\"c");
        },
        _ => panic!("wrong decode"),
    }
}

#[test]
fn unicode_escapes_cover_the_full_range() {
    let text = "{\"type\":\"register\",\"slug\":\"\\u00e9\\u4e2d\",\"token\":\"\\ud83d\\ude00\"}";
    match decode_client_chars(&chars(text)) {
        Some(ClientMessage::Register { slug, token }) => {
            assert_eq!(slug, "é中");
            assert_eq!(token, "😀");
        },
        _ => panic!("wrong decode"),
    }
}

#[test]
fn lone_surrogates_are_rejected() {
    assert!(decode_client_chars(&chars(
        "{\"type\":\"register\",\"slug\":\"\\ud83d\",\"token\":\"t\"}"
    ))
    .is_none());
    assert!(decode_client_chars(&chars(
        "{\"type\":\"register\",\"slug\":\"\\ude00\",\"token\":\"t\"}"
    ))
    .is_none());
}

#[test]
fn repeated_members_overwrite() {
    let text = "{\"type\":\"register\",\"slug\":\"one\",\"token\":\"t\",\"slug\":\"two\"}";
    match decode_client_chars(&chars(text)) {
        Some(ClientMessage::Register { slug, token }) => {
            assert_eq!(slug, "two");
            assert_eq!(token, "t");
        },
        _ => panic!("wrong decode"),
    }
}

#[test]
fn unknown_members_are_ignored() {
    let text = "{\"type\":\"ping\",\"extra\":\"x\",\"more\":7}";
    match decode_server_chars(&chars(text)) {
        Some(ServerMessage::Ping) => {},
        _ => panic!("wrong decode"),
    }
}

#[test]
fn wrong_typed_members_are_rejected() {
    assert!(decode_client_chars(&chars("{\"type\":\"register\",\"slug\":7,\"token\":\"t\"}"))
        .is_none());
    assert!(decode_server_chars(&chars("{\"type\":\"registered\",\"ok\":\"yes\",\"error\":null}"))
        .is_none());
}

#[test]
fn missing_members_are_rejected() {
    assert!(decode_client_chars(&chars("{\"type\":\"register\",\"slug\":\"demo\"}")).is_none());
    assert!(decode_client_chars(&chars("{\"type\":\"response\",\"id\":\"i\"}")).is_none());
}

#[test]
fn a_missing_error_member_reads_as_no_error() {
    match decode_server_chars(&chars("{\"type\":\"registered\",\"ok\":true}")) {
        Some(ServerMessage::Registered { ok: true, error: None }) => {},
        _ => panic!("wrong decode"),
    }
}

#[test]
fn headers_object_tolerates_whitespace() {
    let text = "{\"type\":\"response\",\"id\":\"i\",\"status\":200,\"headers\":{ \"a\" : \"1\" , \"b\" : \"2\" },\"body_b64\":\"\"}";
    match decode_client_chars(&chars(text)) {
        Some(ClientMessage::Response { headers, .. }) => {
            assert_eq!(
                headers,
                vec![("a".to_string(), "1".to_string()), ("b".to_string(), "2".to_string())]
            );
        },
        _ => panic!("wrong decode"),
    }
}
