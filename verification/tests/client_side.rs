//! The client session's decisions and the forwarder's pure parts, with
//! one walk along the whole decision chain of a proxied request.

use nexus_relay::client::{
    next_backoff, registration_outcome, client_read_step, build_local_call,
    local_reply_to_message, error_response, RegOutcome, ClientStep,
};
use nexus_relay::ingress::{build_tunnel_request, reply_plan};
use nexus_relay::pending::{PendingTable, writer_step, reader_step};
use nexus_relay::registry::PendingRequest;
use nexus_relay::protocol::{ClientMessage, ServerMessage};
use nexus_relay::ext::new_correlation_id;
use base64::Engine;

#[test]
fn backoff_doubles_and_caps() {
    let mut b: u64 = 1;
    let mut seen = vec![];
    for _ in 0..7 {
        b = next_backoff(b);
        seen.push(b);
    }
    assert_eq!(seen, vec![2, 4, 8, 16, 30, 30, 30]);
}

#[test]
fn registration_outcomes() {
    assert!(matches!(
        registration_outcome(Some(ServerMessage::Registered { ok: true, error: None })),
        RegOutcome::Proceed
    ));
    match registration_outcome(Some(ServerMessage::Registered {
        ok: false,
        error: Some("Invalid slug or token".to_string()),
    })) {
        RegOutcome::Rejected(reason) => assert_eq!(reason, "Invalid slug or token"),
        _ => panic!("expected a rejection"),
    }
    match registration_outcome(Some(ServerMessage::Registered { ok: false, error: None })) {
        RegOutcome::Rejected(reason) => assert_eq!(reason, "unknown error"),
        _ => panic!("expected a rejection"),
    }
    assert!(matches!(
        registration_outcome(Some(ServerMessage::Ping)),
        RegOutcome::Protocol
    ));
    assert!(matches!(registration_outcome(None), RegOutcome::Protocol));
}

#[test]
fn reader_steps() {
    match client_read_step(Some(ServerMessage::Request {
        id: "i".to_string(),
        method: "GET".to_string(),
        path: "/hi".to_string(),
        headers: vec![],
        body_b64: String::new(),
    })) {
        ClientStep::Forward { id, method, path, .. } => {
            assert_eq!(id, "i");
            assert_eq!(method, "GET");
            assert_eq!(path, "/hi");
        },
        _ => panic!("expected a forward"),
    }
    assert!(matches!(client_read_step(Some(ServerMessage::Ping)), ClientStep::SendHeartbeat));
    assert!(matches!(
        client_read_step(Some(ServerMessage::Registered { ok: true, error: None })),
        ClientStep::Ignore
    ));
    assert!(matches!(client_read_step(None), ClientStep::Exit));
}

#[test]
fn local_call_is_built_against_the_loopback_port() {
    let headers = vec![
        ("host".to_string(), "demo.nexusnode.app".to_string()),
        ("te".to_string(), "trailers".to_string()),
        ("accept".to_string(), "*/*".to_string()),
    ];
    let call = build_local_call("PUT".to_string(), "/hi?x=1", &headers, "aGVsbG8=", 8080);
    assert_eq!(call.url, "http://127.0.0.1:8080/hi?x=1");
    assert_eq!(call.method, "PUT");
    assert_eq!(
        call.headers,
        vec![
            ("accept".to_string(), "*/*".to_string()),
            ("host".to_string(), "localhost:8080".to_string()),
        ]
    );
    assert_eq!(call.body, b"hello".to_vec());
}

#[test]
fn undecodable_request_body_is_treated_as_empty() {
    let call = build_local_call("GET".to_string(), "/", &vec![], "%%%", 80);
    assert!(call.body.is_empty());
}

#[test]
fn local_reply_is_packed_with_collected_headers() {
    let headers = vec![
        ("Content-Type".to_string(), "text/plain".to_string()),
        ("Transfer-Encoding".to_string(), "chunked".to_string()),
    ];
    match local_reply_to_message("cid".to_string(), 200, &headers, &b"world".to_vec()) {
        ClientMessage::Response { id, status, headers, body_b64 } => {
            assert_eq!(id, "cid");
            assert_eq!(status, 200);
            assert_eq!(headers, vec![("content-type".to_string(), "text/plain".to_string())]);
            assert_eq!(body_b64, "d29ybGQ=");
        },
        _ => panic!("wrong message"),
    }
}

#[test]
fn unreachable_local_server_becomes_a_502() {
    match error_response("cid".to_string(), 502, "Local server unreachable") {
        ClientMessage::Response { id, status, headers, body_b64 } => {
            assert_eq!(id, "cid");
            assert_eq!(status, 502);
            assert!(headers.is_empty());
            let body = base64::engine::general_purpose::STANDARD.decode(&body_b64).unwrap();
            assert_eq!(body, b"Local server unreachable".to_vec());
        },
        _ => panic!("wrong message"),
    }
}

#[test]
fn correlation_ids_are_canonical_uuids() {
    let a = new_correlation_id();
    let b = new_correlation_id();
    assert_eq!(a.len(), 36);
    assert_eq!(b.len(), 36);
    assert_ne!(a, b);
}

#[test]
fn a_request_travels_the_whole_decision_chain() {
    // Ingress side: a public GET for slug demo becomes a tunnel request.
    let raw = vec![
        ("Host".to_string(), "demo.nexusnode.app".to_string()),
        ("Connection".to_string(), "keep-alive".to_string()),
        ("Accept".to_string(), "*/*".to_string()),
    ];
    let id = new_correlation_id();
    let msg = build_tunnel_request(id.clone(), "GET".to_string(), "/hi".to_string(), &raw, &vec![]);

    // The session writer binds the id to the reply slot, then the frame
    // goes out.
    let mut table = PendingTable::new();
    assert!(writer_step(&mut table, &PendingRequest { msg, reply_slot: 1 }));

    // Client side: the reader spawns a forward, the local call is built,
    // the echo server answers 200 "world".
    let step = client_read_step(Some(ServerMessage::Request {
        id: id.clone(),
        method: "GET".to_string(),
        path: "/hi".to_string(),
        headers: vec![("accept".to_string(), "*/*".to_string())],
        body_b64: String::new(),
    }));
    let (fid, method, path, fheaders, fbody) = match step {
        ClientStep::Forward { id, method, path, headers, body_b64 } => {
            (id, method, path, headers, body_b64)
        },
        _ => panic!("expected a forward"),
    };
    let call = build_local_call(method, &path, &fheaders, &fbody, 3000);
    assert_eq!(call.url, "http://127.0.0.1:3000/hi");
    let echo_headers = vec![("Content-Type".to_string(), "text/plain".to_string())];
    let reply = local_reply_to_message(fid, 200, &echo_headers, &b"world".to_vec());

    // Server side: the reader routes the response to the right slot and
    // the ingress builds the observed reply.
    let (slot, relayed) = reader_step(&mut table, reply).unwrap();
    assert_eq!(slot, 1);
    let plan = reply_plan(relayed);
    assert_eq!(plan.status, 200);
    assert_eq!(plan.headers, vec![("content-type".to_string(), "text/plain".to_string())]);
    assert_eq!(plan.body, b"world".to_vec());
}

#[test]
fn duplicate_request_headers_collapse_before_forwarding() {
    let headers = vec![
        ("x-choice".to_string(), "first".to_string()),
        ("accept".to_string(), "*/*".to_string()),
        ("x-choice".to_string(), "second".to_string()),
    ];
    let call = build_local_call("GET".to_string(), "/", &headers, "", 80);
    assert_eq!(
        call.headers,
        vec![
            ("x-choice".to_string(), "second".to_string()),
            ("accept".to_string(), "*/*".to_string()),
            ("host".to_string(), "localhost:80".to_string()),
        ]
    );
}
