//! Slug extraction, the ingress dispatch table, and the pending-request
//! correlation machinery.

use nexus_relay::ingress::{
    extract_slug, route_slug, RouteStep, redirect_target, directory_plan, build_tunnel_request,
    reply_plan, redirect, not_found, internal_error, service_unavailable, gateway_timeout,
};
use nexus_relay::registry::{Registry, TunnelHandle, PendingRequest, RelayResponse};
use nexus_relay::pending::{PendingTable, writer_step, reader_step};
use nexus_relay::session::{first_frame_step, auth_reply, heartbeat_step, session_teardown, FirstStep};
use nexus_relay::protocol::{ClientMessage, ServerMessage};
use base64::Engine;

#[test]
fn slug_extraction_cases() {
    assert_eq!(extract_slug("x.nexusnode.app"), Some("x".to_string()));
    assert_eq!(extract_slug("x.y.nexusnode.app"), None);
    assert_eq!(extract_slug("nexusnode.app"), None);
    assert_eq!(extract_slug("X.NexusNode.App:8080"), Some("x".to_string()));
    assert_eq!(extract_slug("demo.nexusnode.app:443"), Some("demo".to_string()));
    assert_eq!(extract_slug(""), None);
    assert_eq!(extract_slug("elsewhere.example"), None);
}

#[test]
fn dispatch_table() {
    let mut reg = Registry::new();
    reg.insert("demo".to_string(), TunnelHandle { chan: 7 });

    assert_eq!(route_slug(&None, "nexusnode", &reg), RouteStep::MainFallback);
    assert_eq!(
        route_slug(&Some("nexusnode".to_string()), "nexusnode", &reg),
        RouteStep::MainFallback
    );
    assert_eq!(
        route_slug(&Some("demo".to_string()), "nexusnode", &reg),
        RouteStep::Tunnel(TunnelHandle { chan: 7 })
    );
    assert_eq!(
        route_slug(&Some("gone".to_string()), "nexusnode", &reg),
        RouteStep::CheckDirectory
    );
}

#[test]
fn registry_replaces_and_removes() {
    let mut reg = Registry::new();
    assert!(!reg.contains("demo"));
    reg.insert("demo".to_string(), TunnelHandle { chan: 1 });
    reg.insert("demo".to_string(), TunnelHandle { chan: 2 });
    assert_eq!(reg.get("demo"), Some(TunnelHandle { chan: 2 }));
    reg.remove("demo");
    reg.remove("demo");
    assert_eq!(reg.get("demo"), None);
}

#[test]
fn directory_redirect_appends_the_uri() {
    assert_eq!(
        redirect_target("https://elsewhere.example", "/path?x=1"),
        "https://elsewhere.example/path?x=1"
    );
    assert_eq!(
        redirect_target("https://elsewhere.example/", "/path?x=1"),
        "https://elsewhere.example/path?x=1"
    );
    let plan = directory_plan(Some("https://elsewhere.example".to_string()), "/path?x=1");
    assert_eq!(plan.status, 302);
    assert_eq!(
        plan.headers,
        vec![("location".to_string(), "https://elsewhere.example/path?x=1".to_string())]
    );
    assert!(plan.body.is_empty());
    let missing = directory_plan(None, "/p");
    assert_eq!(missing.status, 404);
    assert_eq!(missing.body, b"Not Found".to_vec());
}

#[test]
fn error_plans() {
    let p = redirect("https://nexusnode.app".to_string());
    assert_eq!(p.status, 302);
    assert_eq!(p.headers, vec![("location".to_string(), "https://nexusnode.app".to_string())]);
    assert_eq!(not_found().status, 404);
    assert_eq!(internal_error("Failed to read request body").status, 500);
    assert_eq!(
        internal_error("Failed to read request body").body,
        b"Failed to read request body".to_vec()
    );
    let u = service_unavailable("demo");
    assert_eq!(u.status, 503);
    assert_eq!(u.body, b"Relay for 'demo' is unavailable".to_vec());
    let g = gateway_timeout();
    assert_eq!(g.status, 504);
    assert_eq!(g.body, b"Relay client did not respond in time".to_vec());
}

#[test]
fn tunnel_request_collects_headers_and_encodes_the_body() {
    let raw = vec![
        ("Connection".to_string(), "keep-alive".to_string()),
        ("X-Thing".to_string(), "one".to_string()),
        ("Accept".to_string(), "*/*".to_string()),
        ("x-thing".to_string(), "two".to_string()),
    ];
    let msg = build_tunnel_request(
        "id-9".to_string(),
        "POST".to_string(),
        "/submit".to_string(),
        &raw,
        &b"hello".to_vec(),
    );
    match msg {
        ServerMessage::Request { id, method, path, headers, body_b64 } => {
            assert_eq!(id, "id-9");
            assert_eq!(method, "POST");
            assert_eq!(path, "/submit");
            assert_eq!(
                headers,
                vec![
                    ("x-thing".to_string(), "two".to_string()),
                    ("accept".to_string(), "*/*".to_string()),
                ]
            );
            assert_eq!(body_b64, "aGVsbG8=");
        },
        _ => panic!("wrong message"),
    }
}

#[test]
fn writer_inserts_the_id_before_the_frame_goes_out() {
    let mut table = PendingTable::new();
    let req = PendingRequest {
        msg: ServerMessage::Request {
            id: "cid-1".to_string(),
            method: "GET".to_string(),
            path: "/".to_string(),
            headers: vec![],
            body_b64: String::new(),
        },
        reply_slot: 11,
    };
    assert!(writer_step(&mut table, &req));
    // The id is outstanding now, so the matching response routes home.
    let resp = ClientMessage::Response {
        id: "cid-1".to_string(),
        status: 200,
        headers: vec![],
        body_b64: "d29ybGQ=".to_string(),
    };
    let (slot, rr) = reader_step(&mut table, resp).unwrap();
    assert_eq!(slot, 11);
    assert_eq!(rr.status, 200);
    assert_eq!(rr.body, b"world".to_vec());
}

#[test]
fn ping_is_written_without_a_table_entry() {
    let mut table = PendingTable::new();
    let ping = PendingRequest { msg: ServerMessage::Ping, reply_slot: 0 };
    assert!(writer_step(&mut table, &ping));
    let stray = ClientMessage::Response {
        id: "anything".to_string(),
        status: 200,
        headers: vec![],
        body_b64: String::new(),
    };
    assert!(reader_step(&mut table, stray).is_none());
}

#[test]
fn late_response_is_dropped_silently() {
    let mut table = PendingTable::new();
    let req = PendingRequest {
        msg: ServerMessage::Request {
            id: "cid-2".to_string(),
            method: "GET".to_string(),
            path: "/".to_string(),
            headers: vec![],
            body_b64: String::new(),
        },
        reply_slot: 5,
    };
    writer_step(&mut table, &req);
    let resp = |body: &str| ClientMessage::Response {
        id: "cid-2".to_string(),
        status: 200,
        headers: vec![],
        body_b64: base64::engine::general_purpose::STANDARD.encode(body.as_bytes()),
    };
    assert!(reader_step(&mut table, resp("first")).is_some());
    // The entry was consumed: a second response with the same id is dropped.
    assert!(reader_step(&mut table, resp("second")).is_none());
}

#[test]
fn concurrent_ids_route_to_their_own_slots() {
    let mut table = PendingTable::new();
    for (i, id) in ["a", "b", "c"].iter().enumerate() {
        let req = PendingRequest {
            msg: ServerMessage::Request {
                id: id.to_string(),
                method: "GET".to_string(),
                path: "/".to_string(),
                headers: vec![],
                body_b64: String::new(),
            },
            reply_slot: i as u64,
        };
        writer_step(&mut table, &req);
    }
    // Out of order, each response reaches exactly its own slot with its
    // own body.
    let mk = |id: &str, body: &str| ClientMessage::Response {
        id: id.to_string(),
        status: 200,
        headers: vec![],
        body_b64: base64::engine::general_purpose::STANDARD.encode(body.as_bytes()),
    };
    let (s_c, r_c) = reader_step(&mut table, mk("c", "body-c")).unwrap();
    let (s_a, r_a) = reader_step(&mut table, mk("a", "body-a")).unwrap();
    let (s_b, r_b) = reader_step(&mut table, mk("b", "body-b")).unwrap();
    assert_eq!((s_a, s_b, s_c), (0, 1, 2));
    assert_eq!(r_a.body, b"body-a".to_vec());
    assert_eq!(r_b.body, b"body-b".to_vec());
    assert_eq!(r_c.body, b"body-c".to_vec());
}

#[test]
fn heartbeat_and_unexpected_register_are_ignored() {
    let mut table = PendingTable::new();
    assert!(reader_step(&mut table, ClientMessage::Heartbeat).is_none());
    assert!(
        reader_step(
            &mut table,
            ClientMessage::Register { slug: "s".to_string(), token: "t".to_string() }
        )
        .is_none()
    );
}

#[test]
fn undecodable_body_counts_as_empty() {
    let mut table = PendingTable::new();
    let req = PendingRequest {
        msg: ServerMessage::Request {
            id: "cid-3".to_string(),
            method: "GET".to_string(),
            path: "/".to_string(),
            headers: vec![],
            body_b64: String::new(),
        },
        reply_slot: 1,
    };
    writer_step(&mut table, &req);
    let resp = ClientMessage::Response {
        id: "cid-3".to_string(),
        status: 200,
        headers: vec![],
        body_b64: "!!not-base64!!".to_string(),
    };
    let (_, rr) = reader_step(&mut table, resp).unwrap();
    assert!(rr.body.is_empty());
}

#[test]
fn reply_plan_strips_hop_by_hop() {
    let resp = RelayResponse {
        status: 200,
        headers: vec![
            ("content-type".to_string(), "text/plain".to_string()),
            ("transfer-encoding".to_string(), "chunked".to_string()),
            ("upgrade".to_string(), "h2c".to_string()),
        ],
        body: b"world".to_vec(),
    };
    let plan = reply_plan(resp);
    assert_eq!(plan.status, 200);
    assert_eq!(plan.headers, vec![("content-type".to_string(), "text/plain".to_string())]);
    assert_eq!(plan.body, b"world".to_vec());
}

#[test]
fn handshake_decisions() {
    match first_frame_step(Some(ClientMessage::Register {
        slug: "demo".to_string(),
        token: "tok".to_string(),
    })) {
        FirstStep::Authenticate { slug, token } => {
            assert_eq!(slug, "demo");
            assert_eq!(token, "tok");
        },
        _ => panic!("expected authentication"),
    }
    match first_frame_step(Some(ClientMessage::Heartbeat)) {
        FirstStep::Reject(ServerMessage::Registered { ok, error }) => {
            assert!(!ok);
            assert_eq!(error.as_deref(), Some("Expected register message"));
        },
        _ => panic!("expected a refusal"),
    }
    match first_frame_step(None) {
        FirstStep::Reject(_) => {},
        _ => panic!("expected a refusal"),
    }
    match auth_reply(false) {
        ServerMessage::Registered { ok, error } => {
            assert!(!ok);
            assert_eq!(error.as_deref(), Some("Invalid slug or token"));
        },
        _ => panic!("wrong reply"),
    }
    match auth_reply(true) {
        ServerMessage::Registered { ok: true, error: None } => {},
        _ => panic!("wrong reply"),
    }
}

#[test]
fn heartbeat_runs_while_registered() {
    let mut reg = Registry::new();
    reg.insert("demo".to_string(), TunnelHandle { chan: 3 });
    let p = heartbeat_step(&reg, "demo", 99).unwrap();
    assert!(matches!(p.msg, ServerMessage::Ping));
    assert_eq!(p.reply_slot, 99);
    assert!(heartbeat_step(&reg, "gone", 0).is_none());
}

#[test]
fn teardown_clears_the_registry_and_the_table() {
    let mut reg = Registry::new();
    reg.insert("demo".to_string(), TunnelHandle { chan: 3 });
    let mut table = PendingTable::new();
    let req = PendingRequest {
        msg: ServerMessage::Request {
            id: "cid-4".to_string(),
            method: "GET".to_string(),
            path: "/".to_string(),
            headers: vec![],
            body_b64: String::new(),
        },
        reply_slot: 42,
    };
    writer_step(&mut table, &req);
    let orphans = session_teardown(&mut reg, &mut table, "demo");
    assert_eq!(orphans, vec![42]);
    assert!(!reg.contains("demo"));
    // The orphaned id is gone: its response is now dropped.
    let resp = ClientMessage::Response {
        id: "cid-4".to_string(),
        status: 200,
        headers: vec![],
        body_b64: String::new(),
    };
    assert!(reader_step(&mut table, resp).is_none());
}
