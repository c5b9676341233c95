//! The client tunnel session's decisions: reconnect backoff, the
//! registration outcome, the per-frame step of the session reader, and
//! the pure parts of the per-request forwarder.

use vstd::prelude::*;
use vstd::utf8::encode_utf8;
use vstd::string::{StrSliceExecFns, StringExecFns};
use crate::protocol::{ClientMessage, ClientMsgView, ServerMessage, ServerMsgView, headers_view};
use crate::headers::{is_hbh, collect_fwd, collect_headers, upsert, upsert_exec};
use crate::strutil::{dec_chars, dec_u16_chars};
use crate::ext::{b64_of, b64_encode, b64_decode, chars_to_string};

verus! {

/// The starting reconnect backoff, in seconds.
pub const INITIAL_BACKOFF_SECS: u64 = 1;

/// The largest reconnect backoff, in seconds.
pub const MAX_BACKOFF_SECS: u64 = 30;

/// The backoff after one more failed attempt: doubled, capped at the
/// maximum.
pub fn next_backoff(secs: u64) -> (r: u64)
    ensures
        r == if 2 * secs < MAX_BACKOFF_SECS {
            2 * secs
        } else {
            MAX_BACKOFF_SECS as int
        },
{
    if secs < 15 {
        2 * secs
    } else {
        MAX_BACKOFF_SECS
    }
}

/// The reconnect backoff stays within its bounds: starting from one
/// second and doubling with a cap, it is always between one second and
/// the maximum, so a lost client retries within the cap.
pub proof fn lemma_backoff_bounds(secs: u64)
    requires
        INITIAL_BACKOFF_SECS <= secs <= MAX_BACKOFF_SECS,
    ensures
        INITIAL_BACKOFF_SECS <= (if 2 * secs < MAX_BACKOFF_SECS {
            2 * secs
        } else {
            MAX_BACKOFF_SECS as int
        }) <= MAX_BACKOFF_SECS,
{
}

/// How the reply to our `Register` ends the handshake.
#[derive(Debug)]
pub enum RegOutcome {
    /// `Registered{ok: true}`: the tunnel is live.
    Proceed,
    /// `Registered{ok: false}`: rejected, with the server's reason.
    Rejected(String),
    /// Anything else, or a close before any reply: a protocol error.
    Protocol,
}

/// Decides on the one frame read after sending `Register`. Only
/// `Registered{ok: true}` lets the session proceed; a refusal carries
/// the server's reason (or a placeholder); any other frame, or a clean
/// close, is a protocol error. Either failure ends the session and the
/// reconnect loop backs off.
pub fn registration_outcome(m: Option<ServerMessage>) -> (r: RegOutcome)
    ensures
        match m {
            Some(msg) => match msg@ {
                ServerMsgView::Registered { ok, error } => {
                    if ok {
                        r is Proceed
                    } else {
                        r matches RegOutcome::Rejected(reason) && reason@ == (match error {
                            Some(e) => e,
                            None => "unknown error"@,
                        })
                    }
                },
                _ => r is Protocol,
            },
            None => r is Protocol,
        },
{
    match m {
        Some(ServerMessage::Registered { ok, error }) => {
            if ok {
                RegOutcome::Proceed
            } else {
                match error {
                    Some(e) => RegOutcome::Rejected(e),
                    None => RegOutcome::Rejected(String::from_str("unknown error")),
                }
            }
        },
        Some(_) => RegOutcome::Protocol,
        None => RegOutcome::Protocol,
    }
}

/// What the session reader does with one frame from the server.
#[derive(Debug)]
pub enum ClientStep {
    /// A `Request`: forward it to the local server, concurrently.
    Forward { id: String, method: String, path: String, headers: Vec<(String, String)>, body_b64: String },
    /// A `Ping`: enqueue a `Heartbeat` on the write queue.
    SendHeartbeat,
    /// A stray `Registered`: ignore it.
    Ignore,
    /// A clean close: the session ends.
    Exit,
}

/// Decides on one frame from the server, as the session reader does.
pub fn client_read_step(m: Option<ServerMessage>) -> (r: ClientStep)
    ensures
        match m {
            Some(msg) => match msg@ {
                ServerMsgView::Request { id, method, path, headers, body_b64 } => r
                    matches ClientStep::Forward { id: i, method: mth, path: p, headers: hs, body_b64: b }
                    && i@ == id && mth@ == method && p@ == path && headers_view(hs@) == headers
                    && b@ == body_b64,
                ServerMsgView::Ping => r is SendHeartbeat,
                ServerMsgView::Registered { .. } => r is Ignore,
            },
            None => r is Exit,
        },
{
    match m {
        Some(ServerMessage::Request { id, method, path, headers, body_b64 }) => {
            ClientStep::Forward { id, method, path, headers, body_b64 }
        },
        Some(ServerMessage::Ping) => ClientStep::SendHeartbeat,
        Some(ServerMessage::Registered { .. }) => ClientStep::Ignore,
        None => ClientStep::Exit,
    }
}

/// A planned request against the local HTTP server.
#[derive(Debug)]
pub struct LocalCall {
    /// `http://127.0.0.1:<port><path>`.
    pub url: String,
    /// The method string as received; the host parses it, falling back
    /// to GET for an unknown method.
    pub method: String,
    /// Forwarded headers: hop-by-hop and `host` dropped, then `host`
    /// set to `localhost:<port>`.
    pub headers: Vec<(String, String)>,
    /// The decoded body; a body that is no canonical base64 counts as
    /// empty.
    pub body: Vec<u8>,
}

/// A header list with duplicate names collapsed, later occurrences
/// overwriting the value in place, as a decoded header map is meant to
/// be read.
pub open spec fn collapse_dups(hs: Seq<(Seq<char>, Seq<char>)>) -> Seq<(Seq<char>, Seq<char>)>
    decreases hs.len(),
{
    if hs.len() == 0 {
        Seq::empty()
    } else {
        upsert(collapse_dups(hs.drop_last()), hs.last().0, hs.last().1)
    }
}

/// The forwarded header list before `host` is re-added.
pub open spec fn drop_hbh_host(hs: Seq<(Seq<char>, Seq<char>)>) -> Seq<(Seq<char>, Seq<char>)>
    decreases hs.len(),
{
    if hs.len() == 0 {
        Seq::empty()
    } else {
        let r = drop_hbh_host(hs.drop_last());
        let p = hs.last();
        if is_hbh(p.0) || p.0 == "host"@ {
            r
        } else {
            r.push(p)
        }
    }
}

/// Builds the local request for one tunneled `Request`: the URL against
/// the loopback port, the filtered headers with `host` pointing at the
/// local server, and the decoded body.
pub fn build_local_call(
    method: String,
    path: &str,
    headers: &Vec<(String, String)>,
    body_b64: &str,
    local_port: u16,
) -> (r: LocalCall)
    ensures
        r.url@ == "http://127.0.0.1:"@ + dec_chars(local_port as nat) + path@,
        r.method@ == method@,
        headers_view(r.headers@) == drop_hbh_host(collapse_dups(headers_view(headers@))).push(
            ("host"@, "localhost:"@ + dec_chars(local_port as nat)),
        ),
        forall|b: Seq<u8>| body_b64@ == b64_of(b) ==> r.body@ == b,
        (forall|b: Seq<u8>| body_b64@ != b64_of(b)) ==> r.body@ == Seq::<u8>::empty(),
{
    let port_chars = dec_u16_chars(local_port);
    let port_str = chars_to_string(&port_chars);
    let mut url = String::from_str("http://127.0.0.1:");
    url.append(port_str.as_str());
    url.append(path);
    let body = match b64_decode(body_b64) {
        Some(b) => b,
        None => Vec::new(),
    };
    let ghost raw = headers_view(headers@);
    let mut merged: Vec<(String, String)> = Vec::new();
    let mut d: usize = 0;
    proof {
        assert(headers_view(merged@) =~= Seq::<(Seq<char>, Seq<char>)>::empty());
        assert(raw.take(0) =~= Seq::<(Seq<char>, Seq<char>)>::empty());
    }
    while d < headers.len()
        invariant
            d <= headers@.len(),
            raw == headers_view(headers@),
            headers_view(merged@) == collapse_dups(raw.take(d as int)),
        decreases headers@.len() - d,
    {
        upsert_exec(&mut merged, headers[d].0.clone(), headers[d].1.clone());
        proof {
            assert(raw.take(d + 1).drop_last() =~= raw.take(d as int));
            assert(raw.take(d + 1).last() == raw[d as int]);
        }
        d = d + 1;
    }
    proof {
        assert(raw.take(raw.len() as int) =~= raw);
    }
    let ghost hv = headers_view(merged@);
    let mut out: Vec<(String, String)> = Vec::new();
    let mut i: usize = 0;
    proof {
        assert(headers_view(out@) =~= Seq::<(Seq<char>, Seq<char>)>::empty());
        assert(hv.take(0) =~= Seq::<(Seq<char>, Seq<char>)>::empty());
    }
    while i < merged.len()
        invariant
            i <= merged@.len(),
            hv == headers_view(merged@),
            headers_view(out@) == drop_hbh_host(hv.take(i as int)),
        decreases merged@.len() - i,
    {
        let ghost before = headers_view(out@);
        if !crate::headers::is_hop_by_hop(merged[i].0.as_str()) && !crate::strutil::str_eq(
            merged[i].0.as_str(),
            "host",
        ) {
            out.push((merged[i].0.clone(), merged[i].1.clone()));
            proof {
                assert(headers_view(out@) =~= before.push(hv[i as int]));
            }
        }
        proof {
            assert(hv.take(i + 1).drop_last() =~= hv.take(i as int));
            assert(hv.take(i + 1).last() == hv[i as int]);
        }
        i = i + 1;
    }
    proof {
        assert(hv.take(hv.len() as int) =~= hv);
    }
    let mut host_val = String::from_str("localhost:");
    host_val.append(port_str.as_str());
    let ghost filtered = headers_view(out@);
    out.push((String::from_str("host"), host_val));
    proof {
        assert(headers_view(out@) =~= filtered.push(
            ("host"@, "localhost:"@ + dec_chars(local_port as nat)),
        ));
    }
    LocalCall { url, method, headers: out, body }
}

/// Packs the local server's answer as the `Response` for correlation id
/// `id`: its status, its headers collected (lowercased, hop-by-hop
/// dropped, later occurrences overwriting), its body in base64.
pub fn local_reply_to_message(
    id: String,
    status: u16,
    headers: &Vec<(String, String)>,
    body: &Vec<u8>,
) -> (r: ClientMessage)
    ensures
        r@ == (ClientMsgView::Response {
            id: id@,
            status,
            headers: collect_fwd(headers_view(headers@)),
            body_b64: b64_of(body@),
        }),
{
    let hs = collect_headers(headers);
    let body_b64 = b64_encode(body);
    ClientMessage::Response { id, status, headers: hs, body_b64 }
}

/// A synthesized error `Response`: the given status, no headers, and
/// `msg` as the body.
pub fn error_response(id: String, status: u16, msg: &str) -> (r: ClientMessage)
    ensures
        r@ == (ClientMsgView::Response {
            id: id@,
            status,
            headers: Seq::empty(),
            body_b64: b64_of(encode_utf8(msg@)),
        }),
{
    let body = msg.as_bytes_vec();
    let body_b64 = b64_encode(&body);
    let r = ClientMessage::Response { id, status, headers: Vec::new(), body_b64 };
    proof {
        assert(headers_view(Seq::<(String, String)>::empty()) =~= Seq::<
            (Seq<char>, Seq<char>),
        >::empty());
    }
    r
}

} // verus!
