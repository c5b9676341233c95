//! The decision logic of the HTTP ingress: slug extraction from the
//! `Host` header, the dispatch table, and the construction of tunnel
//! requests and HTTP reply plans. The host runtime only moves bytes
//! between these functions and the sockets.

use vstd::prelude::*;
use vstd::utf8::encode_utf8;
use vstd::string::{StrSliceExecFns, StringExecFns};
use crate::protocol::{ServerMessage, ServerMsgView, headers_view};
use crate::registry::{Registry, TunnelHandle, RelayResponse};
use crate::headers::{collect_fwd, drop_hbh, collect_headers, filter_hop_by_hop};
use crate::strutil::{lower_chars, lower_chars_exec};
use crate::ext::{b64_of, b64_encode, str_to_chars, chars_to_string};

verus! {

/// The characters of `h` before its first `:`, or all of `h`.
pub open spec fn before_colon(h: Seq<char>) -> Seq<char>
    decreases h.len(),
{
    if h.len() == 0 {
        h
    } else if h[0] == ':' {
        Seq::empty()
    } else {
        seq![h[0]] + before_colon(h.drop_first())
    }
}

/// `before_colon` takes the prefix up to the first colon.
proof fn lemma_before_colon(h: Seq<char>, j: int)
    requires
        0 <= j <= h.len(),
        forall|t: int| 0 <= t < j ==> h[t] != ':',
        j < h.len() ==> h[j] == ':',
    ensures
        before_colon(h) == h.take(j),
    decreases h.len(),
{
    if h.len() == 0 {
        assert(before_colon(h) =~= h.take(j));
    } else if j == 0 {
        assert(h[0] == ':');
        assert(before_colon(h) =~= h.take(0));
    } else {
        assert(h[0] != ':');
        assert(forall|t: int| 0 <= t < j - 1 ==> h.drop_first()[t] != ':');
        assert(j - 1 < h.drop_first().len() ==> h.drop_first()[j - 1] == ':');
        lemma_before_colon(h.drop_first(), j - 1);
        assert(before_colon(h) =~= h.take(j)) by {
            assert(h.drop_first().take(j - 1) =~= h.take(j).drop_first());
        }
    }
}

/// The slug named by a `Host` header value: the host is lowercased,
/// any `:port` suffix is cut, the remainder must end with the apex
/// suffix, and the part before the suffix is the slug only when it is
/// nonempty and has no dot in it.
pub open spec fn spec_extract_slug(host: Seq<char>) -> Option<Seq<char>> {
    let h = before_colon(lower_chars(host));
    let suf = ".nexusnode.app"@;
    if h.len() > suf.len() && h.skip(h.len() - suf.len()) == suf {
        let pre = h.take(h.len() - suf.len());
        if forall|t: int| 0 <= t < pre.len() ==> pre[t] != '.' {
            Some(pre)
        } else {
            None
        }
    } else {
        None
    }
}

/// Extracts the slug from a `Host` header value, as `spec_extract_slug`
/// says.
#[verifier::loop_isolation(false)]
pub fn extract_slug(host: &str) -> (r: Option<String>)
    ensures
        match r {
            Some(s) => spec_extract_slug(host@) == Some(s@),
            None => spec_extract_slug(host@) is None,
        },
{
    let raw = str_to_chars(host);
    let hc = lower_chars_exec(&raw);
    let ghost lv = lower_chars(host@);
    let mut j: usize = 0;
    while j < hc.len() && hc[j] != ':'
        invariant
            j <= hc@.len(),
            hc@ == lv,
            forall|t: int| 0 <= t < j ==> hc@[t] != ':',
        decreases hc@.len() - j,
    {
        j = j + 1;
    }
    proof {
        lemma_before_colon(lv, j as int);
    }
    let suf = str_to_chars(".nexusnode.app");
    proof {
        reveal_strlit(".nexusnode.app");
        assert(suf@.len() == 14);
    }
    if j <= suf.len() {
        proof {
            assert(before_colon(lv).len() <= (".nexusnode.app"@).len());
        }
        return None;
    }
    let start = j - suf.len();
    let mut t: usize = 0;
    while t < suf.len()
        invariant
            t <= suf@.len(),
            forall|k: int| 0 <= k < t ==> hc@[start + k] == suf@[k],
        decreases suf@.len() - t,
    {
        if hc[start + t] != suf[t] {
            proof {
                let h = before_colon(lv);
                assert(h == lv.take(j as int));
                assert(h[start + t] == lv[start + t as int]);
                assert(h.skip(h.len() - suf@.len())[t as int] == h[start + t]);
                assert(h.skip(h.len() - suf@.len()) != suf@);
            }
            return None;
        }
        t = t + 1;
    }
    proof {
        let h = before_colon(lv);
        assert(h == lv.take(j as int));
        assert(h.skip(h.len() - suf@.len()) =~= suf@) by {
            assert(forall|k: int|
                0 <= k < suf@.len() ==> #[trigger] h.skip(h.len() - suf@.len())[k] == hc@[start
                    + k]);
        }
    }
    let mut p: usize = 0;
    while p < start
        invariant
            p <= start,
            forall|k: int| 0 <= k < p ==> hc@[k] != '.',
        decreases start - p,
    {
        if hc[p] == '.' {
            proof {
                let h = before_colon(lv);
                let pre = h.take(h.len() - (".nexusnode.app"@).len());
                assert(pre[p as int] == lv[p as int]);
                assert(!(forall|k: int| 0 <= k < pre.len() ==> pre[k] != '.'));
            }
            return None;
        }
        p = p + 1;
    }
    let mut slug_chars: Vec<char> = Vec::new();
    let mut q: usize = 0;
    while q < start
        invariant
            q <= start,
            slug_chars@ == lv.take(start as int).take(q as int),
        decreases start - q,
    {
        slug_chars.push(hc[q]);
        proof {
            assert(slug_chars@ =~= lv.take(start as int).take(q + 1));
        }
        q = q + 1;
    }
    let slug = chars_to_string(&slug_chars);
    proof {
        let h = before_colon(lv);
        let pre = h.take(h.len() - (".nexusnode.app"@).len());
        assert(pre =~= lv.take(start as int));
        assert(lv.take(start as int).take(start as int) =~= lv.take(start as int));
        assert(forall|k: int| 0 <= k < pre.len() ==> pre[k] != '.');
        assert(slug@ == pre);
    }
    Some(slug)
}

/// Spec-level view of a planned HTTP response.
pub ghost struct HttpPlanView {
    pub status: u16,
    pub headers: Seq<(Seq<char>, Seq<char>)>,
    pub body: Seq<u8>,
}

/// A planned HTTP response: status, headers and body, ready for the
/// host runtime to put on the wire.
#[derive(Debug)]
pub struct HttpPlan {
    pub status: u16,
    pub headers: Vec<(String, String)>,
    pub body: Vec<u8>,
}

impl View for HttpPlan {
    type V = HttpPlanView;

    open spec fn view(&self) -> HttpPlanView {
        HttpPlanView {
            status: self.status,
            headers: headers_view(self.headers@),
            body: self.body@,
        }
    }
}

/// A 302 redirect to `location`, with an empty body.
pub fn redirect(location: String) -> (r: HttpPlan)
    ensures
        r@.status == 302,
        r@.headers == seq![("location"@, location@)],
        r@.body == Seq::<u8>::empty(),
{
    let mut headers: Vec<(String, String)> = Vec::new();
    headers.push((String::from_str("location"), location));
    let plan = HttpPlan { status: 302, headers, body: Vec::new() };
    proof {
        assert(plan@.headers =~= seq![("location"@, location@)]);
    }
    plan
}

/// A plain 404.
pub fn not_found() -> (r: HttpPlan)
    ensures
        r@.status == 404,
        r@.headers == Seq::<(Seq<char>, Seq<char>)>::empty(),
        r@.body == encode_utf8("Not Found"@),
{
    let plan = HttpPlan {
        status: 404,
        headers: Vec::new(),
        body: "Not Found".as_bytes_vec(),
    };
    proof {
        assert(plan@.headers =~= Seq::<(Seq<char>, Seq<char>)>::empty());
    }
    plan
}

/// A 500 carrying `msg` as its body.
pub fn internal_error(msg: &str) -> (r: HttpPlan)
    ensures
        r@.status == 500,
        r@.headers == Seq::<(Seq<char>, Seq<char>)>::empty(),
        r@.body == encode_utf8(msg@),
{
    let plan = HttpPlan { status: 500, headers: Vec::new(), body: msg.as_bytes_vec() };
    proof {
        assert(plan@.headers =~= Seq::<(Seq<char>, Seq<char>)>::empty());
    }
    plan
}

/// A 503 naming the slug whose relay is gone.
pub fn service_unavailable(slug: &str) -> (r: HttpPlan)
    ensures
        r@.status == 503,
        r@.headers == Seq::<(Seq<char>, Seq<char>)>::empty(),
        r@.body == encode_utf8("Relay for '"@ + slug@ + "' is unavailable"@),
{
    let mut text = String::from_str("Relay for '");
    text.append(slug);
    text.append("' is unavailable");
    let plan = HttpPlan { status: 503, headers: Vec::new(), body: text.as_str().as_bytes_vec() };
    proof {
        assert(plan@.headers =~= Seq::<(Seq<char>, Seq<char>)>::empty());
    }
    plan
}

/// A 504 for a relay client that did not answer in time.
pub fn gateway_timeout() -> (r: HttpPlan)
    ensures
        r@.status == 504,
        r@.headers == Seq::<(Seq<char>, Seq<char>)>::empty(),
        r@.body == encode_utf8("Relay client did not respond in time"@),
{
    let plan = HttpPlan {
        status: 504,
        headers: Vec::new(),
        body: "Relay client did not respond in time".as_bytes_vec(),
    };
    proof {
        assert(plan@.headers =~= Seq::<(Seq<char>, Seq<char>)>::empty());
    }
    plan
}

/// Where a request goes after slug extraction and a registry look-up.
#[derive(Debug, Clone, Copy, PartialEq, Eq, Structural)]
pub enum RouteStep {
    /// No slug, or the main slug: the apex service answers.
    MainFallback,
    /// A live tunnel: proxy through it.
    Tunnel(TunnelHandle),
    /// No live tunnel: consult the directory for a redirect.
    CheckDirectory,
}

/// The dispatch table of the ingress, up to the directory query.
pub fn route_slug(slug: &Option<String>, main_slug: &str, reg: &Registry) -> (r: RouteStep)
    requires
        reg.wf(),
    ensures
        match slug {
            None => r == RouteStep::MainFallback,
            Some(s) => r == if s@ == main_slug@ {
                RouteStep::MainFallback
            } else if reg@.contains_key(s@) {
                RouteStep::Tunnel(reg@[s@])
            } else {
                RouteStep::CheckDirectory
            },
        },
{
    match slug {
        None => RouteStep::MainFallback,
        Some(s) => {
            if crate::strutil::str_eq(s.as_str(), main_slug) {
                RouteStep::MainFallback
            } else {
                match reg.get(s.as_str()) {
                    Some(h) => RouteStep::Tunnel(h),
                    None => RouteStep::CheckDirectory,
                }
            }
        },
    }
}

/// `u` with every trailing `/` removed.
pub open spec fn trim_slashes(u: Seq<char>) -> Seq<char>
    decreases u.len(),
{
    if u.len() > 0 && u.last() == '/' {
        trim_slashes(u.drop_last())
    } else {
        u
    }
}

/// `trim_slashes` cuts exactly the trailing run of slashes.
proof fn lemma_trim_slashes(u: Seq<char>, e: int)
    requires
        0 <= e <= u.len(),
        forall|t: int| e <= t < u.len() ==> u[t] == '/',
        e > 0 ==> u[e - 1] != '/',
    ensures
        trim_slashes(u) == u.take(e),
    decreases u.len(),
{
    if u.len() == 0 {
        assert(trim_slashes(u) =~= u.take(e));
    } else if e == u.len() {
        assert(u.last() != '/');
        assert(trim_slashes(u) =~= u.take(e));
    } else {
        assert(u.last() == '/');
        assert(forall|t: int| e <= t < u.drop_last().len() ==> u.drop_last()[t] == '/');
        assert(e > 0 ==> u.drop_last()[e - 1] != '/');
        lemma_trim_slashes(u.drop_last(), e);
        assert(u.drop_last().take(e) =~= u.take(e));
    }
}

/// The directory redirect target: the stored URL without its trailing
/// slashes, then the original request URI.
pub fn redirect_target(url: &str, uri: &str) -> (r: String)
    ensures
        r@ == trim_slashes(url@) + uri@,
{
    let uc = str_to_chars(url);
    let mut e: usize = uc.len();
    while e > 0 && uc[e - 1] == '/'
        invariant
            e <= uc@.len(),
            uc@ == url@,
            forall|t: int| e <= t < uc@.len() ==> uc@[t] == '/',
        decreases e,
    {
        e = e - 1;
    }
    proof {
        lemma_trim_slashes(url@, e as int);
    }
    let mut base: Vec<char> = Vec::new();
    let mut i: usize = 0;
    while i < e
        invariant
            i <= e,
            e <= uc@.len(),
            uc@ == url@,
            base@ == url@.take(e as int).take(i as int),
        decreases e - i,
    {
        base.push(uc[i]);
        proof {
            assert(base@ =~= url@.take(e as int).take(i + 1));
        }
        i = i + 1;
    }
    proof {
        assert(url@.take(e as int).take(e as int) =~= url@.take(e as int));
    }
    let mut out = chars_to_string(&base);
    out.append(uri);
    out
}

/// The plan after the directory was consulted: a redirect to the stored
/// URL with the request URI appended, or a 404 when the slug is unknown.
pub fn directory_plan(row_url: Option<String>, uri: &str) -> (r: HttpPlan)
    ensures
        match row_url {
            Some(u) => r@.status == 302 && r@.headers == seq![
                ("location"@, trim_slashes(u@) + uri@),
            ] && r@.body == Seq::<u8>::empty(),
            None => r@.status == 404 && r@.body == encode_utf8("Not Found"@),
        },
{
    match row_url {
        Some(u) => redirect(redirect_target(u.as_str(), uri)),
        None => not_found(),
    }
}

/// Builds the tunnel `Request` message for a public HTTP request: a
/// fresh correlation id, the header map collected (lowercased, without
/// hop-by-hop names, later occurrences overwriting), and the body in
/// base64.
pub fn build_tunnel_request(
    id: String,
    method: String,
    path: String,
    raw_headers: &Vec<(String, String)>,
    body: &Vec<u8>,
) -> (r: ServerMessage)
    ensures
        r@ == (ServerMsgView::Request {
            id: id@,
            method: method@,
            path: path@,
            headers: collect_fwd(headers_view(raw_headers@)),
            body_b64: b64_of(body@),
        }),
{
    let headers = collect_headers(raw_headers);
    let body_b64 = b64_encode(body);
    ServerMessage::Request { id, method, path, headers, body_b64 }
}

/// The HTTP reply planned from a relayed response: its status, its
/// headers with hop-by-hop names stripped, its body unchanged.
pub fn reply_plan(resp: RelayResponse) -> (r: HttpPlan)
    ensures
        r@.status == resp@.status,
        r@.headers == drop_hbh(resp@.headers),
        r@.body == resp@.body,
{
    let headers = filter_hop_by_hop(&resp.headers);
    HttpPlan { status: resp.status, headers, body: resp.body }
}

} // verus!
