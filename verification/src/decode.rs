//! The executable parser for the wire grammar, proved to agree with the
//! specification parsers in `parse` on every input.

use vstd::prelude::*;
use crate::protocol::{ClientMessage, ServerMessage, headers_view};
use crate::parse::{
    seq_at, p_ws, is_digit, is_hex_char, hex_val, hex4_val, p_str_body, p_str, p_digits, p_num,
    p_lit, p_bool, p_jmap_body, p_jmap, JVal, p_value, p_members, p_object, FieldsView, no_fields,
    fold_fields, parse_client_chars, parse_server_chars,
};
use crate::strutil::str_eq;
use crate::ext::{str_to_chars, chars_to_string, char_from_u32};

verus! {

/// Skips whitespace from `i`, as `p_ws` does.
fn e_ws(s: &Vec<char>, i: usize) -> (r: usize)
    requires
        i <= s@.len(),
    ensures
        r as int == p_ws(s@, i as int),
        i <= r <= s@.len(),
{
    let mut cur: usize = i;
    loop
        invariant
            i <= cur <= s@.len(),
            p_ws(s@, i as int) == p_ws(s@, cur as int),
        decreases s@.len() - cur,
    {
        if cur >= s.len() {
            return cur;
        }
        let u = s[cur] as u32;
        if u == 32 || u == 9 || u == 10 || u == 13 {
            cur = cur + 1;
        } else {
            return cur;
        }
    }
}

/// The value of a hexadecimal digit character, when it is one.
fn e_hex(c: char) -> (r: Option<u32>)
    ensures
        r == if is_hex_char(c) {
            Some(hex_val(c) as u32)
        } else {
            None::<u32>
        },
{
    let u = c as u32;
    if 48 <= u && u <= 57 {
        Some(u - 48)
    } else if 97 <= u && u <= 102 {
        Some(u - 87)
    } else if 65 <= u && u <= 70 {
        Some(u - 55)
    } else {
        None
    }
}

/// Parses a JSON string literal at `i`, as `p_str` does.
#[verifier::rlimit(100)]
#[verifier::loop_isolation(false)]
fn e_str(s: &Vec<char>, i: usize) -> (r: Option<(String, usize)>)
    requires
        i <= s@.len(),
    ensures
        match r {
            Some(p) => p_str(s@, i as int) == Some((p.0@, p.1 as int)) && i + 2 <= p.1 <= s@.len(),
            None => p_str(s@, i as int) is None,
        },
{
    if i >= s.len() || s[i] != '"' {
        return None;
    }
    let mut acc: Vec<char> = Vec::new();
    let mut cur: usize = i + 1;
    loop
        invariant
            i + 1 <= cur <= s@.len(),
            p_str(s@, i as int) == p_str_body(s@, cur as int, acc@),
        decreases s@.len() - cur,
    {
        if cur >= s.len() {
            return None;
        }
        let c = s[cur];
        if c == '"' {
            let v = chars_to_string(&acc);
            return Some((v, cur + 1));
        } else if c == '\\' {
            if s.len() - cur < 2 {
                return None;
            }
            let e = s[cur + 1];
            if e == '"' {
                acc.push('"');
                cur = cur + 2;
            } else if e == '\\' {
                acc.push('\\');
                cur = cur + 2;
            } else if e == '/' {
                acc.push('/');
                cur = cur + 2;
            } else if e == 'b' {
                acc.push(8u8 as char);
                cur = cur + 2;
            } else if e == 't' {
                acc.push(9u8 as char);
                cur = cur + 2;
            } else if e == 'n' {
                acc.push(10u8 as char);
                cur = cur + 2;
            } else if e == 'f' {
                acc.push(12u8 as char);
                cur = cur + 2;
            } else if e == 'r' {
                acc.push(13u8 as char);
                cur = cur + 2;
            } else if e == 'u' {
                if s.len() - cur < 6 {
                    return None;
                }
                let h0 = e_hex(s[cur + 2]);
                let h1 = e_hex(s[cur + 3]);
                let h2 = e_hex(s[cur + 4]);
                let h3 = e_hex(s[cur + 5]);
                match (h0, h1, h2, h3) {
                    (Some(a), Some(b), Some(cc), Some(d)) => {
                        let v: u32 = a * 4096 + b * 256 + cc * 16 + d;
                        proof {
                            assert(v as int == hex4_val(s@, cur + 2));
                        }
                        if v < 0xD800 || v >= 0xE000 {
                            match char_from_u32(v) {
                                Some(ch) => {
                                    proof {
                                        vstd::utf8::char_u32_cast(ch, v);
                                    }
                                    acc.push(ch);
                                    cur = cur + 6;
                                },
                                None => {
                                    proof {
                                        assert(false);
                                    }
                                    return None;
                                },
                            }
                        } else if v <= 0xDBFF {
                            if s.len() - cur < 12 {
                                return None;
                            }
                            if s[cur + 6] == '\\' && s[cur + 7] == 'u' {
                                let g0 = e_hex(s[cur + 8]);
                                let g1 = e_hex(s[cur + 9]);
                                let g2 = e_hex(s[cur + 10]);
                                let g3 = e_hex(s[cur + 11]);
                                match (g0, g1, g2, g3) {
                                    (Some(a2), Some(b2), Some(c2), Some(d2)) => {
                                        let w: u32 = a2 * 4096 + b2 * 256 + c2 * 16 + d2;
                                        proof {
                                            assert(w as int == hex4_val(s@, cur + 8));
                                        }
                                        if 0xDC00 <= w && w <= 0xDFFF {
                                            let cp: u32 = 0x10000 + (v - 0xD800) * 0x400 + (w
                                                - 0xDC00);
                                            match char_from_u32(cp) {
                                                Some(ch) => {
                                                    proof {
                                                        vstd::utf8::char_u32_cast(ch, cp);
                                                    }
                                                    acc.push(ch);
                                                    cur = cur + 12;
                                                },
                                                None => {
                                                    proof {
                                                        assert(false);
                                                    }
                                                    return None;
                                                },
                                            }
                                        } else {
                                            return None;
                                        }
                                    },
                                    _ => {
                                        return None;
                                    },
                                }
                            } else {
                                return None;
                            }
                        } else {
                            return None;
                        }
                    },
                    _ => {
                        return None;
                    },
                }
            } else {
                return None;
            }
        } else if (c as u32) < 32 {
            return None;
        } else {
            acc.push(c);
            cur = cur + 1;
        }
    }
}

/// Parses a number at `i`, as `p_num` does.
fn e_num(s: &Vec<char>, i: usize) -> (r: Option<(u16, usize)>)
    requires
        i <= s@.len(),
    ensures
        match r {
            Some(p) => p_num(s@, i as int) == Some((p.0, p.1 as int)) && i < p.1 <= s@.len(),
            None => p_num(s@, i as int) is None,
        },
{
    if i >= s.len() {
        return None;
    }
    let c = s[i];
    if c == '0' {
        return Some((0, i + 1));
    }
    let u = c as u32;
    if !(48 <= u && u <= 57) {
        return None;
    }
    let mut acc: u32 = 0;
    let mut cur: usize = i;
    loop
        invariant
            i <= cur <= s@.len(),
            i < s@.len(),
            is_digit(s@[i as int]),
            s@[i as int] != '0',
            acc <= 65535,
            p_digits(s@, i as int, 0) == p_digits(s@, cur as int, acc as nat),
        decreases s@.len() - cur,
    {
        if cur >= s.len() {
            return Some((acc as u16, cur));
        }
        let d = s[cur] as u32;
        if !(48 <= d && d <= 57) {
            return Some((acc as u16, cur));
        }
        let a2: u32 = acc * 10 + (d - 48);
        if a2 > 65535 {
            return None;
        }
        acc = a2;
        cur = cur + 1;
    }
}

/// Matches the word `w` at `i`, as `p_lit` does.
fn e_lit(s: &Vec<char>, i: usize, w: &str) -> (r: Option<usize>)
    requires
        i <= s@.len(),
    ensures
        match r {
            Some(j) => p_lit(s@, i as int, w@) == Some(j as int) && i <= j <= s@.len(),
            None => p_lit(s@, i as int, w@) is None,
        },
{
    let wc = str_to_chars(w);
    if s.len() - i < wc.len() {
        return None;
    }
    let slen = s.len();
    let mut k: usize = 0;
    while k < wc.len()
        invariant
            0 <= k <= wc@.len(),
            wc@ == w@,
            slen == s@.len(),
            i + wc@.len() <= s@.len(),
            forall|t: int| 0 <= t < k ==> s@[i + t] == w@[t],
        decreases wc@.len() - k,
    {
        proof {
            assert(i + k < s@.len());
        }
        if s[i + k] != wc[k] {
            proof {
                assert(s@[i + k as int] != w@[k as int]);
                assert(!seq_at(s@, i as int, w@));
            }
            return None;
        }
        k = k + 1;
    }
    proof {
        assert(seq_at(s@, i as int, w@));
    }
    Some(i + wc.len())
}

/// Parses a boolean at `i`, as `p_bool` does.
fn e_bool(s: &Vec<char>, i: usize) -> (r: Option<(bool, usize)>)
    requires
        i <= s@.len(),
    ensures
        match r {
            Some(p) => p_bool(s@, i as int) == Some((p.0, p.1 as int)) && i <= p.1 <= s@.len(),
            None => p_bool(s@, i as int) is None,
        },
{
    match e_lit(s, i, "true") {
        Some(j) => Some((true, j)),
        None => match e_lit(s, i, "false") {
            Some(j) => Some((false, j)),
            None => None,
        },
    }
}

/// Parses a string-to-string object at `i`, as `p_jmap` does.
#[verifier::loop_isolation(false)]
fn e_jmap(s: &Vec<char>, i: usize) -> (r: Option<(Vec<(String, String)>, usize)>)
    requires
        i <= s@.len(),
    ensures
        match r {
            Some(p) => p_jmap(s@, i as int) == Some((headers_view(p.0@), p.1 as int)) && i < p.1
                <= s@.len(),
            None => p_jmap(s@, i as int) is None,
        },
{
    if i >= s.len() || s[i] != '{' {
        return None;
    }
    let start = e_ws(s, i + 1);
    if start < s.len() && s[start] == '}' {
        let out: Vec<(String, String)> = Vec::new();
        proof {
            assert(headers_view(out@) =~= Seq::<(Seq<char>, Seq<char>)>::empty());
        }
        return Some((out, start + 1));
    }
    let ghost n: nat = s@.len() as nat;
    let mut acc: Vec<(String, String)> = Vec::new();
    let mut cur: usize = start;
    let ghost mut fuel: nat = n;
    proof {
        assert(headers_view(acc@) =~= Seq::<(Seq<char>, Seq<char>)>::empty());
    }
    loop
        invariant
            start <= cur <= s@.len(),
            fuel <= n,
            6 * (n - fuel) <= cur - start,
            p_jmap_body(s@, start as int, Seq::empty(), n) == p_jmap_body(
                s@,
                cur as int,
                headers_view(acc@),
                fuel,
            ),
        decreases s@.len() - cur,
    {
        proof {
            assert(fuel >= 1) by {
                assert(6 * (n - fuel) <= cur - start < n);
            }
        }
        let (k, j) = match e_str(s, cur) {
            None => {
                return None;
            },
            Some(p) => p,
        };
        let j2 = e_ws(s, j);
        if !(j2 < s.len()) {
            return None;
        }
        if s[j2] != ':' {
            return None;
        }
        let j3 = e_ws(s, j2 + 1);
        let (v, j4) = match e_str(s, j3) {
            None => {
                return None;
            },
            Some(p) => p,
        };
        let j5 = e_ws(s, j4);
        if j5 < s.len() && s[j5] == ',' {
            let ghost prev = headers_view(acc@);
            acc.push((k, v));
            proof {
                assert(headers_view(acc@) =~= prev.push((k@, v@)));
                fuel = (fuel - 1) as nat;
            }
            cur = e_ws(s, j5 + 1);
        } else if j5 < s.len() && s[j5] == '}' {
            let ghost prev = headers_view(acc@);
            acc.push((k, v));
            proof {
                assert(headers_view(acc@) =~= prev.push((k@, v@)));
            }
            return Some((acc, j5 + 1));
        } else {
            return None;
        }
    }
}

/// A parsed member value.
#[derive(Debug)]
enum JsonVal {
    S(String),
    N(u16),
    B(bool),
    Null,
    M(Vec<(String, String)>),
}

impl View for JsonVal {
    type V = JVal;

    closed spec fn view(&self) -> JVal {
        match self {
            JsonVal::S(x) => JVal::JStr(x@),
            JsonVal::N(n) => JVal::JNum(*n),
            JsonVal::B(b) => JVal::JBool(*b),
            JsonVal::Null => JVal::JNull,
            JsonVal::M(m) => JVal::JMap(headers_view(m@)),
        }
    }
}

/// The view of a parsed member list.
spec fn members_view(ms: Seq<(String, JsonVal)>) -> Seq<(Seq<char>, JVal)> {
    ms.map_values(|p: (String, JsonVal)| (p.0@, p.1@))
}

/// Parses one member value at `i`, as `p_value` does.
fn e_value(s: &Vec<char>, i: usize) -> (r: Option<(JsonVal, usize)>)
    requires
        i <= s@.len(),
    ensures
        match r {
            Some(p) => p_value(s@, i as int) == Some((p.0@, p.1 as int)) && i < p.1 <= s@.len(),
            None => p_value(s@, i as int) is None,
        },
{
    if i >= s.len() {
        return None;
    }
    let c = s[i];
    if c == '"' {
        match e_str(s, i) {
            Some((v, j)) => Some((JsonVal::S(v), j)),
            None => None,
        }
    } else if c == 't' || c == 'f' {
        match e_bool(s, i) {
            Some((b, j)) => {
                proof {
                    reveal_strlit("true");
                    reveal_strlit("false");
                }
                Some((JsonVal::B(b), j))
            },
            None => None,
        }
    } else if c == 'n' {
        match e_lit(s, i, "null") {
            Some(j) => {
                proof {
                    reveal_strlit("null");
                }
                Some((JsonVal::Null, j))
            },
            None => None,
        }
    } else if c == '{' {
        match e_jmap(s, i) {
            Some((m, j)) => Some((JsonVal::M(m), j)),
            None => None,
        }
    } else {
        let u = c as u32;
        if 48 <= u && u <= 57 {
            match e_num(s, i) {
                Some((n, j)) => Some((JsonVal::N(n), j)),
                None => None,
            }
        } else {
            None
        }
    }
}

/// Parses the top-level object at `i`, as `p_object` does.
#[verifier::loop_isolation(false)]
fn e_object(s: &Vec<char>, i: usize) -> (r: Option<(Vec<(String, JsonVal)>, usize)>)
    requires
        i <= s@.len(),
    ensures
        match r {
            Some(p) => p_object(s@, i as int) == Some((members_view(p.0@), p.1 as int)) && i < p.1
                <= s@.len(),
            None => p_object(s@, i as int) is None,
        },
{
    if i >= s.len() || s[i] != '{' {
        return None;
    }
    let start = e_ws(s, i + 1);
    if start < s.len() && s[start] == '}' {
        let out: Vec<(String, JsonVal)> = Vec::new();
        proof {
            assert(members_view(out@) =~= Seq::<(Seq<char>, JVal)>::empty());
        }
        return Some((out, start + 1));
    }
    let ghost n: nat = s@.len() as nat;
    let mut acc: Vec<(String, JsonVal)> = Vec::new();
    let mut cur: usize = start;
    let ghost mut fuel: nat = n;
    proof {
        assert(members_view(acc@) =~= Seq::<(Seq<char>, JVal)>::empty());
    }
    loop
        invariant
            start <= cur <= s@.len(),
            fuel <= n,
            5 * (n - fuel) <= cur - start,
            p_members(s@, start as int, Seq::empty(), n) == p_members(
                s@,
                cur as int,
                members_view(acc@),
                fuel,
            ),
        decreases s@.len() - cur,
    {
        proof {
            assert(fuel >= 1) by {
                assert(5 * (n - fuel) <= cur - start < n);
            }
        }
        let (k, j) = match e_str(s, cur) {
            None => {
                return None;
            },
            Some(p) => p,
        };
        let j2 = e_ws(s, j);
        if !(j2 < s.len()) {
            return None;
        }
        if s[j2] != ':' {
            return None;
        }
        let j3 = e_ws(s, j2 + 1);
        let (v, j4) = match e_value(s, j3) {
            None => {
                return None;
            },
            Some(p) => p,
        };
        let j5 = e_ws(s, j4);
        if j5 < s.len() && s[j5] == ',' {
            let ghost prev = members_view(acc@);
            acc.push((k, v));
            proof {
                assert(members_view(acc@) =~= prev.push((k@, v@)));
                fuel = (fuel - 1) as nat;
            }
            cur = e_ws(s, j5 + 1);
        } else if j5 < s.len() && s[j5] == '}' {
            let ghost prev = members_view(acc@);
            acc.push((k, v));
            proof {
                assert(members_view(acc@) =~= prev.push((k@, v@)));
            }
            return Some((acc, j5 + 1));
        } else {
            return None;
        }
    }
}

/// The message fields gathered while folding a member list.
struct FieldRec {
    tag: Option<String>,
    slug: Option<String>,
    token: Option<String>,
    id: Option<String>,
    method: Option<String>,
    path: Option<String>,
    body_b64: Option<String>,
    status: Option<u16>,
    ok: Option<bool>,
    error: Option<Option<String>>,
    headers: Option<Vec<(String, String)>>,
}

impl View for FieldRec {
    type V = FieldsView;

    closed spec fn view(&self) -> FieldsView {
        FieldsView {
            tag: match self.tag {
                Some(x) => Some(x@),
                None => None,
            },
            slug: match self.slug {
                Some(x) => Some(x@),
                None => None,
            },
            token: match self.token {
                Some(x) => Some(x@),
                None => None,
            },
            id: match self.id {
                Some(x) => Some(x@),
                None => None,
            },
            method: match self.method {
                Some(x) => Some(x@),
                None => None,
            },
            path: match self.path {
                Some(x) => Some(x@),
                None => None,
            },
            body_b64: match self.body_b64 {
                Some(x) => Some(x@),
                None => None,
            },
            status: self.status,
            ok: self.ok,
            error: match self.error {
                Some(ref e) => Some(
                    match e {
                        Some(x) => Some(x@),
                        None => None,
                    },
                ),
                None => None,
            },
            headers: match self.headers {
                Some(ref m) => Some(headers_view(m@)),
                None => None,
            },
        }
    }
}

/// Folds a parsed member list into the gathered fields, as
/// `fold_fields` does.
#[verifier::loop_isolation(false)]
fn e_fold(ms: Vec<(String, JsonVal)>) -> (r: Option<FieldRec>)
    ensures
        match r {
            Some(f) => fold_fields(members_view(ms@), no_fields()) == Some(f@),
            None => fold_fields(members_view(ms@), no_fields()) is None,
        },
{
    let ghost orig = members_view(ms@);
    let mut rest = ms;
    let mut rec = FieldRec {
        tag: None,
        slug: None,
        token: None,
        id: None,
        method: None,
        path: None,
        body_b64: None,
        status: None,
        ok: None,
        error: None,
        headers: None,
    };
    proof {
        assert(rec@ == no_fields());
    }
    loop
        invariant
            fold_fields(orig, no_fields()) == fold_fields(members_view(rest@), rec@),
        decreases rest@.len(),
    {
        if rest.len() == 0 {
            proof {
                assert(members_view(rest@) =~= Seq::<(Seq<char>, JVal)>::empty());
            }
            return Some(rec);
        }
        let ghost pre_rest = rest@;
        let (k, v) = rest.remove(0);
        proof {
            assert(members_view(pre_rest)[0] == (k@, v@));
            assert(members_view(pre_rest).drop_first() =~= members_view(rest@));
        }
        if str_eq(k.as_str(), "type") {
            match v {
                JsonVal::S(x) => {
                    rec.tag = Some(x);
                },
                _ => {
                    return None;
                },
            }
        } else if str_eq(k.as_str(), "slug") {
            match v {
                JsonVal::S(x) => {
                    rec.slug = Some(x);
                },
                _ => {
                    return None;
                },
            }
        } else if str_eq(k.as_str(), "token") {
            match v {
                JsonVal::S(x) => {
                    rec.token = Some(x);
                },
                _ => {
                    return None;
                },
            }
        } else if str_eq(k.as_str(), "id") {
            match v {
                JsonVal::S(x) => {
                    rec.id = Some(x);
                },
                _ => {
                    return None;
                },
            }
        } else if str_eq(k.as_str(), "method") {
            match v {
                JsonVal::S(x) => {
                    rec.method = Some(x);
                },
                _ => {
                    return None;
                },
            }
        } else if str_eq(k.as_str(), "path") {
            match v {
                JsonVal::S(x) => {
                    rec.path = Some(x);
                },
                _ => {
                    return None;
                },
            }
        } else if str_eq(k.as_str(), "body_b64") {
            match v {
                JsonVal::S(x) => {
                    rec.body_b64 = Some(x);
                },
                _ => {
                    return None;
                },
            }
        } else if str_eq(k.as_str(), "status") {
            match v {
                JsonVal::N(n) => {
                    rec.status = Some(n);
                },
                _ => {
                    return None;
                },
            }
        } else if str_eq(k.as_str(), "ok") {
            match v {
                JsonVal::B(b) => {
                    rec.ok = Some(b);
                },
                _ => {
                    return None;
                },
            }
        } else if str_eq(k.as_str(), "error") {
            match v {
                JsonVal::S(x) => {
                    rec.error = Some(Some(x));
                },
                JsonVal::Null => {
                    rec.error = Some(None);
                },
                _ => {
                    return None;
                },
            }
        } else if str_eq(k.as_str(), "headers") {
            match v {
                JsonVal::M(m) => {
                    rec.headers = Some(m);
                },
                _ => {
                    return None;
                },
            }
        }
    }
}

/// Parses a complete client-to-server message text, as
/// `parse_client_chars` does.
pub fn decode_client_chars(s: &Vec<char>) -> (r: Option<ClientMessage>)
    ensures
        match r {
            Some(m) => parse_client_chars(s@) == Some(m@),
            None => parse_client_chars(s@) is None,
        },
{
    let i0 = e_ws(s, 0);
    let (ms, j) = match e_object(s, i0) {
        None => {
            return None;
        },
        Some(x) => x,
    };
    let j2 = e_ws(s, j);
    if j2 != s.len() {
        return None;
    }
    let f = match e_fold(ms) {
        None => {
            return None;
        },
        Some(f) => f,
    };
    let ghost fv = f@;
    let FieldRec { tag, slug, token, id, method: _, path: _, body_b64, status, ok: _, error: _, headers } = f;
    let tag = match tag {
        None => {
            return None;
        },
        Some(t) => t,
    };
    if str_eq(tag.as_str(), "register") {
        match (slug, token) {
            (Some(slug), Some(token)) => Some(ClientMessage::Register { slug, token }),
            _ => None,
        }
    } else if str_eq(tag.as_str(), "response") {
        match (id, status, headers, body_b64) {
            (Some(id), Some(status), Some(headers), Some(body_b64)) => Some(
                ClientMessage::Response { id, status, headers, body_b64 },
            ),
            _ => None,
        }
    } else if str_eq(tag.as_str(), "heartbeat") {
        Some(ClientMessage::Heartbeat)
    } else {
        None
    }
}

/// Parses a complete server-to-client message text, as
/// `parse_server_chars` does.
pub fn decode_server_chars(s: &Vec<char>) -> (r: Option<ServerMessage>)
    ensures
        match r {
            Some(m) => parse_server_chars(s@) == Some(m@),
            None => parse_server_chars(s@) is None,
        },
{
    let i0 = e_ws(s, 0);
    let (ms, j) = match e_object(s, i0) {
        None => {
            return None;
        },
        Some(x) => x,
    };
    let j2 = e_ws(s, j);
    if j2 != s.len() {
        return None;
    }
    let f = match e_fold(ms) {
        None => {
            return None;
        },
        Some(f) => f,
    };
    let ghost fv = f@;
    let FieldRec { tag, slug: _, token: _, id, method, path, body_b64, status: _, ok, error, headers } = f;
    let tag = match tag {
        None => {
            return None;
        },
        Some(t) => t,
    };
    if str_eq(tag.as_str(), "registered") {
        match (ok, error) {
            (Some(ok), Some(error)) => Some(ServerMessage::Registered { ok, error }),
            (Some(ok), None) => Some(ServerMessage::Registered { ok, error: None }),
            _ => None,
        }
    } else if str_eq(tag.as_str(), "request") {
        match (id, method, path, headers, body_b64) {
            (Some(id), Some(method), Some(path), Some(headers), Some(body_b64)) => Some(
                ServerMessage::Request { id, method, path, headers, body_b64 },
            ),
            _ => None,
        }
    } else if str_eq(tag.as_str(), "ping") {
        Some(ServerMessage::Ping)
    } else {
        None
    }
}

} // verus!
