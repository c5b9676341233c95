//! The parsing side of the wire grammar: specification-level parsers for
//! JSON message texts. The accepted language is general JSON for the
//! known tagged variants: insignificant whitespace at token boundaries,
//! members in any order (a repeated member overwrites, an unknown member
//! with a value of the grammar is ignored), the full escape set
//! including `\uXXXX` with surrogate pairs. Values are those the
//! messages need: strings, unsigned 16-bit numbers, booleans, `null`,
//! and string-to-string objects.

use vstd::prelude::*;
use crate::protocol::{ClientMsgView, ServerMsgView};

verus! {

/// Whether `w` occurs in `s` starting at position `i`.
pub open spec fn seq_at(s: Seq<char>, i: int, w: Seq<char>) -> bool {
    &&& 0 <= i
    &&& i + w.len() <= s.len()
    &&& forall|k: int| 0 <= k < w.len() ==> s[i + k] == w[k]
}

/// Splitting an occurrence of a concatenation into its two halves.
pub proof fn lemma_seq_at_concat(s: Seq<char>, i: int, a: Seq<char>, b: Seq<char>)
    ensures
        seq_at(s, i, a + b) <==> (seq_at(s, i, a) && seq_at(s, i + a.len(), b)),
{
    if seq_at(s, i, a + b) {
        assert forall|k: int| 0 <= k < a.len() implies s[i + k] == a[k] by {
            assert(s[i + k] == (a + b)[k]);
        }
        assert forall|k: int| 0 <= k < b.len() implies s[i + a.len() + k] == b[k] by {
            assert(s[i + (a.len() + k)] == (a + b)[a.len() + k]);
        }
    }
    if seq_at(s, i, a) && seq_at(s, i + a.len(), b) {
        assert forall|k: int| 0 <= k < (a + b).len() implies s[i + k] == (a + b)[k] by {
            if k < a.len() {
                assert(s[i + k] == a[k]);
            } else {
                assert(s[i + a.len() + (k - a.len())] == b[k - a.len()]);
            }
        }
    }
}

/// Whether `c` is insignificant JSON whitespace.
pub open spec fn is_ws(c: char) -> bool {
    ||| c as u32 == 32
    ||| c as u32 == 9
    ||| c as u32 == 10
    ||| c as u32 == 13
}

/// The first position at or after `i` holding a non-whitespace
/// character (or the end).
pub open spec fn p_ws(s: Seq<char>, i: int) -> int
    decreases s.len() - i,
{
    if 0 <= i && i < s.len() && is_ws(s[i]) {
        p_ws(s, i + 1)
    } else {
        i
    }
}

/// Skipping whitespace stays inside the text and stops on substance.
pub proof fn lemma_p_ws_bounds(s: Seq<char>, i: int)
    requires
        0 <= i <= s.len(),
    ensures
        i <= p_ws(s, i) <= s.len(),
        p_ws(s, i) < s.len() ==> !is_ws(s[p_ws(s, i)]),
    decreases s.len() - i,
{
    if i < s.len() && is_ws(s[i]) {
        lemma_p_ws_bounds(s, i + 1);
    }
}

/// Whether `c` is a decimal digit.
pub open spec fn is_digit(c: char) -> bool {
    48 <= c as u32 && c as u32 <= 57
}

/// Whether `c` is a hexadecimal digit.
pub open spec fn is_hex_char(c: char) -> bool {
    ||| is_digit(c)
    ||| (97 <= c as u32 && c as u32 <= 102)
    ||| (65 <= c as u32 && c as u32 <= 70)
}

/// The value of a hexadecimal digit.
pub open spec fn hex_val(c: char) -> int {
    if is_digit(c) {
        c as u32 - 48
    } else if 97 <= c as u32 && c as u32 <= 102 {
        c as u32 - 87
    } else {
        c as u32 - 55
    }
}

/// The value of the four hexadecimal digits at `i`, when they are ones.
pub open spec fn hex4_ok(s: Seq<char>, i: int) -> bool {
    &&& is_hex_char(s[i])
    &&& is_hex_char(s[i + 1])
    &&& is_hex_char(s[i + 2])
    &&& is_hex_char(s[i + 3])
}

/// The value of the four hexadecimal digits starting at `i`.
pub open spec fn hex4_val(s: Seq<char>, i: int) -> int {
    hex_val(s[i]) * 4096 + hex_val(s[i + 1]) * 256 + hex_val(s[i + 2]) * 16 + hex_val(s[i + 3])
}

/// Parses the body of a JSON string literal (after the opening quote),
/// accumulating the unescaped characters; yields the content and the
/// position after the closing quote. `\uXXXX` covers the basic plane,
/// with surrogate pairs for the rest.
pub open spec fn p_str_body(s: Seq<char>, i: int, acc: Seq<char>) -> Option<(Seq<char>, int)>
    decreases s.len() - i,
{
    if i < 0 || i >= s.len() {
        None
    } else {
        let c = s[i];
        if c == '"' {
            Some((acc, i + 1))
        } else if c == '\\' {
            if i + 1 >= s.len() {
                None
            } else {
                let e = s[i + 1];
                if e == '"' {
                    p_str_body(s, i + 2, acc.push('"'))
                } else if e == '\\' {
                    p_str_body(s, i + 2, acc.push('\\'))
                } else if e == '/' {
                    p_str_body(s, i + 2, acc.push('/'))
                } else if e == 'b' {
                    p_str_body(s, i + 2, acc.push(8u8 as char))
                } else if e == 't' {
                    p_str_body(s, i + 2, acc.push(9u8 as char))
                } else if e == 'n' {
                    p_str_body(s, i + 2, acc.push(10u8 as char))
                } else if e == 'f' {
                    p_str_body(s, i + 2, acc.push(12u8 as char))
                } else if e == 'r' {
                    p_str_body(s, i + 2, acc.push(13u8 as char))
                } else if e == 'u' {
                    if i + 5 >= s.len() {
                        None
                    } else if hex4_ok(s, i + 2) {
                        let v = hex4_val(s, i + 2);
                        if v < 0xD800 || v >= 0xE000 {
                            p_str_body(s, i + 6, acc.push((v as u32) as char))
                        } else if v < 0xDC00 {
                            // A high surrogate: a low one must follow.
                            if i + 11 >= s.len() {
                                None
                            } else if s[i + 6] == '\\' && s[i + 7] == 'u' && hex4_ok(s, i + 8) {
                                let w = hex4_val(s, i + 8);
                                if 0xDC00 <= w && w <= 0xDFFF {
                                    let cp = 0x10000 + (v - 0xD800) * 0x400 + (w - 0xDC00);
                                    p_str_body(s, i + 12, acc.push((cp as u32) as char))
                                } else {
                                    None
                                }
                            } else {
                                None
                            }
                        } else {
                            None
                        }
                    } else {
                        None
                    }
                } else {
                    None
                }
            }
        } else if (c as u32) < 32 {
            None
        } else {
            p_str_body(s, i + 1, acc.push(c))
        }
    }
}

/// Parses a JSON string literal at `i`.
pub open spec fn p_str(s: Seq<char>, i: int) -> Option<(Seq<char>, int)> {
    if 0 <= i && i < s.len() && s[i] == '"' {
        p_str_body(s, i + 1, Seq::empty())
    } else {
        None
    }
}

/// Parses a run of decimal digits, accumulating their value; fails when
/// the value would exceed `u16::MAX`.
pub open spec fn p_digits(s: Seq<char>, i: int, acc: nat) -> Option<(nat, int)>
    decreases s.len() - i,
{
    if i < 0 || i >= s.len() || !is_digit(s[i]) {
        Some((acc, i))
    } else {
        let acc2 = acc * 10 + (s[i] as u32 - 48);
        if acc2 > 65535 {
            None
        } else {
            p_digits(s, i + 1, acc2 as nat)
        }
    }
}

/// Parses a JSON number restricted to the unsigned 16-bit range.
pub open spec fn p_num(s: Seq<char>, i: int) -> Option<(u16, int)> {
    if !(0 <= i && i < s.len()) {
        None
    } else if s[i] == '0' {
        Some((0, i + 1))
    } else if is_digit(s[i]) {
        match p_digits(s, i, 0) {
            Some((n, j)) => Some((n as u16, j)),
            None => None,
        }
    } else {
        None
    }
}

/// Matches the literal word `w` at `i`.
pub open spec fn p_lit(s: Seq<char>, i: int, w: Seq<char>) -> Option<int> {
    if seq_at(s, i, w) {
        Some(i + w.len())
    } else {
        None
    }
}

/// Parses `true` or `false`.
pub open spec fn p_bool(s: Seq<char>, i: int) -> Option<(bool, int)> {
    match p_lit(s, i, "true"@) {
        Some(j) => Some((true, j)),
        None => match p_lit(s, i, "false"@) {
            Some(j) => Some((false, j)),
            None => None,
        },
    }
}

/// Parses the members of a string-to-string object after its opening
/// brace (first key position, whitespace already skipped), up to and
/// including the closing brace. `fuel` bounds the member count.
pub open spec fn p_jmap_body(
    s: Seq<char>,
    i: int,
    acc: Seq<(Seq<char>, Seq<char>)>,
    fuel: nat,
) -> Option<(Seq<(Seq<char>, Seq<char>)>, int)>
    decreases fuel,
{
    if fuel == 0 {
        None
    } else {
        match p_str(s, i) {
            None => None,
            Some((k, j)) => {
                let j2 = p_ws(s, j);
                if j2 < s.len() && s[j2] == ':' {
                    let j3 = p_ws(s, j2 + 1);
                    match p_str(s, j3) {
                        None => None,
                        Some((v, j4)) => {
                            let j5 = p_ws(s, j4);
                            if j5 < s.len() && s[j5] == ',' {
                                p_jmap_body(s, p_ws(s, j5 + 1), acc.push((k, v)), (fuel - 1) as nat)
                            } else if j5 < s.len() && s[j5] == '}' {
                                Some((acc.push((k, v)), j5 + 1))
                            } else {
                                None
                            }
                        },
                    }
                } else {
                    None
                }
            },
        }
    }
}

/// Parses a string-to-string JSON object at `i`.
pub open spec fn p_jmap(s: Seq<char>, i: int) -> Option<(Seq<(Seq<char>, Seq<char>)>, int)> {
    if 0 <= i && i < s.len() && s[i] == '{' {
        let j = p_ws(s, i + 1);
        if j < s.len() && s[j] == '}' {
            Some((Seq::empty(), j + 1))
        } else {
            p_jmap_body(s, j, Seq::empty(), s.len() as nat)
        }
    } else {
        None
    }
}

/// A parsed member value.
pub ghost enum JVal {
    JStr(Seq<char>),
    JNum(u16),
    JBool(bool),
    JNull,
    JMap(Seq<(Seq<char>, Seq<char>)>),
}

/// Parses one member value at `i` (whitespace already skipped),
/// dispatching on its first character.
pub open spec fn p_value(s: Seq<char>, i: int) -> Option<(JVal, int)> {
    if !(0 <= i && i < s.len()) {
        None
    } else {
        let c = s[i];
        if c == '"' {
            match p_str(s, i) {
                Some((v, j)) => Some((JVal::JStr(v), j)),
                None => None,
            }
        } else if c == 't' || c == 'f' {
            match p_bool(s, i) {
                Some((b, j)) => Some((JVal::JBool(b), j)),
                None => None,
            }
        } else if c == 'n' {
            match p_lit(s, i, "null"@) {
                Some(j) => Some((JVal::JNull, j)),
                None => None,
            }
        } else if c == '{' {
            match p_jmap(s, i) {
                Some((m, j)) => Some((JVal::JMap(m), j)),
                None => None,
            }
        } else if is_digit(c) {
            match p_num(s, i) {
                Some((n, j)) => Some((JVal::JNum(n), j)),
                None => None,
            }
        } else {
            None
        }
    }
}

/// Parses the members of the top-level object (first key position,
/// whitespace already skipped), up to and including the closing brace.
pub open spec fn p_members(
    s: Seq<char>,
    i: int,
    acc: Seq<(Seq<char>, JVal)>,
    fuel: nat,
) -> Option<(Seq<(Seq<char>, JVal)>, int)>
    decreases fuel,
{
    if fuel == 0 {
        None
    } else {
        match p_str(s, i) {
            None => None,
            Some((k, j)) => {
                let j2 = p_ws(s, j);
                if j2 < s.len() && s[j2] == ':' {
                    let j3 = p_ws(s, j2 + 1);
                    match p_value(s, j3) {
                        None => None,
                        Some((v, j4)) => {
                            let j5 = p_ws(s, j4);
                            if j5 < s.len() && s[j5] == ',' {
                                p_members(s, p_ws(s, j5 + 1), acc.push((k, v)), (fuel - 1) as nat)
                            } else if j5 < s.len() && s[j5] == '}' {
                                Some((acc.push((k, v)), j5 + 1))
                            } else {
                                None
                            }
                        },
                    }
                } else {
                    None
                }
            },
        }
    }
}

/// Parses the top-level object at `i`: its member list in order.
pub open spec fn p_object(s: Seq<char>, i: int) -> Option<(Seq<(Seq<char>, JVal)>, int)> {
    if 0 <= i && i < s.len() && s[i] == '{' {
        let j = p_ws(s, i + 1);
        if j < s.len() && s[j] == '}' {
            Some((Seq::empty(), j + 1))
        } else {
            p_members(s, j, Seq::empty(), s.len() as nat)
        }
    } else {
        None
    }
}

/// The message fields gathered from a member list.
pub ghost struct FieldsView {
    pub tag: Option<Seq<char>>,
    pub slug: Option<Seq<char>>,
    pub token: Option<Seq<char>>,
    pub id: Option<Seq<char>>,
    pub method: Option<Seq<char>>,
    pub path: Option<Seq<char>>,
    pub body_b64: Option<Seq<char>>,
    pub status: Option<u16>,
    pub ok: Option<bool>,
    pub error: Option<Option<Seq<char>>>,
    pub headers: Option<Seq<(Seq<char>, Seq<char>)>>,
}

/// No field seen yet.
pub open spec fn no_fields() -> FieldsView {
    FieldsView {
        tag: None,
        slug: None,
        token: None,
        id: None,
        method: None,
        path: None,
        body_b64: None,
        status: None,
        ok: None,
        error: None,
        headers: None,
    }
}

/// Applies one member to the gathered fields. A known name takes a
/// value of its type (overwriting an earlier occurrence); a known name
/// with a value of another type is malformed; an unknown name is
/// ignored.
pub open spec fn upd_field(f: FieldsView, k: Seq<char>, v: JVal) -> Option<FieldsView> {
    if k == "type"@ {
        match v {
            JVal::JStr(x) => Some(FieldsView { tag: Some(x), ..f }),
            _ => None,
        }
    } else if k == "slug"@ {
        match v {
            JVal::JStr(x) => Some(FieldsView { slug: Some(x), ..f }),
            _ => None,
        }
    } else if k == "token"@ {
        match v {
            JVal::JStr(x) => Some(FieldsView { token: Some(x), ..f }),
            _ => None,
        }
    } else if k == "id"@ {
        match v {
            JVal::JStr(x) => Some(FieldsView { id: Some(x), ..f }),
            _ => None,
        }
    } else if k == "method"@ {
        match v {
            JVal::JStr(x) => Some(FieldsView { method: Some(x), ..f }),
            _ => None,
        }
    } else if k == "path"@ {
        match v {
            JVal::JStr(x) => Some(FieldsView { path: Some(x), ..f }),
            _ => None,
        }
    } else if k == "body_b64"@ {
        match v {
            JVal::JStr(x) => Some(FieldsView { body_b64: Some(x), ..f }),
            _ => None,
        }
    } else if k == "status"@ {
        match v {
            JVal::JNum(n) => Some(FieldsView { status: Some(n), ..f }),
            _ => None,
        }
    } else if k == "ok"@ {
        match v {
            JVal::JBool(b) => Some(FieldsView { ok: Some(b), ..f }),
            _ => None,
        }
    } else if k == "error"@ {
        match v {
            JVal::JStr(x) => Some(FieldsView { error: Some(Some(x)), ..f }),
            JVal::JNull => Some(FieldsView { error: Some(None), ..f }),
            _ => None,
        }
    } else if k == "headers"@ {
        match v {
            JVal::JMap(m) => Some(FieldsView { headers: Some(m), ..f }),
            _ => None,
        }
    } else {
        Some(f)
    }
}

/// Folds a member list into the gathered fields, in order.
pub open spec fn fold_fields(ms: Seq<(Seq<char>, JVal)>, f: FieldsView) -> Option<FieldsView>
    decreases ms.len(),
{
    if ms.len() == 0 {
        Some(f)
    } else {
        match upd_field(f, ms[0].0, ms[0].1) {
            Some(f2) => fold_fields(ms.drop_first(), f2),
            None => None,
        }
    }
}

/// The client-to-server message denoted by gathered fields: the tag
/// picks the variant, whose fields must all be present; extra fields
/// are ignored.
pub open spec fn msg_of_fields_client(f: FieldsView) -> Option<ClientMsgView> {
    match f.tag {
        None => None,
        Some(t) => {
            if t == "register"@ {
                match (f.slug, f.token) {
                    (Some(slug), Some(token)) => Some(ClientMsgView::Register { slug, token }),
                    _ => None,
                }
            } else if t == "response"@ {
                match (f.id, f.status, f.headers, f.body_b64) {
                    (Some(id), Some(status), Some(headers), Some(body_b64)) => Some(
                        ClientMsgView::Response { id, status, headers, body_b64 },
                    ),
                    _ => None,
                }
            } else if t == "heartbeat"@ {
                Some(ClientMsgView::Heartbeat)
            } else {
                None
            }
        },
    }
}

/// The server-to-client message denoted by gathered fields; a missing
/// `error` member reads as no error.
pub open spec fn msg_of_fields_server(f: FieldsView) -> Option<ServerMsgView> {
    match f.tag {
        None => None,
        Some(t) => {
            if t == "registered"@ {
                match f.ok {
                    Some(ok) => Some(
                        ServerMsgView::Registered {
                            ok,
                            error: match f.error {
                                Some(e) => e,
                                None => None,
                            },
                        },
                    ),
                    None => None,
                }
            } else if t == "request"@ {
                match (f.id, f.method, f.path, f.headers, f.body_b64) {
                    (Some(id), Some(method), Some(path), Some(headers), Some(body_b64)) => Some(
                        ServerMsgView::Request { id, method, path, headers, body_b64 },
                    ),
                    _ => None,
                }
            } else if t == "ping"@ {
                Some(ServerMsgView::Ping)
            } else {
                None
            }
        },
    }
}

/// Parses a complete client-to-server message text: one object, nothing
/// but whitespace around it.
pub open spec fn parse_client_chars(s: Seq<char>) -> Option<ClientMsgView> {
    match p_object(s, p_ws(s, 0)) {
        None => None,
        Some((ms, j)) => {
            if p_ws(s, j) == s.len() {
                match fold_fields(ms, no_fields()) {
                    Some(f) => msg_of_fields_client(f),
                    None => None,
                }
            } else {
                None
            }
        },
    }
}

/// Parses a complete server-to-client message text.
pub open spec fn parse_server_chars(s: Seq<char>) -> Option<ServerMsgView> {
    match p_object(s, p_ws(s, 0)) {
        None => None,
        Some((ms, j)) => {
            if p_ws(s, j) == s.len() {
                match fold_fields(ms, no_fields()) {
                    Some(f) => msg_of_fields_server(f),
                    None => None,
                }
            } else {
                None
            }
        },
    }
}

} // verus!
