//! The printing side of the wire grammar: a JSON encoding of the tagged
//! message variants, written by this library itself so that the round
//! trip `parse(print(m)) == m` is a theorem, not a hope.
//!
//! The printer emits the canonical form: members in a fixed order, no
//! whitespace, strings escaped minimally (`\"`, `\\`, the short control
//! escapes, `\u00xx` for the remaining control characters). The parser
//! in `parse` accepts the full JSON forms of these messages; the
//! canonical print is one text inside that language.

use vstd::prelude::*;
use crate::protocol::{ClientMessage, ServerMessage, ClientMsgView, ServerMsgView, headers_view};
use crate::strutil::{dec_chars, push_dec_u16};
use crate::ext::{str_to_chars, chars_to_string};

verus! {

/// The character for a single hexadecimal digit, lowercase.
pub open spec fn hex_digit(d: nat) -> char
    recommends
        d < 16,
{
    if d < 10 {
        ((48 + d) as u8) as char
    } else {
        ((87 + d) as u8) as char
    }
}

/// How one character appears inside a JSON string literal.
pub open spec fn esc_char(c: char) -> Seq<char> {
    if c == '"' {
        seq!['\\', '"']
    } else if c == '\\' {
        seq!['\\', '\\']
    } else if c as u32 == 8 {
        seq!['\\', 'b']
    } else if c as u32 == 9 {
        seq!['\\', 't']
    } else if c as u32 == 10 {
        seq!['\\', 'n']
    } else if c as u32 == 12 {
        seq!['\\', 'f']
    } else if c as u32 == 13 {
        seq!['\\', 'r']
    } else if (c as u32) < 32 {
        seq!['\\', 'u', '0', '0', hex_digit((c as u32 / 16) as nat), hex_digit(
            (c as u32 % 16) as nat,
        )]
    } else {
        seq![c]
    }
}

/// The escaped body of a JSON string literal.
pub open spec fn esc_seq(s: Seq<char>) -> Seq<char>
    decreases s.len(),
{
    if s.len() == 0 {
        Seq::empty()
    } else {
        esc_char(s[0]) + esc_seq(s.drop_first())
    }
}

/// A JSON string literal: quote, escaped body, quote.
pub open spec fn jstr(s: Seq<char>) -> Seq<char> {
    seq!['"'] + esc_seq(s) + seq!['"']
}

/// One `"name":"value"` member of a string-to-string object.
pub open spec fn jmap_entry(p: (Seq<char>, Seq<char>)) -> Seq<char> {
    jstr(p.0) + seq![':'] + jstr(p.1)
}

/// The comma-separated members of a string-to-string object.
pub open spec fn jmap_body(hs: Seq<(Seq<char>, Seq<char>)>) -> Seq<char>
    decreases hs.len(),
{
    if hs.len() == 0 {
        Seq::empty()
    } else if hs.len() == 1 {
        jmap_entry(hs[0])
    } else {
        jmap_entry(hs[0]) + seq![','] + jmap_body(hs.drop_first())
    }
}

/// A string-to-string JSON object.
pub open spec fn jmap(hs: Seq<(Seq<char>, Seq<char>)>) -> Seq<char> {
    seq!['{'] + jmap_body(hs) + seq!['}']
}

/// A JSON boolean literal.
pub open spec fn jbool(b: bool) -> Seq<char> {
    if b {
        "true"@
    } else {
        "false"@
    }
}

/// A nullable JSON string: `null` for `None`.
pub open spec fn jopt(o: Option<Seq<char>>) -> Seq<char> {
    match o {
        Some(s) => jstr(s),
        None => "null"@,
    }
}

/// The common `{"type":"<tag>"` prefix of every printed message.
pub open spec fn obj_head(tag: Seq<char>) -> Seq<char> {
    seq!['{'] + jstr("type"@) + seq![':'] + jstr(tag)
}

/// A printed `,"name":"value"` member.
pub open spec fn fstr(name: Seq<char>, value: Seq<char>) -> Seq<char> {
    seq![','] + jstr(name) + seq![':'] + jstr(value)
}

/// A printed `,"name":<number>` member.
pub open spec fn fnum(name: Seq<char>, n: u16) -> Seq<char> {
    seq![','] + jstr(name) + seq![':'] + dec_chars(n as nat)
}

/// A printed `,"name":{...}` member.
pub open spec fn fmap(name: Seq<char>, hs: Seq<(Seq<char>, Seq<char>)>) -> Seq<char> {
    seq![','] + jstr(name) + seq![':'] + jmap(hs)
}

/// A printed `,"name":true|false` member.
pub open spec fn fbool(name: Seq<char>, b: bool) -> Seq<char> {
    seq![','] + jstr(name) + seq![':'] + jbool(b)
}

/// A printed `,"name":null|"value"` member.
pub open spec fn fopt(name: Seq<char>, o: Option<Seq<char>>) -> Seq<char> {
    seq![','] + jstr(name) + seq![':'] + jopt(o)
}

/// The canonical JSON text of a client-to-server message.
pub open spec fn print_client(m: ClientMsgView) -> Seq<char> {
    match m {
        ClientMsgView::Register { slug, token } => obj_head("register"@) + fstr("slug"@, slug)
            + fstr("token"@, token) + seq!['}'],
        ClientMsgView::Response { id, status, headers, body_b64 } => obj_head("response"@) + fstr(
            "id"@,
            id,
        ) + fnum("status"@, status) + fmap("headers"@, headers) + fstr("body_b64"@, body_b64)
            + seq!['}'],
        ClientMsgView::Heartbeat => obj_head("heartbeat"@) + seq!['}'],
    }
}

/// The canonical JSON text of a server-to-client message.
pub open spec fn print_server(m: ServerMsgView) -> Seq<char> {
    match m {
        ServerMsgView::Registered { ok, error } => obj_head("registered"@) + fbool("ok"@, ok)
            + fopt("error"@, error) + seq!['}'],
        ServerMsgView::Request { id, method, path, headers, body_b64 } => obj_head("request"@)
            + fstr("id"@, id) + fstr("method"@, method) + fstr("path"@, path) + fmap(
            "headers"@,
            headers,
        ) + fstr("body_b64"@, body_b64) + seq!['}'],
        ServerMsgView::Ping => obj_head("ping"@) + seq!['}'],
    }
}

/// `esc_seq` distributes over appending one character.
pub proof fn lemma_esc_snoc(s: Seq<char>, c: char)
    ensures
        esc_seq(s.push(c)) == esc_seq(s) + esc_char(c),
    decreases s.len(),
{
    if s.len() == 0 {
        assert(s.push(c).drop_first() =~= Seq::<char>::empty());
        assert(s.push(c)[0] == c);
        assert(esc_seq(s) == Seq::<char>::empty());
        assert(esc_seq(s.push(c).drop_first()) == Seq::<char>::empty());
        assert(esc_seq(s.push(c)) =~= esc_seq(s) + esc_char(c));
    } else {
        lemma_esc_snoc(s.drop_first(), c);
        assert(s.push(c).drop_first() =~= s.drop_first().push(c));
        assert(s.push(c)[0] == s[0]);
        assert(esc_seq(s.push(c)) =~= esc_seq(s) + esc_char(c));
    }
}

/// `jmap_body` distributes over appending one member.
pub proof fn lemma_jmap_body_snoc(hs: Seq<(Seq<char>, Seq<char>)>, p: (Seq<char>, Seq<char>))
    requires
        hs.len() >= 1,
    ensures
        jmap_body(hs.push(p)) == jmap_body(hs) + seq![','] + jmap_entry(p),
    decreases hs.len(),
{
    if hs.len() == 1 {
        assert(hs.push(p).drop_first() =~= seq![p]);
        assert(jmap_body(seq![p]) == jmap_entry(p));
        assert(jmap_body(hs.push(p)) =~= jmap_body(hs) + seq![','] + jmap_entry(p));
    } else {
        lemma_jmap_body_snoc(hs.drop_first(), p);
        assert(hs.push(p).drop_first() =~= hs.drop_first().push(p));
        assert(hs.push(p)[0] == hs[0]);
        assert(jmap_body(hs.push(p)) =~= jmap_body(hs) + seq![','] + jmap_entry(p));
    }
}

/// Appends `esc_char(c)` to `out`.
fn push_esc_char(out: &mut Vec<char>, c: char)
    ensures
        final(out)@ == old(out)@ + esc_char(c),
{
    let u = c as u32;
    if c == '"' {
        out.push('\\');
        out.push('"');
    } else if c == '\\' {
        out.push('\\');
        out.push('\\');
    } else if u == 8 {
        out.push('\\');
        out.push('b');
    } else if u == 9 {
        out.push('\\');
        out.push('t');
    } else if u == 10 {
        out.push('\\');
        out.push('n');
    } else if u == 12 {
        out.push('\\');
        out.push('f');
    } else if u == 13 {
        out.push('\\');
        out.push('r');
    } else if u < 32 {
        out.push('\\');
        out.push('u');
        out.push('0');
        out.push('0');
        let hi: u8 = (u / 16) as u8;
        let lo: u8 = (u % 16) as u8;
        let hc: char = if hi < 10 {
            (48 + hi) as char
        } else {
            (87 + hi) as char
        };
        let lc: char = if lo < 10 {
            (48 + lo) as char
        } else {
            (87 + lo) as char
        };
        out.push(hc);
        out.push(lc);
    } else {
        out.push(c);
    }
    proof {
        assert(out@ =~= old(out)@ + esc_char(c));
    }
}

/// Appends the JSON string literal for `s` to `out`.
pub fn push_jstr(out: &mut Vec<char>, s: &str)
    ensures
        final(out)@ == old(out)@ + jstr(s@),
{
    let ghost base = out@;
    out.push('"');
    let cs = str_to_chars(s);
    let mut i: usize = 0;
    while i < cs.len()
        invariant
            i <= cs@.len(),
            cs@ == s@,
            out@ == base + seq!['"'] + esc_seq(s@.take(i as int)),
        decreases cs@.len() - i,
    {
        push_esc_char(out, cs[i]);
        proof {
            assert(s@.take(i + 1) =~= s@.take(i as int).push(s@[i as int]));
            lemma_esc_snoc(s@.take(i as int), s@[i as int]);
            assert(out@ =~= base + seq!['"'] + esc_seq(s@.take(i + 1)));
        }
        i = i + 1;
    }
    out.push('"');
    proof {
        assert(s@.take(s@.len() as int) =~= s@);
        assert(out@ =~= base + jstr(s@));
    }
}

/// Appends the string-to-string JSON object for `hs` to `out`.
pub fn push_jmap(out: &mut Vec<char>, hs: &Vec<(String, String)>)
    ensures
        final(out)@ == old(out)@ + jmap(headers_view(hs@)),
{
    let ghost base = out@;
    let ghost hv = headers_view(hs@);
    out.push('{');
    let mut i: usize = 0;
    while i < hs.len()
        invariant
            i <= hs@.len(),
            hv == headers_view(hs@),
            out@ == base + seq!['{'] + jmap_body(hv.take(i as int)),
        decreases hs@.len() - i,
    {
        if i > 0 {
            out.push(',');
        }
        let ghost before_entry = out@;
        push_jstr(out, hs[i].0.as_str());
        out.push(':');
        push_jstr(out, hs[i].1.as_str());
        proof {
            assert(hv[i as int] == (hs@[i as int].0@, hs@[i as int].1@));
            assert(out@ =~= before_entry + jmap_entry(hv[i as int]));
            assert(hv.take(i + 1) =~= hv.take(i as int).push(hv[i as int]));
            if i == 0 {
                assert(jmap_body(hv.take(1)) == jmap_entry(hv.take(1)[0]));
                assert(out@ =~= base + seq!['{'] + jmap_body(hv.take(i + 1)));
            } else {
                lemma_jmap_body_snoc(hv.take(i as int), hv[i as int]);
                assert(out@ =~= base + seq!['{'] + jmap_body(hv.take(i + 1)));
            }
        }
        i = i + 1;
    }
    out.push('}');
    proof {
        assert(hv.take(hv.len() as int) =~= hv);
        assert(out@ =~= base + jmap(headers_view(hs@)));
    }
}

/// Appends a raw literal word (no escaping) to `out`.
fn push_word(out: &mut Vec<char>, w: &str)
    ensures
        final(out)@ == old(out)@ + w@,
{
    let ghost base = out@;
    let cs = str_to_chars(w);
    let mut i: usize = 0;
    while i < cs.len()
        invariant
            i <= cs@.len(),
            cs@ == w@,
            out@ == base + w@.take(i as int),
        decreases cs@.len() - i,
    {
        out.push(cs[i]);
        proof {
            assert(w@.take(i + 1) =~= w@.take(i as int).push(w@[i as int]));
            assert(out@ =~= base + w@.take(i + 1));
        }
        i = i + 1;
    }
    proof {
        assert(w@.take(w@.len() as int) =~= w@);
    }
}

/// Renders a client-to-server message as its canonical JSON text.
#[verifier::rlimit(60)]
pub fn encode_client(m: &ClientMessage) -> (r: String)
    ensures
        r@ == print_client(m@),
{
    let mut out: Vec<char> = Vec::new();
    out.push('{');
    push_jstr(&mut out, "type");
    out.push(':');
    match m {
        ClientMessage::Register { slug, token } => {
            push_jstr(&mut out, "register");
            out.push(',');
            push_jstr(&mut out, "slug");
            out.push(':');
            push_jstr(&mut out, slug.as_str());
            out.push(',');
            push_jstr(&mut out, "token");
            out.push(':');
            push_jstr(&mut out, token.as_str());
            out.push('}');
        },
        ClientMessage::Response { id, status, headers, body_b64 } => {
            push_jstr(&mut out, "response");
            out.push(',');
            push_jstr(&mut out, "id");
            out.push(':');
            push_jstr(&mut out, id.as_str());
            out.push(',');
            push_jstr(&mut out, "status");
            out.push(':');
            push_dec_u16(&mut out, *status);
            out.push(',');
            push_jstr(&mut out, "headers");
            out.push(':');
            push_jmap(&mut out, headers);
            out.push(',');
            push_jstr(&mut out, "body_b64");
            out.push(':');
            push_jstr(&mut out, body_b64.as_str());
            out.push('}');
        },
        ClientMessage::Heartbeat => {
            push_jstr(&mut out, "heartbeat");
            out.push('}');
        },
    }
    proof {
        assert(out@ =~= print_client(m@));
    }
    chars_to_string(&out)
}

/// Renders a server-to-client message as its canonical JSON text.
#[verifier::rlimit(60)]
pub fn encode_server(m: &ServerMessage) -> (r: String)
    ensures
        r@ == print_server(m@),
{
    let mut out: Vec<char> = Vec::new();
    out.push('{');
    push_jstr(&mut out, "type");
    out.push(':');
    match m {
        ServerMessage::Registered { ok, error } => {
            push_jstr(&mut out, "registered");
            out.push(',');
            push_jstr(&mut out, "ok");
            out.push(':');
            if *ok {
                push_word(&mut out, "true");
            } else {
                push_word(&mut out, "false");
            }
            out.push(',');
            push_jstr(&mut out, "error");
            out.push(':');
            match error {
                Some(e) => push_jstr(&mut out, e.as_str()),
                None => push_word(&mut out, "null"),
            }
            out.push('}');
        },
        ServerMessage::Request { id, method, path, headers, body_b64 } => {
            push_jstr(&mut out, "request");
            out.push(',');
            push_jstr(&mut out, "id");
            out.push(':');
            push_jstr(&mut out, id.as_str());
            out.push(',');
            push_jstr(&mut out, "method");
            out.push(':');
            push_jstr(&mut out, method.as_str());
            out.push(',');
            push_jstr(&mut out, "path");
            out.push(':');
            push_jstr(&mut out, path.as_str());
            out.push(',');
            push_jstr(&mut out, "headers");
            out.push(':');
            push_jmap(&mut out, headers);
            out.push(',');
            push_jstr(&mut out, "body_b64");
            out.push(':');
            push_jstr(&mut out, body_b64.as_str());
            out.push('}');
        },
        ServerMessage::Ping => {
            push_jstr(&mut out, "ping");
            out.push('}');
        },
    }
    proof {
        assert(out@ =~= print_server(m@));
    }
    chars_to_string(&out)
}

} // verus!
