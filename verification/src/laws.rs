//! Round-trip laws of the wire grammar: parsing the canonical print of a
//! message yields that message back, for every message and in particular
//! for arbitrary header maps and string contents.

use vstd::prelude::*;
use crate::json::{
    esc_char, esc_seq, jstr, jmap_entry, jmap_body, jmap, jbool, jopt, print_client, print_server,
    hex_digit, obj_head, fstr, fnum, fmap, fbool, fopt,
};
use crate::parse::{
    seq_at, lemma_seq_at_concat, is_ws, p_ws, is_digit, is_hex_char, hex_val, hex4_ok, hex4_val,
    p_str_body, p_str, p_digits, p_num, p_bool, p_jmap_body, p_jmap, JVal, p_value, p_members,
    p_object, FieldsView, no_fields, upd_field, fold_fields, msg_of_fields_client,
    msg_of_fields_server, parse_client_chars, parse_server_chars,
};
use crate::protocol::{ClientMsgView, ServerMsgView};
use crate::frame::{
    MAX_FRAME_LEN, be_bytes, u32_be, lemma_be_round_trip, client_frame_bytes, server_frame_bytes,
    spec_read_client, spec_read_server,
};
use vstd::utf8::encode_utf8;
use crate::strutil::{digit_char, dec_chars};

verus! {

/// Reads one character out of an occurrence.
pub proof fn lemma_at_idx(s: Seq<char>, i: int, w: Seq<char>, k: int)
    requires
        seq_at(s, i, w),
        0 <= k < w.len(),
    ensures
        s[i + k] == w[k],
{
}

/// Parsing an escaped string body: the parser undoes `esc_seq` exactly,
/// stopping at the closing quote.
#[verifier::rlimit(100)]
pub proof fn lemma_p_str_body_at(s: Seq<char>, i: int, content: Seq<char>, acc: Seq<char>)
    requires
        seq_at(s, i, esc_seq(content)),
        i + esc_seq(content).len() < s.len(),
        s[i + esc_seq(content).len()] == '"',
    ensures
        p_str_body(s, i, acc) == Some((acc + content, i + esc_seq(content).len() + 1)),
    decreases content.len(),
{
    if content.len() == 0 {
        assert(esc_seq(content).len() == 0);
        assert(s[i] == '"');
        assert(acc + content =~= acc);
    } else {
        let c = content[0];
        let rest = content.drop_first();
        assert(esc_seq(content) == esc_char(c) + esc_seq(rest));
        lemma_seq_at_concat(s, i, esc_char(c), esc_seq(rest));
        let elen = esc_char(c).len();
        let i2 = i + elen;
        // The characters of esc_char(c) are at positions i..i2.
        assert(seq_at(s, i, esc_char(c)));
        assert(seq_at(s, i2, esc_seq(rest)));
        assert(esc_seq(content).len() == elen + esc_seq(rest).len());
        lemma_p_str_body_at(s, i2, rest, acc.push(c));
        assert(acc.push(c) + rest =~= acc + content);
        if c == '"' {
            lemma_at_idx(s, i, esc_char(c), 0);
            lemma_at_idx(s, i, esc_char(c), 1);
            assert(s[i] == '\\' && s[i + 1] == '"');
            assert(p_str_body(s, i, acc) == p_str_body(s, i + 2, acc.push('"')));
        } else if c == '\\' {
            lemma_at_idx(s, i, esc_char(c), 0);
            lemma_at_idx(s, i, esc_char(c), 1);
            assert(s[i] == '\\' && s[i + 1] == '\\');
            assert(p_str_body(s, i, acc) == p_str_body(s, i + 2, acc.push('\\')));
        } else if c as u32 == 8 {
            lemma_at_idx(s, i, esc_char(c), 0);
            lemma_at_idx(s, i, esc_char(c), 1);
            assert(s[i] == '\\' && s[i + 1] == 'b');
            vstd::utf8::char_u32_cast(c, c as u32);
            assert((8u8 as char) == c);
            assert(p_str_body(s, i, acc) == p_str_body(s, i + 2, acc.push(8u8 as char)));
        } else if c as u32 == 9 {
            lemma_at_idx(s, i, esc_char(c), 0);
            lemma_at_idx(s, i, esc_char(c), 1);
            assert(s[i] == '\\' && s[i + 1] == 't');
            vstd::utf8::char_u32_cast(c, c as u32);
            assert((9u8 as char) == c);
            assert(p_str_body(s, i, acc) == p_str_body(s, i + 2, acc.push(9u8 as char)));
        } else if c as u32 == 10 {
            lemma_at_idx(s, i, esc_char(c), 0);
            lemma_at_idx(s, i, esc_char(c), 1);
            assert(s[i] == '\\' && s[i + 1] == 'n');
            vstd::utf8::char_u32_cast(c, c as u32);
            assert((10u8 as char) == c);
            assert(p_str_body(s, i, acc) == p_str_body(s, i + 2, acc.push(10u8 as char)));
        } else if c as u32 == 12 {
            lemma_at_idx(s, i, esc_char(c), 0);
            lemma_at_idx(s, i, esc_char(c), 1);
            assert(s[i] == '\\' && s[i + 1] == 'f');
            vstd::utf8::char_u32_cast(c, c as u32);
            assert((12u8 as char) == c);
            assert(p_str_body(s, i, acc) == p_str_body(s, i + 2, acc.push(12u8 as char)));
        } else if c as u32 == 13 {
            lemma_at_idx(s, i, esc_char(c), 0);
            lemma_at_idx(s, i, esc_char(c), 1);
            assert(s[i] == '\\' && s[i + 1] == 'r');
            vstd::utf8::char_u32_cast(c, c as u32);
            assert((13u8 as char) == c);
            assert(p_str_body(s, i, acc) == p_str_body(s, i + 2, acc.push(13u8 as char)));
        } else if (c as u32) < 32 {
            let u = c as u32;
            let hi = (u / 16) as nat;
            let lo = (u % 16) as nat;
            assert(esc_char(c) == seq!['\\', 'u', '0', '0', hex_digit(hi), hex_digit(lo)]);
            lemma_at_idx(s, i, esc_char(c), 0);
            lemma_at_idx(s, i, esc_char(c), 1);
            lemma_at_idx(s, i, esc_char(c), 2);
            lemma_at_idx(s, i, esc_char(c), 3);
            lemma_at_idx(s, i, esc_char(c), 4);
            lemma_at_idx(s, i, esc_char(c), 5);
            assert(s[i] == '\\' && s[i + 1] == 'u' && s[i + 2] == '0' && s[i + 3] == '0');
            assert(s[i + 4] == hex_digit(hi) && s[i + 5] == hex_digit(lo));
            lemma_hex_digit_val(hi);
            lemma_hex_digit_val(lo);
            assert(hex_val('0') == 0);
            assert(hex4_ok(s, i + 2));
            let v = hex4_val(s, i + 2);
            assert(v == hi * 16 + lo);
            assert(v == u);
            assert(v < 0xD800);
            vstd::utf8::char_u32_cast(c, u);
            assert(((v as u32) as char) == c);
            assert(p_str_body(s, i, acc) == p_str_body(s, i + 6, acc.push((v as u32) as char)));
        } else {
            assert(esc_char(c) == seq![c]);
            lemma_at_idx(s, i, esc_char(c), 0);
            assert(s[i] == c);
            assert(p_str_body(s, i, acc) == p_str_body(s, i + 1, acc.push(c)));
        }
    }
}

/// `hex_digit` produces a hexadecimal digit character with that value.
pub proof fn lemma_hex_digit_val(d: nat)
    requires
        d < 16,
    ensures
        is_hex_char(hex_digit(d)),
        hex_val(hex_digit(d)) == d,
{
    if d < 10 {
        assert(hex_digit(d) as u32 == 48 + d);
    } else {
        assert(hex_digit(d) as u32 == 87 + d);
    }
}

/// Parsing a printed string literal yields its content.
pub proof fn lemma_p_str_at(s: Seq<char>, i: int, content: Seq<char>)
    requires
        seq_at(s, i, jstr(content)),
    ensures
        p_str(s, i) == Some((content, i + jstr(content).len())),
{
    assert(jstr(content) == seq!['"'] + esc_seq(content) + seq!['"']);
    lemma_seq_at_concat(s, i, seq!['"'] + esc_seq(content), seq!['"']);
    lemma_seq_at_concat(s, i, seq!['"'], esc_seq(content));
    lemma_at_idx(s, i, seq!['"'], 0);
    assert(s[i] == '"');
    lemma_at_idx(s, i + 1 + esc_seq(content).len(), seq!['"'], 0);
    assert(s[i + 1 + esc_seq(content).len()] == '"');
    lemma_p_str_body_at(s, i + 1, content, Seq::empty());
    assert(Seq::empty() + content =~= content);
    assert(jstr(content).len() == esc_seq(content).len() + 2);
}


/// Powers of ten.
pub open spec fn pow10(k: nat) -> nat
    decreases k,
{
    if k == 0 {
        1
    } else {
        10 * pow10((k - 1) as nat)
    }
}

/// Powers of ten are positive.
pub proof fn lemma_pow10_pos(k: nat)
    ensures
        pow10(k) >= 1,
    decreases k,
{
    if k > 0 {
        lemma_pow10_pos((k - 1) as nat);
    }
}

/// The decimal rendering is nonempty.
pub proof fn lemma_dec_len_pos(n: nat)
    ensures
        dec_chars(n).len() >= 1,
    decreases n,
{
    if n >= 10 {
        lemma_dec_len_pos(n / 10);
    }
}

/// The leading digit of a positive number is not `0`.
pub proof fn lemma_dec_leading(n: nat)
    requires
        n >= 1,
    ensures
        is_digit(dec_chars(n)[0]),
        dec_chars(n)[0] != '0',
    decreases n,
{
    if n < 10 {
        assert(dec_chars(n)[0] == digit_char(n));
        assert(digit_char(n) as u32 == 48 + n);
        assert('0' as u32 == 48);
    } else {
        lemma_dec_leading(n / 10);
        lemma_dec_len_pos(n / 10);
        assert(dec_chars(n) == dec_chars(n / 10).push(digit_char(n % 10)));
        assert(dec_chars(n)[0] == dec_chars(n / 10)[0]);
    }
}

/// Consuming a printed number: the digit parser walks over `dec_chars(n)`
/// and continues with the accumulated value.
pub proof fn lemma_p_digits_at(s: Seq<char>, i: int, acc: nat, n: nat)
    requires
        seq_at(s, i, dec_chars(n)),
        acc * pow10(dec_chars(n).len() as nat) + n <= 65535,
    ensures
        p_digits(s, i, acc) == p_digits(
            s,
            i + dec_chars(n).len(),
            (acc * pow10(dec_chars(n).len() as nat) + n) as nat,
        ),
    decreases n,
{
    if n < 10 {
        lemma_at_idx(s, i, dec_chars(n), 0);
        assert(dec_chars(n)[0] == digit_char(n));
        assert(digit_char(n) as u32 == 48 + n);
        assert(is_digit(s[i]));
        assert(pow10(1) == 10 * pow10(0));
        assert(pow10(0) == 1);
        assert(s[i] as u32 - 48 == n);
        assert(acc * 10 + n <= 65535);
        assert(p_digits(s, i, acc) == p_digits(s, i + 1, (acc * 10 + n) as nat));
    } else {
        let q = n / 10;
        let m = n % 10;
        let pre = dec_chars(q);
        let d = digit_char(m);
        let lp = pre.len();
        assert(dec_chars(n) == pre.push(d));
        assert(pre.push(d) =~= pre + seq![d]);
        lemma_seq_at_concat(s, i, pre, seq![d]);
        assert(seq_at(s, i, pre));
        lemma_at_idx(s, i + lp, seq![d], 0);
        assert(s[i + lp] == d);
        let p1 = pow10(lp as nat);
        lemma_pow10_pos(lp as nat);
        assert(dec_chars(n).len() == lp + 1);
        assert(pow10((lp + 1) as nat) == 10 * p1);
        vstd::arithmetic::div_mod::lemma_fundamental_div_mod(n as int, 10);
        assert(n == 10 * q + m);
        assert(acc * p1 + q <= 65535) by (nonlinear_arith)
            requires
                acc * (10 * p1) + n <= 65535,
                n == 10 * q + m,
                m >= 0,
                p1 >= 1,
                acc >= 0,
                q >= 0,
        ;
        lemma_p_digits_at(s, i, acc, q);
        let a2 = (acc * p1 + q) as nat;
        assert(p_digits(s, i, acc) == p_digits(s, i + lp, a2));
        assert(digit_char(m) as u32 == 48 + m);
        assert(is_digit(s[i + lp]));
        assert(s[i + lp] as u32 - 48 == m);
        assert(a2 * 10 + m == acc * (10 * p1) + n) by (nonlinear_arith)
            requires
                a2 == acc * p1 + q,
                n == 10 * q + m,
        ;
        assert(a2 * 10 + m <= 65535);
        assert(p_digits(s, i + lp, a2) == p_digits(s, i + lp + 1, (a2 * 10 + m) as nat));
    }
}

/// Parsing a printed number yields its value.
pub proof fn lemma_p_num_at(s: Seq<char>, i: int, n: u16)
    requires
        seq_at(s, i, dec_chars(n as nat)),
        i + dec_chars(n as nat).len() < s.len(),
        !is_digit(s[i + dec_chars(n as nat).len()]),
    ensures
        p_num(s, i) == Some((n, i + dec_chars(n as nat).len())),
{
    let ln = dec_chars(n as nat).len();
    if n == 0 {
        lemma_at_idx(s, i, dec_chars(0), 0);
        assert(dec_chars(0)[0] == digit_char(0));
        assert(digit_char(0) as u32 == 48);
        assert('0' as u32 == 48);
        vstd::utf8::char_u32_cast(s[i], s[i] as u32);
        vstd::utf8::char_u32_cast('0', 48);
        assert(s[i] == '0');
        assert(ln == 1);
    } else {
        lemma_dec_leading(n as nat);
        lemma_at_idx(s, i, dec_chars(n as nat), 0);
        assert(is_digit(s[i]));
        assert(s[i] != '0');
        lemma_pow10_pos(ln as nat);
        assert(0 * pow10(ln as nat) == 0) by (nonlinear_arith);
        lemma_p_digits_at(s, i, 0, n as nat);
        assert(p_digits(s, i, 0) == p_digits(s, i + ln, n as nat));
        assert(p_digits(s, i + ln, n as nat) == Some(((n as nat), i + ln)));
    }
}

/// Parsing a printed boolean.
pub proof fn lemma_p_bool_at(s: Seq<char>, i: int, b: bool)
    requires
        seq_at(s, i, jbool(b)),
    ensures
        p_bool(s, i) == Some((b, i + jbool(b).len())),
{
    proof_strlit_bools();
    if b {
        assert(seq_at(s, i, "true"@));
    } else {
        assert(seq_at(s, i, "false"@));
        lemma_at_idx(s, i, "false"@, 0);
        if seq_at(s, i, "true"@) {
            lemma_at_idx(s, i, "true"@, 0);
            assert(false);
        }
    }
}

/// Reveals the boolean and null literals.
proof fn proof_strlit_bools()
    ensures
        ("true"@).len() == 4,
        ("true"@)[0] == 't',
        ("false"@).len() == 5,
        ("false"@)[0] == 'f',
        ("null"@).len() == 4,
        ("null"@)[0] == 'n',
{
    reveal_strlit("true");
    reveal_strlit("false");
    reveal_strlit("null");
}

/// Every member list is at least as long as its member count.
pub proof fn lemma_jmap_body_len(hs: Seq<(Seq<char>, Seq<char>)>)
    ensures
        jmap_body(hs).len() >= hs.len(),
    decreases hs.len(),
{
    if hs.len() == 0 {
    } else if hs.len() == 1 {
        assert(jmap_entry(hs[0]).len() >= 5);
    } else {
        lemma_jmap_body_len(hs.drop_first());
        assert(jmap_entry(hs[0]).len() >= 5);
    }
}

/// Parsing printed object members: the member parser undoes `jmap_body`.
pub proof fn lemma_p_jmap_body_at(
    s: Seq<char>,
    i: int,
    hs: Seq<(Seq<char>, Seq<char>)>,
    acc: Seq<(Seq<char>, Seq<char>)>,
    fuel: nat,
)
    requires
        hs.len() >= 1,
        fuel >= hs.len(),
        seq_at(s, i, jmap_body(hs)),
        i + jmap_body(hs).len() < s.len(),
        s[i + jmap_body(hs).len()] == '}',
    ensures
        p_jmap_body(s, i, acc, fuel) == Some((acc + hs, i + jmap_body(hs).len() + 1)),
    decreases hs.len(),
{
    let p = hs[0];
    let e = jmap_entry(p);
    assert(e == jstr(p.0) + seq![':'] + jstr(p.1));
    if hs.len() == 1 {
        assert(jmap_body(hs) == e);
        lemma_seq_at_concat(s, i, jstr(p.0) + seq![':'], jstr(p.1));
        lemma_seq_at_concat(s, i, jstr(p.0), seq![':']);
        lemma_p_str_at(s, i, p.0);
        let j = i + jstr(p.0).len();
        lemma_at_idx(s, j, seq![':'], 0);
        assert(s[j] == ':');
        assert(p_ws(s, j) == j);
        lemma_at_idx(s, j + 1, jstr(p.1), 0);
        assert(s[j + 1] == '"');
        assert(p_ws(s, j + 1) == j + 1);
        lemma_p_str_at(s, j + 1, p.1);
        let j2 = j + 1 + jstr(p.1).len();
        assert(j2 == i + e.len());
        assert(s[j2] == '}');
        assert(p_ws(s, j2) == j2);
        assert(p_jmap_body(s, i, acc, fuel) == Some((acc.push((p.0, p.1)), j2 + 1)));
        assert((p.0, p.1) == p);
        assert(acc.push(p) =~= acc + hs);
    } else {
        let rest = hs.drop_first();
        assert(jmap_body(hs) == e + seq![','] + jmap_body(rest));
        lemma_seq_at_concat(s, i, e + seq![','], jmap_body(rest));
        lemma_seq_at_concat(s, i, e, seq![',']);
        lemma_seq_at_concat(s, i, jstr(p.0) + seq![':'], jstr(p.1));
        lemma_seq_at_concat(s, i, jstr(p.0), seq![':']);
        lemma_p_str_at(s, i, p.0);
        let j = i + jstr(p.0).len();
        lemma_at_idx(s, j, seq![':'], 0);
        assert(s[j] == ':');
        assert(p_ws(s, j) == j);
        lemma_at_idx(s, j + 1, jstr(p.1), 0);
        assert(s[j + 1] == '"');
        assert(p_ws(s, j + 1) == j + 1);
        lemma_p_str_at(s, j + 1, p.1);
        let j2 = j + 1 + jstr(p.1).len();
        assert(j2 == i + e.len());
        lemma_at_idx(s, i + e.len(), seq![','], 0);
        assert(s[j2] == ',');
        assert(p_ws(s, j2) == j2);
        assert(rest.len() >= 1);
        assert(jmap_body(rest)[0] == jmap_entry(rest[0])[0]);
        assert(jmap_entry(rest[0]) == jstr(rest[0].0) + seq![':'] + jstr(rest[0].1));
        assert(jmap_entry(rest[0])[0] == jstr(rest[0].0)[0]);
        assert(jstr(rest[0].0)[0] == '"');
        lemma_at_idx(s, j2 + 1, jmap_body(rest), 0);
        assert(s[j2 + 1] == '"');
        assert(p_ws(s, j2 + 1) == j2 + 1);
        lemma_p_jmap_body_at(s, j2 + 1, rest, acc.push(p), (fuel - 1) as nat);
        assert((p.0, p.1) == p);
        assert(acc.push(p) + rest =~= acc + hs);
        assert(p_jmap_body(s, i, acc, fuel) == p_jmap_body(s, j2 + 1, acc.push(p), (fuel - 1) as nat));
    }
}

/// Parsing a printed string-to-string object yields its members.
pub proof fn lemma_p_jmap_at(s: Seq<char>, i: int, hs: Seq<(Seq<char>, Seq<char>)>)
    requires
        seq_at(s, i, jmap(hs)),
    ensures
        p_jmap(s, i) == Some((hs, i + jmap(hs).len())),
{
    let body = jmap_body(hs);
    assert(jmap(hs) == seq!['{'] + body + seq!['}']);
    lemma_seq_at_concat(s, i, seq!['{'] + body, seq!['}']);
    lemma_seq_at_concat(s, i, seq!['{'], body);
    lemma_at_idx(s, i, seq!['{'], 0);
    assert(s[i] == '{');
    lemma_at_idx(s, i + 1 + body.len(), seq!['}'], 0);
    assert(s[i + 1 + body.len()] == '}');
    if hs.len() == 0 {
        assert(body.len() == 0);
        assert(s[i + 1] == '}');
        assert(p_ws(s, i + 1) == i + 1);
        assert(hs =~= Seq::<(Seq<char>, Seq<char>)>::empty());
    } else {
        lemma_jmap_body_len(hs);
        assert(jmap_entry(hs[0]).len() >= 5);
        if hs.len() == 1 {
            assert(body == jmap_entry(hs[0]));
        } else {
            assert(body == jmap_entry(hs[0]) + seq![','] + jmap_body(hs.drop_first()));
        }
        assert(body[0] == jmap_entry(hs[0])[0]);
        assert(jmap_entry(hs[0]) == jstr(hs[0].0) + seq![':'] + jstr(hs[0].1));
        assert(jmap_entry(hs[0])[0] == jstr(hs[0].0)[0]);
        assert(jstr(hs[0].0)[0] == '"');
        lemma_at_idx(s, i + 1, body, 0);
        assert(s[i + 1] == '"');
        assert(p_ws(s, i + 1) == i + 1);
        assert(s.len() as nat >= hs.len());
        lemma_p_jmap_body_at(s, i + 1, hs, Seq::empty(), s.len() as nat);
        assert(Seq::empty() + hs =~= hs);
    }
}


/// The member names of the wire grammar are pairwise distinct.
proof fn lemma_field_names()
    ensures
        "slug"@ != "type"@,
        "token"@ != "type"@,
        "token"@ != "slug"@,
        "id"@ != "type"@,
        "id"@ != "slug"@,
        "id"@ != "token"@,
        "method"@ != "type"@,
        "method"@ != "slug"@,
        "method"@ != "token"@,
        "method"@ != "id"@,
        "path"@ != "type"@,
        "path"@ != "slug"@,
        "path"@ != "token"@,
        "path"@ != "id"@,
        "path"@ != "method"@,
        "body_b64"@ != "type"@,
        "body_b64"@ != "slug"@,
        "body_b64"@ != "token"@,
        "body_b64"@ != "id"@,
        "body_b64"@ != "method"@,
        "body_b64"@ != "path"@,
        "status"@ != "type"@,
        "status"@ != "slug"@,
        "status"@ != "token"@,
        "status"@ != "id"@,
        "status"@ != "method"@,
        "status"@ != "path"@,
        "status"@ != "body_b64"@,
        "ok"@ != "type"@,
        "ok"@ != "slug"@,
        "ok"@ != "token"@,
        "ok"@ != "id"@,
        "ok"@ != "method"@,
        "ok"@ != "path"@,
        "ok"@ != "body_b64"@,
        "ok"@ != "status"@,
        "error"@ != "type"@,
        "error"@ != "slug"@,
        "error"@ != "token"@,
        "error"@ != "id"@,
        "error"@ != "method"@,
        "error"@ != "path"@,
        "error"@ != "body_b64"@,
        "error"@ != "status"@,
        "error"@ != "ok"@,
        "headers"@ != "type"@,
        "headers"@ != "slug"@,
        "headers"@ != "token"@,
        "headers"@ != "id"@,
        "headers"@ != "method"@,
        "headers"@ != "path"@,
        "headers"@ != "body_b64"@,
        "headers"@ != "status"@,
        "headers"@ != "ok"@,
        "headers"@ != "error"@,
{
    reveal_strlit("type");
    reveal_strlit("slug");
    reveal_strlit("token");
    reveal_strlit("id");
    reveal_strlit("method");
    reveal_strlit("path");
    reveal_strlit("body_b64");
    reveal_strlit("status");
    reveal_strlit("ok");
    reveal_strlit("error");
    reveal_strlit("headers");
    if "slug"@ == "type"@ {
        assert(("slug"@).len() == ("type"@).len());
        assert(("slug"@)[0] == ("type"@)[0]);
        assert(false);
    }
    if "token"@ == "type"@ {
        assert(("token"@).len() == ("type"@).len());
        assert(("token"@)[0] == ("type"@)[0]);
        assert(false);
    }
    if "token"@ == "slug"@ {
        assert(("token"@).len() == ("slug"@).len());
        assert(("token"@)[0] == ("slug"@)[0]);
        assert(false);
    }
    if "id"@ == "type"@ {
        assert(("id"@).len() == ("type"@).len());
        assert(("id"@)[0] == ("type"@)[0]);
        assert(false);
    }
    if "id"@ == "slug"@ {
        assert(("id"@).len() == ("slug"@).len());
        assert(("id"@)[0] == ("slug"@)[0]);
        assert(false);
    }
    if "id"@ == "token"@ {
        assert(("id"@).len() == ("token"@).len());
        assert(("id"@)[0] == ("token"@)[0]);
        assert(false);
    }
    if "method"@ == "type"@ {
        assert(("method"@).len() == ("type"@).len());
        assert(("method"@)[0] == ("type"@)[0]);
        assert(false);
    }
    if "method"@ == "slug"@ {
        assert(("method"@).len() == ("slug"@).len());
        assert(("method"@)[0] == ("slug"@)[0]);
        assert(false);
    }
    if "method"@ == "token"@ {
        assert(("method"@).len() == ("token"@).len());
        assert(("method"@)[0] == ("token"@)[0]);
        assert(false);
    }
    if "method"@ == "id"@ {
        assert(("method"@).len() == ("id"@).len());
        assert(("method"@)[0] == ("id"@)[0]);
        assert(false);
    }
    if "path"@ == "type"@ {
        assert(("path"@).len() == ("type"@).len());
        assert(("path"@)[0] == ("type"@)[0]);
        assert(false);
    }
    if "path"@ == "slug"@ {
        assert(("path"@).len() == ("slug"@).len());
        assert(("path"@)[0] == ("slug"@)[0]);
        assert(false);
    }
    if "path"@ == "token"@ {
        assert(("path"@).len() == ("token"@).len());
        assert(("path"@)[0] == ("token"@)[0]);
        assert(false);
    }
    if "path"@ == "id"@ {
        assert(("path"@).len() == ("id"@).len());
        assert(("path"@)[0] == ("id"@)[0]);
        assert(false);
    }
    if "path"@ == "method"@ {
        assert(("path"@).len() == ("method"@).len());
        assert(("path"@)[0] == ("method"@)[0]);
        assert(false);
    }
    if "body_b64"@ == "type"@ {
        assert(("body_b64"@).len() == ("type"@).len());
        assert(("body_b64"@)[0] == ("type"@)[0]);
        assert(false);
    }
    if "body_b64"@ == "slug"@ {
        assert(("body_b64"@).len() == ("slug"@).len());
        assert(("body_b64"@)[0] == ("slug"@)[0]);
        assert(false);
    }
    if "body_b64"@ == "token"@ {
        assert(("body_b64"@).len() == ("token"@).len());
        assert(("body_b64"@)[0] == ("token"@)[0]);
        assert(false);
    }
    if "body_b64"@ == "id"@ {
        assert(("body_b64"@).len() == ("id"@).len());
        assert(("body_b64"@)[0] == ("id"@)[0]);
        assert(false);
    }
    if "body_b64"@ == "method"@ {
        assert(("body_b64"@).len() == ("method"@).len());
        assert(("body_b64"@)[0] == ("method"@)[0]);
        assert(false);
    }
    if "body_b64"@ == "path"@ {
        assert(("body_b64"@).len() == ("path"@).len());
        assert(("body_b64"@)[0] == ("path"@)[0]);
        assert(false);
    }
    if "status"@ == "type"@ {
        assert(("status"@).len() == ("type"@).len());
        assert(("status"@)[0] == ("type"@)[0]);
        assert(false);
    }
    if "status"@ == "slug"@ {
        assert(("status"@).len() == ("slug"@).len());
        assert(("status"@)[0] == ("slug"@)[0]);
        assert(false);
    }
    if "status"@ == "token"@ {
        assert(("status"@).len() == ("token"@).len());
        assert(("status"@)[0] == ("token"@)[0]);
        assert(false);
    }
    if "status"@ == "id"@ {
        assert(("status"@).len() == ("id"@).len());
        assert(("status"@)[0] == ("id"@)[0]);
        assert(false);
    }
    if "status"@ == "method"@ {
        assert(("status"@).len() == ("method"@).len());
        assert(("status"@)[0] == ("method"@)[0]);
        assert(false);
    }
    if "status"@ == "path"@ {
        assert(("status"@).len() == ("path"@).len());
        assert(("status"@)[0] == ("path"@)[0]);
        assert(false);
    }
    if "status"@ == "body_b64"@ {
        assert(("status"@).len() == ("body_b64"@).len());
        assert(("status"@)[0] == ("body_b64"@)[0]);
        assert(false);
    }
    if "ok"@ == "type"@ {
        assert(("ok"@).len() == ("type"@).len());
        assert(("ok"@)[0] == ("type"@)[0]);
        assert(false);
    }
    if "ok"@ == "slug"@ {
        assert(("ok"@).len() == ("slug"@).len());
        assert(("ok"@)[0] == ("slug"@)[0]);
        assert(false);
    }
    if "ok"@ == "token"@ {
        assert(("ok"@).len() == ("token"@).len());
        assert(("ok"@)[0] == ("token"@)[0]);
        assert(false);
    }
    if "ok"@ == "id"@ {
        assert(("ok"@).len() == ("id"@).len());
        assert(("ok"@)[0] == ("id"@)[0]);
        assert(false);
    }
    if "ok"@ == "method"@ {
        assert(("ok"@).len() == ("method"@).len());
        assert(("ok"@)[0] == ("method"@)[0]);
        assert(false);
    }
    if "ok"@ == "path"@ {
        assert(("ok"@).len() == ("path"@).len());
        assert(("ok"@)[0] == ("path"@)[0]);
        assert(false);
    }
    if "ok"@ == "body_b64"@ {
        assert(("ok"@).len() == ("body_b64"@).len());
        assert(("ok"@)[0] == ("body_b64"@)[0]);
        assert(false);
    }
    if "ok"@ == "status"@ {
        assert(("ok"@).len() == ("status"@).len());
        assert(("ok"@)[0] == ("status"@)[0]);
        assert(false);
    }
    if "error"@ == "type"@ {
        assert(("error"@).len() == ("type"@).len());
        assert(("error"@)[0] == ("type"@)[0]);
        assert(false);
    }
    if "error"@ == "slug"@ {
        assert(("error"@).len() == ("slug"@).len());
        assert(("error"@)[0] == ("slug"@)[0]);
        assert(false);
    }
    if "error"@ == "token"@ {
        assert(("error"@).len() == ("token"@).len());
        assert(("error"@)[0] == ("token"@)[0]);
        assert(false);
    }
    if "error"@ == "id"@ {
        assert(("error"@).len() == ("id"@).len());
        assert(("error"@)[0] == ("id"@)[0]);
        assert(false);
    }
    if "error"@ == "method"@ {
        assert(("error"@).len() == ("method"@).len());
        assert(("error"@)[0] == ("method"@)[0]);
        assert(false);
    }
    if "error"@ == "path"@ {
        assert(("error"@).len() == ("path"@).len());
        assert(("error"@)[0] == ("path"@)[0]);
        assert(false);
    }
    if "error"@ == "body_b64"@ {
        assert(("error"@).len() == ("body_b64"@).len());
        assert(("error"@)[0] == ("body_b64"@)[0]);
        assert(false);
    }
    if "error"@ == "status"@ {
        assert(("error"@).len() == ("status"@).len());
        assert(("error"@)[0] == ("status"@)[0]);
        assert(false);
    }
    if "error"@ == "ok"@ {
        assert(("error"@).len() == ("ok"@).len());
        assert(("error"@)[0] == ("ok"@)[0]);
        assert(false);
    }
    if "headers"@ == "type"@ {
        assert(("headers"@).len() == ("type"@).len());
        assert(("headers"@)[0] == ("type"@)[0]);
        assert(false);
    }
    if "headers"@ == "slug"@ {
        assert(("headers"@).len() == ("slug"@).len());
        assert(("headers"@)[0] == ("slug"@)[0]);
        assert(false);
    }
    if "headers"@ == "token"@ {
        assert(("headers"@).len() == ("token"@).len());
        assert(("headers"@)[0] == ("token"@)[0]);
        assert(false);
    }
    if "headers"@ == "id"@ {
        assert(("headers"@).len() == ("id"@).len());
        assert(("headers"@)[0] == ("id"@)[0]);
        assert(false);
    }
    if "headers"@ == "method"@ {
        assert(("headers"@).len() == ("method"@).len());
        assert(("headers"@)[0] == ("method"@)[0]);
        assert(false);
    }
    if "headers"@ == "path"@ {
        assert(("headers"@).len() == ("path"@).len());
        assert(("headers"@)[0] == ("path"@)[0]);
        assert(false);
    }
    if "headers"@ == "body_b64"@ {
        assert(("headers"@).len() == ("body_b64"@).len());
        assert(("headers"@)[0] == ("body_b64"@)[0]);
        assert(false);
    }
    if "headers"@ == "status"@ {
        assert(("headers"@).len() == ("status"@).len());
        assert(("headers"@)[0] == ("status"@)[0]);
        assert(false);
    }
    if "headers"@ == "ok"@ {
        assert(("headers"@).len() == ("ok"@).len());
        assert(("headers"@)[0] == ("ok"@)[0]);
        assert(false);
    }
    if "headers"@ == "error"@ {
        assert(("headers"@).len() == ("error"@).len());
        assert(("headers"@)[0] == ("error"@)[0]);
        assert(false);
    }
}

/// A printed string is one value.
proof fn lemma_p_value_str(s: Seq<char>, i: int, content: Seq<char>)
    requires
        seq_at(s, i, jstr(content)),
    ensures
        p_value(s, i) == Some((JVal::JStr(content), i + jstr(content).len())),
{
    lemma_at_idx(s, i, jstr(content), 0);
    assert(jstr(content)[0] == '"');
    assert(s[i] == '"');
    lemma_p_str_at(s, i, content);
}

/// A printed number is one value.
proof fn lemma_p_value_num(s: Seq<char>, i: int, n: u16)
    requires
        seq_at(s, i, dec_chars(n as nat)),
        i + dec_chars(n as nat).len() < s.len(),
        !is_digit(s[i + dec_chars(n as nat).len()]),
    ensures
        p_value(s, i) == Some((JVal::JNum(n), i + dec_chars(n as nat).len())),
{
    lemma_at_idx(s, i, dec_chars(n as nat), 0);
    if n == 0 {
        assert(dec_chars(0)[0] == digit_char(0));
        assert(digit_char(0) as u32 == 48);
    } else {
        lemma_dec_leading(n as nat);
    }
    assert(is_digit(s[i]));
    lemma_p_num_at(s, i, n);
}

/// A printed boolean is one value.
proof fn lemma_p_value_bool(s: Seq<char>, i: int, b: bool)
    requires
        seq_at(s, i, jbool(b)),
    ensures
        p_value(s, i) == Some((JVal::JBool(b), i + jbool(b).len())),
{
    proof_strlit_bools();
    lemma_at_idx(s, i, jbool(b), 0);
    lemma_p_bool_at(s, i, b);
}

/// A printed nullable string is one value: a string, or `null`.
proof fn lemma_p_value_opt(s: Seq<char>, i: int, o: Option<Seq<char>>)
    requires
        seq_at(s, i, jopt(o)),
    ensures
        p_value(s, i) == Some(
            (
                match o {
                    Some(v) => JVal::JStr(v),
                    None => JVal::JNull,
                },
                i + jopt(o).len(),
            ),
        ),
{
    proof_strlit_bools();
    match o {
        Some(v) => {
            lemma_p_value_str(s, i, v);
        },
        None => {
            lemma_at_idx(s, i, "null"@, 0);
            assert(s[i] == 'n');
        },
    }
}

/// A printed string-to-string object is one value.
proof fn lemma_p_value_map(s: Seq<char>, i: int, hs: Seq<(Seq<char>, Seq<char>)>)
    requires
        seq_at(s, i, jmap(hs)),
    ensures
        p_value(s, i) == Some((JVal::JMap(hs), i + jmap(hs).len())),
{
    lemma_at_idx(s, i, jmap(hs), 0);
    assert(jmap(hs)[0] == '{');
    assert(s[i] == '{');
    lemma_p_jmap_at(s, i, hs);
}

/// The shape of a printed `,"name":<value>` member: the comma, the
/// quote opening the name, and the member text after the comma.
proof fn lemma_member_parts(s: Seq<char>, e: int, name: Seq<char>, vtext: Seq<char>)
    requires
        seq_at(s, e, seq![','] + jstr(name) + seq![':'] + vtext),
    ensures
        s[e] == ',',
        s[e + 1] == '"',
        seq_at(s, e + 1, jstr(name) + seq![':'] + vtext),
{
    lemma_seq_at_concat(s, e, seq![','] + jstr(name) + seq![':'], vtext);
    lemma_seq_at_concat(s, e, seq![','] + jstr(name), seq![':']);
    lemma_seq_at_concat(s, e, seq![','], jstr(name));
    lemma_at_idx(s, e, seq![','], 0);
    lemma_at_idx(s, e + 1, jstr(name), 0);
    assert(jstr(name)[0] == '"');
    lemma_seq_at_concat(s, e + 1, jstr(name), seq![':']);
    lemma_seq_at_concat(s, e + 1, jstr(name) + seq![':'], vtext);
}

/// The shape of the printed object head: the brace, the quote opening
/// the tag member name, and the tag member's text.
proof fn lemma_head_parts(s: Seq<char>, tag: Seq<char>)
    requires
        seq_at(s, 0, obj_head(tag)),
    ensures
        s[0] == '{',
        s[1] == '"',
        seq_at(s, 1, jstr("type"@) + seq![':'] + jstr(tag)),
{
    lemma_seq_at_concat(s, 0, seq!['{'] + jstr("type"@) + seq![':'], jstr(tag));
    lemma_seq_at_concat(s, 0, seq!['{'] + jstr("type"@), seq![':']);
    lemma_seq_at_concat(s, 0, seq!['{'], jstr("type"@));
    lemma_at_idx(s, 0, seq!['{'], 0);
    lemma_at_idx(s, 1, jstr("type"@), 0);
    assert(jstr("type"@)[0] == '"');
    lemma_seq_at_concat(s, 1, jstr("type"@), seq![':']);
    lemma_seq_at_concat(s, 1, jstr("type"@) + seq![':'], jstr(tag));
}

/// One step of the member loop over a printed member: the key is read,
/// the value is the one the text prints, and the loop continues after
/// the separator (or closes on the final brace).
proof fn lemma_p_members_step(
    s: Seq<char>,
    i: int,
    name: Seq<char>,
    vtext: Seq<char>,
    val: JVal,
    acc: Seq<(Seq<char>, JVal)>,
    fuel: nat,
)
    requires
        fuel >= 1,
        seq_at(s, i, jstr(name) + seq![':'] + vtext),
        vtext.len() >= 1,
        !is_ws(vtext[0]),
        p_value(s, i + jstr(name).len() + 1) == Some(
            (val, i + jstr(name).len() + 1 + vtext.len()),
        ),
        i + jstr(name).len() + 1 + vtext.len() < s.len(),
    ensures
        s[i + jstr(name).len() + 1 + vtext.len()] == ',' ==> p_members(s, i, acc, fuel)
            == p_members(
            s,
            p_ws(s, i + jstr(name).len() + 1 + vtext.len() + 1),
            acc.push((name, val)),
            (fuel - 1) as nat,
        ),
        s[i + jstr(name).len() + 1 + vtext.len()] == '}' ==> p_members(s, i, acc, fuel) == Some(
            (acc.push((name, val)), i + jstr(name).len() + 1 + vtext.len() + 1),
        ),
{
    let nl = jstr(name).len() as int;
    lemma_seq_at_concat(s, i, jstr(name) + seq![':'], vtext);
    lemma_seq_at_concat(s, i, jstr(name), seq![':']);
    lemma_p_str_at(s, i, name);
    lemma_at_idx(s, i + nl, seq![':'], 0);
    assert(s[i + nl] == ':');
    assert(p_ws(s, i + nl) == i + nl);
    lemma_at_idx(s, i + nl + 1, vtext, 0);
    assert(s[i + nl + 1] == vtext[0]);
    assert(p_ws(s, i + nl + 1) == i + nl + 1);
    let e = i + nl + 1 + vtext.len();
    if s[e] == ',' {
        assert(p_ws(s, e) == e);
    }
    if s[e] == '}' {
        assert(p_ws(s, e) == e);
    }
}


/// One member step over a printed `,"name":"value"` member.
#[verifier::rlimit(100)]
proof fn lemma_step_fstr(
    s: Seq<char>,
    c: int,
    name: Seq<char>,
    content: Seq<char>,
    acc: Seq<(Seq<char>, JVal)>,
    fuel: nat,
)
    requires
        fuel >= 1,
        seq_at(s, c, fstr(name, content)),
        c + fstr(name, content).len() < s.len(),
    ensures
        s[c] == ',' && s[c + 1] == '"',
        s[c + fstr(name, content).len()] == ',' ==> p_members(s, c + 1, acc, fuel) == p_members(
            s,
            p_ws(s, c + fstr(name, content).len() + 1),
            acc.push((name, JVal::JStr(content))),
            (fuel - 1) as nat,
        ),
        s[c + fstr(name, content).len()] == '}' ==> p_members(s, c + 1, acc, fuel) == Some(
            (acc.push((name, JVal::JStr(content))), c + fstr(name, content).len() + 1),
        ),
{
    lemma_member_parts(s, c, name, jstr(content));
    let nl = jstr(name).len() as int;
    assert(jstr(content)[0] == '"' && jstr(content).len() >= 2);
    lemma_seq_at_concat(s, c + 1, jstr(name) + seq![':'], jstr(content));
    lemma_p_value_str(s, c + 2 + nl, content);
    lemma_p_members_step(s, c + 1, name, jstr(content), JVal::JStr(content), acc, fuel);
    assert(c + 1 + nl + 1 + jstr(content).len() == c + fstr(name, content).len());
}

/// One member step over a printed `,"name":<number>` member.
#[verifier::rlimit(100)]
proof fn lemma_step_fnum(
    s: Seq<char>,
    c: int,
    name: Seq<char>,
    n: u16,
    acc: Seq<(Seq<char>, JVal)>,
    fuel: nat,
)
    requires
        fuel >= 1,
        seq_at(s, c, fnum(name, n)),
        c + fnum(name, n).len() < s.len(),
        s[c + fnum(name, n).len()] == ',' || s[c + fnum(name, n).len()] == '}',
    ensures
        s[c] == ',' && s[c + 1] == '"',
        s[c + fnum(name, n).len()] == ',' ==> p_members(s, c + 1, acc, fuel) == p_members(
            s,
            p_ws(s, c + fnum(name, n).len() + 1),
            acc.push((name, JVal::JNum(n))),
            (fuel - 1) as nat,
        ),
        s[c + fnum(name, n).len()] == '}' ==> p_members(s, c + 1, acc, fuel) == Some(
            (acc.push((name, JVal::JNum(n))), c + fnum(name, n).len() + 1),
        ),
{
    lemma_member_parts(s, c, name, dec_chars(n as nat));
    let nl = jstr(name).len() as int;
    lemma_dec_len_pos(n as nat);
    if n == 0 {
        assert(dec_chars(0)[0] == digit_char(0));
        assert(digit_char(0) as u32 == 48);
    } else {
        lemma_dec_leading(n as nat);
    }
    assert(is_digit(dec_chars(n as nat)[0]));
    assert(!is_ws(dec_chars(n as nat)[0]));
    lemma_seq_at_concat(s, c + 1, jstr(name) + seq![':'], dec_chars(n as nat));
    assert(c + 1 + nl + 1 + dec_chars(n as nat).len() == c + fnum(name, n).len());
    assert(!is_digit(s[c + fnum(name, n).len()]));
    lemma_p_value_num(s, c + 2 + nl, n);
    lemma_p_members_step(s, c + 1, name, dec_chars(n as nat), JVal::JNum(n), acc, fuel);
}

/// One member step over a printed `,"name":{...}` member.
#[verifier::rlimit(100)]
proof fn lemma_step_fmap(
    s: Seq<char>,
    c: int,
    name: Seq<char>,
    hs: Seq<(Seq<char>, Seq<char>)>,
    acc: Seq<(Seq<char>, JVal)>,
    fuel: nat,
)
    requires
        fuel >= 1,
        seq_at(s, c, fmap(name, hs)),
        c + fmap(name, hs).len() < s.len(),
    ensures
        s[c] == ',' && s[c + 1] == '"',
        s[c + fmap(name, hs).len()] == ',' ==> p_members(s, c + 1, acc, fuel) == p_members(
            s,
            p_ws(s, c + fmap(name, hs).len() + 1),
            acc.push((name, JVal::JMap(hs))),
            (fuel - 1) as nat,
        ),
        s[c + fmap(name, hs).len()] == '}' ==> p_members(s, c + 1, acc, fuel) == Some(
            (acc.push((name, JVal::JMap(hs))), c + fmap(name, hs).len() + 1),
        ),
{
    lemma_member_parts(s, c, name, jmap(hs));
    let nl = jstr(name).len() as int;
    assert(jmap(hs)[0] == '{');
    assert(!is_ws(jmap(hs)[0]));
    assert(jmap(hs).len() >= 2);
    lemma_seq_at_concat(s, c + 1, jstr(name) + seq![':'], jmap(hs));
    lemma_p_value_map(s, c + 2 + nl, hs);
    lemma_p_members_step(s, c + 1, name, jmap(hs), JVal::JMap(hs), acc, fuel);
    assert(c + 1 + nl + 1 + jmap(hs).len() == c + fmap(name, hs).len());
}

/// One member step over a printed `,"name":true|false` member.
#[verifier::rlimit(100)]
proof fn lemma_step_fbool(
    s: Seq<char>,
    c: int,
    name: Seq<char>,
    b: bool,
    acc: Seq<(Seq<char>, JVal)>,
    fuel: nat,
)
    requires
        fuel >= 1,
        seq_at(s, c, fbool(name, b)),
        c + fbool(name, b).len() < s.len(),
    ensures
        s[c] == ',' && s[c + 1] == '"',
        s[c + fbool(name, b).len()] == ',' ==> p_members(s, c + 1, acc, fuel) == p_members(
            s,
            p_ws(s, c + fbool(name, b).len() + 1),
            acc.push((name, JVal::JBool(b))),
            (fuel - 1) as nat,
        ),
        s[c + fbool(name, b).len()] == '}' ==> p_members(s, c + 1, acc, fuel) == Some(
            (acc.push((name, JVal::JBool(b))), c + fbool(name, b).len() + 1),
        ),
{
    proof_strlit_bools();
    lemma_member_parts(s, c, name, jbool(b));
    let nl = jstr(name).len() as int;
    assert(jbool(b).len() >= 4);
    assert(jbool(b)[0] == 't' || jbool(b)[0] == 'f');
    assert(!is_ws(jbool(b)[0]));
    lemma_seq_at_concat(s, c + 1, jstr(name) + seq![':'], jbool(b));
    lemma_p_value_bool(s, c + 2 + nl, b);
    lemma_p_members_step(s, c + 1, name, jbool(b), JVal::JBool(b), acc, fuel);
    assert(c + 1 + nl + 1 + jbool(b).len() == c + fbool(name, b).len());
}

/// One member step over a printed `,"name":null|"value"` member.
#[verifier::rlimit(100)]
proof fn lemma_step_fopt(
    s: Seq<char>,
    c: int,
    name: Seq<char>,
    o: Option<Seq<char>>,
    acc: Seq<(Seq<char>, JVal)>,
    fuel: nat,
)
    requires
        fuel >= 1,
        seq_at(s, c, fopt(name, o)),
        c + fopt(name, o).len() < s.len(),
    ensures
        s[c] == ',' && s[c + 1] == '"',
        s[c + fopt(name, o).len()] == ',' ==> p_members(s, c + 1, acc, fuel) == p_members(
            s,
            p_ws(s, c + fopt(name, o).len() + 1),
            acc.push(
                (
                    name,
                    match o {
                        Some(v) => JVal::JStr(v),
                        None => JVal::JNull,
                    },
                ),
            ),
            (fuel - 1) as nat,
        ),
        s[c + fopt(name, o).len()] == '}' ==> p_members(s, c + 1, acc, fuel) == Some(
            (
                acc.push(
                    (
                        name,
                        match o {
                            Some(v) => JVal::JStr(v),
                            None => JVal::JNull,
                        },
                    ),
                ),
                c + fopt(name, o).len() + 1,
            ),
        ),
{
    proof_strlit_bools();
    lemma_member_parts(s, c, name, jopt(o));
    let nl = jstr(name).len() as int;
    assert(jopt(o).len() >= 2);
    assert(jopt(o)[0] == '"' || jopt(o)[0] == 'n') by {
        match o {
            Some(v) => {
                assert(jstr(v)[0] == '"');
            },
            None => {},
        }
    }
    assert(!is_ws(jopt(o)[0]));
    lemma_seq_at_concat(s, c + 1, jstr(name) + seq![':'], jopt(o));
    lemma_p_value_opt(s, c + 2 + nl, o);
    lemma_p_members_step(
        s,
        c + 1,
        name,
        jopt(o),
        match o {
            Some(v) => JVal::JStr(v),
            None => JVal::JNull,
        },
        acc,
        fuel,
    );
    assert(c + 1 + nl + 1 + jopt(o).len() == c + fopt(name, o).len());
}

/// The object head step: the brace is consumed and the tag member is
/// read, continuing with the remaining members (or closing at once).
#[verifier::rlimit(100)]
proof fn lemma_step_head(s: Seq<char>, tag: Seq<char>)
    requires
        seq_at(s, 0, obj_head(tag)),
        obj_head(tag).len() < s.len(),
    ensures
        s[0] == '{' && s[1] == '"',
        p_ws(s, 0) == 0,
        s[obj_head(tag).len() as int] == ',' && s[obj_head(tag).len() as int + 1] == '"'
            ==> p_object(s, 0) == p_members(
            s,
            obj_head(tag).len() as int + 1,
            Seq::empty().push(("type"@, JVal::JStr(tag))),
            (s.len() - 1) as nat,
        ),
        s[obj_head(tag).len() as int] == '}' ==> p_object(s, 0) == Some(
            (Seq::empty().push(("type"@, JVal::JStr(tag))), obj_head(tag).len() as int + 1),
        ),
{
    lemma_head_parts(s, tag);
    assert(p_ws(s, 0) == 0);
    assert(p_ws(s, 1) == 1);
    let tl = jstr("type"@).len() as int;
    assert(tl >= 2);
    assert(jstr(tag)[0] == '"' && jstr(tag).len() >= 2);
    lemma_seq_at_concat(s, 1, jstr("type"@) + seq![':'], jstr(tag));
    lemma_p_value_str(s, 2 + tl, tag);
    let hl = obj_head(tag).len() as int;
    assert(1 + tl + 1 + jstr(tag).len() == hl);
    assert(s.len() >= 1);
    lemma_p_members_step(
        s,
        1,
        "type"@,
        jstr(tag),
        JVal::JStr(tag),
        Seq::empty(),
        s.len() as nat,
    );
    if s[hl] == ',' && s[hl + 1] == '"' {
        assert(p_ws(s, hl + 1) == hl + 1);
    }
}

/// Every sequence occurs in itself at position zero.
pub proof fn lemma_seq_at_self(s: Seq<char>)
    ensures
        seq_at(s, 0, s),
{
    assert forall|k: int| 0 <= k < s.len() implies s[0 + k] == #[trigger] s[k] by {}
}


/// The member list parsed out of a printed `register` message.
#[verifier::rlimit(100)]
proof fn lemma_rt_register_parse(slug: Seq<char>, token: Seq<char>)
    ensures
        ({
            let s = print_client(ClientMsgView::Register { slug, token });
            let a = ("type"@, JVal::JStr("register"@));
            let b = ("slug"@, JVal::JStr(slug));
            let c = ("token"@, JVal::JStr(token));
            &&& p_ws(s, 0) == 0
            &&& p_object(s, 0) == Some((seq![a, b, c], s.len() as int))
            &&& p_ws(s, s.len() as int) == s.len() as int
        }),
{
    let m = ClientMsgView::Register { slug, token };
    let s = print_client(m);
    reveal_strlit("register");
    lemma_seq_at_self(s);
    let h = obj_head("register"@);
    let f1 = fstr("slug"@, slug);
    let f2 = fstr("token"@, token);
    assert(s == h + f1 + f2 + seq!['}']);
    let hl = h.len() as int;
    let l1 = f1.len() as int;
    let l2 = f2.len() as int;
    lemma_seq_at_concat(s, 0, h + f1 + f2, seq!['}']);
    lemma_seq_at_concat(s, 0, h + f1, f2);
    lemma_seq_at_concat(s, 0, h, f1);
    lemma_at_idx(s, hl + l1 + l2, seq!['}'], 0);
    assert(s[hl + l1 + l2] == '}');
    assert(jstr("type"@).len() >= 2 && jstr("register"@).len() >= 2 && hl >= 6);
    assert(s.len() >= 8);
    let fu1 = (s.len() - 1) as nat;
    let fu2 = (fu1 - 1) as nat;
    lemma_step_head(s, "register"@);
    let acc1 = Seq::empty().push(("type"@, JVal::JStr("register"@)));
    let acc2 = acc1.push(("slug"@, JVal::JStr(slug)));
    let acc3 = acc2.push(("token"@, JVal::JStr(token)));
    lemma_step_fstr(s, hl, "slug"@, slug, acc1, fu1);
    lemma_step_fstr(s, hl + l1, "token"@, token, acc2, fu2);
    assert(p_ws(s, hl + 1) == hl + 1);
    assert(p_ws(s, hl + l1 + 1) == hl + l1 + 1);
    assert(p_object(s, 0) == Some((acc3, hl + l1 + l2 + 1)));
    assert(hl + l1 + l2 + 1 == s.len());
    assert(p_ws(s, s.len() as int) == s.len() as int);
    let a = ("type"@, JVal::JStr("register"@));
    let b = ("slug"@, JVal::JStr(slug));
    let c = ("token"@, JVal::JStr(token));
    assert(acc3 =~= seq![a, b, c]);
    assert(p_object(s, 0) == Some((seq![a, b, c], s.len() as int)));
}

/// Round trip for a printed `register` message.
#[verifier::rlimit(100)]
proof fn lemma_client_rt_register(slug: Seq<char>, token: Seq<char>)
    ensures
        parse_client_chars(print_client(ClientMsgView::Register { slug, token })) == Some(ClientMsgView::Register { slug, token }),
{
    let m = ClientMsgView::Register { slug, token };
    let s = print_client(m);
    reveal_strlit("register");
    lemma_field_names();
    lemma_rt_register_parse(slug, token);
    let a = ("type"@, JVal::JStr("register"@));
    let b = ("slug"@, JVal::JStr(slug));
    let c = ("token"@, JVal::JStr(token));
    let g0 = no_fields();
    let g1 = FieldsView { tag: Some("register"@), ..g0 };
    assert(upd_field(g0, a.0, a.1) == Some(g1));
    let g2 = FieldsView { slug: Some(slug), ..g1 };
    assert(upd_field(g1, b.0, b.1) == Some(g2));
    let g3 = FieldsView { token: Some(token), ..g2 };
    assert(upd_field(g2, c.0, c.1) == Some(g3));
    assert((seq![c]).drop_first() =~= Seq::<(Seq<char>, JVal)>::empty());
    assert((seq![b, c]).drop_first() =~= seq![c]);
    assert((seq![a, b, c]).drop_first() =~= seq![b, c]);
    assert(fold_fields(Seq::<(Seq<char>, JVal)>::empty(), g3) == Some(g3));
    assert(fold_fields(seq![c], g2) == Some(g3));
    assert(fold_fields(seq![b, c], g1) == Some(g3));
    assert(fold_fields(seq![a, b, c], g0) == Some(g3));
    assert(msg_of_fields_client(g3) == Some(m));
    assert(parse_client_chars(s) == Some(m));
}

/// The first members parsed out of a printed `response` message.
#[verifier::rlimit(100)]
proof fn lemma_rt_response_parse_a(id: Seq<char>, status: u16, headers: Seq<(Seq<char>, Seq<char>)>, body_b64: Seq<char>)
    ensures
        ({
            let s = print_client(ClientMsgView::Response { id, status, headers, body_b64 });
            let hl = obj_head("response"@).len() as int;
            let l1 = (fstr("id"@, id)).len() as int;
            let l2 = (fnum("status"@, status)).len() as int;
            let l3 = (fmap("headers"@, headers)).len() as int;
            let l4 = (fstr("body_b64"@, body_b64)).len() as int;
            &&& p_ws(s, 0) == 0
            &&& p_ws(s, s.len() as int) == s.len() as int
            &&& p_object(s, 0) == p_members(s, hl + l1 + l2 + 1, Seq::empty().push(("type"@, JVal::JStr("response"@))).push(("id"@, JVal::JStr(id))).push(("status"@, JVal::JNum(status))), (s.len() - 3) as nat)
        }),
{
    let m = ClientMsgView::Response { id, status, headers, body_b64 };
    let s = print_client(m);
    reveal_strlit("response");
    lemma_seq_at_self(s);
    let h = obj_head("response"@);
    let f1 = fstr("id"@, id);
    let f2 = fnum("status"@, status);
    let f3 = fmap("headers"@, headers);
    let f4 = fstr("body_b64"@, body_b64);
    assert(s == h + f1 + f2 + f3 + f4 + seq!['}']);
    let hl = h.len() as int;
    let l1 = f1.len() as int;
    let l2 = f2.len() as int;
    let l3 = f3.len() as int;
    let l4 = f4.len() as int;
    lemma_seq_at_concat(s, 0, h + f1 + f2 + f3 + f4, seq!['}']);
    lemma_seq_at_concat(s, 0, h + f1 + f2 + f3, f4);
    lemma_seq_at_concat(s, 0, h + f1 + f2, f3);
    lemma_seq_at_concat(s, 0, h + f1, f2);
    lemma_seq_at_concat(s, 0, h, f1);
    lemma_at_idx(s, hl + l1 + l2 + l3 + l4, seq!['}'], 0);
    assert(s[hl + l1 + l2 + l3 + l4] == '}');
    assert(jstr("type"@).len() >= 2 && jstr("response"@).len() >= 2 && hl >= 6);
    assert(s.len() >= 10);
    let fu1 = (s.len() - 1) as nat;
    let fu2 = (fu1 - 1) as nat;
    let fu3 = (fu2 - 1) as nat;
    let fu4 = (fu3 - 1) as nat;
    lemma_step_head(s, "response"@);
    let acc1 = Seq::empty().push(("type"@, JVal::JStr("response"@)));
    let acc2 = acc1.push(("id"@, JVal::JStr(id)));
    let acc3 = acc2.push(("status"@, JVal::JNum(status)));
    let acc4 = acc3.push(("headers"@, JVal::JMap(headers)));
    let acc5 = acc4.push(("body_b64"@, JVal::JStr(body_b64)));
    lemma_step_fstr(s, hl, "id"@, id, acc1, fu1);
    lemma_step_fnum(s, hl + l1, "status"@, status, acc2, fu2);
    assert(p_ws(s, hl + 1) == hl + 1);
    assert(p_ws(s, hl + l1 + 1) == hl + l1 + 1);
    assert(p_ws(s, s.len() as int) == s.len() as int);
    assert(fu3 == (s.len() - 3) as nat);
}

/// The remaining members parsed out of a printed `response` message.
#[verifier::rlimit(100)]
proof fn lemma_rt_response_parse_b(id: Seq<char>, status: u16, headers: Seq<(Seq<char>, Seq<char>)>, body_b64: Seq<char>)
    ensures
        ({
            let s = print_client(ClientMsgView::Response { id, status, headers, body_b64 });
            let hl = obj_head("response"@).len() as int;
            let l1 = (fstr("id"@, id)).len() as int;
            let l2 = (fnum("status"@, status)).len() as int;
            let l3 = (fmap("headers"@, headers)).len() as int;
            let l4 = (fstr("body_b64"@, body_b64)).len() as int;
            p_members(s, hl + l1 + l2 + 1, Seq::empty().push(("type"@, JVal::JStr("response"@))).push(("id"@, JVal::JStr(id))).push(("status"@, JVal::JNum(status))), (s.len() - 3) as nat) == Some(
                (Seq::empty().push(("type"@, JVal::JStr("response"@))).push(("id"@, JVal::JStr(id))).push(("status"@, JVal::JNum(status))).push(("headers"@, JVal::JMap(headers))).push(("body_b64"@, JVal::JStr(body_b64))), s.len() as int),
            )
        }),
{
    let m = ClientMsgView::Response { id, status, headers, body_b64 };
    let s = print_client(m);
    reveal_strlit("response");
    lemma_seq_at_self(s);
    let h = obj_head("response"@);
    let f1 = fstr("id"@, id);
    let f2 = fnum("status"@, status);
    let f3 = fmap("headers"@, headers);
    let f4 = fstr("body_b64"@, body_b64);
    assert(s == h + f1 + f2 + f3 + f4 + seq!['}']);
    let hl = h.len() as int;
    let l1 = f1.len() as int;
    let l2 = f2.len() as int;
    let l3 = f3.len() as int;
    let l4 = f4.len() as int;
    lemma_seq_at_concat(s, 0, h + f1 + f2 + f3 + f4, seq!['}']);
    lemma_seq_at_concat(s, 0, h + f1 + f2 + f3, f4);
    lemma_seq_at_concat(s, 0, h + f1 + f2, f3);
    lemma_seq_at_concat(s, 0, h + f1, f2);
    lemma_seq_at_concat(s, 0, h, f1);
    lemma_at_idx(s, hl + l1 + l2 + l3 + l4, seq!['}'], 0);
    assert(s[hl + l1 + l2 + l3 + l4] == '}');
    assert(jstr("type"@).len() >= 2 && jstr("response"@).len() >= 2 && hl >= 6);
    assert(s.len() >= 10);
    let fu1 = (s.len() - 1) as nat;
    let fu2 = (fu1 - 1) as nat;
    let fu3 = (fu2 - 1) as nat;
    let fu4 = (fu3 - 1) as nat;
    let acc1 = Seq::empty().push(("type"@, JVal::JStr("response"@)));
    let acc2 = acc1.push(("id"@, JVal::JStr(id)));
    let acc3 = acc2.push(("status"@, JVal::JNum(status)));
    let acc4 = acc3.push(("headers"@, JVal::JMap(headers)));
    let acc5 = acc4.push(("body_b64"@, JVal::JStr(body_b64)));
    lemma_step_fmap(s, hl + l1 + l2, "headers"@, headers, acc3, fu3);
    lemma_step_fstr(s, hl + l1 + l2 + l3, "body_b64"@, body_b64, acc4, fu4);
    assert(p_ws(s, hl + l1 + l2 + 1) == hl + l1 + l2 + 1);
    assert(p_ws(s, hl + l1 + l2 + l3 + 1) == hl + l1 + l2 + l3 + 1);
    assert(hl + l1 + l2 + l3 + l4 + 1 == s.len());
    assert(fu3 == (s.len() - 3) as nat);
}

/// The member list parsed out of a printed `response` message.
#[verifier::rlimit(100)]
proof fn lemma_rt_response_parse(id: Seq<char>, status: u16, headers: Seq<(Seq<char>, Seq<char>)>, body_b64: Seq<char>)
    ensures
        ({
            let s = print_client(ClientMsgView::Response { id, status, headers, body_b64 });
            let hl = obj_head("response"@).len() as int;
            let l1 = (fstr("id"@, id)).len() as int;
            let l2 = (fnum("status"@, status)).len() as int;
            let l3 = (fmap("headers"@, headers)).len() as int;
            let l4 = (fstr("body_b64"@, body_b64)).len() as int;
            let a = ("type"@, JVal::JStr("response"@));
            let b = ("id"@, JVal::JStr(id));
            let c = ("status"@, JVal::JNum(status));
            let d = ("headers"@, JVal::JMap(headers));
            let e = ("body_b64"@, JVal::JStr(body_b64));
            &&& p_ws(s, 0) == 0
            &&& p_object(s, 0) == Some((seq![a, b, c, d, e], s.len() as int))
            &&& p_ws(s, s.len() as int) == s.len() as int
        }),
{
    let m = ClientMsgView::Response { id, status, headers, body_b64 };
    let s = print_client(m);
    lemma_rt_response_parse_a(id, status, headers, body_b64);
    lemma_rt_response_parse_b(id, status, headers, body_b64);
    let acc1 = Seq::empty().push(("type"@, JVal::JStr("response"@)));
    let acc2 = acc1.push(("id"@, JVal::JStr(id)));
    let acc3 = acc2.push(("status"@, JVal::JNum(status)));
    let acc4 = acc3.push(("headers"@, JVal::JMap(headers)));
    let acc5 = acc4.push(("body_b64"@, JVal::JStr(body_b64)));
    assert(p_object(s, 0) == Some((acc5, s.len() as int)));
    let a = ("type"@, JVal::JStr("response"@));
    let b = ("id"@, JVal::JStr(id));
    let c = ("status"@, JVal::JNum(status));
    let d = ("headers"@, JVal::JMap(headers));
    let e = ("body_b64"@, JVal::JStr(body_b64));
    assert(acc5 =~= seq![a, b, c, d, e]);
    assert(p_object(s, 0) == Some((seq![a, b, c, d, e], s.len() as int)));
}

/// Round trip for a printed `response` message.
#[verifier::rlimit(100)]
proof fn lemma_client_rt_response(id: Seq<char>, status: u16, headers: Seq<(Seq<char>, Seq<char>)>, body_b64: Seq<char>)
    ensures
        parse_client_chars(print_client(ClientMsgView::Response { id, status, headers, body_b64 })) == Some(ClientMsgView::Response { id, status, headers, body_b64 }),
{
    let m = ClientMsgView::Response { id, status, headers, body_b64 };
    let s = print_client(m);
    reveal_strlit("register");
    reveal_strlit("response");
    lemma_field_names();
    lemma_rt_response_parse(id, status, headers, body_b64);
    let a = ("type"@, JVal::JStr("response"@));
    let b = ("id"@, JVal::JStr(id));
    let c = ("status"@, JVal::JNum(status));
    let d = ("headers"@, JVal::JMap(headers));
    let e = ("body_b64"@, JVal::JStr(body_b64));
    let g0 = no_fields();
    let g1 = FieldsView { tag: Some("response"@), ..g0 };
    assert(upd_field(g0, a.0, a.1) == Some(g1));
    let g2 = FieldsView { id: Some(id), ..g1 };
    assert(upd_field(g1, b.0, b.1) == Some(g2));
    let g3 = FieldsView { status: Some(status), ..g2 };
    assert(upd_field(g2, c.0, c.1) == Some(g3));
    let g4 = FieldsView { headers: Some(headers), ..g3 };
    assert(upd_field(g3, d.0, d.1) == Some(g4));
    let g5 = FieldsView { body_b64: Some(body_b64), ..g4 };
    assert(upd_field(g4, e.0, e.1) == Some(g5));
    assert((seq![e]).drop_first() =~= Seq::<(Seq<char>, JVal)>::empty());
    assert((seq![d, e]).drop_first() =~= seq![e]);
    assert((seq![c, d, e]).drop_first() =~= seq![d, e]);
    assert((seq![b, c, d, e]).drop_first() =~= seq![c, d, e]);
    assert((seq![a, b, c, d, e]).drop_first() =~= seq![b, c, d, e]);
    assert(fold_fields(Seq::<(Seq<char>, JVal)>::empty(), g5) == Some(g5));
    assert(fold_fields(seq![e], g4) == Some(g5));
    assert(fold_fields(seq![d, e], g3) == Some(g5));
    assert(fold_fields(seq![c, d, e], g2) == Some(g5));
    assert(fold_fields(seq![b, c, d, e], g1) == Some(g5));
    assert(fold_fields(seq![a, b, c, d, e], g0) == Some(g5));
    assert(("response"@)[2] != ("register"@)[2]);
    assert("response"@ != "register"@) by { if "response"@ == "register"@ { assert(("response"@)[2] == ("register"@)[2]); } }
    assert(msg_of_fields_client(g5) == Some(m));
    assert(parse_client_chars(s) == Some(m));
}

/// The member list parsed out of a printed `heartbeat` message.
#[verifier::rlimit(100)]
proof fn lemma_rt_heartbeat_parse()
    ensures
        ({
            let s = print_client(ClientMsgView::Heartbeat);
            let a = ("type"@, JVal::JStr("heartbeat"@));
            &&& p_ws(s, 0) == 0
            &&& p_object(s, 0) == Some((seq![a], s.len() as int))
            &&& p_ws(s, s.len() as int) == s.len() as int
        }),
{
    let m = ClientMsgView::Heartbeat;
    let s = print_client(m);
    reveal_strlit("heartbeat");
    lemma_seq_at_self(s);
    let h = obj_head("heartbeat"@);
    assert(s == h + seq!['}']);
    let hl = h.len() as int;
    lemma_seq_at_concat(s, 0, h, seq!['}']);
    lemma_at_idx(s, hl, seq!['}'], 0);
    assert(s[hl] == '}');
    lemma_head_parts(s, "heartbeat"@);
    assert(p_ws(s, 0) == 0);
    assert(p_ws(s, 1) == 1);
    let tl = jstr("type"@).len() as int;
    assert(tl >= 2 && hl >= 6);
    let fuel0 = s.len() as nat;
    assert(s.len() >= 6);
    assert(jstr("heartbeat"@)[0] == '"' && jstr("heartbeat"@).len() >= 2);
    lemma_p_value_str(s, 2 + tl, "heartbeat"@);
    lemma_p_members_step(
        s,
        1,
        "type"@,
        jstr("heartbeat"@),
        JVal::JStr("heartbeat"@),
        Seq::empty(),
        fuel0,
    );
    let acc1 = Seq::empty().push(("type"@, JVal::JStr("heartbeat"@)));
    assert(p_members(s, 1, Seq::empty(), fuel0) == Some((acc1, hl + 1)));
    assert(hl + 1 == s.len());
    assert(p_object(s, 0) == Some((acc1, s.len() as int)));
    assert(p_ws(s, s.len() as int) == s.len() as int);
    let a = ("type"@, JVal::JStr("heartbeat"@));
    assert(acc1 =~= seq![a]);
    assert(p_object(s, 0) == Some((seq![a], s.len() as int)));
}

/// Round trip for a printed `heartbeat` message.
#[verifier::rlimit(100)]
proof fn lemma_client_rt_heartbeat()
    ensures
        parse_client_chars(print_client(ClientMsgView::Heartbeat)) == Some(ClientMsgView::Heartbeat),
{
    let m = ClientMsgView::Heartbeat;
    let s = print_client(m);
    reveal_strlit("register");
    reveal_strlit("response");
    reveal_strlit("heartbeat");
    lemma_field_names();
    lemma_rt_heartbeat_parse();
    let a = ("type"@, JVal::JStr("heartbeat"@));
    let g0 = no_fields();
    let g1 = FieldsView { tag: Some("heartbeat"@), ..g0 };
    assert(upd_field(g0, a.0, a.1) == Some(g1));
    assert((seq![a]).drop_first() =~= Seq::<(Seq<char>, JVal)>::empty());
    assert(fold_fields(Seq::<(Seq<char>, JVal)>::empty(), g1) == Some(g1));
    assert(fold_fields(seq![a], g0) == Some(g1));
    assert(("heartbeat"@).len() == 9 && ("register"@).len() == 8 && ("response"@).len() == 8);
    assert("heartbeat"@ != "register"@ && "heartbeat"@ != "response"@);
    assert(msg_of_fields_client(g1) == Some(m));
    assert(parse_client_chars(s) == Some(m));
}

/// Round trip: parsing the canonical print of a client message yields
/// exactly that message, for every message.
pub proof fn lemma_client_round_trip(m: ClientMsgView)
    ensures
        parse_client_chars(print_client(m)) == Some(m),
{
    match m {
        ClientMsgView::Register { slug, token } => lemma_client_rt_register(slug, token),
        ClientMsgView::Response { id, status, headers, body_b64 } => lemma_client_rt_response(
            id,
            status,
            headers,
            body_b64,
        ),
        ClientMsgView::Heartbeat => lemma_client_rt_heartbeat(),
    }
}

/// The first members parsed out of a printed `registered` message.
#[verifier::rlimit(100)]
proof fn lemma_rt_registered_parse_a(ok: bool, error: Option<Seq<char>>)
    ensures
        ({
            let s = print_server(ServerMsgView::Registered { ok, error });
            let hl = obj_head("registered"@).len() as int;
            let l1 = (fbool("ok"@, ok)).len() as int;
            &&& p_ws(s, 0) == 0
            &&& p_ws(s, s.len() as int) == s.len() as int
            &&& p_object(s, 0) == p_members(
                s,
                hl + l1 + 1,
                Seq::empty().push(("type"@, JVal::JStr("registered"@))).push(
                    ("ok"@, JVal::JBool(ok)),
                ),
                (s.len() - 2) as nat,
            )
        }),
{
    let m = ServerMsgView::Registered { ok, error };
    let s = print_server(m);
    reveal_strlit("registered");
    lemma_seq_at_self(s);
    let h = obj_head("registered"@);
    let f1 = fbool("ok"@, ok);
    let f2 = fopt("error"@, error);
    assert(s == h + f1 + f2 + seq!['}']);
    let hl = h.len() as int;
    let l1 = f1.len() as int;
    let l2 = f2.len() as int;
    lemma_seq_at_concat(s, 0, h + f1 + f2, seq!['}']);
    lemma_seq_at_concat(s, 0, h + f1, f2);
    lemma_seq_at_concat(s, 0, h, f1);
    lemma_at_idx(s, hl + l1 + l2, seq!['}'], 0);
    assert(s[hl + l1 + l2] == '}');
    assert(jstr("type"@).len() >= 2 && jstr("registered"@).len() >= 2 && hl >= 6);
    assert(s.len() >= 8);
    let fu1 = (s.len() - 1) as nat;
    lemma_step_head(s, "registered"@);
    let acc1 = Seq::empty().push(("type"@, JVal::JStr("registered"@)));
    let acc2 = acc1.push(("ok"@, JVal::JBool(ok)));
    lemma_step_fbool(s, hl, "ok"@, ok, acc1, fu1);
    assert(p_ws(s, hl + 1) == hl + 1);
    assert(p_ws(s, hl + l1 + 1) == hl + l1 + 1);
    assert(p_ws(s, s.len() as int) == s.len() as int);
    assert((fu1 - 1) as nat == (s.len() - 2) as nat);
}

/// The member list parsed out of a printed `registered` message.
#[verifier::rlimit(100)]
proof fn lemma_rt_registered_parse(ok: bool, error: Option<Seq<char>>)
    ensures
        ({
            let s = print_server(ServerMsgView::Registered { ok, error });
            let a = ("type"@, JVal::JStr("registered"@));
            let b = ("ok"@, JVal::JBool(ok));
            let c = (
                "error"@,
                match error {
                    Some(v) => JVal::JStr(v),
                    None => JVal::JNull,
                },
            );
            &&& p_ws(s, 0) == 0
            &&& p_object(s, 0) == Some((seq![a, b, c], s.len() as int))
            &&& p_ws(s, s.len() as int) == s.len() as int
        }),
{
    let m = ServerMsgView::Registered { ok, error };
    let s = print_server(m);
    reveal_strlit("registered");
    lemma_rt_registered_parse_a(ok, error);
    lemma_seq_at_self(s);
    let h = obj_head("registered"@);
    let f1 = fbool("ok"@, ok);
    let f2 = fopt("error"@, error);
    assert(s == h + f1 + f2 + seq!['}']);
    let hl = h.len() as int;
    let l1 = f1.len() as int;
    let l2 = f2.len() as int;
    lemma_seq_at_concat(s, 0, h + f1 + f2, seq!['}']);
    lemma_seq_at_concat(s, 0, h + f1, f2);
    lemma_seq_at_concat(s, 0, h, f1);
    lemma_at_idx(s, hl + l1 + l2, seq!['}'], 0);
    assert(s[hl + l1 + l2] == '}');
    assert(s.len() >= 8);
    let ev = match error {
        Some(v) => JVal::JStr(v),
        None => JVal::JNull,
    };
    let acc1 = Seq::empty().push(("type"@, JVal::JStr("registered"@)));
    let acc2 = acc1.push(("ok"@, JVal::JBool(ok)));
    let acc3 = acc2.push(("error"@, ev));
    lemma_step_fopt(s, hl + l1, "error"@, error, acc2, (s.len() - 2) as nat);
    assert(p_object(s, 0) == Some((acc3, hl + l1 + l2 + 1)));
    assert(hl + l1 + l2 + 1 == s.len());
    let a = ("type"@, JVal::JStr("registered"@));
    let b = ("ok"@, JVal::JBool(ok));
    let c = ("error"@, ev);
    assert(acc3 =~= seq![a, b, c]);
    assert(p_object(s, 0) == Some((seq![a, b, c], s.len() as int)));
}

/// Round trip for a printed `registered` message.
#[verifier::rlimit(100)]
proof fn lemma_server_rt_registered(ok: bool, error: Option<Seq<char>>)
    ensures
        parse_server_chars(print_server(ServerMsgView::Registered { ok, error })) == Some(ServerMsgView::Registered { ok, error }),
{
    let m = ServerMsgView::Registered { ok, error };
    let s = print_server(m);
    reveal_strlit("registered");
    lemma_field_names();
    lemma_rt_registered_parse(ok, error);
    let a = ("type"@, JVal::JStr("registered"@));
    let b = ("ok"@, JVal::JBool(ok));
    let c = ("error"@, (match error { Some(v) => JVal::JStr(v), None => JVal::JNull }));
    let g0 = no_fields();
    let g1 = FieldsView { tag: Some("registered"@), ..g0 };
    assert(upd_field(g0, a.0, a.1) == Some(g1));
    let g2 = FieldsView { ok: Some(ok), ..g1 };
    assert(upd_field(g1, b.0, b.1) == Some(g2));
    let g3 = FieldsView { error: Some(error), ..g2 };
    match error {
        Some(v) => {
            assert(upd_field(g2, "error"@, JVal::JStr(v)) == Some(g3));
        },
        None => {
            assert(upd_field(g2, "error"@, JVal::JNull) == Some(g3));
        },
    }
    assert(upd_field(g2, c.0, c.1) == Some(g3));
    assert((seq![c]).drop_first() =~= Seq::<(Seq<char>, JVal)>::empty());
    assert((seq![b, c]).drop_first() =~= seq![c]);
    assert((seq![a, b, c]).drop_first() =~= seq![b, c]);
    assert(fold_fields(Seq::<(Seq<char>, JVal)>::empty(), g3) == Some(g3));
    assert(fold_fields(seq![c], g2) == Some(g3));
    assert(fold_fields(seq![b, c], g1) == Some(g3));
    assert(fold_fields(seq![a, b, c], g0) == Some(g3));
    assert(msg_of_fields_server(g3) == Some(m));
    assert(parse_server_chars(s) == Some(m));
}

/// The first members parsed out of a printed `request` message.
#[verifier::rlimit(100)]
proof fn lemma_rt_request_parse_a(id: Seq<char>, method: Seq<char>, path: Seq<char>, headers: Seq<(Seq<char>, Seq<char>)>, body_b64: Seq<char>)
    ensures
        ({
            let s = print_server(ServerMsgView::Request { id, method, path, headers, body_b64 });
            let hl = obj_head("request"@).len() as int;
            let l1 = (fstr("id"@, id)).len() as int;
            let l2 = (fstr("method"@, method)).len() as int;
            let l3 = (fstr("path"@, path)).len() as int;
            let l4 = (fmap("headers"@, headers)).len() as int;
            let l5 = (fstr("body_b64"@, body_b64)).len() as int;
            &&& p_ws(s, 0) == 0
            &&& p_ws(s, s.len() as int) == s.len() as int
            &&& p_object(s, 0) == p_members(s, hl + l1 + l2 + l3 + 1, Seq::empty().push(("type"@, JVal::JStr("request"@))).push(("id"@, JVal::JStr(id))).push(("method"@, JVal::JStr(method))).push(("path"@, JVal::JStr(path))), (s.len() - 4) as nat)
        }),
{
    let m = ServerMsgView::Request { id, method, path, headers, body_b64 };
    let s = print_server(m);
    reveal_strlit("request");
    lemma_seq_at_self(s);
    let h = obj_head("request"@);
    let f1 = fstr("id"@, id);
    let f2 = fstr("method"@, method);
    let f3 = fstr("path"@, path);
    let f4 = fmap("headers"@, headers);
    let f5 = fstr("body_b64"@, body_b64);
    assert(s == h + f1 + f2 + f3 + f4 + f5 + seq!['}']);
    let hl = h.len() as int;
    let l1 = f1.len() as int;
    let l2 = f2.len() as int;
    let l3 = f3.len() as int;
    let l4 = f4.len() as int;
    let l5 = f5.len() as int;
    lemma_seq_at_concat(s, 0, h + f1 + f2 + f3 + f4 + f5, seq!['}']);
    lemma_seq_at_concat(s, 0, h + f1 + f2 + f3 + f4, f5);
    lemma_seq_at_concat(s, 0, h + f1 + f2 + f3, f4);
    lemma_seq_at_concat(s, 0, h + f1 + f2, f3);
    lemma_seq_at_concat(s, 0, h + f1, f2);
    lemma_seq_at_concat(s, 0, h, f1);
    lemma_at_idx(s, hl + l1 + l2 + l3 + l4 + l5, seq!['}'], 0);
    assert(s[hl + l1 + l2 + l3 + l4 + l5] == '}');
    assert(jstr("type"@).len() >= 2 && jstr("request"@).len() >= 2 && hl >= 6);
    assert(s.len() >= 11);
    let fu1 = (s.len() - 1) as nat;
    let fu2 = (fu1 - 1) as nat;
    let fu3 = (fu2 - 1) as nat;
    let fu4 = (fu3 - 1) as nat;
    let fu5 = (fu4 - 1) as nat;
    lemma_step_head(s, "request"@);
    let acc1 = Seq::empty().push(("type"@, JVal::JStr("request"@)));
    let acc2 = acc1.push(("id"@, JVal::JStr(id)));
    let acc3 = acc2.push(("method"@, JVal::JStr(method)));
    let acc4 = acc3.push(("path"@, JVal::JStr(path)));
    let acc5 = acc4.push(("headers"@, JVal::JMap(headers)));
    let acc6 = acc5.push(("body_b64"@, JVal::JStr(body_b64)));
    lemma_step_fstr(s, hl, "id"@, id, acc1, fu1);
    lemma_step_fstr(s, hl + l1, "method"@, method, acc2, fu2);
    lemma_step_fstr(s, hl + l1 + l2, "path"@, path, acc3, fu3);
    assert(p_ws(s, hl + 1) == hl + 1);
    assert(p_ws(s, hl + l1 + 1) == hl + l1 + 1);
    assert(p_ws(s, hl + l1 + l2 + 1) == hl + l1 + l2 + 1);
    assert(p_ws(s, s.len() as int) == s.len() as int);
    assert(fu4 == (s.len() - 4) as nat);
}

/// The remaining members parsed out of a printed `request` message.
#[verifier::rlimit(100)]
proof fn lemma_rt_request_parse_b(id: Seq<char>, method: Seq<char>, path: Seq<char>, headers: Seq<(Seq<char>, Seq<char>)>, body_b64: Seq<char>)
    ensures
        ({
            let s = print_server(ServerMsgView::Request { id, method, path, headers, body_b64 });
            let hl = obj_head("request"@).len() as int;
            let l1 = (fstr("id"@, id)).len() as int;
            let l2 = (fstr("method"@, method)).len() as int;
            let l3 = (fstr("path"@, path)).len() as int;
            let l4 = (fmap("headers"@, headers)).len() as int;
            let l5 = (fstr("body_b64"@, body_b64)).len() as int;
            p_members(s, hl + l1 + l2 + l3 + 1, Seq::empty().push(("type"@, JVal::JStr("request"@))).push(("id"@, JVal::JStr(id))).push(("method"@, JVal::JStr(method))).push(("path"@, JVal::JStr(path))), (s.len() - 4) as nat) == Some(
                (Seq::empty().push(("type"@, JVal::JStr("request"@))).push(("id"@, JVal::JStr(id))).push(("method"@, JVal::JStr(method))).push(("path"@, JVal::JStr(path))).push(("headers"@, JVal::JMap(headers))).push(("body_b64"@, JVal::JStr(body_b64))), s.len() as int),
            )
        }),
{
    let m = ServerMsgView::Request { id, method, path, headers, body_b64 };
    let s = print_server(m);
    reveal_strlit("request");
    lemma_seq_at_self(s);
    let h = obj_head("request"@);
    let f1 = fstr("id"@, id);
    let f2 = fstr("method"@, method);
    let f3 = fstr("path"@, path);
    let f4 = fmap("headers"@, headers);
    let f5 = fstr("body_b64"@, body_b64);
    assert(s == h + f1 + f2 + f3 + f4 + f5 + seq!['}']);
    let hl = h.len() as int;
    let l1 = f1.len() as int;
    let l2 = f2.len() as int;
    let l3 = f3.len() as int;
    let l4 = f4.len() as int;
    let l5 = f5.len() as int;
    lemma_seq_at_concat(s, 0, h + f1 + f2 + f3 + f4 + f5, seq!['}']);
    lemma_seq_at_concat(s, 0, h + f1 + f2 + f3 + f4, f5);
    lemma_seq_at_concat(s, 0, h + f1 + f2 + f3, f4);
    lemma_seq_at_concat(s, 0, h + f1 + f2, f3);
    lemma_seq_at_concat(s, 0, h + f1, f2);
    lemma_seq_at_concat(s, 0, h, f1);
    lemma_at_idx(s, hl + l1 + l2 + l3 + l4 + l5, seq!['}'], 0);
    assert(s[hl + l1 + l2 + l3 + l4 + l5] == '}');
    assert(jstr("type"@).len() >= 2 && jstr("request"@).len() >= 2 && hl >= 6);
    assert(s.len() >= 11);
    let fu1 = (s.len() - 1) as nat;
    let fu2 = (fu1 - 1) as nat;
    let fu3 = (fu2 - 1) as nat;
    let fu4 = (fu3 - 1) as nat;
    let fu5 = (fu4 - 1) as nat;
    let acc1 = Seq::empty().push(("type"@, JVal::JStr("request"@)));
    let acc2 = acc1.push(("id"@, JVal::JStr(id)));
    let acc3 = acc2.push(("method"@, JVal::JStr(method)));
    let acc4 = acc3.push(("path"@, JVal::JStr(path)));
    let acc5 = acc4.push(("headers"@, JVal::JMap(headers)));
    let acc6 = acc5.push(("body_b64"@, JVal::JStr(body_b64)));
    lemma_step_fmap(s, hl + l1 + l2 + l3, "headers"@, headers, acc4, fu4);
    lemma_step_fstr(s, hl + l1 + l2 + l3 + l4, "body_b64"@, body_b64, acc5, fu5);
    assert(p_ws(s, hl + l1 + l2 + l3 + 1) == hl + l1 + l2 + l3 + 1);
    assert(p_ws(s, hl + l1 + l2 + l3 + l4 + 1) == hl + l1 + l2 + l3 + l4 + 1);
    assert(hl + l1 + l2 + l3 + l4 + l5 + 1 == s.len());
    assert(fu4 == (s.len() - 4) as nat);
}

/// The member list parsed out of a printed `request` message.
#[verifier::rlimit(100)]
proof fn lemma_rt_request_parse(id: Seq<char>, method: Seq<char>, path: Seq<char>, headers: Seq<(Seq<char>, Seq<char>)>, body_b64: Seq<char>)
    ensures
        ({
            let s = print_server(ServerMsgView::Request { id, method, path, headers, body_b64 });
            let hl = obj_head("request"@).len() as int;
            let l1 = (fstr("id"@, id)).len() as int;
            let l2 = (fstr("method"@, method)).len() as int;
            let l3 = (fstr("path"@, path)).len() as int;
            let l4 = (fmap("headers"@, headers)).len() as int;
            let l5 = (fstr("body_b64"@, body_b64)).len() as int;
            let a = ("type"@, JVal::JStr("request"@));
            let b = ("id"@, JVal::JStr(id));
            let c = ("method"@, JVal::JStr(method));
            let d = ("path"@, JVal::JStr(path));
            let e = ("headers"@, JVal::JMap(headers));
            let g = ("body_b64"@, JVal::JStr(body_b64));
            &&& p_ws(s, 0) == 0
            &&& p_object(s, 0) == Some((seq![a, b, c, d, e, g], s.len() as int))
            &&& p_ws(s, s.len() as int) == s.len() as int
        }),
{
    let m = ServerMsgView::Request { id, method, path, headers, body_b64 };
    let s = print_server(m);
    lemma_rt_request_parse_a(id, method, path, headers, body_b64);
    lemma_rt_request_parse_b(id, method, path, headers, body_b64);
    let acc1 = Seq::empty().push(("type"@, JVal::JStr("request"@)));
    let acc2 = acc1.push(("id"@, JVal::JStr(id)));
    let acc3 = acc2.push(("method"@, JVal::JStr(method)));
    let acc4 = acc3.push(("path"@, JVal::JStr(path)));
    let acc5 = acc4.push(("headers"@, JVal::JMap(headers)));
    let acc6 = acc5.push(("body_b64"@, JVal::JStr(body_b64)));
    assert(p_object(s, 0) == Some((acc6, s.len() as int)));
    let a = ("type"@, JVal::JStr("request"@));
    let b = ("id"@, JVal::JStr(id));
    let c = ("method"@, JVal::JStr(method));
    let d = ("path"@, JVal::JStr(path));
    let e = ("headers"@, JVal::JMap(headers));
    let g = ("body_b64"@, JVal::JStr(body_b64));
    assert(acc6 =~= seq![a, b, c, d, e, g]);
    assert(p_object(s, 0) == Some((seq![a, b, c, d, e, g], s.len() as int)));
}

/// Folding the member list of a `request` message gives its fields.
#[verifier::rlimit(100)]
proof fn lemma_fold_request(
    id: Seq<char>,
    method: Seq<char>,
    path: Seq<char>,
    headers: Seq<(Seq<char>, Seq<char>)>,
    body_b64: Seq<char>,
)
    ensures
        ({
            let a = ("type"@, JVal::JStr("request"@));
            let b = ("id"@, JVal::JStr(id));
            let c = ("method"@, JVal::JStr(method));
            let d = ("path"@, JVal::JStr(path));
            let e = ("headers"@, JVal::JMap(headers));
            let g = ("body_b64"@, JVal::JStr(body_b64));
            match fold_fields(seq![a, b, c, d, e, g], no_fields()) {
                Some(f) => msg_of_fields_server(f) == Some(
                    ServerMsgView::Request { id, method, path, headers, body_b64 },
                ),
                None => false,
            }
        }),
{
    reveal_strlit("registered");
    reveal_strlit("request");
    lemma_field_names();
    let a = ("type"@, JVal::JStr("request"@));
    let b = ("id"@, JVal::JStr(id));
    let c = ("method"@, JVal::JStr(method));
    let d = ("path"@, JVal::JStr(path));
    let e = ("headers"@, JVal::JMap(headers));
    let g = ("body_b64"@, JVal::JStr(body_b64));
    let g0 = no_fields();
    let g1 = FieldsView { tag: Some("request"@), ..g0 };
    assert(upd_field(g0, a.0, a.1) == Some(g1));
    let g2 = FieldsView { id: Some(id), ..g1 };
    assert(upd_field(g1, b.0, b.1) == Some(g2));
    let g3 = FieldsView { method: Some(method), ..g2 };
    assert(upd_field(g2, c.0, c.1) == Some(g3));
    let g4 = FieldsView { path: Some(path), ..g3 };
    assert(upd_field(g3, d.0, d.1) == Some(g4));
    let g5 = FieldsView { headers: Some(headers), ..g4 };
    assert(upd_field(g4, e.0, e.1) == Some(g5));
    let g6 = FieldsView { body_b64: Some(body_b64), ..g5 };
    assert(upd_field(g5, g.0, g.1) == Some(g6));
    assert((seq![a, b, c, d, e, g]).drop_first() =~= seq![b, c, d, e, g]);
    assert((seq![b, c, d, e, g]).drop_first() =~= seq![c, d, e, g]);
    assert((seq![c, d, e, g]).drop_first() =~= seq![d, e, g]);
    assert((seq![d, e, g]).drop_first() =~= seq![e, g]);
    assert((seq![e, g]).drop_first() =~= seq![g]);
    assert((seq![g]).drop_first() =~= Seq::<(Seq<char>, JVal)>::empty());
    assert(fold_fields(Seq::<(Seq<char>, JVal)>::empty(), g6) == Some(g6));
    assert(fold_fields(seq![g], g5) == Some(g6));
    assert(fold_fields(seq![e, g], g4) == Some(g6));
    assert(fold_fields(seq![d, e, g], g3) == Some(g6));
    assert(fold_fields(seq![c, d, e, g], g2) == Some(g6));
    assert(fold_fields(seq![b, c, d, e, g], g1) == Some(g6));
    assert(fold_fields(seq![a, b, c, d, e, g], g0) == Some(g6));
    assert(("request"@).len() == 7 && ("registered"@).len() == 10);
    assert("request"@ != "registered"@);
    assert(msg_of_fields_server(g6) == Some(
        ServerMsgView::Request { id, method, path, headers, body_b64 },
    ));
}

/// Round trip for a printed `request` message.
#[verifier::rlimit(100)]
proof fn lemma_server_rt_request(
    id: Seq<char>,
    method: Seq<char>,
    path: Seq<char>,
    headers: Seq<(Seq<char>, Seq<char>)>,
    body_b64: Seq<char>,
)
    ensures
        parse_server_chars(
            print_server(ServerMsgView::Request { id, method, path, headers, body_b64 }),
        ) == Some(ServerMsgView::Request { id, method, path, headers, body_b64 }),
{
    let m = ServerMsgView::Request { id, method, path, headers, body_b64 };
    let s = print_server(m);
    lemma_rt_request_parse(id, method, path, headers, body_b64);
    lemma_fold_request(id, method, path, headers, body_b64);
    assert(parse_server_chars(s) == Some(m));
}

/// The member list parsed out of a printed `ping` message.
#[verifier::rlimit(100)]
proof fn lemma_rt_ping_parse()
    ensures
        ({
            let s = print_server(ServerMsgView::Ping);
            let a = ("type"@, JVal::JStr("ping"@));
            &&& p_ws(s, 0) == 0
            &&& p_object(s, 0) == Some((seq![a], s.len() as int))
            &&& p_ws(s, s.len() as int) == s.len() as int
        }),
{
    let m = ServerMsgView::Ping;
    let s = print_server(m);
    reveal_strlit("ping");
    lemma_seq_at_self(s);
    let h = obj_head("ping"@);
    assert(s == h + seq!['}']);
    let hl = h.len() as int;
    lemma_seq_at_concat(s, 0, h, seq!['}']);
    lemma_at_idx(s, hl, seq!['}'], 0);
    assert(s[hl] == '}');
    lemma_head_parts(s, "ping"@);
    assert(p_ws(s, 0) == 0);
    assert(p_ws(s, 1) == 1);
    let tl = jstr("type"@).len() as int;
    assert(tl >= 2 && hl >= 6);
    let fuel0 = s.len() as nat;
    assert(s.len() >= 6);
    assert(jstr("ping"@)[0] == '"' && jstr("ping"@).len() >= 2);
    lemma_p_value_str(s, 2 + tl, "ping"@);
    lemma_p_members_step(
        s,
        1,
        "type"@,
        jstr("ping"@),
        JVal::JStr("ping"@),
        Seq::empty(),
        fuel0,
    );
    let acc1 = Seq::empty().push(("type"@, JVal::JStr("ping"@)));
    assert(p_members(s, 1, Seq::empty(), fuel0) == Some((acc1, hl + 1)));
    assert(hl + 1 == s.len());
    assert(p_object(s, 0) == Some((acc1, s.len() as int)));
    assert(p_ws(s, s.len() as int) == s.len() as int);
    let a = ("type"@, JVal::JStr("ping"@));
    assert(acc1 =~= seq![a]);
    assert(p_object(s, 0) == Some((seq![a], s.len() as int)));
}

/// Round trip for a printed `ping` message.
#[verifier::rlimit(100)]
proof fn lemma_server_rt_ping()
    ensures
        parse_server_chars(print_server(ServerMsgView::Ping)) == Some(ServerMsgView::Ping),
{
    let m = ServerMsgView::Ping;
    let s = print_server(m);
    reveal_strlit("registered");
    reveal_strlit("request");
    reveal_strlit("ping");
    lemma_field_names();
    lemma_rt_ping_parse();
    let a = ("type"@, JVal::JStr("ping"@));
    let g0 = no_fields();
    let g1 = FieldsView { tag: Some("ping"@), ..g0 };
    assert(upd_field(g0, a.0, a.1) == Some(g1));
    assert((seq![a]).drop_first() =~= Seq::<(Seq<char>, JVal)>::empty());
    assert(fold_fields(Seq::<(Seq<char>, JVal)>::empty(), g1) == Some(g1));
    assert(fold_fields(seq![a], g0) == Some(g1));
    assert(("ping"@).len() == 4 && ("registered"@).len() == 10 && ("request"@).len() == 7);
    assert("ping"@ != "registered"@ && "ping"@ != "request"@);
    assert(msg_of_fields_server(g1) == Some(m));
    assert(parse_server_chars(s) == Some(m));
}

/// Round trip: parsing the canonical print of a server message yields
/// exactly that message, for every message.
pub proof fn lemma_server_round_trip(m: ServerMsgView)
    ensures
        parse_server_chars(print_server(m)) == Some(m),
{
    match m {
        ServerMsgView::Registered { ok, error } => lemma_server_rt_registered(ok, error),
        ServerMsgView::Request { id, method, path, headers, body_b64 } => lemma_server_rt_request(
            id,
            method,
            path,
            headers,
            body_b64,
        ),
        ServerMsgView::Ping => lemma_server_rt_ping(),
    }
}

/// Full wire round trip for a client-to-server message: framing the
/// canonical encoding and reading it back yields the message and
/// consumes the whole frame.
pub proof fn lemma_client_frame_round_trip(m: ClientMsgView)
    requires
        encode_utf8(print_client(m)).len() <= MAX_FRAME_LEN,
    ensures
        spec_read_client(client_frame_bytes(m), 0) == Ok::<_, crate::frame::FrameError>(
            Some((m, client_frame_bytes(m).len() as int)),
        ),
{
    let text = print_client(m);
    let payload = encode_utf8(text);
    let n = payload.len() as u32;
    let bytes = client_frame_bytes(m);
    assert(be_bytes(n).len() == 4);
    assert(bytes == be_bytes(n) + payload);
    assert(bytes.len() == 4 + payload.len());
    assert(bytes[0] == (n >> 24) as u8 && bytes[1] == (n >> 16) as u8 && bytes[2] == (n >> 8) as u8
        && bytes[3] == n as u8);
    lemma_be_round_trip(n);
    assert(u32_be(bytes[0], bytes[1], bytes[2], bytes[3]) == n);
    assert(bytes.subrange(4, 4 + n) =~= payload);
    vstd::utf8::encode_utf8_valid_utf8(text);
    vstd::utf8::encode_utf8_decode_utf8(text);
    lemma_client_round_trip(m);
}

/// Full wire round trip for a server-to-client message.
pub proof fn lemma_server_frame_round_trip(m: ServerMsgView)
    requires
        encode_utf8(print_server(m)).len() <= MAX_FRAME_LEN,
    ensures
        spec_read_server(server_frame_bytes(m), 0) == Ok::<_, crate::frame::FrameError>(
            Some((m, server_frame_bytes(m).len() as int)),
        ),
{
    let text = print_server(m);
    let payload = encode_utf8(text);
    let n = payload.len() as u32;
    let bytes = server_frame_bytes(m);
    assert(be_bytes(n).len() == 4);
    assert(bytes == be_bytes(n) + payload);
    assert(bytes.len() == 4 + payload.len());
    assert(bytes[0] == (n >> 24) as u8 && bytes[1] == (n >> 16) as u8 && bytes[2] == (n >> 8) as u8
        && bytes[3] == n as u8);
    lemma_be_round_trip(n);
    assert(u32_be(bytes[0], bytes[1], bytes[2], bytes[3]) == n);
    assert(bytes.subrange(4, 4 + n) =~= payload);
    vstd::utf8::encode_utf8_valid_utf8(text);
    vstd::utf8::encode_utf8_decode_utf8(text);
    lemma_server_round_trip(m);
}

} // verus!
