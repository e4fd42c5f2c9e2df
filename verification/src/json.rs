//! The wire format of the protocol: the JSON shapes that travel between
//! this client and the coordinator, stated over byte sequences.
//!
//! Outbound: the Handshake Frame, a JSON object `{"token": t, "stateId": s}`
//! serialized canonically (fixed field order, minimal escaping, no added
//! whitespace). Inbound: coordinator responses, each a JSON object holding a
//! single string field (`{"token": ...}`, `{"stateId": ...}`), parsed with
//! optional whitespace and every JSON string escape, surrogate pairs
//! included. The coordinator documents each response as exactly one field,
//! so the grammar deliberately rejects objects with additional or
//! duplicated members rather than ignoring them.

use vstd::prelude::*;

verus! {

// ---------------------------------------------------------------------------
// Byte classes and small helpers
// ---------------------------------------------------------------------------

/// JSON insignificant whitespace: space, tab, line feed, carriage return.
pub open spec fn is_ws_byte(b: u8) -> bool {
    b == 32 || b == 9 || b == 10 || b == 13
}

/// Lower-case hex digit for a value below 16.
pub open spec fn hex_digit_byte(n: u8) -> u8
    recommends
        n < 16,
{
    if n < 10 {
        (48 + n) as u8
    } else {
        (87 + n) as u8
    }
}

/// A hex digit in any case.
pub open spec fn is_hex_byte(b: u8) -> bool {
    (48 <= b && b <= 57) || (97 <= b && b <= 102) || (65 <= b && b <= 70)
}

/// Numeric value of a hex digit.
pub open spec fn hex_value(b: u8) -> u8
    recommends
        is_hex_byte(b),
{
    if 48 <= b && b <= 57 {
        (b - 48) as u8
    } else if 97 <= b && b <= 102 {
        (b - 87) as u8
    } else {
        (b - 55) as u8
    }
}

// ---------------------------------------------------------------------------
// Canonical serialization (encoder side)
// ---------------------------------------------------------------------------

/// Canonical escaping of one byte inside a JSON string: quote and backslash
/// get a backslash escape, the control bytes with short forms use them, the
/// remaining control bytes become `\u00xx`, and every other byte stands as
/// itself.
pub open spec fn esc_byte(b: u8) -> Seq<u8> {
    if b == 34 {  // '"'
        seq![92u8, 34u8]
    } else if b == 92 {  // '\'
        seq![92u8, 92u8]
    } else if b == 8 {
        seq![92u8, 98u8]  // \b
    } else if b == 9 {
        seq![92u8, 116u8]  // \t
    } else if b == 10 {
        seq![92u8, 110u8]  // \n
    } else if b == 12 {
        seq![92u8, 102u8]  // \f
    } else if b == 13 {
        seq![92u8, 114u8]  // \r
    } else if b < 32 {
        seq![92u8, 117u8, 48u8, 48u8, hex_digit_byte(b / 16), hex_digit_byte(b % 16)]
    } else {
        seq![b]
    }
}

/// Canonical escaping of a whole string body.
pub open spec fn esc_bytes(s: Seq<u8>) -> Seq<u8>
    decreases s.len(),
{
    if s.len() == 0 {
        Seq::empty()
    } else {
        esc_byte(s[0]) + esc_bytes(s.drop_first())
    }
}

/// The bytes of the field name `token`.
pub open spec fn token_key() -> Seq<u8> {
    seq![116u8, 111u8, 107u8, 101u8, 110u8]
}

/// The bytes of the field name `stateId`.
pub open spec fn state_id_key() -> Seq<u8> {
    seq![115u8, 116u8, 97u8, 116u8, 101u8, 73u8, 100u8]
}

/// The bytes of the field name `id`.
pub open spec fn id_key() -> Seq<u8> {
    seq![105u8, 100u8]
}

/// The canonical serialization of a JSON object with one string field:
/// `{"<key>":"<escaped value>"}`. The key is taken verbatim (the keys of
/// this protocol never need escaping).
pub open spec fn object_bytes(key: Seq<u8>, value: Seq<u8>) -> Seq<u8> {
    seq![123u8, 34u8] + key + seq![34u8, 58u8, 34u8] + esc_bytes(value) + seq![34u8, 125u8]
}

/// The canonical serialization of the Handshake Frame
/// `{"token":"<t>","stateId":"<s>"}`: field order fixed, no whitespace,
/// no extra fields.
pub open spec fn handshake_bytes(token: Seq<u8>, state_id: Seq<u8>) -> Seq<u8> {
    seq![123u8, 34u8] + token_key() + seq![34u8, 58u8, 34u8] + esc_bytes(token) + seq![
        34u8,
        44u8,
        34u8,
    ] + state_id_key() + seq![34u8, 58u8, 34u8] + esc_bytes(state_id) + seq![34u8, 125u8]
}

// ---------------------------------------------------------------------------
// Response grammar (parser side)
// ---------------------------------------------------------------------------

/// Drop leading JSON whitespace.
pub open spec fn skip_ws_s(s: Seq<u8>) -> Seq<u8>
    decreases s.len(),
{
    if s.len() > 0 && is_ws_byte(s[0]) {
        skip_ws_s(s.drop_first())
    } else {
        s
    }
}

/// The escape characters with a single-byte meaning.
pub open spec fn is_simple_escape(e: u8) -> bool {
    e == 34 || e == 92 || e == 47 || e == 98 || e == 102 || e == 110 || e == 114 || e == 116
}

/// The byte a simple escape stands for.
pub open spec fn unescape_simple(e: u8) -> u8
    recommends
        is_simple_escape(e),
{
    if e == 98 {
        8u8
    } else if e == 116 {
        9u8
    } else if e == 110 {
        10u8
    } else if e == 102 {
        12u8
    } else if e == 114 {
        13u8
    } else {
        e
    }
}

/// Prepend one decoded byte to the value of a parse that went on to succeed.
pub open spec fn cons_parsed(b: u8, r: Option<(Seq<u8>, Seq<u8>)>) -> Option<(Seq<u8>, Seq<u8>)> {
    match r {
        Some((v, rest)) => Some((seq![b] + v, rest)),
        None => None,
    }
}

/// Prepend already-decoded bytes to the value of a parse of the rest.
pub open spec fn cons_all(pre: Seq<u8>, r: Option<(Seq<u8>, Seq<u8>)>) -> Option<(Seq<u8>, Seq<u8>)> {
    match r {
        Some((v, rest)) => Some((pre + v, rest)),
        None => None,
    }
}

/// The code unit named by four hex digits.
pub open spec fn hex16(a: u8, b: u8, c: u8, d: u8) -> u32
    recommends
        is_hex_byte(a) && is_hex_byte(b) && is_hex_byte(c) && is_hex_byte(d),
{
    (hex_value(a) * 4096 + hex_value(b) * 256 + hex_value(c) * 16 + hex_value(d)) as u32
}

/// The Unicode scalar named by a surrogate pair.
pub open spec fn pair_scalar(hi: u32, lo: u32) -> u32
    recommends
        0xD800 <= hi <= 0xDBFF,
        0xDC00 <= lo <= 0xDFFF,
{
    (0x10000 + (hi - 0xD800) * 1024 + (lo - 0xDC00)) as u32
}

/// Parse the body of a JSON string up to and including its closing quote:
/// yields the unescaped bytes (UTF-8 for what an escape names) and the
/// remaining input. Every JSON escape is accepted: the simple ones and
/// `\uXXXX`, with a surrogate pair naming one supplementary scalar; a lone
/// surrogate, a bare control byte or an unterminated string is a parse
/// failure.
pub open spec fn parse_chars(s: Seq<u8>) -> Option<(Seq<u8>, Seq<u8>)>
    decreases s.len(),
{
    if s.len() == 0 {
        None
    } else if s[0] == 34 {
        Some((Seq::empty(), s.drop_first()))
    } else if s[0] == 92 {
        if s.len() < 2 {
            None
        } else {
            let e = s[1];
            if is_simple_escape(e) {
                cons_parsed(unescape_simple(e), parse_chars(s.skip(2)))
            } else if e == 117 {
                if s.len() >= 6 && is_hex_byte(s[2]) && is_hex_byte(s[3]) && is_hex_byte(s[4])
                    && is_hex_byte(s[5]) {
                    let u = hex16(s[2], s[3], s[4], s[5]);
                    if u < 0xD800 || u > 0xDFFF {
                        cons_all(vstd::utf8::encode_scalar(u), parse_chars(s.skip(6)))
                    } else if u <= 0xDBFF {
                        if s.len() >= 12 && s[6] == 92 && s[7] == 117 && is_hex_byte(s[8])
                            && is_hex_byte(s[9]) && is_hex_byte(s[10]) && is_hex_byte(s[11]) {
                            let u2 = hex16(s[8], s[9], s[10], s[11]);
                            if 0xDC00 <= u2 && u2 <= 0xDFFF {
                                cons_all(
                                    vstd::utf8::encode_scalar(pair_scalar(u, u2)),
                                    parse_chars(s.skip(12)),
                                )
                            } else {
                                None
                            }
                        } else {
                            None
                        }
                    } else {
                        None
                    }
                } else {
                    None
                }
            } else {
                None
            }
        }
    } else if s[0] < 32 {
        None
    } else {
        cons_parsed(s[0], parse_chars(s.drop_first()))
    }
}

/// Parse a JSON string with its opening quote.
pub open spec fn parse_jstring(s: Seq<u8>) -> Option<(Seq<u8>, Seq<u8>)> {
    if s.len() > 0 && s[0] == 34 {
        parse_chars(s.drop_first())
    } else {
        None
    }
}

/// Parse a whole input as a JSON object holding exactly one string field,
/// with whitespace allowed in every insignificant position: yields the key
/// and the value. Anything else — including an object with extra or
/// duplicated members — is a parse failure: the responses this grammar is
/// for are documented as exactly one field, and this parser takes that
/// strictly.
pub open spec fn parse_single_object(s: Seq<u8>) -> Option<(Seq<u8>, Seq<u8>)> {
    let s0 = skip_ws_s(s);
    if s0.len() == 0 || s0[0] != 123 {
        None
    } else {
        match parse_jstring(skip_ws_s(s0.drop_first())) {
            None => None,
            Some((k, r1)) => {
                let r2 = skip_ws_s(r1);
                if r2.len() == 0 || r2[0] != 58 {
                    None
                } else {
                    match parse_jstring(skip_ws_s(r2.drop_first())) {
                        None => None,
                        Some((v, r3)) => {
                            let r4 = skip_ws_s(r3);
                            if r4.len() > 0 && r4[0] == 125 && skip_ws_s(r4.drop_first()).len()
                                == 0 {
                                Some((k, v))
                            } else {
                                None
                            }
                        },
                    }
                }
            },
        }
    }
}

/// The value of the single string field of `s`, when `s` is the expected
/// shape and its field is named `key`.
pub open spec fn field_value(s: Seq<u8>, key: Seq<u8>) -> Option<Seq<u8>> {
    match parse_single_object(s) {
        Some((k, v)) => if k == key {
            Some(v)
        } else {
            None
        },
        None => None,
    }
}

// ---------------------------------------------------------------------------
// Suffix bookkeeping lemmas
// ---------------------------------------------------------------------------

proof fn lemma_skip_succ(s: Seq<u8>, i: int)
    requires
        0 <= i < s.len(),
    ensures
        s.skip(i).drop_first() == s.skip(i + 1),
{
    assert(s.skip(i).drop_first() =~= s.skip(i + 1));
}

proof fn lemma_skip_add(s: Seq<u8>, i: int, k: int)
    requires
        0 <= i,
        0 <= k,
        i + k <= s.len(),
    ensures
        s.skip(i).skip(k) == s.skip(i + k),
{
    assert(s.skip(i).skip(k) =~= s.skip(i + k));
}

proof fn lemma_cons_all_push(pre: Seq<u8>, b: u8, r: Option<(Seq<u8>, Seq<u8>)>)
    ensures
        cons_all(pre, cons_parsed(b, r)) == cons_all(pre.push(b), r),
{
    match r {
        Some((v, rest)) => {
            assert(pre + (seq![b] + v) =~= pre.push(b) + v);
        },
        None => {},
    }
}

proof fn lemma_cons_all_assoc(pre: Seq<u8>, mid: Seq<u8>, r: Option<(Seq<u8>, Seq<u8>)>)
    ensures
        cons_all(pre, cons_all(mid, r)) == cons_all(pre + mid, r),
{
    match r {
        Some((v, rest)) => {
            assert(pre + (mid + v) =~= (pre + mid) + v);
        },
        None => {},
    }
}

// ---------------------------------------------------------------------------
// Round trip: the parser recovers what the encoder wrote
// ---------------------------------------------------------------------------

/// A field key that needs no escaping: no control bytes, no quote, no
/// backslash. Every key of this protocol satisfies it.
pub open spec fn plain_field_key(k: Seq<u8>) -> bool {
    forall|i: int| 0 <= i < k.len() ==> 32 <= k[i] && k[i] != 34 && k[i] != 92
}

proof fn lemma_parse_chars_plain(k: Seq<u8>, rest: Seq<u8>)
    requires
        plain_field_key(k),
    ensures
        parse_chars(k + seq![34u8] + rest) == Some((k, rest)),
    decreases k.len(),
{
    let s = k + seq![34u8] + rest;
    if k.len() == 0 {
        assert(s[0] == 34);
        assert(s.drop_first() =~= rest);
        assert(k =~= Seq::<u8>::empty());
    } else {
        assert(s[0] == k[0]);
        assert(32 <= k[0] && k[0] != 34 && k[0] != 92);
        assert(plain_field_key(k.drop_first())) by {
            assert forall|i: int| 0 <= i < k.drop_first().len() implies 32 <= k.drop_first()[i]
                && k.drop_first()[i] != 34 && k.drop_first()[i] != 92 by {
                assert(k.drop_first()[i] == k[i + 1]);
            }
        }
        assert(s.drop_first() =~= k.drop_first() + seq![34u8] + rest);
        lemma_parse_chars_plain(k.drop_first(), rest);
        assert(parse_chars(s) == cons_parsed(k[0], parse_chars(s.drop_first())));
        assert(seq![k[0]] + k.drop_first() =~= k);
    }
}

proof fn lemma_parse_chars_escaped(v: Seq<u8>, rest: Seq<u8>)
    ensures
        parse_chars(esc_bytes(v) + seq![34u8] + rest) == Some((v, rest)),
    decreases v.len(),
{
    let s = esc_bytes(v) + seq![34u8] + rest;
    if v.len() == 0 {
        assert(esc_bytes(v) =~= Seq::<u8>::empty());
        assert(s[0] == 34);
        assert(s.drop_first() =~= rest);
        assert(v =~= Seq::<u8>::empty());
    } else {
        let b = v[0];
        lemma_parse_chars_escaped(v.drop_first(), rest);
        let s1 = esc_bytes(v.drop_first()) + seq![34u8] + rest;
        assert(esc_bytes(v) == esc_byte(b) + esc_bytes(v.drop_first()));
        if b == 34 || b == 92 {
            assert(s[0] == 92 && s[1] == b);
            assert(s.skip(2) =~= s1);
            assert(unescape_simple(b) == b);
            assert(parse_chars(s) == cons_parsed(b, parse_chars(s1)));
        } else if b == 8 || b == 9 || b == 10 || b == 12 || b == 13 {
            let e = esc_byte(b)[1];
            assert(s[0] == 92 && s[1] == e);
            assert(is_simple_escape(e) && unescape_simple(e) == b);
            assert(s.skip(2) =~= s1);
            assert(parse_chars(s) == cons_parsed(b, parse_chars(s1)));
        } else if b < 32 {
            assert(s[0] == 92 && s[1] == 117 && s[2] == 48 && s[3] == 48);
            assert(s[4] == hex_digit_byte(b / 16) && s[5] == hex_digit_byte(b % 16));
            assert(b / 16 < 2 && b % 16 < 16);
            assert(is_hex_byte(hex_digit_byte(b / 16)));
            assert(is_hex_byte(hex_digit_byte(b % 16)));
            assert(hex_value(hex_digit_byte(b / 16)) == b / 16);
            assert(hex_value(hex_digit_byte(b % 16)) == b % 16);
            assert(b / 16 * 16 + b % 16 == b);
            assert(is_hex_byte(48));
            let u = hex16(s[2], s[3], s[4], s[5]);
            assert(u == b as u32);
            assert(b < 32 ==> ((b as u32) & 0x7F) as u8 == b) by (bit_vector);
            assert(vstd::utf8::encode_scalar(u) =~= seq![b]);
            assert(s.skip(6) =~= s1);
            assert(cons_all(seq![b], parse_chars(s1)) == cons_parsed(b, parse_chars(s1)));
            assert(parse_chars(s) == cons_parsed(b, parse_chars(s1)));
        } else {
            assert(s[0] == b && b >= 32 && b != 34 && b != 92);
            assert(s.drop_first() =~= s1);
            assert(parse_chars(s) == cons_parsed(b, parse_chars(s1)));
        }
        assert(seq![b] + v.drop_first() =~= v);
    }
}

/// Law: parsing recovers encoding. For every plain key and every value,
/// the canonical single-field object `{"<key>":"<value>"}` parses back to
/// exactly that value under that key.
pub proof fn lemma_field_round_trip(key: Seq<u8>, value: Seq<u8>)
    requires
        plain_field_key(key),
    ensures
        field_value(object_bytes(key, value), key) == Some(value),
{
    let s = object_bytes(key, value);
    assert(s[0] == 123);
    assert(skip_ws_s(s) == s);
    let t1 = seq![34u8] + key + seq![34u8, 58u8, 34u8] + esc_bytes(value) + seq![34u8, 125u8];
    assert(s.drop_first() =~= t1);
    assert(t1[0] == 34);
    assert(skip_ws_s(t1) == t1);
    let rest1 = seq![58u8, 34u8] + esc_bytes(value) + seq![34u8, 125u8];
    assert(t1.drop_first() =~= key + seq![34u8] + rest1);
    lemma_parse_chars_plain(key, rest1);
    assert(parse_jstring(t1) == Some((key, rest1)));
    assert(rest1[0] == 58);
    assert(skip_ws_s(rest1) == rest1);
    let t2 = seq![34u8] + esc_bytes(value) + seq![34u8, 125u8];
    assert(rest1.drop_first() =~= t2);
    assert(t2[0] == 34);
    assert(skip_ws_s(t2) == t2);
    assert(t2.drop_first() =~= esc_bytes(value) + seq![34u8] + seq![125u8]);
    lemma_parse_chars_escaped(value, seq![125u8]);
    assert(parse_jstring(t2) == Some((value, seq![125u8])));
    let t3 = seq![125u8];
    assert(t3[0] == 125);
    assert(skip_ws_s(t3) == t3);
    assert(t3.drop_first() =~= Seq::<u8>::empty());
    assert(skip_ws_s(t3.drop_first()).len() == 0);
    assert(parse_single_object(s) == Some((key, value)));
}

// ---------------------------------------------------------------------------
// Parser (executable)
// ---------------------------------------------------------------------------

fn skip_ws_exec(s: &[u8], from: usize) -> (r: usize)
    requires
        from <= s@.len(),
    ensures
        from <= r <= s@.len(),
        s@.skip(r as int) == skip_ws_s(s@.skip(from as int)),
{
    let mut i = from;
    while i < s.len() && (s[i] == 32 || s[i] == 9 || s[i] == 10 || s[i] == 13)
        invariant
            from <= i <= s@.len(),
            skip_ws_s(s@.skip(from as int)) == skip_ws_s(s@.skip(i as int)),
        decreases s@.len() - i,
    {
        proof {
            lemma_skip_succ(s@, i as int);
        }
        i = i + 1;
    }
    i
}

fn is_hex_exec(b: u8) -> (r: bool)
    ensures
        r == is_hex_byte(b),
{
    (48 <= b && b <= 57) || (97 <= b && b <= 102) || (65 <= b && b <= 70)
}

fn hex_value_exec(b: u8) -> (r: u8)
    requires
        is_hex_byte(b),
    ensures
        r == hex_value(b),
{
    if 48 <= b && b <= 57 {
        b - 48
    } else if 97 <= b && b <= 102 {
        b - 87
    } else {
        b - 55
    }
}

/// Append the UTF-8 encoding of one Unicode scalar, as
/// [`vstd::utf8::encode_scalar`] states it.
fn push_scalar_utf8(out: &mut Vec<u8>, u: u32)
    requires
        vstd::utf8::is_scalar(u),
    ensures
        final(out)@ == old(out)@ + vstd::utf8::encode_scalar(u),
{
    if u <= 0x7F {
        out.push(#[verifier::truncate] ((u & 0x7F) as u8));
    } else if u <= 0x7FF {
        out.push(0xC0 | #[verifier::truncate] (((u >> 6) & 0x1F) as u8));
        out.push(0x80 | #[verifier::truncate] ((u & 0x3F) as u8));
    } else if u <= 0xFFFF {
        out.push(0xE0 | #[verifier::truncate] (((u >> 12) & 0x0F) as u8));
        out.push(0x80 | #[verifier::truncate] (((u >> 6) & 0x3F) as u8));
        out.push(0x80 | #[verifier::truncate] ((u & 0x3F) as u8));
    } else {
        out.push(0xF0 | #[verifier::truncate] (((u >> 18) & 0x7) as u8));
        out.push(0x80 | #[verifier::truncate] (((u >> 12) & 0x3F) as u8));
        out.push(0x80 | #[verifier::truncate] (((u >> 6) & 0x3F) as u8));
        out.push(0x80 | #[verifier::truncate] ((u & 0x3F) as u8));
    }
    proof {
        assert(out@ =~= old(out)@ + vstd::utf8::encode_scalar(u));
    }
}

#[verifier::rlimit(60)]
fn parse_chars_exec(s: &[u8], from: usize) -> (r: Option<(Vec<u8>, usize)>)
    requires
        from <= s@.len(),
    ensures
        match r {
            Some(p) => from <= p.1 <= s@.len() && parse_chars(s@.skip(from as int)) == Some(
                (p.0@, s@.skip(p.1 as int)),
            ),
            None => parse_chars(s@.skip(from as int)) is None,
        },
{
    let mut i = from;
    let mut acc: Vec<u8> = Vec::new();
    loop
        invariant
            from <= i <= s@.len(),
            parse_chars(s@.skip(from as int)) == cons_all(acc@, parse_chars(s@.skip(i as int))),
        decreases s@.len() - i,
    {
        if i == s.len() {
            return None;
        }
        let b = s[i];
        if b == 34 {
            proof {
                lemma_skip_succ(s@, i as int);
                assert(acc@ + Seq::<u8>::empty() =~= acc@);
            }
            return Some((acc, i + 1));
        }
        if b == 92 {
            if s.len() - i < 2 {
                return None;
            }
            let e = s[i + 1];
            if e == 34 || e == 92 || e == 47 || e == 98 || e == 102 || e == 110 || e == 114 || e
                == 116 {
                let d: u8 = if e == 98 {
                    8
                } else if e == 116 {
                    9
                } else if e == 110 {
                    10
                } else if e == 102 {
                    12
                } else if e == 114 {
                    13
                } else {
                    e
                };
                proof {
                    lemma_skip_add(s@, i as int, 2);
                    assert(s@.skip(i as int)[0] == 92);
                    assert(s@.skip(i as int)[1] == e);
                    assert(s@.skip(i as int).len() == s@.len() - i);
                    assert(is_simple_escape(e));
                    assert(unescape_simple(e) == d);
                    assert(parse_chars(s@.skip(i as int)) == cons_parsed(
                        d,
                        parse_chars(s@.skip(i as int + 2)),
                    ));
                    lemma_cons_all_push(acc@, d, parse_chars(s@.skip(i as int + 2)));
                }
                acc.push(d);
                i = i + 2;
            } else if e == 117 {
                if s.len() - i < 6 {
                    return None;
                }
                let h2 = s[i + 2];
                let h3 = s[i + 3];
                let h4 = s[i + 4];
                let h5 = s[i + 5];
                if !(is_hex_exec(h2) && is_hex_exec(h3) && is_hex_exec(h4) && is_hex_exec(h5)) {
                    return None;
                }
                let u: u32 = hex_value_exec(h2) as u32 * 4096 + hex_value_exec(h3) as u32 * 256
                    + hex_value_exec(h4) as u32 * 16 + hex_value_exec(h5) as u32;
                proof {
                    assert(u == hex16(h2, h3, h4, h5));
                }
                if u < 0xD800 || u > 0xDFFF {
                    proof {
                        lemma_skip_add(s@, i as int, 6);
                        assert(parse_chars(s@.skip(i as int)) == cons_all(
                            vstd::utf8::encode_scalar(u),
                            parse_chars(s@.skip(i as int + 6)),
                        ));
                        lemma_cons_all_assoc(
                            acc@,
                            vstd::utf8::encode_scalar(u),
                            parse_chars(s@.skip(i as int + 6)),
                        );
                    }
                    push_scalar_utf8(&mut acc, u);
                    i = i + 6;
                } else if u <= 0xDBFF {
                    if s.len() - i < 12 {
                        return None;
                    }
                    if !(s[i + 6] == 92 && s[i + 7] == 117) {
                        return None;
                    }
                    let g8 = s[i + 8];
                    let g9 = s[i + 9];
                    let g10 = s[i + 10];
                    let g11 = s[i + 11];
                    if !(is_hex_exec(g8) && is_hex_exec(g9) && is_hex_exec(g10) && is_hex_exec(
                        g11,
                    )) {
                        return None;
                    }
                    let u2: u32 = hex_value_exec(g8) as u32 * 4096 + hex_value_exec(g9) as u32
                        * 256 + hex_value_exec(g10) as u32 * 16 + hex_value_exec(g11) as u32;
                    proof {
                        assert(u2 == hex16(g8, g9, g10, g11));
                    }
                    if !(0xDC00 <= u2 && u2 <= 0xDFFF) {
                        return None;
                    }
                    let sc: u32 = 0x10000 + (u - 0xD800) * 1024 + (u2 - 0xDC00);
                    proof {
                        assert(sc == pair_scalar(u, u2));
                        lemma_skip_add(s@, i as int, 12);
                        assert(parse_chars(s@.skip(i as int)) == cons_all(
                            vstd::utf8::encode_scalar(sc),
                            parse_chars(s@.skip(i as int + 12)),
                        ));
                        lemma_cons_all_assoc(
                            acc@,
                            vstd::utf8::encode_scalar(sc),
                            parse_chars(s@.skip(i as int + 12)),
                        );
                    }
                    push_scalar_utf8(&mut acc, sc);
                    i = i + 12;
                } else {
                    return None;
                }
            } else {
                return None;
            }
        } else if b < 32 {
            return None;
        } else {
            proof {
                lemma_skip_succ(s@, i as int);
                assert(parse_chars(s@.skip(i as int)) == cons_parsed(
                    b,
                    parse_chars(s@.skip(i as int + 1)),
                ));
                lemma_cons_all_push(acc@, b, parse_chars(s@.skip(i as int + 1)));
            }
            acc.push(b);
            i = i + 1;
        }
    }
}

fn parse_jstring_exec(s: &[u8], from: usize) -> (r: Option<(Vec<u8>, usize)>)
    requires
        from <= s@.len(),
    ensures
        match r {
            Some(p) => from <= p.1 <= s@.len() && parse_jstring(s@.skip(from as int)) == Some(
                (p.0@, s@.skip(p.1 as int)),
            ),
            None => parse_jstring(s@.skip(from as int)) is None,
        },
{
    if from == s.len() {
        return None;
    }
    if s[from] != 34 {
        return None;
    }
    proof {
        lemma_skip_succ(s@, from as int);
    }
    parse_chars_exec(s, from + 1)
}

/// Parse a whole input as a single-string-field object; the executable
/// mirror of [`parse_single_object`].
fn parse_object_exec(s: &[u8]) -> (r: Option<(Vec<u8>, Vec<u8>)>)
    ensures
        match r {
            Some(p) => parse_single_object(s@) == Some((p.0@, p.1@)),
            None => parse_single_object(s@) is None,
        },
{
    proof {
        assert(s@.skip(0) =~= s@);
    }
    let i0 = skip_ws_exec(s, 0);
    if i0 == s.len() {
        return None;
    }
    if s[i0] != 123 {
        return None;
    }
    proof {
        lemma_skip_succ(s@, i0 as int);
    }
    let i1 = skip_ws_exec(s, i0 + 1);
    let (k, i2) = match parse_jstring_exec(s, i1) {
        None => {
            return None;
        },
        Some(p) => p,
    };
    let i3 = skip_ws_exec(s, i2);
    if i3 == s.len() {
        return None;
    }
    if s[i3] != 58 {
        return None;
    }
    proof {
        lemma_skip_succ(s@, i3 as int);
    }
    let i4 = skip_ws_exec(s, i3 + 1);
    let (v, i5) = match parse_jstring_exec(s, i4) {
        None => {
            return None;
        },
        Some(p) => p,
    };
    let i6 = skip_ws_exec(s, i5);
    if i6 == s.len() {
        return None;
    }
    if s[i6] != 125 {
        return None;
    }
    proof {
        lemma_skip_succ(s@, i6 as int);
    }
    let i7 = skip_ws_exec(s, i6 + 1);
    if i7 != s.len() {
        return None;
    }
    Some((k, v))
}

fn bytes_eq(a: &[u8], b: &[u8]) -> (r: bool)
    ensures
        r == (a@ == b@),
{
    if a.len() != b.len() {
        proof {
            assert(a@ != b@);
        }
        return false;
    }
    let mut i: usize = 0;
    while i < a.len()
        invariant
            i <= a@.len(),
            a@.len() == b@.len(),
            forall|k: int| 0 <= k < i ==> a@[k] == b@[k],
        decreases a@.len() - i,
    {
        if a[i] != b[i] {
            proof {
                assert(a@ != b@);
            }
            return false;
        }
        i = i + 1;
    }
    proof {
        assert(a@ =~= b@);
    }
    true
}

/// Extract the value of the single string field named `key`, when the
/// input is the expected object shape; the executable mirror of
/// [`field_value`].
pub fn parse_string_field(s: &[u8], key: &[u8]) -> (r: Option<Vec<u8>>)
    ensures
        match r {
            Some(v) => field_value(s@, key@) == Some(v@),
            None => field_value(s@, key@) is None,
        },
{
    match parse_object_exec(s) {
        None => None,
        Some((k, v)) => if bytes_eq(k.as_slice(), key) {
            Some(v)
        } else {
            None
        },
    }
}

// ---------------------------------------------------------------------------
// Encoder (executable)
// ---------------------------------------------------------------------------

fn hex_digit(n: u8) -> (r: u8)
    requires
        n < 16,
    ensures
        r == hex_digit_byte(n),
{
    if n < 10 {
        48 + n
    } else {
        87 + n
    }
}

/// Append the canonical escaping of one byte.
fn push_escaped(out: &mut Vec<u8>, b: u8)
    ensures
        final(out)@ == old(out)@ + esc_byte(b),
{
    if b == 34 {
        out.push(92);
        out.push(34);
    } else if b == 92 {
        out.push(92);
        out.push(92);
    } else if b == 8 {
        out.push(92);
        out.push(98);
    } else if b == 9 {
        out.push(92);
        out.push(116);
    } else if b == 10 {
        out.push(92);
        out.push(110);
    } else if b == 12 {
        out.push(92);
        out.push(102);
    } else if b == 13 {
        out.push(92);
        out.push(114);
    } else if b < 32 {
        out.push(92);
        out.push(117);
        out.push(48);
        out.push(48);
        out.push(hex_digit(b / 16));
        out.push(hex_digit(b % 16));
    } else {
        out.push(b);
    }
    proof {
        assert(out@ =~= old(out)@ + esc_byte(b));
    }
}

proof fn lemma_esc_bytes_append(s: Seq<u8>, b: u8)
    ensures
        esc_bytes(s.push(b)) == esc_bytes(s) + esc_byte(b),
    decreases s.len(),
{
    if s.len() == 0 {
        assert(s.push(b).drop_first() =~= Seq::<u8>::empty());
        assert(s.push(b)[0] == b);
        assert(esc_bytes(s.push(b)) == esc_byte(b) + esc_bytes(Seq::<u8>::empty()));
        assert(esc_bytes(s.push(b)) =~= esc_bytes(s) + esc_byte(b));
    } else {
        assert(s.push(b).drop_first() =~= s.drop_first().push(b));
        assert(s.push(b)[0] == s[0]);
        lemma_esc_bytes_append(s.drop_first(), b);
        assert(esc_bytes(s.push(b)) == esc_byte(s[0]) + (esc_bytes(s.drop_first()) + esc_byte(b)));
        assert(esc_bytes(s.push(b)) =~= esc_bytes(s) + esc_byte(b));
    }
}

/// Append the canonical escaping of a whole string body.
fn push_escaped_all(out: &mut Vec<u8>, s: &[u8])
    ensures
        final(out)@ == old(out)@ + esc_bytes(s@),
{
    let mut i: usize = 0;
    while i < s.len()
        invariant
            i <= s@.len(),
            out@ == old(out)@ + esc_bytes(s@.subrange(0, i as int)),
        decreases s@.len() - i,
    {
        push_escaped(out, s[i]);
        proof {
            assert(s@.subrange(0, i + 1 as int) =~= s@.subrange(0, i as int).push(s@[i as int]));
            lemma_esc_bytes_append(s@.subrange(0, i as int), s@[i as int]);
        }
        i = i + 1;
    }
    proof {
        assert(s@.subrange(0, s@.len() as int) =~= s@);
    }
}

/// Relies on String::from_utf8: it succeeds exactly on valid UTF-8 input,
/// and then returns the string whose encoding is that input.
#[verifier::external_body]
pub(crate) fn bytes_to_string(v: Vec<u8>) -> (r: Option<String>)
    ensures
        r is Some <==> vstd::utf8::valid_utf8(v@),
        r matches Some(s) ==> s@ == vstd::utf8::decode_utf8(v@),
{
    String::from_utf8(v).ok()
}

/// Build the Handshake Frame for a session: the canonical serialization of
/// `{"token": token, "stateId": state_id}` as UTF-8 bytes, exactly
/// [`handshake_bytes`] applied to the UTF-8 encodings of the two strings.
pub fn handshake_frame(token: &str, state_id: &str) -> (r: Vec<u8>)
    ensures
        r@ == handshake_bytes(
            vstd::utf8::encode_utf8(token@),
            vstd::utf8::encode_utf8(state_id@),
        ),
{
    let mut out: Vec<u8> = Vec::new();
    out.push(123);  // {
    out.push(34);  // "
    out.push(116);  // t
    out.push(111);  // o
    out.push(107);  // k
    out.push(101);  // e
    out.push(110);  // n
    out.push(34);  // "
    out.push(58);  // :
    out.push(34);  // "
    proof {
        assert(out@ =~= seq![123u8, 34u8] + token_key() + seq![34u8, 58u8, 34u8]);
    }
    push_escaped_all(&mut out, token.as_bytes());
    out.push(34);  // "
    out.push(44);  // ,
    out.push(34);  // "
    out.push(115);  // s
    out.push(116);  // t
    out.push(97);  // a
    out.push(116);  // t
    out.push(101);  // e
    out.push(73);  // I
    out.push(100);  // d
    out.push(34);  // "
    out.push(58);  // :
    out.push(34);  // "
    push_escaped_all(&mut out, state_id.as_bytes());
    out.push(34);  // "
    out.push(125);  // }
    proof {
        assert(out@ =~= handshake_bytes(
            vstd::utf8::encode_utf8(token@),
            vstd::utf8::encode_utf8(state_id@),
        ));
    }
    out
}

} // verus!
