//! Unpadded base64url (the encoding of bearer-token segments): a spec-level
//! decoder, a verified validity check, and the call into the `base64` crate
//! for the decoding itself.

use vstd::prelude::*;

verus! {

/// The 6-bit value of one base64url alphabet byte
/// (`A-Z`, `a-z`, `0-9`, `-`, `_`).
pub open spec fn b64url_val(b: u8) -> Option<u8> {
    if 65 <= b && b <= 90 {
        Some((b - 65) as u8)
    } else if 97 <= b && b <= 122 {
        Some((b - 71) as u8)
    } else if 48 <= b && b <= 57 {
        Some((b + 4) as u8)
    } else if b == 45 {
        Some(62u8)
    } else if b == 95 {
        Some(63u8)
    } else {
        None
    }
}

/// Decode unpadded base64url: four symbols yield three bytes; a tail of two
/// or three symbols yields one or two bytes and must leave its unused low
/// bits zero; a tail of one symbol, a byte outside the alphabet, or nonzero
/// unused bits make the input invalid.
pub open spec fn b64url_decode(s: Seq<u8>) -> Option<Seq<u8>>
    decreases s.len(),
{
    if s.len() == 0 {
        Some(Seq::empty())
    } else if s.len() == 1 {
        None
    } else if s.len() == 2 {
        match (b64url_val(s[0]), b64url_val(s[1])) {
            (Some(a), Some(b)) => if b % 16 == 0 {
                Some(seq![(a * 4 + b / 16) as u8])
            } else {
                None
            },
            _ => None,
        }
    } else if s.len() == 3 {
        match (b64url_val(s[0]), b64url_val(s[1]), b64url_val(s[2])) {
            (Some(a), Some(b), Some(c)) => if c % 4 == 0 {
                Some(seq![(a * 4 + b / 16) as u8, (b % 16 * 16 + c / 4) as u8])
            } else {
                None
            },
            _ => None,
        }
    } else {
        match (b64url_val(s[0]), b64url_val(s[1]), b64url_val(s[2]), b64url_val(s[3])) {
            (Some(a), Some(b), Some(c), Some(d)) => match b64url_decode(s.skip(4)) {
                Some(rest) => Some(
                    seq![
                        (a * 4 + b / 16) as u8,
                        (b % 16 * 16 + c / 4) as u8,
                        (c % 4 * 64 + d) as u8,
                    ] + rest,
                ),
                None => None,
            },
            _ => None,
        }
    }
}

/// The alphabet byte of a 6-bit value: the inverse of [`b64url_val`].
pub open spec fn b64url_sym(v: u8) -> u8
    recommends
        v < 64,
{
    if v < 26 {
        (65 + v) as u8
    } else if v < 52 {
        (71 + v) as u8
    } else if v < 62 {
        (v - 4) as u8
    } else if v == 62 {
        45u8
    } else {
        95u8
    }
}

/// Encode bytes as unpadded base64url: three bytes become four symbols; a
/// tail of one or two bytes becomes two or three symbols with the unused
/// low bits zero.
pub open spec fn b64url_encode(s: Seq<u8>) -> Seq<u8>
    decreases s.len(),
{
    if s.len() == 0 {
        Seq::empty()
    } else if s.len() == 1 {
        seq![b64url_sym(s[0] / 4), b64url_sym((s[0] % 4 * 16) as u8)]
    } else if s.len() == 2 {
        seq![
            b64url_sym(s[0] / 4),
            b64url_sym((s[0] % 4 * 16 + s[1] / 16) as u8),
            b64url_sym((s[1] % 16 * 4) as u8),
        ]
    } else {
        seq![
            b64url_sym(s[0] / 4),
            b64url_sym((s[0] % 4 * 16 + s[1] / 16) as u8),
            b64url_sym((s[1] % 16 * 4 + s[2] / 64) as u8),
            b64url_sym((s[2] % 64) as u8),
        ] + b64url_encode(s.skip(3))
    }
}

proof fn lemma_val_of_sym(v: u8)
    requires
        v < 64,
    ensures
        b64url_val(b64url_sym(v)) == Some(v),
        b64url_sym(v) != 46,
{
}

/// Law: decoding recovers encoding — every byte string comes back exactly
/// from its unpadded base64url form.
pub proof fn lemma_b64url_round_trip(s: Seq<u8>)
    ensures
        b64url_decode(b64url_encode(s)) == Some(s),
    decreases s.len(),
{
    let e = b64url_encode(s);
    if s.len() == 0 {
    } else if s.len() == 1 {
        let a0 = (s[0] / 4) as u8;
        let a1 = (s[0] % 4 * 16) as u8;
        lemma_val_of_sym(a0);
        lemma_val_of_sym(a1);
        assert(e[0] == b64url_sym(a0) && e[1] == b64url_sym(a1));
        assert(a1 % 16 == 0);
        assert(a0 * 4 + a1 / 16 == s[0]);
        assert(seq![(a0 * 4 + a1 / 16) as u8] =~= s);
    } else if s.len() == 2 {
        let a0 = (s[0] / 4) as u8;
        let a1 = (s[0] % 4 * 16 + s[1] / 16) as u8;
        let a2 = (s[1] % 16 * 4) as u8;
        lemma_val_of_sym(a0);
        lemma_val_of_sym(a1);
        lemma_val_of_sym(a2);
        assert(a2 % 4 == 0);
        assert(a1 / 16 == s[0] % 4 && a1 % 16 == s[1] / 16);
        assert(a0 * 4 + a1 / 16 == s[0]);
        assert(a1 % 16 * 16 + a2 / 4 == s[1]);
        assert(seq![(a0 * 4 + a1 / 16) as u8, (a1 % 16 * 16 + a2 / 4) as u8] =~= s);
    } else {
        let a0 = (s[0] / 4) as u8;
        let a1 = (s[0] % 4 * 16 + s[1] / 16) as u8;
        let a2 = (s[1] % 16 * 4 + s[2] / 64) as u8;
        let a3 = (s[2] % 64) as u8;
        lemma_val_of_sym(a0);
        lemma_val_of_sym(a1);
        lemma_val_of_sym(a2);
        lemma_val_of_sym(a3);
        lemma_b64url_round_trip(s.skip(3));
        assert(e.skip(4) =~= b64url_encode(s.skip(3)));
        assert(e[0] == b64url_sym(a0) && e[1] == b64url_sym(a1) && e[2] == b64url_sym(a2) && e[3]
            == b64url_sym(a3));
        assert(a1 / 16 == s[0] % 4 && a1 % 16 == s[1] / 16);
        assert(a2 / 4 == s[1] % 16 && a2 % 4 == s[2] / 64);
        assert(a0 * 4 + a1 / 16 == s[0]);
        assert(a1 % 16 * 16 + a2 / 4 == s[1]);
        assert(a2 % 4 * 64 + a3 == s[2]);
        assert(seq![
            (a0 * 4 + a1 / 16) as u8,
            (a1 % 16 * 16 + a2 / 4) as u8,
            (a2 % 4 * 64 + a3) as u8,
        ] + s.skip(3) =~= s);
    }
}

/// Every symbol the encoder emits is in the alphabet — in particular none
/// is a dot.
pub proof fn lemma_b64url_encode_no_dot(s: Seq<u8>)
    ensures
        forall|i: int| 0 <= i < b64url_encode(s).len() ==> b64url_encode(s)[i] != 46,
    decreases s.len(),
{
    if s.len() == 0 {
    } else if s.len() == 1 {
        lemma_val_of_sym((s[0] / 4) as u8);
        lemma_val_of_sym((s[0] % 4 * 16) as u8);
    } else if s.len() == 2 {
        lemma_val_of_sym((s[0] / 4) as u8);
        lemma_val_of_sym((s[0] % 4 * 16 + s[1] / 16) as u8);
        lemma_val_of_sym((s[1] % 16 * 4) as u8);
    } else {
        lemma_val_of_sym((s[0] / 4) as u8);
        lemma_val_of_sym((s[0] % 4 * 16 + s[1] / 16) as u8);
        lemma_val_of_sym((s[1] % 16 * 4 + s[2] / 64) as u8);
        lemma_val_of_sym((s[2] % 64) as u8);
        lemma_b64url_encode_no_dot(s.skip(3));
        assert forall|i: int| 0 <= i < b64url_encode(s).len() implies b64url_encode(s)[i]
            != 46 by {
            if i >= 4 {
                assert(b64url_encode(s)[i] == b64url_encode(s.skip(3))[i - 4]);
            }
        }
    }
}

fn b64url_val_exec(b: u8) -> (r: Option<u8>)
    ensures
        r == b64url_val(b),
{
    if 65 <= b && b <= 90 {
        Some(b - 65)
    } else if 97 <= b && b <= 122 {
        Some(b - 71)
    } else if 48 <= b && b <= 57 {
        Some(b + 4)
    } else if b == 45 {
        Some(62)
    } else if b == 95 {
        Some(63)
    } else {
        None
    }
}

fn b64url_valid_from(s: &[u8], i: usize) -> (r: bool)
    requires
        i <= s@.len(),
    ensures
        r == (b64url_decode(s@.skip(i as int)) is Some),
    decreases s@.len() - i,
{
    let n = s.len() - i;
    if n == 0 {
        true
    } else if n == 1 {
        false
    } else if n == 2 {
        let v0 = b64url_val_exec(s[i]);
        let v1 = b64url_val_exec(s[i + 1]);
        match (v0, v1) {
            (Some(_), Some(b)) => b % 16 == 0,
            _ => false,
        }
    } else if n == 3 {
        let v0 = b64url_val_exec(s[i]);
        let v1 = b64url_val_exec(s[i + 1]);
        let v2 = b64url_val_exec(s[i + 2]);
        match (v0, v1, v2) {
            (Some(_), Some(_), Some(c)) => c % 4 == 0,
            _ => false,
        }
    } else {
        let v0 = b64url_val_exec(s[i]);
        let v1 = b64url_val_exec(s[i + 1]);
        let v2 = b64url_val_exec(s[i + 2]);
        let v3 = b64url_val_exec(s[i + 3]);
        proof {
            assert(s@.skip(i as int).skip(4) =~= s@.skip(i as int + 4));
        }
        match (v0, v1, v2, v3) {
            (Some(_), Some(_), Some(_), Some(_)) => b64url_valid_from(s, i + 4),
            _ => false,
        }
    }
}

/// Whether a byte string is valid unpadded base64url.
pub fn b64url_valid(s: &[u8]) -> (r: bool)
    ensures
        r == (b64url_decode(s@) is Some),
{
    proof {
        assert(s@.skip(0) =~= s@);
    }
    b64url_valid_from(s, 0)
}

/// Relies on base64::decode_config with URL_SAFE_NO_PAD: on input that is
/// valid unpadded base64url (every byte in the alphabet, no length leaving
/// a single trailing symbol, zero unused trailing bits) it returns Ok with
/// exactly the decoded bytes.
#[verifier::external_body]
fn b64url_decode_call(s: &[u8]) -> (r: Vec<u8>)
    requires
        b64url_decode(s@) is Some,
    ensures
        r@ == b64url_decode(s@).unwrap(),
{
    base64::decode_config(s, base64::URL_SAFE_NO_PAD).unwrap()
}

/// Decode a byte string as unpadded base64url, checking validity first.
pub fn b64url_decode_exec(s: &[u8]) -> (r: Option<Vec<u8>>)
    ensures
        match r {
            Some(v) => b64url_decode(s@) == Some(v@),
            None => b64url_decode(s@) is None,
        },
{
    if b64url_valid(s) {
        Some(b64url_decode_call(s))
    } else {
        None
    }
}

} // verus!
