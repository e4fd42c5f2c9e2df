//! Token Codec: extract the user identifier embedded in a bearer token.
//!
//! A token is a dot-delimited string whose second segment is unpadded
//! base64url over a JSON object with an `id` field. The extraction here is
//! an untrusted, display-only decode: no signature is checked, and nothing
//! read this way may serve as an authorization decision.

use vstd::prelude::*;
use crate::b64url::b64url_decode;
use crate::b64url::b64url_decode_exec;
use crate::errors::HathoraError;
use crate::json::bytes_to_string;
use crate::json::field_value;
use crate::json::id_key;
use crate::json::object_bytes;
use crate::json::parse_string_field;

verus! {

/// Everything after the first dot, when there is one.
pub open spec fn after_first_dot(t: Seq<u8>) -> Option<Seq<u8>>
    decreases t.len(),
{
    if t.len() == 0 {
        None
    } else if t[0] == 46 {
        Some(t.drop_first())
    } else {
        after_first_dot(t.drop_first())
    }
}

/// Everything up to the next dot (or the end).
pub open spec fn up_to_dot(t: Seq<u8>) -> Seq<u8>
    decreases t.len(),
{
    if t.len() == 0 {
        t
    } else if t[0] == 46 {
        Seq::empty()
    } else {
        seq![t[0]] + up_to_dot(t.drop_first())
    }
}

/// The second dot-delimited segment of a token, when the token has at
/// least two segments.
pub open spec fn second_segment(t: Seq<u8>) -> Option<Seq<u8>> {
    match after_first_dot(t) {
        Some(r) => Some(up_to_dot(r)),
        None => None,
    }
}

/// What extracting the user id from the UTF-8 bytes of a token yields:
/// the `id` field of the base64url-decoded second segment, or
/// `MalformedToken` when the token has fewer than two segments, the
/// segment is not valid base64url, or the decoded bytes are not the
/// expected JSON shape with a UTF-8 value.
pub open spec fn user_id_result(t: Seq<u8>) -> Result<Seq<char>, HathoraError> {
    match second_segment(t) {
        None => Err(HathoraError::MalformedToken),
        Some(seg) => match b64url_decode(seg) {
            None => Err(HathoraError::MalformedToken),
            Some(bytes) => match field_value(bytes, id_key()) {
                None => Err(HathoraError::MalformedToken),
                Some(idb) => if vstd::utf8::valid_utf8(idb) {
                    Ok(vstd::utf8::decode_utf8(idb))
                } else {
                    Err(HathoraError::MalformedToken)
                },
            },
        },
    }
}

proof fn lemma_after_first_dot_prefix(header: Seq<u8>, rest: Seq<u8>)
    requires
        forall|i: int| 0 <= i < header.len() ==> header[i] != 46,
    ensures
        after_first_dot(header + seq![46u8] + rest) == Some(rest),
    decreases header.len(),
{
    let t = header + seq![46u8] + rest;
    if header.len() == 0 {
        assert(t[0] == 46);
        assert(t.drop_first() =~= rest);
    } else {
        assert(t[0] == header[0] && header[0] != 46);
        assert(t.drop_first() =~= header.drop_first() + seq![46u8] + rest);
        assert forall|i: int|
            0 <= i < header.drop_first().len() implies header.drop_first()[i] != 46 by {
            assert(header.drop_first()[i] == header[i + 1]);
        }
        lemma_after_first_dot_prefix(header.drop_first(), rest);
    }
}

proof fn lemma_up_to_dot_prefix(seg: Seq<u8>, rest: Seq<u8>)
    requires
        forall|i: int| 0 <= i < seg.len() ==> seg[i] != 46,
    ensures
        up_to_dot(seg + seq![46u8] + rest) == seg,
    decreases seg.len(),
{
    let t = seg + seq![46u8] + rest;
    if seg.len() == 0 {
        assert(t[0] == 46);
        assert(Seq::<u8>::empty() =~= seg);
    } else {
        assert(t[0] == seg[0] && seg[0] != 46);
        assert(t.drop_first() =~= seg.drop_first() + seq![46u8] + rest);
        assert forall|i: int| 0 <= i < seg.drop_first().len() implies seg.drop_first()[i]
            != 46 by {
            assert(seg.drop_first()[i] == seg[i + 1]);
        }
        lemma_up_to_dot_prefix(seg.drop_first(), rest);
        assert(seq![seg[0]] + seg.drop_first() =~= seg);
    }
}

/// Law: user-id extraction round-trips. For every user id, every dotless
/// header and every signature tail, a three-part token whose middle
/// segment is the unpadded base64url encoding of the canonical
/// `{"id": id}` object decodes back to exactly that id.
pub proof fn lemma_extract_user_id_round_trip(header: Seq<u8>, id: Seq<char>, sig: Seq<u8>)
    requires
        forall|i: int| 0 <= i < header.len() ==> header[i] != 46,
    ensures
        ({
            let claims = object_bytes(id_key(), vstd::utf8::encode_utf8(id));
            let tok = header + seq![46u8] + crate::b64url::b64url_encode(claims) + seq![46u8]
                + sig;
            user_id_result(tok) == Ok::<Seq<char>, HathoraError>(id)
        }),
{
    broadcast use vstd::utf8::encode_utf8_valid_utf8, vstd::utf8::encode_utf8_decode_utf8;

    let claims = object_bytes(id_key(), vstd::utf8::encode_utf8(id));
    let seg = crate::b64url::b64url_encode(claims);
    let tok = header + seq![46u8] + seg + seq![46u8] + sig;
    crate::b64url::lemma_b64url_encode_no_dot(claims);
    assert(tok =~= header + seq![46u8] + (seg + seq![46u8] + sig));
    lemma_after_first_dot_prefix(header, seg + seq![46u8] + sig);
    lemma_up_to_dot_prefix(seg, sig);
    assert(second_segment(tok) == Some(seg));
    crate::b64url::lemma_b64url_round_trip(claims);
    assert(crate::json::plain_field_key(id_key()));
    crate::json::lemma_field_round_trip(id_key(), vstd::utf8::encode_utf8(id));
}

proof fn lemma_skip_succ(s: Seq<u8>, i: int)
    requires
        0 <= i < s.len(),
    ensures
        s.skip(i).drop_first() == s.skip(i + 1),
{
    assert(s.skip(i).drop_first() =~= s.skip(i + 1));
}

/// Find the position just after the first dot, scanning from `i`.
fn find_after_dot(t: &[u8], from: usize) -> (r: Option<usize>)
    requires
        from <= t@.len(),
    ensures
        match r {
            Some(j) => from < j <= t@.len() && after_first_dot(t@.skip(from as int)) == Some(
                t@.skip(j as int),
            ),
            None => after_first_dot(t@.skip(from as int)) is None,
        },
{
    let mut i = from;
    while i < t.len() && t[i] != 46
        invariant
            from <= i <= t@.len(),
            after_first_dot(t@.skip(from as int)) == after_first_dot(t@.skip(i as int)),
        decreases t@.len() - i,
    {
        proof {
            lemma_skip_succ(t@, i as int);
        }
        i = i + 1;
    }
    if i == t.len() {
        None
    } else {
        proof {
            lemma_skip_succ(t@, i as int);
        }
        Some(i + 1)
    }
}

/// Collect bytes up to the next dot (or the end), scanning from `i`.
fn take_to_dot(t: &[u8], from: usize) -> (r: Vec<u8>)
    requires
        from <= t@.len(),
    ensures
        r@ == up_to_dot(t@.skip(from as int)),
{
    let mut acc: Vec<u8> = Vec::new();
    let mut i = from;
    while i < t.len() && t[i] != 46
        invariant
            from <= i <= t@.len(),
            up_to_dot(t@.skip(from as int)) == acc@ + up_to_dot(t@.skip(i as int)),
        decreases t@.len() - i,
    {
        proof {
            lemma_skip_succ(t@, i as int);
            assert(up_to_dot(t@.skip(i as int)) == seq![t@[i as int]] + up_to_dot(
                t@.skip(i as int + 1),
            ));
            assert(acc@ + (seq![t@[i as int]] + up_to_dot(t@.skip(i as int + 1))) =~= acc@.push(
                t@[i as int],
            ) + up_to_dot(t@.skip(i as int + 1)));
        }
        acc.push(t[i]);
        i = i + 1;
    }
    proof {
        assert(up_to_dot(t@.skip(i as int)) =~= Seq::<u8>::empty());
        assert(acc@ + Seq::<u8>::empty() =~= acc@);
    }
    acc
}

fn id_key_exec() -> (r: Vec<u8>)
    ensures
        r@ == id_key(),
{
    let mut k: Vec<u8> = Vec::new();
    k.push(105);  // i
    k.push(100);  // d
    proof {
        assert(k@ =~= id_key());
    }
    k
}

/// Decode the user id carried in a bearer token, for display only: the
/// result mirrors [`user_id_result`] on the token's UTF-8 bytes. No
/// signature verification of any kind is performed.
pub fn extract_user_id(token: &str) -> (r: Result<String, HathoraError>)
    ensures
        ({
            let t = vstd::utf8::encode_utf8(token@);
            match r {
                Ok(id) => user_id_result(t) matches Ok(v) && id@ == v,
                Err(e) => user_id_result(t) matches Err(e2) && e == e2,
            }
        }),
{
    let bytes = token.as_bytes();
    proof {
        assert(bytes@.skip(0) =~= bytes@);
    }
    let seg_start = match find_after_dot(bytes, 0) {
        None => {
            return Err(HathoraError::MalformedToken);
        },
        Some(j) => j,
    };
    let seg = take_to_dot(bytes, seg_start);
    let decoded = match b64url_decode_exec(seg.as_slice()) {
        None => {
            return Err(HathoraError::MalformedToken);
        },
        Some(d) => d,
    };
    let key = id_key_exec();
    let id_bytes = match parse_string_field(decoded.as_slice(), key.as_slice()) {
        None => {
            return Err(HathoraError::MalformedToken);
        },
        Some(v) => v,
    };
    match bytes_to_string(id_bytes) {
        None => Err(HathoraError::MalformedToken),
        Some(s) => Ok(s),
    }
}

} // verus!
