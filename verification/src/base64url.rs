//! URL-safe base64 without padding, as a mathematical function on bytes,
//! and the two calls into the `base64` crate that compute it.

use vstd::prelude::*;

verus! {

/// The character that stands for the six-bit value `v` in the URL-safe alphabet.
pub open spec fn symbol(v: int) -> char {
    if v < 26 {
        (v + 65) as char
    } else if v < 52 {
        (v + 71) as char
    } else if v < 62 {
        (v - 4) as char
    } else if v == 62 {
        '-'
    } else {
        '_'
    }
}

/// The four symbols of three bytes.
pub open spec fn quad(b0: u8, b1: u8, b2: u8) -> Seq<char> {
    seq![
        symbol(b0 as int / 4),
        symbol((b0 as int % 4) * 16 + b1 as int / 16),
        symbol((b1 as int % 16) * 4 + b2 as int / 64),
        symbol(b2 as int % 64),
    ]
}

/// The unpadded URL-safe base64 text of `bytes`: four symbols for each three
/// bytes, then two symbols for one byte left over or three symbols for two,
/// the unused low bits being zero.
pub open spec fn b64_text(bytes: Seq<u8>) -> Seq<char>
    decreases bytes.len(),
{
    if bytes.len() == 0 {
        Seq::empty()
    } else if bytes.len() == 1 {
        quad(bytes[0], 0, 0).take(2)
    } else if bytes.len() == 2 {
        quad(bytes[0], bytes[1], 0).take(3)
    } else {
        quad(bytes[0], bytes[1], bytes[2]) + b64_text(bytes.skip(3))
    }
}

/// Number of symbols in the text of `n` bytes.
pub open spec fn text_len(n: nat) -> nat {
    (4 * n + 2) / 3
}

/// What `n` bytes leave open in their last group of three: the most padding
/// characters that may follow their text.
pub open spec fn slack(n: nat) -> nat {
    ((3 - n % 3) % 3) as nat
}

/// `text` is the unpadded text of `bytes`, followed by no more `=` than the
/// last group leaves room for.
pub open spec fn decodes_to(text: Seq<char>, bytes: Seq<u8>) -> bool {
    let body = b64_text(bytes);
    &&& body.len() <= text.len() <= body.len() + slack(bytes.len())
    &&& text.take(body.len() as int) == body
    &&& forall|i: int| body.len() <= i < text.len() ==> text[i] == '='
}

/// The bytes that `text` stands for, if it stands for any.
pub open spec fn b64_bytes(text: Seq<char>) -> Option<Seq<u8>> {
    if exists|v: Seq<u8>| decodes_to(text, v) {
        Some(choose|v: Seq<u8>| decodes_to(text, v))
    } else {
        None
    }
}

/// The text of `n` bytes has `text_len(n)` symbols.
pub proof fn lemma_text_len(bytes: Seq<u8>)
    ensures
        b64_text(bytes).len() == text_len(bytes.len()),
    decreases bytes.len(),
{
    if bytes.len() >= 3 {
        lemma_text_len(bytes.skip(3));
    }
}

/// Different six-bit values have different symbols.
pub proof fn lemma_symbol_injective(v: int, w: int)
    requires
        0 <= v < 64,
        0 <= w < 64,
        symbol(v) == symbol(w),
    ensures
        v == w,
{
}

/// No character of a text is the padding character.
pub proof fn lemma_text_has_no_padding(bytes: Seq<u8>, i: int)
    requires
        0 <= i < b64_text(bytes).len(),
    ensures
        b64_text(bytes)[i] != '=',
    decreases bytes.len(),
{
    if bytes.len() >= 3 {
        if i >= 4 {
            lemma_text_has_no_padding(bytes.skip(3), i - 4);
        }
    }
}

/// Three bytes are determined by their four symbols.
pub proof fn lemma_quad_injective(a0: u8, a1: u8, a2: u8, b0: u8, b1: u8, b2: u8)
    requires
        quad(a0, a1, a2) == quad(b0, b1, b2),
    ensures
        a0 == b0,
        a1 == b1,
        a2 == b2,
{
    let p = quad(a0, a1, a2);
    let q = quad(b0, b1, b2);
    assert(p[0] == q[0] && p[1] == q[1] && p[2] == q[2] && p[3] == q[3]);
    lemma_symbol_injective(a0 as int / 4, b0 as int / 4);
    lemma_symbol_injective(
        (a0 as int % 4) * 16 + a1 as int / 16,
        (b0 as int % 4) * 16 + b1 as int / 16,
    );
    lemma_symbol_injective(
        (a1 as int % 16) * 4 + a2 as int / 64,
        (b1 as int % 16) * 4 + b2 as int / 64,
    );
    lemma_symbol_injective(a2 as int % 64, b2 as int % 64);
}

/// Different byte strings have different texts.
pub proof fn lemma_text_injective(v: Seq<u8>, w: Seq<u8>)
    requires
        b64_text(v) == b64_text(w),
    ensures
        v == w,
    decreases v.len(),
{
    lemma_text_len(v);
    lemma_text_len(w);
    assert(v.len() == w.len());
    let p = b64_text(v);
    let q = b64_text(w);
    if v.len() == 0 {
        assert(v =~= w);
    } else if v.len() == 1 {
        assert(p[0] == q[0] && p[1] == q[1]);
        lemma_symbol_injective(v[0] as int / 4, w[0] as int / 4);
        lemma_symbol_injective((v[0] as int % 4) * 16, (w[0] as int % 4) * 16);
        assert(v =~= w);
    } else if v.len() == 2 {
        assert(p[0] == q[0] && p[1] == q[1] && p[2] == q[2]);
        lemma_symbol_injective(v[0] as int / 4, w[0] as int / 4);
        lemma_symbol_injective(
            (v[0] as int % 4) * 16 + v[1] as int / 16,
            (w[0] as int % 4) * 16 + w[1] as int / 16,
        );
        lemma_symbol_injective((v[1] as int % 16) * 4, (w[1] as int % 16) * 4);
        assert(v =~= w);
    } else {
        let hv = quad(v[0], v[1], v[2]);
        let hw = quad(w[0], w[1], w[2]);
        assert(hv =~= p.take(4));
        assert(hw =~= q.take(4));
        lemma_quad_injective(v[0], v[1], v[2], w[0], w[1], w[2]);
        assert(b64_text(v.skip(3)) =~= p.skip(4));
        assert(b64_text(w.skip(3)) =~= q.skip(4));
        lemma_text_injective(v.skip(3), w.skip(3));
        assert forall|i: int| 0 <= i < v.len() implies v[i] == w[i] by {
            if i >= 3 {
                assert(v[i] == v.skip(3)[i - 3]);
                assert(w[i] == w.skip(3)[i - 3]);
            }
        }
        assert(v =~= w);
    }
}

/// A text with its padding stands for one byte string only.
pub proof fn lemma_decodes_to_unique(text: Seq<char>, v: Seq<u8>, w: Seq<u8>)
    requires
        decodes_to(text, v),
        decodes_to(text, w),
    ensures
        v == w,
{
    let p = b64_text(v);
    let q = b64_text(w);
    if p.len() < q.len() {
        lemma_text_has_no_padding(w, p.len() as int);
        assert(text.take(q.len() as int)[p.len() as int] == text[p.len() as int]);
    } else if q.len() < p.len() {
        lemma_text_has_no_padding(v, q.len() as int);
        assert(text.take(p.len() as int)[q.len() as int] == text[q.len() as int]);
    }
    lemma_text_injective(v, w);
}

/// Decoding undoes encoding.
pub proof fn lemma_bytes_of_text(bytes: Seq<u8>)
    ensures
        b64_bytes(b64_text(bytes)) == Some(bytes),
{
    let text = b64_text(bytes);
    assert(text.take(text.len() as int) =~= text);
    assert(decodes_to(text, bytes));
    lemma_decodes_to_unique(text, bytes, choose|v: Seq<u8>| decodes_to(text, v));
}

/// The text of zero bytes is made of `A` alone.
pub proof fn lemma_zero_text(n: nat)
    ensures
        b64_text(Seq::new(n, |i: int| 0u8)) == Seq::new(text_len(n), |i: int| 'A'),
    decreases n,
{
    let zeros = Seq::new(n, |i: int| 0u8);
    if n >= 3 {
        lemma_zero_text((n - 3) as nat);
        assert(zeros.skip(3) =~= Seq::new((n - 3) as nat, |i: int| 0u8));
    }
    assert(b64_text(zeros) =~= Seq::new(text_len(n), |i: int| 'A'));
}

/// The error type of the `base64` crate's decoder, carried through unread.
#[verifier::external_type_specification]
#[verifier::external_body]
pub struct ExDecodeError(base64::DecodeError);

/// `base64::encode_config` with `URL_SAFE_NO_PAD`: the returned string is the
/// unpadded URL-safe text of `bytes`. The call fails only where the length of
/// that text does not fit in `usize`, which `requires` leaves out.
#[verifier::external_body]
pub(crate) fn encode_unpadded(bytes: &[u8]) -> (text: String)
    requires
        text_len(bytes@.len()) <= usize::MAX,
    ensures
        text@ == b64_text(bytes@),
{
    base64::encode_config(bytes, base64::URL_SAFE_NO_PAD)
}

/// `base64::decode_config` with `URL_SAFE`: the decoder accepts exactly the
/// unpadded text of some bytes followed by at most the padding that their
/// last group leaves room for, and returns those bytes; every other input,
/// one with a character outside the alphabet or with stray low bits in its
/// last symbol among them, is an error.
#[verifier::external_body]
pub(crate) fn decode_url_safe(text: &str) -> (r: Result<Vec<u8>, base64::DecodeError>)
    ensures
        match r {
            Ok(bytes) => decodes_to(text@, bytes@),
            Err(_) => forall|v: Seq<u8>| !decodes_to(text@, v),
        },
{
    base64::decode_config(text, base64::URL_SAFE)
}

/// Decodes URL-safe base64 text, padded or not.
pub fn decode(text: &str) -> (r: Option<Vec<u8>>)
    ensures
        match r {
            Some(bytes) => b64_bytes(text@) == Some(bytes@),
            None => b64_bytes(text@) is None,
        },
{
    match decode_url_safe(text) {
        Ok(bytes) => {
            proof {
                lemma_decodes_to_unique(
                    text@,
                    bytes@,
                    choose|v: Seq<u8>| decodes_to(text@, v),
                );
            }
            Some(bytes)
        },
        Err(_) => None,
    }
}

} // verus!
