//! The prefix codec: how a derivation code and a derivative become one text
//! of fixed length, and how such a text is read back.

use crate::base64url::{b64_bytes, b64_text, decode as decode_base64, encode_unpadded, text_len};
use crate::base64url::{lemma_bytes_of_text, lemma_text_len, lemma_zero_text, quad};
use crate::derivation::basic::Basic;
use crate::derivation::self_addressing::SelfAddressing;
use crate::derivation::DerivationCode;
use crate::error::Error;
use crate::prefix::datetime::parse_datetime;
use vstd::prelude::*;

pub mod basic;
pub mod datetime;
pub mod self_addressing;

pub use basic::BasicPrefix;
pub use self_addressing::SelfAddressingPrefix;

verus! {

/// A derivation code together with what was derived.
pub trait Prefix: Sized {
    /// The derivative, as bytes.
    spec fn derivative_bytes(&self) -> Seq<u8>;

    /// The literal of the derivation code.
    spec fn code_text(&self) -> Seq<char>;

    /// The one text that stands for this prefix.
    spec fn text(&self) -> Seq<char>;

    /// The derivative.
    fn derivative(&self) -> (d: Vec<u8>)
        ensures
            d@ == self.derivative_bytes(),
    ;

    /// The literal of the derivation code.
    fn derivation_code(&self) -> (c: String)
        ensures
            c@ == self.code_text(),
    ;

    /// Writes the prefix.
    fn to_str(&self) -> (s: String)
        ensures
            s@ == self.text(),
    ;
}

/// The length of every prefix that carries `code`.
pub open spec fn total_len<C: DerivationCode>(code: C) -> nat {
    code.code().len() + code.body_len()
}

/// The number of bytes whose base64 text is as long as a prefix of `code`.
pub open spec fn raw_len<C: DerivationCode>(code: C) -> nat {
    total_len(code) * 3 / 4
}

/// `bytes` set right-aligned into `n` bytes: zero bytes in front where it is
/// shorter, its last `n` bytes where it is longer.
pub open spec fn fitted(bytes: Seq<u8>, n: nat) -> Seq<u8> {
    if bytes.len() >= n {
        bytes.skip(bytes.len() - n)
    } else {
        Seq::new((n - bytes.len()) as nat, |i: int| 0u8) + bytes
    }
}

/// The prefix text of `derivative` under `code`. The derivative is fitted
/// into `raw_len(code)` bytes; of the base64 text of those bytes the leading
/// characters give way to the code.
pub open spec fn encode_text<C: DerivationCode>(code: C, derivative: Seq<u8>) -> Seq<char> {
    code.code() + b64_text(fitted(derivative, raw_len(code))).skip(code.code().len() as int)
}

/// `text` with its first `k` characters replaced by `A`, the symbol of six
/// zero bits.
pub open spec fn masked(text: Seq<char>, k: nat) -> Seq<char> {
    Seq::new(k, |i: int| 'A') + text.skip(k as int)
}

/// What reading `text` as a prefix of `code` gives: the bytes of the whole
/// text with the code masked out, if the text has the length that the code
/// demands and is base64.
pub open spec fn decode_text<C: DerivationCode>(code: C, text: Seq<char>) -> Result<Seq<u8>, Error> {
    if text.len() != total_len(code) {
        Err(Error::LengthMismatch)
    } else {
        match b64_bytes(masked(text, code.code().len())) {
            Some(bytes) => Ok(bytes),
            None => Err(Error::Base64DecodeError),
        }
    }
}

/// The derivative as a prefix of `code` holds it: fitted, and with the bits
/// cleared whose place in the text the code takes.
pub open spec fn stored<C: DerivationCode>(code: C, derivative: Seq<u8>) -> Seq<u8> {
    let f = fitted(derivative, raw_len(code));
    if code.code().len() == 1 {
        f.update(0, f[0] % 4)
    } else {
        Seq::new(3, |i: int| 0u8) + f.skip(3)
    }
}

/// Sets `bytes` right-aligned into `n` bytes.
pub fn fit(bytes: &[u8], n: usize) -> (r: Vec<u8>)
    ensures
        r@ == fitted(bytes@, n as nat),
{
    let len = bytes.len();
    let mut r: Vec<u8> = Vec::new();
    if len >= n {
        let start = len - n;
        let mut i: usize = start;
        while i < len
            invariant
                start <= i <= len,
                len == bytes@.len(),
                r@ == bytes@.subrange(start as int, i as int),
            decreases len - i,
        {
            r.push(bytes[i]);
            i += 1;
            assert(r@ =~= bytes@.subrange(start as int, i as int));
        }
        assert(r@ =~= bytes@.skip(len - n));
    } else {
        let pad = n - len;
        let mut i: usize = 0;
        while i < pad
            invariant
                i <= pad,
                r@ == Seq::new(i as nat, |j: int| 0u8),
            decreases pad - i,
        {
            r.push(0u8);
            i += 1;
            assert(r@ =~= Seq::new(i as nat, |j: int| 0u8));
        }
        let mut j: usize = 0;
        while j < len
            invariant
                j <= len,
                len == bytes@.len(),
                r@ == Seq::new(pad as nat, |j: int| 0u8) + bytes@.take(j as int),
            decreases len - j,
        {
            r.push(bytes[j]);
            j += 1;
            assert(r@ =~= Seq::new(pad as nat, |j: int| 0u8) + bytes@.take(j as int));
        }
        assert(bytes@.take(len as int) =~= bytes@);
    }
    r
}

/// A prefix is as long as the base64 text of `raw_len` bytes.
pub proof fn lemma_raw_len<C: DerivationCode>(code: C)
    ensures
        text_len(raw_len(code)) == total_len(code),
{
    code.lemma_entry();
}

/// Every encoded prefix has the length that its code demands.
pub proof fn lemma_encode_len<C: DerivationCode>(code: C, derivative: Seq<u8>)
    ensures
        encode_text(code, derivative).len() == code.code().len() + code.body_len(),
{
    lemma_raw_len(code);
    lemma_text_len(fitted(derivative, raw_len(code)));
}

/// A derivative of zero bytes, however many, is written as the code followed
/// by `A` alone.
pub proof fn lemma_encode_zeros<C: DerivationCode>(code: C, n: nat)
    ensures
        encode_text(code, Seq::new(n, |i: int| 0u8)) == code.code() + Seq::new(
            code.body_len(),
            |i: int| 'A',
        ),
{
    code.lemma_entry();
    lemma_raw_len(code);
    let zeros = Seq::new(n, |i: int| 0u8);
    let m = raw_len(code);
    assert(fitted(zeros, m) =~= Seq::new(m, |i: int| 0u8));
    lemma_zero_text(m);
    assert(Seq::new(text_len(m), |i: int| 'A').skip(code.code().len() as int) =~= Seq::new(
        code.body_len(),
        |i: int| 'A',
    ));
}

/// Writes the prefix of `derivative` under `code`.
pub fn encode<C: DerivationCode>(code: &C, derivative: &[u8]) -> (s: String)
    ensures
        s@ == encode_text(*code, derivative@),
{
    let k = code.code_len();
    let total = code.prefix_b64_len();
    let n = total / 4 * 3 + (total % 4) * 3 / 4;
    assert(n == raw_len(*code));
    let raw = fit(derivative, n);
    proof {
        lemma_raw_len(*code);
        lemma_text_len(raw@);
    }
    let full = encode_unpadded(raw.as_slice());
    let body = full.as_str().substring_char(k, total);
    let mut s = code.to_str();
    s.append(body);
    assert(s@ =~= encode_text(*code, derivative@));
    s
}

/// Reads the derivative out of `text`, a prefix of `code`.
pub fn decode<C: DerivationCode>(code: &C, text: &str) -> (r: Result<Vec<u8>, Error>)
    ensures
        match r {
            Ok(bytes) => decode_text(*code, text@) == Ok::<Seq<u8>, Error>(bytes@),
            Err(e) => decode_text(*code, text@) == Err::<Seq<u8>, Error>(e),
        },
{
    let k = code.code_len();
    let total = code.prefix_b64_len();
    let n = text.unicode_len();
    if n != total {
        return Err(Error::LengthMismatch);
    }
    let mut m = String::new();
    let mut i: usize = 0;
    while i < k
        invariant
            i <= k,
            m@ == Seq::new(i as nat, |j: int| 'A'),
        decreases k - i,
    {
        proof {
            reveal_strlit("A");
        }
        m.append("A");
        i += 1;
        assert(m@ =~= Seq::new(i as nat, |j: int| 'A'));
    }
    m.append(text.substring_char(k, n));
    assert(m@ =~= masked(text@, k as nat));
    match decode_base64(m.as_str()) {
        Some(bytes) => Ok(bytes),
        None => Err(Error::Base64DecodeError),
    }
}

/// Masking the code out of an encoded prefix gives the base64 text of the
/// stored derivative.
pub proof fn lemma_masked_encode<C: DerivationCode>(code: C, derivative: Seq<u8>)
    ensures
        masked(encode_text(code, derivative), code.code().len()) == b64_text(
            stored(code, derivative),
        ),
{
    code.lemma_entry();
    lemma_raw_len(code);
    let k = code.code().len();
    let f = fitted(derivative, raw_len(code));
    let g = stored(code, derivative);
    let full = b64_text(f);
    lemma_text_len(f);
    lemma_text_len(g);
    let text = encode_text(code, derivative);
    assert(text.skip(k as int) =~= full.skip(k as int));
    let m = masked(text, k);
    if k == 1 {
        assert(f.len() >= 1);
        assert(g.len() == f.len());
        if f.len() >= 3 {
            assert(g.skip(3) =~= f.skip(3));
        }
        assert(m =~= b64_text(g));
    } else {
        assert(f.len() >= 3);
        assert(g.skip(3) =~= f.skip(3));
        assert(quad(0, 0, 0) =~= Seq::new(4, |i: int| 'A'));
        assert(m =~= b64_text(g));
    }
}

/// Reading an encoded prefix gives the stored derivative.
pub proof fn lemma_decode_encode<C: DerivationCode>(code: C, derivative: Seq<u8>)
    ensures
        decode_text(code, encode_text(code, derivative)) == Ok::<Seq<u8>, Error>(
            stored(code, derivative),
        ),
{
    lemma_encode_len(code, derivative);
    lemma_masked_encode(code, derivative);
    lemma_bytes_of_text(stored(code, derivative));
}

/// A derivative is held unchanged if it fills `raw_len(code)` bytes and
/// leaves clear the bits whose place the code takes.
pub open spec fn is_canonical<C: DerivationCode>(code: C, derivative: Seq<u8>) -> bool {
    &&& derivative.len() == raw_len(code)
    &&& if code.code().len() == 1 {
        derivative[0] < 4
    } else {
        derivative[0] == 0 && derivative[1] == 0 && derivative[2] == 0
    }
}

/// Encoding, then decoding, gives back every canonical derivative.
pub proof fn lemma_round_trip<C: DerivationCode>(code: C, derivative: Seq<u8>)
    requires
        is_canonical(code, derivative),
    ensures
        decode_text(code, encode_text(code, derivative)) == Ok::<Seq<u8>, Error>(derivative),
{
    code.lemma_entry();
    lemma_raw_len(code);
    lemma_decode_encode(code, derivative);
    assert(stored(code, derivative) =~= derivative);
}

/// What reading `text` against the table of `C` gives: the entry that its
/// start names and the bytes behind it, or the first thing that is wrong
/// with it: the code, then the length, then the base64.
pub open spec fn parse<C: DerivationCode>(text: Seq<char>) -> Result<(C, Seq<u8>), Error> {
    match C::lookup(text) {
        Err(e) => Err(e),
        Ok(code) => match decode_text(code, text) {
            Err(e) => Err(e),
            Ok(bytes) => Ok((code, bytes)),
        },
    }
}

/// Reads a prefix against the table of `C`.
pub fn read<C: DerivationCode>(text: &str) -> (r: Result<(C, Vec<u8>), Error>)
    ensures
        match r {
            Ok((code, bytes)) => parse::<C>(text@) == Ok::<(C, Seq<u8>), Error>((code, bytes@)),
            Err(e) => parse::<C>(text@) == Err::<(C, Seq<u8>), Error>(e),
        },
{
    match C::resolve(text) {
        Err(e) => Err(e),
        Ok(code) => match decode(&code, text) {
            Err(e) => Err(e),
            Ok(bytes) => Ok((code, bytes)),
        },
    }
}

/// Reading what was written gives the code and the stored derivative.
pub proof fn lemma_parse_encode<C: DerivationCode>(code: C, derivative: Seq<u8>)
    ensures
        parse::<C>(encode_text(code, derivative)) == Ok::<(C, Seq<u8>), Error>(
            (code, stored(code, derivative)),
        ),
{
    code.lemma_lookup_code(
        b64_text(fitted(derivative, raw_len(code))).skip(code.code().len() as int),
    );
    lemma_decode_encode(code, derivative);
}

/// Reading what was written gives back the code and every canonical
/// derivative.
pub proof fn lemma_parse_round_trip<C: DerivationCode>(code: C, derivative: Seq<u8>)
    requires
        is_canonical(code, derivative),
    ensures
        parse::<C>(encode_text(code, derivative)) == Ok::<(C, Seq<u8>), Error>(
            (code, derivative),
        ),
{
    code.lemma_lookup_code(
        b64_text(fitted(derivative, raw_len(code))).skip(code.code().len() as int),
    );
    lemma_round_trip(code, derivative);
}

/// A text reads as a prefix only if it is as long as its code demands; one
/// of another length, whatever it holds behind a known code, is a length
/// mismatch.
pub proof fn lemma_parse_len<C: DerivationCode>(text: Seq<char>)
    ensures
        parse::<C>(text) matches Ok(found) ==> text.len() == total_len(found.0),
        C::lookup(text) matches Ok(code) ==> (text.len() != total_len(code) ==> parse::<C>(text)
            == Err::<(C, Seq<u8>), Error>(Error::LengthMismatch)),
{
}

/// A text whose start names no entry is refused for that reason, however
/// long it is and whatever follows: behind the marker `1` as an unknown
/// selector, else as an unknown code.
pub proof fn lemma_parse_unknown<C: DerivationCode>(text: Seq<char>)
    requires
        C::lookup(text) is Err,
    ensures
        parse::<C>(text) == Err::<(C, Seq<u8>), Error>(
            if text.len() > 0 && text[0] == '1' {
                Error::UnknownDerivationCode
            } else {
                Error::UnknownPrefixCode
            },
        ),
{
    C::lemma_lookup_found(text);
}

/// Writing what was read gives back the text, if the text holds no padding
/// character: a prefix that was read is written as it stood.
pub proof fn lemma_encode_parsed<C: DerivationCode>(text: Seq<char>)
    requires
        parse::<C>(text) is Ok,
        forall|i: int| 0 <= i < text.len() ==> text[i] != '=',
    ensures
        encode_text(parse::<C>(text)->Ok_0.0, parse::<C>(text)->Ok_0.1) == text,
        is_canonical(parse::<C>(text)->Ok_0.0, parse::<C>(text)->Ok_0.1),
{
    let code = parse::<C>(text)->Ok_0.0;
    let bytes = parse::<C>(text)->Ok_0.1;
    C::lemma_lookup_found(text);
    code.lemma_entry();
    lemma_raw_len(code);
    let k = code.code().len();
    let m = masked(text, k);
    assert(b64_bytes(m) == Some(bytes));
    assert(crate::base64url::decodes_to(m, bytes));
    let body = b64_text(bytes);
    lemma_text_len(bytes);
    if body.len() < m.len() {
        assert(m[body.len() as int] == '=');
        if body.len() >= k {
            assert(m[body.len() as int] == text[body.len() as int]);
        }
    }
    assert(m.take(body.len() as int) =~= m);
    assert(bytes.len() == raw_len(code));
    assert(fitted(bytes, raw_len(code)) =~= bytes);
    assert(code.code() =~= text.take(k as int));
    assert(encode_text(code, bytes) =~= text);
    if k == 1 {
        assert(body[0] == 'A');
    } else {
        assert(body[0] == 'A' && body[1] == 'A' && body[2] == 'A' && body[3] == 'A');
        assert(body.take(4) =~= quad(bytes[0], bytes[1], bytes[2]));
    }
}

/// The characters that start a code: those of the keys, those of the
/// digests, and the marker of the four-character codes.
pub open spec fn starts_a_code(c: char) -> bool {
    c == 'B' || c == 'C' || c == 'D' || c == 'L' || c == 'E' || c == 'F' || c == 'G' || c == 'H'
        || c == 'I' || c == '1'
}

/// A text that starts with a character of no table is an unknown code to
/// every reader, and so is the empty text.
pub proof fn lemma_unknown_prefix_code(text: Seq<char>)
    requires
        text.len() > 0 ==> !starts_a_code(text[0]),
    ensures
        parse::<Basic>(text) == Err::<(Basic, Seq<u8>), Error>(Error::UnknownPrefixCode),
        parse::<SelfAddressing>(text) == Err::<(SelfAddressing, Seq<u8>), Error>(
            Error::UnknownPrefixCode,
        ),
        parse_datetime(text) == Err::<(int, int, int), Error>(Error::UnknownPrefixCode),
{
}

/// A text that starts with the marker `1` and goes on with three characters
/// that select nothing is an unknown derivation code to every reader.
pub proof fn lemma_unknown_derivation_code(text: Seq<char>)
    requires
        text.len() >= 4,
        text[0] == '1',
        !(text[1] == 'A' && text[2] == 'A' && (text[3] == 'A' || text[3] == 'B' || text[3] == 'C'
            || text[3] == 'D' || text[3] == 'G')),
    ensures
        parse::<Basic>(text) == Err::<(Basic, Seq<u8>), Error>(Error::UnknownDerivationCode),
        parse::<SelfAddressing>(text) == Err::<(SelfAddressing, Seq<u8>), Error>(
            Error::UnknownDerivationCode,
        ),
        parse_datetime(text) == Err::<(int, int, int), Error>(Error::UnknownDerivationCode),
{
}

} // verus!
