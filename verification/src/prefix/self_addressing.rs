//! Prefixes that hold the digest of the content they name.

use crate::derivation::self_addressing::SelfAddressing;
use crate::derivation::DerivationCode;
use crate::error::Error;
use crate::prefix::{encode, encode_text, parse, read, Prefix};
use vstd::prelude::*;

verus! {

/// A digest under the code of its algorithm. Two such prefixes are equal
/// when code and digest are.
#[derive(Debug, Clone, Eq, Hash)]
pub struct SelfAddressingPrefix {
    pub derivation: SelfAddressing,
    pub digest: Vec<u8>,
}

/// Whether two byte strings are the same.
pub fn same_bytes(a: &[u8], b: &[u8]) -> (r: bool)
    ensures
        r == (a@ == b@),
{
    if a.len() != b.len() {
        return false;
    }
    let mut i: usize = 0;
    while i < a.len()
        invariant
            i <= a@.len(),
            a@.len() == b@.len(),
            a@.take(i as int) == b@.take(i as int),
        decreases a@.len() - i,
    {
        if a[i] != b[i] {
            return false;
        }
        i += 1;
        assert(a@.take(i as int) =~= a@.take(i - 1).push(a@[i - 1]));
        assert(b@.take(i as int) =~= b@.take(i - 1).push(b@[i - 1]));
    }
    assert(a@.take(i as int) =~= a@);
    assert(b@.take(i as int) =~= b@);
    true
}

impl SelfAddressingPrefix {
    /// The digest held is the digest of `content` under the algorithm that
    /// the code names.
    pub open spec fn is_bound_to(self, content: Seq<u8>) -> bool {
        self.derivation.digest_of(content) == self.digest@
    }

    /// Pairs a code with a digest.
    pub fn new(code: SelfAddressing, digest: Vec<u8>) -> (p: SelfAddressingPrefix)
        ensures
            p.derivation == code,
            p.digest == digest,
    {
        SelfAddressingPrefix { derivation: code, digest }
    }

    /// Whether `computed` is the digest that this prefix holds.
    pub fn holds_digest(&self, computed: &[u8]) -> (r: bool)
        ensures
            r == (computed@ == self.digest@),
    {
        same_bytes(computed, self.digest.as_slice())
    }

    /// Whether this prefix is bound to `sed`: whether the digest of `sed`,
    /// under the algorithm that the code names, is the digest held.
    pub fn verify_binding(&self, sed: &[u8]) -> (r: bool)
        ensures
            r == self.is_bound_to(sed@),
    {
        let computed = self.derivation.digest(sed);
        self.holds_digest(computed.as_slice())
    }

    /// Reads a prefix from its text.
    pub fn from_str(s: &str) -> (r: Result<SelfAddressingPrefix, Error>)
        ensures
            match r {
                Ok(p) => parse::<SelfAddressing>(s@) == Ok::<(SelfAddressing, Seq<u8>), Error>(
                    (p.derivation, p.digest@),
                ),
                Err(e) => parse::<SelfAddressing>(s@) == Err::<(SelfAddressing, Seq<u8>), Error>(
                    e,
                ),
            },
    {
        match read::<SelfAddressing>(s) {
            Ok((code, bytes)) => Ok(SelfAddressingPrefix::new(code, bytes)),
            Err(e) => Err(e),
        }
    }
}

impl Prefix for SelfAddressingPrefix {
    open spec fn derivative_bytes(&self) -> Seq<u8> {
        self.digest@
    }

    open spec fn code_text(&self) -> Seq<char> {
        self.derivation.code()
    }

    open spec fn text(&self) -> Seq<char> {
        encode_text(self.derivation, self.digest@)
    }

    fn derivative(&self) -> (d: Vec<u8>) {
        let d = self.digest.clone();
        assert(d@ =~= self.digest@);
        d
    }

    fn derivation_code(&self) -> (c: String) {
        self.derivation.to_str()
    }

    fn to_str(&self) -> (s: String) {
        encode(&self.derivation, self.digest.as_slice())
    }
}

impl PartialEq for SelfAddressingPrefix {
    fn eq(&self, other: &SelfAddressingPrefix) -> (r: bool) {
        self.derivation == other.derivation && same_bytes(
            self.digest.as_slice(),
            other.digest.as_slice(),
        )
    }
}

impl vstd::std_specs::cmp::PartialEqSpecImpl for SelfAddressingPrefix {
    open spec fn obeys_eq_spec() -> bool {
        true
    }

    open spec fn eq_spec(&self, other: &SelfAddressingPrefix) -> bool {
        self.derivation == other.derivation && self.digest@ == other.digest@
    }
}

impl Default for SelfAddressingPrefix {
    /// The BLAKE3 code with no digest.
    fn default() -> (p: SelfAddressingPrefix)
        ensures
            p.derivation == SelfAddressing::Blake3_256,
            p.digest@.len() == 0,
    {
        SelfAddressingPrefix { derivation: SelfAddressing::Blake3_256, digest: Vec::new() }
    }
}

impl core::str::FromStr for SelfAddressingPrefix {
    type Err = Error;

    /// Reads a prefix from its text, as `SelfAddressingPrefix::from_str`
    /// does: the code and the digest that the text holds, or the first thing
    /// that is wrong with it.
    fn from_str(s: &str) -> (r: Result<SelfAddressingPrefix, Error>)
        ensures
            match r {
                Ok(p) => parse::<SelfAddressing>(s@) == Ok::<(SelfAddressing, Seq<u8>), Error>(
                    (p.derivation, p.digest@),
                ),
                Err(e) => parse::<SelfAddressing>(s@) == Err::<(SelfAddressing, Seq<u8>), Error>(
                    e,
                ),
            },
    {
        SelfAddressingPrefix::from_str(s)
    }
}

/// A prefix made of the digest of some content is bound to that content,
/// and to other content exactly where the two have the same digest.
pub proof fn lemma_binding(p: SelfAddressingPrefix, content: Seq<u8>, other: Seq<u8>)
    requires
        p.digest@ == p.derivation.digest_of(content),
    ensures
        p.is_bound_to(content),
        p.is_bound_to(other) <==> p.derivation.digest_of(other) == p.derivation.digest_of(
            content,
        ),
{
}

} // verus!
