//! The codes of content digests, and the digests themselves.

use crate::derivation::DerivationCode;
use crate::error::Error;
use crate::prefix::SelfAddressingPrefix;
use vstd::prelude::*;

verus! {

/// The BLAKE3 hash of `data`, 32 bytes.
pub uninterp spec fn blake3_256(data: Seq<u8>) -> Seq<u8>;

/// The unkeyed BLAKE2b hash of `data` with an output of 32 bytes.
pub uninterp spec fn blake2b_256(data: Seq<u8>) -> Seq<u8>;

/// The unkeyed BLAKE2s hash of `data`, 32 bytes.
pub uninterp spec fn blake2s_256(data: Seq<u8>) -> Seq<u8>;

/// The SHA3-256 hash of `data`.
pub uninterp spec fn sha3_256(data: Seq<u8>) -> Seq<u8>;

/// The SHA-256 hash of `data`.
pub uninterp spec fn sha2_256(data: Seq<u8>) -> Seq<u8>;

/// `blake3::hash`: the result is the BLAKE3 hash of the input, a function of
/// the input alone, and has the 32 bytes of `blake3::OUT_LEN`.
#[verifier::external_body]
fn blake3_256_digest(data: &[u8]) -> (d: Vec<u8>)
    ensures
        d@ == blake3_256(data@),
        d@.len() == 32,
{
    blake3::hash(data).as_bytes().to_vec()
}

/// `Digest::digest` of `blake2::Blake2b` with an output size of `U32`: the
/// result is that hash of the input, a function of the input alone, 32 bytes
/// long.
#[verifier::external_body]
fn blake2b_256_digest(data: &[u8]) -> (d: Vec<u8>)
    ensures
        d@ == blake2b_256(data@),
        d@.len() == 32,
{
    <blake2::Blake2b<blake2::digest::consts::U32> as blake2::Digest>::digest(data).to_vec()
}

/// `Digest::digest` of `blake2::Blake2s256`: the result is that hash of the
/// input, a function of the input alone, 32 bytes long.
#[verifier::external_body]
fn blake2s_256_digest(data: &[u8]) -> (d: Vec<u8>)
    ensures
        d@ == blake2s_256(data@),
        d@.len() == 32,
{
    <blake2::Blake2s256 as blake2::Digest>::digest(data).to_vec()
}

/// `Digest::digest` of `sha3::Sha3_256`: the result is that hash of the
/// input, a function of the input alone, 32 bytes long.
#[verifier::external_body]
fn sha3_256_digest(data: &[u8]) -> (d: Vec<u8>)
    ensures
        d@ == sha3_256(data@),
        d@.len() == 32,
{
    <sha3::Sha3_256 as sha3::Digest>::digest(data).to_vec()
}

/// `Digest::digest` of `sha2::Sha256`: the result is that hash of the input,
/// a function of the input alone, 32 bytes long.
#[verifier::external_body]
fn sha2_256_digest(data: &[u8]) -> (d: Vec<u8>)
    ensures
        d@ == sha2_256(data@),
        d@.len() == 32,
{
    <sha2::Sha256 as sha2::Digest>::digest(data).to_vec()
}

/// The digest algorithms whose output can stand in a prefix.
#[allow(non_camel_case_types)]
#[derive(Debug, PartialEq, Eq, Structural, Clone, Copy, Hash)]
pub enum SelfAddressing {
    Blake3_256,
    Blake2B256,
    Blake2S256,
    SHA3_256,
    SHA2_256,
}

impl SelfAddressing {
    /// The digest of `data` under this algorithm.
    pub open spec fn digest_of(self, data: Seq<u8>) -> Seq<u8> {
        match self {
            SelfAddressing::Blake3_256 => blake3_256(data),
            SelfAddressing::Blake2B256 => blake2b_256(data),
            SelfAddressing::Blake2S256 => blake2s_256(data),
            SelfAddressing::SHA3_256 => sha3_256(data),
            SelfAddressing::SHA2_256 => sha2_256(data),
        }
    }

    /// Hashes `data` with this algorithm.
    pub fn digest(&self, data: &[u8]) -> (d: Vec<u8>)
        ensures
            d@ == self.digest_of(data@),
            d@.len() == 32,
    {
        match self {
            SelfAddressing::Blake3_256 => blake3_256_digest(data),
            SelfAddressing::Blake2B256 => blake2b_256_digest(data),
            SelfAddressing::Blake2S256 => blake2s_256_digest(data),
            SelfAddressing::SHA3_256 => sha3_256_digest(data),
            SelfAddressing::SHA2_256 => sha2_256_digest(data),
        }
    }

    /// The prefix that addresses `data`: this code with the digest of `data`.
    pub fn derive(&self, data: &[u8]) -> (p: SelfAddressingPrefix)
        ensures
            p.derivation == *self,
            p.digest@ == self.digest_of(data@),
            p.is_bound_to(data@),
    {
        SelfAddressingPrefix::new(*self, self.digest(data))
    }

    /// Reads the code at the start of `s`.
    pub fn from_str(s: &str) -> (r: Result<SelfAddressing, Error>)
        ensures
            r == <SelfAddressing as DerivationCode>::lookup(s@),
    {
        let n = s.unicode_len();
        if n == 0 {
            return Err(Error::UnknownPrefixCode);
        }
        let first = s.get_char(0);
        if first == 'E' {
            Ok(SelfAddressing::Blake3_256)
        } else if first == 'F' {
            Ok(SelfAddressing::Blake2B256)
        } else if first == 'G' {
            Ok(SelfAddressing::Blake2S256)
        } else if first == 'H' {
            Ok(SelfAddressing::SHA3_256)
        } else if first == 'I' {
            Ok(SelfAddressing::SHA2_256)
        } else if first == '1' {
            Err(Error::UnknownDerivationCode)
        } else {
            Err(Error::UnknownPrefixCode)
        }
    }
}

impl DerivationCode for SelfAddressing {
    open spec fn code(&self) -> Seq<char> {
        match self {
            SelfAddressing::Blake3_256 => seq!['E'],
            SelfAddressing::Blake2B256 => seq!['F'],
            SelfAddressing::Blake2S256 => seq!['G'],
            SelfAddressing::SHA3_256 => seq!['H'],
            SelfAddressing::SHA2_256 => seq!['I'],
        }
    }

    open spec fn body_len(&self) -> nat {
        43
    }

    /// The first character decides. Behind the marker `1` no selector names
    /// a digest.
    open spec fn lookup(text: Seq<char>) -> Result<SelfAddressing, Error> {
        if text.len() == 0 {
            Err(Error::UnknownPrefixCode)
        } else if text[0] == 'E' {
            Ok(SelfAddressing::Blake3_256)
        } else if text[0] == 'F' {
            Ok(SelfAddressing::Blake2B256)
        } else if text[0] == 'G' {
            Ok(SelfAddressing::Blake2S256)
        } else if text[0] == 'H' {
            Ok(SelfAddressing::SHA3_256)
        } else if text[0] == 'I' {
            Ok(SelfAddressing::SHA2_256)
        } else if text[0] == '1' {
            Err(Error::UnknownDerivationCode)
        } else {
            Err(Error::UnknownPrefixCode)
        }
    }

    proof fn lemma_entry(&self) {
    }

    proof fn lemma_lookup_code(&self, rest: Seq<char>) {
    }

    proof fn lemma_lookup_found(text: Seq<char>) {
    }

    fn resolve(s: &str) -> (r: Result<SelfAddressing, Error>) {
        SelfAddressing::from_str(s)
    }

    fn code_len(&self) -> (n: usize) {
        1
    }

    fn derivative_b64_len(&self) -> (n: usize) {
        43
    }

    fn prefix_b64_len(&self) -> (n: usize) {
        self.code_len() + self.derivative_b64_len()
    }

    fn to_str(&self) -> (s: String) {
        proof {
            reveal_strlit("E");
            reveal_strlit("F");
            reveal_strlit("G");
            reveal_strlit("H");
            reveal_strlit("I");
        }
        let s = match self {
            SelfAddressing::Blake3_256 => "E",
            SelfAddressing::Blake2B256 => "F",
            SelfAddressing::Blake2S256 => "G",
            SelfAddressing::SHA3_256 => "H",
            SelfAddressing::SHA2_256 => "I",
        };
        assert(s@ =~= self.code());
        s.to_owned()
    }
}

impl core::str::FromStr for SelfAddressing {
    type Err = Error;

    /// Reads the code at the start of `s`, as `SelfAddressing::from_str`
    /// does.
    fn from_str(s: &str) -> (r: Result<SelfAddressing, Error>)
        ensures
            r == <SelfAddressing as DerivationCode>::lookup(s@),
    {
        SelfAddressing::from_str(s)
    }
}

} // verus!
