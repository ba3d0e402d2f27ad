//! Prefixes that hold a public key.

use crate::derivation::basic::Basic;
use crate::derivation::DerivationCode;
use crate::error::Error;
use crate::keys::PublicKey;
use crate::prefix::{encode, encode_text, parse, read, Prefix};
use vstd::prelude::*;

verus! {

/// A public key under the code of its algorithm.
#[derive(Debug, Clone, PartialEq, Eq, Hash)]
pub struct BasicPrefix {
    pub derivation: Basic,
    pub public_key: PublicKey,
}

impl BasicPrefix {
    /// Pairs a code with a key. The length of the key is not held against
    /// the code: the text fits whatever key it is given.
    pub fn new(code: Basic, public_key: PublicKey) -> (p: BasicPrefix)
        ensures
            p.derivation == code,
            p.public_key == public_key,
    {
        BasicPrefix { derivation: code, public_key }
    }

    /// Reads a prefix from its text.
    pub fn from_str(s: &str) -> (r: Result<BasicPrefix, Error>)
        ensures
            match r {
                Ok(p) => parse::<Basic>(s@) == Ok::<(Basic, Seq<u8>), Error>(
                    (p.derivation, p.public_key@),
                ),
                Err(e) => parse::<Basic>(s@) == Err::<(Basic, Seq<u8>), Error>(e),
            },
    {
        match read::<Basic>(s) {
            Ok((code, bytes)) => Ok(BasicPrefix::new(code, PublicKey::new(bytes))),
            Err(e) => Err(e),
        }
    }
}

impl Prefix for BasicPrefix {
    open spec fn derivative_bytes(&self) -> Seq<u8> {
        self.public_key@
    }

    open spec fn code_text(&self) -> Seq<char> {
        self.derivation.code()
    }

    open spec fn text(&self) -> Seq<char> {
        encode_text(self.derivation, self.public_key@)
    }

    fn derivative(&self) -> (d: Vec<u8>) {
        self.public_key.key()
    }

    fn derivation_code(&self) -> (c: String) {
        self.derivation.to_str()
    }

    fn to_str(&self) -> (s: String) {
        encode(&self.derivation, self.public_key.as_bytes())
    }
}

impl core::str::FromStr for BasicPrefix {
    type Err = Error;

    /// Reads a prefix from its text, as `BasicPrefix::from_str` does: the
    /// code and the key that the text holds, or the first thing that is
    /// wrong with it.
    fn from_str(s: &str) -> (r: Result<BasicPrefix, Error>)
        ensures
            match r {
                Ok(p) => parse::<Basic>(s@) == Ok::<(Basic, Seq<u8>), Error>(
                    (p.derivation, p.public_key@),
                ),
                Err(e) => parse::<Basic>(s@) == Err::<(Basic, Seq<u8>), Error>(e),
            },
    {
        BasicPrefix::from_str(s)
    }
}

} // verus!
