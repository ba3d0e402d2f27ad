//! The codes of public keys.

use crate::derivation::DerivationCode;
use crate::error::Error;
use crate::keys::PublicKey;
use crate::prefix::BasicPrefix;
use vstd::prelude::*;

verus! {

/// The algorithms whose public key can stand in a prefix. Those marked `NT`
/// name keys that cannot be rotated.
#[derive(Debug, PartialEq, Eq, Structural, Clone, Copy, Hash)]
pub enum Basic {
    ECDSAsecp256k1NT,
    ECDSAsecp256k1,
    Ed25519NT,
    Ed25519,
    Ed448NT,
    Ed448,
    X25519,
    X448,
}

impl Basic {
    /// The prefix of `public_key` under this code.
    pub fn derive(&self, public_key: PublicKey) -> (p: BasicPrefix)
        ensures
            p.derivation == *self,
            p.public_key == public_key,
    {
        BasicPrefix::new(*self, public_key)
    }

    /// Reads the code at the start of `s`.
    pub fn from_str(s: &str) -> (r: Result<Basic, Error>)
        ensures
            r == <Basic as DerivationCode>::lookup(s@),
    {
        let n = s.unicode_len();
        if n == 0 {
            return Err(Error::UnknownPrefixCode);
        }
        let first = s.get_char(0);
        if first == 'B' {
            Ok(Basic::Ed25519NT)
        } else if first == 'C' {
            Ok(Basic::X25519)
        } else if first == 'D' {
            Ok(Basic::Ed25519)
        } else if first == 'L' {
            Ok(Basic::X448)
        } else if first == '1' {
            if n < 4 || s.get_char(1) != 'A' || s.get_char(2) != 'A' {
                return Err(Error::UnknownDerivationCode);
            }
            let last = s.get_char(3);
            if last == 'A' {
                Ok(Basic::ECDSAsecp256k1NT)
            } else if last == 'B' {
                Ok(Basic::ECDSAsecp256k1)
            } else if last == 'C' {
                Ok(Basic::Ed448NT)
            } else if last == 'D' {
                Ok(Basic::Ed448)
            } else {
                Err(Error::UnknownDerivationCode)
            }
        } else {
            Err(Error::UnknownPrefixCode)
        }
    }
}

impl DerivationCode for Basic {
    open spec fn code(&self) -> Seq<char> {
        match self {
            Basic::Ed25519NT => seq!['B'],
            Basic::X25519 => seq!['C'],
            Basic::Ed25519 => seq!['D'],
            Basic::X448 => seq!['L'],
            Basic::ECDSAsecp256k1NT => seq!['1', 'A', 'A', 'A'],
            Basic::ECDSAsecp256k1 => seq!['1', 'A', 'A', 'B'],
            Basic::Ed448NT => seq!['1', 'A', 'A', 'C'],
            Basic::Ed448 => seq!['1', 'A', 'A', 'D'],
        }
    }

    open spec fn body_len(&self) -> nat {
        match self {
            Basic::Ed25519NT | Basic::Ed25519 | Basic::X25519 => 43,
            Basic::X448 => 75,
            Basic::ECDSAsecp256k1NT | Basic::ECDSAsecp256k1 => 47,
            Basic::Ed448NT | Basic::Ed448 => 76,
        }
    }

    /// The first character decides: one of the one-character codes, or the
    /// marker `1`, behind which three more characters select the entry.
    open spec fn lookup(text: Seq<char>) -> Result<Basic, Error> {
        if text.len() == 0 {
            Err(Error::UnknownPrefixCode)
        } else if text[0] == 'B' {
            Ok(Basic::Ed25519NT)
        } else if text[0] == 'C' {
            Ok(Basic::X25519)
        } else if text[0] == 'D' {
            Ok(Basic::Ed25519)
        } else if text[0] == 'L' {
            Ok(Basic::X448)
        } else if text[0] == '1' {
            if text.len() < 4 || text[1] != 'A' || text[2] != 'A' {
                Err(Error::UnknownDerivationCode)
            } else if text[3] == 'A' {
                Ok(Basic::ECDSAsecp256k1NT)
            } else if text[3] == 'B' {
                Ok(Basic::ECDSAsecp256k1)
            } else if text[3] == 'C' {
                Ok(Basic::Ed448NT)
            } else if text[3] == 'D' {
                Ok(Basic::Ed448)
            } else {
                Err(Error::UnknownDerivationCode)
            }
        } else {
            Err(Error::UnknownPrefixCode)
        }
    }


    proof fn lemma_entry(&self) {
    }

    proof fn lemma_lookup_code(&self, rest: Seq<char>) {
    }

    proof fn lemma_lookup_found(text: Seq<char>) {
    }

    fn resolve(s: &str) -> (r: Result<Basic, Error>) {
        Basic::from_str(s)
    }

    fn code_len(&self) -> (n: usize) {
        match self {
            Basic::Ed25519NT | Basic::Ed25519 | Basic::X25519 | Basic::X448 => 1,
            Basic::ECDSAsecp256k1NT | Basic::ECDSAsecp256k1 | Basic::Ed448NT | Basic::Ed448 => 4,
        }
    }

    fn derivative_b64_len(&self) -> (n: usize) {
        match self {
            Basic::Ed25519NT | Basic::Ed25519 | Basic::X25519 => 43,
            Basic::X448 => 75,
            Basic::ECDSAsecp256k1NT | Basic::ECDSAsecp256k1 => 47,
            Basic::Ed448NT | Basic::Ed448 => 76,
        }
    }

    fn prefix_b64_len(&self) -> (n: usize) {
        self.code_len() + self.derivative_b64_len()
    }

    fn to_str(&self) -> (s: String) {
        proof {
            reveal_strlit("B");
            reveal_strlit("C");
            reveal_strlit("D");
            reveal_strlit("L");
            reveal_strlit("1AAA");
            reveal_strlit("1AAB");
            reveal_strlit("1AAC");
            reveal_strlit("1AAD");
        }
        let s = match self {
            Basic::Ed25519NT => "B",
            Basic::X25519 => "C",
            Basic::Ed25519 => "D",
            Basic::X448 => "L",
            Basic::ECDSAsecp256k1NT => "1AAA",
            Basic::ECDSAsecp256k1 => "1AAB",
            Basic::Ed448NT => "1AAC",
            Basic::Ed448 => "1AAD",
        };
        assert(s@ =~= self.code());
        s.to_owned()
    }
}

impl core::str::FromStr for Basic {
    type Err = Error;

    /// Reads the code at the start of `s`, as `Basic::from_str` does.
    fn from_str(s: &str) -> (r: Result<Basic, Error>)
        ensures
            r == <Basic as DerivationCode>::lookup(s@),
    {
        Basic::from_str(s)
    }
}

} // verus!
