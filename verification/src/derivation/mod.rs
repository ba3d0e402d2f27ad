//! Derivation codes: the closed tables of algorithm identifiers, each with
//! its fixed literal and the length of the base64 body that follows it.

use crate::error::Error;
use vstd::prelude::*;

pub mod basic;
pub mod self_addressing;

verus! {

/// An entry of a code table.
pub trait DerivationCode: Sized {
    /// The literal that every prefix of this kind starts with.
    spec fn code(&self) -> Seq<char>;

    /// The number of base64 characters that follow the literal.
    spec fn body_len(&self) -> nat;

    /// The entry of this table whose literal `text` starts with, or why
    /// there is none.
    spec fn lookup(text: Seq<char>) -> Result<Self, Error>;

    /// The literal has one character or four, and the whole prefix is as
    /// long as the base64 text of some number of bytes.
    proof fn lemma_entry(&self)
        ensures
            self.code().len() == 1 || self.code().len() == 4,
            (self.code().len() + self.body_len()) % 4 != 1,
    ;

    /// A text that starts with the literal of an entry is looked up as that
    /// entry, whatever follows the literal.
    proof fn lemma_lookup_code(&self, rest: Seq<char>)
        ensures
            Self::lookup(self.code() + rest) == Ok::<Self, Error>(*self),
    ;

    /// Looking up succeeds only on a text that starts with the literal of
    /// the entry found; a failure past the marker `1` is an unknown
    /// selector, any other an unknown code.
    proof fn lemma_lookup_found(text: Seq<char>)
        ensures
            match Self::lookup(text) {
                Ok(entry) => entry.code().is_prefix_of(text),
                Err(e) => if text.len() > 0 && text[0] == '1' {
                    e == Error::UnknownDerivationCode
                } else {
                    e == Error::UnknownPrefixCode
                },
            },
    ;

    /// Reads the code at the start of `s`.
    fn resolve(s: &str) -> (r: Result<Self, Error>)
        ensures
            r == Self::lookup(s@),
    ;

    /// The length of the literal.
    fn code_len(&self) -> (n: usize)
        ensures
            n == self.code().len(),
    ;

    /// The length of the body.
    fn derivative_b64_len(&self) -> (n: usize)
        ensures
            n == self.body_len(),
    ;

    /// The length of every prefix of this kind.
    fn prefix_b64_len(&self) -> (n: usize)
        ensures
            n == self.code().len() + self.body_len(),
    ;

    /// The literal.
    fn to_str(&self) -> (s: String)
        ensures
            s@ == self.code(),
    ;
}

/// The table of keys and the table of digests share no code: no text is
/// looked up in both.
pub proof fn lemma_tables_apart(text: Seq<char>)
    ensures
        !(<basic::Basic as DerivationCode>::lookup(text) is Ok
            && <self_addressing::SelfAddressing as DerivationCode>::lookup(text) is Ok),
{
}

} // verus!
