//! Key material.

use vstd::prelude::*;

verus! {

/// The bytes of a public key, of whatever algorithm.
#[derive(Debug, Clone, PartialEq, Eq, Hash)]
pub struct PublicKey {
    public_key: Vec<u8>,
}

impl View for PublicKey {
    type V = Seq<u8>;

    closed spec fn view(&self) -> Seq<u8> {
        self.public_key@
    }
}

impl PublicKey {
    /// A key of the given bytes.
    pub fn new(key: Vec<u8>) -> (k: PublicKey)
        ensures
            k@ == key@,
    {
        PublicKey { public_key: key }
    }

    /// The bytes of the key.
    pub fn key(&self) -> (bytes: Vec<u8>)
        ensures
            bytes@ == self@,
    {
        let bytes = self.public_key.clone();
        assert(bytes@ =~= self.public_key@);
        bytes
    }

    /// The bytes of the key, borrowed.
    pub fn as_bytes(&self) -> (bytes: &[u8])
        ensures
            bytes@ == self@,
    {
        self.public_key.as_slice()
    }
}

} // verus!
