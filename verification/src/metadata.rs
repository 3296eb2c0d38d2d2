//! The metadata that a protected disk carries about its root file system, and
//! the sanity check applied to it before it is trusted.
use vstd::prelude::*;

use crate::reference::{
    hex_bytes, hex_decode, hex_encode, hex_lower, is_hex_digit, is_hex_text, lemma_hex_round_trip,
};

verus! {

/// The metadata of a protected disk.
#[derive(Debug)]
pub struct Metadata {
    /// The version of the metadata, for future compatibility.
    pub type_: u32,
    /// The root hash of the root file system volume, in hex.
    pub root_hash: String,
}

/// Why metadata was refused.
#[derive(Debug, PartialEq, Eq, Structural)]
pub enum MetadataError {
    /// The root hash is not hex text.
    BadRootHash,
}

/// The root hash in its canonical form: the bytes it spells, written back in
/// lowercase hex; `None` where it is not hex text.
pub open spec fn spec_normalize_root_hash(root_hash: Seq<char>) -> Option<Seq<char>> {
    if is_hex_text(root_hash) {
        Some(hex_lower(hex_bytes(root_hash)))
    } else {
        None
    }
}

/// The root hash in its canonical form: decoded from hex and encoded again in
/// lowercase; refused where it is not hex text.
pub fn normalize_root_hash(root_hash: &str) -> (r: Result<String, MetadataError>)
    ensures
        match spec_normalize_root_hash(root_hash@) {
            Some(h) => r matches Ok(s) && s@ == h,
            None => r == Err::<String, MetadataError>(MetadataError::BadRootHash),
        },
{
    match hex_decode(root_hash) {
        Ok(b) => Ok(hex_encode(&b)),
        Err(_) => Err(MetadataError::BadRootHash),
    }
}

impl Metadata {
    /// The metadata with its root hash in canonical form, since the root hash
    /// comes from an untrusted source; refused where the root hash is not hex
    /// text.
    pub fn sanitized(self) -> (r: Result<Metadata, MetadataError>)
        ensures
            match spec_normalize_root_hash(self.root_hash@) {
                Some(h) => r matches Ok(m) && m.type_ == self.type_ && m.root_hash@ == h,
                None => r == Err::<Metadata, MetadataError>(MetadataError::BadRootHash),
            },
    {
        match normalize_root_hash(self.root_hash.as_str()) {
            Ok(h) => Ok(Metadata { type_: self.type_, root_hash: h }),
            Err(e) => Err(e),
        }
    }
}

/// A root hash in canonical form is lowercase hex text, and is its own
/// canonical form.
pub proof fn lemma_normalize_root_hash_idempotent(root_hash: Seq<char>)
    requires
        spec_normalize_root_hash(root_hash) is Some,
    ensures
        ({
            let h = spec_normalize_root_hash(root_hash)->0;
            &&& is_hex_text(h)
            &&& forall|i: int|
                0 <= i < h.len() ==> !(65 <= (#[trigger] h[i] as int) && (h[i] as int) <= 70)
            &&& spec_normalize_root_hash(h) == Some(h)
        }),
{
    let b = hex_bytes(root_hash);
    lemma_hex_round_trip(b);
    let h = hex_lower(b);
    assert forall|i: int| 0 <= i < h.len() implies !(65 <= (#[trigger] h[i] as int) && (h[i]
        as int) <= 70) by {
        assert(is_hex_digit(h[i]));
    }
}

} // verus!
