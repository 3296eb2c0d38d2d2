//! Reference values of a measured boot chain: digests of the kernel command
//! lines, kernels and initrds, and the Authenticode digests of GRUB and shim,
//! keyed the way a verifier of the boot measurements expects them.
use vstd::prelude::*;
use vstd::utf8::encode_utf8;

use digest::Digest;
use indexmap::IndexMap;
use object::read::pe::{PeFile32, PeFile64};

use crate::grub::{GrubArtifacts, KernelArtifacts};
use crate::measure::{
    aael_event_key, aael_key, OPERATION_NAME_FDE_ROOTFS_HASH, OPERATION_NAME_INITRD_SWITCH_ROOT,
    OPERATION_NAME_LOAD_CONFIG,
};
use crate::text::{concat_str, str_views};

verus! {

// ---------------------------------------------------------------------------
// Hexadecimal text (hex)
// ---------------------------------------------------------------------------

/// The lowercase hex digit of a nibble.
pub open spec fn hex_char(n: int) -> char {
    if n < 10 {
        (48 + n) as char
    } else {
        (87 + n) as char
    }
}

/// Each byte as two lowercase hex digits, high nibble first.
pub open spec fn hex_lower(b: Seq<u8>) -> Seq<char> {
    Seq::new(
        2 * b.len(),
        |i: int|
            if i % 2 == 0 {
                hex_char((b[i / 2] as int) / 16)
            } else {
                hex_char((b[i / 2] as int) % 16)
            },
    )
}

/// A hex digit of either case.
pub open spec fn is_hex_digit(c: char) -> bool {
    ||| (48 <= (c as int) && (c as int) <= 57)
    ||| (97 <= (c as int) && (c as int) <= 102)
    ||| (65 <= (c as int) && (c as int) <= 70)
}

/// The value of a hex digit.
pub open spec fn hex_value(c: char) -> int {
    if (c as int) <= 57 {
        (c as int) - 48
    } else if (c as int) >= 97 {
        (c as int) - 87
    } else {
        (c as int) - 55
    }
}

/// Text made of an even number of hex digits.
pub open spec fn is_hex_text(s: Seq<char>) -> bool {
    &&& s.len() % 2 == 0
    &&& forall|i: int| 0 <= i < s.len() ==> is_hex_digit(#[trigger] s[i])
}

/// The bytes that hex text spells, two digits per byte.
pub open spec fn hex_bytes(s: Seq<char>) -> Seq<u8> {
    Seq::new(s.len() / 2, |i: int| (hex_value(s[2 * i]) * 16 + hex_value(s[2 * i + 1])) as u8)
}

/// `hex::encode`: each byte as two lowercase hex digits, high nibble first.
#[verifier::external_body]
pub(crate) fn hex_encode(bytes: &[u8]) -> (r: String)
    ensures
        r@ == hex_lower(bytes@),
{
    hex::encode(bytes)
}

/// `hex::FromHexError`: why `hex::decode` failed.
#[verifier::external_type_specification]
#[verifier::external_body]
pub struct ExFromHexError(hex::FromHexError);

/// `hex::decode`: succeeds exactly on text of an even number of hex digits of
/// either case, and then gives the bytes they spell.
#[verifier::external_body]
pub(crate) fn hex_decode(s: &str) -> (r: Result<Vec<u8>, hex::FromHexError>)
    ensures
        r is Ok <==> is_hex_text(s@),
        r matches Ok(b) ==> b@ == hex_bytes(s@),
{
    hex::decode(s)
}

/// The hex digit of a nibble has the nibble as its value.
pub proof fn lemma_hex_char_value(n: int)
    requires
        0 <= n < 16,
    ensures
        is_hex_digit(hex_char(n)),
        hex_value(hex_char(n)) == n,
{
}

/// Hex text written by `hex_lower` is hex text, and reading it back gives the
/// bytes that were written.
pub proof fn lemma_hex_round_trip(b: Seq<u8>)
    ensures
        is_hex_text(hex_lower(b)),
        hex_bytes(hex_lower(b)) == b,
{
    let h = hex_lower(b);
    assert forall|i: int| 0 <= i < h.len() implies is_hex_digit(#[trigger] h[i]) by {
        let x = b[i / 2] as int;
        lemma_hex_char_value(x / 16);
        lemma_hex_char_value(x % 16);
    }
    assert forall|i: int| 0 <= i < b.len() implies #[trigger] hex_bytes(h)[i] == b[i] by {
        let x = b[i] as int;
        assert((2 * i) / 2 == i);
        assert((2 * i + 1) / 2 == i);
        assert((2 * i) % 2 == 0);
        assert((2 * i + 1) % 2 == 1);
        lemma_hex_char_value(x / 16);
        lemma_hex_char_value(x % 16);
        assert((x / 16) * 16 + x % 16 == x) by (nonlinear_arith)
            requires
                0 <= x,
        ;
    }
    assert(hex_bytes(h) =~= b);
}

// ---------------------------------------------------------------------------
// Digest algorithms (sha1, sha2, sm3) and Authenticode digests (authenticode)
// ---------------------------------------------------------------------------

/// The hash algorithms that reference values can be computed with.
#[derive(Debug, Clone, Copy, PartialEq, Eq, Structural)]
pub enum ShowReferenceValueHashAlgo {
    Sha1,
    Sha256,
    Sha384,
    Sm3,
}

/// The SHA-1 digest of `data`.
pub uninterp spec fn sha1_digest(data: Seq<u8>) -> Seq<u8>;

/// The SHA-256 digest of `data`.
pub uninterp spec fn sha256_digest(data: Seq<u8>) -> Seq<u8>;

/// The SHA-384 digest of `data`.
pub uninterp spec fn sha384_digest(data: Seq<u8>) -> Seq<u8>;

/// The SM3 digest of `data`.
pub uninterp spec fn sm3_digest(data: Seq<u8>) -> Seq<u8>;

/// `<sha1::Sha1 as Digest>::digest`: the 20-byte SHA-1 digest of `data`.
#[verifier::external_body]
fn sha1_of(data: &[u8]) -> (r: Vec<u8>)
    ensures
        r@ == sha1_digest(data@),
        r@.len() == 20,
{
    sha1::Sha1::digest(data).to_vec()
}

/// `<sha2::Sha256 as Digest>::digest`: the 32-byte SHA-256 digest of `data`.
#[verifier::external_body]
fn sha256_of(data: &[u8]) -> (r: Vec<u8>)
    ensures
        r@ == sha256_digest(data@),
        r@.len() == 32,
{
    sha2::Sha256::digest(data).to_vec()
}

/// `<sha2::Sha384 as Digest>::digest`: the 48-byte SHA-384 digest of `data`.
#[verifier::external_body]
pub(crate) fn sha384_of(data: &[u8]) -> (r: Vec<u8>)
    ensures
        r@ == sha384_digest(data@),
        r@.len() == 48,
{
    sha2::Sha384::digest(data).to_vec()
}

/// `<sm3::Sm3 as Digest>::digest`: the 32-byte SM3 digest of `data`.
#[verifier::external_body]
fn sm3_of(data: &[u8]) -> (r: Vec<u8>)
    ensures
        r@ == sm3_digest(data@),
        r@.len() == 32,
{
    sm3::Sm3::digest(data).to_vec()
}

/// The digest of `data` under `algo`.
pub open spec fn digest_of(algo: ShowReferenceValueHashAlgo, data: Seq<u8>) -> Seq<u8> {
    match algo {
        ShowReferenceValueHashAlgo::Sha1 => sha1_digest(data),
        ShowReferenceValueHashAlgo::Sha256 => sha256_digest(data),
        ShowReferenceValueHashAlgo::Sha384 => sha384_digest(data),
        ShowReferenceValueHashAlgo::Sm3 => sm3_digest(data),
    }
}

/// The length of a digest under `algo`.
pub open spec fn digest_len(algo: ShowReferenceValueHashAlgo) -> nat {
    match algo {
        ShowReferenceValueHashAlgo::Sha1 => 20,
        ShowReferenceValueHashAlgo::Sha256 => 32,
        ShowReferenceValueHashAlgo::Sha384 => 48,
        ShowReferenceValueHashAlgo::Sm3 => 32,
    }
}

/// The name under which reference values of `algo` are keyed.
pub open spec fn hash_key(algo: ShowReferenceValueHashAlgo) -> Seq<char> {
    match algo {
        ShowReferenceValueHashAlgo::Sha1 => "SHA-1"@,
        ShowReferenceValueHashAlgo::Sha256 => "SHA-256"@,
        ShowReferenceValueHashAlgo::Sha384 => "SHA-384"@,
        ShowReferenceValueHashAlgo::Sm3 => "SM3"@,
    }
}

impl ShowReferenceValueHashAlgo {
    /// The name under which reference values of this algorithm are keyed.
    pub fn hash_key(&self) -> (r: &'static str)
        ensures
            r@ == hash_key(*self),
    {
        match self {
            ShowReferenceValueHashAlgo::Sha1 => "SHA-1",
            ShowReferenceValueHashAlgo::Sha256 => "SHA-256",
            ShowReferenceValueHashAlgo::Sha384 => "SHA-384",
            ShowReferenceValueHashAlgo::Sm3 => "SM3",
        }
    }

    /// The digest of `data` under this algorithm.
    pub fn digest(&self, data: &[u8]) -> (r: Vec<u8>)
        ensures
            r@ == digest_of(*self, data@),
            r@.len() == digest_len(*self),
    {
        match self {
            ShowReferenceValueHashAlgo::Sha1 => sha1_of(data),
            ShowReferenceValueHashAlgo::Sha256 => sha256_of(data),
            ShowReferenceValueHashAlgo::Sha384 => sha384_of(data),
            ShowReferenceValueHashAlgo::Sm3 => sm3_of(data),
        }
    }
}

/// Whether `object` parses `image` as a 64-bit PE file.
pub uninterp spec fn pe64_parses(image: Seq<u8>) -> bool;

/// Whether `object` parses `image` as a 32-bit PE file.
pub uninterp spec fn pe32_parses(image: Seq<u8>) -> bool;

/// `object::read::pe::PeFile64::parse`: whether it accepts `image`.
#[verifier::external_body]
fn is_pe64(image: &[u8]) -> (r: bool)
    ensures
        r == pe64_parses(image@),
{
    PeFile64::parse(image).is_ok()
}

/// `object::read::pe::PeFile32::parse`: whether it accepts `image`.
#[verifier::external_body]
fn is_pe32(image: &[u8]) -> (r: bool)
    ensures
        r == pe32_parses(image@),
{
    PeFile32::parse(image).is_ok()
}

/// The SHA-1 Authenticode digest of `image` read as a 64-bit PE file, or
/// `None` where the digest cannot be computed.
pub uninterp spec fn authenticode_sha1_pe64(image: Seq<u8>) -> Option<Seq<u8>>;

/// `authenticode::authenticode_digest` with a SHA-1 hasher, on `image` as the
/// 64-bit PE file that `object` parses it into; `None` where the digest fails.
#[verifier::external_body]
fn authenticode_sha1_pe64_of(image: &[u8]) -> (r: Option<Vec<u8>>)
    requires
        pe64_parses(image@),
    ensures
        r matches Some(d) ==> authenticode_sha1_pe64(image@) == Some(d@) && d@.len() == 20,
        r is None ==> authenticode_sha1_pe64(image@) is None,
{
    let pe = match PeFile64::parse(image) {
        Ok(pe) => pe,
        Err(_) => return None,
    };
    let mut hasher = sha1::Sha1::new();
    match authenticode::authenticode_digest(&pe, &mut hasher) {
        Ok(()) => Some(hasher.finalize().to_vec()),
        Err(_) => None,
    }
}

/// The SHA-1 Authenticode digest of `image` read as a 32-bit PE file, or
/// `None` where the digest cannot be computed.
pub uninterp spec fn authenticode_sha1_pe32(image: Seq<u8>) -> Option<Seq<u8>>;

/// `authenticode::authenticode_digest` with a SHA-1 hasher, on `image` as the
/// 32-bit PE file that `object` parses it into; `None` where the digest fails.
#[verifier::external_body]
fn authenticode_sha1_pe32_of(image: &[u8]) -> (r: Option<Vec<u8>>)
    requires
        pe32_parses(image@),
    ensures
        r matches Some(d) ==> authenticode_sha1_pe32(image@) == Some(d@) && d@.len() == 20,
        r is None ==> authenticode_sha1_pe32(image@) is None,
{
    let pe = match PeFile32::parse(image) {
        Ok(pe) => pe,
        Err(_) => return None,
    };
    let mut hasher = sha1::Sha1::new();
    match authenticode::authenticode_digest(&pe, &mut hasher) {
        Ok(()) => Some(hasher.finalize().to_vec()),
        Err(_) => None,
    }
}

/// The SHA-256 Authenticode digest of `image` read as a 64-bit PE file, or
/// `None` where the digest cannot be computed.
pub uninterp spec fn authenticode_sha256_pe64(image: Seq<u8>) -> Option<Seq<u8>>;

/// `authenticode::authenticode_digest` with a SHA-256 hasher, on `image` as the
/// 64-bit PE file that `object` parses it into; `None` where the digest fails.
#[verifier::external_body]
fn authenticode_sha256_pe64_of(image: &[u8]) -> (r: Option<Vec<u8>>)
    requires
        pe64_parses(image@),
    ensures
        r matches Some(d) ==> authenticode_sha256_pe64(image@) == Some(d@) && d@.len() == 32,
        r is None ==> authenticode_sha256_pe64(image@) is None,
{
    let pe = match PeFile64::parse(image) {
        Ok(pe) => pe,
        Err(_) => return None,
    };
    let mut hasher = sha2::Sha256::new();
    match authenticode::authenticode_digest(&pe, &mut hasher) {
        Ok(()) => Some(hasher.finalize().to_vec()),
        Err(_) => None,
    }
}

/// The SHA-256 Authenticode digest of `image` read as a 32-bit PE file, or
/// `None` where the digest cannot be computed.
pub uninterp spec fn authenticode_sha256_pe32(image: Seq<u8>) -> Option<Seq<u8>>;

/// `authenticode::authenticode_digest` with a SHA-256 hasher, on `image` as the
/// 32-bit PE file that `object` parses it into; `None` where the digest fails.
#[verifier::external_body]
fn authenticode_sha256_pe32_of(image: &[u8]) -> (r: Option<Vec<u8>>)
    requires
        pe32_parses(image@),
    ensures
        r matches Some(d) ==> authenticode_sha256_pe32(image@) == Some(d@) && d@.len() == 32,
        r is None ==> authenticode_sha256_pe32(image@) is None,
{
    let pe = match PeFile32::parse(image) {
        Ok(pe) => pe,
        Err(_) => return None,
    };
    let mut hasher = sha2::Sha256::new();
    match authenticode::authenticode_digest(&pe, &mut hasher) {
        Ok(()) => Some(hasher.finalize().to_vec()),
        Err(_) => None,
    }
}

/// The SHA-384 Authenticode digest of `image` read as a 64-bit PE file, or
/// `None` where the digest cannot be computed.
pub uninterp spec fn authenticode_sha384_pe64(image: Seq<u8>) -> Option<Seq<u8>>;

/// `authenticode::authenticode_digest` with a SHA-384 hasher, on `image` as the
/// 64-bit PE file that `object` parses it into; `None` where the digest fails.
#[verifier::external_body]
fn authenticode_sha384_pe64_of(image: &[u8]) -> (r: Option<Vec<u8>>)
    requires
        pe64_parses(image@),
    ensures
        r matches Some(d) ==> authenticode_sha384_pe64(image@) == Some(d@) && d@.len() == 48,
        r is None ==> authenticode_sha384_pe64(image@) is None,
{
    let pe = match PeFile64::parse(image) {
        Ok(pe) => pe,
        Err(_) => return None,
    };
    let mut hasher = sha2::Sha384::new();
    match authenticode::authenticode_digest(&pe, &mut hasher) {
        Ok(()) => Some(hasher.finalize().to_vec()),
        Err(_) => None,
    }
}

/// The SHA-384 Authenticode digest of `image` read as a 32-bit PE file, or
/// `None` where the digest cannot be computed.
pub uninterp spec fn authenticode_sha384_pe32(image: Seq<u8>) -> Option<Seq<u8>>;

/// `authenticode::authenticode_digest` with a SHA-384 hasher, on `image` as the
/// 32-bit PE file that `object` parses it into; `None` where the digest fails.
#[verifier::external_body]
fn authenticode_sha384_pe32_of(image: &[u8]) -> (r: Option<Vec<u8>>)
    requires
        pe32_parses(image@),
    ensures
        r matches Some(d) ==> authenticode_sha384_pe32(image@) == Some(d@) && d@.len() == 48,
        r is None ==> authenticode_sha384_pe32(image@) is None,
{
    let pe = match PeFile32::parse(image) {
        Ok(pe) => pe,
        Err(_) => return None,
    };
    let mut hasher = sha2::Sha384::new();
    match authenticode::authenticode_digest(&pe, &mut hasher) {
        Ok(()) => Some(hasher.finalize().to_vec()),
        Err(_) => None,
    }
}

/// The SM3 Authenticode digest of `image` read as a 64-bit PE file, or
/// `None` where the digest cannot be computed.
pub uninterp spec fn authenticode_sm3_pe64(image: Seq<u8>) -> Option<Seq<u8>>;

/// `authenticode::authenticode_digest` with a SM3 hasher, on `image` as the
/// 64-bit PE file that `object` parses it into; `None` where the digest fails.
#[verifier::external_body]
fn authenticode_sm3_pe64_of(image: &[u8]) -> (r: Option<Vec<u8>>)
    requires
        pe64_parses(image@),
    ensures
        r matches Some(d) ==> authenticode_sm3_pe64(image@) == Some(d@) && d@.len() == 32,
        r is None ==> authenticode_sm3_pe64(image@) is None,
{
    let pe = match PeFile64::parse(image) {
        Ok(pe) => pe,
        Err(_) => return None,
    };
    let mut hasher = sm3::Sm3::new();
    match authenticode::authenticode_digest(&pe, &mut hasher) {
        Ok(()) => Some(hasher.finalize().to_vec()),
        Err(_) => None,
    }
}

/// The SM3 Authenticode digest of `image` read as a 32-bit PE file, or
/// `None` where the digest cannot be computed.
pub uninterp spec fn authenticode_sm3_pe32(image: Seq<u8>) -> Option<Seq<u8>>;

/// `authenticode::authenticode_digest` with a SM3 hasher, on `image` as the
/// 32-bit PE file that `object` parses it into; `None` where the digest fails.
#[verifier::external_body]
fn authenticode_sm3_pe32_of(image: &[u8]) -> (r: Option<Vec<u8>>)
    requires
        pe32_parses(image@),
    ensures
        r matches Some(d) ==> authenticode_sm3_pe32(image@) == Some(d@) && d@.len() == 32,
        r is None ==> authenticode_sm3_pe32(image@) is None,
{
    let pe = match PeFile32::parse(image) {
        Ok(pe) => pe,
        Err(_) => return None,
    };
    let mut hasher = sm3::Sm3::new();
    match authenticode::authenticode_digest(&pe, &mut hasher) {
        Ok(()) => Some(hasher.finalize().to_vec()),
        Err(_) => None,
    }
}

/// The Authenticode digest of `image` under `algo`, with `image` read as a PE
/// file of the given width.
pub open spec fn pe_authenticode(algo: ShowReferenceValueHashAlgo, wide: bool, image: Seq<u8>) -> Option<Seq<u8>> {
    match algo {
        ShowReferenceValueHashAlgo::Sha1 => if wide { authenticode_sha1_pe64(image) } else { authenticode_sha1_pe32(image) },
        ShowReferenceValueHashAlgo::Sha256 => if wide { authenticode_sha256_pe64(image) } else { authenticode_sha256_pe32(image) },
        ShowReferenceValueHashAlgo::Sha384 => if wide { authenticode_sha384_pe64(image) } else { authenticode_sha384_pe32(image) },
        ShowReferenceValueHashAlgo::Sm3 => if wide { authenticode_sm3_pe64(image) } else { authenticode_sm3_pe32(image) },
    }
}

/// The Authenticode digest of `image` under `algo`: the image is read as a
/// 64-bit PE file, or, where it is not one, as a 32-bit PE file; `None` where
/// it is neither, or where the digest cannot be computed.
pub open spec fn authenticode_of(algo: ShowReferenceValueHashAlgo, image: Seq<u8>) -> Option<
    Seq<u8>,
> {
    if pe64_parses(image) {
        pe_authenticode(algo, true, image)
    } else if pe32_parses(image) {
        pe_authenticode(algo, false, image)
    } else {
        None
    }
}

/// The Authenticode digest of `image` under `algo`, as `authenticode_of` says.
fn authenticode_digest_of(algo: ShowReferenceValueHashAlgo, image: &[u8]) -> (r: Option<Vec<u8>>)
    ensures
        r matches Some(d) ==> authenticode_of(algo, image@) == Some(d@),
        r is None ==> authenticode_of(algo, image@) is None,
{
    if is_pe64(image) {
        match algo {
            ShowReferenceValueHashAlgo::Sha1 => authenticode_sha1_pe64_of(image),
            ShowReferenceValueHashAlgo::Sha256 => authenticode_sha256_pe64_of(image),
            ShowReferenceValueHashAlgo::Sha384 => authenticode_sha384_pe64_of(image),
            ShowReferenceValueHashAlgo::Sm3 => authenticode_sm3_pe64_of(image),
        }
    } else if is_pe32(image) {
        match algo {
            ShowReferenceValueHashAlgo::Sha1 => authenticode_sha1_pe32_of(image),
            ShowReferenceValueHashAlgo::Sha256 => authenticode_sha256_pe32_of(image),
            ShowReferenceValueHashAlgo::Sha384 => authenticode_sha384_pe32_of(image),
            ShowReferenceValueHashAlgo::Sm3 => authenticode_sm3_pe32_of(image),
        }
    } else {
        None
    }
}

/// Why reference values could not be computed.
#[derive(Debug, PartialEq, Eq, Structural)]
pub enum ReferenceError {
    /// No hash algorithm was asked for.
    NoHashAlgorithm,
    /// A GRUB or shim binary is not a PE image with an Authenticode digest.
    Authenticode,
}

/// The hex Authenticode digest of a PE image under `algo`.
pub open spec fn spec_authenticode_hash(algo: ShowReferenceValueHashAlgo, image: Seq<u8>) -> Option<
    Seq<char>,
> {
    match authenticode_of(algo, image) {
        Some(d) => Some(hex_lower(d)),
        None => None,
    }
}

/// The Authenticode digest of a PE image under `algo`, in lowercase hex.
pub fn calculate_authenticode_hash(algo: ShowReferenceValueHashAlgo, image: &[u8]) -> (r: Result<
    String,
    ReferenceError,
>)
    ensures
        r matches Ok(h) ==> spec_authenticode_hash(algo, image@) == Some(h@),
        r is Err ==> spec_authenticode_hash(algo, image@) is None && r == Err::<String, ReferenceError>(
            ReferenceError::Authenticode,
        ),
{
    let d = authenticode_digest_of(algo, image);
    match d {
        Some(d) => Ok(hex_encode(&d)),
        None => Err(ReferenceError::Authenticode),
    }
}

/// The hex digest of text under `algo`, taken over its UTF-8 bytes.
pub open spec fn text_digest(algo: ShowReferenceValueHashAlgo, s: Seq<char>) -> Seq<char> {
    hex_lower(digest_of(algo, encode_utf8(s)))
}

/// The digest of text under `algo`, taken over its UTF-8 bytes, in lowercase hex.
pub fn hash_text(algo: ShowReferenceValueHashAlgo, s: &str) -> (r: String)
    ensures
        r@ == text_digest(algo, s@),
{
    let d = algo.digest(s.as_bytes());
    hex_encode(&d)
}

/// The digest of bytes under `algo`, in lowercase hex.
pub fn hash_bytes(algo: ShowReferenceValueHashAlgo, b: &[u8]) -> (r: String)
    ensures
        r@ == hex_lower(digest_of(algo, b@)),
{
    let d = algo.digest(b);
    hex_encode(&d)
}

// ---------------------------------------------------------------------------
// The reference value map (indexmap)
// ---------------------------------------------------------------------------

/// `indexmap::IndexMap`: a map that keeps its entries in insertion order.
#[verifier::external_type_specification]
#[verifier::external_body]
#[verifier::reject_recursive_types(K)]
#[verifier::reject_recursive_types(V)]
#[verifier::reject_recursive_types(S)]
pub struct ExIndexMap<K, V, S>(IndexMap<K, V, S>);

/// The entries of a reference value map, in their order: each key with its
/// list of values.
pub uninterp spec fn index_map_entries(m: IndexMap<String, Vec<String>>) -> Seq<
    (Seq<char>, Seq<Seq<char>>),
>;

/// The position of the entry with key `k`, the first where several match.
pub open spec fn entry_index(es: Seq<(Seq<char>, Seq<Seq<char>>)>, k: Seq<char>) -> Option<int>
    decreases es.len(),
{
    if es.len() == 0 {
        None
    } else {
        match entry_index(es.drop_last(), k) {
            Some(i) => Some(i),
            None => if es.last().0 == k {
                Some(es.len() - 1)
            } else {
                None
            },
        }
    }
}

/// The entries after inserting `v` under `k`: an entry with that key keeps its
/// place and takes the new value; otherwise the entry goes last.
pub open spec fn entries_insert(
    es: Seq<(Seq<char>, Seq<Seq<char>>)>,
    k: Seq<char>,
    v: Seq<Seq<char>>,
) -> Seq<(Seq<char>, Seq<Seq<char>>)> {
    match entry_index(es, k) {
        Some(i) => es.update(i, (k, v)),
        None => es.push((k, v)),
    }
}

/// No key occurs in two entries.
pub open spec fn entry_keys_unique(es: Seq<(Seq<char>, Seq<Seq<char>>)>) -> bool {
    forall|i: int, j: int| 0 <= i < j < es.len() ==> es[i].0 != es[j].0
}

/// The values under key `k`.
pub open spec fn entry_get(es: Seq<(Seq<char>, Seq<Seq<char>>)>, k: Seq<char>) -> Option<
    Seq<Seq<char>>,
> {
    match entry_index(es, k) {
        Some(i) => Some(es[i].1),
        None => None,
    }
}

/// `entry_index` finds the first entry with the key, and none where no entry
/// has it.
pub proof fn lemma_entry_index(es: Seq<(Seq<char>, Seq<Seq<char>>)>, k: Seq<char>)
    ensures
        entry_index(es, k) matches Some(i) ==> 0 <= i < es.len() && es[i].0 == k && forall|j: int|
            0 <= j < i ==> es[j].0 != k,
        entry_index(es, k) is None ==> forall|j: int| 0 <= j < es.len() ==> es[j].0 != k,
    decreases es.len(),
{
    if es.len() > 0 {
        let d = es.drop_last();
        lemma_entry_index(d, k);
        assert forall|j: int| 0 <= j < d.len() implies #[trigger] es[j] == d[j] by {}
    }
}

/// Where no entry before `i` has the key and entry `i` has it, `entry_index`
/// is `i`; where no entry has it, there is none.
proof fn lemma_entry_index_at(es: Seq<(Seq<char>, Seq<Seq<char>>)>, k: Seq<char>, i: int)
    requires
        0 <= i <= es.len(),
        forall|j: int| 0 <= j < i ==> es[j].0 != k,
        i < es.len() ==> es[i].0 == k,
    ensures
        entry_index(es, k) == if i < es.len() {
            Some(i)
        } else {
            None::<int>
        },
    decreases es.len(),
{
    if es.len() > 0 {
        if i < es.len() - 1 {
            lemma_entry_index_at(es.drop_last(), k, i);
        } else if i == es.len() - 1 {
            lemma_entry_index_at(es.drop_last(), k, i);
        } else {
            lemma_entry_index_at(es.drop_last(), k, es.len() - 1);
        }
    }
}

/// Inserting into entries whose keys are distinct keeps them distinct; the
/// key then maps to the values inserted, and every other key to what it
/// mapped to before.
pub proof fn lemma_entries_insert(
    es: Seq<(Seq<char>, Seq<Seq<char>>)>,
    k: Seq<char>,
    v: Seq<Seq<char>>,
)
    requires
        entry_keys_unique(es),
    ensures
        entry_keys_unique(entries_insert(es, k, v)),
        entry_get(entries_insert(es, k, v), k) == Some(v),
        forall|k2: Seq<char>|
            k2 != k ==> entry_get(entries_insert(es, k, v), k2) == entry_get(es, k2),
{
    lemma_entry_index(es, k);
    let r = entries_insert(es, k, v);
    match entry_index(es, k) {
        Some(i) => {
            lemma_entry_index_at(r, k, i);
        },
        None => {
            lemma_entry_index_at(r, k, es.len() as int);
        },
    }
    assert forall|k2: Seq<char>| k2 != k implies entry_get(r, k2) == entry_get(es, k2) by {
        lemma_entry_index(es, k2);
        match entry_index(es, k2) {
            Some(i) => {
                lemma_entry_index_at(r, k2, i);
            },
            None => {
                lemma_entry_index_at(r, k2, r.len() as int);
            },
        }
    }
}

/// `IndexMap::new`: an empty map.
#[verifier::external_body]
fn index_map_new() -> (r: IndexMap<String, Vec<String>>)
    ensures
        index_map_entries(r) == Seq::<(Seq<char>, Seq<Seq<char>>)>::empty(),
{
    IndexMap::new()
}

/// `IndexMap::insert`: an existing entry with an equal key keeps its place in
/// the order and takes the new value; otherwise the entry is appended last.
#[verifier::external_body]
fn index_map_insert(m: &mut IndexMap<String, Vec<String>>, k: String, v: Vec<String>)
    ensures
        index_map_entries(*final(m)) == entries_insert(index_map_entries(*old(m)), k@, str_views(v@)),
{
    m.insert(k, v);
}

// ---------------------------------------------------------------------------
// Boot chains
// ---------------------------------------------------------------------------

/// One boot chain: the GRUB files of an EFI directory and the kernel they boot.
pub trait BootChain {
    /// The GRUB half.
    spec fn grub_view(&self) -> GrubArtifacts;

    /// The kernel half.
    spec fn kernel_view(&self) -> KernelArtifacts;

    /// The GRUB half.
    fn grub(&self) -> (r: &GrubArtifacts)
        ensures
            *r == self.grub_view(),
    ;

    /// The kernel half.
    fn kernel(&self) -> (r: &KernelArtifacts)
        ensures
            *r == self.kernel_view(),
    ;
}

/// The GRUB and kernel artifacts of one boot entry.
#[derive(Debug)]
pub struct GrubBootArtifactsItem {
    pub grub: GrubArtifacts,
    pub kernel: KernelArtifacts,
}

impl BootChain for GrubBootArtifactsItem {
    open spec fn grub_view(&self) -> GrubArtifacts {
        self.grub
    }

    open spec fn kernel_view(&self) -> KernelArtifacts {
        self.kernel
    }

    fn grub(&self) -> (r: &GrubArtifacts) {
        &self.grub
    }

    fn kernel(&self) -> (r: &KernelArtifacts) {
        &self.kernel
    }
}

/// The boot artifacts found on a disk, by the boot loader that uses them.
#[derive(Debug)]
pub enum BootArtifacts {
    Grub { grub: GrubArtifacts, kernel: KernelArtifacts },
}

impl BootChain for BootArtifacts {
    open spec fn grub_view(&self) -> GrubArtifacts {
        match self {
            BootArtifacts::Grub { grub, .. } => *grub,
        }
    }

    open spec fn kernel_view(&self) -> KernelArtifacts {
        match self {
            BootArtifacts::Grub { kernel, .. } => *kernel,
        }
    }

    fn grub(&self) -> (r: &GrubArtifacts) {
        match self {
            BootArtifacts::Grub { grub, .. } => grub,
        }
    }

    fn kernel(&self) -> (r: &KernelArtifacts) {
        match self {
            BootArtifacts::Grub { kernel, .. } => kernel,
        }
    }
}

/// How a disk that cryptpilot protects (or not) boots.
#[derive(Debug)]
pub enum FdeBootType {
    /// A disk that cryptpilot does not protect.
    NoFde,
    /// A protected disk booted by GRUB.
    Grub,
    /// A protected disk booted from a unified kernel image.
    Uki,
}

/// The boot artifacts of a disk, by boot loader.
#[derive(Debug)]
pub enum BootArtifactsType {
    Grub(Vec<GrubBootArtifactsItem>),
}

// ---------------------------------------------------------------------------
// Reference values of boot chains
// ---------------------------------------------------------------------------

/// The kernel halves of boot chains.
pub open spec fn kernels_of<B: BootChain>(bs: Seq<B>) -> Seq<KernelArtifacts> {
    bs.map_values(|b: B| b.kernel_view())
}

/// The GRUB halves of boot chains.
pub open spec fn grubs_of<B: BootChain>(bs: Seq<B>) -> Seq<GrubArtifacts> {
    bs.map_values(|b: B| b.grub_view())
}

/// The kernel command lines of all kernels, kernel by kernel.
pub open spec fn all_cmdlines(ks: Seq<KernelArtifacts>) -> Seq<Seq<char>>
    decreases ks.len(),
{
    if ks.len() == 0 {
        Seq::empty()
    } else {
        all_cmdlines(ks.drop_last()) + str_views(ks.last().kernel_cmdlines@)
    }
}

/// A kernel command line as the boot event log records it.
pub open spec fn cmdline_label(c: Seq<char>) -> Seq<char> {
    "grub_kernel_cmdline "@ + c
}

/// Command lines as the boot event log records them.
pub open spec fn cmdline_labels(cls: Seq<Seq<char>>) -> Seq<Seq<char>> {
    cls.map_values(|c: Seq<char>| cmdline_label(c))
}

/// The hex digests of texts.
pub open spec fn text_digests(algo: ShowReferenceValueHashAlgo, cls: Seq<Seq<char>>) -> Seq<
    Seq<char>,
> {
    cls.map_values(|c: Seq<char>| text_digest(algo, c))
}

/// The hex digests of byte strings.
pub open spec fn byte_digests(algo: ShowReferenceValueHashAlgo, bs: Seq<Seq<u8>>) -> Seq<Seq<char>> {
    bs.map_values(|b: Seq<u8>| hex_lower(digest_of(algo, b)))
}

/// The kernel images.
pub open spec fn kernel_images(ks: Seq<KernelArtifacts>) -> Seq<Seq<u8>> {
    ks.map_values(|k: KernelArtifacts| k.kernel@)
}

/// The initrd images.
pub open spec fn initrd_images(ks: Seq<KernelArtifacts>) -> Seq<Seq<u8>> {
    ks.map_values(|k: KernelArtifacts| k.initrd@)
}

/// The GRUB binaries, or the shim binaries.
pub open spec fn pe_images(gs: Seq<GrubArtifacts>, shim: bool) -> Seq<Seq<u8>> {
    gs.map_values(|g: GrubArtifacts| if shim { g.shim_data@ } else { g.grub_data@ })
}

/// The hex Authenticode digests of PE images, or `None` where any image has none.
pub open spec fn pe_digests(algo: ShowReferenceValueHashAlgo, images: Seq<Seq<u8>>) -> Option<
    Seq<Seq<char>>,
>
    decreases images.len(),
{
    if images.len() == 0 {
        Some(Seq::empty())
    } else {
        match (pe_digests(algo, images.drop_last()), spec_authenticode_hash(algo, images.last())) {
            (Some(p), Some(h)) => Some(p.push(h)),
            _ => None,
        }
    }
}

/// A key of a measurement: the component, then the hash algorithm.
pub open spec fn measurement_key(component: Seq<char>, algo: ShowReferenceValueHashAlgo) -> Seq<
    char,
> {
    "measurement."@ + component + "."@ + hash_key(algo)
}

/// The entries after the reference values of boot chains under `algo` are
/// inserted, and whether every GRUB and shim binary had an Authenticode
/// digest. The command lines, kernels and initrds go in first; where a GRUB
/// binary has no digest nothing more goes in, and where a shim binary has
/// none the GRUB digests are the last to go in.
pub open spec fn reference_entries<B: BootChain>(
    es: Seq<(Seq<char>, Seq<Seq<char>>)>,
    bs: Seq<B>,
    algo: ShowReferenceValueHashAlgo,
) -> (Seq<(Seq<char>, Seq<Seq<char>>)>, bool) {
    let ks = kernels_of(bs);
    let gs = grubs_of(bs);
    let cls = all_cmdlines(ks);
    let e1 = entries_insert(es, "kernel_cmdline"@, cmdline_labels(cls));
    let e2 = entries_insert(e1, measurement_key("kernel_cmdline"@, algo), text_digests(algo, cls));
    let e3 = entries_insert(
        e2,
        measurement_key("kernel"@, algo),
        byte_digests(algo, kernel_images(ks)),
    );
    let e4 = entries_insert(
        e3,
        measurement_key("initrd"@, algo),
        byte_digests(algo, initrd_images(ks)),
    );
    match pe_digests(algo, pe_images(gs, false)) {
        None => (e4, false),
        Some(gd) => {
            let e5 = entries_insert(e4, measurement_key("grub"@, algo), gd);
            match pe_digests(algo, pe_images(gs, true)) {
                None => (e5, false),
                Some(sd) => (entries_insert(e5, measurement_key("shim"@, algo), sd), true),
            }
        },
    }
}

/// The key of a measurement of `component` under `algo`.
fn measurement_key_string(component: &str, algo: ShowReferenceValueHashAlgo) -> (r: String)
    ensures
        r@ == measurement_key(component@, algo),
{
    let a = concat_str("measurement.", component);
    let b = concat_str(a.as_str(), ".");
    concat_str(b.as_str(), algo.hash_key())
}

/// The labels and the hex digests of all kernel command lines.
fn cmdline_values<B: BootChain>(bs: &[B], algo: ShowReferenceValueHashAlgo) -> (r: (
    Vec<String>,
    Vec<String>,
))
    ensures
        str_views(r.0@) == cmdline_labels(all_cmdlines(kernels_of(bs@))),
        str_views(r.1@) == text_digests(algo, all_cmdlines(kernels_of(bs@))),
{
    let ghost ks = kernels_of(bs@);
    let mut labels: Vec<String> = Vec::new();
    let mut digests: Vec<String> = Vec::new();
    let mut i: usize = 0;
    while i < bs.len()
        invariant
            i <= bs@.len(),
            ks == kernels_of(bs@),
            str_views(labels@) == cmdline_labels(all_cmdlines(ks.take(i as int))),
            str_views(digests@) == text_digests(algo, all_cmdlines(ks.take(i as int))),
        decreases bs.len() - i,
    {
        let cls = &bs[i].kernel().kernel_cmdlines;
        let ghost before = all_cmdlines(ks.take(i as int));
        let mut j: usize = 0;
        while j < cls.len()
            invariant
                j <= cls@.len(),
                str_views(labels@) == cmdline_labels(before + str_views(cls@.take(j as int))),
                str_views(digests@) == text_digests(algo, before + str_views(cls@.take(j as int))),
            decreases cls.len() - j,
        {
            let c = cls[j].as_str();
            let l = concat_str("grub_kernel_cmdline ", c);
            let d = hash_text(algo, c);
            let ghost s0 = before + str_views(cls@.take(j as int));
            let ghost l0 = labels@;
            let ghost d0 = digests@;
            labels.push(l);
            digests.push(d);
            proof {
                let s1 = before + str_views(cls@.take(j + 1));
                assert(s1 =~= s0.push(cls@[j as int]@));
                assert(str_views(labels@) =~= str_views(l0).push(l@));
                assert(str_views(digests@) =~= str_views(d0).push(d@));
                assert(cmdline_labels(s1) =~= cmdline_labels(s0).push(cmdline_label(cls@[j as int]@)));
                assert(text_digests(algo, s1) =~= text_digests(algo, s0).push(
                    text_digest(algo, cls@[j as int]@),
                ));
            }
            j += 1;
        }
        proof {
            assert(ks.take(i + 1).drop_last() =~= ks.take(i as int));
            assert(cls@.take(cls@.len() as int) =~= cls@);
        }
        i += 1;
    }
    assert(ks.take(bs@.len() as int) =~= ks);
    (labels, digests)
}

/// The hex digests of all kernel images and of all initrd images.
fn image_values<B: BootChain>(bs: &[B], algo: ShowReferenceValueHashAlgo) -> (r: (
    Vec<String>,
    Vec<String>,
))
    ensures
        str_views(r.0@) == byte_digests(algo, kernel_images(kernels_of(bs@))),
        str_views(r.1@) == byte_digests(algo, initrd_images(kernels_of(bs@))),
{
    let ghost ks = kernels_of(bs@);
    let mut kernels: Vec<String> = Vec::new();
    let mut initrds: Vec<String> = Vec::new();
    let mut i: usize = 0;
    while i < bs.len()
        invariant
            i <= bs@.len(),
            ks == kernels_of(bs@),
            str_views(kernels@) == byte_digests(algo, kernel_images(ks.take(i as int))),
            str_views(initrds@) == byte_digests(algo, initrd_images(ks.take(i as int))),
        decreases bs.len() - i,
    {
        let k = bs[i].kernel();
        let kd = hash_bytes(algo, k.kernel.as_slice());
        let id = hash_bytes(algo, k.initrd.as_slice());
        let ghost k0 = kernels@;
        let ghost i0 = initrds@;
        kernels.push(kd);
        initrds.push(id);
        proof {
            let ki = kernel_images(ks.take(i as int));
            let ii = initrd_images(ks.take(i as int));
            assert(kernel_images(ks.take(i + 1)) =~= ki.push(k.kernel@));
            assert(initrd_images(ks.take(i + 1)) =~= ii.push(k.initrd@));
            assert(str_views(kernels@) =~= str_views(k0).push(kd@));
            assert(str_views(initrds@) =~= str_views(i0).push(id@));
            assert(byte_digests(algo, ki.push(k.kernel@)) =~= byte_digests(algo, ki).push(
                hex_lower(digest_of(algo, k.kernel@)),
            ));
            assert(byte_digests(algo, ii.push(k.initrd@)) =~= byte_digests(algo, ii).push(
                hex_lower(digest_of(algo, k.initrd@)),
            ));
        }
        i += 1;
    }
    assert(ks.take(bs@.len() as int) =~= ks);
    (kernels, initrds)
}

/// The hex Authenticode digests of all GRUB binaries, or of all shim binaries.
fn pe_values<B: BootChain>(bs: &[B], algo: ShowReferenceValueHashAlgo, shim: bool) -> (r: Result<
    Vec<String>,
    ReferenceError,
>)
    ensures
        match pe_digests(algo, pe_images(grubs_of(bs@), shim)) {
            Some(d) => r matches Ok(v) && str_views(v@) == d,
            None => r == Err::<Vec<String>, ReferenceError>(ReferenceError::Authenticode),
        },
{
    let ghost images = pe_images(grubs_of(bs@), shim);
    let mut out: Vec<String> = Vec::new();
    let mut i: usize = 0;
    while i < bs.len()
        invariant
            i <= bs@.len(),
            images == pe_images(grubs_of(bs@), shim),
            pe_digests(algo, images.take(i as int)) == Some(str_views(out@)),
            out@.len() == i,
        decreases bs.len() - i,
    {
        let g = bs[i].grub();
        let image = if shim {
            g.shim_data.as_slice()
        } else {
            g.grub_data.as_slice()
        };
        assert(images.take(i + 1).drop_last() =~= images.take(i as int));
        match calculate_authenticode_hash(algo, image) {
            Ok(h) => {
                let ghost o0 = out@;
                out.push(h);
                assert(str_views(out@) =~= str_views(o0).push(h@));
            },
            Err(e) => {
                proof {
                    lemma_pe_digests_none(algo, images, i + 1);
                }
                return Err(e);
            },
        }
        i += 1;
    }
    assert(images.take(bs@.len() as int) =~= images);
    Ok(out)
}

/// Where a prefix of the images has no digests, neither have the images.
pub proof fn lemma_pe_digests_none(algo: ShowReferenceValueHashAlgo, images: Seq<Seq<u8>>, n: int)
    requires
        0 <= n <= images.len(),
        pe_digests(algo, images.take(n)) is None,
    ensures
        pe_digests(algo, images) is None,
    decreases images.len() - n,
{
    if n < images.len() {
        assert(images.take(n + 1).drop_last() =~= images.take(n));
        lemma_pe_digests_none(algo, images, n + 1);
    } else {
        assert(images.take(n) =~= images);
    }
}

/// Inserts the reference values of boot chains under `algo` into `map`: the
/// kernel command lines as the event log records them, then the digests of the
/// command lines, kernels and initrds, then the Authenticode digests of the
/// GRUB and shim binaries. Fails where a GRUB or shim binary has no
/// Authenticode digest, with the values computed before it left in the map.
pub fn insert_boot_reference_values<B: BootChain>(
    bs: &[B],
    map: &mut IndexMap<String, Vec<String>>,
    algo: ShowReferenceValueHashAlgo,
) -> (r: Result<(), ReferenceError>)
    ensures
        index_map_entries(*final(map)) == reference_entries(
            index_map_entries(*old(map)),
            bs@,
            algo,
        ).0,
        r is Ok <==> reference_entries(index_map_entries(*old(map)), bs@, algo).1,
        r is Err ==> r == Err::<(), ReferenceError>(ReferenceError::Authenticode),
{
    let (labels, digests) = cmdline_values(bs, algo);
    index_map_insert(map, "kernel_cmdline".to_owned(), labels);
    index_map_insert(map, measurement_key_string("kernel_cmdline", algo), digests);
    let (kernels, initrds) = image_values(bs, algo);
    index_map_insert(map, measurement_key_string("kernel", algo), kernels);
    index_map_insert(map, measurement_key_string("initrd", algo), initrds);
    let grubs = match pe_values(bs, algo, false) {
        Ok(v) => v,
        Err(e) => return Err(e),
    };
    index_map_insert(map, measurement_key_string("grub", algo), grubs);
    let shims = match pe_values(bs, algo, true) {
        Ok(v) => v,
        Err(e) => return Err(e),
    };
    index_map_insert(map, measurement_key_string("shim", algo), shims);
    Ok(())
}

// ---------------------------------------------------------------------------
// Reference values of a disk
// ---------------------------------------------------------------------------

/// The config bundle hashes and root hashes found in the initrds.
pub open spec fn file_views(files: Seq<(String, String)>) -> Seq<(Seq<char>, Seq<char>)> {
    files.map_values(|f: (String, String)| (f.0@, f.1@))
}

/// The entries after the hashes of the configuration bundles and the root
/// hashes found in the initrds go in, under the keys of their operations.
pub open spec fn cryptpilot_entries(
    es: Seq<(Seq<char>, Seq<Seq<char>>)>,
    files: Seq<(Seq<char>, Seq<char>)>,
) -> Seq<(Seq<char>, Seq<Seq<char>>)> {
    let e1 = entries_insert(
        es,
        aael_key(OPERATION_NAME_LOAD_CONFIG@),
        files.map_values(|f: (Seq<char>, Seq<char>)| f.0),
    );
    entries_insert(
        e1,
        aael_key(OPERATION_NAME_FDE_ROOTFS_HASH@),
        files.map_values(|f: (Seq<char>, Seq<char>)| f.1),
    )
}

/// Inserts the configuration bundle hashes and root hashes found in the initrds.
fn insert_cryptpilot_files(map: &mut IndexMap<String, Vec<String>>, files: &[(String, String)])
    ensures
        index_map_entries(*final(map)) == cryptpilot_entries(
            index_map_entries(*old(map)),
            file_views(files@),
        ),
{
    let mut bundles: Vec<String> = Vec::new();
    let mut roots: Vec<String> = Vec::new();
    let ghost fv = file_views(files@);
    let mut i: usize = 0;
    while i < files.len()
        invariant
            i <= files@.len(),
            fv == file_views(files@),
            str_views(bundles@) == fv.take(i as int).map_values(
                |f: (Seq<char>, Seq<char>)| f.0,
            ),
            str_views(roots@) == fv.take(i as int).map_values(|f: (Seq<char>, Seq<char>)| f.1),
        decreases files.len() - i,
    {
        let ghost b0 = bundles@;
        let ghost r0 = roots@;
        bundles.push(files[i].0.clone());
        roots.push(files[i].1.clone());
        proof {
            assert(str_views(bundles@) =~= str_views(b0).push(files@[i as int].0@));
            assert(str_views(roots@) =~= str_views(r0).push(files@[i as int].1@));
            assert(fv.take(i + 1) =~= fv.take(i as int).push(fv[i as int]));
            assert(fv.take(i + 1).map_values(|f: (Seq<char>, Seq<char>)| f.0) =~= fv.take(
                i as int,
            ).map_values(|f: (Seq<char>, Seq<char>)| f.0).push(fv[i as int].0));
            assert(fv.take(i + 1).map_values(|f: (Seq<char>, Seq<char>)| f.1) =~= fv.take(
                i as int,
            ).map_values(|f: (Seq<char>, Seq<char>)| f.1).push(fv[i as int].1));
        }
        i += 1;
    }
    assert(fv.take(files@.len() as int) =~= fv);
    index_map_insert(map, aael_event_key(OPERATION_NAME_LOAD_CONFIG), bundles);
    index_map_insert(map, aael_event_key(OPERATION_NAME_FDE_ROOTFS_HASH), roots);
}

/// Inserts the reference values of the boot artifacts under `algo` into
/// `map`, then, where every binary had its Authenticode digest, the hashes of
/// the configuration bundles and the root hashes that the initrds carry (one
/// pair per initrd from which they could be read).
pub fn inseart_reference_value(
    boot_artifacts: &[BootArtifacts],
    map: &mut IndexMap<String, Vec<String>>,
    algo: ShowReferenceValueHashAlgo,
    cryptpilot_files: &[(String, String)],
) -> (r: Result<(), ReferenceError>)
    ensures
        ({
            let (es, ok) = reference_entries(index_map_entries(*old(map)), boot_artifacts@, algo);
            &&& ok ==> r is Ok && index_map_entries(*final(map)) == cryptpilot_entries(
                es,
                file_views(cryptpilot_files@),
            )
            &&& !ok ==> r == Err::<(), ReferenceError>(ReferenceError::Authenticode)
                && index_map_entries(*final(map)) == es
        }),
{
    match insert_boot_reference_values(boot_artifacts, map, algo) {
        Ok(()) => {
            insert_cryptpilot_files(map, cryptpilot_files);
            Ok(())
        },
        Err(e) => Err(e),
    }
}

/// At which stage of the boot the reference values are to be checked.
#[derive(Debug, Clone, Copy, PartialEq, Eq, Structural)]
pub enum ShowReferenceValueStage {
    /// In the initrd, before the switch to the real root.
    Initrd,
    /// In the booted system, after the switch to the real root.
    System,
}

/// The entries after the reference values under each algorithm in turn go in,
/// and whether all went in: the first algorithm under which a binary has no
/// Authenticode digest is the last whose values go in.
pub open spec fn all_algos_entries<B: BootChain>(
    es: Seq<(Seq<char>, Seq<Seq<char>>)>,
    bs: Seq<B>,
    algos: Seq<ShowReferenceValueHashAlgo>,
) -> (Seq<(Seq<char>, Seq<Seq<char>>)>, bool)
    decreases algos.len(),
{
    if algos.len() == 0 {
        (es, true)
    } else {
        let p = all_algos_entries(es, bs, algos.drop_last());
        if !p.1 {
            p
        } else {
            reference_entries(p.0, bs, algos.last())
        }
    }
}

/// The reference values of a disk, entry by entry, or why there are none: no
/// algorithm was asked for, or a binary has no Authenticode digest. The keys
/// of the configuration bundle and root hashes go in only where some initrd
/// carries them, and the switch-root key only for the system stage.
pub open spec fn spec_reference_values<B: BootChain>(
    bs: Seq<B>,
    algos: Seq<ShowReferenceValueHashAlgo>,
    files: Seq<(Seq<char>, Seq<char>)>,
    stage: Option<ShowReferenceValueStage>,
) -> Result<Seq<(Seq<char>, Seq<Seq<char>>)>, ReferenceError> {
    if algos.len() == 0 {
        Err(ReferenceError::NoHashAlgorithm)
    } else {
        let p = all_algos_entries(Seq::empty(), bs, algos);
        if !p.1 {
            Err(ReferenceError::Authenticode)
        } else if files.len() == 0 {
            Ok(p.0)
        } else {
            let e = cryptpilot_entries(p.0, files);
            if stage == Some(ShowReferenceValueStage::System) {
                Ok(entries_insert(e, aael_key(OPERATION_NAME_INITRD_SWITCH_ROOT@), seq!["{}"@]))
            } else {
                Ok(e)
            }
        }
    }
}

/// Shows the reference values of the boot chain of a disk (the current
/// system's where `disk` is `None`).
#[derive(Debug)]
pub struct ShowReferenceValueCommand {
    pub disk: Option<String>,
    pub stage: Option<ShowReferenceValueStage>,
    pub hash_algos: Vec<ShowReferenceValueHashAlgo>,
}

impl ShowReferenceValueCommand {
    /// The reference values of the boot chains found on the disk, given the
    /// configuration bundle hash and root hash of each initrd that carries them.
    pub fn reference_values(
        &self,
        items: &[GrubBootArtifactsItem],
        cryptpilot_files: &[(String, String)],
    ) -> (r: Result<IndexMap<String, Vec<String>>, ReferenceError>)
        ensures
            match spec_reference_values(
                items@,
                self.hash_algos@,
                file_views(cryptpilot_files@),
                self.stage,
            ) {
                Ok(es) => r matches Ok(m) && index_map_entries(m) == es,
                Err(e) => r == Err::<IndexMap<String, Vec<String>>, ReferenceError>(e),
            },
    {
        if self.hash_algos.len() == 0 {
            return Err(ReferenceError::NoHashAlgorithm);
        }
        let mut map = index_map_new();
        let mut i: usize = 0;
        while i < self.hash_algos.len()
            invariant
                i <= self.hash_algos@.len(),
                all_algos_entries(Seq::empty(), items@, self.hash_algos@.take(i as int)) == (
                    index_map_entries(map),
                    true,
                ),
            decreases self.hash_algos.len() - i,
        {
            let algo = self.hash_algos[i];
            assert(self.hash_algos@.take(i + 1).drop_last() =~= self.hash_algos@.take(i as int));
            match insert_boot_reference_values(items, &mut map, algo) {
                Ok(()) => {},
                Err(e) => {
                    proof {
                        lemma_algos_failed(items@, self.hash_algos@, i + 1);
                    }
                    return Err(e);
                },
            }
            i += 1;
        }
        assert(self.hash_algos@.take(self.hash_algos@.len() as int) =~= self.hash_algos@);
        if cryptpilot_files.len() > 0 {
            insert_cryptpilot_files(&mut map, cryptpilot_files);
            if self.stage == Some(ShowReferenceValueStage::System) {
                let mut v: Vec<String> = Vec::new();
                v.push("{}".to_owned());
                assert(str_views(v@) =~= seq!["{}"@]);
                index_map_insert(&mut map, aael_event_key(OPERATION_NAME_INITRD_SWITCH_ROOT), v);
            }
        }
        Ok(map)
    }
}

/// Once the values under some algorithm fail to go in, the values under all
/// the algorithms do.
proof fn lemma_algos_failed<B: BootChain>(bs: Seq<B>, algos: Seq<ShowReferenceValueHashAlgo>, n: int)
    requires
        0 <= n <= algos.len(),
        !all_algos_entries(Seq::empty(), bs, algos.take(n)).1,
    ensures
        !all_algos_entries(Seq::empty(), bs, algos).1,
    decreases algos.len() - n,
{
    if n < algos.len() {
        assert(algos.take(n + 1).drop_last() =~= algos.take(n));
        lemma_algos_failed(bs, algos, n + 1);
    } else {
        assert(algos.take(n) =~= algos);
    }
}

// ---------------------------------------------------------------------------
// Every algorithm keeps its own reference values
// ---------------------------------------------------------------------------

/// The measured components, by number: the kernel command lines, the kernels,
/// the initrds, the GRUB binaries and the shim binaries.
pub open spec fn component(j: int) -> Seq<char> {
    if j == 0 {
        "kernel_cmdline"@
    } else if j == 1 {
        "kernel"@
    } else if j == 2 {
        "initrd"@
    } else if j == 3 {
        "grub"@
    } else {
        "shim"@
    }
}

/// The reference values of component `j` of boot chains under `algo`.
pub open spec fn component_values<B: BootChain>(
    bs: Seq<B>,
    algo: ShowReferenceValueHashAlgo,
    j: int,
) -> Seq<Seq<char>> {
    let ks = kernels_of(bs);
    let gs = grubs_of(bs);
    if j == 0 {
        text_digests(algo, all_cmdlines(ks))
    } else if j == 1 {
        byte_digests(algo, kernel_images(ks))
    } else if j == 2 {
        byte_digests(algo, initrd_images(ks))
    } else if j == 3 {
        pe_digests(algo, pe_images(gs, false))->0
    } else {
        pe_digests(algo, pe_images(gs, true))->0
    }
}

/// Different algorithms have different key names.
proof fn lemma_hash_key_injective(a1: ShowReferenceValueHashAlgo, a2: ShowReferenceValueHashAlgo)
    ensures
        hash_key(a1) == hash_key(a2) ==> a1 == a2,
{
    reveal_strlit("SHA-1");
    reveal_strlit("SHA-256");
    reveal_strlit("SHA-384");
    reveal_strlit("SM3");
    if hash_key(a1) == hash_key(a2) && a1 != a2 {
        assert(hash_key(a1).len() == hash_key(a2).len());
        assert(hash_key(a1)[4] == hash_key(a2)[4]);
    }
}

/// The keys of measurements name their component and algorithm: different
/// components or algorithms give different keys, none of them
/// `kernel_cmdline` or a key of the event log.
proof fn lemma_measurement_keys(j1: int, a1: ShowReferenceValueHashAlgo, j2: int, a2: ShowReferenceValueHashAlgo)
    requires
        0 <= j1 < 5,
        0 <= j2 < 5,
    ensures
        measurement_key(component(j1), a1) == measurement_key(component(j2), a2) ==> j1 == j2 && a1
            == a2,
        measurement_key(component(j1), a1) != "kernel_cmdline"@,
        measurement_key(component(j1), a1)[0] == 'm',
{
    reveal_strlit("measurement.");
    reveal_strlit(".");
    reveal_strlit("kernel_cmdline");
    reveal_strlit("kernel");
    reveal_strlit("initrd");
    reveal_strlit("grub");
    reveal_strlit("shim");
    reveal_strlit("SHA-1");
    reveal_strlit("SHA-256");
    reveal_strlit("SHA-384");
    reveal_strlit("SM3");
    let c1 = component(j1);
    let c2 = component(j2);
    let k1 = measurement_key(c1, a1);
    let k2 = measurement_key(c2, a2);
    assert(k1[0] == 'm');
    assert(k1.len() != "kernel_cmdline"@.len());
    if k1 == k2 {
        assert(k1[12] == c1[0]);
        assert(k2[12] == c2[0]);
        if j1 != j2 {
            assert(k1.len() == k2.len());
            assert(false);
        }
        let n = 13 + c1.len();
        assert(k1.skip(n as int) =~= hash_key(a1));
        assert(k2.skip(n as int) =~= hash_key(a2));
        lemma_hash_key_injective(a1, a2);
    }
}

/// Inserting the reference values of boot chains under `algo` (where every
/// binary has an Authenticode digest) keeps the keys distinct, puts the
/// command lines under `kernel_cmdline` and each component's values under its
/// key, and leaves every other key as it was.
proof fn lemma_reference_entries<B: BootChain>(
    es: Seq<(Seq<char>, Seq<Seq<char>>)>,
    bs: Seq<B>,
    algo: ShowReferenceValueHashAlgo,
)
    requires
        entry_keys_unique(es),
        reference_entries(es, bs, algo).1,
    ensures
        entry_keys_unique(reference_entries(es, bs, algo).0),
        entry_get(reference_entries(es, bs, algo).0, "kernel_cmdline"@) == Some(
            cmdline_labels(all_cmdlines(kernels_of(bs))),
        ),
        forall|j: int|
            0 <= j < 5 ==> entry_get(
                reference_entries(es, bs, algo).0,
                #[trigger] measurement_key(component(j), algo),
            ) == Some(component_values(bs, algo, j)),
        forall|k: Seq<char>|
            k != "kernel_cmdline"@ && (forall|j: int|
                0 <= j < 5 ==> k != #[trigger] measurement_key(component(j), algo)) ==> entry_get(
                reference_entries(es, bs, algo).0,
                k,
            ) == entry_get(es, k),
{
    let ks = kernels_of(bs);
    let gs = grubs_of(bs);
    let cls = all_cmdlines(ks);
    let k0 = "kernel_cmdline"@;
    let v0 = cmdline_labels(cls);
    let e1 = entries_insert(es, k0, v0);
    lemma_entries_insert(es, k0, v0);
    let e2 = entries_insert(e1, measurement_key(component(0), algo), component_values(bs, algo, 0));
    lemma_entries_insert(e1, measurement_key(component(0), algo), component_values(bs, algo, 0));
    let e3 = entries_insert(e2, measurement_key(component(1), algo), component_values(bs, algo, 1));
    lemma_entries_insert(e2, measurement_key(component(1), algo), component_values(bs, algo, 1));
    let e4 = entries_insert(e3, measurement_key(component(2), algo), component_values(bs, algo, 2));
    lemma_entries_insert(e3, measurement_key(component(2), algo), component_values(bs, algo, 2));
    let e5 = entries_insert(e4, measurement_key(component(3), algo), component_values(bs, algo, 3));
    lemma_entries_insert(e4, measurement_key(component(3), algo), component_values(bs, algo, 3));
    let e6 = entries_insert(e5, measurement_key(component(4), algo), component_values(bs, algo, 4));
    lemma_entries_insert(e5, measurement_key(component(4), algo), component_values(bs, algo, 4));
    assert(reference_entries(es, bs, algo).0 == e6);
    assert forall|i: int, j: int| 0 <= i < 5 && 0 <= j < 5 && i != j implies measurement_key(
        component(i),
        algo,
    ) != measurement_key(component(j), algo) by {
        lemma_measurement_keys(i, algo, j, algo);
    }
    assert forall|j: int| 0 <= j < 5 implies #[trigger] measurement_key(component(j), algo) != k0 by {
        lemma_measurement_keys(j, algo, j, algo);
    }
    assert forall|j: int| 0 <= j < 5 implies entry_get(e6, #[trigger] measurement_key(component(j), algo))
        == Some(component_values(bs, algo, j)) by {
        lemma_measurement_keys(j, algo, 0, algo);
        lemma_measurement_keys(j, algo, 1, algo);
        lemma_measurement_keys(j, algo, 2, algo);
        lemma_measurement_keys(j, algo, 3, algo);
        lemma_measurement_keys(j, algo, 4, algo);
    }
    assert forall|k: Seq<char>|
        k != k0 && (forall|j: int| 0 <= j < 5 ==> k != #[trigger] measurement_key(component(j), algo))
        implies entry_get(e6, k) == entry_get(es, k) by {
        assert(k != measurement_key(component(0), algo));
        assert(k != measurement_key(component(1), algo));
        assert(k != measurement_key(component(2), algo));
        assert(k != measurement_key(component(3), algo));
        assert(k != measurement_key(component(4), algo));
    }
    lemma_measurement_keys(0, algo, 0, algo);
    lemma_measurement_keys(1, algo, 1, algo);
    lemma_measurement_keys(2, algo, 2, algo);
    lemma_measurement_keys(3, algo, 3, algo);
    lemma_measurement_keys(4, algo, 4, algo);
}

/// After the reference values under every algorithm of a list go in (all of
/// them having Authenticode digests), the keys are distinct, the command lines
/// are under `kernel_cmdline`, and every algorithm's values are under its keys.
proof fn lemma_all_algos_entries<B: BootChain>(bs: Seq<B>, algos: Seq<ShowReferenceValueHashAlgo>)
    requires
        all_algos_entries(Seq::empty(), bs, algos).1,
    ensures
        entry_keys_unique(all_algos_entries(Seq::empty(), bs, algos).0),
        algos.len() > 0 ==> entry_get(all_algos_entries(Seq::empty(), bs, algos).0, "kernel_cmdline"@)
            == Some(cmdline_labels(all_cmdlines(kernels_of(bs)))),
        forall|a: ShowReferenceValueHashAlgo, j: int|
            algos.contains(a) && 0 <= j < 5 ==> entry_get(
                all_algos_entries(Seq::empty(), bs, algos).0,
                #[trigger] measurement_key(component(j), a),
            ) == Some(component_values(bs, a, j)),
    decreases algos.len(),
{
    if algos.len() > 0 {
        let prev = algos.drop_last();
        let p = all_algos_entries(Seq::empty(), bs, prev);
        let b = algos.last();
        lemma_all_algos_entries(bs, prev);
        lemma_reference_entries(p.0, bs, b);
        let es = all_algos_entries(Seq::empty(), bs, algos).0;
        assert forall|a: ShowReferenceValueHashAlgo, j: int|
            algos.contains(a) && 0 <= j < 5 implies entry_get(
            es,
            #[trigger] measurement_key(component(j), a),
        ) == Some(component_values(bs, a, j)) by {
            if a != b {
                let idx = choose|idx: int| 0 <= idx < algos.len() && algos[idx] == a;
                assert(idx < algos.len() - 1);
                assert(prev[idx] == a);
                assert(prev.contains(a));
                lemma_measurement_keys(j, a, j, a);
                lemma_measurement_keys(j, a, 0, b);
                lemma_measurement_keys(j, a, 1, b);
                lemma_measurement_keys(j, a, 2, b);
                lemma_measurement_keys(j, a, 3, b);
                lemma_measurement_keys(j, a, 4, b);
                let k = measurement_key(component(j), a);
                assert forall|i: int| 0 <= i < 5 implies k != #[trigger] measurement_key(
                    component(i),
                    b,
                ) by {
                    lemma_measurement_keys(j, a, i, b);
                }
            }
        }
    }
}

/// Inserting under `k` puts `v` there, and leaves the values under every
/// other key as they were.
proof fn lemma_entries_insert_get(
    es: Seq<(Seq<char>, Seq<Seq<char>>)>,
    k: Seq<char>,
    v: Seq<Seq<char>>,
)
    ensures
        entry_get(entries_insert(es, k, v), k) == Some(v),
        forall|k2: Seq<char>|
            k2 != k ==> #[trigger] entry_get(entries_insert(es, k, v), k2) == entry_get(es, k2),
{
    let r = entries_insert(es, k, v);
    lemma_entry_index(es, k);
    match entry_index(es, k) {
        Some(i) => {
            lemma_entry_index_at(r, k, i);
        },
        None => {
            lemma_entry_index_at(r, k, es.len() as int);
        },
    }
    assert forall|k2: Seq<char>| k2 != k implies #[trigger] entry_get(r, k2) == entry_get(es, k2) by {
        lemma_entry_index(es, k2);
        match entry_index(es, k2) {
            Some(i) => {
                lemma_entry_index_at(r, k2, i);
            },
            None => {
                lemma_entry_index_at(r, k2, r.len() as int);
            },
        }
    }
}

/// Where `k` already holds `v`, inserting `v` under `k` changes nothing.
proof fn lemma_entries_insert_present(
    es: Seq<(Seq<char>, Seq<Seq<char>>)>,
    k: Seq<char>,
    v: Seq<Seq<char>>,
)
    requires
        entry_get(es, k) == Some(v),
    ensures
        entries_insert(es, k, v) == es,
{
    lemma_entry_index(es, k);
    let i = entry_index(es, k)->0;
    assert(es.update(i, (k, v)) =~= es);
}

/// Inserting the reference values of the same boot chains under the same
/// algorithm a second time leaves the entries as the first time left them,
/// and succeeds or fails as the first time: keys already there are replaced
/// in place, never added again.
pub proof fn lemma_reference_values_idempotent<B: BootChain>(
    es: Seq<(Seq<char>, Seq<Seq<char>>)>,
    bs: Seq<B>,
    algo: ShowReferenceValueHashAlgo,
)
    ensures
        reference_entries(reference_entries(es, bs, algo).0, bs, algo) == reference_entries(
            es,
            bs,
            algo,
        ),
{
    let k0 = "kernel_cmdline"@;
    let v0 = cmdline_labels(all_cmdlines(kernels_of(bs)));
    let ks = Seq::new(5, |j: int| measurement_key(component(j), algo));
    let vs = Seq::new(5, |j: int| component_values(bs, algo, j));
    assert forall|i: int, j: int| 0 <= i < 5 && 0 <= j < 5 && i != j implies ks[i] != ks[j] by {
        lemma_measurement_keys(i, algo, j, algo);
    }
    assert forall|j: int| 0 <= j < 5 implies ks[j] != k0 by {
        lemma_measurement_keys(j, algo, j, algo);
    }
    let e1 = entries_insert(es, k0, v0);
    let e2 = entries_insert(e1, ks[0], vs[0]);
    let e3 = entries_insert(e2, ks[1], vs[1]);
    let e4 = entries_insert(e3, ks[2], vs[2]);
    let e5 = entries_insert(e4, ks[3], vs[3]);
    let e6 = entries_insert(e5, ks[4], vs[4]);
    lemma_entries_insert_get(es, k0, v0);
    lemma_entries_insert_get(e1, ks[0], vs[0]);
    lemma_entries_insert_get(e2, ks[1], vs[1]);
    lemma_entries_insert_get(e3, ks[2], vs[2]);
    lemma_entries_insert_get(e4, ks[3], vs[3]);
    lemma_entries_insert_get(e5, ks[4], vs[4]);
    assert(entry_get(e4, k0) == Some(v0));
    assert(entry_get(e4, ks[0]) == Some(vs[0]));
    assert(entry_get(e4, ks[1]) == Some(vs[1]));
    assert(entry_get(e4, ks[2]) == Some(vs[2]));
    let gs = grubs_of(bs);
    match pe_digests(algo, pe_images(gs, false)) {
        None => {
            assert(reference_entries(es, bs, algo) == (e4, false));
            lemma_entries_insert_present(e4, k0, v0);
            lemma_entries_insert_present(e4, ks[0], vs[0]);
            lemma_entries_insert_present(e4, ks[1], vs[1]);
            lemma_entries_insert_present(e4, ks[2], vs[2]);
        },
        Some(gd) => {
            assert(entry_get(e5, k0) == Some(v0));
            assert(entry_get(e5, ks[0]) == Some(vs[0]));
            assert(entry_get(e5, ks[1]) == Some(vs[1]));
            assert(entry_get(e5, ks[2]) == Some(vs[2]));
            assert(entry_get(e5, ks[3]) == Some(vs[3]));
            match pe_digests(algo, pe_images(gs, true)) {
                None => {
                    assert(reference_entries(es, bs, algo) == (e5, false));
                    lemma_entries_insert_present(e5, k0, v0);
                    lemma_entries_insert_present(e5, ks[0], vs[0]);
                    lemma_entries_insert_present(e5, ks[1], vs[1]);
                    lemma_entries_insert_present(e5, ks[2], vs[2]);
                    lemma_entries_insert_present(e5, ks[3], vs[3]);
                },
                Some(sd) => {
                    assert(reference_entries(es, bs, algo) == (e6, true));
                    assert(entry_get(e6, k0) == Some(v0));
                    assert(entry_get(e6, ks[0]) == Some(vs[0]));
                    assert(entry_get(e6, ks[1]) == Some(vs[1]));
                    assert(entry_get(e6, ks[2]) == Some(vs[2]));
                    assert(entry_get(e6, ks[3]) == Some(vs[3]));
                    lemma_entries_insert_present(e6, k0, v0);
                    lemma_entries_insert_present(e6, ks[0], vs[0]);
                    lemma_entries_insert_present(e6, ks[1], vs[1]);
                    lemma_entries_insert_present(e6, ks[2], vs[2]);
                    lemma_entries_insert_present(e6, ks[3], vs[3]);
                    lemma_entries_insert_present(e6, ks[4], vs[4]);
                },
            }
        },
    }
}

/// The keys of the event log differ from one another and from the keys of
/// the boot reference values.
proof fn lemma_event_log_keys(algo: ShowReferenceValueHashAlgo)
    ensures
        aael_key(OPERATION_NAME_LOAD_CONFIG@) != aael_key(OPERATION_NAME_FDE_ROOTFS_HASH@),
        aael_key(OPERATION_NAME_LOAD_CONFIG@) != "kernel_cmdline"@,
        aael_key(OPERATION_NAME_FDE_ROOTFS_HASH@) != "kernel_cmdline"@,
        forall|j: int|
            0 <= j < 5 ==> aael_key(OPERATION_NAME_LOAD_CONFIG@) != #[trigger] measurement_key(
                component(j),
                algo,
            ) && aael_key(OPERATION_NAME_FDE_ROOTFS_HASH@) != measurement_key(component(j), algo),
{
    reveal_strlit("AA.eventlog.");
    reveal_strlit("cryptpilot.alibabacloud.com");
    reveal_strlit(".");
    reveal_strlit("load_config");
    reveal_strlit("fde_rootfs_hash");
    reveal_strlit("kernel_cmdline");
    let a = aael_key(OPERATION_NAME_LOAD_CONFIG@);
    let b = aael_key(OPERATION_NAME_FDE_ROOTFS_HASH@);
    assert(a.len() != b.len());
    assert(a[0] == 'A' && b[0] == 'A');
    assert("kernel_cmdline"@[0] == 'k');
    assert forall|j: int| 0 <= j < 5 implies a != #[trigger] measurement_key(component(j), algo)
        && b != measurement_key(component(j), algo) by {
        lemma_measurement_keys(j, algo, j, algo);
    }
}

/// Calling `inseart_reference_value` a second time with the same boot
/// artifacts, algorithm and initrd files leaves the map as the first call left
/// it, and succeeds or fails as the first call did.
pub proof fn lemma_inseart_reference_value_idempotent<B: BootChain>(
    es: Seq<(Seq<char>, Seq<Seq<char>>)>,
    bs: Seq<B>,
    algo: ShowReferenceValueHashAlgo,
    files: Seq<(Seq<char>, Seq<char>)>,
)
    ensures
        ({
            let (e, ok) = reference_entries(es, bs, algo);
            let m1 = if ok {
                cryptpilot_entries(e, files)
            } else {
                e
            };
            let (e2, ok2) = reference_entries(m1, bs, algo);
            let m2 = if ok2 {
                cryptpilot_entries(e2, files)
            } else {
                e2
            };
            ok2 == ok && m2 == m1
        }),
{
    lemma_reference_values_idempotent(es, bs, algo);
    let (e, ok) = reference_entries(es, bs, algo);
    if ok {
        let ka = aael_key(OPERATION_NAME_LOAD_CONFIG@);
        let kb = aael_key(OPERATION_NAME_FDE_ROOTFS_HASH@);
        let va = files.map_values(|f: (Seq<char>, Seq<char>)| f.0);
        let vb = files.map_values(|f: (Seq<char>, Seq<char>)| f.1);
        let c1 = entries_insert(e, ka, va);
        let c2 = entries_insert(c1, kb, vb);
        assert(cryptpilot_entries(e, files) == c2);
        lemma_entries_insert_get(e, ka, va);
        lemma_entries_insert_get(c1, kb, vb);
        lemma_event_log_keys(algo);
        // The boot reference values that `e` holds are still in `c2`.
        lemma_reference_values_idempotent(e, bs, algo);
        lemma_reference_entries_present(e, c2, bs, algo);
        assert(entry_get(c2, ka) == Some(va));
        lemma_entries_insert_present(c2, ka, va);
        lemma_entries_insert_present(c2, kb, vb);
    }
}

/// Where `m` holds, under the keys of the boot reference values, what `e`
/// holds after they were inserted, inserting them into `m` changes nothing.
proof fn lemma_reference_entries_present<B: BootChain>(
    e: Seq<(Seq<char>, Seq<Seq<char>>)>,
    m: Seq<(Seq<char>, Seq<Seq<char>>)>,
    bs: Seq<B>,
    algo: ShowReferenceValueHashAlgo,
)
    requires
        reference_entries(e, bs, algo).0 == e,
        reference_entries(e, bs, algo).1,
        entry_get(m, "kernel_cmdline"@) == entry_get(e, "kernel_cmdline"@),
        forall|j: int|
            0 <= j < 5 ==> entry_get(m, #[trigger] measurement_key(component(j), algo)) == entry_get(
                e,
                measurement_key(component(j), algo),
            ),
    ensures
        reference_entries(m, bs, algo) == (m, true),
{
    let k0 = "kernel_cmdline"@;
    let v0 = cmdline_labels(all_cmdlines(kernels_of(bs)));
    let ks = Seq::new(5, |j: int| measurement_key(component(j), algo));
    let vs = Seq::new(5, |j: int| component_values(bs, algo, j));
    assert forall|i: int, j: int| 0 <= i < 5 && 0 <= j < 5 && i != j implies ks[i] != ks[j] by {
        lemma_measurement_keys(i, algo, j, algo);
    }
    assert forall|j: int| 0 <= j < 5 implies ks[j] != k0 by {
        lemma_measurement_keys(j, algo, j, algo);
    }
    let e1 = entries_insert(e, k0, v0);
    let e2 = entries_insert(e1, ks[0], vs[0]);
    let e3 = entries_insert(e2, ks[1], vs[1]);
    let e4 = entries_insert(e3, ks[2], vs[2]);
    let e5 = entries_insert(e4, ks[3], vs[3]);
    let e6 = entries_insert(e5, ks[4], vs[4]);
    lemma_entries_insert_get(e, k0, v0);
    lemma_entries_insert_get(e1, ks[0], vs[0]);
    lemma_entries_insert_get(e2, ks[1], vs[1]);
    lemma_entries_insert_get(e3, ks[2], vs[2]);
    lemma_entries_insert_get(e4, ks[3], vs[3]);
    lemma_entries_insert_get(e5, ks[4], vs[4]);
    assert(reference_entries(e, bs, algo).0 == e6);
    assert(entry_get(m, k0) == Some(v0));
    assert(entry_get(m, ks[0]) == Some(vs[0]));
    assert(entry_get(m, ks[1]) == Some(vs[1]));
    assert(entry_get(m, ks[2]) == Some(vs[2]));
    assert(entry_get(m, ks[3]) == Some(vs[3]));
    assert(entry_get(m, ks[4]) == Some(vs[4]));
    lemma_entries_insert_present(m, k0, v0);
    lemma_entries_insert_present(m, ks[0], vs[0]);
    lemma_entries_insert_present(m, ks[1], vs[1]);
    lemma_entries_insert_present(m, ks[2], vs[2]);
    lemma_entries_insert_present(m, ks[3], vs[3]);
    lemma_entries_insert_present(m, ks[4], vs[4]);
}

/// The reference values of a disk hold, for every algorithm asked for, the
/// digests of every component under that algorithm, whatever other
/// algorithms were asked for; the kernel command lines as the event log
/// records them; and no key twice.
pub proof fn lemma_reference_values_per_algorithm<B: BootChain>(
    bs: Seq<B>,
    algos: Seq<ShowReferenceValueHashAlgo>,
    files: Seq<(Seq<char>, Seq<char>)>,
    stage: Option<ShowReferenceValueStage>,
    algo: ShowReferenceValueHashAlgo,
    j: int,
)
    requires
        spec_reference_values(bs, algos, files, stage) is Ok,
        algos.contains(algo),
        0 <= j < 5,
    ensures
        match spec_reference_values(bs, algos, files, stage) {
            Ok(es) => {
                &&& entry_keys_unique(es)
                &&& entry_get(es, measurement_key(component(j), algo)) == Some(
                    component_values(bs, algo, j),
                )
                &&& entry_get(es, "kernel_cmdline"@) == Some(
                    cmdline_labels(all_cmdlines(kernels_of(bs))),
                )
            },
            Err(_) => true,
        },
{
    reveal_strlit("AA.eventlog.");
    reveal_strlit("kernel_cmdline");
    let p = all_algos_entries(Seq::empty(), bs, algos);
    lemma_all_algos_entries(bs, algos);
    let k = measurement_key(component(j), algo);
    lemma_measurement_keys(j, algo, j, algo);
    let kc = "kernel_cmdline"@;
    if files.len() > 0 {
        let l = aael_key(OPERATION_NAME_LOAD_CONFIG@);
        let f = aael_key(OPERATION_NAME_FDE_ROOTFS_HASH@);
        let s = aael_key(OPERATION_NAME_INITRD_SWITCH_ROOT@);
        assert(l[0] == 'A' && f[0] == 'A' && s[0] == 'A');
        assert(kc[0] == 'k');
        let v1 = files.map_values(|x: (Seq<char>, Seq<char>)| x.0);
        let v2 = files.map_values(|x: (Seq<char>, Seq<char>)| x.1);
        let e1 = entries_insert(p.0, l, v1);
        lemma_entries_insert(p.0, l, v1);
        let e2 = entries_insert(e1, f, v2);
        lemma_entries_insert(e1, f, v2);
        assert(cryptpilot_entries(p.0, files) == e2);
        if stage == Some(ShowReferenceValueStage::System) {
            lemma_entries_insert(e2, s, seq!["{}"@]);
        }
    }
}

} // verus!
