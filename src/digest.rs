//! Content digests (`sha256:<hex>`) and their verification.
use vstd::prelude::*;
use vstd::string::StringExecFns;

verus! {

/// The SHA-256 digest of `data`.
pub uninterp spec fn sha256_of(data: Seq<u8>) -> Seq<u8>;

/// SHA-256 takes inputs below 2^61 bytes.
pub open spec fn digestible(data: Seq<u8>) -> bool {
    data.len() < 0x2000_0000_0000_0000
}

/// Relies on `ring::digest::digest` with `SHA256`: 32 bytes that depend on
/// the input alone. It panics on inputs of 2^61 bytes or more.
#[verifier::external_body]
fn sha256(data: &[u8]) -> (r: Vec<u8>)
    requires
        digestible(data@),
    ensures
        r@ == sha256_of(data@),
        r@.len() == 32,
{
    ring::digest::digest(&ring::digest::SHA256, data).as_ref().to_vec()
}

/// The lowercase hex digit of `n < 16`.
pub open spec fn hex_digit(n: u8) -> char {
    seq!['0', '1', '2', '3', '4', '5', '6', '7', '8', '9', 'a', 'b', 'c', 'd', 'e', 'f'][n as int]
}

/// Two lowercase hex digits per byte, high nibble first.
pub open spec fn hex_text(b: Seq<u8>) -> Seq<char>
    decreases b.len(),
{
    if b.len() == 0 {
        seq![]
    } else {
        hex_text(b.drop_last()) + seq![hex_digit(b.last() / 16), hex_digit(b.last() % 16)]
    }
}

/// Relies on `hex::encode`: two lowercase hex digits per byte, high nibble
/// first.
#[verifier::external_body]
fn hex_encode(b: &[u8]) -> (r: String)
    ensures
        r@ == hex_text(b@),
{
    hex::encode(b)
}

/// The digest string of a blob: `sha256:` and the hex of its SHA-256.
pub open spec fn digest_text(data: Seq<u8>) -> Seq<char> {
    "sha256:"@ + hex_text(sha256_of(data))
}

/// A transfer or a stored blob did not match the digest asked for.
#[derive(Debug, PartialEq, Eq, Clone, Copy, Structural)]
pub enum DigestError {
    ContentHashMismatch,
}

/// The digest string of `data`.
pub fn content_digest(data: &[u8]) -> (r: String)
    requires
        digestible(data@),
    ensures
        r@ == digest_text(data@),
{
    let h = sha256(data);
    let x = hex_encode(h.as_slice());
    String::from_str("sha256:").concat(x.as_str())
}

/// Whether `expected` names the SHA-256 whose hex is `computed_hex`.
pub fn digest_matches(expected: &str, computed_hex: &str) -> (r: bool)
    ensures
        r == (expected@ == "sha256:"@ + computed_hex@),
{
    let full = String::from_str("sha256:").concat(computed_hex);
    let e = String::from_str(expected);
    e == full
}

/// Checks a body against the digest it was requested by.
pub fn verify_digest(expected: &str, body: &[u8]) -> (r: Result<(), DigestError>)
    requires
        digestible(body@),
    ensures
        r is Ok <==> expected@ == digest_text(body@),
        r is Err ==> r == Err::<(), DigestError>(DigestError::ContentHashMismatch),
{
    let h = sha256(body);
    let x = hex_encode(h.as_slice());
    if digest_matches(expected, x.as_str()) {
        Ok(())
    } else {
        Err(DigestError::ContentHashMismatch)
    }
}

} // verus!
