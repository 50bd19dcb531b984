//! The checksum of a download.
use crate::text;
use sha2::Digest;
use vstd::prelude::*;
use vstd::string::StringExecFns;

verus! {

broadcast use vstd::string::group_string_axioms;

/// The SHA-256 digest of bytes.
pub uninterp spec fn sha256_of(data: Seq<u8>) -> Seq<u8>;

/// `sha2::Sha256::digest`: the digest, which depends on the bytes alone and has 32
/// bytes.
#[verifier::external_body]
fn sha256(data: &[u8]) -> (r: Vec<u8>)
    ensures
        r@ == sha256_of(data@),
        r@.len() == 32,
{
    sha2::Sha256::digest(data).to_vec()
}

/// The hexadecimal digit for a number below sixteen, in lower case.
pub open spec fn hex_digit(n: int) -> char {
    "0123456789abcdef"@[n]
}

/// Two hexadecimal digits for each byte, the high one first.
pub open spec fn hex_text(data: Seq<u8>) -> Seq<char>
    decreases data.len(),
{
    if data.len() == 0 {
        Seq::empty()
    } else {
        hex_text(data.drop_last()) + seq![
            hex_digit(data.last() as int / 16),
            hex_digit(data.last() as int % 16),
        ]
    }
}

/// `hex::encode`: two lower case hexadecimal digits for each byte, the high one
/// first.
#[verifier::external_body]
fn hex_encode(data: &[u8]) -> (r: String)
    ensures
        r@ == hex_text(data@),
{
    hex::encode(data)
}

/// The checksum of bytes as text.
pub open spec fn checksum(data: Seq<u8>) -> Seq<char> {
    hex_text(sha256_of(data))
}

/// The message for a download with another checksum than it should have.
pub open spec fn mismatch(url: Seq<char>, expected: Seq<char>, got: Seq<char>) -> Seq<char> {
    "SHA256 mismatch for "@ + url + ": expected "@ + expected + ", got "@ + got
}

/// Holds a digest against the checksum that it should have.
pub fn compare_digest(digest: &[u8], expected: &str, url: &str) -> (r: Result<(), String>)
    ensures
        match r {
            Ok(_) => hex_text(digest@) == expected@,
            Err(e) => hex_text(digest@) != expected@ && e@ == mismatch(
                url@,
                expected@,
                hex_text(digest@),
            ),
        },
{
    let got = hex_encode(digest);
    if text::same_text(got.as_str(), expected) {
        Ok(())
    } else {
        let mut message = String::from_str("SHA256 mismatch for ").concat(url);
        message.append(": expected ");
        message.append(expected);
        message.append(", got ");
        message.append(got.as_str());
        Err(message)
    }
}

/// Holds a download against the checksum that it should have.
pub fn check_download(data: &[u8], expected: &str, url: &str) -> (r: Result<(), String>)
    ensures
        match r {
            Ok(_) => checksum(data@) == expected@,
            Err(e) => checksum(data@) != expected@ && e@ == mismatch(
                url@,
                expected@,
                checksum(data@),
            ),
        },
{
    let digest = sha256(data);
    compare_digest(digest.as_slice(), expected, url)
}

} // verus!
