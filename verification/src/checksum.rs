//! The SHA-256 checksum published beside a package.

use vstd::prelude::*;
use sha2::{Digest, Sha256};
use crate::unicode::{digit_char, push_decimal};

verus! {

/// The SHA-256 digest of some bytes, as `sha2` computes it.
pub uninterp spec fn sha256_digest(data: Seq<u8>) -> Seq<u8>;

/// Trusted: `<sha2::Sha256 as Digest>::digest`. The result is named `sha256_digest`; the
/// contract also states that it is 32 bytes long, the output size that `sha2` gives
/// SHA-256.
#[verifier::external_body]
fn sha256(data: &[u8]) -> (res: Vec<u8>)
    ensures
        res@ == sha256_digest(data@),
        res@.len() == 32,
{
    Sha256::digest(data).to_vec()
}

/// The lowercase hexadecimal digit of a value below 16.
pub open spec fn hex_char(d: nat) -> char {
    if d < 10 {
        digit_char(d)
    } else if d == 10 { 'a' }
    else if d == 11 { 'b' }
    else if d == 12 { 'c' }
    else if d == 13 { 'd' }
    else if d == 14 { 'e' }
    else { 'f' }
}

/// Bytes in lowercase hexadecimal, two digits per byte, as `{:x}` writes a digest.
pub open spec fn hex_lower(bytes: Seq<u8>) -> Seq<char>
    decreases bytes.len(),
{
    if bytes.len() == 0 {
        Seq::empty()
    } else {
        let b = bytes.last();
        hex_lower(bytes.drop_last()) + seq![hex_char((b / 16) as nat), hex_char((b % 16) as nat)]
    }
}

fn push_hex_digit(out: &mut String, d: u8)
    requires
        d < 16,
    ensures
        final(out)@ == old(out)@ + seq![hex_char(d as nat)],
{
    proof {
        reveal_strlit("a");
        reveal_strlit("b");
        reveal_strlit("c");
        reveal_strlit("d");
        reveal_strlit("e");
        reveal_strlit("f");
    }
    if d < 10 {
        push_decimal(out, d as u64);
    } else if d == 10 {
        out.append("a");
    } else if d == 11 {
        out.append("b");
    } else if d == 12 {
        out.append("c");
    } else if d == 13 {
        out.append("d");
    } else if d == 14 {
        out.append("e");
    } else {
        out.append("f");
    }
}

/// `bytes` in lowercase hexadecimal.
pub fn to_hex_lower(bytes: &[u8]) -> (res: String)
    ensures
        res@ == hex_lower(bytes@),
{
    let mut out = String::new();
    let mut i: usize = 0;
    while i < bytes.len()
        invariant
            i <= bytes@.len(),
            out@ == hex_lower(bytes@.take(i as int)),
        decreases bytes@.len() - i,
    {
        let b = bytes[i];
        push_hex_digit(&mut out, b / 16);
        push_hex_digit(&mut out, b % 16);
        proof {
            assert(bytes@.take(i + 1).drop_last() == bytes@.take(i as int));
        }
        i += 1;
    }
    proof {
        assert(bytes@.take(bytes@.len() as int) == bytes@);
    }
    out
}

/// The SHA-256 digest of a package's bytes in lowercase hexadecimal.
pub fn package_digest(package: &[u8]) -> (res: String)
    ensures
        res@ == hex_lower(sha256_digest(package@)),
        res@.len() == 64,
{
    let digest = sha256(package);
    let text = to_hex_lower(digest.as_slice());
    proof {
        lemma_hex_lower_len(digest@);
    }
    text
}

/// Hexadecimal text has two digits per byte.
pub proof fn lemma_hex_lower_len(bytes: Seq<u8>)
    ensures
        hex_lower(bytes).len() == 2 * bytes.len(),
    decreases bytes.len(),
{
    if bytes.len() > 0 {
        lemma_hex_lower_len(bytes.drop_last());
    }
}

/// The name of the checksum file of a package file: `<name>.sha256`.
pub fn checksum_file_name(package_file_name: &str) -> (res: String)
    ensures
        res@ == package_file_name@ + ".sha256"@,
{
    let mut out = String::from_str(package_file_name);
    out.append(".sha256");
    out
}

/// The content of the checksum file: the digest, two spaces, the package file name and a
/// newline, as `sha256sum` writes it.
pub fn checksum_line(digest: &str, package_file_name: &str) -> (res: String)
    ensures
        res@ == digest@ + "  "@ + package_file_name@ + "\n"@,
{
    let mut out = String::from_str(digest);
    out.append("  ");
    out.append(package_file_name);
    out.append("\n");
    out
}

} // verus!
