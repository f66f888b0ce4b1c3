//! Signing keys for package releases: the key id rule and the content of the key files.

use vstd::prelude::*;
use base64::Engine;
use base64::engine::general_purpose::STANDARD;
use ed25519_dalek::SigningKey;
use crate::unicode::{contains_white_space, has_white_space};

verus! {

/// A key id: not empty, and without whitespace anywhere. (An id that trims to nothing is
/// all whitespace, so this is the same as "does not trim to nothing and has no
/// whitespace".)
pub open spec fn key_id_ok(id: Seq<char>) -> bool {
    id.len() > 0 && !has_white_space(id)
}

/// The key id rule in terms of characters: an id is accepted exactly when it is not
/// empty and none of its characters is Unicode whitespace; no other character (`.`,
/// `-`, digits, letters of any script) ever matters.
pub proof fn lemma_key_id_rule(id: Seq<char>)
    ensures
        key_id_ok(id) <==> (id.len() > 0 && forall|i: int| 0 <= i < id.len() ==> !crate::unicode::is_white_space(#[trigger] id[i])),
{
}

/// Accepted key ids stay accepted when joined, and a whitespace character added to any
/// id makes it refused.
pub proof fn lemma_key_id_join(a: Seq<char>, b: Seq<char>, c: char)
    ensures
        key_id_ok(a) && key_id_ok(b) ==> key_id_ok(a + b),
        crate::unicode::is_white_space(c) ==> !key_id_ok(a.push(c)) && !key_id_ok(seq![c] + a),
{
    if key_id_ok(a) && key_id_ok(b) {
        assert forall|i: int| 0 <= i < (a + b).len() implies !crate::unicode::is_white_space(#[trigger] (a + b)[i]) by {
            if i < a.len() {
                assert((a + b)[i] == a[i]);
            } else {
                assert((a + b)[i] == b[i - a.len()]);
            }
        }
    }
    if crate::unicode::is_white_space(c) {
        assert(a.push(c)[a.len() as int] == c);
        assert((seq![c] + a)[0] == c);
    }
}

/// The refusal text for a key id.
pub open spec fn key_id_error() -> Seq<char> {
    "key ID must be non-empty and contain no whitespace"@
}

/// Checks a key id before any key is made for it.
pub fn validate_key_id(key_id: &str) -> (res: Result<(), String>)
    ensures
        res is Ok <==> key_id_ok(key_id@),
        res matches Err(m) ==> m@ == key_id_error(),
{
    if key_id.is_empty() || contains_white_space(key_id) {
        return Err(String::from_str("key ID must be non-empty and contain no whitespace"));
    }
    Ok(())
}

/// The character of a 6-bit value in the standard Base64 alphabet: `A`-`Z`, `a`-`z`,
/// `0`-`9`, `+`, `/`.
pub open spec fn base64_char(v: int) -> char {
    if v < 26 {
        (65 + v) as char
    } else if v < 52 {
        (97 + (v - 26)) as char
    } else if v < 62 {
        (48 + (v - 52)) as char
    } else if v == 62 {
        '+'
    } else {
        '/'
    }
}

/// The standard Base64 encoding with `=` padding (RFC 4648): each group of three bytes
/// becomes four characters, and a last group of one or two bytes is padded.
pub open spec fn base64_standard(data: Seq<u8>) -> Seq<char>
    decreases data.len(),
{
    let a = data[0] as int;
    let b = data[1] as int;
    let c = data[2] as int;
    if data.len() == 0 {
        Seq::empty()
    } else if data.len() == 1 {
        seq![base64_char(a / 4), base64_char((a % 4) * 16), '=', '=']
    } else if data.len() == 2 {
        seq![base64_char(a / 4), base64_char((a % 4) * 16 + b / 16), base64_char((b % 16) * 4), '=']
    } else {
        seq![base64_char(a / 4), base64_char((a % 4) * 16 + b / 16), base64_char((b % 16) * 4 + c / 64),
            base64_char(c % 64)] + base64_standard(data.subrange(3, data.len() as int))
    }
}

/// The Ed25519 public key of a 32-byte secret key, as `ed25519-dalek` derives it.
pub uninterp spec fn ed25519_public_key(secret: Seq<u8>) -> Seq<u8>;

/// Trusted: `base64::Engine::encode` on the `STANDARD` engine, which writes the standard
/// alphabet with padding, stated as `base64_standard`. The engine panics when the encoded length overflows `usize`; the
/// `requires` keeps the input far below that.
#[verifier::external_body]
fn encode_base64(data: &[u8]) -> (res: String)
    requires
        data@.len() <= usize::MAX / 2,
    ensures
        res@ == base64_standard(data@),
{
    STANDARD.encode(data)
}

/// Trusted: `ed25519_dalek::SigningKey::verifying_key`, on the signing key made from
/// `secret` by `SigningKey::from_bytes`, taken back to bytes by `VerifyingKey::to_bytes`.
/// The result is named `ed25519_public_key`.
#[verifier::external_body]
fn public_key_of(secret: &[u8; 32]) -> (res: [u8; 32])
    ensures
        res@ == ed25519_public_key(secret@),
{
    SigningKey::from_bytes(secret).verifying_key().to_bytes()
}

/// The two files written for a new signing key.
#[derive(Clone, Debug)]
pub struct KeyFiles {
    /// `<key id>.private`
    pub private_file: String,
    /// The secret key in Base64, then a newline.
    pub private_text: String,
    /// `<key id>.public`
    pub public_file: String,
    /// The key id, a space, the public key in Base64, then a newline.
    pub public_text: String,
}

impl KeyFiles {
    /// The files for a key under the id `key_id`, given the secret key and the public key
    /// already in Base64.
    pub fn from_encoded(key_id: &str, secret_base64: &str, public_base64: &str) -> (res: KeyFiles)
        ensures
            res.private_file@ == key_id@ + ".private"@,
            res.private_text@ == secret_base64@ + "\n"@,
            res.public_file@ == key_id@ + ".public"@,
            res.public_text@ == key_id@ + " "@ + public_base64@ + "\n"@,
    {
        let mut private_file = String::from_str(key_id);
        private_file.append(".private");
        let mut private_text = String::from_str(secret_base64);
        private_text.append("\n");
        let mut public_file = String::from_str(key_id);
        public_file.append(".public");
        let mut public_text = String::from_str(key_id);
        public_text.append(" ");
        public_text.append(public_base64);
        public_text.append("\n");
        KeyFiles { private_file, private_text, public_file, public_text }
    }
}

/// The files for the signing key `secret` under the id `key_id`: the secret key in
/// Base64, and the id with the Ed25519 public key in Base64.
pub fn key_files(key_id: &str, secret: &[u8; 32]) -> (res: KeyFiles)
    ensures
        res.private_file@ == key_id@ + ".private"@,
        res.private_text@ == base64_standard(secret@) + "\n"@,
        res.public_file@ == key_id@ + ".public"@,
        res.public_text@ == key_id@ + " "@ + base64_standard(ed25519_public_key(secret@)) + "\n"@,
{
    let secret_base64 = encode_base64(secret.as_slice());
    let public = public_key_of(secret);
    let public_base64 = encode_base64(public.as_slice());
    KeyFiles::from_encoded(key_id, secret_base64.as_str(), public_base64.as_str())
}

} // verus!
