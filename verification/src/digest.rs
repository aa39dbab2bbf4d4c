//! SHA-256 digests of texts.
use sha2::Digest;
use vstd::prelude::*;

verus! {

/// The SHA-256 digest of some bytes, in lower-case hexadecimal.
pub uninterp spec fn sha256_hex(bytes: Seq<u8>) -> Seq<char>;

/// The SHA-256 digest of the UTF-8 encoding of a text, in hexadecimal.
pub open spec fn text_digest(s: Seq<char>) -> Seq<char> {
    sha256_hex(vstd::utf8::encode_utf8(s))
}

/// The digest of a text in the form in which identities are written.
pub open spec fn tagged_digest(s: Seq<char>) -> Seq<char> {
    "sha256:"@ + text_digest(s)
}

/// Whether a text consists of so many lower-case hexadecimal digits.
pub open spec fn is_hex(s: Seq<char>, n: nat) -> bool {
    &&& s.len() == n
    &&& forall|i: int|
        0 <= i < s.len() ==> ('0' <= #[trigger] s[i] <= '9') || ('a' <= s[i] <= 'f')
}

/// Whether a text has the form in which identities are written: a tag and the
/// digits of a digest.
pub open spec fn is_tagged(s: Seq<char>) -> bool {
    exists|digits: Seq<char>| is_hex(digits, 64) && s == #[trigger] ("sha256:"@ + digits)
}

/// Calls `sha2::Sha256::digest` and renders the result in lower-case
/// hexadecimal; the text depends on the bytes alone and has two digits for
/// each of the 32 bytes of a digest.
#[verifier::external_body]
fn sha256(bytes: &[u8]) -> (r: String)
    ensures
        r@ == sha256_hex(bytes@),
        is_hex(r@, 64),
{
    format!("{:x}", sha2::Sha256::digest(bytes))
}

/// The digest of a text, in hexadecimal.
pub fn digest_of(s: &str) -> (r: String)
    ensures
        r@ == text_digest(s@),
        is_hex(r@, 64),
{
    sha256(s.as_bytes())
}

/// The digest of a text in the form in which identities are written.
pub fn tagged_digest_of(s: &str) -> (r: String)
    ensures
        r@ == tagged_digest(s@),
        is_tagged(r@),
{
    let mut out = "sha256:".to_owned();
    let digits = digest_of(s);
    out.append(digits.as_str());
    out
}

} // verus!
