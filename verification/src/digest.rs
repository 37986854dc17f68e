//! Digests: SHA-256 of a file's content, as 64 lowercase hexadecimal digits.

use vstd::prelude::*;
use vstd::string::*;
use crate::text::copy_of;

verus! {

/// The number of hexadecimal digits in a digest.
pub const DIGEST_LENGTH: usize = 64;

/// `byte` is one of `0` to `9` or `a` to `f`.
pub open spec fn is_hex_digit(byte: u8) -> bool {
    (0x30 <= byte <= 0x39) || (0x61 <= byte <= 0x66)
}

/// `text` has the form of a digest: 64 lowercase hexadecimal digits.
pub open spec fn is_digest(text: Seq<u8>) -> bool {
    &&& text.len() == DIGEST_LENGTH
    &&& forall|i: int| 0 <= i < text.len() ==> is_hex_digit(#[trigger] text[i])
}

/// The SHA-256 hash of `data`, as the hexadecimal text that the `sha256`
/// crate gives for it.
pub uninterp spec fn sha256_hex(data: Seq<u8>) -> Seq<u8>;

/// A digest: the join key between a file's content and the records of the
/// signature database. It always has the form that [`is_digest`] describes.
#[derive(Debug, PartialEq, Eq)]
pub struct Digest {
    hex: Vec<u8>,
}

impl View for Digest {
    type V = Seq<u8>;

    closed spec fn view(&self) -> Seq<u8> {
        self.hex@
    }
}

/// `sha256::digest` on a byte slice. Trusted: it hashes `data` with SHA-256
/// and writes the 32 bytes of the hash as lowercase hexadecimal text, two
/// digits to the byte, so that equal data gives equal text of 64 digits.
#[verifier::external_body]
fn sha256_of(data: &[u8]) -> (hex: Vec<u8>)
    ensures
        hex@ == sha256_hex(data@),
        is_digest(hex@),
{
    sha256::digest(data).into_bytes()
}

/// Whether `byte` is one of `0` to `9` or `a` to `f`.
pub fn hex_digit(byte: u8) -> (yes: bool)
    ensures
        yes == is_hex_digit(byte),
{
    (0x30 <= byte && byte <= 0x39) || (0x61 <= byte && byte <= 0x66)
}

/// Whether `text` has the form of a digest.
pub fn has_digest_form(text: &[u8]) -> (yes: bool)
    ensures
        yes == is_digest(text@),
{
    if text.len() != DIGEST_LENGTH {
        return false;
    }
    let mut at: usize = 0;
    while at < text.len()
        invariant
            at <= text.len(),
            forall|i: int| 0 <= i < at ==> is_hex_digit(#[trigger] text@[i]),
        decreases text.len() - at,
    {
        if !hex_digit(text[at]) {
            return false;
        }
        at += 1;
    }
    true
}

impl Digest {
    #[verifier::type_invariant]
    spec fn well_formed(self) -> bool {
        is_digest(self.hex@)
    }

    /// The digest that `text` spells, if it has the form of one.
    pub fn parse(text: &str) -> (digest: Option<Digest>)
        ensures
            digest is Some <==> is_digest(text.spec_bytes()),
            digest is Some ==> digest->0@ == text.spec_bytes(),
    {
        let bytes = text.as_bytes();
        if has_digest_form(bytes) {
            Some(Digest { hex: copy_of(bytes) })
        } else {
            None
        }
    }

    /// The 64 hexadecimal digits of the digest.
    pub fn as_bytes(&self) -> (hex: &[u8])
        ensures
            hex@ == self@,
            is_digest(hex@),
    {
        proof {
            use_type_invariant(self);
        }
        self.hex.as_slice()
    }
}

impl Clone for Digest {
    fn clone(&self) -> (copy: Digest)
        ensures
            copy@ == self@,
    {
        Digest { hex: copy_of(self.as_bytes()) }
    }
}

/// The digest of `content`: its SHA-256 hash in hexadecimal text. Equal
/// content has equal digests.
pub fn calculate_sha256_hash(content: &[u8]) -> (digest: Digest)
    ensures
        digest@ == sha256_hex(content@),
{
    Digest { hex: sha256_of(content) }
}

/// Hashing is a function of the content alone: two contents that agree
/// byte for byte have the same digest.
pub proof fn lemma_same_content_same_digest(first: Seq<u8>, second: Seq<u8>)
    requires
        first.len() == second.len(),
        forall|i: int| 0 <= i < first.len() ==> first[i] == second[i],
    ensures
        sha256_hex(first) == sha256_hex(second),
{
    assert(first =~= second);
}

} // verus!
