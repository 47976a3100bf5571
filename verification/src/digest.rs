//! Request digests and their hexadecimal form.
use vstd::prelude::*;
use sha2::Digest;
use crate::text::Text;

verus! {

/// The 32 bytes of the SHA-256 digest of a byte string.
pub uninterp spec fn sha256_output(bytes: Seq<u8>) -> [u8; 32];

/// The SHA-256 digest of a byte string.
pub open spec fn sha256(bytes: Seq<u8>) -> Seq<u8> {
    sha256_output(bytes)@
}

/// Whether two byte strings are different and yet share a digest.
pub open spec fn digests_collide(left: Seq<u8>, right: Seq<u8>) -> bool {
    left != right && sha256(left) == sha256(right)
}

/// The lower-case hexadecimal digit for a number below sixteen.
pub open spec fn hex_digit(n: int) -> char {
    if n < 10 {
        ('0' as u32 + n) as char
    } else {
        ('a' as u32 + n - 10) as char
    }
}

/// Two lower-case hexadecimal digits for each byte, the high half first.
pub open spec fn hex_text(bytes: Seq<u8>) -> Text {
    Seq::new(
        2 * bytes.len(),
        |i: int|
            if i % 2 == 0 {
                hex_digit(bytes[i / 2] as int / 16)
            } else {
                hex_digit(bytes[i / 2] as int % 16)
            },
    )
}

/// A lower-case hexadecimal digit.
pub open spec fn is_hex_digit(c: char) -> bool {
    '0' <= c <= '9' || 'a' <= c <= 'f'
}

/// The hexadecimal form of a digest is 64 lower-case hexadecimal digits.
pub proof fn digests_have_64_digits(bytes: Seq<u8>)
    ensures
        hex_text(sha256(bytes)).len() == 64,
        forall|i: int|
            0 <= i < 64 ==> is_hex_digit(#[trigger] hex_text(sha256(bytes))[i]),
{
}

proof fn lemma_hex_digits_differ(left: int, right: int)
    requires
        0 <= left < 16,
        0 <= right < 16,
        hex_digit(left) == hex_digit(right),
    ensures
        left == right,
{
    assert(hex_digit(left) as u32 == if left < 10 {
        48 + left
    } else {
        87 + left
    });
    assert(hex_digit(right) as u32 == if right < 10 {
        48 + right
    } else {
        87 + right
    });
}

/// Byte strings with the same hexadecimal form are the same.
pub proof fn hex_text_tells_bytes_apart(left: Seq<u8>, right: Seq<u8>)
    requires
        hex_text(left) == hex_text(right),
    ensures
        left == right,
{
    assert(hex_text(left).len() == 2 * left.len());
    assert(hex_text(right).len() == 2 * right.len());
    assert forall|i: int| 0 <= i < left.len() implies left[i] == right[i] by {
        assert(hex_text(left)[2 * i] == hex_text(right)[2 * i]);
        assert(hex_text(left)[2 * i + 1] == hex_text(right)[2 * i + 1]);
        assert((2 * i) / 2 == i && (2 * i + 1) / 2 == i);
        assert((2 * i) % 2 == 0 && (2 * i + 1) % 2 == 1);
        assert(hex_text(left)[2 * i] == hex_digit(left[i] as int / 16));
        assert(hex_text(right)[2 * i] == hex_digit(right[i] as int / 16));
        assert(hex_text(left)[2 * i + 1] == hex_digit(left[i] as int % 16));
        assert(hex_text(right)[2 * i + 1] == hex_digit(right[i] as int % 16));
        lemma_hex_digits_differ(left[i] as int / 16, right[i] as int / 16);
        lemma_hex_digits_differ(left[i] as int % 16, right[i] as int % 16);
    }
    assert(left == right);
}

/// `sha2::Sha256::digest` computes the SHA-256 digest of the bytes, which
/// depends on them alone.
#[verifier::external_body]
pub(crate) fn sha256_digest(bytes: &Vec<u8>) -> (digest: Vec<u8>)
    ensures
        digest@ == sha256_output(bytes@)@,
{
    sha2::Sha256::digest(bytes).to_vec()
}

/// `hex::encode` writes each byte as two lower-case hexadecimal digits.
#[verifier::external_body]
pub(crate) fn hex_encoded(bytes: &Vec<u8>) -> (text: String)
    ensures
        text@ == hex_text(bytes@),
{
    hex::encode(bytes)
}

} // verus!
