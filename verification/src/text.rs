//! Lossy decoding of request bytes, and the facts about UTF-8 encoding that
//! the response buffer relies on.

use vstd::prelude::*;
use vstd::utf8::*;

verus! {

/// The character that stands in for a malformed byte sequence, U+FFFD.
pub open spec fn replacement_marker() -> char {
    '\u{FFFD}'
}

/// The text that the standard library's lossy decoder produces for `bytes`.
/// It is only ever consulted for bytes that are not valid UTF-8.
pub uninterp spec fn repaired_text(bytes: Seq<u8>) -> Seq<char>;

/// The text that a request buffer stands for. Valid UTF-8 decodes to the
/// characters it encodes; anything else decodes to the repaired text.
pub open spec fn lossy_text(bytes: Seq<u8>) -> Seq<char> {
    if valid_utf8(bytes) {
        decode_utf8(bytes)
    } else {
        repaired_text(bytes)
    }
}

/// Decodes `bytes` with `String::from_utf8_lossy`.
///
/// Trusted, not proved. The standard library documents that valid UTF-8 comes
/// back as the very string it encodes, and that every malformed sequence is
/// replaced by U+FFFD, so that text decoded from malformed input holds at
/// least one such marker. Beyond that the repaired text is only named.
#[verifier::external_body]
pub(crate) fn decode_lossy(bytes: &[u8]) -> (text: String)
    ensures
        valid_utf8(bytes@) ==> text@ == decode_utf8(bytes@),
        !valid_utf8(bytes@) ==> text@ == repaired_text(bytes@),
        !valid_utf8(bytes@) ==> text@.contains(replacement_marker()),
{
    String::from_utf8_lossy(bytes).into_owned()
}

/// Encoding is a homomorphism: the encoding of a concatenation is the
/// concatenation of the encodings.
pub proof fn lemma_encode_concat(a: Seq<char>, b: Seq<char>)
    ensures
        encode_utf8(a + b) == encode_utf8(a) + encode_utf8(b),
    decreases a.len(),
{
    if a.len() == 0 {
        assert(a + b =~= b);
    } else {
        assert((a + b).drop_first() =~= a.drop_first() + b);
        lemma_encode_concat(a.drop_first(), b);
    }
}

/// The encoding of a single scalar holds a zero byte exactly when the scalar
/// is zero.
pub proof fn lemma_encode_scalar_zero(scalar: u32)
    requires
        is_scalar(scalar),
    ensures
        encode_scalar(scalar).contains(0u8) <==> scalar == 0,
{
    let bytes = encode_scalar(scalar);
    if has_width_1_encoding(scalar) {
        assert(leading_byte_width_1(scalar) == 0 <==> scalar == 0) by (bit_vector)
            requires
                has_width_1_encoding(scalar),
        ;
        assert(bytes[0] == leading_byte_width_1(scalar));
    } else {
        assert(leading_byte_width_2(scalar) != 0) by (bit_vector);
        assert(leading_byte_width_3(scalar) != 0) by (bit_vector);
        assert(leading_byte_width_4(scalar) != 0) by (bit_vector);
        assert(last_continuation_byte(scalar) != 0) by (bit_vector);
        assert(second_last_continuation_byte(scalar) != 0) by (bit_vector);
        assert(third_last_continuation_byte(scalar) != 0) by (bit_vector);
    }
}

/// Encoded text holds a zero byte exactly when the text holds the NUL
/// character.
pub proof fn lemma_encode_zero(chars: Seq<char>)
    ensures
        encode_utf8(chars).contains(0u8) <==> chars.contains('\0'),
    decreases chars.len(),
{
    if chars.len() > 0 {
        char_is_scalar(chars[0]);
        let head = encode_scalar(chars[0] as u32);
        let tail = encode_utf8(chars.drop_first());
        lemma_encode_scalar_zero(chars[0] as u32);
        lemma_encode_zero(chars.drop_first());
        if chars.contains('\0') {
            let i = choose|i: int| 0 <= i < chars.len() && chars[i] == '\0';
            if i == 0 {
                let k = choose|k: int| 0 <= k < head.len() && head[k] == 0u8;
                assert((head + tail)[k] == 0u8);
            } else {
                assert(chars.drop_first()[i - 1] == '\0');
                let k = choose|k: int| 0 <= k < tail.len() && tail[k] == 0u8;
                assert((head + tail)[head.len() + k] == 0u8);
            }
        }
        if encode_utf8(chars).contains(0u8) {
            let k = choose|k: int| 0 <= k < (head + tail).len() && (head + tail)[k] == 0u8;
            if k < head.len() {
                assert(head[k] == 0u8);
                assert(chars[0] == '\0') by {
                    char_u32_cast(chars[0], 0u32);
                    char_u32_cast('\0', 0u32);
                }
            } else {
                assert(tail[k - head.len()] == 0u8);
                let i = choose|i: int|
                    0 <= i < chars.drop_first().len() && chars.drop_first()[i] == '\0';
                assert(chars[i + 1] == '\0');
            }
        }
    }
}

} // verus!
