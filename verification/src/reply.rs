//! Building the response buffer for a request.

use crate::handoff::{lemma_reply_nul, lemma_scan_recovers_size, lemma_terminator_is_last};
use crate::release::terminator_at;
use crate::text::{decode_lossy, lemma_encode_concat, lossy_text, replacement_marker};
use vstd::prelude::*;
use vstd::string::*;
use vstd::utf8::*;

verus! {

/// The fixed words that every reply opens with.
pub const REPLY_PREFIX: &'static str = "Rust native stub reply for: ";

/// The reply to a prompt: the fixed opening followed by the prompt itself.
pub open spec fn reply_text(prompt: Seq<char>) -> Seq<char> {
    REPLY_PREFIX@ + prompt
}

/// The buffer that carries `text`: its UTF-8 encoding closed by one zero byte.
pub open spec fn terminated(text: Seq<char>) -> Seq<u8> {
    encode_utf8(text).push(0u8)
}

/// The response buffer owed to a request buffer.
pub open spec fn response_bytes(input: Seq<u8>) -> Seq<u8> {
    terminated(reply_text(lossy_text(input)))
}

/// The text that a response buffer carries: what its bytes decode to once the
/// closing zero byte is taken off.
pub open spec fn carried_text(buf: Seq<u8>) -> Seq<char> {
    decode_utf8(buf.drop_last())
}

/// A buffer built from a text carries exactly that text.
pub proof fn lemma_terminated_carries(text: Seq<char>)
    ensures
        carried_text(terminated(text)) == text,
{
    assert(terminated(text).drop_last() =~= encode_utf8(text));
    encode_utf8_decode_utf8(text);
}

/// The opening words are 28 ASCII characters, none of them NUL, so their
/// encoding is one byte per character.
pub proof fn lemma_prefix_is_ascii()
    ensures
        REPLY_PREFIX@.len() == 28,
        is_ascii_chars(REPLY_PREFIX@),
        !REPLY_PREFIX@.contains('\0'),
        encode_utf8(REPLY_PREFIX@) == Seq::new(28, |i: int| REPLY_PREFIX@[i] as u8),
{
    reveal_strlit("Rust native stub reply for: ");
    is_ascii_chars_encode_utf8(REPLY_PREFIX@);
    assert(encode_utf8(REPLY_PREFIX@) =~= Seq::new(28, |i: int| REPLY_PREFIX@[i] as u8));
}

/// A request that is valid UTF-8 is echoed byte for byte: the response is
/// the encoded opening words, then the request's own bytes, then the closing
/// zero byte, 29 bytes more than the request in all, and the text it carries
/// is the opening words followed by the request's text.
pub proof fn lemma_valid_request_is_echoed(input: Seq<u8>)
    requires
        valid_utf8(input),
    ensures
        response_bytes(input) == encode_utf8(REPLY_PREFIX@) + input + seq![0u8],
        response_bytes(input).len() == input.len() + 29,
        carried_text(response_bytes(input)) == REPLY_PREFIX@ + decode_utf8(input),
{
    lemma_prefix_is_ascii();
    lemma_encode_concat(REPLY_PREFIX@, decode_utf8(input));
    decode_utf8_encode_utf8(input);
    lemma_terminated_carries(reply_text(lossy_text(input)));
}

/// Builds the response buffer for a prompt that is already text. The
/// closing zero byte is the buffer's first zero byte unless the prompt holds
/// a NUL character.
pub fn respond(prompt: &str) -> (buf: Vec<u8>)
    ensures
        buf@ == terminated(reply_text(prompt@)),
        terminator_at(buf@, buf@.len() - 1) <==> !prompt@.contains('\0'),
{
    let mut reply = String::from_str(REPLY_PREFIX);
    reply.append(prompt);
    let mut buf = reply.as_str().as_bytes_vec();
    buf.push(0u8);
    proof {
        lemma_reply_nul(prompt@);
        lemma_terminator_is_last(reply_text(prompt@));
    }
    buf
}

/// Answers a request: decodes its bytes leniently, wraps the text in the
/// fixed reply and returns the zero-terminated response buffer.
///
/// Every request is answered. Valid UTF-8 is echoed byte for byte; a request
/// with malformed bytes yields a response whose text shows the replacement
/// marker. The closing zero byte is the response's first zero byte unless the
/// decoded request holds a NUL character, which for valid UTF-8 means a zero
/// byte in the request.
pub fn run_inference(input: &[u8]) -> (buf: Vec<u8>)
    ensures
        buf@ == response_bytes(input@),
        carried_text(buf@) == reply_text(lossy_text(input@)),
        valid_utf8(input@) ==> buf@ == encode_utf8(REPLY_PREFIX@) + input@ + seq![0u8],
        !valid_utf8(input@) ==> carried_text(buf@).contains(replacement_marker()),
        terminator_at(buf@, buf@.len() - 1) <==> !lossy_text(input@).contains('\0'),
        valid_utf8(input@) ==> (terminator_at(buf@, buf@.len() - 1) <==> !input@.contains(0u8)),
{
    let prompt = decode_lossy(input);
    let buf = respond(prompt.as_str());
    proof {
        lemma_terminated_carries(reply_text(lossy_text(input@)));
        lemma_scan_recovers_size(input@);
        if valid_utf8(input@) {
            lemma_valid_request_is_echoed(input@);
        } else {
            let text = lossy_text(input@);
            let at = choose|i: int| 0 <= i < text.len() && text[i] == replacement_marker();
            assert(reply_text(text)[REPLY_PREFIX@.len() + at] == replacement_marker());
        }
    }
    buf
}

} // verus!
