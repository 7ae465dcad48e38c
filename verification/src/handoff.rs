//! How answering and releasing fit together: the size that a release
//! recovers by scanning is the size that the response was built with.

use crate::release::{lemma_terminator_unique, terminator_at};
use crate::reply::{lemma_prefix_is_ascii, reply_text, response_bytes, terminated, REPLY_PREFIX};
use crate::text::{lemma_encode_zero, lossy_text};
use vstd::prelude::*;
use vstd::utf8::*;

verus! {

/// The closing zero byte of a buffer is its first zero byte exactly when the
/// text it was built from holds no NUL character.
pub proof fn lemma_terminator_is_last(text: Seq<char>)
    ensures
        terminator_at(terminated(text), terminated(text).len() - 1) <==> !text.contains('\0'),
{
    let body = encode_utf8(text);
    let buf = terminated(text);
    lemma_encode_zero(text);
    if text.contains('\0') {
        let k = choose|k: int| 0 <= k < body.len() && body[k] == 0u8;
        assert(buf[k] == 0u8);
    } else {
        assert forall|j: int| 0 <= j < buf.len() - 1 implies buf[j] != 0 by {
            assert(body[j] == buf[j]);
        }
    }
}

/// A reply holds a NUL character exactly when its prompt does.
pub proof fn lemma_reply_nul(prompt: Seq<char>)
    ensures
        reply_text(prompt).contains('\0') <==> prompt.contains('\0'),
{
    let reply = reply_text(prompt);
    lemma_prefix_is_ascii();
    if prompt.contains('\0') {
        let i = choose|i: int| 0 <= i < prompt.len() && prompt[i] == '\0';
        assert(reply[REPLY_PREFIX@.len() + i] == '\0');
    }
    if reply.contains('\0') {
        let i = choose|i: int| 0 <= i < reply.len() && reply[i] == '\0';
        if i < REPLY_PREFIX@.len() {
            assert(REPLY_PREFIX@[i] == '\0');
        } else {
            assert(prompt[i - REPLY_PREFIX@.len()] == '\0');
        }
    }
}

/// The closing zero byte of a response is its first zero byte exactly when
/// the decoded request holds no NUL character. Only then does the scan for
/// the terminator recover the size that the response was built with. For a
/// request that is valid UTF-8, its text holds a NUL character exactly when
/// its bytes hold a zero byte.
pub proof fn lemma_scan_recovers_size(input: Seq<u8>)
    ensures
        terminator_at(response_bytes(input), response_bytes(input).len() - 1)
            <==> !lossy_text(input).contains('\0'),
        valid_utf8(input) ==> (lossy_text(input).contains('\0') <==> input.contains(0u8)),
{
    lemma_reply_nul(lossy_text(input));
    lemma_terminator_is_last(reply_text(lossy_text(input)));
    if valid_utf8(input) {
        lemma_encode_zero(decode_utf8(input));
        decode_utf8_encode_utf8(input);
    }
}

/// Whatever size a release recovers from a response whose decoded request
/// holds no NUL character is the size of the whole response: the release
/// frees all of it and nothing else.
pub proof fn lemma_release_frees_whole_response(input: Seq<u8>, size: int)
    requires
        !lossy_text(input).contains('\0'),
        terminator_at(response_bytes(input), size - 1),
    ensures
        size == response_bytes(input).len(),
{
    lemma_scan_recovers_size(input);
    lemma_terminator_unique(response_bytes(input), size - 1, response_bytes(input).len() - 1);
}

} // verus!
