//! The release protocol of a response buffer.
//!
//! Whoever holds the raw pointer drives the release: it performs what a
//! [`ReleaseStep`] asks for and reports back the byte it read. The decisions
//! are made here. A null pointer is never read; any other pointer is scanned
//! byte by byte until the first zero byte, and the bytes up to and including
//! that zero are the allocation to free.

use vstd::prelude::*;

verus! {

/// What the holder of the pointer has to do next.
#[derive(Clone, Copy, PartialEq, Eq, Debug, Structural)]
pub enum ReleaseStep {
    /// Nothing: no byte is read and no memory is freed.
    Idle,
    /// Read the byte at this offset from the pointer and report it to
    /// [`release_next`].
    Read(usize),
    /// Free the allocation of this many bytes that starts at the pointer.
    Free(usize),
}

/// First step of a release: a null pointer is left alone, any other pointer
/// is read from its first byte on.
pub fn release_begin(is_null: bool) -> (step: ReleaseStep)
    ensures
        step == if is_null {
            ReleaseStep::Idle
        } else {
            ReleaseStep::Read(0)
        },
{
    if is_null {
        ReleaseStep::Idle
    } else {
        ReleaseStep::Read(0)
    }
}

/// Step that follows reading `byte` at `offset`: a zero byte ends the buffer,
/// which then spans `offset + 1` bytes; any other byte moves the scan on by
/// one.
pub fn release_next(offset: usize, byte: u8) -> (step: ReleaseStep)
    requires
        offset < usize::MAX,
    ensures
        step == if byte == 0 {
            ReleaseStep::Free((offset + 1) as usize)
        } else {
            ReleaseStep::Read((offset + 1) as usize)
        },
{
    if byte == 0 {
        ReleaseStep::Free(offset + 1)
    } else {
        ReleaseStep::Read(offset + 1)
    }
}

/// The first zero byte of `buf` is the one at index `at`.
pub open spec fn terminator_at(buf: Seq<u8>, at: int) -> bool {
    &&& 0 <= at < buf.len()
    &&& buf[at] == 0
    &&& forall|j: int| 0 <= j < at ==> buf[j] != 0
}

/// A buffer has at most one first zero byte, so the size that a release
/// frees is determined by the bytes it scans.
pub proof fn lemma_terminator_unique(buf: Seq<u8>, a: int, b: int)
    requires
        terminator_at(buf, a),
        terminator_at(buf, b),
    ensures
        a == b,
{
}

/// How far a release still is from its end, for a scan over `len` bytes.
spec fn steps_left(step: ReleaseStep, len: int) -> int {
    match step {
        ReleaseStep::Read(offset) => len - offset + 1,
        _ => 0,
    }
}

/// Runs the release of a non-null pointer against `memory`, the bytes that
/// lie at the pointer, and returns the size of the allocation it frees: one
/// more than the index of the first zero byte. `None` means that the scan
/// leaves `memory` without meeting a zero byte.
pub fn release_size(memory: &[u8]) -> (size: Option<usize>)
    ensures
        match size {
            Some(n) => terminator_at(memory@, n - 1),
            None => !memory@.contains(0u8),
        },
{
    let mut step = release_begin(false);
    loop
        invariant
            match step {
                ReleaseStep::Idle => false,
                ReleaseStep::Read(offset) => offset <= memory@.len() && forall|j: int|
                    0 <= j < offset ==> memory@[j] != 0,
                ReleaseStep::Free(n) => terminator_at(memory@, n - 1),
            },
        decreases steps_left(step, memory@.len() as int),
    {
        match step {
            ReleaseStep::Idle => {
                return None;
            },
            ReleaseStep::Read(offset) => {
                if offset >= memory.len() {
                    return None;
                }
                step = release_next(offset, memory[offset]);
            },
            ReleaseStep::Free(n) => {
                return Some(n);
            },
        }
    }
}

} // verus!
