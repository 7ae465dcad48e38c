//! A placeholder inference backend behind a byte-buffer boundary.
//!
//! A request is a byte buffer holding a prompt. The response is a freshly
//! built buffer that echoes the prompt inside a fixed sentence and ends with
//! one zero byte; its owner later hands it back for release, and the release
//! recovers the buffer's size by scanning for that zero byte.
//!
//! [`reply`] builds response buffers, [`release`] decides how a buffer is
//! given back, [`text`] holds the lossy decoder and the facts about UTF-8 that
//! the other modules need, and [`handoff`] states when a release recovers the
//! size of the buffer it was handed.

pub mod handoff;
pub mod release;
pub mod reply;
pub mod text;
