//! Validated UTF-8 text chunks over shared byte ranges, and the streaming
//! extraction of such chunks from a growable byte buffer.

pub mod buffers;
pub mod chunk;
pub mod utf8;

pub use chunk::{ExtractUtf8Error, StrChunk};
