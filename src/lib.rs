//! Non-blocking reading and writing of bytes together with file descriptors,
//! and a bounded buffered writer that coalesces small writes.

pub mod buf_write;
pub mod error;
pub mod fd;
pub mod laws;
pub mod spans;
pub mod traits;

pub use buf_write::{after_failed_flush, flush_step, pending_spans, BufWriteFD, FlushStep, DEFAULT_CAPACITY};
pub use error::{Error, ErrorKind, IoResult};
pub use fd::RawFdContainer;
pub use traits::{read_step, Poll, ReadFD, ReadStep, WriteFD};
