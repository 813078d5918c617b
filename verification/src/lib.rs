//! A reader adapter with an optional byte limit that can be set, changed and
//! lifted while the wrapped stream stays in place.
//!
//! - [`stream`] says what a byte stream is: the traits `Read` and `BufRead`
//!   with their contracts, and slices as streams.
//! - [`io`] holds the adapter, `OptionalTake`, which is a stream itself.
//! - [`laws`] proves what holds of the adapter over whole runs of reads.
pub mod io;
pub mod laws;
pub mod stream;
