//! Incremental, time-sliced processing of a sequence of elements.
//!
//! A [`ProgressiveWaiter`] owns a sequence of data and a [`Loader`], and feeds
//! the loader one element at a time until a caller-supplied time budget is
//! spent, handing control back between slices so a single-threaded caller can
//! interleave other work.

pub mod clock;
pub mod loader;
pub mod waiter;

pub use loader::LoadResult;
pub use loader::Loader;
pub use waiter::ProgressiveWaiter;
