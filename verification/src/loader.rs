use vstd::prelude::*;

verus! {

/// A pluggable unit of work: consumes one element of data at a time and, once
/// the sequence is exhausted, consumes itself to produce a final output.
///
/// Implementations are free to keep whatever internal state they like; the
/// driver never inspects it, it only sequences the calls: `operate` once per
/// element, in order, then `finish` exactly once.
pub trait Loader: Sized {
    /// The element type this loader consumes.
    type Data;

    /// An informational value returned for each time slice while work
    /// remains. Use `()` if there is nothing to report.
    type ProgressUpdate;

    /// The final value produced once every element has been consumed.
    type Output;

    /// Read-only auxiliary data, supplied fresh by the caller on every query.
    type Context;

    /// Perform one unit of work on a single element.
    fn operate(&mut self, data: Self::Data, ctx: &Self::Context) -> Self::ProgressUpdate;

    /// Consume the loader and produce the final output. Called exactly once,
    /// only after the sequence is exhausted.
    fn finish(self, ctx: &Self::Context) -> Self::Output;
}

/// What a query returned: an in-progress update while elements remain to be
/// processed, or the loader's final output once the sequence is exhausted.
#[derive(Debug)]
pub enum LoadResult<L: Loader> {
    /// Work is not finished; carries the most recent progress update.
    Loading(L::ProgressUpdate),
    /// Work is finished; carries the loader's output.
    Done(L::Output),
}

} // verus!
