//! Tallies of a library indexing run.

use vstd::prelude::*;

verus! {

/// What an indexing run did: books and pages indexed, and the error
/// message of every path or book that failed.
pub struct IndexResult {
    pub books_indexed: u32,
    pub pages_indexed: u32,
    pub errors: Vec<String>,
}

impl IndexResult {
    /// Nothing indexed yet.
    pub fn new() -> (r: IndexResult)
        ensures
            r.books_indexed == 0,
            r.pages_indexed == 0,
            r.errors@.len() == 0,
    {
        IndexResult { books_indexed: 0, pages_indexed: 0, errors: Vec::new() }
    }

    /// Counts one more indexed book of `pages` pages.
    pub fn record_book(&mut self, pages: u32)
        requires
            old(self).books_indexed < u32::MAX,
            old(self).pages_indexed + pages <= u32::MAX,
        ensures
            final(self).books_indexed == old(self).books_indexed + 1,
            final(self).pages_indexed == old(self).pages_indexed + pages,
            final(self).errors == old(self).errors,
    {
        self.books_indexed = self.books_indexed + 1;
        self.pages_indexed = self.pages_indexed + pages;
    }

    /// Records a failure.
    pub fn record_error(&mut self, message: String)
        ensures
            final(self).books_indexed == old(self).books_indexed,
            final(self).pages_indexed == old(self).pages_indexed,
            final(self).errors@ == old(self).errors@.push(message),
    {
        self.errors.push(message);
    }
}

} // verus!
