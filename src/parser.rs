use vstd::prelude::*;

use crate::scanner::Scanner;

verus! {

/// The front of a parser: it owns the scanner that supplies its tokens.
pub struct Parser {
    scanner: Scanner,
}

impl Parser {
    /// The scanner that supplies the tokens.
    pub closed spec fn scanner(&self) -> Scanner {
        self.scanner
    }

    /// A parser over `source`, with a scanner at its start.
    pub fn new(source: &str) -> (r: Parser)
        requires
            source@.len() < u32::MAX,
        ensures
            r.scanner().wf(),
            r.scanner().input() == source@,
            r.scanner().position() == 0,
    {
        Parser { scanner: Scanner::new(source) }
    }
}

} // verus!
