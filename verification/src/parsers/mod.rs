//! Transformations that a note's body passes through before it is rendered.

pub mod flashcard;
pub mod search;

pub use flashcard::FlashcardParser;
use vstd::prelude::*;

verus! {

/// A transformation of a note's body. `parsed` says what it makes of a
/// text, and `parse` computes it.
pub trait Parser {
    /// What the parser makes of `content`.
    spec fn parsed(&self, content: Seq<char>) -> Seq<char>;

    /// Transforms `content`.
    fn parse(&self, content: &str) -> (out: String)
        ensures
            out@ == self.parsed(content@),
    ;
}

/// What a chain of parsers makes of `content`: each parser works on what
/// the one before it returned.
pub open spec fn chained(parsers: Seq<Box<dyn Parser>>, content: Seq<char>) -> Seq<char>
    decreases parsers.len(),
{
    if parsers.len() == 0 {
        content
    } else {
        parsers.last().parsed(chained(parsers.drop_last(), content))
    }
}

/// Runs `content` through `parsers`, in order.
pub fn run_chain(parsers: &Vec<Box<dyn Parser>>, content: String) -> (out: String)
    ensures
        out@ == chained(parsers@, content@),
{
    let mut out = content;
    let mut i: usize = 0;
    while i < parsers.len()
        invariant
            i <= parsers.len(),
            out@ == chained(parsers@.take(i as int), content@),
        decreases parsers.len() - i,
    {
        assert(parsers@.take(i + 1).drop_last() == parsers@.take(i as int));
        out = parsers[i].parse(out.as_str());
        i += 1;
    }
    assert(parsers@.take(i as int) == parsers@);
    out
}

} // verus!
