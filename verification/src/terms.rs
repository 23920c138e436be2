//! The source of search terms: a fixed, non-empty list of words, one of which is drawn at
//! random for every search.

use crate::text::{contents, lines, lines_of};
use rand::seq::IteratorRandom;
use vstd::prelude::*;

verus! {

/// Draws a position in a list of `len` items with `rand::seq::IteratorRandom::choose`, run
/// over the positions `0..len` with the generator that `rand::thread_rng` hands out.
///
/// Claimed of it: nothing is drawn exactly when there is no position to draw, and what is
/// drawn is one of the positions. Which one is left open, so nothing is claimed about how
/// the draws are distributed. The generator gives up with a panic where the operating
/// system cannot seed it, which no argument brings about or prevents.
#[verifier::external_body]
fn choose_index(len: usize) -> (chosen: Option<usize>)
    ensures
        chosen is None <==> len == 0,
        chosen matches Some(index) ==> index < len,
{
    (0..len).choose(&mut rand::thread_rng())
}

/// A non-empty list of words to search for.
#[derive(Debug)]
pub struct TermSource {
    words: Vec<String>,
}

impl View for TermSource {
    type V = Seq<Seq<char>>;

    closed spec fn view(&self) -> Seq<Seq<char>> {
        contents(self.words@)
    }
}

impl TermSource {
    #[verifier::type_invariant]
    spec fn never_empty(self) -> bool {
        self.words@.len() > 0
    }

    /// Takes over a list of words. There is no source exactly when the list is empty.
    pub fn new(words: Vec<String>) -> (source: Option<TermSource>)
        ensures
            words@.len() == 0 <==> source is None,
            source matches Some(made) ==> made@ == contents(words@),
    {
        if words.len() == 0 {
            None
        } else {
            Some(TermSource { words })
        }
    }

    /// Reads a list of words, one to a line. There is no source exactly when the text holds
    /// no line.
    pub fn from_text(text: &str) -> (source: Option<TermSource>)
        ensures
            lines_of(text@).len() == 0 <==> source is None,
            source matches Some(made) ==> made@ == lines_of(text@),
    {
        TermSource::new(lines(text))
    }

    /// The number of words, which is never zero.
    pub fn len(&self) -> (count: usize)
        ensures
            count == self@.len(),
            count > 0,
    {
        proof {
            use_type_invariant(self);
        }
        self.words.len()
    }

    /// The word that a draw stands for: the one at the drawn position, and the first word
    /// where nothing was drawn or the position lies beyond the list.
    pub open spec fn drawn_term(self, drawn: Option<usize>) -> Seq<char> {
        match drawn {
            Some(index) if index < self@.len() => self@[index as int],
            _ => self@[0],
        }
    }

    /// Hands out the word that a draw stands for.
    pub fn pick(&self, drawn: Option<usize>) -> (term: String)
        ensures
            term@ == self.drawn_term(drawn),
            self@.contains(term@),
    {
        proof {
            use_type_invariant(self);
        }
        let index = match drawn {
            Some(index) if index < self.words.len() => index,
            _ => 0,
        };
        self.words[index].clone()
    }

    /// Draws a word at random. Whatever is drawn is one of the words of the list.
    pub fn next_term(&self) -> (term: String)
        ensures
            self@.contains(term@),
    {
        self.pick(choose_index(self.len()))
    }
}

} // verus!
