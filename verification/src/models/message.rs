//! A decoded message and an entry of a frequency ranking.

use crate::ranking::Counted;
use vstd::prelude::*;

verus! {

/// A message with what is derived from its content: the byte length and the
/// whitespace-separated tokens.
#[derive(Debug, Clone)]
pub struct Message {
    pub id: u64,
    pub timestamp: String,
    pub content: String,
    pub attachments: Vec<String>,
    pub length: u32,
    pub words: Vec<String>,
}

/// A token and how often it was seen.
#[derive(Debug, Clone)]
pub struct WordCount {
    pub word: String,
    pub count: u32,
}

impl Counted for WordCount {
    open spec fn tally(&self) -> u32 {
        self.count
    }

    fn count(&self) -> (c: u32) {
        self.count
    }
}

} // verus!
