use vstd::prelude::*;

verus! {

/// A fixed, non-empty list of secret words, handed out in round-robin order:
/// the whole list is exhausted before any word repeats.
#[derive(Debug)]
pub struct Dictionary {
    pub words: Vec<String>,
    pub next_index: usize,
}

impl Dictionary {
    /// The word list is non-empty and the cursor points at the word the next
    /// draw returns.
    pub open spec fn wf(self) -> bool {
        self.words@.len() > 0 && self.next_index < self.words@.len()
    }

    /// The word the next draw returns.
    pub open spec fn spec_peek(self) -> Seq<char> {
        self.words@[self.next_index as int]@
    }

    /// The dictionary as it stands after one draw: the same words, the cursor
    /// advanced by one and wrapped around at the end of the list.
    pub open spec fn spec_draw(self) -> Dictionary {
        Dictionary {
            words: self.words,
            next_index: if self.next_index + 1 < self.words@.len() {
                (self.next_index + 1) as usize
            } else {
                0
            },
        }
    }

    /// An empty word list is a construction-time error: callers must hand in
    /// at least one word.
    pub fn new(words: Vec<String>) -> (d: Dictionary)
        requires
            words@.len() > 0,
        ensures
            d.wf(),
            d.words == words,
            d.next_index == 0,
    {
        Dictionary { words, next_index: 0 }
    }

    /// Returns the word under the cursor, then advances the cursor modulo the
    /// list length.
    pub fn get_word(&mut self) -> (word: String)
        requires
            old(self).wf(),
        ensures
            final(self).wf(),
            word@ == old(self).spec_peek(),
            *final(self) == old(self).spec_draw(),
    {
        let word = self.words[self.next_index].clone();
        let count = self.words.len();
        self.next_index = self.next_index + 1;
        if self.next_index >= count {
            self.next_index = 0;
        }
        word
    }
}

impl Default for Dictionary {
    /// A small built-in word list, used when no word file is supplied.
    fn default() -> (d: Dictionary)
        ensures
            d.wf(),
            d.next_index == 0,
            d.words@.len() == 2,
            d.words@[0]@ == "Steinbruch"@,
            d.words@[1]@ == "Schwan"@,
    {
        let mut words: Vec<String> = Vec::new();
        words.push(("Steinbruch").to_owned());
        words.push(("Schwan").to_owned());
        Dictionary::new(words)
    }
}

} // verus!
