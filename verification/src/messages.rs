//! The message log: an append-only history of what happened.

use vstd::prelude::*;
use vstd::string::*;
use crate::color::Color;

verus! {

/// The log, oldest entry first.
#[derive(Debug)]
pub struct Messages {
    pub messages: Vec<(String, Color)>,
}

impl View for Messages {
    type V = Seq<(Seq<char>, Color)>;

    /// The entries in the order in which they were added, each as its text
    /// and its colour.
    open spec fn view(&self) -> Seq<(Seq<char>, Color)> {
        Seq::new(self.messages@.len(), |i: int| (self.messages@[i].0@, self.messages@[i].1))
    }
}

impl Messages {
    /// An empty log.
    pub fn new() -> (log: Self)
        ensures
            log@ == Seq::<(Seq<char>, Color)>::empty(),
    {
        let log = Messages { messages: Vec::new() };
        assert(log@ =~= Seq::<(Seq<char>, Color)>::empty());
        log
    }

    /// Appends one entry. Nothing is ever merged, shortened or dropped.
    pub fn add(&mut self, message: &str, color: Color)
        ensures
            final(self)@ == old(self)@.push((message@, color)),
    {
        self.messages.push((String::from_str(message), color));
        assert(self@ =~= old(self)@.push((message@, color)));
    }

    /// The number of entries.
    pub fn len(&self) -> (n: usize)
        ensures
            n == self@.len(),
    {
        self.messages.len()
    }

    /// The entries, oldest first; a reader that wants the newest walks them
    /// from the back.
    pub fn iter(&self) -> (entries: &Vec<(String, Color)>)
        ensures
            entries@.len() == self@.len(),
            forall|i: int| 0 <= i < entries@.len() ==> (#[trigger] entries@[i].0@, entries@[i].1) == self@[i],
    {
        &self.messages
    }
}

} // verus!
