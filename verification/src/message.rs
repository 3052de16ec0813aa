//! The message log.

use vstd::prelude::*;
use vstd::string::StringExecFns;
use crate::color::Color;

verus! {

/// The log of a session: lines of text with their colour, oldest first.
/// Lines are only ever added.
#[derive(Debug, PartialEq, Eq)]
pub struct Messages {
    pub messages: Vec<(String, Color)>,
}

impl View for Messages {
    type V = Seq<(Seq<char>, Color)>;

    open spec fn view(&self) -> Seq<(Seq<char>, Color)> {
        Seq::new(self.messages.len() as nat, |i: int| (self.messages[i].0@, self.messages[i].1))
    }
}

impl Clone for Messages {
    fn clone(&self) -> (copy: Self)
        ensures
            copy@ == self@,
    {
        let mut copy = Messages::new();
        let mut i: usize = 0;
        while i < self.len()
            invariant
                0 <= i <= self@.len(),
                copy@ == self@.subrange(0, i as int),
            decreases self@.len() - i,
        {
            copy.add(self.text(i), self.color(i));
            assert(copy@ =~= self@.subrange(0, i + 1));
            i = i + 1;
        }
        assert(copy@ =~= self@);
        copy
    }
}

impl Messages {
    /// An empty log.
    pub fn new() -> (log: Messages)
        ensures
            log@ == Seq::<(Seq<char>, Color)>::empty(),
    {
        let log = Messages { messages: Vec::new() };
        assert(log@ =~= Seq::<(Seq<char>, Color)>::empty());
        log
    }

    /// Adds a line at the end of the log.
    pub fn add(&mut self, message: &str, color: Color)
        ensures
            final(self)@ == old(self)@.push((message@, color)),
    {
        self.messages.push((String::from_str(message), color));
        assert(self@ =~= old(self)@.push((message@, color)));
    }

    /// Number of lines in the log.
    pub fn len(&self) -> (n: usize)
        ensures
            n == self@.len(),
    {
        self.messages.len()
    }

    /// The text of line `i`.
    pub fn text(&self, i: usize) -> (s: &str)
        requires
            i < self@.len(),
        ensures
            s@ == self@[i as int].0,
    {
        self.messages[i].0.as_str()
    }

    /// The colour of line `i`.
    pub fn color(&self, i: usize) -> (c: Color)
        requires
            i < self@.len(),
        ensures
            c == self@[i as int].1,
    {
        self.messages[i].1
    }

    /// The lines of the log, oldest first.
    pub fn iter(&self) -> (lines: core::slice::Iter<'_, (String, Color)>)
        ensures
            vstd::std_specs::slice::into_iter_elts(lines) == self.messages@,
    {
        self.messages.iter()
    }
}

} // verus!
