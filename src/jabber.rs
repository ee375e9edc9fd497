//! Chatter: characters that now and then say one of their lines.
use vstd::prelude::*;
use crate::utils::random_in;

verus! {

/// Lines for someone with a big decision ahead.
pub const LINES_OF_GREAT_IMPORTANCE: [&'static str; 7] = [
    "This isn't just about you. It's about what's best for all of us.",
    "What are you gonna do?",
    "Think about it. Is it really the right choice?",
    "There is no way back after that...",
    "Put it behind you! There are greater things at stake.",
    "Let's go through it again, honestly.",
    "This puts us back to square one.",
];

/// Lines for a cook at work.
pub const LINES_OF_COOKING: [&'static str; 10] = [
    "More cheese...",
    "More salt...",
    "Something is missing...",
    "Some honey...",
    "Bunch of chillies...",
    "Now the vinegar...",
    "Tastes good already...",
    "Just salt and pepper a bit...",
    "Was it too much?",
    "Oh no, thats too much.",
];

/// A character's repertoire and the line it says now, if any.
#[derive(Clone, Copy, Debug)]
pub struct Jabbering {
    pub line: Option<usize>,
    pub lines: &'static [&'static str],
}

impl Jabbering {
    /// The line said now: `None` when nothing is said or the index lies
    /// past the repertoire.
    pub fn get_line(&self) -> (r: Option<String>)
        ensures
            match self.line {
                Some(i) if i < self.lines@.len() => r matches Some(s) && s@ == self.lines@[i as int]@,
                _ => r is None,
            },
    {
        if let Some(index) = self.line {
            if index < self.lines.len() {
                return Some(self.lines[index].to_owned());
            }
        }
        None
    }

    /// Says one of the lines, picked at random.
    pub fn pick_line(&mut self)
        requires
            old(self).lines@.len() > 0,
        ensures
            final(self).lines == old(self).lines,
            final(self).line matches Some(i) && i < final(self).lines@.len(),
    {
        self.line = Some(random_in(0, self.lines.len()));
    }
}

} // verus!
