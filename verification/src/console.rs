//! Where a client writes its output and reads its input.

use crate::text::{joined, texts};
use vstd::prelude::*;
use vstd::string::*;

verus! {

/// A result with the text of its error.
pub open spec fn outcome<T: View>(r: Result<T, String>) -> Result<T::V, Seq<char>> {
    match r {
        Ok(value) => Ok(value@),
        Err(error) => Err(error@),
    }
}

/// A result without a value, with the text of its error.
pub open spec fn done(r: Result<(), String>) -> Result<(), Seq<char>> {
    match r {
        Ok(()) => Ok(()),
        Err(error) => Err(error@),
    }
}

/// Output of a command, line by line.
///
/// What a line does to a console is up to the console: `printed` and
/// `complained` relate the console before to the one after. One that says
/// nothing may do anything.
pub trait Console {
    open spec fn printed(&self, text: Seq<char>, after: &Self) -> bool {
        true
    }

    open spec fn complained(&self, text: Seq<char>, after: &Self) -> bool {
        true
    }

    fn print_line(&mut self, text: &str)
        ensures
            old(self).printed(text@, final(self)),
    ;

    fn print_error(&mut self, text: &str)
        ensures
            old(self).complained(text@, final(self)),
    ;
}

/// Answers of the user to a prompt; `answered` relates the source before to
/// the one after and to the answer.
pub trait InputSource {
    open spec fn answered(
        &self,
        prompt: Seq<char>,
        after: &Self,
        r: Result<Seq<char>, Seq<char>>,
    ) -> bool {
        true
    }

    fn read_line(&mut self, prompt: &str) -> (r: Result<String, String>)
        ensures
            old(self).answered(prompt@, final(self), outcome(r)),
    ;
}

/// A console that keeps its lines.
pub struct BufferConsole {
    pub lines: Vec<String>,
}

impl BufferConsole {
    /// A console without lines.
    pub fn new() -> (c: BufferConsole)
        ensures
            c@ == Seq::<Seq<char>>::empty(),
    {
        let c = BufferConsole { lines: Vec::new() };
        assert(c@ =~= Seq::empty());
        c
    }
}

impl Default for BufferConsole {
    fn default() -> (c: BufferConsole)
        ensures
            c@ == Seq::<Seq<char>>::empty(),
    {
        BufferConsole::new()
    }
}

impl View for BufferConsole {
    type V = Seq<Seq<char>>;

    open spec fn view(&self) -> Seq<Seq<char>> {
        texts(self.lines@)
    }
}

impl Console for BufferConsole {
    open spec fn printed(&self, text: Seq<char>, after: &Self) -> bool {
        after@ == self@.push(text)
    }

    open spec fn complained(&self, text: Seq<char>, after: &Self) -> bool {
        after@ == self@.push("Error: "@ + text)
    }

    fn print_line(&mut self, text: &str) {
        self.lines.push(text.to_owned());
        assert(self@ =~= old(self)@.push(text@));
    }

    fn print_error(&mut self, text: &str) {
        self.lines.push(joined("Error: ", text));
        assert(self@ =~= old(self)@.push("Error: "@ + text@));
    }
}

/// An input source that never answers.
pub struct NoInput;

impl InputSource for NoInput {
    open spec fn answered(
        &self,
        prompt: Seq<char>,
        after: &Self,
        r: Result<Seq<char>, Seq<char>>,
    ) -> bool {
        r == Err::<Seq<char>, Seq<char>>("no input available"@)
    }

    fn read_line(&mut self, prompt: &str) -> (r: Result<String, String>) {
        Err("no input available".to_owned())
    }
}

} // verus!
