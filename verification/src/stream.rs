//! The streams of a run, held in memory: the run writes to and reads from
//! them, and its caller moves their contents to and from the outside.
use crate::text::texts;
use vstd::prelude::*;

verus! {

/// An output stream: the text written to it and not yet taken.
pub struct Output {
    text: String,
}

impl View for Output {
    type V = Seq<char>;

    closed spec fn view(&self) -> Seq<char> {
        self.text@
    }
}

impl Output {
    /// Creates an empty stream.
    pub fn new() -> (stream: Self)
        ensures
            stream@ == Seq::<char>::empty(),
    {
        Output { text: String::new() }
    }

    /// Writes `text` at the end of this stream.
    pub fn write(&mut self, text: &str)
        ensures
            final(self)@ == old(self)@ + text@,
    {
        self.text.append(text);
    }

    /// Returns the text that this stream holds.
    pub fn as_str(&self) -> (text: &str)
        ensures
            text@ == self@,
    {
        self.text.as_str()
    }

    /// Takes the text out of this stream, which is left empty.
    pub fn take(&mut self) -> (text: String)
        ensures
            text@ == old(self)@,
            final(self)@ == Seq::<char>::empty(),
    {
        let mut text = String::new();
        std::mem::swap(&mut self.text, &mut text);
        text
    }
}

/// An input stream: the lines supplied to it and not yet read.
pub struct Input {
    lines: Vec<String>,
}

impl View for Input {
    type V = Seq<Seq<char>>;

    closed spec fn view(&self) -> Seq<Seq<char>> {
        texts(self.lines@)
    }
}

impl Input {
    /// Creates a stream that holds no line.
    pub fn new() -> (stream: Self)
        ensures
            stream@ == Seq::<Seq<char>>::empty(),
    {
        Input { lines: Vec::new() }
    }

    /// Creates a stream that yields `lines`, the first one first.
    pub fn from_lines(lines: Vec<String>) -> (stream: Self)
        ensures
            stream@ == texts(lines@),
    {
        Input { lines }
    }

    /// Supplies one more line, to be read after those already held.
    pub fn push_line(&mut self, line: String)
        ensures
            final(self)@ == old(self)@.push(line@),
    {
        self.lines.push(line);
    }

    /// Reads the next line, if the stream holds one.
    pub fn read_line(&mut self) -> (line: Option<String>)
        ensures
            old(self)@.len() == 0 ==> line is None && final(self)@ == old(self)@,
            old(self)@.len() > 0 ==> line is Some && line->0@ == old(self)@[0] && final(self)@
                == old(self)@.skip(1),
    {
        if self.lines.len() == 0 {
            None
        } else {
            let line = self.lines.remove(0);
            Some(line)
        }
    }
}

} // verus!
