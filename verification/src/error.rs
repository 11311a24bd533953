//! The usage errors that end a run before any path is touched.
use crate::status;
use vstd::prelude::*;

verus! {

/// A usage error. Each is detected before the traversal begins.
#[derive(Clone, Copy, Debug, PartialEq, Eq, Structural)]
pub enum Error {
    /// The `interactive` and `suppress` options are both present.
    Conflict,
    /// Neither a file mode nor a directory mode is present.
    Missing,
    /// A mode is not an octal number of one to four digits.
    InvalidMode,
}

impl Error {
    /// The text that describes this error.
    pub open spec fn text(self) -> Seq<char> {
        match self {
            Error::Conflict => status::MCONFLICT@,
            Error::Missing => status::MNOTYPE@,
            Error::InvalidMode => status::MNUMERIC@,
        }
    }

    /// Returns the text that describes this error.
    pub fn message(&self) -> (text: &'static str)
        ensures
            text@ == self.text(),
    {
        match self {
            Error::Conflict => status::MCONFLICT,
            Error::Missing => status::MNOTYPE,
            Error::InvalidMode => status::MNUMERIC,
        }
    }
}

} // verus!
