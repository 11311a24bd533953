//! What passes between a run and its caller: the requests that the run
//! makes, and the replies that answer them.
use crate::error::Error;
use crate::mode::Mode;
use crate::status;
use crate::text::texts;
use vstd::prelude::*;

verus! {

/// What a path leads to. A symbolic link counts as what it points at.
#[derive(Clone, Copy, Debug, PartialEq, Eq, Structural)]
pub enum Kind {
    /// A regular file.
    File,
    /// A directory.
    Directory,
    /// Nothing that can be reached.
    Missing,
}

/// Why a confirmation is asked for.
#[derive(Clone, Copy, Debug, PartialEq, Eq, Structural)]
pub enum Context {
    /// The path is absolute (has root).
    Absolute,
    /// The `interactive` option is present.
    Interactive,
}

impl Context {
    /// The words of the prompt that give the reason.
    pub open spec fn reason(self) -> Seq<char> {
        match self {
            Context::Absolute => "is absolute"@,
            Context::Interactive => "mode will be changed"@,
        }
    }

    /// Returns the words of the prompt that give the reason.
    pub fn words(&self) -> (words: &'static str)
        ensures
            words@ == self.reason(),
    {
        match self {
            Context::Absolute => "is absolute",
            Context::Interactive => "mode will be changed",
        }
    }
}

/// What a run needs from its caller before it can go on, or how it ended.
#[derive(Debug, PartialEq, Eq)]
pub enum Request {
    /// Write the help message to the standard error stream. The run is over.
    Help,
    /// Write the version message to the standard error stream. The run is over.
    Version,
    /// Read one line from the standard input and supply it.
    Line,
    /// Find out what the path leads to, and reply with its kind.
    Classify(String),
    /// List the entries of the directory, and reply with their paths.
    List(String),
    /// Change the mode of the path, and reply with the outcome.
    Change(String, Mode),
    /// The run is over: every path has been dealt with.
    Done,
    /// The run is over: the options are in error and no path was touched.
    Failed(Error),
}

/// A request, as a mathematical value.
pub enum RequestView {
    Help,
    Version,
    Line,
    Classify(Seq<char>),
    List(Seq<char>),
    Change(Seq<char>, Mode),
    Done,
    Failed(Error),
}

impl View for Request {
    type V = RequestView;

    open spec fn view(&self) -> RequestView {
        match self {
            Request::Help => RequestView::Help,
            Request::Version => RequestView::Version,
            Request::Line => RequestView::Line,
            Request::Classify(path) => RequestView::Classify(path@),
            Request::List(path) => RequestView::List(path@),
            Request::Change(path, mode) => RequestView::Change(path@, *mode),
            Request::Done => RequestView::Done,
            Request::Failed(error) => RequestView::Failed(*error),
        }
    }
}

impl RequestView {
    /// The exit code of the program, where the request is the end of the
    /// run: success after the help message, after the version message and
    /// when every path has been dealt with, invalid usage when the options
    /// are in error.
    pub open spec fn exit_code(self) -> Option<i32> {
        match self {
            RequestView::Help | RequestView::Version | RequestView::Done => Some(status::ESUCCESS),
            RequestView::Failed(_) => Some(status::EUSAGE),
            _ => None,
        }
    }
}

impl Request {
    /// Returns the exit code of the program, if this request is the end of
    /// the run.
    pub fn exit_code(&self) -> (code: Option<i32>)
        ensures
            code == self@.exit_code(),
    {
        match self {
            Request::Help | Request::Version | Request::Done => Some(status::ESUCCESS),
            Request::Failed(_) => Some(status::EUSAGE),
            _ => None,
        }
    }
}

/// The view of a request that may be absent.
pub open spec fn request_of(request: Option<Request>) -> Option<RequestView> {
    match request {
        Some(request) => Some(request@),
        None => None,
    }
}

/// The answer to a request that concerns the file system.
#[derive(Debug, PartialEq, Eq)]
pub enum Reply {
    /// What the path leads to.
    Kind(Kind),
    /// The paths of the entries of the directory.
    Entries(Vec<String>),
    /// The mode was changed.
    Changed,
    /// The request could not be carried out, for the reason told.
    Failed(String),
}

/// A reply, as a mathematical value.
pub enum ReplyView {
    Kind(Kind),
    Entries(Seq<Seq<char>>),
    Changed,
    Failed(Seq<char>),
}

impl View for Reply {
    type V = ReplyView;

    open spec fn view(&self) -> ReplyView {
        match self {
            Reply::Kind(kind) => ReplyView::Kind(*kind),
            Reply::Entries(entries) => ReplyView::Entries(texts(entries@)),
            Reply::Changed => ReplyView::Changed,
            Reply::Failed(detail) => ReplyView::Failed(detail@),
        }
    }
}

/// The view of a reply that may be absent.
pub open spec fn reply_of(reply: Option<Reply>) -> Option<ReplyView> {
    match reply {
        Some(reply) => Some(reply@),
        None => None,
    }
}

} // verus!
