//! The program: a traversal that changes the mode of every file and directory
//! under the paths given, children before their parent, and asks for
//! confirmation where the options call for it.
use crate::answer::{decide, Decision};
use crate::config::Config;
use crate::error::Error;
use crate::mode::Mode;
use crate::request::{reply_of, request_of, Context, Kind, Reply, Request, RequestView};
use crate::state::{lemma_run_inv, mode_of, FrameView, Phase, State};
use crate::status;
use crate::stream::{Input, Output};
use crate::text::{error_line, error_text, failure_line, has_root, prompt, rest, result_line, result_text, texts};
use vstd::prelude::*;

verus! {

/// A directory whose entries are being visited, and how far the visit has come.
struct Frame {
    path: String,
    entries: Vec<String>,
    next: usize,
}

impl View for Frame {
    type V = FrameView;

    closed spec fn view(&self) -> FrameView {
        FrameView { path: self.path@, entries: rest(texts(self.entries@), self.next as int) }
    }
}

/// The views of a sequence of frames.
spec fn frames(stack: Seq<Frame>) -> Seq<FrameView> {
    Seq::new(stack.len(), |i: int| stack[i]@)
}

/// The program: its options, its streams, and where its run stands.
pub struct Chmodrt {
    options: Config,
    stderr: Output,
    stdout: Output,
    stdin: Input,
    reply: Option<Reply>,
    file_mode: Option<Mode>,
    dir_mode: Option<Mode>,
    next: usize,
    stack: Vec<Frame>,
    path: String,
    phase: Phase,
}

impl View for Chmodrt {
    type V = State;

    closed spec fn view(&self) -> State {
        State {
            options: self.options@,
            stderr: self.stderr@,
            stdout: self.stdout@,
            stdin: self.stdin@,
            reply: reply_of(self.reply),
            file_mode: self.file_mode,
            dir_mode: self.dir_mode,
            roots: rest(texts(self.options.paths@), self.next as int),
            stack: frames(self.stack@),
            path: self.path@,
            phase: self.phase,
        }
    }
}

impl Chmodrt {
    /// Constructs this program from its options, with empty streams.
    pub fn new(options: Config) -> (program: Self)
        ensures
            program@ == State::new(options@),
            program@.inv(),
    {
        let program = Chmodrt {
            options,
            stderr: Output::new(),
            stdout: Output::new(),
            stdin: Input::new(),
            reply: None,
            file_mode: None,
            dir_mode: None,
            next: 0,
            stack: Vec::new(),
            path: String::new(),
            phase: Phase::Start,
        };
        proof {
            assert(program@.roots =~= options@.paths);
            assert(program@.stack =~= Seq::empty());
        }
        program
    }

    /// Replaces the standard error stream for this program.
    pub fn stderr(&mut self, stderr: Output) -> (program: &mut Self)
        ensures
            (*program)@ == (State { stderr: stderr@, ..old(self)@ }),
            *final(self) == *final(program),
    {
        self.stderr = stderr;
        self
    }

    /// Replaces the standard output stream for this program.
    pub fn stdout(&mut self, stdout: Output) -> (program: &mut Self)
        ensures
            (*program)@ == (State { stdout: stdout@, ..old(self)@ }),
            *final(self) == *final(program),
    {
        self.stdout = stdout;
        self
    }

    /// Replaces the standard input stream for this program.
    pub fn stdin(&mut self, stdin: Input) -> (program: &mut Self)
        ensures
            (*program)@ == (State { stdin: stdin@, ..old(self)@ }),
            *final(self) == *final(program),
    {
        self.stdin = stdin;
        self
    }

    /// Takes what has been written to the standard error stream.
    pub fn take_stderr(&mut self) -> (text: String)
        ensures
            text@ == old(self)@.stderr,
            final(self)@ == (State { stderr: Seq::empty(), ..old(self)@ }),
    {
        self.stderr.take()
    }

    /// Takes what has been written to the standard output stream.
    pub fn take_stdout(&mut self) -> (text: String)
        ensures
            text@ == old(self)@.stdout,
            final(self)@ == (State { stdout: Seq::empty(), ..old(self)@ }),
    {
        self.stdout.take()
    }

    /// Supplies the answer to the request at which the run has stopped.
    pub fn reply(&mut self, reply: Reply)
        ensures
            final(self)@ == (State { reply: Some(reply@), ..old(self)@ }),
    {
        self.reply = Some(reply);
    }

    /// Determines if the file option is present.
    fn has_file(&self) -> (present: bool)
        ensures
            present == self@.has_file(),
    {
        self.options.file.is_some()
    }

    /// Determines if the directory option is present.
    fn has_dir(&self) -> (present: bool)
        ensures
            present == self@.has_dir(),
    {
        self.options.dir.is_some()
    }

    /// Writes a path related error to the standard error stream.
    fn write_error(&mut self, msg: &str, detail: &str)
        ensures
            final(self)@ == (State {
                stderr: old(self)@.stderr + error_text(msg@, old(self)@.path, detail@),
                ..old(self)@
            }),
    {
        let line = error_line(msg, self.path.as_str(), detail);
        self.stderr.write(line.as_str());
    }

    /// Writes the result of an operation to the standard output stream.
    fn write_result(&mut self, msg: &str)
        ensures
            final(self)@ == (State {
                stdout: old(self)@.stdout + result_text(old(self)@.path, msg@),
                ..old(self)@
            }),
    {
        let line = result_line(self.path.as_str(), msg);
        self.stdout.write(line.as_str());
    }

    /// Validates the options, and keeps the modes that they give.
    fn validate(&mut self) -> (result: Result<(), Error>)
        ensures
            match result {
                Ok(_) => old(self)@.fault() is None && final(self)@ == (State {
                    file_mode: mode_of(old(self)@.options.file),
                    dir_mode: mode_of(old(self)@.options.dir),
                    ..old(self)@
                }),
                Err(error) => old(self)@.fault() == Some(error) && final(self)@ == old(self)@,
            },
    {
        if self.options.interactive && self.options.suppress {
            return Err(Error::Conflict);
        }
        if !self.has_file() && !self.has_dir() {
            return Err(Error::Missing);
        }
        let file_mode = match &self.options.file {
            Some(text) => match Mode::parse(text.as_str()) {
                Ok(mode) => Some(mode),
                Err(_) => {
                    return Err(Error::InvalidMode);
                },
            },
            None => None,
        };
        let dir_mode = match &self.options.dir {
            Some(text) => match Mode::parse(text.as_str()) {
                Ok(mode) => Some(mode),
                Err(_) => {
                    return Err(Error::InvalidMode);
                },
            },
            None => None,
        };
        self.file_mode = file_mode;
        self.dir_mode = dir_mode;
        Ok(())
    }

    /// Asks for the help message on the standard error stream.
    fn help(&mut self) -> (request: Request)
        ensures
            final(self)@ == (State { phase: Phase::Helped, ..old(self)@ }),
            request@ == RequestView::Help,
    {
        self.phase = Phase::Helped;
        Request::Help
    }

    /// Asks for the version message on the standard error stream.
    fn version(&mut self) -> (request: Request)
        ensures
            final(self)@ == (State { phase: Phase::Versioned, ..old(self)@ }),
            request@ == RequestView::Version,
    {
        self.phase = Phase::Versioned;
        Request::Version
    }

    /// Begins the run: help, version, or the validation of the options.
    fn start(&mut self) -> (request: Option<Request>)
        ensures
            final(self)@ == old(self)@.start().0,
            request_of(request) == old(self)@.start().1,
    {
        if self.options.help {
            return Some(self.help());
        }
        if self.options.version {
            return Some(self.version());
        }
        match self.validate() {
            Ok(_) => {
                self.phase = Phase::Walk;
                None
            },
            Err(error) => {
                let line = failure_line(error.message());
                self.stderr.write(line.as_str());
                self.phase = Phase::Failed(error);
                Some(Request::Failed(error))
            },
        }
    }

    /// Gives the path under consideration the mode, unless this is a dry run.
    fn apply(&mut self, mode: Mode) -> (request: Option<Request>)
        ensures
            final(self)@ == old(self)@.apply(mode).0,
            request_of(request) == old(self)@.apply(mode).1,
    {
        if self.options.dry_run {
            self.write_result("will be changed");
            self.phase = Phase::Walk;
            None
        } else {
            self.phase = Phase::Change(mode);
            Some(Request::Change(self.path.clone(), mode))
        }
    }

    /// Changes the mode of the path under consideration. Authorization may
    /// be requested if the `interactive` option is present. The path will
    /// not be changed during a `dry-run`.
    fn change_one(&mut self, kind: Kind) -> (request: Option<Request>)
        ensures
            final(self)@ == old(self)@.change_one(kind).0,
            request_of(request) == old(self)@.change_one(kind).1,
    {
        let mode = match kind {
            Kind::File => self.file_mode,
            Kind::Directory => self.dir_mode,
            Kind::Missing => None,
        };
        match mode {
            None => {
                self.phase = Phase::Walk;
                None
            },
            Some(mode) => {
                if self.options.interactive && !self.options.suppress {
                    let text = prompt(self.path.as_str(), Context::Interactive.words());
                    self.stderr.write(text.as_str());
                    self.phase = Phase::AskEntry(mode);
                    None
                } else {
                    self.apply(mode)
                }
            },
        }
    }

    /// Authorizes directory and file access by reading the answer to the
    /// prompt from the standard input stream. An answer that decides nothing
    /// has the prompt written again, whatever the number of such answers;
    /// without a line to read, one is asked for.
    fn authorize(&mut self, context: Context) -> (request: Option<Request>)
        ensures
            final(self)@ == old(self)@.authorize(context).0,
            request_of(request) == old(self)@.authorize(context).1,
    {
        match self.stdin.read_line() {
            None => Some(Request::Line),
            Some(line) => match decide(line.as_str()) {
                Some(Decision::Proceed) => match self.phase {
                    Phase::AskEntry(mode) => self.apply(mode),
                    _ => {
                        self.phase = Phase::Classify;
                        Some(Request::Classify(self.path.clone()))
                    },
                },
                Some(Decision::Skip) => {
                    if self.options.verbose {
                        self.stderr.write("Skipped.\n");
                    }
                    self.phase = Phase::Walk;
                    None
                },
                None => {
                    let text = prompt(self.path.as_str(), context.words());
                    self.stderr.write(text.as_str());
                    None
                },
            },
        }
    }

    /// Changes all paths provided by the user, one at each call.
    /// Authorization may be requested if the `suppress` option is not
    /// present.
    fn change(&mut self) -> (request: Option<Request>)
        ensures
            final(self)@ == old(self)@.change().0,
            request_of(request) == old(self)@.change().1,
    {
        if self.next >= self.options.paths.len() {
            self.phase = Phase::Done;
            return Some(Request::Done);
        }
        let ghost roots = texts(self.options.paths@);
        let path = self.options.paths[self.next].clone();
        proof {
            assert(roots.skip(self.next as int).skip(1) =~= roots.skip(self.next + 1));
        }
        self.next += 1;
        self.path = path;
        if !self.options.suppress && has_root(self.path.as_str()) {
            let text = prompt(self.path.as_str(), Context::Absolute.words());
            self.stderr.write(text.as_str());
            self.phase = Phase::AskRoot;
            None
        } else {
            self.phase = Phase::Classify;
            Some(Request::Classify(self.path.clone()))
        }
    }

    /// Changes the entries under the innermost directory, one at each call,
    /// and the directory itself after them.
    fn change_many(&mut self) -> (request: Option<Request>)
        requires
            old(self)@.stack.len() > 0,
        ensures
            final(self)@ == old(self)@.change_many().0,
            request_of(request) == old(self)@.change_many().1,
    {
        let ghost before = self.stack@;
        let mut frame = self.stack.pop().unwrap();
        proof {
            assert(frames(self.stack@) =~= frames(before).drop_last());
            assert(frame@ == frames(before).last());
        }
        if frame.next < frame.entries.len() {
            // Change the children first
            let ghost entries = texts(frame.entries@);
            let path = frame.entries[frame.next].clone();
            proof {
                assert(entries.skip(frame.next as int).skip(1) =~= entries.skip(frame.next + 1));
            }
            frame.next += 1;
            let ghost visited = frame@;
            self.stack.push(frame);
            proof {
                assert(frames(self.stack@) =~= frames(before).drop_last().push(visited));
            }
            self.path = path;
            self.phase = Phase::Classify;
            Some(Request::Classify(self.path.clone()))
        } else {
            // Change the parent last
            self.path = frame.path;
            self.change_one(Kind::Directory)
        }
    }

    /// Uses the reply that tells what the path under consideration leads to.
    fn classified(&mut self) -> (request: Option<Request>)
        ensures
            final(self)@ == old(self)@.classified().0,
            request_of(request) == old(self)@.classified().1,
    {
        match self.reply.take() {
            Some(Reply::Kind(Kind::File)) => self.change_one(Kind::File),
            Some(Reply::Kind(Kind::Directory)) => {
                self.phase = Phase::List;
                Some(Request::List(self.path.clone()))
            },
            Some(Reply::Kind(Kind::Missing)) => {
                self.write_error("Cannot access", status::MNOTFOUND);
                self.phase = Phase::Walk;
                None
            },
            _ => Some(Request::Classify(self.path.clone())),
        }
    }

    /// Uses the reply that lists the directory under consideration.
    fn listed(&mut self) -> (request: Option<Request>)
        ensures
            final(self)@ == old(self)@.listed().0,
            request_of(request) == old(self)@.listed().1,
    {
        match self.reply.take() {
            Some(Reply::Entries(entries)) => {
                let ghost before = self.stack@;
                let frame = Frame { path: self.path.clone(), entries, next: 0 };
                let ghost entered = frame@;
                self.stack.push(frame);
                proof {
                    assert(entered.entries =~= texts(entries@));
                    assert(frames(self.stack@) =~= frames(before).push(entered));
                }
                self.phase = Phase::Walk;
                None
            },
            Some(Reply::Failed(detail)) => {
                self.write_error("Cannot access", detail.as_str());
                self.phase = Phase::Walk;
                None
            },
            _ => Some(Request::List(self.path.clone())),
        }
    }

    /// Uses the reply that tells how the change of the path under
    /// consideration went.
    fn changed(&mut self, mode: Mode) -> (request: Option<Request>)
        ensures
            final(self)@ == old(self)@.changed(mode).0,
            request_of(request) == old(self)@.changed(mode).1,
    {
        match self.reply.take() {
            Some(Reply::Changed) => {
                if self.options.verbose {
                    self.write_result("changed");
                }
                self.phase = Phase::Walk;
                None
            },
            Some(Reply::Failed(detail)) => {
                self.write_error("Cannot change permissions", detail.as_str());
                self.phase = Phase::Walk;
                None
            },
            _ => Some(Request::Change(self.path.clone(), mode)),
        }
    }

    /// Takes one step of the run.
    fn step(&mut self) -> (request: Option<Request>)
        ensures
            final(self)@ == old(self)@.step().0,
            request_of(request) == old(self)@.step().1,
    {
        match self.phase {
            Phase::Start => self.start(),
            Phase::Walk => {
                if self.stack.len() > 0 {
                    self.change_many()
                } else {
                    self.change()
                }
            },
            Phase::AskRoot => self.authorize(Context::Absolute),
            Phase::AskEntry(_) => self.authorize(Context::Interactive),
            Phase::Classify => self.classified(),
            Phase::List => self.listed(),
            Phase::Change(mode) => self.changed(mode),
            Phase::Helped => Some(Request::Help),
            Phase::Versioned => Some(Request::Version),
            Phase::Done => Some(Request::Done),
            Phase::Failed(error) => Some(Request::Failed(error)),
        }
    }

    /// Runs this program up to the next request: the one thing that it
    /// needs from outside before it can go on, or the end of the run. What
    /// it has to say meanwhile is on its output streams.
    pub fn run(&mut self) -> (request: Request)
        ensures
            final(self)@ == old(self)@.run().0,
            request@ == old(self)@.run().1,
            old(self)@.inv() ==> final(self)@.inv(),
    {
        proof {
            if self@.inv() {
                lemma_run_inv(self@);
            }
        }
        loop
            invariant
                self@.run() == old(self)@.run(),
                old(self)@.inv() ==> old(self)@.run().0.inv(),
            decreases self@.fuel(),
        {
            if let Some(request) = self.step() {
                return request;
            }
        }
    }
}

} // verus!
