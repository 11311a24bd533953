//! The run as a state machine over mathematical values: its states, its
//! steps, and what holds of every run.
//!
//! A file mode applies to files and a directory mode to directories; a kind
//! of entry without a mode is out of scope and is left alone. A directory is
//! changed after everything that it holds.
use crate::answer::{decision, trim_end, trim_start, Decision};
use crate::config::ConfigView;
use crate::error::Error;
use crate::mode::{is_mode_text, Mode};
use crate::request::{Context, Kind, ReplyView, RequestView};
use crate::status;
use crate::text::{error_text, failure_text, path_has_root, prompt_text, result_text};
use vstd::prelude::*;

verus! {

/// Where a run stands.
#[derive(Clone, Copy, Debug, PartialEq, Eq, Structural)]
pub enum Phase {
    /// Nothing has been done yet.
    Start,
    /// The walk goes on with the next entry or the next root path.
    Walk,
    /// A root path is absolute: the answer to the prompt is awaited.
    AskRoot,
    /// A path is about to get the mode: the answer to the prompt is awaited.
    AskEntry(Mode),
    /// The kind of the path is awaited.
    Classify,
    /// The entries of the path are awaited.
    List,
    /// The outcome of the change of the path to the mode is awaited.
    Change(Mode),
    /// The run is over: the help message was asked for.
    Helped,
    /// The run is over: the version message was asked for.
    Versioned,
    /// The run is over: every path has been dealt with.
    Done,
    /// The run is over: the options are in error.
    Failed(Error),
}

/// A directory whose entries are being visited.
#[verifier::ext_equal]
pub struct FrameView {
    /// The path of the directory.
    pub path: Seq<char>,
    /// The entries that have not been visited yet.
    pub entries: Seq<Seq<char>>,
}

/// The state of a run, as a mathematical value.
#[verifier::ext_equal]
pub struct State {
    /// The options.
    pub options: ConfigView,
    /// The text on the standard error stream.
    pub stderr: Seq<char>,
    /// The text on the standard output stream.
    pub stdout: Seq<char>,
    /// The lines on the standard input stream that have not been read.
    pub stdin: Seq<Seq<char>>,
    /// The reply that has been supplied and not been used.
    pub reply: Option<ReplyView>,
    /// The mode for files, once the options have been found valid.
    pub file_mode: Option<Mode>,
    /// The mode for directories, once the options have been found valid.
    pub dir_mode: Option<Mode>,
    /// The root paths that have not been taken up.
    pub roots: Seq<Seq<char>>,
    /// The directories being walked, the innermost last.
    pub stack: Seq<FrameView>,
    /// The path under consideration.
    pub path: Seq<char>,
    /// Where the run stands.
    pub phase: Phase,
}

/// The mode that a mode text denotes, if there is a text.
pub open spec fn mode_of(text: Option<Seq<char>>) -> Option<Mode> {
    match text {
        Some(text) => Some(Mode::of(text)),
        None => None,
    }
}

impl State {
    /// The state in which a run with the given options begins.
    pub open spec fn new(options: ConfigView) -> State {
        State {
            options,
            stderr: Seq::empty(),
            stdout: Seq::empty(),
            stdin: Seq::empty(),
            reply: None,
            file_mode: None,
            dir_mode: None,
            roots: options.paths,
            stack: Seq::empty(),
            path: Seq::empty(),
            phase: Phase::Start,
        }
    }

    /// Whether the file option is present.
    pub open spec fn has_file(self) -> bool {
        self.options.file is Some
    }

    /// Whether the directory option is present.
    pub open spec fn has_dir(self) -> bool {
        self.options.dir is Some
    }

    /// What is wrong with the options, if anything: `interactive` together
    /// with `suppress`, else no mode at all, else a mode that is not numeric.
    pub open spec fn fault(self) -> Option<Error> {
        if self.options.interactive && self.options.suppress {
            Some(Error::Conflict)
        } else if !self.has_file() && !self.has_dir() {
            Some(Error::Missing)
        } else if (self.options.file matches Some(text) && !is_mode_text(text)) || (
        self.options.dir matches Some(text) && !is_mode_text(text)) {
            Some(Error::InvalidMode)
        } else {
            None
        }
    }

    /// The mode that applies to an entry of the given kind, if it is in scope.
    pub open spec fn mode_for(self, kind: Kind) -> Option<Mode> {
        match kind {
            Kind::File => self.file_mode,
            Kind::Directory => self.dir_mode,
            Kind::Missing => None,
        }
    }

    /// Whether a prompt precedes the change of each path.
    pub open spec fn prompts(self) -> bool {
        self.options.interactive && !self.options.suppress
    }

    /// The first step of a run. Help and version come before all else. Then
    /// the options are validated: a fault is written to the standard error
    /// stream and ends the run; without one the walk begins.
    pub open spec fn start(self) -> (State, Option<RequestView>) {
        if self.options.help {
            (State { phase: Phase::Helped, ..self }, Some(RequestView::Help))
        } else if self.options.version {
            (State { phase: Phase::Versioned, ..self }, Some(RequestView::Version))
        } else {
            match self.fault() {
                Some(error) => (
                    State {
                        phase: Phase::Failed(error),
                        stderr: self.stderr + failure_text(error.text()),
                        ..self
                    },
                    Some(RequestView::Failed(error)),
                ),
                None => (
                    State {
                        phase: Phase::Walk,
                        file_mode: mode_of(self.options.file),
                        dir_mode: mode_of(self.options.dir),
                        ..self
                    },
                    None,
                ),
            }
        }
    }

    /// Takes up the next root path, or ends the run when none is left. An
    /// absolute path is first asked about, unless interaction is suppressed.
    pub open spec fn change(self) -> (State, Option<RequestView>) {
        if self.roots.len() == 0 {
            (State { phase: Phase::Done, ..self }, Some(RequestView::Done))
        } else {
            let path = self.roots[0];
            let taken = State { roots: self.roots.skip(1), path: path, ..self };
            if !self.options.suppress && path_has_root(path) {
                (
                    State {
                        phase: Phase::AskRoot,
                        stderr: self.stderr + prompt_text(path, Context::Absolute.reason()),
                        ..taken
                    },
                    None,
                )
            } else {
                (State { phase: Phase::Classify, ..taken }, Some(RequestView::Classify(path)))
            }
        }
    }

    /// Goes on with the innermost directory: visits its next entry or, when
    /// every entry has been visited, leaves it and changes the directory
    /// itself. So the children come before their parent.
    pub open spec fn change_many(self) -> (State, Option<RequestView>) {
        let frame = self.stack.last();
        if frame.entries.len() > 0 {
            let path = frame.entries[0];
            (
                State {
                    stack: self.stack.drop_last().push(
                        FrameView { path: frame.path, entries: frame.entries.skip(1) },
                    ),
                    path: path,
                    phase: Phase::Classify,
                    ..self
                },
                Some(RequestView::Classify(path)),
            )
        } else {
            State { stack: self.stack.drop_last(), path: frame.path, ..self }.change_one(
                Kind::Directory,
            )
        }
    }

    /// Changes the path under consideration, which is of the given kind. A
    /// kind that is out of scope is left alone. Where each change is
    /// confirmed, the prompt is written and the answer awaited.
    pub open spec fn change_one(self, kind: Kind) -> (State, Option<RequestView>) {
        match self.mode_for(kind) {
            None => (State { phase: Phase::Walk, ..self }, None),
            Some(mode) => if self.prompts() {
                (
                    State {
                        phase: Phase::AskEntry(mode),
                        stderr: self.stderr + prompt_text(self.path, Context::Interactive.reason()),
                        ..self
                    },
                    None,
                )
            } else {
                self.apply(mode)
            },
        }
    }

    /// Gives the path under consideration the mode, or, in a dry run, only
    /// reports that it would be changed.
    pub open spec fn apply(self, mode: Mode) -> (State, Option<RequestView>) {
        if self.options.dry_run {
            (
                State {
                    phase: Phase::Walk,
                    stdout: self.stdout + result_text(self.path, "will be changed"@),
                    ..self
                },
                None,
            )
        } else {
            (State { phase: Phase::Change(mode), ..self }, Some(RequestView::Change(self.path, mode)))
        }
    }

    /// Reads the answer to a prompt. Without a line to read, one is asked
    /// for. `y` proceeds; `n` skips the path; any other answer has the prompt
    /// written again.
    pub open spec fn authorize(self, context: Context) -> (State, Option<RequestView>) {
        if self.stdin.len() == 0 {
            (self, Some(RequestView::Line))
        } else {
            let read = State { stdin: self.stdin.skip(1), ..self };
            match decision(self.stdin[0]) {
                Some(Decision::Proceed) => match self.phase {
                    Phase::AskEntry(mode) => read.apply(mode),
                    _ => (
                        State { phase: Phase::Classify, ..read },
                        Some(RequestView::Classify(self.path)),
                    ),
                },
                Some(Decision::Skip) => (
                    State {
                        phase: Phase::Walk,
                        stderr: if self.options.verbose {
                            self.stderr + "Skipped.\n"@
                        } else {
                            self.stderr
                        },
                        ..read
                    },
                    None,
                ),
                None => (
                    State {
                        stderr: self.stderr + prompt_text(self.path, context.reason()),
                        ..read
                    },
                    None,
                ),
            }
        }
    }

    /// Uses the kind of the path under consideration. A file is changed; a
    /// directory is to be listed; a missing path is reported as not found.
    /// Without that reply the request is made again.
    pub open spec fn classified(self) -> (State, Option<RequestView>) {
        let used = State { reply: None, ..self };
        match self.reply {
            Some(ReplyView::Kind(Kind::File)) => used.change_one(Kind::File),
            Some(ReplyView::Kind(Kind::Directory)) => (
                State { phase: Phase::List, ..used },
                Some(RequestView::List(self.path)),
            ),
            Some(ReplyView::Kind(Kind::Missing)) => (
                State {
                    phase: Phase::Walk,
                    stderr: self.stderr + error_text(
                        "Cannot access"@,
                        self.path,
                        status::MNOTFOUND@,
                    ),
                    ..used
                },
                None,
            ),
            _ => (used, Some(RequestView::Classify(self.path))),
        }
    }

    /// Uses the entries of the directory under consideration: the walk goes
    /// on inside it. A directory that cannot be listed is reported and left
    /// alone, with all that it holds. Without that reply the request is made
    /// again.
    pub open spec fn listed(self) -> (State, Option<RequestView>) {
        let used = State { reply: None, ..self };
        match self.reply {
            Some(ReplyView::Entries(entries)) => (
                State {
                    phase: Phase::Walk,
                    stack: self.stack.push(FrameView { path: self.path, entries: entries }),
                    ..used
                },
                None,
            ),
            Some(ReplyView::Failed(detail)) => (
                State {
                    phase: Phase::Walk,
                    stderr: self.stderr + error_text("Cannot access"@, self.path, detail),
                    ..used
                },
                None,
            ),
            _ => (used, Some(RequestView::List(self.path))),
        }
    }

    /// Uses the outcome of the change of the path under consideration: a
    /// success is reported in a verbose run, a failure always. Without that
    /// reply the request is made again.
    pub open spec fn changed(self, mode: Mode) -> (State, Option<RequestView>) {
        let used = State { reply: None, ..self };
        match self.reply {
            Some(ReplyView::Changed) => (
                State {
                    phase: Phase::Walk,
                    stdout: if self.options.verbose {
                        self.stdout + result_text(self.path, "changed"@)
                    } else {
                        self.stdout
                    },
                    ..used
                },
                None,
            ),
            Some(ReplyView::Failed(detail)) => (
                State {
                    phase: Phase::Walk,
                    stderr: self.stderr + error_text(
                        "Cannot change permissions"@,
                        self.path,
                        detail,
                    ),
                    ..used
                },
                None,
            ),
            _ => (used, Some(RequestView::Change(self.path, mode))),
        }
    }

    /// One step of a run: the next state, and the request at which the run
    /// stops, if it stops there.
    pub open spec fn step(self) -> (State, Option<RequestView>) {
        match self.phase {
            Phase::Start => self.start(),
            Phase::Walk => if self.stack.len() > 0 {
                self.change_many()
            } else {
                self.change()
            },
            Phase::AskRoot => self.authorize(Context::Absolute),
            Phase::AskEntry(_) => self.authorize(Context::Interactive),
            Phase::Classify => self.classified(),
            Phase::List => self.listed(),
            Phase::Change(mode) => self.changed(mode),
            Phase::Helped => (self, Some(RequestView::Help)),
            Phase::Versioned => (self, Some(RequestView::Version)),
            Phase::Done => (self, Some(RequestView::Done)),
            Phase::Failed(error) => (self, Some(RequestView::Failed(error))),
        }
    }

    /// A bound on the number of steps that a run can take before it stops at
    /// a request.
    pub open spec fn fuel(self) -> nat {
        self.stdin.len() + 2 * self.stack.len() + 2 * self.roots.len() + (if self.reply is Some {
            4nat
        } else {
            0nat
        }) + (match self.phase {
            Phase::Start | Phase::AskRoot | Phase::AskEntry(_) => 1nat,
            _ => 0nat,
        })
    }

    /// A run from this state up to its next request: the state there, and
    /// the request.
    pub open spec fn run(self) -> (State, RequestView)
        decreases self.fuel(),
    {
        let (next, request) = self.step();
        match request {
            Some(request) => (next, request),
            None => next.run(),
        }
    }
}

impl State {
    /// Whether the mode is one that the options give.
    pub open spec fn gives(self, mode: Mode) -> bool {
        self.file_mode == Some(mode) || self.dir_mode == Some(mode)
    }

    /// What holds of every state that a run can reach. Past its first step a
    /// run that goes on has valid options and the modes that they give. A
    /// failed run has the fault that it reported. A dry run never awaits the
    /// outcome of a change. A root path is asked about only outside every
    /// directory, and only if interaction is not suppressed. An entry is
    /// asked about only if each change is to be confirmed. The mode asked
    /// about or awaited is one that the options give.
    pub open spec fn inv(self) -> bool {
        &&& match self.phase {
            Phase::Start | Phase::Helped | Phase::Versioned => true,
            Phase::Failed(error) => self.fault() == Some(error),
            _ => {
                &&& self.fault() is None
                &&& self.file_mode == mode_of(self.options.file)
                &&& self.dir_mode == mode_of(self.options.dir)
            },
        }
        &&& self.options.dry_run ==> !(self.phase is Change)
        &&& self.phase == Phase::AskRoot ==> self.stack.len() == 0 && !self.options.suppress
        &&& self.phase matches Phase::AskEntry(mode) ==> self.prompts() && self.gives(mode)
        &&& self.phase matches Phase::Change(mode) ==> self.gives(mode)
    }
}

/// A run begins in a state that satisfies the invariant.
pub proof fn lemma_new_inv(options: ConfigView)
    ensures
        State::new(options).inv(),
{
}

/// A step keeps the invariant, and never touches the options.
pub proof fn lemma_step_inv(s: State)
    requires
        s.inv(),
    ensures
        s.step().0.inv(),
        s.step().0.options == s.options,
{
}

/// A run up to its next request keeps the invariant, and never touches the
/// options.
pub proof fn lemma_run_inv(s: State)
    requires
        s.inv(),
    ensures
        s.run().0.inv(),
        s.run().0.options == s.options,
    decreases s.fuel(),
{
    lemma_step_inv(s);
    if s.step().1 is None {
        lemma_run_inv(s.step().0);
    }
}

/// In a dry run no change of a mode is ever requested.
pub proof fn lemma_dry_run_requests_no_change(s: State)
    requires
        s.inv(),
        s.options.dry_run,
    ensures
        !(s.run().1 is Change),
        !(s.run().0.phase is Change),
    decreases s.fuel(),
{
    lemma_step_inv(s);
    if s.step().1 is None {
        lemma_dry_run_requests_no_change(s.step().0);
    }
}

/// In a dry run every path that is in scope is reported as one that would be
/// changed: at once where no confirmation is asked for, and else when the
/// answer is to proceed.
pub proof fn lemma_dry_run_reports(s: State, kind: Kind, mode: Mode)
    requires
        s.options.dry_run,
        s.mode_for(kind) == Some(mode),
    ensures
        !s.prompts() ==> s.change_one(kind) == (
            State {
                phase: Phase::Walk,
                stdout: s.stdout + result_text(s.path, "will be changed"@),
                ..s
            },
            None::<RequestView>,
        ),
        s.prompts() ==> s.change_one(kind).0.phase == Phase::AskEntry(mode),
        s.phase == Phase::AskEntry(mode) && s.stdin.len() > 0 && decision(s.stdin[0]) == Some(
            Decision::Proceed,
        ) ==> s.step() == (
            State {
                phase: Phase::Walk,
                stdin: s.stdin.skip(1),
                stdout: s.stdout + result_text(s.path, "will be changed"@),
                ..s
            },
            None::<RequestView>,
        ),
{
}

/// The lines `n` and `y`, in either case and with whitespace around them,
/// are the answers that decide.
pub proof fn lemma_answers()
    ensures
        decision("n"@) == Some(Decision::Skip),
        decision("y"@) == Some(Decision::Proceed),
        decision("N\n"@) == Some(Decision::Skip),
        decision(" Y \n"@) == Some(Decision::Proceed),
        decision(""@) == None::<Decision>,
{
    reveal_strlit("n");
    reveal_strlit("y");
    reveal_strlit("N\n");
    reveal_strlit(" Y \n");
    reveal_strlit("");
    reveal_with_fuel(trim_start, 4);
    reveal_with_fuel(trim_end, 4);
    assert("n"@ =~= seq!['n']);
    assert("y"@ =~= seq!['y']);
    assert("N\n"@ =~= seq!['N', '\n']);
    assert(seq!['N', '\n'].drop_last() =~= seq!['N']);
    assert(" Y \n"@ =~= seq![' ', 'Y', ' ', '\n']);
    assert(seq![' ', 'Y', ' ', '\n'].drop_first() =~= seq!['Y', ' ', '\n']);
    assert(seq!['Y', ' ', '\n'].drop_last() =~= seq!['Y', ' ']);
    assert(seq!['Y', ' '].drop_last() =~= seq!['Y']);
    assert(""@ =~= Seq::<char>::empty());
}

/// Where each change is to be confirmed, a path whose prompt is answered
/// with `n` is left alone: the step requests nothing, the path is dropped,
/// and the walk goes on as it would after an entry that is out of scope.
pub proof fn lemma_declined_path_is_left_alone(s: State, mode: Mode)
    requires
        s.phase == Phase::AskEntry(mode),
        s.stdin.len() > 0,
        decision(s.stdin[0]) == Some(Decision::Skip),
    ensures
        s.step() == (
            State {
                phase: Phase::Walk,
                stdin: s.stdin.skip(1),
                stderr: if s.options.verbose {
                    s.stderr + "Skipped.\n"@
                } else {
                    s.stderr
                },
                ..s
            },
            None::<RequestView>,
        ),
{
}

/// Where each change is to be confirmed, a step requests the change of a
/// path only on the answer to proceed with that very path.
pub proof fn lemma_change_needs_consent(s: State)
    requires
        s.inv(),
        s.prompts(),
        !(s.phase is Change),
        s.step().1 is Some,
        s.step().1->0 is Change,
    ensures
        s.phase is AskEntry,
        s.stdin.len() > 0,
        decision(s.stdin[0]) == Some(Decision::Proceed),
        s.step().1 == Some(RequestView::Change(s.path, s.phase->AskEntry_0)),
{
}

/// The prompt for an absolute path is written when the path is taken up as
/// a root, once, and never for what lies under it: a step inside a directory
/// takes up no root path and asks about none.
pub proof fn lemma_absolute_prompt_per_root(s: State)
    requires
        s.inv(),
    ensures
        s.phase == Phase::Walk && s.stack.len() == 0 && s.roots.len() > 0 && path_has_root(
            s.roots[0],
        ) && !s.options.suppress ==> s.step() == (
            State {
                phase: Phase::AskRoot,
                roots: s.roots.skip(1),
                path: s.roots[0],
                stderr: s.stderr + prompt_text(s.roots[0], Context::Absolute.reason()),
                ..s
            },
            None::<RequestView>,
        ),
        s.stack.len() > 0 ==> s.step().0.roots == s.roots && s.step().0.phase != Phase::AskRoot,
        s.step().0.phase == Phase::AskRoot ==> s.step().0.stack.len() == 0,
        s.options.suppress ==> s.step().0.phase != Phase::AskRoot,
{
}

/// A kind of entry for which the options give no mode is out of scope: it is
/// left alone and nothing is written about it.
pub proof fn lemma_out_of_scope_is_left_alone(s: State, kind: Kind)
    requires
        s.mode_for(kind) is None,
    ensures
        s.change_one(kind) == (State { phase: Phase::Walk, ..s }, None::<RequestView>),
{
}

/// A directory that cannot be listed is reported and abandoned, and nothing
/// else: the directories around it, with the entries that they have left,
/// stand as they stood, so the walk goes on with its siblings.
pub proof fn lemma_failed_listing_keeps_siblings(s: State, detail: Seq<char>)
    requires
        s.phase == Phase::List,
        s.reply == Some(ReplyView::Failed(detail)),
    ensures
        s.step() == (
            State {
                phase: Phase::Walk,
                reply: None,
                stderr: s.stderr + error_text("Cannot access"@, s.path, detail),
                ..s
            },
            None::<RequestView>,
        ),
{
}

} // verus!
