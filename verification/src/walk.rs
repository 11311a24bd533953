//! The walk as a whole: what a run asks of its caller and what it writes,
//! from its first step to its last, when the file system is a given forest
//! and the answers to its prompts are the lines on its input.
use crate::answer::{decision, Decision};
use crate::config::ConfigView;
use crate::mode::Mode;
use crate::request::{Context, Kind, ReplyView, RequestView};
use crate::state::{mode_of, FrameView, Phase, State};
use crate::status;
use crate::text::{error_text, path_has_root, prompt_text, result_text};
use vstd::prelude::*;

verus! {

/// What a path leads to, with all that lies under it.
pub enum Tree {
    /// Nothing that can be reached.
    Missing { path: Seq<char> },
    /// A file. A change of its mode succeeds, or is refused for the reason
    /// told.
    File { path: Seq<char>, refusal: Option<Seq<char>> },
    /// A directory that cannot be listed, for the reason told.
    Locked { path: Seq<char>, detail: Seq<char> },
    /// A directory with its entries, in the order in which it lists them. A
    /// change of its mode succeeds, or is refused for the reason told.
    Directory { path: Seq<char>, entries: Seq<Tree>, refusal: Option<Seq<char>> },
}

impl Tree {
    /// The path of the root of the tree.
    pub open spec fn path(self) -> Seq<char> {
        match self {
            Tree::Missing { path } => path,
            Tree::File { path, .. } => path,
            Tree::Locked { path, .. } => path,
            Tree::Directory { path, .. } => path,
        }
    }

    /// What the path of the root of the tree leads to.
    pub open spec fn kind(self) -> Kind {
        match self {
            Tree::Missing { .. } => Kind::Missing,
            Tree::File { .. } => Kind::File,
            Tree::Locked { .. } => Kind::Directory,
            Tree::Directory { .. } => Kind::Directory,
        }
    }
}

/// The paths of the roots of the trees.
pub open spec fn paths(trees: Seq<Tree>) -> Seq<Seq<char>> {
    Seq::new(trees.len(), |i: int| trees[i].path())
}

/// The reply to the request to change a mode.
pub open spec fn outcome(refusal: Option<Seq<char>>) -> ReplyView {
    match refusal {
        Some(detail) => ReplyView::Failed(detail),
        None => ReplyView::Changed,
    }
}

/// What a request is answered with, in order: the request, then the reply.
pub type Exchange = (RequestView, ReplyView);

/// The requests of a sequence of exchanges.
pub open spec fn requests(exchanges: Seq<Exchange>) -> Seq<RequestView> {
    Seq::new(exchanges.len(), |i: int| exchanges[i].0)
}

/// The replies of a sequence of exchanges.
pub open spec fn replies(exchanges: Seq<Exchange>) -> Seq<ReplyView> {
    Seq::new(exchanges.len(), |i: int| exchanges[i].1)
}

/// A text, written a number of times over.
pub open spec fn repeated(text: Seq<char>, times: nat) -> Seq<char>
    decreases times,
{
    if times == 0 {
        Seq::empty()
    } else {
        text + repeated(text, (times - 1) as nat)
    }
}

/// The number of lines that decide nothing before the first line that
/// decides, if there is one.
pub open spec fn undecided(lines: Seq<Seq<char>>) -> Option<nat>
    decreases lines.len(),
{
    if lines.len() == 0 {
        None
    } else if decision(lines[0]) is Some {
        Some(0)
    } else {
        match undecided(lines.skip(1)) {
            Some(n) => Some(n + 1),
            None => None,
        }
    }
}

/// A stretch of a walk: the exchanges with the caller, what is written to
/// the two output streams, and the lines that it leaves on the input.
#[verifier::ext_equal]
pub struct Walked {
    pub exchanges: Seq<Exchange>,
    pub output: Seq<char>,
    pub errors: Seq<char>,
    pub lines: Seq<Seq<char>>,
}

impl Walked {
    /// The stretch in which nothing happens.
    pub open spec fn nothing(lines: Seq<Seq<char>>) -> Walked {
        Walked { exchanges: Seq::empty(), output: Seq::empty(), errors: Seq::empty(), lines }
    }

    /// The stretch made of the exchanges alone.
    pub open spec fn exchanging(exchanges: Seq<Exchange>, lines: Seq<Seq<char>>) -> Walked {
        Walked { exchanges, output: Seq::empty(), errors: Seq::empty(), lines }
    }

    /// This stretch, and then the next.
    pub open spec fn followed_by(self, next: Walked) -> Walked {
        Walked {
            exchanges: self.exchanges + next.exchanges,
            output: self.output + next.output,
            errors: self.errors + next.errors,
            lines: next.lines,
        }
    }

    /// This stretch, and then the next, if there is one.
    pub open spec fn before(self, next: Option<Walked>) -> Option<Walked> {
        match next {
            Some(next) => Some(self.followed_by(next)),
            None => None,
        }
    }
}

/// What decides how each path is treated: the modes, and the options on
/// what is changed, asked and told.
pub struct Rules {
    pub file_mode: Option<Mode>,
    pub dir_mode: Option<Mode>,
    pub dry_run: bool,
    pub verbose: bool,
    /// Whether each change is to be confirmed.
    pub confirm: bool,
    /// Whether nothing is ever asked.
    pub suppress: bool,
}

/// The rules that a run with the given options goes by, once the options
/// have been found valid.
pub open spec fn rules_of(options: ConfigView) -> Rules {
    Rules {
        file_mode: mode_of(options.file),
        dir_mode: mode_of(options.dir),
        dry_run: options.dry_run,
        verbose: options.verbose,
        confirm: options.interactive && !options.suppress,
        suppress: options.suppress,
    }
}

impl Rules {
    /// The prompt about a path and its answer. The prompt is written, and
    /// written again after each line that decides nothing. The first line
    /// that decides is the answer; in a verbose run the answer to skip is
    /// acknowledged. There is no answer if the lines run out before.
    pub open spec fn ask(self, path: Seq<char>, context: Context, lines: Seq<Seq<char>>) -> Option<
        (Decision, Walked),
    > {
        match undecided(lines) {
            None => None,
            Some(n) => {
                let answer = decision(lines[n as int])->0;
                Some(
                    (
                        answer,
                        Walked {
                            exchanges: Seq::empty(),
                            output: Seq::empty(),
                            errors: repeated(prompt_text(path, context.reason()), n + 1) + (
                            if answer == Decision::Skip && self.verbose {
                                "Skipped.\n"@
                            } else {
                                Seq::empty()
                            }),
                            lines: lines.skip(n as int + 1),
                        },
                    ),
                )
            },
        }
    }

    /// The change itself. In a dry run it is only reported as one that
    /// would be made. Else it is requested: a success is reported in a
    /// verbose run, a refusal always.
    pub open spec fn apply(
        self,
        path: Seq<char>,
        mode: Mode,
        refusal: Option<Seq<char>>,
        lines: Seq<Seq<char>>,
    ) -> Walked {
        if self.dry_run {
            Walked {
                exchanges: Seq::empty(),
                output: result_text(path, "will be changed"@),
                errors: Seq::empty(),
                lines,
            }
        } else {
            Walked {
                exchanges: seq![(RequestView::Change(path, mode), outcome(refusal))],
                output: if refusal is None && self.verbose {
                    result_text(path, "changed"@)
                } else {
                    Seq::empty()
                },
                errors: match refusal {
                    Some(detail) => error_text("Cannot change permissions"@, path, detail),
                    None => Seq::empty(),
                },
                lines,
            }
        }
    }

    /// A path comes to be changed. Without a mode for it, it is out of scope
    /// and nothing happens. Where each change is to be confirmed, the path
    /// is asked about first, and changed only on the answer to proceed.
    pub open spec fn touch(
        self,
        path: Seq<char>,
        mode: Option<Mode>,
        refusal: Option<Seq<char>>,
        lines: Seq<Seq<char>>,
    ) -> Option<Walked> {
        match mode {
            None => Some(Walked::nothing(lines)),
            Some(mode) => if self.confirm {
                match self.ask(path, Context::Interactive, lines) {
                    None => None,
                    Some((Decision::Proceed, asked)) => Some(
                        asked.followed_by(self.apply(path, mode, refusal, asked.lines)),
                    ),
                    Some((Decision::Skip, asked)) => Some(asked),
                }
            } else {
                Some(self.apply(path, mode, refusal, lines))
            },
        }
    }

    /// The walk of a tree: its root is classified; a file is changed; a
    /// directory is listed, each of its entries is walked in turn, and the
    /// directory is changed after them. A missing path and a directory that
    /// cannot be listed are reported. There is no walk if the lines run out
    /// before every prompt is answered.
    pub open spec fn walk(self, tree: Tree, lines: Seq<Seq<char>>) -> Option<Walked>
        decreases tree, 0nat,
    {
        match tree {
            Tree::Missing { path } => Some(
                Walked {
                    exchanges: seq![(RequestView::Classify(path), ReplyView::Kind(Kind::Missing))],
                    output: Seq::empty(),
                    errors: error_text("Cannot access"@, path, status::MNOTFOUND@),
                    lines,
                },
            ),
            Tree::File { path, refusal } => Walked::exchanging(
                seq![(RequestView::Classify(path), ReplyView::Kind(Kind::File))],
                lines,
            ).before(self.touch(path, self.file_mode, refusal, lines)),
            Tree::Locked { path, detail } => Some(
                Walked {
                    exchanges: seq![
                        (RequestView::Classify(path), ReplyView::Kind(Kind::Directory)),
                        (RequestView::List(path), ReplyView::Failed(detail)),
                    ],
                    output: Seq::empty(),
                    errors: error_text("Cannot access"@, path, detail),
                    lines,
                },
            ),
            Tree::Directory { path, entries, refusal } => {
                let listing = Walked::exchanging(
                    seq![
                        (RequestView::Classify(path), ReplyView::Kind(Kind::Directory)),
                        (RequestView::List(path), ReplyView::Entries(paths(entries))),
                    ],
                    lines,
                );
                match self.walk_from(entries, 0, lines) {
                    None => None,
                    Some(inside) => listing.followed_by(inside).before(
                        self.touch(path, self.dir_mode, refusal, inside.lines),
                    ),
                }
            },
        }
    }

    /// The walks of the trees from position `from` on, one tree after the
    /// other.
    pub open spec fn walk_from(self, trees: Seq<Tree>, from: nat, lines: Seq<Seq<char>>) -> Option<
        Walked,
    >
        decreases trees, trees.len() - from,
    {
        if from >= trees.len() {
            Some(Walked::nothing(lines))
        } else {
            match self.walk(trees[from as int], lines) {
                None => None,
                Some(first) => first.before(self.walk_from(trees, from + 1, first.lines)),
            }
        }
    }

    /// The walk of a tree that a root path leads to. An absolute path is
    /// asked about first, unless nothing is ever asked, and walked only on
    /// the answer to proceed.
    pub open spec fn root(self, tree: Tree, lines: Seq<Seq<char>>) -> Option<Walked> {
        if !self.suppress && path_has_root(tree.path()) {
            match self.ask(tree.path(), Context::Absolute, lines) {
                None => None,
                Some((Decision::Proceed, asked)) => asked.before(self.walk(tree, asked.lines)),
                Some((Decision::Skip, asked)) => Some(asked),
            }
        } else {
            self.walk(tree, lines)
        }
    }

    /// The walks of the trees that the root paths from position `from` on
    /// lead to, one tree after the other.
    pub open spec fn roots_from(self, trees: Seq<Tree>, from: nat, lines: Seq<Seq<char>>) -> Option<
        Walked,
    >
        decreases trees.len() - from,
    {
        if from >= trees.len() {
            Some(Walked::nothing(lines))
        } else {
            match self.root(trees[from as int], lines) {
                None => None,
                Some(first) => first.before(self.roots_from(trees, from + 1, first.lines)),
            }
        }
    }
}

impl State {
    /// The rules that the state holds.
    pub open spec fn rules(self) -> Rules {
        Rules {
            file_mode: self.file_mode,
            dir_mode: self.dir_mode,
            dry_run: self.options.dry_run,
            verbose: self.options.verbose,
            confirm: self.prompts(),
            suppress: self.options.suppress,
        }
    }

    /// The state once the reply has been supplied.
    pub open spec fn replied(self, reply: ReplyView) -> State {
        State { reply: Some(reply), ..self }
    }

    /// The run from this state on, with the replies supplied in turn, each
    /// after the request at which the run has stopped: the requests that the
    /// run makes, and the state in which the last of them leaves it.
    pub open spec fn dialogue(self, replies: Seq<ReplyView>) -> (Seq<RequestView>, State)
        decreases replies.len(),
    {
        let (next, request) = self.run();
        if replies.len() == 0 {
            (seq![request], next)
        } else {
            let (requests, last) = next.replied(replies[0]).dialogue(replies.skip(1));
            (seq![request] + requests, last)
        }
    }

    /// The state in which a stretch of the walk leaves this one: what was
    /// written is on the streams, the lines read are gone from the input,
    /// and the run goes on from where it stood.
    pub open spec fn left(self, walked: Walked) -> State {
        State {
            phase: Phase::Walk,
            reply: None,
            stdout: self.stdout + walked.output,
            stderr: self.stderr + walked.errors,
            stdin: walked.lines,
            ..self
        }
    }
}

/// The requests `first`, followed by those of `rest`; the state of `rest`.
pub open spec fn continued(first: Seq<RequestView>, rest: (Seq<RequestView>, State)) -> (
    Seq<RequestView>,
    State,
) {
    (first + rest.0, rest.1)
}

impl State {
    /// What the prompt that is awaited asks about.
    pub open spec fn asking(self) -> Context {
        match self.phase {
            Phase::AskRoot => Context::Absolute,
            _ => Context::Interactive,
        }
    }

    /// The state in which the walks of the entries of the innermost
    /// directory leave this one: no entry is left to visit.
    pub open spec fn visited(self, trees: Seq<Tree>, from: nat, walked: Walked) -> State {
        let frame = self.stack.last();
        State {
            stack: self.stack.drop_last().push(
                FrameView { path: frame.path, entries: Seq::empty() },
            ),
            stdout: self.stdout + walked.output,
            stderr: self.stderr + walked.errors,
            stdin: walked.lines,
            path: if from < trees.len() {
                trees.last().path()
            } else {
                self.path
            },
            ..self
        }
    }
}

/// A step that makes no request changes nothing in the dialogue.
proof fn lemma_silent(s: State, given: Seq<ReplyView>)
    requires
        s.step().1 is None,
    ensures
        s.dialogue(given) == s.step().0.dialogue(given),
{
    assert(s.run() == s.step().0.run());
}

/// A step that makes a request opens the dialogue with it, and the dialogue
/// goes on with the first reply.
proof fn lemma_asked(s: State, given: Seq<ReplyView>)
    requires
        s.step().1 is Some,
        given.len() > 0,
    ensures
        s.dialogue(given) == continued(
            seq![s.step().1->0],
            s.step().0.replied(given[0]).dialogue(given.skip(1)),
        ),
{
    assert(s.run() == (s.step().0, s.step().1->0));
}

/// At a prompt, each line that decides nothing is read and has the prompt
/// written again.
proof fn lemma_prompted(s: State, n: nat, given: Seq<ReplyView>)
    requires
        s.phase == Phase::AskRoot || s.phase is AskEntry,
        undecided(s.stdin) == Some(n),
    ensures
        n < s.stdin.len(),
        decision(s.stdin[n as int]) is Some,
        s.dialogue(given) == (State {
            stdin: s.stdin.skip(n as int),
            stderr: s.stderr + repeated(prompt_text(s.path, s.asking().reason()), n),
            ..s
        }).dialogue(given),
    decreases n,
{
    let prompt = prompt_text(s.path, s.asking().reason());
    if n == 0 {
        assert(s.stdin.skip(0) =~= s.stdin);
        assert(s.stderr + repeated(prompt, 0) =~= s.stderr);
        assert(s =~= State {
            stdin: s.stdin.skip(0),
            stderr: s.stderr + repeated(prompt, 0),
            ..s
        });
    } else {
        let next = s.step().0;
        assert(undecided(s.stdin.skip(1)) == Some((n - 1) as nat));
        lemma_silent(s, given);
        lemma_prompted(next, (n - 1) as nat, given);
        assert(s.stdin.skip(1).skip(n - 1) =~= s.stdin.skip(n as int));
        assert(s.stdin.skip(1)[n - 1] == s.stdin[n as int]);
        assert((s.stderr + prompt) + repeated(prompt, (n - 1) as nat) =~= s.stderr + repeated(
            prompt,
            n,
        ));
        assert(State {
            stdin: next.stdin.skip(n - 1),
            stderr: next.stderr + repeated(prompt, (n - 1) as nat),
            ..next
        } =~= State {
            stdin: s.stdin.skip(n as int),
            stderr: s.stderr + repeated(prompt, n),
            ..s
        });
    }
}

/// The change itself, from the step that comes to it.
proof fn lemma_applied(
    s: State,
    base: State,
    mode: Mode,
    refusal: Option<Seq<char>>,
    tail: Seq<ReplyView>,
)
    requires
        s.step() == base.apply(mode),
        base.reply is None,
    ensures
        ({
            let walked = base.rules().apply(base.path, mode, refusal, base.stdin);
            s.dialogue(replies(walked.exchanges) + tail) == continued(
                requests(walked.exchanges),
                base.left(walked).dialogue(tail),
            )
        }),
{
    let walked = base.rules().apply(base.path, mode, refusal, base.stdin);
    let end = base.left(walked);
    let given = replies(walked.exchanges) + tail;
    if base.options.dry_run {
        assert(given =~= tail);
        assert(s.step().0 =~= end);
        lemma_silent(s, tail);
        assert(continued(requests(walked.exchanges), end.dialogue(tail)) =~= end.dialogue(tail));
    } else {
        assert(given =~= seq![outcome(refusal)] + tail);
        assert(given.skip(1) =~= tail);
        assert(requests(walked.exchanges) =~= seq![RequestView::Change(base.path, mode)]);
        lemma_asked(s, given);
        let waiting = s.step().0.replied(given[0]);
        assert(waiting.step().0 =~= end);
        lemma_silent(waiting, tail);
    }
}

/// A path comes to be changed, from the step that comes to it.
proof fn lemma_touched(
    s: State,
    base: State,
    kind: Kind,
    refusal: Option<Seq<char>>,
    tail: Seq<ReplyView>,
    walked: Walked,
)
    requires
        s.step() == base.change_one(kind),
        base.reply is None,
        kind != Kind::Missing,
        base.rules().touch(base.path, base.mode_for(kind), refusal, base.stdin) == Some(walked),
    ensures
        s.dialogue(replies(walked.exchanges) + tail) == continued(
            requests(walked.exchanges),
            base.left(walked).dialogue(tail),
        ),
{
    let rules = base.rules();
    let end = base.left(walked);
    let given = replies(walked.exchanges) + tail;
    match base.mode_for(kind) {
        None => {
            assert(given =~= tail);
            assert(s.step().0 =~= end);
            lemma_silent(s, tail);
            assert(continued(requests(walked.exchanges), end.dialogue(tail)) =~= end.dialogue(
                tail,
            ));
        },
        Some(mode) => {
            if base.prompts() {
                let prompt = prompt_text(base.path, Context::Interactive.reason());
                let n = undecided(base.stdin)->0;
                let (answer, asked) = rules.ask(base.path, Context::Interactive, base.stdin)->0;
                let asking = s.step().0;
                lemma_silent(s, given);
                lemma_prompted(asking, n, given);
                let deciding = State {
                    stdin: asking.stdin.skip(n as int),
                    stderr: asking.stderr + repeated(prompt, n),
                    ..asking
                };
                let read = State { stdin: deciding.stdin.skip(1), ..deciding };
                assert(deciding.stdin[0] == base.stdin[n as int]);
                assert(read.stdin =~= asked.lines);
                assert((base.stderr + prompt) + repeated(prompt, n) =~= base.stderr + repeated(
                    prompt,
                    n + 1,
                ));
                if answer == Decision::Skip {
                    assert(given =~= tail);
                    assert(deciding.step().0 =~= end);
                    lemma_silent(deciding, tail);
                    assert(continued(requests(walked.exchanges), end.dialogue(tail))
                        =~= end.dialogue(tail));
                } else {
                    let applied = rules.apply(base.path, mode, refusal, asked.lines);
                    assert(walked.exchanges =~= applied.exchanges);
                    assert(deciding.step() == read.apply(mode));
                    lemma_applied(deciding, read, mode, refusal, tail);
                    assert(read.rules() == rules);
                    assert(read.left(applied) =~= end);
                }
            } else {
                lemma_applied(s, base, mode, refusal, tail);
            }
        },
    }
}

/// The walk of a tree begins with the request to classify its root.
proof fn lemma_first(rules: Rules, tree: Tree, lines: Seq<Seq<char>>)
    requires
        rules.walk(tree, lines) is Some,
    ensures
        rules.walk(tree, lines)->0.exchanges.len() >= 1,
        rules.walk(tree, lines)->0.exchanges[0] == (
            RequestView::Classify(tree.path()),
            ReplyView::Kind(tree.kind()),
        ),
{
}

/// The walk of a path that leads nowhere, and of a directory that cannot be
/// listed, once the path has been classified.
proof fn lemma_entry_unreachable(s: State, tree: Tree, tail: Seq<ReplyView>, walked: Walked)
    requires
        s.phase == Phase::Classify,
        s.path == tree.path(),
        s.reply == Some(ReplyView::Kind(tree.kind())),
        s.rules().walk(tree, s.stdin) == Some(walked),
        tree is Missing || tree is Locked,
    ensures
        s.dialogue(replies(walked.exchanges).skip(1) + tail) == continued(
            requests(walked.exchanges).skip(1),
            s.left(walked).dialogue(tail),
        ),
{
    let given = replies(walked.exchanges).skip(1) + tail;
    let asked = requests(walked.exchanges).skip(1);
    let end = s.left(walked);
    match tree {
        Tree::Missing { path } => {
            assert(given =~= tail);
            assert(asked =~= Seq::empty());
            assert(s.step().0 =~= end);
            lemma_silent(s, tail);
            assert(continued(asked, end.dialogue(tail)) =~= end.dialogue(tail));
        },
        Tree::Locked { path, detail } => {
            assert(given =~= seq![ReplyView::Failed(detail)] + tail);
            assert(given.skip(1) =~= tail);
            assert(asked =~= seq![RequestView::List(path)]);
            lemma_asked(s, given);
            let listing = s.step().0.replied(given[0]);
            assert(listing.step().0 =~= end);
            lemma_silent(listing, tail);
        },
        _ => {},
    }
}

/// The walk of a file, once its path has been classified.
proof fn lemma_entry_file(s: State, tree: Tree, tail: Seq<ReplyView>, walked: Walked)
    requires
        s.phase == Phase::Classify,
        s.path == tree.path(),
        s.reply == Some(ReplyView::Kind(tree.kind())),
        s.rules().walk(tree, s.stdin) == Some(walked),
        tree is File,
    ensures
        s.dialogue(replies(walked.exchanges).skip(1) + tail) == continued(
            requests(walked.exchanges).skip(1),
            s.left(walked).dialogue(tail),
        ),
{
    let rules = s.rules();
    let given = replies(walked.exchanges).skip(1) + tail;
    let asked = requests(walked.exchanges).skip(1);
    let end = s.left(walked);
    let used = State { reply: None, ..s };
    let path = tree->File_path;
    let refusal = tree->File_refusal;
    let last = rules.touch(path, rules.file_mode, refusal, s.stdin)->0;
    assert(used.rules() == rules);
    assert(s.step() == used.change_one(Kind::File));
    lemma_touched(s, used, Kind::File, refusal, tail, last);
    assert(given =~= replies(last.exchanges) + tail);
    assert(asked =~= requests(last.exchanges));
    assert(used.left(last) =~= end);
}

/// The listing of a directory, once its path has been classified: the walk
/// goes on inside it.
proof fn lemma_entered(s: State, path: Seq<char>, entries: Seq<Seq<char>>, given: Seq<ReplyView>)
    requires
        s.phase == Phase::Classify,
        s.reply == Some(ReplyView::Kind(Kind::Directory)),
        s.path == path,
        given.len() > 0,
        given[0] == ReplyView::Entries(entries),
    ensures
        s.dialogue(given) == continued(
            seq![RequestView::List(path)],
            (State {
                phase: Phase::Walk,
                reply: None,
                stack: s.stack.push(FrameView { path, entries }),
                ..s
            }).dialogue(given.skip(1)),
        ),
{
    lemma_asked(s, given);
    let listing = s.step().0.replied(given[0]);
    lemma_silent(listing, given.skip(1));
    assert(listing.step().0 =~= State {
        phase: Phase::Walk,
        reply: None,
        stack: s.stack.push(FrameView { path, entries }),
        ..s
    });
}

/// The end of the walk of a directory: every entry has been visited, and
/// the directory itself comes to be changed.
proof fn lemma_left(
    s: State,
    refusal: Option<Seq<char>>,
    tail: Seq<ReplyView>,
    walked: Walked,
)
    requires
        s.phase == Phase::Walk,
        s.reply is None,
        s.stack.len() > 0,
        s.stack.last().entries.len() == 0,
        s.rules().touch(s.stack.last().path, s.dir_mode, refusal, s.stdin) == Some(walked),
    ensures
        s.dialogue(replies(walked.exchanges) + tail) == continued(
            requests(walked.exchanges),
            (State { stack: s.stack.drop_last(), path: s.stack.last().path, ..s }).left(
                walked,
            ).dialogue(tail),
        ),
{
    let back = State { stack: s.stack.drop_last(), path: s.stack.last().path, ..s };
    assert(s.step() == back.change_one(Kind::Directory));
    assert(back.rules() == s.rules());
    lemma_touched(s, back, Kind::Directory, refusal, tail, walked);
}

/// The walk of a directory, once its path has been classified.
#[verifier::rlimit(30)]
proof fn lemma_entry_directory(s: State, tree: Tree, tail: Seq<ReplyView>, walked: Walked)
    requires
        s.phase == Phase::Classify,
        s.path == tree.path(),
        s.reply == Some(ReplyView::Kind(tree.kind())),
        s.rules().walk(tree, s.stdin) == Some(walked),
        tree is Directory,
    ensures
        s.dialogue(replies(walked.exchanges).skip(1) + tail) == continued(
            requests(walked.exchanges).skip(1),
            s.left(walked).dialogue(tail),
        ),
    decreases tree, 0nat,
{
    let rules = s.rules();
    let given = replies(walked.exchanges).skip(1) + tail;
    let asked = requests(walked.exchanges).skip(1);
    let end = s.left(walked);
    let path = tree->Directory_path;
    let entries = tree->Directory_entries;
    let refusal = tree->Directory_refusal;
    let inside = rules.walk_from(entries, 0, s.stdin)->0;
    let last = rules.touch(path, rules.dir_mode, refusal, inside.lines)->0;
    let after = replies(last.exchanges) + tail;
    assert(given =~= seq![ReplyView::Entries(paths(entries))] + (replies(inside.exchanges)
        + after));
    assert(given.skip(1) =~= replies(inside.exchanges) + after);
    assert(asked =~= seq![RequestView::List(path)] + requests(inside.exchanges) + requests(
        last.exchanges,
    ));
    lemma_entered(s, path, paths(entries), given);
    let entered = State {
        phase: Phase::Walk,
        reply: None,
        stack: s.stack.push(FrameView { path, entries: paths(entries) }),
        ..s
    };
    assert(paths(entries).skip(0) =~= paths(entries));
    assert(entered.rules() == rules);
    lemma_entries(entered, path, entries, 0, after, inside);
    let emptied = entered.visited(entries, 0, inside);
    assert(emptied.rules() == rules);
    lemma_left(emptied, refusal, tail, last);
    let back = State { stack: emptied.stack.drop_last(), path: path, ..emptied };
    assert(back.stack =~= s.stack);
    assert(back.left(last) =~= end);
    assert(s.dialogue(given).0 =~= asked + end.dialogue(tail).0);
}

/// The walk of a tree, once its root has been classified: the run makes the
/// requests of the walk, is answered with its replies, writes what the walk
/// writes, and then goes on from where it stood.
proof fn lemma_entry(s: State, tree: Tree, tail: Seq<ReplyView>, walked: Walked)
    requires
        s.phase == Phase::Classify,
        s.path == tree.path(),
        s.reply == Some(ReplyView::Kind(tree.kind())),
        s.rules().walk(tree, s.stdin) == Some(walked),
    ensures
        s.dialogue(replies(walked.exchanges).skip(1) + tail) == continued(
            requests(walked.exchanges).skip(1),
            s.left(walked).dialogue(tail),
        ),
    decreases tree, 1nat,
{
    match tree {
        Tree::Missing { .. } => lemma_entry_unreachable(s, tree, tail, walked),
        Tree::Locked { .. } => lemma_entry_unreachable(s, tree, tail, walked),
        Tree::File { .. } => lemma_entry_file(s, tree, tail, walked),
        Tree::Directory { .. } => lemma_entry_directory(s, tree, tail, walked),
    }
}

/// The walks of the entries of a directory from position `from` on, one
/// after the other.
#[verifier::rlimit(30)]
proof fn lemma_entries(
    s: State,
    path: Seq<char>,
    trees: Seq<Tree>,
    from: nat,
    tail: Seq<ReplyView>,
    walked: Walked,
)
    requires
        s.phase == Phase::Walk,
        s.reply is None,
        s.stack.len() > 0,
        s.stack.last() == (FrameView { path, entries: paths(trees).skip(from as int) }),
        from <= trees.len(),
        s.rules().walk_from(trees, from, s.stdin) == Some(walked),
    ensures
        s.dialogue(replies(walked.exchanges) + tail) == continued(
            requests(walked.exchanges),
            s.visited(trees, from, walked).dialogue(tail),
        ),
    decreases trees, trees.len() - from,
{
    let rules = s.rules();
    let end = s.visited(trees, from, walked);
    if from >= trees.len() {
        assert(replies(walked.exchanges) + tail =~= tail);
        assert(paths(trees).skip(from as int) =~= Seq::<Seq<char>>::empty());
        assert(s.stack.last() =~= FrameView { path, entries: Seq::empty() });
        assert(end.stack =~= s.stack);
        assert(end =~= s);
        assert(continued(requests(walked.exchanges), end.dialogue(tail)) =~= end.dialogue(tail));
    } else {
        let tree = trees[from as int];
        let first = rules.walk(tree, s.stdin)->0;
        let others = rules.walk_from(trees, from + 1, first.lines)->0;
        let given = replies(walked.exchanges) + tail;
        let after = replies(others.exchanges) + tail;
        lemma_first(rules, tree, s.stdin);
        assert(walked.exchanges == first.exchanges + others.exchanges);
        assert(given[0] == ReplyView::Kind(tree.kind()));
        assert(given.skip(1) =~= replies(first.exchanges).skip(1) + after);
        assert(requests(walked.exchanges) =~= seq![RequestView::Classify(tree.path())] + requests(
            first.exchanges,
        ).skip(1) + requests(others.exchanges));
        assert(paths(trees).skip(from as int)[0] == tree.path());
        lemma_asked(s, given);
        let child = s.step().0.replied(given[0]);
        assert(child.rules() == rules);
        lemma_entry(child, tree, after, first);
        let next = child.left(first);
        assert(paths(trees).skip(from as int).skip(1) =~= paths(trees).skip(from as int + 1));
        assert(next.rules() == rules);
        lemma_entries(next, path, trees, from + 1, tail, others);
        assert(next.visited(trees, from + 1, others) =~= end);
        assert(s.dialogue(given).0 =~= requests(walked.exchanges) + end.dialogue(tail).0);
    }
}

impl State {
    /// The state in which the walk of the tree that the next root path leads
    /// to leaves this one.
    pub open spec fn passed(self, tree: Tree, walked: Walked) -> State {
        State { roots: self.roots.skip(1), path: tree.path(), ..self.left(walked) }
    }
}

/// The walk of the tree that the next root path leads to, where the path is
/// asked about.
proof fn lemma_root_asked(s: State, tree: Tree, tail: Seq<ReplyView>, walked: Walked)
    requires
        s.phase == Phase::Walk,
        s.reply is None,
        s.stack.len() == 0,
        s.roots.len() > 0,
        s.roots[0] == tree.path(),
        !s.options.suppress && path_has_root(tree.path()),
        s.rules().root(tree, s.stdin) == Some(walked),
    ensures
        s.dialogue(replies(walked.exchanges) + tail) == continued(
            requests(walked.exchanges),
            s.passed(tree, walked).dialogue(tail),
        ),
{
    let rules = s.rules();
    let path = tree.path();
    let given = replies(walked.exchanges) + tail;
    let end = s.passed(tree, walked);
    let prompt = prompt_text(path, Context::Absolute.reason());
    let n = undecided(s.stdin)->0;
    let (answer, asked) = rules.ask(path, Context::Absolute, s.stdin)->0;
    let asking = s.step().0;
    lemma_silent(s, given);
    lemma_prompted(asking, n, given);
    let deciding = State {
        stdin: asking.stdin.skip(n as int),
        stderr: asking.stderr + repeated(prompt, n),
        ..asking
    };
    assert(deciding.stdin[0] == s.stdin[n as int]);
    assert(deciding.stdin.skip(1) =~= asked.lines);
    assert((s.stderr + prompt) + repeated(prompt, n) =~= s.stderr + repeated(prompt, n + 1));
    if answer == Decision::Skip {
        assert(walked == asked);
        assert(given =~= tail);
        assert(deciding.step().0 =~= end);
        lemma_silent(deciding, tail);
        assert(continued(requests(walked.exchanges), end.dialogue(tail)) =~= end.dialogue(tail));
    } else {
        let under = rules.walk(tree, asked.lines)->0;
        lemma_first(rules, tree, asked.lines);
        assert(walked.exchanges =~= under.exchanges);
        assert(given[0] == ReplyView::Kind(tree.kind()));
        assert(given.skip(1) =~= replies(under.exchanges).skip(1) + tail);
        lemma_asked(deciding, given);
        let child = deciding.step().0.replied(given[0]);
        assert(child.rules() == rules);
        lemma_entry(child, tree, tail, under);
        assert(child.left(under) =~= end);
        assert(requests(walked.exchanges) =~= seq![RequestView::Classify(path)] + requests(
            under.exchanges,
        ).skip(1));
        assert(s.dialogue(given).0 =~= requests(walked.exchanges) + end.dialogue(tail).0);
    }
}

/// The walk of the tree that the next root path leads to.
proof fn lemma_root(s: State, tree: Tree, tail: Seq<ReplyView>, walked: Walked)
    requires
        s.phase == Phase::Walk,
        s.reply is None,
        s.stack.len() == 0,
        s.roots.len() > 0,
        s.roots[0] == tree.path(),
        s.rules().root(tree, s.stdin) == Some(walked),
    ensures
        s.dialogue(replies(walked.exchanges) + tail) == continued(
            requests(walked.exchanges),
            s.passed(tree, walked).dialogue(tail),
        ),
{
    let rules = s.rules();
    let path = tree.path();
    let given = replies(walked.exchanges) + tail;
    let end = s.passed(tree, walked);
    if !s.options.suppress && path_has_root(path) {
        lemma_root_asked(s, tree, tail, walked);
    } else {
        lemma_first(rules, tree, s.stdin);
        assert(given[0] == ReplyView::Kind(tree.kind()));
        assert(given.skip(1) =~= replies(walked.exchanges).skip(1) + tail);
        lemma_asked(s, given);
        let child = s.step().0.replied(given[0]);
        assert(child.rules() == rules);
        lemma_entry(child, tree, tail, walked);
        assert(child.left(walked) =~= end);
        assert(requests(walked.exchanges) =~= seq![RequestView::Classify(path)] + requests(
            walked.exchanges,
        ).skip(1));
        assert(s.dialogue(given).0 =~= requests(walked.exchanges) + end.dialogue(tail).0);
    }
}

/// The walks of the root paths from position `from` on, one after the other,
/// and the end of the run.
#[verifier::rlimit(30)]
proof fn lemma_roots(s: State, trees: Seq<Tree>, from: nat, walked: Walked)
    requires
        s.phase == Phase::Walk,
        s.reply is None,
        s.stack.len() == 0,
        s.roots == paths(trees).skip(from as int),
        from <= trees.len(),
        s.rules().roots_from(trees, from, s.stdin) == Some(walked),
    ensures
        ({
            let (asked, end) = s.dialogue(replies(walked.exchanges));
            &&& asked == requests(walked.exchanges).push(RequestView::Done)
            &&& end.phase == Phase::Done
            &&& end.stdout == s.stdout + walked.output
            &&& end.stderr == s.stderr + walked.errors
            &&& end.stdin == walked.lines
        }),
    decreases trees.len() - from,
{
    let rules = s.rules();
    let given = replies(walked.exchanges);
    if from >= trees.len() {
        assert(given =~= Seq::empty());
        assert(s.roots =~= Seq::empty());
        assert(s.run() == (s.step().0, RequestView::Done));
        assert(requests(walked.exchanges).push(RequestView::Done) =~= seq![RequestView::Done]);
        assert(s.stdout + walked.output =~= s.stdout);
        assert(s.stderr + walked.errors =~= s.stderr);
    } else {
        let tree = trees[from as int];
        let first = rules.root(tree, s.stdin)->0;
        let others = rules.roots_from(trees, from + 1, first.lines)->0;
        let after = replies(others.exchanges);
        assert(walked.exchanges == first.exchanges + others.exchanges);
        assert(given =~= replies(first.exchanges) + after);
        assert(s.roots[0] == tree.path());
        lemma_root(s, tree, after, first);
        let next = s.passed(tree, first);
        assert(next.roots =~= paths(trees).skip(from as int + 1));
        assert(next.rules() == rules);
        lemma_roots(next, trees, from + 1, others);
        let (asked, end) = s.dialogue(given);
        assert(asked =~= requests(walked.exchanges).push(RequestView::Done));
        assert(end.stdout =~= s.stdout + walked.output);
        assert(end.stderr =~= s.stderr + walked.errors);
    }
}

/// A run over a file system that is a given forest, one tree for each root
/// path, with the lines on its input for answers to its prompts, and enough
/// of them.
///
/// With valid options, the run makes exactly the requests of the walks of
/// the trees, one tree after the other, and then ends. It asks about an
/// absolute root path before it looks at it, unless nothing is ever asked,
/// and passes over the path on the answer to skip. It classifies every path
/// that it comes to, lists every directory, walks the entries of a directory
/// in the order in which they are listed, and comes to change a path that is
/// in scope once everything under it has been walked. Where each change is
/// to be confirmed, it asks about the path then, and requests the change
/// only on the answer to proceed. In a dry run it requests no change. What
/// it writes is what the walks write, and it reads the lines that the
/// prompts take, and nothing else. A path that is missing, a directory that
/// cannot be listed and a change that is refused are reported, and the walk
/// goes on behind them.
pub proof fn lemma_walk(
    options: ConfigView,
    lines: Seq<Seq<char>>,
    trees: Seq<Tree>,
    walked: Walked,
)
    requires
        !options.help,
        !options.version,
        State::new(options).fault() is None,
        paths(trees) == options.paths,
        rules_of(options).roots_from(trees, 0, lines) == Some(walked),
    ensures
        ({
            let begin = State { stdin: lines, ..State::new(options) };
            let (asked, end) = begin.dialogue(replies(walked.exchanges));
            &&& asked == requests(walked.exchanges).push(RequestView::Done)
            &&& end.phase == Phase::Done
            &&& end.stdout == walked.output
            &&& end.stderr == walked.errors
            &&& end.stdin == walked.lines
        }),
{
    let begin = State { stdin: lines, ..State::new(options) };
    let walking = begin.step().0;
    assert(walking.rules() == rules_of(options));
    lemma_silent(begin, replies(walked.exchanges));
    assert(paths(trees).skip(0) =~= paths(trees));
    lemma_roots(walking, trees, 0, walked);
    let end = begin.dialogue(replies(walked.exchanges)).1;
    assert(end.stdout =~= walked.output);
    assert(end.stderr =~= walked.errors);
}

/// Where each change is to be confirmed, a path whose prompt is answered
/// with `n` is not changed: the walk asks, acknowledges the answer in a
/// verbose run, and makes no request.
pub proof fn lemma_skipped_path_is_not_changed(
    rules: Rules,
    path: Seq<char>,
    mode: Mode,
    refusal: Option<Seq<char>>,
    lines: Seq<Seq<char>>,
)
    requires
        rules.confirm,
        lines.len() > 0,
        decision(lines[0]) == Some(Decision::Skip),
    ensures
        rules.touch(path, Some(mode), refusal, lines) == Some(
            Walked {
                exchanges: Seq::empty(),
                output: Seq::empty(),
                errors: prompt_text(path, Context::Interactive.reason()) + (if rules.verbose {
                    "Skipped.\n"@
                } else {
                    Seq::empty()
                }),
                lines: lines.skip(1),
            },
        ),
{
    reveal_with_fuel(repeated, 2);
    let prompt = prompt_text(path, Context::Interactive.reason());
    assert(repeated(prompt, 1) =~= prompt);
}

/// Whether no request of the stretch is one to change a mode.
pub open spec fn changes_nothing(walked: Walked) -> bool {
    forall|i: int|
        0 <= i < walked.exchanges.len() ==> !((#[trigger] walked.exchanges[i]).0 is Change)
}

/// In a dry run the walk of a tree requests no change.
proof fn lemma_dry_tree(rules: Rules, tree: Tree, lines: Seq<Seq<char>>)
    requires
        rules.dry_run,
    ensures
        rules.walk(tree, lines) matches Some(walked) ==> changes_nothing(walked),
    decreases tree, 0nat,
{
    match tree {
        Tree::Directory { path, entries, refusal } => {
            lemma_dry_trees(rules, entries, 0, lines);
        },
        _ => {},
    }
}

/// In a dry run the walks of the trees from position `from` on request no
/// change.
proof fn lemma_dry_trees(rules: Rules, trees: Seq<Tree>, from: nat, lines: Seq<Seq<char>>)
    requires
        rules.dry_run,
    ensures
        rules.walk_from(trees, from, lines) matches Some(walked) ==> changes_nothing(walked),
    decreases trees, trees.len() - from,
{
    if from < trees.len() {
        lemma_dry_tree(rules, trees[from as int], lines);
        if let Some(first) = rules.walk(trees[from as int], lines) {
            lemma_dry_trees(rules, trees, from + 1, first.lines);
        }
    }
}

/// In a dry run no change of a mode is requested for any path, and every
/// path that comes to be changed is reported as one that would be changed:
/// at once where no confirmation is asked for.
pub proof fn lemma_dry_run_changes_nothing(
    rules: Rules,
    trees: Seq<Tree>,
    from: nat,
    lines: Seq<Seq<char>>,
)
    requires
        rules.dry_run,
    ensures
        rules.roots_from(trees, from, lines) matches Some(walked) ==> changes_nothing(walked),
        forall|path: Seq<char>, mode: Mode, refusal: Option<Seq<char>>|
            !rules.confirm ==> #[trigger] rules.touch(path, Some(mode), refusal, lines) == Some(
                Walked {
                    exchanges: Seq::empty(),
                    output: result_text(path, "will be changed"@),
                    errors: Seq::empty(),
                    lines,
                },
            ),
    decreases trees.len() - from,
{
    if from < trees.len() {
        let tree = trees[from as int];
        lemma_dry_tree(rules, tree, lines);
        if let Some(first) = rules.root(tree, lines) {
            lemma_dry_run_changes_nothing(rules, trees, from + 1, first.lines);
            if !rules.suppress && path_has_root(tree.path()) {
                let (answer, asked) = rules.ask(tree.path(), Context::Absolute, lines)->0;
                lemma_dry_tree(rules, tree, asked.lines);
            }
        }
    }
}

/// An absolute root path is asked about once, before anything else is done
/// with it, and what lies under it is walked as it is under any other path:
/// where the first line decides, the prompt is written once, and on the
/// answer to proceed the walk of the tree follows.
pub proof fn lemma_absolute_root_is_asked_about_once(
    rules: Rules,
    tree: Tree,
    lines: Seq<Seq<char>>,
)
    requires
        !rules.suppress,
        path_has_root(tree.path()),
        lines.len() > 0,
        decision(lines[0]) is Some,
    ensures
        ({
            let asked = Walked {
                exchanges: Seq::empty(),
                output: Seq::empty(),
                errors: prompt_text(tree.path(), Context::Absolute.reason()),
                lines: lines.skip(1),
            };
            &&& decision(lines[0]) == Some(Decision::Proceed) ==> rules.root(tree, lines)
                == asked.before(rules.walk(tree, lines.skip(1)))
            &&& decision(lines[0]) == Some(Decision::Skip) ==> rules.root(tree, lines) == Some(
                Walked {
                    errors: asked.errors + (if rules.verbose {
                        "Skipped.\n"@
                    } else {
                        Seq::empty()
                    }),
                    ..asked
                },
            )
        }),
{
    reveal_with_fuel(repeated, 2);
    let prompt = prompt_text(tree.path(), Context::Absolute.reason());
    assert(repeated(prompt, 1) =~= prompt);
    assert(prompt + Seq::<char>::empty() =~= prompt);
}

} // verus!
