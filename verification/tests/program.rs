use chmodrt::config::Config;
use chmodrt::error::Error;
use chmodrt::mode::Mode;
use chmodrt::program::Chmodrt;
use chmodrt::request::{Kind, Reply, Request};
use chmodrt::stream::{Input, Output};
use std::collections::BTreeMap;

/// What a path of the make-believe file system leads to.
enum Node {
    File,
    Directory(Vec<&'static str>),
    Locked,
    ReadOnly,
}

/// A make-believe file system, and what was asked of it.
struct World {
    nodes: BTreeMap<&'static str, Node>,
    requests: Vec<Request>,
    changes: Vec<(String, u16)>,
    lines: usize,
}

impl World {
    fn new(nodes: Vec<(&'static str, Node)>) -> World {
        World { nodes: nodes.into_iter().collect(), requests: Vec::new(), changes: Vec::new(), lines: 0 }
    }

    /// Runs the program to its end, or to the point where it asks for a line
    /// that nobody types. Returns the request at which it stopped.
    fn drive(&mut self, program: &mut Chmodrt) -> Request {
        for _ in 0..1000 {
            let request = program.run();
            let reply = match &request {
                Request::Classify(path) => match self.nodes.get(path.as_str()) {
                    Some(Node::File) | Some(Node::ReadOnly) => Reply::Kind(Kind::File),
                    Some(Node::Directory(_)) | Some(Node::Locked) => Reply::Kind(Kind::Directory),
                    None => Reply::Kind(Kind::Missing),
                },
                Request::List(path) => match self.nodes.get(path.as_str()) {
                    Some(Node::Directory(entries)) => {
                        Reply::Entries(entries.iter().map(|entry| entry.to_string()).collect())
                    }
                    _ => Reply::Failed("Permission denied (os error 13)".to_string()),
                },
                Request::Change(path, mode) => match self.nodes.get(path.as_str()) {
                    Some(Node::ReadOnly) | None => {
                        Reply::Failed("Operation not permitted (os error 1)".to_string())
                    }
                    _ => {
                        self.changes.push((path.clone(), mode.bits()));
                        Reply::Changed
                    }
                },
                _ => return request,
            };
            self.requests.push(request);
            program.reply(reply);
        }
        panic!("the run does not end");
    }

    fn changed(&self) -> Vec<&str> {
        self.changes.iter().map(|(path, _)| path.as_str()).collect()
    }
}

fn config(paths: &[&str]) -> Config {
    Config {
        file: None,
        dir: None,
        dry_run: false,
        interactive: false,
        suppress: false,
        verbose: false,
        help: false,
        version: false,
        paths: paths.iter().map(|path| path.to_string()).collect(),
    }
}

fn lines(lines: &[&str]) -> Input {
    Input::from_lines(lines.iter().map(|line| line.to_string()).collect())
}

/// `root/{a.txt, sub/b.txt}`
fn small_tree() -> World {
    World::new(vec![
        ("root", Node::Directory(vec!["root/a.txt", "root/sub"])),
        ("root/a.txt", Node::File),
        ("root/sub", Node::Directory(vec!["root/sub/b.txt"])),
        ("root/sub/b.txt", Node::File),
    ])
}

fn count(text: &str, part: &str) -> usize {
    text.matches(part).count()
}

#[test]
fn only_files_are_changed_where_only_files_are_in_scope() {
    let mut world = small_tree();
    let mut options = config(&["root"]);
    options.file = Some("644".to_string());
    let mut program = Chmodrt::new(options);
    assert_eq!(world.drive(&mut program), Request::Done);
    assert_eq!(world.changes, vec![("root/a.txt".to_string(), 0o644), ("root/sub/b.txt".to_string(), 0o644)]);
    assert_eq!(program.take_stdout(), "");
    assert_eq!(program.take_stderr(), "");
}

#[test]
fn only_directories_are_changed_where_only_directories_are_in_scope() {
    let mut world = small_tree();
    let mut options = config(&["root"]);
    options.dir = Some("750".to_string());
    let mut program = Chmodrt::new(options);
    assert_eq!(world.drive(&mut program), Request::Done);
    assert_eq!(world.changes, vec![("root/sub".to_string(), 0o750), ("root".to_string(), 0o750)]);
}

#[test]
fn children_come_before_their_parent() {
    let mut world = small_tree();
    let mut options = config(&["root"]);
    options.file = Some("600".to_string());
    options.dir = Some("0700".to_string());
    options.verbose = true;
    let mut program = Chmodrt::new(options);
    assert_eq!(world.drive(&mut program), Request::Done);
    assert_eq!(
        world.changes,
        vec![
            ("root/a.txt".to_string(), 0o600),
            ("root/sub/b.txt".to_string(), 0o600),
            ("root/sub".to_string(), 0o700),
            ("root".to_string(), 0o700),
        ]
    );
    assert_eq!(
        program.take_stdout(),
        "\"root/a.txt\": mode changed.\n\"root/sub/b.txt\": mode changed.\n\"root/sub\": mode changed.\n\"root\": mode changed.\n"
    );
    assert_eq!(program.take_stderr(), "");
}

#[test]
fn the_requests_come_in_the_order_of_the_walk() {
    let mut world = small_tree();
    let mut options = config(&["root"]);
    options.file = Some("644".to_string());
    let mut program = Chmodrt::new(options);
    world.drive(&mut program);
    let mode = Mode::parse("644").unwrap();
    assert_eq!(
        world.requests,
        vec![
            Request::Classify("root".to_string()),
            Request::List("root".to_string()),
            Request::Classify("root/a.txt".to_string()),
            Request::Change("root/a.txt".to_string(), mode),
            Request::Classify("root/sub".to_string()),
            Request::List("root/sub".to_string()),
            Request::Classify("root/sub/b.txt".to_string()),
            Request::Change("root/sub/b.txt".to_string(), mode),
        ]
    );
}

#[test]
fn a_root_that_is_a_file_is_changed() {
    let mut world = small_tree();
    let mut options = config(&["root/a.txt", "root/sub/b.txt"]);
    options.file = Some("4755".to_string());
    let mut program = Chmodrt::new(options);
    assert_eq!(world.drive(&mut program), Request::Done);
    assert_eq!(world.changes, vec![("root/a.txt".to_string(), 0o4755), ("root/sub/b.txt".to_string(), 0o4755)]);
}

#[test]
fn a_root_that_is_a_file_is_left_alone_where_files_are_out_of_scope() {
    let mut world = small_tree();
    let mut options = config(&["root/a.txt"]);
    options.dir = Some("755".to_string());
    let mut program = Chmodrt::new(options);
    assert_eq!(world.drive(&mut program), Request::Done);
    assert!(world.changes.is_empty());
    assert_eq!(program.take_stdout(), "");
    assert_eq!(program.take_stderr(), "");
}

#[test]
fn a_dry_run_changes_nothing_and_reports_every_path_in_scope() {
    let mut world = small_tree();
    let mut options = config(&["root"]);
    options.file = Some("644".to_string());
    options.dir = Some("755".to_string());
    options.dry_run = true;
    let mut program = Chmodrt::new(options);
    assert_eq!(world.drive(&mut program), Request::Done);
    assert!(world.changes.is_empty());
    assert!(world.requests.iter().all(|request| !matches!(request, Request::Change(_, _))));
    assert_eq!(
        program.take_stdout(),
        "\"root/a.txt\": mode will be changed.\n\"root/sub/b.txt\": mode will be changed.\n\"root/sub\": mode will be changed.\n\"root\": mode will be changed.\n"
    );
}

#[test]
fn a_dry_run_reports_only_what_is_in_scope() {
    let mut world = small_tree();
    let mut options = config(&["root"]);
    options.file = Some("644".to_string());
    options.dry_run = true;
    let mut program = Chmodrt::new(options);
    assert_eq!(world.drive(&mut program), Request::Done);
    assert!(world.changes.is_empty());
    assert_eq!(
        program.take_stdout(),
        "\"root/a.txt\": mode will be changed.\n\"root/sub/b.txt\": mode will be changed.\n"
    );
}

#[test]
fn a_path_answered_with_n_is_not_changed() {
    let mut world = small_tree();
    let mut options = config(&["root/a.txt"]);
    options.file = Some("644".to_string());
    options.interactive = true;
    let mut program = Chmodrt::new(options);
    program.stdin(lines(&["n"]));
    assert_eq!(world.drive(&mut program), Request::Done);
    assert!(world.changes.is_empty());
    assert_eq!(world.requests, vec![Request::Classify("root/a.txt".to_string())]);
    assert_eq!(program.take_stderr(), "\"root/a.txt\" mode will be changed - continue? [y/n] ");
    assert_eq!(program.take_stdout(), "");
}

#[test]
fn a_skipped_path_is_told_in_a_verbose_run() {
    let mut world = small_tree();
    let mut options = config(&["root/a.txt"]);
    options.file = Some("644".to_string());
    options.interactive = true;
    options.verbose = true;
    let mut program = Chmodrt::new(options);
    program.stdin(lines(&["N\n"]));
    assert_eq!(world.drive(&mut program), Request::Done);
    assert!(world.changes.is_empty());
    assert_eq!(
        program.take_stderr(),
        "\"root/a.txt\" mode will be changed - continue? [y/n] Skipped.\n"
    );
}

#[test]
fn each_path_is_asked_about_on_its_own() {
    let mut world = small_tree();
    let mut options = config(&["root"]);
    options.file = Some("644".to_string());
    options.dir = Some("755".to_string());
    options.interactive = true;
    let mut program = Chmodrt::new(options);
    program.stdin(lines(&["y\n", "n\n", "n\n", "y\n"]));
    assert_eq!(world.drive(&mut program), Request::Done);
    assert_eq!(world.changed(), vec!["root/a.txt", "root"]);
    let written = program.take_stderr();
    assert_eq!(
        written,
        "\"root/a.txt\" mode will be changed - continue? [y/n] \"root/sub/b.txt\" mode will be changed - continue? [y/n] \"root/sub\" mode will be changed - continue? [y/n] \"root\" mode will be changed - continue? [y/n] "
    );
}

#[test]
fn only_paths_in_scope_are_asked_about() {
    let mut world = small_tree();
    let mut options = config(&["root"]);
    options.file = Some("644".to_string());
    options.interactive = true;
    let mut program = Chmodrt::new(options);
    program.stdin(lines(&["y", "y", "y", "y"]));
    assert_eq!(world.drive(&mut program), Request::Done);
    assert_eq!(world.changed(), vec!["root/a.txt", "root/sub/b.txt"]);
    assert_eq!(count(&program.take_stderr(), "continue?"), 2);
}

#[test]
fn an_answer_that_is_neither_y_nor_n_has_the_prompt_repeated() {
    let mut world = small_tree();
    let mut options = config(&["root/a.txt"]);
    options.file = Some("644".to_string());
    options.interactive = true;
    let mut program = Chmodrt::new(options);
    program.stdin(lines(&["\n", "maybe\n", "yes\n", " Y \n"]));
    assert_eq!(world.drive(&mut program), Request::Done);
    assert_eq!(world.changed(), vec!["root/a.txt"]);
    assert_eq!(count(&program.take_stderr(), "\"root/a.txt\" mode will be changed - continue? [y/n] "), 4);
}

#[test]
fn a_line_is_asked_for_when_none_is_left() {
    let mut world = small_tree();
    let mut options = config(&["root/a.txt"]);
    options.file = Some("644".to_string());
    options.interactive = true;
    let mut program = Chmodrt::new(options);
    assert_eq!(world.drive(&mut program), Request::Line);
    assert_eq!(program.take_stderr(), "\"root/a.txt\" mode will be changed - continue? [y/n] ");
    assert_eq!(program.run(), Request::Line);
    assert_eq!(program.take_stderr(), "");
    program.stdin(lines(&[""]));
    assert_eq!(program.run(), Request::Line);
    assert_eq!(program.take_stderr(), "\"root/a.txt\" mode will be changed - continue? [y/n] ");
    program.stdin(lines(&["y\n"]));
    assert_eq!(world.drive(&mut program), Request::Done);
    assert_eq!(world.changed(), vec!["root/a.txt"]);
}

#[test]
fn an_asked_path_is_only_reported_in_a_dry_run() {
    let mut world = small_tree();
    let mut options = config(&["root/a.txt", "root/sub/b.txt"]);
    options.file = Some("644".to_string());
    options.interactive = true;
    options.dry_run = true;
    let mut program = Chmodrt::new(options);
    program.stdin(lines(&["y", "n"]));
    assert_eq!(world.drive(&mut program), Request::Done);
    assert!(world.changes.is_empty());
    assert_eq!(program.take_stdout(), "\"root/a.txt\": mode will be changed.\n");
}

#[test]
fn an_absolute_root_is_asked_about_once() {
    let mut world = World::new(vec![
        ("/abs", Node::Directory(vec!["/abs/a.txt", "/abs/sub"])),
        ("/abs/a.txt", Node::File),
        ("/abs/sub", Node::Directory(vec!["/abs/sub/b.txt"])),
        ("/abs/sub/b.txt", Node::File),
    ]);
    let mut options = config(&["/abs"]);
    options.file = Some("644".to_string());
    options.dir = Some("755".to_string());
    let mut program = Chmodrt::new(options);
    program.stdin(lines(&["y\n"]));
    assert_eq!(world.drive(&mut program), Request::Done);
    assert_eq!(world.changed(), vec!["/abs/a.txt", "/abs/sub/b.txt", "/abs/sub", "/abs"]);
    let written = program.take_stderr();
    assert_eq!(written, "\"/abs\" is absolute - continue? [y/n] ");
    assert_eq!(count(&written, "is absolute"), 1);
}

#[test]
fn each_absolute_root_is_asked_about() {
    let mut world = World::new(vec![("/a", Node::File), ("/b", Node::File), ("c", Node::File)]);
    let mut options = config(&["/a", "c", "/b"]);
    options.file = Some("644".to_string());
    let mut program = Chmodrt::new(options);
    program.stdin(lines(&["n\n", "y\n"]));
    assert_eq!(world.drive(&mut program), Request::Done);
    assert_eq!(world.changed(), vec!["c", "/b"]);
    assert_eq!(
        program.take_stderr(),
        "\"/a\" is absolute - continue? [y/n] \"/b\" is absolute - continue? [y/n] "
    );
    assert_eq!(world.requests.len(), 4);
}

#[test]
fn an_absolute_root_is_not_asked_about_where_interaction_is_suppressed() {
    let mut world = World::new(vec![("/a", Node::File)]);
    let mut options = config(&["/a"]);
    options.file = Some("644".to_string());
    options.suppress = true;
    let mut program = Chmodrt::new(options);
    assert_eq!(world.drive(&mut program), Request::Done);
    assert_eq!(world.changed(), vec!["/a"]);
    assert_eq!(program.take_stderr(), "");
}

#[test]
fn an_absolute_root_is_asked_about_twice_in_an_interactive_run() {
    let mut world = World::new(vec![("/a", Node::File)]);
    let mut options = config(&["/a"]);
    options.file = Some("644".to_string());
    options.interactive = true;
    let mut program = Chmodrt::new(options);
    program.stdin(lines(&["y", "y"]));
    assert_eq!(world.drive(&mut program), Request::Done);
    assert_eq!(world.changed(), vec!["/a"]);
    assert_eq!(
        program.take_stderr(),
        "\"/a\" is absolute - continue? [y/n] \"/a\" mode will be changed - continue? [y/n] "
    );
}

#[test]
fn a_directory_that_cannot_be_listed_does_not_stop_its_siblings() {
    let mut world = World::new(vec![
        ("root", Node::Directory(vec!["root/sub", "root/other.txt"])),
        ("root/sub", Node::Locked),
        ("root/other.txt", Node::File),
    ]);
    let mut options = config(&["root"]);
    options.file = Some("644".to_string());
    options.dir = Some("755".to_string());
    options.verbose = true;
    let mut program = Chmodrt::new(options);
    let end = world.drive(&mut program);
    assert_eq!(end, Request::Done);
    assert_eq!(end.exit_code(), Some(0));
    assert_eq!(world.changed(), vec!["root/other.txt", "root"]);
    assert_eq!(
        program.take_stderr(),
        "Error: Cannot access \"root/sub\": Permission denied (os error 13)\n"
    );
    assert_eq!(
        program.take_stdout(),
        "\"root/other.txt\": mode changed.\n\"root\": mode changed.\n"
    );
}

#[test]
fn a_change_that_fails_is_reported_and_the_walk_goes_on() {
    let mut world = World::new(vec![
        ("root", Node::Directory(vec!["root/a", "root/b"])),
        ("root/a", Node::ReadOnly),
        ("root/b", Node::File),
    ]);
    let mut options = config(&["root"]);
    options.file = Some("644".to_string());
    options.verbose = true;
    let mut program = Chmodrt::new(options);
    assert_eq!(world.drive(&mut program), Request::Done);
    assert_eq!(world.changed(), vec!["root/b"]);
    assert_eq!(
        program.take_stderr(),
        "Error: Cannot change permissions \"root/a\": Operation not permitted (os error 1)\n"
    );
    assert_eq!(program.take_stdout(), "\"root/b\": mode changed.\n");
}

#[test]
fn a_path_that_leads_nowhere_is_reported_as_not_found() {
    let mut world = small_tree();
    let mut options = config(&["nowhere", "root/a.txt"]);
    options.file = Some("644".to_string());
    let mut program = Chmodrt::new(options);
    assert_eq!(world.drive(&mut program), Request::Done);
    assert_eq!(world.changed(), vec!["root/a.txt"]);
    assert_eq!(program.take_stderr(), "Error: Cannot access \"nowhere\": cannot not be found\n");
}

#[test]
fn no_path_is_no_error() {
    let mut world = small_tree();
    let mut options = config(&[]);
    options.file = Some("644".to_string());
    let mut program = Chmodrt::new(options);
    assert_eq!(world.drive(&mut program), Request::Done);
    assert!(world.requests.is_empty());
    assert_eq!(program.run(), Request::Done);
}

#[test]
fn interactive_and_suppress_conflict_before_any_path_is_touched() {
    let mut world = small_tree();
    let mut options = config(&["root"]);
    options.file = Some("644".to_string());
    options.interactive = true;
    options.suppress = true;
    let mut program = Chmodrt::new(options);
    let end = world.drive(&mut program);
    assert_eq!(end, Request::Failed(Error::Conflict));
    assert_eq!(end.exit_code(), Some(1));
    assert!(world.requests.is_empty());
    assert_eq!(program.take_stderr(), "Error: conflicting options\n");
    assert_eq!(program.run(), Request::Failed(Error::Conflict));
    assert_eq!(program.take_stderr(), "");
}

#[test]
fn a_mode_is_needed() {
    let mut world = small_tree();
    let mut program = Chmodrt::new(config(&["root"]));
    assert_eq!(world.drive(&mut program), Request::Failed(Error::Missing));
    assert!(world.requests.is_empty());
    assert_eq!(program.take_stderr(), "Error: missing type option\n");
}

#[test]
fn an_invalid_mode_ends_the_run_before_any_path_is_touched() {
    for text in ["", "12345", "75x", "rwx", "8"] {
        let mut world = small_tree();
        let mut options = config(&["root"]);
        options.file = Some("644".to_string());
        options.dir = Some(text.to_string());
        let mut program = Chmodrt::new(options);
        assert_eq!(world.drive(&mut program), Request::Failed(Error::InvalidMode));
        assert!(world.requests.is_empty());
        assert_eq!(
            program.take_stderr(),
            "Error: mode must be an octal between one and four digits\n"
        );
    }
}

#[test]
fn help_comes_before_all_else() {
    let mut world = small_tree();
    let mut options = config(&["root"]);
    options.help = true;
    options.version = true;
    options.interactive = true;
    options.suppress = true;
    let mut program = Chmodrt::new(options);
    let end = world.drive(&mut program);
    assert_eq!(end, Request::Help);
    assert_eq!(end.exit_code(), Some(0));
    assert_eq!(program.run(), Request::Help);
    assert_eq!(program.take_stderr(), "");
}

#[test]
fn version_comes_before_the_validation() {
    let mut world = small_tree();
    let mut options = config(&["root"]);
    options.version = true;
    let mut program = Chmodrt::new(options);
    let end = world.drive(&mut program);
    assert_eq!(end, Request::Version);
    assert_eq!(end.exit_code(), Some(0));
    assert!(world.requests.is_empty());
}

#[test]
fn a_request_that_goes_on_has_no_exit_code() {
    let mode = Mode::parse("1").unwrap();
    assert_eq!(Request::Line.exit_code(), None);
    assert_eq!(Request::Classify("a".to_string()).exit_code(), None);
    assert_eq!(Request::List("a".to_string()).exit_code(), None);
    assert_eq!(Request::Change("a".to_string(), mode).exit_code(), None);
    assert_eq!(Request::Failed(Error::Missing).exit_code(), Some(1));
}

#[test]
fn a_request_is_made_again_until_it_is_answered() {
    let mut options = config(&["root"]);
    options.dir = Some("755".to_string());
    let mut program = Chmodrt::new(options);
    assert_eq!(program.run(), Request::Classify("root".to_string()));
    assert_eq!(program.run(), Request::Classify("root".to_string()));
    program.reply(Reply::Changed);
    assert_eq!(program.run(), Request::Classify("root".to_string()));
    program.reply(Reply::Kind(Kind::Directory));
    assert_eq!(program.run(), Request::List("root".to_string()));
    program.reply(Reply::Kind(Kind::File));
    assert_eq!(program.run(), Request::List("root".to_string()));
    program.reply(Reply::Entries(Vec::new()));
    let mode = Mode::parse("755").unwrap();
    assert_eq!(program.run(), Request::Change("root".to_string(), mode));
    assert_eq!(program.run(), Request::Change("root".to_string(), mode));
    program.reply(Reply::Changed);
    assert_eq!(program.run(), Request::Done);
}

#[test]
fn the_streams_can_be_replaced() {
    let mut options = config(&["/a"]);
    options.file = Some("644".to_string());
    options.dry_run = true;
    let mut program = Chmodrt::new(options);
    let mut stderr = Output::new();
    stderr.write("before: ");
    let mut stdout = Output::new();
    stdout.write("first\n");
    program.stderr(stderr).stdout(stdout).stdin(lines(&["y"]));
    assert_eq!(program.run(), Request::Classify("/a".to_string()));
    program.reply(Reply::Kind(Kind::File));
    assert_eq!(program.run(), Request::Done);
    assert_eq!(program.take_stderr(), "before: \"/a\" is absolute - continue? [y/n] ");
    assert_eq!(program.take_stdout(), "first\n\"/a\": mode will be changed.\n");
}

#[test]
fn an_entry_that_leads_nowhere_is_reported_and_the_walk_goes_on() {
    let mut world = World::new(vec![
        ("root", Node::Directory(vec!["root/gone", "root/kept"])),
        ("root/kept", Node::File),
    ]);
    let mut options = config(&["root"]);
    options.file = Some("644".to_string());
    options.dir = Some("755".to_string());
    let mut program = Chmodrt::new(options);
    assert_eq!(world.drive(&mut program), Request::Done);
    assert_eq!(world.changed(), vec!["root/kept", "root"]);
    assert_eq!(program.take_stderr(), "Error: Cannot access \"root/gone\": cannot not be found\n");
}

#[test]
fn an_empty_directory_is_changed() {
    let mut world = World::new(vec![("empty", Node::Directory(vec![]))]);
    let mut options = config(&["empty"]);
    options.dir = Some("700".to_string());
    let mut program = Chmodrt::new(options);
    assert_eq!(world.drive(&mut program), Request::Done);
    assert_eq!(world.changes, vec![("empty".to_string(), 0o700)]);
    assert_eq!(
        world.requests,
        vec![
            Request::Classify("empty".to_string()),
            Request::List("empty".to_string()),
            Request::Change("empty".to_string(), Mode::parse("700").unwrap()),
        ]
    );
}

#[test]
fn a_directory_that_cannot_be_listed_is_not_changed_itself() {
    let mut world = World::new(vec![("locked", Node::Locked), ("free", Node::Directory(vec![]))]);
    let mut options = config(&["locked", "free"]);
    options.dir = Some("755".to_string());
    let mut program = Chmodrt::new(options);
    assert_eq!(world.drive(&mut program), Request::Done);
    assert_eq!(world.changed(), vec!["free"]);
    assert_eq!(
        program.take_stderr(),
        "Error: Cannot access \"locked\": Permission denied (os error 13)\n"
    );
}

#[test]
fn a_skipped_root_is_not_looked_at() {
    let mut world = World::new(vec![("/a", Node::Directory(vec!["/a/b"])), ("/a/b", Node::File)]);
    let mut options = config(&["/a"]);
    options.file = Some("644".to_string());
    options.verbose = true;
    let mut program = Chmodrt::new(options);
    program.stdin(lines(&["what?\n", "n\n", "y\n"]));
    assert_eq!(world.drive(&mut program), Request::Done);
    assert!(world.requests.is_empty());
    assert!(world.changes.is_empty());
    assert_eq!(
        program.take_stderr(),
        "\"/a\" is absolute - continue? [y/n] \"/a\" is absolute - continue? [y/n] Skipped.\n"
    );
}
