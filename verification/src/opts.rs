//! Defines the options available, as flags on the command line: one mode
//! for every path, and flags that say which kinds of path it is for.
use crate::mode::{is_mode_text, Mode};
use crate::status;
use crate::text::{chars_of, rest, texts, HELP};
use vstd::prelude::*;
use vstd::slice::slice_subrange;

verus! {

/// Used to define a new option flag.
pub struct Option<'a> {
    /// A short option (used with `-`).
    pub short: &'a str,
    /// A long option (used with `--`).
    pub long: &'a str,
    /// A brief description.
    pub description: &'a str,
}

/// Defines the 'dir' option flag.
pub fn dir() -> (flag: Option<'static>)
    ensures
        flag.short@ == "d"@,
        flag.long@ == "dir"@,
        flag.description@ == "Change the mode of directories"@,
{
    Option { short: "d", long: "dir", description: "Change the mode of directories" }
}

/// Defines the 'dry-run' option flag.
pub fn dry_run() -> (flag: Option<'static>)
    ensures
        flag.short@ == "D"@,
        flag.long@ == "dry-run"@,
        flag.description@ == "Do not change any files (verbose)"@,
{
    Option { short: "D", long: "dry-run", description: "Do not change any files (verbose)" }
}

/// Defines the 'file' option flag.
pub fn file() -> (flag: Option<'static>)
    ensures
        flag.short@ == "f"@,
        flag.long@ == "file"@,
        flag.description@ == "Change the mode of files"@,
{
    Option { short: "f", long: "file", description: "Change the mode of files" }
}

/// Defines the 'help' option flag.
pub fn help() -> (flag: Option<'static>)
    ensures
        flag.short@ == "h"@,
        flag.long@ == "help"@,
        flag.description@ == "Output this message"@,
{
    Option { short: "h", long: "help", description: "Output this message" }
}

/// Defines the 'interactive' option flag.
pub fn interactive() -> (flag: Option<'static>)
    ensures
        flag.short@ == "i"@,
        flag.long@ == "interactive"@,
        flag.description@ == "Prompt before changing each file"@,
{
    Option { short: "i", long: "interactive", description: "Prompt before changing each file" }
}

/// Defines the 'suppress' option flag.
pub fn suppress() -> (flag: Option<'static>)
    ensures
        flag.short@ == "s"@,
        flag.long@ == "suppress"@,
        flag.description@ == "Suppress all interaction"@,
{
    Option { short: "s", long: "suppress", description: "Suppress all interaction" }
}

/// Defines the 'verbose' option flag.
pub fn verbose() -> (flag: Option<'static>)
    ensures
        flag.short@ == "v"@,
        flag.long@ == "verbose"@,
        flag.description@ == "Explain what's being done"@,
{
    Option { short: "v", long: "verbose", description: "Explain what's being done" }
}

/// Defines the 'version' option flag.
pub fn version() -> (flag: Option<'static>)
    ensures
        flag.short@ == "V"@,
        flag.long@ == "version"@,
        flag.description@ == "Output version information"@,
{
    Option { short: "V", long: "version", description: "Output version information" }
}

/// The short and the long name of every flag, in the order in which
/// `create` registers them.
pub open spec fn all_flags() -> Seq<(Seq<char>, Seq<char>)> {
    seq![
        ("d"@, "dir"@),
        ("D"@, "dry-run"@),
        ("f"@, "file"@),
        ("h"@, "help"@),
        ("i"@, "interactive"@),
        ("s"@, "suppress"@),
        ("v"@, "verbose"@),
        ("V"@, "version"@),
    ]
}

/// Whether a flag may have these names: the short one is empty or a single
/// ASCII character, the long one is empty or longer than one character, and
/// they are not both empty.
pub open spec fn is_flag_name(short: Seq<char>, long: Seq<char>) -> bool {
    &&& short.len() == 0 || (short.len() == 1 && short[0] <= '\u{7f}')
    &&& long.len() != 1
    &&& short.len() + long.len() > 0
}

/// The names by which the flags can be asked for: every short and every long
/// name that is not empty.
pub open spec fn flag_names(flags: Seq<(Seq<char>, Seq<char>)>) -> Set<Seq<char>> {
    Set::new(
        |name: Seq<char>|
            name.len() > 0 && exists|i: int|
                0 <= i < flags.len() && (#[trigger] flags[i].0 == name || flags[i].1 == name),
    )
}

#[verifier::external_type_specification]
#[verifier::external_body]
pub struct ExOptions(getopts::Options);

#[verifier::external_type_specification]
#[verifier::external_body]
pub struct ExMatches(getopts::Matches);

/// The flags that a set of options holds: the short and the long name of
/// each, in the order of their registration.
pub uninterp spec fn option_flags(options: getopts::Options) -> Seq<(Seq<char>, Seq<char>)>;

/// Whether a set of options holds nothing but flags (options that take no
/// argument and may be given once), each with a name, and parses in the style
/// that a blank set of options has.
pub uninterp spec fn plain_flags(options: getopts::Options) -> bool;

/// The names that can be asked for in the matches: those of the options that
/// were parsed with.
pub uninterp spec fn matches_defined(matches: getopts::Matches) -> Set<Seq<char>>;

/// The names of the options that matched an argument.
pub uninterp spec fn matches_present(matches: getopts::Matches) -> Set<Seq<char>>;

/// The free arguments: those that are no option, in their order.
pub uninterp spec fn matches_free(matches: getopts::Matches) -> Seq<Seq<char>>;

/// What parsing makes of the arguments `args` with the flags `flags`: the
/// names that matched and the free arguments, or the message that tells why
/// the arguments do not conform.
pub uninterp spec fn parse_result(
    flags: Seq<(Seq<char>, Seq<char>)>,
    args: Seq<Seq<char>>,
) -> Result<(Set<Seq<char>>, Seq<Seq<char>>), Seq<char>>;

/// The lowercase equivalent of a text.
pub uninterp spec fn lowercase(text: Seq<char>) -> Seq<char>;

/// `getopts::Options::new`: a blank set of options. It holds no flag, and so
/// nothing but flags.
pub assume_specification[ getopts::Options::new ]() -> (options: getopts::Options)
    ensures
        option_flags(options) == Seq::<(Seq<char>, Seq<char>)>::empty(),
        plain_flags(options),
;

/// `getopts::Options::optflag`: registers an option that is optional and
/// takes no argument, after those already held, and changes nothing else. The
/// crate panics on a short name that is neither empty nor a single byte and
/// on a long name of a single byte, and later, when parsing, on an option
/// without any name.
#[verifier::external_body]
fn optflag(options: &mut getopts::Options, short: &str, long: &str, description: &str)
    requires
        is_flag_name(short@, long@),
    ensures
        option_flags(*final(options)) == option_flags(*old(options)).push((short@, long@)),
        plain_flags(*final(options)) == plain_flags(*old(options)),
{
    options.optflag(short, long, description);
}

/// `getopts::Options::parse`, with a failure turned into its message
/// (`Fail`'s `Display`). Which names match, which arguments are free and
/// which failure is met depends on the options and the arguments alone, and
/// nothing more is said of it here. Every name of the options can be asked
/// for in the matches.
#[verifier::external_body]
fn parse_arguments(options: &getopts::Options, args: &[String]) -> (result: Result<
    getopts::Matches,
    String,
>)
    requires
        plain_flags(*options),
    ensures
        match result {
            Ok(matches) => {
                &&& parse_result(option_flags(*options), texts(args@)) == Ok::<
                    (Set<Seq<char>>, Seq<Seq<char>>),
                    Seq<char>,
                >((matches_present(matches), matches_free(matches)))
                &&& flag_names(option_flags(*options)).subset_of(matches_defined(matches))
            },
            Err(message) => parse_result(option_flags(*options), texts(args@)) == Err::<
                (Set<Seq<char>>, Seq<Seq<char>>),
                Seq<char>,
            >(message@),
        },
{
    match options.parse(args) {
        Ok(matches) => Ok(matches),
        Err(fail) => Err(fail.to_string()),
    }
}

/// `getopts::Matches::opt_present`: whether the option of that name matched.
/// The crate panics on a name that is not defined.
#[verifier::external_body]
fn opt_present(matches: &getopts::Matches, name: &str) -> (present: bool)
    requires
        matches_defined(*matches).contains(name@),
    ensures
        present == matches_present(*matches).contains(name@),
{
    matches.opt_present(name)
}

/// The field `free` of `getopts::Matches`: the free arguments.
#[verifier::external_body]
fn free_arguments(matches: &getopts::Matches) -> (free: &Vec<String>)
    ensures
        texts(free@) == matches_free(*matches),
{
    &matches.free
}

/// `str::to_lowercase`: the lowercase equivalent of the text.
#[verifier::external_body]
fn to_lowercase(text: &str) -> (lower: String)
    ensures
        lower@ == lowercase(text@),
{
    text.to_lowercase()
}

/// `text` without the full stops at its end.
pub open spec fn strip_stops(text: Seq<char>) -> Seq<char>
    decreases text.len(),
{
    if text.len() > 0 && text.last() == '.' {
        strip_stops(text.drop_last())
    } else {
        text
    }
}

/// A message followed, on a line of its own, by where to find help.
pub open spec fn usage_text(message: Seq<char>) -> Seq<char> {
    message + "\n"@ + HELP@
}

/// The message of a failure to parse, as it is shown: in lowercase and
/// without the full stops at its end.
pub open spec fn reworded(message: Seq<char>) -> Seq<char> {
    strip_stops(lowercase(message))
}

/// What is wrong with the options that matched and the free arguments, if
/// anything: `interactive` together with `suppress`; neither `dir` nor
/// `file`; fewer than two free arguments, which are the mode and the paths;
/// a mode that is not numeric.
pub open spec fn fault(present: Set<Seq<char>>, free: Seq<Seq<char>>) -> std::option::Option<
    Seq<char>,
> {
    if present.contains("i"@) && present.contains("s"@) {
        Some(status::MCONFLICT@ + ": '"@ + "interactive"@ + "', '"@ + "suppress"@ + "'"@)
    } else if !present.contains("d"@) && !present.contains("f"@) {
        Some(status::MNOTYPE@ + ": '"@ + "dir"@ + "', '"@ + "file"@ + "'"@)
    } else if free.len() < 2 {
        Some(status::MFREEARGS@)
    } else if !is_mode_text(free[0]) {
        Some(status::MNUMERIC@)
    } else {
        None
    }
}

/// Removes the full stops at the end of `text`.
fn without_stops(text: &str) -> (stripped: &str)
    ensures
        stripped@ == strip_stops(text@),
{
    let chars = chars_of(text);
    let len = chars.len();
    let mut end: usize = len;
    assert(text@.take(len as int) =~= text@);
    while end > 0 && chars[end - 1] == '.'
        invariant
            end <= len,
            len == text@.len(),
            chars@ == text@,
            strip_stops(text@) == strip_stops(text@.take(end as int)),
        decreases end,
    {
        proof {
            assert(text@.take(end as int).drop_last() =~= text@.take(end - 1));
        }
        end -= 1;
    }
    text.substring_char(0, end)
}

/// Appends where to find help to the end of the given message.
fn with_help(message: &str) -> (text: String)
    ensures
        text@ == usage_text(message@),
{
    let mut text = String::from_str(message);
    text.append("\n");
    text.append(HELP);
    text
}

/// Names two options after a message: `<message>: '<first>', '<second>'`.
fn naming(message: &str, first: &str, second: &str) -> (text: String)
    ensures
        text@ == message@ + ": '"@ + first@ + "', '"@ + second@ + "'"@,
{
    let mut text = String::from_str(message);
    text.append(": '");
    text.append(first);
    text.append("', '");
    text.append(second);
    text.append("'");
    text
}

/// Initializes a set of options from the option definitions.
pub fn create() -> (options: getopts::Options)
    ensures
        option_flags(options) == all_flags(),
        plain_flags(options),
{
    proof {
        reveal_strlit("d");
        reveal_strlit("dir");
        reveal_strlit("D");
        reveal_strlit("dry-run");
        reveal_strlit("f");
        reveal_strlit("file");
        reveal_strlit("h");
        reveal_strlit("help");
        reveal_strlit("i");
        reveal_strlit("interactive");
        reveal_strlit("s");
        reveal_strlit("suppress");
        reveal_strlit("v");
        reveal_strlit("verbose");
        reveal_strlit("V");
        reveal_strlit("version");
    }
    let mut options = getopts::Options::new();
    let flag = dir();
    optflag(&mut options, flag.short, flag.long, flag.description);
    let flag = dry_run();
    optflag(&mut options, flag.short, flag.long, flag.description);
    let flag = file();
    optflag(&mut options, flag.short, flag.long, flag.description);
    let flag = help();
    optflag(&mut options, flag.short, flag.long, flag.description);
    let flag = interactive();
    optflag(&mut options, flag.short, flag.long, flag.description);
    let flag = suppress();
    optflag(&mut options, flag.short, flag.long, flag.description);
    let flag = verbose();
    optflag(&mut options, flag.short, flag.long, flag.description);
    let flag = version();
    optflag(&mut options, flag.short, flag.long, flag.description);
    proof {
        assert(option_flags(options) =~= all_flags());
    }
    options
}

/// Turns what the parser returned into what `parse` returns: the matches as
/// they are, and a failure as its message, reworded and followed by where to
/// find help.
pub fn parsed(outcome: Result<getopts::Matches, String>) -> (result: Result<
    getopts::Matches,
    String,
>)
    ensures
        match outcome {
            Ok(matches) => result == Ok::<getopts::Matches, String>(matches),
            Err(message) => result matches Err(text) && text@ == usage_text(reworded(message@)),
        },
{
    match outcome {
        Ok(matches) => Ok(matches),
        Err(message) => {
            let lower = to_lowercase(message.as_str());
            Err(with_help(without_stops(lower.as_str())))
        },
    }
}

/// Parses a set of arguments into a set of matches. The first argument is
/// the name of the program and is passed over.
pub fn parse(args: &Vec<String>, options: &getopts::Options) -> (result: Result<
    getopts::Matches,
    String,
>)
    requires
        plain_flags(*options),
    ensures
        match parse_result(option_flags(*options), rest(texts(args@), 1)) {
            Ok((present, free)) => {
                &&& result matches Ok(matches)
                &&& matches_present(matches) == present
                &&& matches_free(matches) == free
                &&& flag_names(option_flags(*options)).subset_of(matches_defined(matches))
            },
            Err(message) => result matches Err(text) && text@ == usage_text(reworded(message)),
        },
{
    let given = if args.len() > 0 {
        slice_subrange(args.as_slice(), 1, args.len())
    } else {
        args.as_slice()
    };
    proof {
        assert(texts(given@) =~= rest(texts(args@), 1));
    }
    parsed(parse_arguments(options, given))
}

/// The names that `validate` asks for are among those of the flags.
pub proof fn lemma_flags_defined(matches: getopts::Matches)
    requires
        flag_names(all_flags()).subset_of(matches_defined(matches)),
    ensures
        matches_defined(matches).contains("i"@),
        matches_defined(matches).contains("s"@),
        matches_defined(matches).contains("d"@),
        matches_defined(matches).contains("f"@),
{
    reveal_strlit("i");
    reveal_strlit("s");
    reveal_strlit("d");
    reveal_strlit("f");
    let flags = all_flags();
    assert(flags[4].0 == "i"@);
    assert(flags[5].0 == "s"@);
    assert(flags[0].0 == "d"@);
    assert(flags[2].0 == "f"@);
    assert(flag_names(flags).contains("i"@));
    assert(flag_names(flags).contains("s"@));
    assert(flag_names(flags).contains("d"@));
    assert(flag_names(flags).contains("f"@));
}

/// Validate the set of matches.
pub fn validate(matches: &getopts::Matches) -> (result: Result<(), String>)
    requires
        matches_defined(*matches).contains("i"@),
        matches_defined(*matches).contains("s"@),
        matches_defined(*matches).contains("d"@),
        matches_defined(*matches).contains("f"@),
    ensures
        match fault(matches_present(*matches), matches_free(*matches)) {
            Some(message) => result matches Err(text) && text@ == usage_text(message),
            None => result is Ok,
        },
{
    if opt_present(matches, interactive().short) && opt_present(matches, suppress().short) {
        let message = naming(status::MCONFLICT, interactive().long, suppress().long);
        return Err(with_help(message.as_str()));
    }
    if !opt_present(matches, dir().short) && !opt_present(matches, file().short) {
        let message = naming(status::MNOTYPE, dir().long, file().long);
        return Err(with_help(message.as_str()));
    }
    let free = free_arguments(matches);
    if free.len() < 2 {
        return Err(with_help(status::MFREEARGS));
    }
    if Mode::parse(free[0].as_str()).is_err() {
        return Err(with_help(status::MNUMERIC));
    }
    Ok(())
}

} // verus!
