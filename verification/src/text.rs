//! The texts that a run writes: prompts, results and errors.
use vstd::prelude::*;

verus! {

/// Where to find help. It ends every message about a misuse of the options.
pub const HELP: &'static str = "Try '--help' for more information.";

/// The texts of a sequence of strings.
pub open spec fn texts(strings: Seq<String>) -> Seq<Seq<char>> {
    Seq::new(strings.len(), |i: int| strings[i]@)
}

/// The items of `items` from position `from` on; none if there are fewer.
pub open spec fn rest<T>(items: Seq<T>, from: int) -> Seq<T> {
    if 0 <= from <= items.len() {
        items.skip(from)
    } else {
        Seq::empty()
    }
}

/// Whether `path` has a root, which is to say that it is absolute: it begins
/// with `/`.
pub open spec fn path_has_root(path: Seq<char>) -> bool {
    path.len() > 0 && path[0] == '/'
}

/// The prompt that asks whether to go on with `path`, for the given reason:
/// `"<path>" <reason> - continue? [y/n] `.
pub open spec fn prompt_text(path: Seq<char>, reason: Seq<char>) -> Seq<char> {
    "\""@ + path + "\" "@ + reason + " - continue? [y/n] "@
}

/// The line that reports the result `outcome` for `path`:
/// `"<path>": mode <outcome>.`.
pub open spec fn result_text(path: Seq<char>, outcome: Seq<char>) -> Seq<char> {
    "\""@ + path + "\": mode "@ + outcome + ".\n"@
}

/// The line that reports an error on `path`:
/// `Error: <context> "<path>": <detail>`.
pub open spec fn error_text(context: Seq<char>, path: Seq<char>, detail: Seq<char>) -> Seq<char> {
    "Error: "@ + context + " \""@ + path + "\": "@ + detail + "\n"@
}

/// The line that reports the error that ended the run: `Error: <detail>`.
pub open spec fn failure_text(detail: Seq<char>) -> Seq<char> {
    "Error: "@ + detail + "\n"@
}

/// Returns the characters of `text`, in their order.
pub fn chars_of(text: &str) -> (chars: Vec<char>)
    ensures
        chars@ == text@,
{
    let mut chars: Vec<char> = Vec::new();
    for c in it: text.chars()
        invariant
            it.seq() == text@,
            chars@ == it.seq().take(it.index() as int),
    {
        assert(it.seq().take(it.index() + 1) =~= it.seq().take(it.index() as int).push(c));
        chars.push(c);
    }
    assert(chars@ =~= text@);
    chars
}

/// Tells whether `path` has a root.
pub fn has_root(path: &str) -> (rooted: bool)
    ensures
        rooted == path_has_root(path@),
{
    !path.is_empty() && path.get_char(0) == '/'
}

/// Builds the prompt for `path`.
pub fn prompt(path: &str, reason: &str) -> (text: String)
    ensures
        text@ == prompt_text(path@, reason@),
{
    let mut text = String::from_str("\"");
    text.append(path);
    text.append("\" ");
    text.append(reason);
    text.append(" - continue? [y/n] ");
    text
}

/// Builds the line that reports the result `outcome` for `path`.
pub fn result_line(path: &str, outcome: &str) -> (text: String)
    ensures
        text@ == result_text(path@, outcome@),
{
    let mut text = String::from_str("\"");
    text.append(path);
    text.append("\": mode ");
    text.append(outcome);
    text.append(".\n");
    text
}

/// Builds the line that reports an error on `path`.
pub fn error_line(context: &str, path: &str, detail: &str) -> (text: String)
    ensures
        text@ == error_text(context@, path@, detail@),
{
    let mut text = String::from_str("Error: ");
    text.append(context);
    text.append(" \"");
    text.append(path);
    text.append("\": ");
    text.append(detail);
    text.append("\n");
    text
}

/// Builds the line that reports the error that ended the run.
pub fn failure_line(detail: &str) -> (text: String)
    ensures
        text@ == failure_text(detail@),
{
    let mut text = String::from_str("Error: ");
    text.append(detail);
    text.append("\n");
    text
}

} // verus!
