//! Reading a yes-or-no response: a line is trimmed of whitespace and compared
//! without regard to case.
use crate::text::chars_of;
use vstd::prelude::*;

verus! {

/// What a response to a prompt decides.
#[derive(Clone, Copy, Debug, PartialEq, Eq, Structural)]
pub enum Decision {
    /// The response was `y`: go on with the path.
    Proceed,
    /// The response was `n`: leave the path alone.
    Skip,
}

/// Whether `c` is a whitespace character: one of the code points with the
/// Unicode property White_Space.
pub open spec fn is_whitespace(c: char) -> bool {
    let n = c as u32;
    ||| 0x09 <= n <= 0x0D
    ||| n == 0x20
    ||| n == 0x85
    ||| n == 0xA0
    ||| n == 0x1680
    ||| 0x2000 <= n <= 0x200A
    ||| n == 0x2028
    ||| n == 0x2029
    ||| n == 0x202F
    ||| n == 0x205F
    ||| n == 0x3000
}

/// `text` without its leading whitespace.
pub open spec fn trim_start(text: Seq<char>) -> Seq<char>
    decreases text.len(),
{
    if text.len() > 0 && is_whitespace(text.first()) {
        trim_start(text.drop_first())
    } else {
        text
    }
}

/// `text` without its trailing whitespace.
pub open spec fn trim_end(text: Seq<char>) -> Seq<char>
    decreases text.len(),
{
    if text.len() > 0 && is_whitespace(text.last()) {
        trim_end(text.drop_last())
    } else {
        text
    }
}

/// `text` without its leading and trailing whitespace.
pub open spec fn trim(text: Seq<char>) -> Seq<char> {
    trim_end(trim_start(text))
}

/// What the response `line` decides: once trimmed, the letter `y` in either
/// case proceeds and the letter `n` in either case skips. Any other response
/// decides nothing.
pub open spec fn decision(line: Seq<char>) -> Option<Decision> {
    let word = trim(line);
    if word.len() == 1 && (word[0] == 'y' || word[0] == 'Y') {
        Some(Decision::Proceed)
    } else if word.len() == 1 && (word[0] == 'n' || word[0] == 'N') {
        Some(Decision::Skip)
    } else {
        None
    }
}

/// Tells whether `c` is a whitespace character.
pub fn whitespace(c: char) -> (yes: bool)
    ensures
        yes == is_whitespace(c),
{
    let n: u32 = c as u32;
    (0x09 <= n && n <= 0x0D) || n == 0x20 || n == 0x85 || n == 0xA0 || n == 0x1680 || (0x2000 <= n
        && n <= 0x200A) || n == 0x2028 || n == 0x2029 || n == 0x202F || n == 0x205F || n == 0x3000
}

/// Decides what the response `line` asks for.
pub fn decide(line: &str) -> (decided: Option<Decision>)
    ensures
        decided == decision(line@),
{
    let chars = chars_of(line);
    let len = chars.len();
    let mut start: usize = 0;
    assert(line@.skip(0) =~= line@);
    while start < len && whitespace(chars[start])
        invariant
            start <= len,
            len == line@.len(),
            chars@ == line@,
            trim_start(line@) == trim_start(line@.skip(start as int)),
        decreases len - start,
    {
        proof {
            assert(line@.skip(start as int).drop_first() =~= line@.skip(start + 1));
        }
        start += 1;
    }
    assert(trim_start(line@) == line@.skip(start as int));
    let mut end: usize = len;
    while end > start && whitespace(chars[end - 1])
        invariant
            start <= end <= len,
            len == line@.len(),
            chars@ == line@,
            trim(line@) == trim_end(line@.subrange(start as int, end as int)),
        decreases end - start,
    {
        proof {
            assert(line@.subrange(start as int, end as int).drop_last() =~= line@.subrange(
                start as int,
                end - 1,
            ));
        }
        end -= 1;
    }
    assert(trim(line@) == line@.subrange(start as int, end as int));
    if end - start != 1 {
        return None;
    }
    let c = chars[start];
    if c == 'y' || c == 'Y' {
        Some(Decision::Proceed)
    } else if c == 'n' || c == 'N' {
        Some(Decision::Skip)
    } else {
        None
    }
}

} // verus!
