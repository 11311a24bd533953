//! Numeric permission modes: one to four octal digits.
use crate::error::Error;
use vstd::prelude::*;

verus! {

/// The largest permission bits that four octal digits can express.
pub const MODE_MAX: u16 = 0o7777;

/// Whether `c` is one of the digits `0` to `7`.
pub open spec fn is_octal_digit(c: char) -> bool {
    '0' <= c <= '7'
}

/// The number that the octal digit `c` stands for.
pub open spec fn digit_value(c: char) -> int {
    c as int - '0' as int
}

/// Whether `text` is a numeric mode: one to four characters, each an octal digit.
pub open spec fn is_mode_text(text: Seq<char>) -> bool {
    &&& 1 <= text.len() <= 4
    &&& forall|i: int| 0 <= i < text.len() ==> is_octal_digit(#[trigger] text[i])
}

/// The number that the octal digits of `text` denote, most significant digit first.
pub open spec fn octal_value(text: Seq<char>) -> int
    decreases text.len(),
{
    if text.len() == 0 {
        0
    } else {
        8 * octal_value(text.drop_last()) + digit_value(text.last())
    }
}

/// The permission bits of a file or directory.
#[derive(Clone, Copy, Debug, PartialEq, Eq, Structural)]
pub struct Mode {
    bits: u16,
}

impl View for Mode {
    type V = int;

    closed spec fn view(&self) -> int {
        self.bits as int
    }
}

impl Mode {
    /// Whether the bits fit in four octal digits.
    pub open spec fn wf(self) -> bool {
        0 <= self@ <= MODE_MAX
    }

    /// The mode that the numeric mode `text` denotes.
    pub closed spec fn of(text: Seq<char>) -> Mode {
        Mode { bits: octal_value(text) as u16 }
    }

    #[verifier::type_invariant]
    spec fn fits(self) -> bool {
        self.bits <= MODE_MAX
    }

    /// Returns the permission bits.
    pub fn bits(&self) -> (bits: u16)
        ensures
            bits == self@,
            self.wf(),
    {
        proof {
            use_type_invariant(self);
        }
        self.bits
    }

    /// Renders the permission bits as an octal number, without leading zeros.
    pub fn octal(&self) -> (text: String)
        ensures
            text@ == octal_text(self@ as nat),
            self.wf(),
    {
        proof {
            use_type_invariant(self);
            reveal_with_fuel(octal_text, 5);
        }
        let bits = self.bits;
        let mut text = String::new();
        if bits >= 512 {
            text.append(digit(bits / 512));
        }
        if bits >= 64 {
            text.append(digit((bits / 64) % 8));
        }
        if bits >= 8 {
            text.append(digit((bits / 8) % 8));
        }
        text.append(digit(bits % 8));
        proof {
            let n = bits as nat;
            assert(n / 8 / 8 == n / 64);
            assert(n / 8 / 8 / 8 == n / 512);
            assert(text@ =~= octal_text(n));
        }
        text
    }

    /// Parses a numeric mode. The text must be one to four octal digits; any
    /// other length or character is rejected.
    pub fn parse(text: &str) -> (result: Result<Mode, Error>)
        ensures
            result is Ok <==> is_mode_text(text@),
            result matches Ok(mode) ==> mode == Mode::of(text@) && mode.wf() && mode@
                == octal_value(text@),
            result matches Err(error) ==> error == Error::InvalidMode,
    {
        let len = text.unicode_len();
        if len == 0 || len > 4 {
            return Err(Error::InvalidMode);
        }
        let mut bits: u16 = 0;
        let mut i: usize = 0;
        while i < len
            invariant
                0 <= i <= len,
                len == text@.len(),
                len <= 4,
                forall|j: int| 0 <= j < i ==> is_octal_digit(#[trigger] text@[j]),
                bits == octal_value(text@.take(i as int)),
                bits < pow8(i as nat),
            decreases len - i,
        {
            let c = text.get_char(i);
            if c < '0' || c > '7' {
                return Err(Error::InvalidMode);
            }
            let digit: u16 = (c as u32 - '0' as u32) as u16;
            proof {
                assert(text@.take(i + 1).drop_last() =~= text@.take(i as int));
                assert(text@.take(i + 1).last() == c);
                lemma_pow8_small(i as nat);
            }
            bits = bits * 8 + digit;
            i += 1;
        }
        proof {
            assert(text@.take(len as int) =~= text@);
            lemma_pow8_small(len as nat);
        }
        Ok(Mode { bits })
    }
}

/// The octal digit that stands for `value`, which is below eight.
pub open spec fn digit_char(value: nat) -> char {
    if value == 0 {
        '0'
    } else if value == 1 {
        '1'
    } else if value == 2 {
        '2'
    } else if value == 3 {
        '3'
    } else if value == 4 {
        '4'
    } else if value == 5 {
        '5'
    } else if value == 6 {
        '6'
    } else {
        '7'
    }
}

/// The octal digits of `n`, most significant digit first, without leading
/// zeros.
pub open spec fn octal_text(n: nat) -> Seq<char>
    decreases n,
{
    if n < 8 {
        seq![digit_char(n)]
    } else {
        octal_text(n / 8).push(digit_char(n % 8))
    }
}

/// Returns the octal digit that stands for `value`.
fn digit(value: u16) -> (text: &'static str)
    requires
        value < 8,
    ensures
        text@ == seq![digit_char(value as nat)],
{
    proof {
        reveal_strlit("0");
        reveal_strlit("1");
        reveal_strlit("2");
        reveal_strlit("3");
        reveal_strlit("4");
        reveal_strlit("5");
        reveal_strlit("6");
        reveal_strlit("7");
    }
    let text = if value == 0 {
        "0"
    } else if value == 1 {
        "1"
    } else if value == 2 {
        "2"
    } else if value == 3 {
        "3"
    } else if value == 4 {
        "4"
    } else if value == 5 {
        "5"
    } else if value == 6 {
        "6"
    } else {
        "7"
    };
    assert(text@ =~= seq![digit_char(value as nat)]);
    text
}

/// The octal digits of a number denote that number, and each of them is an
/// octal digit.
pub proof fn lemma_octal_text_value(n: nat)
    ensures
        octal_value(octal_text(n)) == n,
        octal_text(n).len() >= 1,
        forall|i: int| 0 <= i < octal_text(n).len() ==> is_octal_digit(#[trigger] octal_text(n)[i]),
        n < 8 ==> octal_text(n).len() == 1,
        8 <= n < 64 ==> octal_text(n).len() == 2,
        64 <= n < 512 ==> octal_text(n).len() == 3,
        512 <= n < 4096 ==> octal_text(n).len() == 4,
    decreases n,
{
    if n < 8 {
        let text = octal_text(n);
        assert(text.drop_last() =~= Seq::<char>::empty());
        assert(octal_value(text.drop_last()) == 0);
        assert(text.last() == digit_char(n));
    } else {
        lemma_octal_text_value(n / 8);
        let head = octal_text(n / 8);
        let text = head.push(digit_char(n % 8));
        assert(text.drop_last() =~= head);
        assert(text.last() == digit_char(n % 8));
        assert(octal_text(n) == text);
        assert forall|i: int| 0 <= i < text.len() implies is_octal_digit(#[trigger] text[i]) by {
            if i < head.len() {
                assert(text[i] == head[i]);
            }
        }
    }
}

/// A numeric mode denotes permission bits that fit in four octal digits.
pub proof fn lemma_mode_text_fits(text: Seq<char>)
    requires
        text.len() <= 4,
        forall|i: int| 0 <= i < text.len() ==> is_octal_digit(#[trigger] text[i]),
    ensures
        0 <= octal_value(text) < pow8(text.len()),
        octal_value(text) <= MODE_MAX,
    decreases text.len(),
{
    lemma_pow8_small(text.len());
    if text.len() > 0 {
        let head = text.drop_last();
        assert forall|i: int| 0 <= i < head.len() implies is_octal_digit(#[trigger] head[i]) by {
            assert(head[i] == text[i]);
        }
        lemma_mode_text_fits(head);
        lemma_pow8_small(head.len());
        assert(is_octal_digit(text[text.len() - 1]));
    }
}

/// Every numeric mode of one to four octal digits parses, and the parsed
/// mode, rendered as octal, is again a numeric mode that parses to the same
/// bits.
pub proof fn lemma_parse_round_trip(text: Seq<char>)
    requires
        is_mode_text(text),
    ensures
        Mode::of(text).wf(),
        Mode::of(text)@ == octal_value(text),
        is_mode_text(octal_text(Mode::of(text)@ as nat)),
        Mode::of(octal_text(Mode::of(text)@ as nat)) == Mode::of(text),
{
    lemma_mode_text_fits(text);
    lemma_octal_text_value(octal_value(text) as nat);
}

/// A text of no character or of more than four, and a text that holds a
/// character other than an octal digit, is no numeric mode.
pub proof fn lemma_not_mode_text(text: Seq<char>)
    requires
        text.len() == 0 || text.len() > 4 || exists|i: int|
            0 <= i < text.len() && !is_octal_digit(#[trigger] text[i]),
    ensures
        !is_mode_text(text),
{
}

/// Eight to the power `n`.
pub open spec fn pow8(n: nat) -> nat
    decreases n,
{
    if n == 0 {
        1
    } else {
        8 * pow8((n - 1) as nat)
    }
}

proof fn lemma_pow8_small(n: nat)
    requires
        n <= 4,
    ensures
        pow8(n) <= 4096,
        n < 4 ==> pow8(n) <= 512,
        pow8(n + 1) == 8 * pow8(n),
{
    reveal_with_fuel(pow8, 6);
}

} // verus!
