//! How many publishing days are asked for.

use crate::view;
use vstd::prelude::*;

verus! {

/// A number of publishing days, or all of them.
#[derive(Debug, Clone, Copy, PartialEq, Eq, Structural)]
pub enum ShowDays {
    Days(usize),
    All,
}

/// Whether `c` is one of the ten decimal digits.
pub open spec fn is_digit(c: char) -> bool {
    '0' <= c <= '9'
}

/// The number that a run of decimal digits writes.
pub open spec fn digits_value(digits: Seq<char>) -> nat
    decreases digits.len(),
{
    if digits.len() == 0 {
        0
    } else {
        (digits_value(digits.drop_last()) * 10 + (digits.last() as u32 - '0' as u32)) as nat
    }
}

/// The text without the plus sign that may lead it.
pub open spec fn without_plus(text: Seq<char>) -> Seq<char> {
    if text.len() > 0 && text[0] == '+' {
        text.subrange(1, text.len() as int)
    } else {
        text
    }
}

/// The number that `text` writes in decimal digits, with or without a plus
/// sign before them; nothing where it is anything else.
pub open spec fn decimal_number(text: Seq<char>) -> Option<nat> {
    let digits = without_plus(text);
    if digits.len() > 0 && forall|i: int| 0 <= i < digits.len() ==> is_digit(#[trigger] digits[i]) {
        Some(digits_value(digits))
    } else {
        None
    }
}

/// Whether `text` is the word "all" in small or capital letters.
pub open spec fn is_all_word(text: Seq<char>) -> bool {
    &&& text.len() == 3
    &&& (text[0] == 'a' || text[0] == 'A')
    &&& (text[1] == 'l' || text[1] == 'L')
    &&& (text[2] == 'l' || text[2] == 'L')
}

/// What `text` asks for: all days, a number of days that fits the machine's
/// word, or nothing that can be understood.
pub open spec fn show_days_of(text: Seq<char>) -> Option<ShowDays> {
    if is_all_word(text) {
        Some(ShowDays::All)
    } else {
        match decimal_number(text) {
            Some(days) => if days <= usize::MAX {
                Some(ShowDays::Days(days as usize))
            } else {
                None
            },
            None => None,
        }
    }
}

/// The character that writes the digit `d`.
pub open spec fn digit_char(d: nat) -> char {
    if d == 0 {
        '0'
    } else if d == 1 {
        '1'
    } else if d == 2 {
        '2'
    } else if d == 3 {
        '3'
    } else if d == 4 {
        '4'
    } else if d == 5 {
        '5'
    } else if d == 6 {
        '6'
    } else if d == 7 {
        '7'
    } else if d == 8 {
        '8'
    } else {
        '9'
    }
}

/// The decimal digits that write `n`, without leading zeros.
pub open spec fn decimal_digits(n: nat) -> Seq<char>
    decreases n,
{
    if n < 10 {
        seq![digit_char(n)]
    } else {
        decimal_digits(n / 10).push(digit_char(n % 10))
    }
}

/// How a number of days, or all of them, is written.
pub open spec fn show_days_text(days: ShowDays) -> Seq<char> {
    match days {
        ShowDays::Days(d) => decimal_digits(d as nat),
        ShowDays::All => "all"@,
    }
}

/// `usize::to_string`: the number in decimal digits, without a sign and
/// without leading zeros.
#[verifier::external_body]
fn decimal_text(n: usize) -> (r: String)
    ensures
        r@ == decimal_digits(n as nat),
{
    n.to_string()
}

/// What is said of a text that asks for nothing that can be understood.
pub open spec fn invalid_since_message(text: Seq<char>) -> Seq<char> {
    "Invalid value for since: '"@ + text + "'. Use a positive integer or 'start'."@
}

/// `format!`: the message about `s`, put together from its three parts.
#[verifier::external_body]
fn format_invalid_since(s: &str) -> (r: String)
    ensures
        r@ == invalid_since_message(s@),
{
    format!("Invalid value for since: '{}'. Use a positive integer or 'start'.", s)
}

/// A run of digits is worth no less than any of its beginnings.
proof fn lemma_digits_value_grows(digits: Seq<char>, n: int)
    requires
        0 <= n <= digits.len(),
        forall|i: int| 0 <= i < digits.len() ==> is_digit(#[trigger] digits[i]),
    ensures
        digits_value(digits.subrange(0, n)) <= digits_value(digits),
    decreases digits.len() - n,
{
    if n == digits.len() {
        assert(digits.subrange(0, n) == digits);
    } else {
        lemma_digits_value_grows(digits, n + 1);
        let longer = digits.subrange(0, n + 1);
        assert(longer.drop_last() == digits.subrange(0, n));
    }
}

/// The number that `s` writes, where it writes one that fits the machine's
/// word.
fn parse_days(s: &str) -> (r: Option<usize>)
    ensures
        r == match decimal_number(s@) {
            Some(days) => if days <= usize::MAX {
                Some(days as usize)
            } else {
                None
            },
            None => None::<usize>,
        },
{
    let len: usize = s.unicode_len();
    let start: usize = if len > 0 && s.get_char(0) == '+' {
        1
    } else {
        0
    };
    if start == len {
        return None;
    }
    let ghost digits = without_plus(s@);
    let mut value: usize = 0;
    let mut i: usize = start;
    while i < len
        invariant
            start <= i <= len,
            len == s@.len(),
            digits == without_plus(s@),
            digits.len() == len - start,
            forall|j: int| 0 <= j < digits.len() ==> digits[j] == s@[j + start],
            forall|j: int| 0 <= j < i - start ==> is_digit(#[trigger] digits[j]),
            value == digits_value(digits.subrange(0, i - start)),
        decreases len - i,
    {
        let c: char = s.get_char(i);
        if !(c >= '0' && c <= '9') {
            assert(!is_digit(digits[i - start]));
            return None;
        }
        let d: usize = (c as u32 - '0' as u32) as usize;
        let ghost longer = digits.subrange(0, i - start + 1);
        assert(longer.drop_last() == digits.subrange(0, i - start));
        assert(longer.last() == c);
        if value > (usize::MAX - d) / 10 {
            proof {
                if decimal_number(s@) is Some {
                    lemma_digits_value_grows(digits, i - start + 1);
                }
            }
            return None;
        }
        value = value * 10 + d;
        i += 1;
    }
    assert(digits.subrange(0, i - start) == digits);
    Some(value)
}

impl ShowDays {
    /// Reads "all", in small or capital letters, or a number of days.
    pub fn parse(s: &str) -> (r: Result<ShowDays, String>)
        ensures
            match r {
                Ok(days) => show_days_of(s@) == Some(days),
                Err(message) => show_days_of(s@) is None && message@ == invalid_since_message(s@),
            },
    {
        let len: usize = s.unicode_len();
        if len == 3 {
            let a: char = s.get_char(0);
            let l: char = s.get_char(1);
            let m: char = s.get_char(2);
            if (a == 'a' || a == 'A') && (l == 'l' || l == 'L') && (m == 'l' || m == 'L') {
                return Ok(ShowDays::All);
            }
        }
        match parse_days(s) {
            Some(days) => Ok(ShowDays::Days(days)),
            None => Err(format_invalid_since(s)),
        }
    }

    /// The text that `parse` reads as these days: the number in decimal
    /// digits, or "all".
    pub fn to_text(&self) -> (r: String)
        ensures
            r@ == show_days_text(*self),
    {
        match self {
            ShowDays::Days(days) => decimal_text(*days),
            ShowDays::All => "all".to_owned(),
        }
    }

    /// The number of days asked for; none stands for all of them.
    pub fn to_option(&self) -> (r: Option<usize>)
        ensures
            r == match *self {
                ShowDays::Days(d) => Some(d),
                ShowDays::All => None,
            },
    {
        match self {
            ShowDays::Days(d) => Some(*d),
            ShowDays::All => None,
        }
    }

    /// The smallest view that covers the days asked for; none for no days.
    pub fn to_view(&self) -> (r: Option<view::View>)
        ensures
            r == match *self {
                ShowDays::Days(d) => if d == 0 {
                    None
                } else if d == 1 {
                    Some(view::View::TODAY)
                } else if d <= 90 {
                    Some(view::View::HistDays90)
                } else {
                    Some(view::View::HistDaysAll)
                },
                ShowDays::All => Some(view::View::HistDaysAll),
            },
    {
        match self {
            ShowDays::Days(d) => {
                if *d == 0 {
                    None
                } else if *d == 1 {
                    Some(view::View::TODAY)
                } else if *d <= 90 {
                    Some(view::View::HistDays90)
                } else {
                    Some(view::View::HistDaysAll)
                }
            },
            ShowDays::All => Some(view::View::HistDaysAll),
        }
    }
}

/// The digits that write a number are digits, and write that number.
pub proof fn lemma_decimal_digits_value(n: nat)
    ensures
        decimal_digits(n).len() > 0,
        forall|i: int| 0 <= i < decimal_digits(n).len() ==> is_digit(#[trigger] decimal_digits(n)[i]),
        digits_value(decimal_digits(n)) == n,
    decreases n,
{
    reveal_with_fuel(digits_value, 2);
    if n < 10 {
        assert(decimal_digits(n).drop_last().len() == 0);
    } else {
        lemma_decimal_digits_value(n / 10);
        assert(decimal_digits(n).drop_last() == decimal_digits(n / 10));
    }
}

/// What is written of a number of days, or of all of them, is read back as
/// the same.
pub proof fn lemma_show_days_round_trip(days: ShowDays)
    ensures
        show_days_of(show_days_text(days)) == Some(days),
{
    match days {
        ShowDays::Days(d) => {
            lemma_decimal_digits_value(d as nat);
            let digits = decimal_digits(d as nat);
            assert(is_digit(digits[0]));
            assert(without_plus(digits) == digits);
            if digits.len() == 3 {
                assert(is_digit(digits[1]));
            }
        },
        ShowDays::All => {
            reveal_strlit("all");
        },
    }
}

impl std::str::FromStr for ShowDays {
    type Err = String;

    fn from_str(s: &str) -> (r: Result<Self, Self::Err>)
        ensures
            match r {
                Ok(days) => show_days_of(s@) == Some(days),
                Err(message) => show_days_of(s@) is None && message@ == invalid_since_message(s@),
            },
    {
        ShowDays::parse(s)
    }
}

} // verus!
