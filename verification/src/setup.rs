//! The setting up of the plugin: how much it logs.
use std::str::FromStr;

use vstd::prelude::*;

verus! {

/// How much is logged.
#[derive(Debug, Clone, Copy, PartialEq, Eq, Structural)]
pub enum LogLevel {
    Error,
    Warn,
    Info,
    Debug,
    Trace,
}

/// Whether a character is a decimal digit.
pub open spec fn is_digit(c: char) -> bool {
    '0' <= c <= '9'
}

/// The number that a sequence of decimal digits stands for.
pub open spec fn number_of_digits(digits: Seq<char>) -> nat
    decreases digits.len(),
{
    if digits.len() == 0 {
        0
    } else {
        number_of_digits(digits.drop_last()) * 10 + (digits.last() as nat - '0' as nat) as nat
    }
}

/// Whether each of these characters is a decimal digit.
pub open spec fn all_digits(text: Seq<char>) -> bool {
    forall|i: int| 0 <= i < text.len() ==> is_digit(#[trigger] text[i])
}

/// Whether `text` is the number `n` in decimal digits, with or without a plus sign before them.
pub open spec fn is_number(text: Seq<char>, n: nat) -> bool {
    let digits = if text.len() > 0 && text[0] == '+' {
        text.skip(1)
    } else {
        text
    };
    &&& digits.len() > 0
    &&& all_digits(digits)
    &&& number_of_digits(digits) == n
}

/// A letter from A to Z as a small letter; any other character as it is.
pub open spec fn ascii_lower(c: char) -> char {
    if 'A' <= c <= 'Z' {
        (c as u32 + 32) as char
    } else {
        c
    }
}

/// Whether two texts are equal where the letters from A to Z count as small.
pub open spec fn equal_ignoring_case(a: Seq<char>, b: Seq<char>) -> bool {
    &&& a.len() == b.len()
    &&& forall|i: int| 0 <= i < a.len() ==> ascii_lower(#[trigger] a[i]) == ascii_lower(b[i])
}

/// The level that a text stands for: one of five names in whatever case, or a number from 1 to 5.
pub open spec fn level_of(text: Seq<char>) -> Option<LogLevel> {
    if is_number(text, 1) || equal_ignoring_case(text, "error"@) {
        Some(LogLevel::Error)
    } else if is_number(text, 2) || equal_ignoring_case(text, "warn"@) {
        Some(LogLevel::Warn)
    } else if is_number(text, 3) || equal_ignoring_case(text, "info"@) {
        Some(LogLevel::Info)
    } else if is_number(text, 4) || equal_ignoring_case(text, "debug"@) {
        Some(LogLevel::Debug)
    } else if is_number(text, 5) || equal_ignoring_case(text, "trace"@) {
        Some(LogLevel::Trace)
    } else {
        None
    }
}

/// Reads a level from a text.
///
/// Stands on `tracing::Level::from_str`, which takes a number from 1 (errors only) to 5
/// (everything) as `usize` reads it, and the five names of levels without regard to ASCII case;
/// on any other text it fails.
#[verifier::external_body]
pub(crate) fn parse_level(text: &str) -> (level: Option<LogLevel>)
    ensures
        level == level_of(text@),
{
    match tracing::Level::from_str(text) {
        Ok(tracing::Level::ERROR) => Some(LogLevel::Error),
        Ok(tracing::Level::WARN) => Some(LogLevel::Warn),
        Ok(tracing::Level::INFO) => Some(LogLevel::Info),
        Ok(tracing::Level::DEBUG) => Some(LogLevel::Debug),
        Ok(_) => Some(LogLevel::Trace),
        Err(_) => None,
    }
}

/// How much is logged, given what the environment variable `FOOOCUS_PLUGIN_LOG` holds:
/// informative messages where there is no such variable. Gives nothing where the variable holds
/// what is no level.
pub fn log_level(asked: Option<&str>) -> (level: Option<LogLevel>)
    ensures
        level == match asked {
            Some(text) => level_of(text@),
            None => Some(LogLevel::Info),
        },
{
    match asked {
        Some(text) => parse_level(text),
        None => Some(LogLevel::Info),
    }
}

/// The numbers from 1 to 5 stand for the levels from errors only to everything, whatever sign or
/// zeros stand before them, and no other number stands for a level.
pub proof fn law_levels_are_numbered(text: Seq<char>, n: nat)
    requires
        is_number(text, n),
    ensures
        level_of(text) == if n == 1 {
            Some(LogLevel::Error)
        } else if n == 2 {
            Some(LogLevel::Warn)
        } else if n == 3 {
            Some(LogLevel::Info)
        } else if n == 4 {
            Some(LogLevel::Debug)
        } else if n == 5 {
            Some(LogLevel::Trace)
        } else {
            None
        },
{
    reveal_strlit("error");
    reveal_strlit("warn");
    reveal_strlit("info");
    reveal_strlit("debug");
    reveal_strlit("trace");
    let digits = if text[0] == '+' {
        text.skip(1)
    } else {
        text
    };
    assert(is_digit(digits[0]));
    assert(text[0] == '+' || is_digit(text[0]));
    assert(ascii_lower(text[0]) == text[0]);
    assert(ascii_lower("error"@[0]) == 'e');
    assert(ascii_lower("warn"@[0]) == 'w');
    assert(ascii_lower("info"@[0]) == 'i');
    assert(ascii_lower("debug"@[0]) == 'd');
    assert(ascii_lower("trace"@[0]) == 't');
}

/// Zeros and a plus sign before a number leave it as it is, and one more digit makes it ten times
/// as large and adds the digit.
pub proof fn law_numbers_are_decimal(digits: Seq<char>, digit: char)
    requires
        is_digit(digit),
        digits.len() > 0,
        all_digits(digits),
    ensures
        is_number(digits, number_of_digits(digits)),
        is_number(seq!['+'] + digits, number_of_digits(digits)),
        number_of_digits(seq!['0'] + digits) == number_of_digits(digits),
        number_of_digits(digits.push(digit)) == 10 * number_of_digits(digits) + (digit as int
            - '0' as int),
    decreases digits.len(),
{
    assert(is_digit(digits[0]));
    assert((seq!['+'] + digits).skip(1) =~= digits);
    assert(digits.push(digit).drop_last() =~= digits);
    let longer = seq!['0'] + digits;
    assert(longer.drop_last() =~= seq!['0'] + digits.drop_last());
    assert(longer.last() == digits.last());
    if digits.len() > 1 {
        let before = digits.drop_last();
        assert forall|i: int| 0 <= i < before.len() implies is_digit(#[trigger] before[i]) by {
            assert(is_digit(digits[i]));
        }
        law_numbers_are_decimal(before, digit);
    } else {
        assert(seq!['0'] + digits.drop_last() =~= seq!['0']);
        assert(seq!['0'].drop_last() =~= Seq::empty());
        assert(number_of_digits(seq!['0'].drop_last()) == 0);
        assert(seq!['0'].last() == '0');
        assert(number_of_digits(seq!['0']) == 0);
        assert(number_of_digits(digits.drop_last()) == 0);
    }
}

/// The five names of levels stand for them in whatever case they are written.
pub proof fn law_levels_are_named(text: Seq<char>)
    ensures
        equal_ignoring_case(text, "error"@) ==> level_of(text) == Some(LogLevel::Error),
        equal_ignoring_case(text, "warn"@) ==> level_of(text) == Some(LogLevel::Warn),
        equal_ignoring_case(text, "info"@) ==> level_of(text) == Some(LogLevel::Info),
        equal_ignoring_case(text, "debug"@) ==> level_of(text) == Some(LogLevel::Debug),
        equal_ignoring_case(text, "trace"@) ==> level_of(text) == Some(LogLevel::Trace),
{
    reveal_strlit("error");
    reveal_strlit("warn");
    reveal_strlit("info");
    reveal_strlit("debug");
    reveal_strlit("trace");
    assert(ascii_lower("error"@[0]) == 'e');
    assert(ascii_lower("warn"@[0]) == 'w');
    assert(ascii_lower("info"@[0]) == 'i');
    assert(ascii_lower("debug"@[0]) == 'd');
    assert(ascii_lower("trace"@[0]) == 't');
    assert forall|n: nat| #[trigger] is_number(text, n) implies text[0] == '+' || is_digit(
        text[0],
    ) by {
        if text[0] != '+' {
            assert(is_digit(text[0]));
        }
    }
    if text.len() > 0 {
        assert(text[0] == '+' || is_digit(text[0]) ==> ascii_lower(text[0]) == text[0]);
    }
}

/// A text that is no number and none of the five names stands for no level.
pub proof fn law_nothing_else_is_a_level(text: Seq<char>)
    requires
        forall|n: nat| 1 <= n <= 5 ==> !#[trigger] is_number(text, n),
        !equal_ignoring_case(text, "error"@),
        !equal_ignoring_case(text, "warn"@),
        !equal_ignoring_case(text, "info"@),
        !equal_ignoring_case(text, "debug"@),
        !equal_ignoring_case(text, "trace"@),
    ensures
        level_of(text) is None,
{
}

} // verus!
