//! The language version of a program, and the decimal numbers it is read from.
use vstd::prelude::*;
use vstd::string::*;

use crate::text::push_char;

verus! {

/// The language version that a program's header declares.
#[derive(Debug, PartialEq, Eq, Clone, Copy)]
pub struct LolCodeVersion {
    pub major: i32,
    pub minor: i32,
}

impl From<(i32, i32)> for LolCodeVersion {
    fn from(value: (i32, i32)) -> (version: LolCodeVersion) {
        LolCodeVersion { major: value.0, minor: value.1 }
    }
}

impl vstd::std_specs::convert::FromSpecImpl<(i32, i32)> for LolCodeVersion {
    open spec fn obeys_from_spec() -> bool {
        true
    }

    open spec fn from_spec(value: (i32, i32)) -> LolCodeVersion {
        LolCodeVersion { major: value.0, minor: value.1 }
    }
}

pub open spec fn is_decimal_digit(c: char) -> bool {
    '0' <= c && c <= '9'
}

pub open spec fn all_decimal_digits(digits: Seq<char>) -> bool {
    forall|i: int| 0 <= i < digits.len() ==> is_decimal_digit(#[trigger] digits[i])
}

/// The number that a run of decimal digits writes.
pub open spec fn decimal_value(digits: Seq<char>) -> int
    decreases digits.len(),
{
    if digits.len() == 0 {
        0
    } else {
        10 * decimal_value(digits.drop_last()) + (digits.last() as int - '0' as int)
    }
}

/// The 32-bit integer that `text` writes in decimal: an optional `+` or `-`,
/// then one or more digits and nothing else, with a value in range.
pub open spec fn decimal_i32(text: Seq<char>) -> Option<i32> {
    let signed = text.len() > 0 && (text[0] == '-' || text[0] == '+');
    let digits = if signed {
        text.skip(1)
    } else {
        text
    };
    let value = if signed && text[0] == '-' {
        -decimal_value(digits)
    } else {
        decimal_value(digits)
    };
    if digits.len() > 0 && all_decimal_digits(digits) && i32::MIN <= value <= i32::MAX {
        Some(value as i32)
    } else {
        None
    }
}

/// Reads `word` as a decimal 32-bit integer.
pub fn parse_number(word: &str) -> (value: Option<i32>)
    ensures
        value == decimal_i32(word@),
{
    let mut first = true;
    let mut signed = false;
    let mut negative = false;
    let mut valid = true;
    let mut seen_digit = false;
    let mut exceeded = false;
    let mut magnitude: i64 = 0;
    let ghost text = word@;
    let ghost mut digits: Seq<char> = Seq::empty();
    for c in it: word.chars()
        invariant
            it.seq() == text,
            first == (it.index() == 0),
            signed == (it.index() > 0 && (text[0] == '-' || text[0] == '+')),
            negative == (it.index() > 0 && text[0] == '-'),
            digits == (if signed {
                text.take(it.index()).skip(1)
            } else {
                text.take(it.index())
            }),
            valid == all_decimal_digits(digits),
            seen_digit == (digits.len() > 0),
            valid && !exceeded ==> magnitude == decimal_value(digits) && 0 <= magnitude
                <= 0x8000_0000,
            valid && exceeded ==> decimal_value(digits) > 0x8000_0000,
    {
        let ghost before = digits;
        if first && (c == '-' || c == '+') {
            signed = true;
            negative = c == '-';
            proof {
                digits = Seq::empty();
                assert(text.take(1).skip(1) =~= Seq::<char>::empty());
            }
        } else {
            proof {
                digits = before.push(c);
                if signed {
                    assert(text.take(it.index() + 1).skip(1) =~= text.take(it.index()).skip(1).push(c));
                } else {
                    assert(text.take(it.index() + 1) =~= text.take(it.index()).push(c));
                }
                assert(digits.drop_last() =~= before);
            }
            seen_digit = true;
            if '0' <= c && c <= '9' {
                if valid {
                    proof {
                        assert forall|i: int| 0 <= i < digits.len() implies is_decimal_digit(
                            #[trigger] digits[i],
                        ) by {
                            if i < before.len() {
                                assert(is_decimal_digit(before[i]));
                            }
                        }
                    }
                    if !exceeded {
                        let digit: i64 = (c as u8 - '0' as u8) as i64;
                        let next: i64 = magnitude * 10 + digit;
                        if next > 0x8000_0000 {
                            exceeded = true;
                        } else {
                            magnitude = next;
                        }
                    }
                } else {
                    proof {
                        let bad = choose|i: int| 0 <= i < before.len() && !is_decimal_digit(before[i]);
                        assert(!is_decimal_digit(digits[bad]));
                    }
                }
            } else {
                valid = false;
                proof {
                    assert(!is_decimal_digit(digits[digits.len() - 1]));
                }
            }
        }
        first = false;
    }
    proof {
        assert(text.take(text.len() as int) =~= text);
    }
    if !valid || !seen_digit || exceeded {
        None
    } else if negative {
        Some((-magnitude) as i32)
    } else if magnitude <= 0x7fff_ffff {
        Some(magnitude as i32)
    } else {
        None
    }
}

/// The characters of `text` before its first period, or all of them where
/// it has none.
pub open spec fn before_period(text: Seq<char>) -> Seq<char> {
    match text.index_of_first('.') {
        Some(at) => text.take(at),
        None => text,
    }
}

/// The characters of `text` behind its first period, where it has one.
pub open spec fn after_period(text: Seq<char>) -> Option<Seq<char>> {
    match text.index_of_first('.') {
        Some(at) => Some(text.skip(at + 1)),
        None => None,
    }
}

/// The version that a dotted word such as `1.2` writes, or why it writes
/// none. Only the first two parts are read.
pub open spec fn version_of(text: Seq<char>) -> Result<LolCodeVersion, Seq<char>> {
    match decimal_i32(before_period(text)) {
        None => Err("Unable to parse major part"@),
        Some(major) => match after_period(text) {
            None => Err("Version does not contain minor part"@),
            Some(rest) => match decimal_i32(before_period(rest)) {
                None => Err("Unable to parse minor part"@),
                Some(minor) => Ok(LolCodeVersion { major, minor }),
            },
        },
    }
}

/// The model of a result whose error is a message.
pub open spec fn version_result_view(result: Result<LolCodeVersion, String>) -> Result<
    LolCodeVersion,
    Seq<char>,
> {
    match result {
        Ok(version) => Ok(version),
        Err(message) => Err(message@),
    }
}

proof fn lemma_first_period(text: Seq<char>, at: int)
    requires
        0 <= at < text.len(),
        text[at] == '.',
        forall|j: int| 0 <= j < at ==> text[j] != '.',
    ensures
        text.index_of_first('.') == Some(at),
{
    text.index_of_first_ensures('.');
    assert(text.contains('.'));
}

proof fn lemma_no_period(text: Seq<char>)
    requires
        forall|j: int| 0 <= j < text.len() ==> text[j] != '.',
    ensures
        text.index_of_first('.') == None::<int>,
{
    text.index_of_first_ensures('.');
}

impl TryFrom<String> for LolCodeVersion {
    type Error = String;

    /// Reads a version from a dotted word: the major part, a period, the
    /// minor part. What follows a second period is not read.
    fn try_from(value: String) -> (result: Result<LolCodeVersion, String>)
        ensures
            version_result_view(result) == version_of(value@),
    {
        let mut major = String::new();
        let mut minor = String::new();
        let mut periods: u8 = 0;
        let ghost text = value@;
        let ghost mut first: int = 0;
        let ghost mut second: int = 0;
        for c in it: value.as_str().chars()
            invariant
                it.seq() == text,
                periods <= 2,
                periods == 0 ==> major@ == text.take(it.index()) && minor@ == Seq::<char>::empty()
                    && forall|j: int| 0 <= j < it.index() ==> text[j] != '.',
                periods >= 1 ==> 0 <= first < it.index() && text[first] == '.' && major@
                    == text.take(first) && forall|j: int| 0 <= j < first ==> text[j] != '.',
                periods == 1 ==> minor@ == text.subrange(first + 1, it.index() as int)
                    && forall|j: int| first < j < it.index() ==> text[j] != '.',
                periods == 2 ==> first < second < it.index() && text[second] == '.' && minor@
                    == text.subrange(first + 1, second) && forall|j: int|
                    first < j < second ==> text[j] != '.',
        {
            if c == '.' {
                if periods == 0 {
                    periods = 1;
                    proof {
                        first = it.index() as int;
                        assert(text.subrange(first + 1, first + 1) =~= Seq::<char>::empty());
                    }
                } else if periods == 1 {
                    periods = 2;
                    proof {
                        second = it.index() as int;
                    }
                }
            } else if periods == 0 {
                push_char(&mut major, c);
                assert(text.take(it.index() + 1) =~= text.take(it.index()).push(c));
            } else if periods == 1 {
                push_char(&mut minor, c);
                assert(text.subrange(first + 1, it.index() + 1) =~= text.subrange(
                    first + 1,
                    it.index() as int,
                ).push(c));
            }
        }
        proof {
            assert(text.take(text.len() as int) =~= text);
            if periods == 0 {
                lemma_no_period(text);
            } else {
                lemma_first_period(text, first);
                let rest = text.skip(first + 1);
                if periods == 1 {
                    lemma_no_period(rest);
                    assert(rest =~= text.subrange(first + 1, text.len() as int));
                } else {
                    lemma_first_period(rest, second - first - 1);
                    assert(rest.take(second - first - 1) =~= text.subrange(first + 1, second));
                }
            }
        }
        match parse_number(major.as_str()) {
            None => Err(String::from_str("Unable to parse major part")),
            Some(major) => {
                if periods == 0 {
                    Err(String::from_str("Version does not contain minor part"))
                } else {
                    match parse_number(minor.as_str()) {
                        None => Err(String::from_str("Unable to parse minor part")),
                        Some(minor) => Ok(LolCodeVersion { major, minor }),
                    }
                }
            },
        }
    }
}

/// The error of `try_from` is a message, and a message is known by its
/// characters alone. So no value can be named here as the result: the
/// contract of `try_from` itself says what is returned.
impl vstd::std_specs::convert::TryFromSpecImpl<String> for LolCodeVersion {
    open spec fn obeys_try_from_spec() -> bool {
        false
    }

    open spec fn try_from_spec(value: String) -> Result<LolCodeVersion, String> {
        arbitrary()
    }
}

} // verus!
