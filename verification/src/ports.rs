//! Ports named on the command line: a single port, or a range `first-last`
//! that starts at `first` and stops short of `last`.

use vstd::prelude::*;
use crate::search::{first_index, lemma_first_index, lemma_first_index_is, lemma_first_index_none};

verus! {

/// Why a text is no port number.
#[derive(Clone, Copy, Debug, PartialEq, Eq, Structural)]
pub enum PortParseError {
    /// The text is empty.
    Empty,
    /// The text holds something that is no decimal digit, or no digit at
    /// all.
    InvalidDigit,
    /// The number is greater than 65535.
    PosOverflow,
}

/// Whether `c` is a decimal digit.
pub open spec fn is_digit(c: char) -> bool {
    '0' <= c && c <= '9'
}

/// The value of a decimal digit; zero for any other character.
pub open spec fn digit_value(c: char) -> nat {
    if is_digit(c) {
        (c as int - '0' as int) as nat
    } else {
        0
    }
}

/// The number that a run of decimal digits writes.
pub open spec fn decimal_value(digits: Seq<char>) -> nat
    decreases digits.len(),
{
    if digits.len() == 0 {
        0
    } else {
        decimal_value(digits.drop_last()) * 10 + digit_value(digits.last())
    }
}

/// Holds of every character that is no decimal digit.
pub open spec fn not_digit() -> spec_fn(char) -> bool {
    |c: char| !is_digit(c)
}

/// Holds of the character that parts the two ends of a range.
pub open spec fn dash() -> spec_fn(char) -> bool {
    |c: char| c == '-'
}

/// The part of `text` before the first character that `stop` holds of; all
/// of `text` where there is none.
pub open spec fn until(text: Seq<char>, stop: spec_fn(char) -> bool) -> Seq<char> {
    match first_index(text, stop) {
        Some(found) => text.take(found),
        None => text,
    }
}

/// What a text means as a 16-bit number: an optional `+`, then decimal
/// digits and nothing else. Reading from the left, the first thing in the
/// way decides the error: a number that has outgrown 16 bits, or a
/// character that is no digit.
pub open spec fn parse_u16(text: Seq<char>) -> Result<u16, PortParseError> {
    if text.len() == 0 {
        Err(PortParseError::Empty)
    } else {
        let digits = if text[0] == '+' {
            text.drop_first()
        } else {
            text
        };
        let leading = until(digits, not_digit());
        if digits.len() == 0 {
            Err(PortParseError::InvalidDigit)
        } else if decimal_value(leading) > u16::MAX {
            Err(PortParseError::PosOverflow)
        } else if leading.len() < digits.len() {
            Err(PortParseError::InvalidDigit)
        } else {
            Ok(decimal_value(leading) as u16)
        }
    }
}

/// The ports from `first` up to, but not including, `last`; none where
/// `first` is not below `last`.
pub open spec fn port_range(first: u16, last: u16) -> Seq<u16> {
    if first < last {
        Seq::new((last - first) as nat, |i: int| (first + i) as u16)
    } else {
        Seq::empty()
    }
}

/// What a text means as a list of ports. Without a `-` it is one port
/// number. With one, the text before the first `-` and the text after it, up
/// to the next `-` if there is one, are the two ends of a range; of two
/// errors, that of the first end is given.
pub open spec fn parse_ports(text: Seq<char>) -> Result<Seq<u16>, PortParseError> {
    match first_index(text, dash()) {
        Some(at) => match parse_u16(text.take(at)) {
            Err(e) => Err(e),
            Ok(first) => match parse_u16(until(text.skip(at + 1), dash())) {
                Err(e) => Err(e),
                Ok(last) => Ok(port_range(first, last)),
            },
        },
        None => match parse_u16(text) {
            Err(e) => Err(e),
            Ok(port) => Ok(seq![port]),
        },
    }
}

/// A run of digits is worth at least as much as any of its beginnings.
proof fn lemma_decimal_value_grows(digits: Seq<char>, count: int)
    requires
        0 <= count <= digits.len(),
    ensures
        decimal_value(digits.take(count)) <= decimal_value(digits),
    decreases digits.len(),
{
    if count == digits.len() {
        assert(digits.take(count) =~= digits);
    } else {
        assert(digits.drop_last().take(count) =~= digits.take(count));
        lemma_decimal_value_grows(digits.drop_last(), count);
    }
}

/// Lists the characters of a text.
fn chars_of(text: &str) -> (chars: Vec<char>)
    ensures
        chars@ == text@,
{
    let mut chars: Vec<char> = Vec::new();
    for c in it: text.chars()
        invariant
            chars@ == it.seq().take(it.index() as int),
            it.seq() == text@,
    {
        chars.push(c);
    }
    chars
}

/// Finds where the field that starts at `start` ends: at the next `-`, or
/// at the end of the text.
fn field_end(chars: &Vec<char>, start: usize) -> (end: usize)
    requires
        start <= chars@.len(),
    ensures
        start <= end <= chars@.len(),
        end < chars@.len() <==> first_index(chars@.skip(start as int), dash()) is Some,
        end < chars@.len() ==> first_index(chars@.skip(start as int), dash()) == Some(
            end - start,
        ),
        chars@.subrange(start as int, end as int) == until(chars@.skip(start as int), dash()),
{
    let ghost rest = chars@.skip(start as int);
    let mut end = start;
    while end < chars.len() && chars[end] != '-'
        invariant
            start <= end <= chars@.len(),
            rest == chars@.skip(start as int),
            forall|j: int| 0 <= j < end - start ==> !dash()(#[trigger] rest[j]),
        decreases chars.len() - end,
    {
        end = end + 1;
    }
    proof {
        if end < chars.len() {
            lemma_first_index_is(rest, dash(), end - start);
        } else {
            lemma_first_index_none(rest, dash());
        }
    }
    end
}

/// Reads the characters from `start` up to `end` as a 16-bit number.
fn parse_number(chars: &Vec<char>, start: usize, end: usize) -> (result: Result<
    u16,
    PortParseError,
>)
    requires
        start <= end <= chars@.len(),
    ensures
        result == parse_u16(chars@.subrange(start as int, end as int)),
{
    let ghost text = chars@.subrange(start as int, end as int);
    if start == end {
        return Err(PortParseError::Empty);
    }
    let from = if chars[start] == '+' {
        start + 1
    } else {
        start
    };
    let ghost digits = chars@.subrange(from as int, end as int);
    if from == end {
        return Err(PortParseError::InvalidDigit);
    }
    let mut value: u32 = 0;
    let mut index = from;
    while index < end
        invariant
            start < end,
            from <= index <= end <= chars@.len(),
            text == chars@.subrange(start as int, end as int),
            digits == chars@.subrange(from as int, end as int),
            digits == if text[0] == '+' {
                text.drop_first()
            } else {
                text
            },
            forall|j: int| 0 <= j < index - from ==> !not_digit()(#[trigger] digits[j]),
            value == decimal_value(digits.take(index - from)),
            value <= u16::MAX,
        decreases end - index,
    {
        let c = chars[index];
        let ghost read = digits.take(index - from + 1);
        proof {
            assert(read.drop_last() =~= digits.take(index - from));
        }
        if !(c >= '0' && c <= '9') {
            proof {
                lemma_first_index_is(digits, not_digit(), index - from);
            }
            return Err(PortParseError::InvalidDigit);
        }
        value = value * 10 + (c as u32 - '0' as u32);
        if value > 0xFFFF {
            proof {
                lemma_first_index(digits, not_digit());
                let leading = until(digits, not_digit());
                assert(leading.take(index - from + 1) =~= read);
                lemma_decimal_value_grows(leading, index - from + 1);
            }
            return Err(PortParseError::PosOverflow);
        }
        index = index + 1;
    }
    proof {
        lemma_first_index_none(digits, not_digit());
        assert(digits.take(end - from) =~= digits);
    }
    Ok(value as u16)
}

/// Reads one entry of a list of ports: a single port, or a range
/// `first-last`, which gives the ports from `first` up to `last - 1`.
///
/// Fails, with the reason, exactly when an end of the range or the single
/// port is no 16-bit decimal number.
pub fn port_parser(s: &str) -> (result: Result<Vec<u16>, PortParseError>)
    ensures
        match result {
            Ok(ports) => parse_ports(s@) == Ok::<Seq<u16>, PortParseError>(ports@),
            Err(e) => parse_ports(s@) == Err::<Seq<u16>, PortParseError>(e),
        },
{
    let chars = chars_of(s);
    assert(chars@.skip(0) =~= chars@);
    let first_end = field_end(&chars, 0);
    if first_end < chars.len() {
        let last_end = field_end(&chars, first_end + 1);
        let first = match parse_number(&chars, 0, first_end) {
            Ok(first) => first,
            Err(e) => {
                return Err(e);
            },
        };
        let last = match parse_number(&chars, first_end + 1, last_end) {
            Ok(last) => last,
            Err(e) => {
                return Err(e);
            },
        };
        let mut ports: Vec<u16> = Vec::new();
        let mut port = first;
        while port < last
            invariant
                first <= port,
                port <= last || port == first,
                ports@.len() == port - first,
                forall|i: int| 0 <= i < ports@.len() ==> #[trigger] ports@[i] == first + i,
            decreases last - port,
        {
            ports.push(port);
            port = port + 1;
        }
        assert(ports@ =~= port_range(first, last));
        Ok(ports)
    } else {
        match parse_number(&chars, 0, first_end) {
            Ok(port) => {
                let mut ports: Vec<u16> = Vec::new();
                ports.push(port);
                Ok(ports)
            },
            Err(e) => Err(e),
        }
    }
}

} // verus!
