//! The line printed for a probe that is over: `address:port : state`.

use vstd::prelude::*;
use vstd::string::StringExecFns;
use crate::probe::PortState;

verus! {

/// The character that writes the digit `digit`.
pub open spec fn digit_char(digit: nat) -> char {
    ('0' as int + digit) as char
}

/// How a number is written in decimal, without leading zeros.
pub open spec fn decimal_digits(number: nat) -> Seq<char>
    decreases number,
{
    if number < 10 {
        seq![digit_char(number)]
    } else {
        decimal_digits(number / 10).push(digit_char(number % 10))
    }
}

/// The line that reports one pairing.
pub open spec fn report(address: Seq<char>, port: u16, state: PortState) -> Seq<char> {
    address + seq![':'] + decimal_digits(port as nat) + seq![' ', ':', ' '] + state.label()
}

/// Returns the text of one decimal digit.
fn digit_text(digit: u16) -> (text: &'static str)
    requires
        digit < 10,
    ensures
        text@ == seq![digit_char(digit as nat)],
{
    proof {
        reveal_strlit("0");
        reveal_strlit("1");
        reveal_strlit("2");
        reveal_strlit("3");
        reveal_strlit("4");
        reveal_strlit("5");
        reveal_strlit("6");
        reveal_strlit("7");
        reveal_strlit("8");
        reveal_strlit("9");
    }
    let text = match digit {
        0 => "0",
        1 => "1",
        2 => "2",
        3 => "3",
        4 => "4",
        5 => "5",
        6 => "6",
        7 => "7",
        8 => "8",
        _ => "9",
    };
    text
}

/// Writes a port number in decimal.
pub fn port_text(port: u16) -> (text: String)
    ensures
        text@ == decimal_digits(port as nat),
    decreases port,
{
    if port < 10 {
        String::from_str(digit_text(port))
    } else {
        let text = port_text(port / 10).concat(digit_text(port % 10));
        text
    }
}

/// Writes the line that reports one pairing: the address as the caller
/// wrote it, a colon, the port, and after ` : ` the state.
pub fn report_line(address: &str, port: u16, state: PortState) -> (line: String)
    ensures
        line@ == report(address@, port, state),
{
    proof {
        reveal_strlit(":");
        reveal_strlit(" : ");
    }
    let number = port_text(port);
    let line = String::from_str(address).concat(":").concat(number.as_str()).concat(" : ").concat(
        state.name(),
    );
    line
}

} // verus!
