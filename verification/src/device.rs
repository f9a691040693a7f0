//! What the device query reports, and the response that a report stands for.

use crate::message::ResponseView;
use vstd::prelude::*;
use vstd::string::StringExecFns;

verus! {

/// The character for a decimal digit.
pub open spec fn digit_char(digit: nat) -> char
    recommends
        digit < 10,
{
    (0x30 + digit) as u8 as char
}

/// A number in decimal, without sign or leading zeros.
pub open spec fn decimal_text(n: nat) -> Seq<char>
    decreases n,
{
    if n < 10 {
        seq![digit_char(n)]
    } else {
        decimal_text(n / 10).push(digit_char(n % 10))
    }
}

/// The name given where no device was found.
pub open spec fn no_device_name() -> Seq<char> {
    "No GPU Found"@
}

/// Name and driver version reported for the first device found, or for the
/// lack of one.
pub open spec fn described(first: Option<(Seq<char>, u32)>) -> (Seq<char>, Seq<char>) {
    match first {
        Some((name, driver_version)) => (name, decimal_text(driver_version as nat)),
        None => (no_device_name(), decimal_text(0)),
    }
}

/// The response that a device report stands for: the device's name and
/// driver version where the query succeeded, its failure text where not.
pub open spec fn report_response(
    report: Result<(Seq<char>, Seq<char>), Seq<char>>,
) -> ResponseView {
    match report {
        Ok((name, version)) => ResponseView::GpuInfo { device_name: name, driver_version: version },
        Err(reason) => ResponseView::Error { message: reason },
    }
}

/// A device report with each text as its sequence of characters.
pub open spec fn report_view(report: Result<(String, String), String>) -> Result<
    (Seq<char>, Seq<char>),
    Seq<char>,
> {
    match report {
        Ok((name, version)) => Ok((name@, version@)),
        Err(reason) => Err(reason@),
    }
}

fn digit_text(digit: u32) -> (text: &'static str)
    requires
        digit < 10,
    ensures
        text@ == seq![digit_char(digit as nat)],
{
    proof {
        reveal_strlit("0");
        reveal_strlit("1");
        reveal_strlit("2");
        reveal_strlit("3");
        reveal_strlit("4");
        reveal_strlit("5");
        reveal_strlit("6");
        reveal_strlit("7");
        reveal_strlit("8");
        reveal_strlit("9");
    }
    let text = match digit {
        0 => "0",
        1 => "1",
        2 => "2",
        3 => "3",
        4 => "4",
        5 => "5",
        6 => "6",
        7 => "7",
        8 => "8",
        _ => "9",
    };
    assert(text@ =~= seq![digit_char(digit as nat)]);
    text
}

/// Writes a number in decimal.
pub fn decimal(n: u32) -> (text: String)
    ensures
        text@ == decimal_text(n as nat),
    decreases n,
{
    if n < 10 {
        String::from_str(digit_text(n))
    } else {
        let text = decimal(n / 10).concat(digit_text(n % 10));
        assert(text@ =~= decimal_text(n as nat));
        text
    }
}

/// Makes the report of a device query from what the query found: the name
/// and the driver version number of the first device, or nothing. Without a
/// device the report names none and gives version 0.
pub fn describe(first: Option<(String, u32)>) -> (report: (String, String))
    ensures
        (report.0@, report.1@) == described(
            match first {
                Some((name, driver_version)) => Some((name@, driver_version)),
                None => None,
            },
        ),
{
    match first {
        Some((name, driver_version)) => (name, decimal(driver_version)),
        None => (String::from_str("No GPU Found"), decimal(0)),
    }
}

} // verus!
