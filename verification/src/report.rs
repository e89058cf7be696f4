//! The progress report: the address that tells a listener how far a run has
//! come, and the line of text that stands for it.

use vstd::prelude::*;

verus! {

/// The character of one decimal digit.
pub open spec fn digit_char(digit: nat) -> char {
    seq!['0', '1', '2', '3', '4', '5', '6', '7', '8', '9'][digit as int]
}

/// The decimal numeral of `n`, without leading zeros.
pub open spec fn decimal(n: nat) -> Seq<char>
    decreases n,
{
    if n < 10 {
        seq![digit_char(n)]
    } else {
        decimal(n / 10).push(digit_char(n % 10))
    }
}

/// The address that reports `live_count` live cells at generation
/// `generation`.
pub open spec fn report_address(generation: nat, live_count: nat) -> Seq<char> {
    "http://127.0.0.1:3000/runcount/"@ + decimal(generation) + "/"@ + decimal(live_count)
}

/// The line that stands for a parsed address: its serialization, or a
/// fixed notice where the address did not parse.
pub open spec fn report_text(parsed: Option<Seq<char>>) -> Seq<char> {
    match parsed {
        Some(serialization) => serialization,
        None => "There was an error"@,
    }
}

/// What `url::Url::parse` makes of `input`: the serialization of the parsed
/// URL, or `None` where `input` is no absolute URL.
///
/// The URL grammar is that of the `url` crate and is not defined here.
pub uninterp spec fn url_serialization(input: Seq<char>) -> Option<Seq<char>>;

/// Calls `url::Url::parse` on `input` and, on success, turns the `Url` into
/// the `String` that it holds (its serialization).
///
/// Trusted: the contract only names the outcome as
/// `url_serialization(input@)`, that is, it claims that the outcome depends
/// on the characters of `input` alone.
#[verifier::external_body]
fn parse_url(input: &str) -> (parsed: Option<String>)
    ensures
        match parsed {
            Some(serialization) => url_serialization(input@) == Some(serialization@),
            None => url_serialization(input@).is_none(),
        },
{
    match url::Url::parse(input) {
        Ok(url) => Some(url.into()),
        Err(_) => None,
    }
}

/// The text of one decimal digit.
fn digit_text(digit: u32) -> (text: &'static str)
    requires
        digit < 10,
    ensures
        text@ == seq![digit_char(digit as nat)],
{
    proof {
        reveal_strlit("0");
        reveal_strlit("1");
        reveal_strlit("2");
        reveal_strlit("3");
        reveal_strlit("4");
        reveal_strlit("5");
        reveal_strlit("6");
        reveal_strlit("7");
        reveal_strlit("8");
        reveal_strlit("9");
    }
    let text = if digit == 0 {
        "0"
    } else if digit == 1 {
        "1"
    } else if digit == 2 {
        "2"
    } else if digit == 3 {
        "3"
    } else if digit == 4 {
        "4"
    } else if digit == 5 {
        "5"
    } else if digit == 6 {
        "6"
    } else if digit == 7 {
        "7"
    } else if digit == 8 {
        "8"
    } else {
        "9"
    };
    assert(text@ =~= seq![digit_char(digit as nat)]);
    text
}

/// Appends the decimal numeral of `n` to `text`.
fn append_decimal(text: &mut String, n: u32)
    ensures
        final(text)@ == old(text)@ + decimal(n as nat),
    decreases n,
{
    if n >= 10 {
        append_decimal(text, n / 10);
    }
    text.append(digit_text(n % 10));
    assert(final(text)@ =~= old(text)@ + decimal(n as nat));
}

/// Builds the address that reports `live_count` live cells at generation
/// `generation`.
pub fn report_target(generation: u32, live_count: u32) -> (address: String)
    ensures
        address@ == report_address(generation as nat, live_count as nat),
{
    let mut address = String::new();
    address.append("http://127.0.0.1:3000/runcount/");
    append_decimal(&mut address, generation);
    address.append("/");
    append_decimal(&mut address, live_count);
    assert(address@ =~= report_address(generation as nat, live_count as nat));
    address
}

/// The line to print for a parsed address: its serialization, or a fixed
/// notice where the address did not parse.
pub fn report_line(parsed: Option<String>) -> (line: String)
    ensures
        line@ == report_text(
            match parsed {
                Some(serialization) => Some(serialization@),
                None => None,
            },
        ),
{
    match parsed {
        Some(serialization) => serialization,
        None => "There was an error".to_owned(),
    }
}

/// The line that stands for `address`: the address as the URL parser
/// serializes it, or a notice where it does not parse.
pub fn address_report(address: &str) -> (line: String)
    ensures
        line@ == report_text(url_serialization(address@)),
{
    report_line(parse_url(address))
}

/// The line that reports the progress of a run: the report address for
/// generation `run` and `count` live cells as the URL parser serializes it,
/// or a notice where it does not parse.
pub fn rest_call_runcount(run: u32, count: u32) -> (line: String)
    ensures
        line@ == report_text(url_serialization(report_address(run as nat, count as nat))),
{
    let address = report_target(run, count);
    address_report(address.as_str())
}

} // verus!
