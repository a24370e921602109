use vstd::prelude::*;
use crate::text::{chars_of, decimal, push_decimal};

verus! {

/// The scheme that marks a database location as a complete URL.
pub open spec fn has_sqlite_scheme(location: Seq<char>) -> bool {
    "sqlite:"@.is_prefix_of(location)
}

/// The URL under which the store at `location` is opened: the location
/// itself where it bears the `sqlite:` scheme, else the location behind that
/// scheme.
pub open spec fn database_url_of(location: Seq<char>) -> Seq<char> {
    if has_sqlite_scheme(location) {
        location
    } else {
        "sqlite:"@ + location
    }
}

/// Whether `text` begins with `prefix`.
fn starts_with(text: &Vec<char>, prefix: &Vec<char>) -> (r: bool)
    ensures
        r == prefix@.is_prefix_of(text@),
{
    if prefix.len() > text.len() {
        return false;
    }
    let mut i: usize = 0;
    while i < prefix.len()
        invariant
            prefix@.len() <= text@.len(),
            i <= prefix@.len(),
            forall|j: int| 0 <= j < i ==> text@[j] == prefix@[j],
        decreases prefix@.len() - i,
    {
        if text[i] != prefix[i] {
            assert(text@.subrange(0, prefix@.len() as int)[i as int] != prefix@[i as int]);
            return false;
        }
        i += 1;
    }
    assert(text@.subrange(0, prefix@.len() as int) =~= prefix@);
    true
}

/// The URL under which the store at `location` is opened.
pub fn database_url(location: &str) -> (url: String)
    ensures
        url@ == database_url_of(location@),
{
    let text = chars_of(location);
    let scheme = chars_of("sqlite:");
    if starts_with(&text, &scheme) {
        String::from_str(location)
    } else {
        let mut url = String::from_str("sqlite:");
        url.append(location);
        url
    }
}

/// The location of the store where none is configured.
pub fn default_database_location() -> (location: String)
    ensures
        location@ == "../type_editor.db"@,
{
    String::from_str("../type_editor.db")
}

/// The word by which a health report states whether the store answers.
pub fn health_status(store_answers: bool) -> (status: &'static str)
    ensures
        status@ == (if store_answers {
            "healthy"@
        } else {
            "unhealthy"@
        }),
{
    if store_answers {
        "healthy"
    } else {
        "unhealthy"
    }
}

/// The port on which the server listens where none is configured, or none
/// that can be read as a port.
pub const DEFAULT_PORT: u16 = 3001;

/// The number that a text of decimal digits stands for.
pub open spec fn digits_value(digits: Seq<char>) -> nat
    decreases digits.len(),
{
    if digits.len() == 0 {
        0
    } else {
        digits_value(digits.drop_last()) * 10 + (digits.last() as nat - 48) as nat
    }
}

/// Whether `c` is a decimal digit.
pub open spec fn is_digit(c: char) -> bool {
    '0' <= c && c <= '9'
}

/// What is left of `text` when one leading `+` is taken off.
pub open spec fn without_plus(text: Seq<char>) -> Seq<char> {
    if text.len() > 0 && text[0] == '+' {
        text.skip(1)
    } else {
        text
    }
}

/// The number between 0 and 65535 that `text` stands for: the text is one
/// decimal digit or more, with or without a `+` before them and nothing
/// else, and the number they stand for is in that range. Any other text
/// stands for none.
pub open spec fn parsed_u16(text: Seq<char>) -> Option<u16> {
    let digits = without_plus(text);
    if digits.len() > 0 && (forall|i: int| 0 <= i < digits.len() ==> is_digit(#[trigger] digits[i]))
        && digits_value(digits) <= u16::MAX {
        Some(digits_value(digits) as u16)
    } else {
        None
    }
}

/// `str::parse::<u16>` reads a text as a number between 0 and 65535. It
/// takes decimal digits with an optional `+` before them and nothing else,
/// neither spaces nor a `-`, and fails on the empty text and on a number out
/// of range.
#[verifier::external_body]
fn parse_u16(text: &str) -> (number: Option<u16>)
    ensures
        number == parsed_u16(text@),
{
    text.parse::<u16>().ok()
}

/// The port that a configuration asks for: the number that the configured
/// text stands for, or the default where nothing is configured or the text
/// stands for no port.
pub open spec fn port_of(configured: Option<Seq<char>>) -> u16 {
    match configured {
        Some(text) => match parsed_u16(text) {
            Some(port) => port,
            None => DEFAULT_PORT,
        },
        None => DEFAULT_PORT,
    }
}

/// The port on which the server listens.
pub fn listen_port(configured: Option<&str>) -> (port: u16)
    ensures
        port == port_of(
            match configured {
                Some(text) => Some(text@),
                None => None,
            },
        ),
{
    match configured {
        Some(text) => match parse_u16(text) {
            Some(port) => port,
            None => DEFAULT_PORT,
        },
        None => DEFAULT_PORT,
    }
}

/// The address on which the server listens: every interface, at `port`.
pub fn listen_address(port: u16) -> (address: String)
    ensures
        address@ == "0.0.0.0:"@ + decimal(port as nat),
{
    let mut address = String::from_str("0.0.0.0:");
    push_decimal(&mut address, port as u64);
    address
}

} // verus!
