//! Rendering of errors and caught panics as diagnostic text.
//!
//! Whatever goes wrong in a plugin callback is reduced to a single report
//! string before control returns to OpenVPN: an error becomes a summary
//! line followed by its cause chain, one cause per line
//! ([`format_error`]); a caught panic becomes one line naming the stage it
//! happened in and the panic's string payload, or a placeholder when the
//! payload carries no text ([`format_panic`]). Where that text goes — a
//! structured logger or a raw diagnostic stream — is outside configuration
//! and outside this crate.

use vstd::prelude::*;
use vstd::string::StringExecFns;

verus! {

/// An error of the adapter itself: a summary and the rendered messages of
/// its cause chain, outermost cause first.
#[derive(Debug)]
pub struct Error {
    /// The summary line.
    pub msg: String,
    /// The messages of the causes, outermost first.
    pub causes: Vec<String>,
}

/// The views of a sequence of owned strings.
pub open spec fn text_views(texts: Seq<String>) -> Seq<Seq<char>> {
    Seq::new(texts.len(), |i: int| texts[i]@)
}

impl Error {
    /// Creates an error from a summary and the rendered messages of its
    /// cause chain, outermost cause first.
    pub fn new(msg: &str, causes: Vec<String>) -> (error: Error)
        ensures
            error.msg@ == msg@,
            error.causes@ == causes@,
    {
        Error { msg: String::from_str(msg), causes }
    }
}

/// The report text of an error: `Error: ` and the summary, then one
/// `Caused by: ` line per cause.
pub open spec fn error_text(msg: Seq<char>, causes: Seq<Seq<char>>) -> Seq<char>
    decreases causes.len(),
{
    if causes.len() == 0 {
        "Error: "@ + msg
    } else {
        error_text(msg, causes.drop_last()) + "\nCaused by: "@ + causes.last()
    }
}

/// Renders an error as its summary line followed by its cause chain, one
/// cause per line.
pub fn format_error(error: &Error) -> (text: String)
    ensures
        text@ == error_text(error.msg@, text_views(error.causes@)),
{
    let ghost causes = text_views(error.causes@);
    let mut text = String::from_str("Error: ");
    text.append(error.msg.as_str());
    let mut i: usize = 0;
    while i < error.causes.len()
        invariant
            i <= error.causes@.len(),
            causes == text_views(error.causes@),
            text@ == error_text(error.msg@, causes.take(i as int)),
        decreases error.causes@.len() - i,
    {
        text.append("\nCaused by: ");
        text.append(error.causes[i].as_str());
        proof {
            assert(causes.take(i as int + 1).drop_last() =~= causes.take(i as int));
            assert(causes.take(i as int + 1).last() == causes[i as int]);
        }
        i = i + 1;
    }
    proof {
        assert(causes.take(error.causes@.len() as int) =~= causes);
    }
    text
}

/// Relies on `String::push` of std: it appends the one character.
#[verifier::external_body]
fn push_char(text: &mut String, c: char)
    ensures
        final(text)@ == old(text)@ + seq![c],
{
    text.push(c);
}

/// The hexadecimal digit of a value below sixteen.
pub open spec fn hex_digit(v: int) -> char {
    if v == 0 {
        '0'
    } else if v == 1 {
        '1'
    } else if v == 2 {
        '2'
    } else if v == 3 {
        '3'
    } else if v == 4 {
        '4'
    } else if v == 5 {
        '5'
    } else if v == 6 {
        '6'
    } else if v == 7 {
        '7'
    } else if v == 8 {
        '8'
    } else if v == 9 {
        '9'
    } else if v == 10 {
        'a'
    } else if v == 11 {
        'b'
    } else if v == 12 {
        'c'
    } else if v == 13 {
        'd'
    } else if v == 14 {
        'e'
    } else {
        'f'
    }
}

/// The decimal digit of a value below ten.
pub open spec fn dec_digit(v: int) -> char {
    if v == 0 {
        '0'
    } else if v == 1 {
        '1'
    } else if v == 2 {
        '2'
    } else if v == 3 {
        '3'
    } else if v == 4 {
        '4'
    } else if v == 5 {
        '5'
    } else if v == 6 {
        '6'
    } else if v == 7 {
        '7'
    } else if v == 8 {
        '8'
    } else {
        '9'
    }
}

/// How one byte appears inside a quoted diagnostic: printable ASCII as
/// itself, the quote and the backslash escaped, anything else as a
/// `\x`-prefixed pair of hex digits.
pub open spec fn byte_text(b: u8) -> Seq<char> {
    if b == 34 {
        seq!['\\', '"']
    } else if b == 92 {
        seq!['\\', '\\']
    } else if 32 <= b <= 126 {
        seq![b as char]
    } else {
        seq!['\\', 'x', hex_digit(b as int / 16), hex_digit(b as int % 16)]
    }
}

/// How a byte string appears inside a quoted diagnostic: its bytes
/// rendered one after the other.
pub open spec fn bytes_text(bytes: Seq<u8>) -> Seq<char>
    decreases bytes.len(),
{
    if bytes.len() == 0 {
        Seq::empty()
    } else {
        bytes_text(bytes.drop_last()) + byte_text(bytes.last())
    }
}

/// The decimal digits of a nonnegative number, most significant first.
pub open spec fn nat_text(n: int) -> Seq<char>
    recommends
        n >= 0,
    decreases n,
{
    if n < 10 {
        seq![dec_digit(n)]
    } else {
        nat_text(n / 10) + seq![dec_digit(n % 10)]
    }
}

/// A signed number in decimal, with a leading minus where negative.
pub open spec fn int_text(n: int) -> Seq<char> {
    if n < 0 {
        seq!['-'] + nat_text(-n)
    } else {
        nat_text(n)
    }
}

/// The hexadecimal digit of a value below sixteen.
fn hex_digit_char(v: u8) -> (c: char)
    requires
        v < 16,
    ensures
        c == hex_digit(v as int),
{
    match v {
        0 => '0',
        1 => '1',
        2 => '2',
        3 => '3',
        4 => '4',
        5 => '5',
        6 => '6',
        7 => '7',
        8 => '8',
        9 => '9',
        10 => 'a',
        11 => 'b',
        12 => 'c',
        13 => 'd',
        14 => 'e',
        _ => 'f',
    }
}

/// The decimal digit of a value below ten.
fn dec_digit_char(v: u32) -> (c: char)
    requires
        v < 10,
    ensures
        c == dec_digit(v as int),
{
    match v {
        0 => '0',
        1 => '1',
        2 => '2',
        3 => '3',
        4 => '4',
        5 => '5',
        6 => '6',
        7 => '7',
        8 => '8',
        _ => '9',
    }
}

/// Renders a byte string for a quoted diagnostic line: printable ASCII
/// stands as itself, quotes and backslashes are escaped, and any other
/// byte appears as a `\x`-prefixed pair of hex digits.
pub fn format_bytes(bytes: &Vec<u8>) -> (text: String)
    ensures
        text@ == bytes_text(bytes@),
{
    let mut text = String::new();
    let mut i: usize = 0;
    while i < bytes.len()
        invariant
            i <= bytes@.len(),
            text@ == bytes_text(bytes@.take(i as int)),
        decreases bytes@.len() - i,
    {
        let b = bytes[i];
        if b == 34 {
            push_char(&mut text, '\\');
            push_char(&mut text, '"');
        } else if b == 92 {
            push_char(&mut text, '\\');
            push_char(&mut text, '\\');
        } else if 32 <= b && b <= 126 {
            push_char(&mut text, b as char);
        } else {
            push_char(&mut text, '\\');
            push_char(&mut text, 'x');
            push_char(&mut text, hex_digit_char(b / 16));
            push_char(&mut text, hex_digit_char(b % 16));
        }
        proof {
            assert(bytes@.take(i as int + 1).drop_last() =~= bytes@.take(i as int));
            assert(bytes@.take(i as int + 1).last() == bytes@[i as int]);
            assert(text@ =~= bytes_text(bytes@.take(i as int)) + byte_text(bytes@[i as int]));
        }
        i = i + 1;
    }
    proof {
        assert(bytes@.take(bytes@.len() as int) =~= bytes@);
    }
    text
}

/// Appends the decimal digits of a number, most significant first.
fn push_decimal(value: u32, text: &mut String)
    ensures
        final(text)@ == old(text)@ + nat_text(value as int),
    decreases value,
{
    if value >= 10 {
        push_decimal(value / 10, text);
    }
    push_char(text, dec_digit_char(value % 10));
    proof {
        if value >= 10 {
            assert(old(text)@ + nat_text(value as int / 10) + seq![
                dec_digit(value as int % 10),
            ] =~= old(text)@ + nat_text(value as int));
        } else {
            assert(old(text)@ + seq![dec_digit(value as int)] =~= old(text)@ + nat_text(
                value as int,
            ));
        }
    }
}

/// Renders a signed number in decimal.
pub fn format_i32(value: i32) -> (text: String)
    ensures
        text@ == int_text(value as int),
{
    let mut text = String::new();
    let magnitude: u32 = if value < 0 {
        push_char(&mut text, '-');
        (-(value as i64)) as u32
    } else {
        value as u32
    };
    push_decimal(magnitude, &mut text);
    proof {
        if value < 0 {
            assert(text@ =~= seq!['-'] + nat_text(-(value as int)));
        }
    }
    text
}

/// The report text of a caught panic in the named stage: the panic's
/// string payload in quotes, or the placeholder where the payload carried
/// no text.
pub open spec fn panic_text(source: Seq<char>, payload: Option<Seq<char>>) -> Seq<char> {
    "Panic in the "@ + source + " callback: \""@ + (match payload {
        Some(message) => message,
        None => "No panic message"@,
    }) + "\""@
}

/// Renders a caught panic from the named stage, quoting the panic's string
/// payload, or the placeholder `No panic message` when there is none.
pub fn format_panic(source: &str, panic_msg: Option<&str>) -> (text: String)
    ensures
        text@ == panic_text(
            source@,
            match panic_msg {
                Some(message) => Some(message@),
                None => None,
            },
        ),
{
    let mut text = String::from_str("Panic in the ");
    text.append(source);
    text.append(" callback: \"");
    match panic_msg {
        Some(message) => text.append(message),
        None => text.append("No panic message"),
    }
    text.append("\"");
    text
}

} // verus!
