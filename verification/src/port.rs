//! The listen port: reading it from text and holding it once it is known to
//! be valid.

use vstd::prelude::*;
use vstd::string::*;
use vstd::utf8::is_ascii_chars;

verus! {

/// The lowest port the server may listen on.
pub const PORT_MIN: u16 = 1024;

/// The highest port the server may listen on.
pub const PORT_MAX: u16 = 65535;

/// The port used when none is given.
pub const DEFAULT_PORT: u16 = 8080;

/// The text of the port used when none is given.
pub const DEFAULT_PORT_TEXT: &'static str = "8080";

/// Whether `c` is one of the ten decimal digits.
pub open spec fn is_digit(c: char) -> bool {
    '0' <= c && c <= '9'
}

/// The number that the digit `c` stands for.
pub open spec fn digit_value(c: char) -> nat
    recommends
        is_digit(c),
{
    (c as int - '0' as int) as nat
}

/// Whether every character of `s` is a decimal digit.
pub open spec fn all_digits(s: Seq<char>) -> bool {
    forall|i: int| 0 <= i < s.len() ==> is_digit(#[trigger] s[i])
}

/// The number that a run of decimal digits denotes, most significant first.
pub open spec fn decimal_value(digits: Seq<char>) -> nat
    decreases digits.len(),
{
    if digits.len() == 0 {
        0
    } else {
        10 * decimal_value(digits.drop_last()) + digit_value(digits.last())
    }
}

/// What is left of `s` once one leading plus sign, if there is one, is gone.
pub open spec fn unsigned_digits(s: Seq<char>) -> Seq<char> {
    if s.len() > 0 && s[0] == '+' {
        s.skip(1)
    } else {
        s
    }
}

/// Whether `s` is written as an unsigned decimal number: an optional plus
/// sign, then one digit or more, and nothing else.
pub open spec fn is_number(s: Seq<char>) -> bool {
    unsigned_digits(s).len() > 0 && all_digits(unsigned_digits(s))
}

/// The value of a text for which `is_number` holds.
pub open spec fn number_value(s: Seq<char>) -> nat
    recommends
        is_number(s),
{
    decimal_value(unsigned_digits(s))
}

/// What reading a text as an unsigned decimal number gives.
#[derive(Debug, Clone, Copy, PartialEq, Eq, Structural)]
pub enum Decimal {
    /// The text is not written as a number.
    NotANumber,
    /// The text is a number, but one too large for the machine integer.
    TooLarge,
    /// The text is a number, and this is its value.
    Value(usize),
}

/// What reading `s` gives: whether it is a number is a matter of how it is
/// written alone; a number is given by its value where the machine integer
/// can hold it.
pub open spec fn decimal_of(s: Seq<char>) -> Decimal {
    if !is_number(s) {
        Decimal::NotANumber
    } else if number_value(s) > usize::MAX {
        Decimal::TooLarge
    } else {
        Decimal::Value(number_value(s) as usize)
    }
}

/// Whether `n` is a port the server may listen on.
pub open spec fn port_in_range(n: int) -> bool {
    PORT_MIN <= n <= PORT_MAX
}

/// The port that the text `s` is accepted as, if it is accepted: the text
/// must be a number, of whatever length, and its value a port in range.
pub open spec fn accepted_port(s: Seq<char>) -> Option<u16> {
    if is_number(s) && port_in_range(number_value(s) as int) {
        Some(number_value(s) as u16)
    } else {
        None
    }
}

/// Dropping digits from the end of a run never raises its value.
proof fn lemma_decimal_value_prefix(digits: Seq<char>, k: int)
    requires
        0 <= k <= digits.len(),
    ensures
        decimal_value(digits.take(k)) <= decimal_value(digits),
    decreases digits.len(),
{
    if k < digits.len() {
        assert(digits.drop_last().take(k) == digits.take(k));
        lemma_decimal_value_prefix(digits.drop_last(), k);
    } else {
        assert(digits.take(k) == digits);
    }
}

/// Reads an unsigned decimal number: an optional plus sign followed by at
/// least one digit. A text that is written so is a number however long it
/// is: where its value is too large for the machine integer, the rest is
/// still read to the end, and the answer is `TooLarge`.
pub fn parse_decimal(s: &str) -> (r: Decimal)
    ensures
        r == decimal_of(s@),
{
    if !s.is_ascii() {
        proof {
            // A character outside ASCII is neither a digit nor a plus sign.
            let i = choose|i: int| 0 <= i < s@.len() && !('\0' <= #[trigger] s@[i] <= '\u{7f}');
            let d = unsigned_digits(s@);
            if d.len() < s@.len() {
                assert(d[i - 1] == s@[i]);
            }
        }
        return Decimal::NotANumber;
    }
    proof {
        vstd::utf8::is_ascii_chars_encode_utf8(s@);
    }
    let bytes = s.as_bytes();
    let n: usize = bytes.len();
    let start: usize = if n > 0 && bytes[0] == 43u8 {
        1
    } else {
        0
    };
    let ghost digits = unsigned_digits(s@);
    if start == n {
        return Decimal::NotANumber;
    }
    let mut acc: usize = 0;
    let mut too_large: bool = false;
    let mut i: usize = start;
    while i < n
        invariant
            start <= i <= n,
            n == s@.len(),
            n == bytes@.len(),
            bytes@ == s.spec_bytes(),
            is_ascii_chars(s@),
            forall|j: int| 0 <= j < n ==> s@[j] as u8 == #[trigger] bytes@[j],
            digits == s@.skip(start as int),
            digits == unsigned_digits(s@),
            all_digits(digits.take(i - start)),
            !too_large ==> acc == decimal_value(digits.take(i - start)),
            too_large ==> decimal_value(digits.take(i - start)) > usize::MAX,
        decreases n - i,
    {
        let b: u8 = bytes[i];
        let ghost c = s@[i as int];
        assert(c == digits[i - start]);
        assert(c as u8 == b && c as u8 as int == c as int);
        if b < 48u8 || b > 57u8 {
            return Decimal::NotANumber;
        }
        let ghost next = digits.take(i - start + 1);
        proof {
            assert(next.drop_last() == digits.take(i - start));
            assert(next.take(i - start) == digits.take(i - start));
            lemma_decimal_value_prefix(next, i - start);
        }
        if !too_large {
            let dv: usize = (b - 48u8) as usize;
            match acc.checked_mul(10) {
                Some(scaled) => match scaled.checked_add(dv) {
                    Some(sum) => {
                        acc = sum;
                    },
                    None => {
                        too_large = true;
                    },
                },
                None => {
                    too_large = true;
                },
            }
        }
        i += 1;
    }
    assert(digits.take(i - start) == digits);
    if too_large {
        Decimal::TooLarge
    } else {
        Decimal::Value(acc)
    }
}

/// Why a port text was rejected, over plain text.
pub enum PortErrorView {
    InvalidFormat(Seq<char>),
    OutOfRange,
}

/// Why a port text was rejected.
#[derive(Debug, PartialEq, Eq)]
pub enum PortError {
    /// The text is not written as an unsigned decimal number. The text is
    /// carried along.
    InvalidFormat(String),
    /// The text is a number, however large, but not one from `PORT_MIN` to
    /// `PORT_MAX`.
    OutOfRange,
}

impl View for PortError {
    type V = PortErrorView;

    open spec fn view(&self) -> PortErrorView {
        match self {
            PortError::InvalidFormat(text) => PortErrorView::InvalidFormat(text@),
            PortError::OutOfRange => PortErrorView::OutOfRange,
        }
    }
}

/// The error that the text `s` is rejected with, where it is rejected: a
/// text that is not written as a number has an invalid format, and every
/// number that is rejected is out of range.
pub open spec fn rejection(s: Seq<char>) -> PortErrorView
    recommends
        accepted_port(s) is None,
{
    if !is_number(s) {
        PortErrorView::InvalidFormat(s)
    } else {
        PortErrorView::OutOfRange
    }
}

/// The message shown to the user for an error.
pub open spec fn message_text(e: PortErrorView) -> Seq<char> {
    match e {
        PortErrorView::InvalidFormat(text) => "`"@ + text + "` is not a valid port number"@,
        PortErrorView::OutOfRange => "port not found in range 1024-65535"@,
    }
}

/// The notice shown to the user when the port text `text` is rejected: it
/// names the text, says why it was rejected, and names the valid range.
pub open spec fn notice_text(text: Seq<char>, e: PortErrorView) -> Seq<char> {
    "invalid value '"@ + text + "' for the port: "@ + message_text(e)
        + " (a port is a number from 1024 to 65535)"@
}

impl PortError {
    /// The message for the error alone: it names the offending text, or the
    /// range a port must lie in.
    pub fn message(&self) -> (m: String)
        ensures
            m@ == message_text(self@),
    {
        match self {
            PortError::InvalidFormat(text) => {
                let mut m = String::from_str("`");
                m.append(text.as_str());
                m.append("` is not a valid port number");
                m
            },
            PortError::OutOfRange => String::from_str("port not found in range 1024-65535"),
        }
    }

    /// The notice shown to the user when `text` was rejected with this
    /// error: it names the text, the reason and the valid range.
    pub fn notice(&self, text: &str) -> (n: String)
        ensures
            n@ == notice_text(text@, self@),
    {
        let mut n = String::from_str("invalid value '");
        n.append(text);
        n.append("' for the port: ");
        let message = self.message();
        n.append(message.as_str());
        n.append(" (a port is a number from 1024 to 65535)");
        n
    }
}

/// A validated configuration: the port is one the server may listen on.
#[derive(Debug, Clone, Copy, PartialEq, Eq)]
pub struct Configuration {
    port: u16,
}

impl Configuration {
    #[verifier::type_invariant]
    spec fn valid(self) -> bool {
        port_in_range(self.port as int)
    }

    /// The port held.
    pub closed spec fn port_value(self) -> u16 {
        self.port
    }

    /// A configuration for `port`, if the server may listen on it.
    pub fn new(port: u16) -> (r: Option<Configuration>)
        ensures
            r is Some <==> port_in_range(port as int),
            r matches Some(c) ==> c.port_value() == port,
    {
        if PORT_MIN <= port && port <= PORT_MAX {
            Some(Configuration { port })
        } else {
            None
        }
    }

    /// The port held, which always lies in the valid range.
    pub fn port(&self) -> (p: u16)
        ensures
            p == self.port_value(),
            port_in_range(p as int),
    {
        proof {
            use_type_invariant(self);
        }
        self.port
    }
}

/// Validates the text of a port: it must be an unsigned decimal number from
/// `PORT_MIN` to `PORT_MAX`. A text that is not written as a number has an
/// invalid format; a number outside the range is out of range, however long
/// it is.
pub fn validate_port(s: &str) -> (r: Result<Configuration, PortError>)
    ensures
        r is Ok <==> accepted_port(s@) is Some,
        r matches Ok(c) ==> accepted_port(s@) == Some(c.port_value()),
        r matches Err(e) ==> e@ == rejection(s@),
{
    match parse_decimal(s) {
        Decimal::NotANumber => Err(PortError::InvalidFormat(String::from_str(s))),
        Decimal::TooLarge => Err(PortError::OutOfRange),
        Decimal::Value(n) => {
            if n < 1024 || n > 65535 {
                Err(PortError::OutOfRange)
            } else {
                let port: u16 = n as u16;
                Ok(Configuration { port })
            }
        },
    }
}

/// Validates the text of a port and gives the port itself, or the message
/// for the user.
pub fn is_port_in_range(s: &str) -> (r: Result<u16, String>)
    ensures
        r is Ok <==> accepted_port(s@) is Some,
        r matches Ok(p) ==> accepted_port(s@) == Some(p),
        r matches Err(m) ==> m@ == message_text(rejection(s@)),
{
    match validate_port(s) {
        Ok(c) => Ok(c.port()),
        Err(e) => Err(e.message()),
    }
}

/// Every text has one verdict, on every machine. It is accepted exactly
/// when it is written as a number and that number lies from `PORT_MIN` to
/// `PORT_MAX`, and the port is then that number. A text that is rejected has
/// an invalid format exactly when it is not written as a number, and is out
/// of range exactly when it is a number, however long.
pub proof fn lemma_port_verdict(s: Seq<char>)
    ensures
        accepted_port(s) is Some <==> is_number(s) && port_in_range(number_value(s) as int),
        accepted_port(s) matches Some(p) ==> p == number_value(s),
        rejection(s) == PortErrorView::InvalidFormat(s) <==> !is_number(s),
        rejection(s) == PortErrorView::OutOfRange <==> is_number(s),
        decimal_of(s) is TooLarge ==> accepted_port(s) is None && rejection(s)
            == PortErrorView::OutOfRange,
{
}

/// The default text is accepted, as the default port: a start without a
/// port never fails for its port.
pub proof fn lemma_default_port_is_accepted()
    ensures
        accepted_port(DEFAULT_PORT_TEXT@) == Some(DEFAULT_PORT),
{
    reveal_strlit("8080");
    reveal_with_fuel(decimal_value, 5);
}

} // verus!
