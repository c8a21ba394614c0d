//! Decoding of journal lines.
//!
//! A journal is a text file that holds one JSON document per line. A line is
//! turned into an [`Event`] when the JSON parser accepts it; an empty line is
//! passed over, and any other line is reported as a [`ParseError`] so that the
//! caller can drop it and go on with the next one.
//!
//! The parser counts the digits behind a decimal point in sixteen bits and
//! fails beyond them, so a line with more such digits than that count holds
//! is refused before the parser sees it.

use vstd::prelude::*;
use vstd::string::*;
use vstd::utf8::encode_utf8;

verus! {

/// Why a line was rejected by the JSON parser.
#[derive(Clone, Copy, Debug, PartialEq, Eq, Structural)]
pub enum ParseError {
    /// A character that JSON does not allow at this place; `line` and `column`
    /// count from one.
    UnexpectedCharacter { ch: char, line: usize, column: usize },
    /// The text ended in the middle of a document.
    UnexpectedEnd,
    /// Arrays and objects are nested more deeply than the parser follows.
    DepthLimit,
    /// An escaped code point does not form a character.
    InvalidUtf8,
    /// A value had another type than the one asked for.
    WrongType,
    /// More than `MAX_FRACTION_DIGITS` digits stand in a row behind a point:
    /// the line is not given to the parser.
    FractionTooLong,
}

/// The most digits in a row behind a point that the parser can count.
pub const MAX_FRACTION_DIGITS: usize = 32_768;

/// Whether a byte is one of the digits `0` to `9`.
pub open spec fn is_digit(byte: u8) -> bool {
    48 <= byte <= 57
}

/// Whether a byte is the point `.`.
pub open spec fn is_point(byte: u8) -> bool {
    byte == 46
}

/// The number of digits that stand in a row just before the place `end`.
pub open spec fn digits_before(bytes: Seq<u8>, end: int) -> int
    decreases end,
{
    if end <= 0 || end > bytes.len() || !is_digit(bytes[end - 1]) {
        0
    } else {
        1 + digits_before(bytes, end - 1)
    }
}

/// Whether the digits that stand in a row just before the place `end` stand
/// behind a point.
pub open spec fn follows_point(bytes: Seq<u8>, end: int) -> bool {
    let start = end - digits_before(bytes, end);
    1 <= start <= bytes.len() && is_point(bytes[start - 1])
}

/// The number of digits in a row just before the place `end`, if they stand
/// behind a point, and `0` if they do not.
pub open spec fn fraction_digits_before(bytes: Seq<u8>, end: int) -> int {
    if follows_point(bytes, end) {
        digits_before(bytes, end)
    } else {
        0
    }
}

/// Nowhere in the bytes do more than `MAX_FRACTION_DIGITS` digits stand in a
/// row behind a point.
pub open spec fn fractions_fit(bytes: Seq<u8>) -> bool {
    forall|end: int|
        0 <= end <= bytes.len() ==> #[trigger] fraction_digits_before(bytes, end)
            <= MAX_FRACTION_DIGITS
}

/// What `json::parse` makes of a text: `Ok` when it accepts the text as one
/// JSON document, else the reason given by the parser. The parser reads
/// nothing but its argument, so this is a function of the text alone.
pub uninterp spec fn json_outcome(text: Seq<char>) -> Result<(), ParseError>;

/// Runs `json::parse` on `text` and drops the document it builds.
///
/// Trusted: the result is `json_outcome` of the text. The error is carried
/// over variant by variant; the message of `WrongType` is left behind.
///
/// The parser lowers a sixteen-bit exponent by one for a digit behind the
/// point of a number, starting from zero or above, and fails when the exponent
/// falls below `-32768`. It counts only digits that follow a point without a
/// break, so texts with more than `MAX_FRACTION_DIGITS` of them are kept out.
#[verifier::external_body]
fn json_check(text: &str) -> (outcome: Result<(), ParseError>)
    requires
        fractions_fit(text.spec_bytes()),
    ensures
        outcome == json_outcome(text@),
{
    match ::json::parse(text) {
        Ok(_) => Ok(()),
        Err(::json::Error::UnexpectedCharacter { ch, line, column }) => Err(
            ParseError::UnexpectedCharacter { ch, line, column },
        ),
        Err(::json::Error::UnexpectedEndOfJson) => Err(ParseError::UnexpectedEnd),
        Err(::json::Error::ExceededDepthLimit) => Err(ParseError::DepthLimit),
        Err(::json::Error::FailedUtf8Parsing) => Err(ParseError::InvalidUtf8),
        Err(::json::Error::WrongType(_)) => Err(ParseError::WrongType),
    }
}

/// A line is empty when it holds nothing but its line ending.
pub open spec fn is_empty_line(line: Seq<char>) -> bool {
    forall|i: int| 0 <= i < line.len() ==> line[i] == '\n' || line[i] == '\r'
}

/// A line holds a fraction that is too long when, in its bytes, more than
/// `MAX_FRACTION_DIGITS` digits stand in a row behind a point.
pub open spec fn has_long_fraction(line: Seq<char>) -> bool {
    !fractions_fit(encode_utf8(line))
}

/// What a line decodes to: nothing for an empty line, a complaint of its own
/// for a line with a fraction that is too long, the text of the event for a
/// line that the JSON parser accepts, the parser's complaint otherwise.
pub open spec fn decode(line: Seq<char>) -> Result<Option<Seq<char>>, ParseError> {
    if is_empty_line(line) {
        Ok(None)
    } else if has_long_fraction(line) {
        Err(ParseError::FractionTooLong)
    } else {
        match json_outcome(line) {
            Ok(_) => Ok(Some(line)),
            Err(e) => Err(e),
        }
    }
}

/// The event of a line, if it has one: `decode` with the complaints dropped.
pub open spec fn event_of(line: Seq<char>) -> Option<Seq<char>> {
    match decode(line) {
        Ok(Some(text)) => Some(text),
        _ => None,
    }
}

/// One decoded journal record. It keeps the line it was decoded from, which
/// the JSON parser is known to accept.
#[derive(Debug)]
pub struct Event {
    text: String,
}

impl View for Event {
    type V = Seq<char>;

    closed spec fn view(&self) -> Seq<char> {
        self.text@
    }
}

impl Event {
    #[verifier::type_invariant]
    spec fn accepted(&self) -> bool {
        !has_long_fraction(self.text@) && json_outcome(self.text@) is Ok
    }

    /// The JSON text of the event, which the parser can be given and accepts.
    pub fn text(&self) -> (text: &str)
        ensures
            text@ == self@,
            !has_long_fraction(text@),
            json_outcome(text@) is Ok,
    {
        proof {
            use_type_invariant(self);
        }
        self.text.as_str()
    }
}

impl Clone for Event {
    fn clone(&self) -> (copy: Self)
        ensures
            copy@ == self@,
    {
        proof {
            use_type_invariant(self);
        }
        Event { text: self.text.clone() }
    }
}

/// Tells whether `line` holds nothing but line-ending characters.
pub fn line_is_empty(line: &str) -> (empty: bool)
    ensures
        empty == is_empty_line(line@),
{
    let n = line.unicode_len();
    let mut i: usize = 0;
    while i < n
        invariant
            n == line@.len(),
            i <= n,
            forall|j: int| 0 <= j < i ==> line@[j] == '\n' || line@[j] == '\r',
        decreases n - i,
    {
        let c = line.get_char(i);
        if c != '\n' && c != '\r' {
            return false;
        }
        i += 1;
    }
    true
}

/// Tells whether nowhere in `line` more than `MAX_FRACTION_DIGITS` digits
/// stand in a row behind a point.
pub fn fractions_are_short(line: &str) -> (short: bool)
    ensures
        short == !has_long_fraction(line@),
{
    let bytes = line.as_bytes();
    let mut i: usize = 0;
    let mut run: usize = 0;
    let mut behind_point = false;
    while i < bytes.len()
        invariant
            bytes@ == encode_utf8(line@),
            i <= bytes@.len(),
            run <= i,
            run == digits_before(bytes@, i as int),
            behind_point == follows_point(bytes@, i as int),
            forall|end: int|
                0 <= end <= i ==> #[trigger] fraction_digits_before(bytes@, end)
                    <= MAX_FRACTION_DIGITS,
        decreases bytes@.len() - i,
    {
        let byte = bytes[i];
        if 48 <= byte && byte <= 57 {
            run += 1;
            assert(digits_before(bytes@, i + 1) == run);
            if behind_point && run > MAX_FRACTION_DIGITS {
                assert(fraction_digits_before(bytes@, i + 1) > MAX_FRACTION_DIGITS);
                return false;
            }
        } else {
            run = 0;
            behind_point = byte == 46;
            assert(digits_before(bytes@, i + 1) == 0);
        }
        i += 1;
    }
    true
}

/// Decodes one line of a journal.
///
/// Returns `Ok(None)` for an empty line, `Ok(Some(event))` with the line as the
/// event's text when the line is JSON, and an error otherwise: that of a
/// fraction that is too long, or else the parser's.
pub fn parse(line: &str) -> (parsed: Result<Option<Event>, ParseError>)
    ensures
        match parsed {
            Ok(None) => decode(line@) == Ok::<Option<Seq<char>>, ParseError>(None),
            Ok(Some(event)) => decode(line@) == Ok::<Option<Seq<char>>, ParseError>(
                Some(event@),
            ),
            Err(error) => decode(line@) == Err::<Option<Seq<char>>, ParseError>(error),
        },
{
    if line_is_empty(line) {
        return Ok(None);
    }
    if !fractions_are_short(line) {
        return Err(ParseError::FractionTooLong);
    }
    match json_check(line) {
        Ok(_) => Ok(Some(Event { text: String::from_str(line) })),
        Err(error) => Err(error),
    }
}

} // verus!
