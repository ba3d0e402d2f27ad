//! Prefixes that hold a point in time.

use crate::error::Error;
use crate::prefix::Prefix;
use vstd::prelude::*;

verus! {

/// The RFC 3339 text, with six digits of the second's fraction and a numeric
/// offset, of the instant `seconds` after the epoch and `nanos` into that
/// second, seen from `offset` seconds east of Greenwich.
pub uninterp spec fn rfc3339_micros(seconds: int, nanos: int, offset: int) -> Seq<char>;

/// The instant that `text` names, as seconds after the epoch, nanoseconds
/// into that second and seconds east of Greenwich, if `text` is a timestamp.
pub uninterp spec fn rfc3339_instant(text: Seq<char>) -> Option<(i64, u32, i32)>;

/// The first second of the year 0 and the last of the year 9999, counted
/// from the epoch.
pub const FIRST_SECOND: i64 = -62_167_219_200;

pub const LAST_SECOND: i64 = 253_402_300_799;

/// The instants that have a text of the fixed profile: an offset of less
/// than a day, a local year of four digits, and a second's fraction that
/// passes one second only in a leap second, which ends a minute.
pub open spec fn representable(seconds: int, nanos: int, offset: int) -> bool {
    &&& -86_400 < offset < 86_400
    &&& FIRST_SECOND <= seconds + offset <= LAST_SECOND
    &&& 0 <= nanos < 2_000_000_000
    &&& nanos >= 1_000_000_000 ==> seconds % 60 == 59
}

/// The characters that a timestamp of the fixed profile is written with.
pub open spec fn is_timestamp_char(c: char) -> bool {
    ('0' <= c && c <= '9') || c == '-' || c == 'T' || c == ':' || c == '.' || c == '+'
}

/// A character of a timestamp as it stands in a prefix: `:`, `.` and `+`
/// have no place there and become `c`, `d` and `p`.
pub open spec fn substitute(c: char) -> char {
    if c == ':' {
        'c'
    } else if c == '.' {
        'd'
    } else if c == '+' {
        'p'
    } else {
        c
    }
}

/// A character of a prefix as it stood in the timestamp.
pub open spec fn restore(c: char) -> char {
    if c == 'c' {
        ':'
    } else if c == 'd' {
        '.'
    } else if c == 'p' {
        '+'
    } else {
        c
    }
}

/// `text` with every character substituted.
pub open spec fn substituted(text: Seq<char>) -> Seq<char> {
    Seq::new(text.len(), |i: int| substitute(text[i]))
}

/// `text` with every character restored.
pub open spec fn restored(text: Seq<char>) -> Seq<char> {
    Seq::new(text.len(), |i: int| restore(text[i]))
}

/// Restoring undoes substituting on every text without `c`, `d` and `p`.
pub proof fn lemma_restore_substituted(text: Seq<char>)
    requires
        forall|i: int| 0 <= i < text.len() ==> text[i] != 'c' && text[i] != 'd' && text[i] != 'p',
    ensures
        restored(substituted(text)) == text,
{
    assert(restored(substituted(text)) =~= text);
}

/// Substituting undoes restoring on every text without `:`, `.` and `+`.
pub proof fn lemma_substitute_restored(text: Seq<char>)
    requires
        forall|i: int| 0 <= i < text.len() ==> text[i] != ':' && text[i] != '.' && text[i] != '+',
    ensures
        substituted(restored(text)) == text,
{
    assert(substituted(restored(text)) =~= text);
}

/// A substituted timestamp holds none of `:`, `.` and `+`, and only
/// characters of one byte.
pub proof fn lemma_substituted_chars(text: Seq<char>, i: int)
    requires
        forall|j: int| 0 <= j < text.len() ==> is_timestamp_char(#[trigger] text[j]),
        0 <= i < text.len(),
    ensures
        substituted(text)[i] != ':',
        substituted(text)[i] != '.',
        substituted(text)[i] != '+',
        (substituted(text)[i] as u32) < 128,
{
    assert(is_timestamp_char(text[i]));
}

/// `DateTime::to_rfc3339_opts` of `chrono`, with `SecondsFormat::Micros` and
/// without the `Z` shorthand, on the instant made by `DateTime::from_timestamp`
/// and seen from `FixedOffset::east_opt(offset)`. The text depends on the
/// three numbers alone. For a local year of four digits it has 32 characters:
/// date, `T`, time, `.`, six digits, a sign and the offset as hours, `:` and
/// minutes; none but digits, `-`, `T`, `:`, `.` and `+` occur in it. Both
/// constructors return a value on every representable instant.
#[verifier::external_body]
fn render_rfc3339_micros(seconds: i64, nanos: u32, offset: i32) -> (text: String)
    requires
        representable(seconds as int, nanos as int, offset as int),
    ensures
        text@ == rfc3339_micros(seconds as int, nanos as int, offset as int),
        text@.len() == 32,
        forall|i: int| 0 <= i < text@.len() ==> is_timestamp_char(#[trigger] text@[i]),
{
    let zone = chrono::FixedOffset::east_opt(offset).unwrap();
    let utc = chrono::DateTime::from_timestamp(seconds, nanos).unwrap();
    utc.with_timezone(&zone).to_rfc3339_opts(chrono::SecondsFormat::Micros, false)
}

/// `str::parse` to a `chrono::DateTime<FixedOffset>`, which reads a relaxed
/// RFC 3339: the result is the instant read, by `timestamp`,
/// `timestamp_subsec_nanos` and the offset's `local_minus_utc`, or nothing
/// where `chrono` refuses the text. It depends on the text alone.
#[verifier::external_body]
fn parse_rfc3339(text: &str) -> (r: Option<(i64, u32, i32)>)
    ensures
        r == rfc3339_instant(text@),
{
    match text.parse::<chrono::DateTime<chrono::FixedOffset>>() {
        Ok(t) => Some((t.timestamp(), t.timestamp_subsec_nanos(), t.offset().local_minus_utc())),
        Err(_) => None,
    }
}

/// A representable instant together with the offset it is seen from.
#[derive(Debug, Clone, Copy, PartialEq, Eq, Hash)]
pub struct TimeStamp {
    seconds: i64,
    nanos: u32,
    offset: i32,
}

impl TimeStamp {
    #[verifier::type_invariant]
    closed spec fn inv(self) -> bool {
        representable(self.seconds as int, self.nanos as int, self.offset as int)
    }

    /// Seconds after the epoch.
    pub closed spec fn spec_seconds(self) -> int {
        self.seconds as int
    }

    /// Nanoseconds into the second.
    pub closed spec fn spec_nanos(self) -> int {
        self.nanos as int
    }

    /// Seconds east of Greenwich.
    pub closed spec fn spec_offset(self) -> int {
        self.offset as int
    }

    /// The text of this instant.
    pub open spec fn rendering(self) -> Seq<char> {
        rfc3339_micros(self.spec_seconds(), self.spec_nanos(), self.spec_offset())
    }

    /// The instant of the given numbers, if it is representable.
    pub fn new(seconds: i64, nanos: u32, offset: i32) -> (r: Option<TimeStamp>)
        ensures
            r is Some <==> representable(seconds as int, nanos as int, offset as int),
            r matches Some(t) ==> t.spec_seconds() == seconds && t.spec_nanos() == nanos
                && t.spec_offset() == offset,
    {
        if offset <= -86_400 || offset >= 86_400 {
            return None;
        }
        if seconds < FIRST_SECOND - 86_400 || seconds > LAST_SECOND + 86_400 {
            return None;
        }
        let local: i64 = seconds + offset as i64;
        if local < FIRST_SECOND || local > LAST_SECOND {
            return None;
        }
        if nanos >= 2_000_000_000 {
            return None;
        }
        if nanos >= 1_000_000_000 && seconds.checked_rem_euclid(60) != Some(59) {
            return None;
        }
        Some(TimeStamp { seconds, nanos, offset })
    }

    pub fn seconds(&self) -> (s: i64)
        ensures
            s == self.spec_seconds(),
    {
        self.seconds
    }

    pub fn nanos(&self) -> (n: u32)
        ensures
            n == self.spec_nanos(),
    {
        self.nanos
    }

    pub fn offset(&self) -> (o: i32)
        ensures
            o == self.spec_offset(),
    {
        self.offset
    }

    /// Writes the instant as RFC 3339 with microseconds and a numeric offset.
    pub fn to_rfc3339(&self) -> (text: String)
        ensures
            text@ == self.rendering(),
            text@.len() == 32,
            forall|i: int| 0 <= i < text@.len() ==> is_timestamp_char(#[trigger] text@[i]),
    {
        proof {
            use_type_invariant(self);
        }
        render_rfc3339_micros(self.seconds, self.nanos, self.offset)
    }
}

/// The code of every timestamp prefix.
pub open spec fn datetime_code() -> Seq<char> {
    seq!['1', 'A', 'A', 'G']
}

/// A text of one-byte characters, as bytes.
pub open spec fn ascii_bytes(text: Seq<char>) -> Seq<u8> {
    Seq::new(text.len(), |i: int| text[i] as u8)
}

/// What the outcome of parsing a timestamp is worth: an instant that is
/// representable, or a failure.
pub open spec fn accepted(parsed: Option<(i64, u32, i32)>) -> Result<(int, int, int), Error> {
    match parsed {
        Some((seconds, nanos, offset)) => if representable(
            seconds as int,
            nanos as int,
            offset as int,
        ) {
            Ok((seconds as int, nanos as int, offset as int))
        } else {
            Err(Error::TimestampParseError)
        },
        None => Err(Error::TimestampParseError),
    }
}

/// What reading `text` as a timestamp prefix gives: behind the code `1AAG`,
/// the instant that the restored rest names.
pub open spec fn parse_datetime(text: Seq<char>) -> Result<(int, int, int), Error> {
    if text.len() == 0 || text[0] != '1' {
        Err(Error::UnknownPrefixCode)
    } else if text.len() < 4 || text[1] != 'A' || text[2] != 'A' || text[3] != 'G' {
        Err(Error::UnknownDerivationCode)
    } else {
        accepted(rfc3339_instant(restored(text.skip(4))))
    }
}

/// Replaces `:`, `.` and `+` by `c`, `d` and `p`.
pub fn substitute_text(text: &str) -> (r: String)
    ensures
        r@ == substituted(text@),
{
    let n = text.unicode_len();
    let mut r = String::new();
    let mut i: usize = 0;
    while i < n
        invariant
            i <= n,
            n == text@.len(),
            r@ == substituted(text@.take(i as int)),
        decreases n - i,
    {
        let c = text.get_char(i);
        proof {
            reveal_strlit("c");
            reveal_strlit("d");
            reveal_strlit("p");
        }
        if c == ':' {
            r.append("c");
        } else if c == '.' {
            r.append("d");
        } else if c == '+' {
            r.append("p");
        } else {
            r.append(text.substring_char(i, i + 1));
        }
        i += 1;
        assert(r@ =~= substituted(text@.take(i as int)));
    }
    assert(text@.take(n as int) =~= text@);
    r
}

/// Replaces `c`, `d` and `p` by `:`, `.` and `+`.
pub fn restore_text(text: &str) -> (r: String)
    ensures
        r@ == restored(text@),
{
    let n = text.unicode_len();
    let mut r = String::new();
    let mut i: usize = 0;
    while i < n
        invariant
            i <= n,
            n == text@.len(),
            r@ == restored(text@.take(i as int)),
        decreases n - i,
    {
        let c = text.get_char(i);
        proof {
            reveal_strlit(":");
            reveal_strlit(".");
            reveal_strlit("+");
        }
        if c == 'c' {
            r.append(":");
        } else if c == 'd' {
            r.append(".");
        } else if c == 'p' {
            r.append("+");
        } else {
            r.append(text.substring_char(i, i + 1));
        }
        i += 1;
        assert(r@ =~= restored(text@.take(i as int)));
    }
    assert(text@.take(n as int) =~= text@);
    r
}

/// A point in time as a prefix.
#[derive(Debug, Clone, Copy, PartialEq, Eq, Hash)]
pub struct DateTimePrefix {
    datetime: TimeStamp,
}

impl DateTimePrefix {
    /// The instant held.
    pub closed spec fn spec_datetime(self) -> TimeStamp {
        self.datetime
    }

    /// The instant held, as seconds, nanoseconds and offset.
    pub open spec fn instant(self) -> (int, int, int) {
        (
            self.spec_datetime().spec_seconds(),
            self.spec_datetime().spec_nanos(),
            self.spec_datetime().spec_offset(),
        )
    }

    /// The prefix of `datetime`.
    pub fn new(datetime: TimeStamp) -> (p: DateTimePrefix)
        ensures
            p.spec_datetime() == datetime,
    {
        DateTimePrefix { datetime }
    }

    /// The instant held.
    pub fn datetime(&self) -> (t: TimeStamp)
        ensures
            t == self.spec_datetime(),
    {
        self.datetime
    }

    /// Makes a prefix of a parsed timestamp, if there is one and it is
    /// representable.
    pub fn from_parsed(parsed: Option<(i64, u32, i32)>) -> (r: Result<DateTimePrefix, Error>)
        ensures
            match r {
                Ok(p) => accepted(parsed) == Ok::<(int, int, int), Error>(p.instant()),
                Err(e) => accepted(parsed) == Err::<(int, int, int), Error>(e),
            },
    {
        match parsed {
            Some((seconds, nanos, offset)) => match TimeStamp::new(seconds, nanos, offset) {
                Some(t) => Ok(DateTimePrefix::new(t)),
                None => Err(Error::TimestampParseError),
            },
            None => Err(Error::TimestampParseError),
        }
    }

    /// Reads a prefix from its text.
    pub fn from_str(s: &str) -> (r: Result<DateTimePrefix, Error>)
        ensures
            match r {
                Ok(p) => parse_datetime(s@) == Ok::<(int, int, int), Error>(p.instant()),
                Err(e) => parse_datetime(s@) == Err::<(int, int, int), Error>(e),
            },
    {
        let n = s.unicode_len();
        if n == 0 || s.get_char(0) != '1' {
            return Err(Error::UnknownPrefixCode);
        }
        if n < 4 || s.get_char(1) != 'A' || s.get_char(2) != 'A' || s.get_char(3) != 'G' {
            return Err(Error::UnknownDerivationCode);
        }
        let body = restore_text(s.substring_char(4, n));
        assert(s@.subrange(4, n as int) =~= s@.skip(4));
        DateTimePrefix::from_parsed(parse_rfc3339(body.as_str()))
    }
}

impl Prefix for DateTimePrefix {
    open spec fn derivative_bytes(&self) -> Seq<u8> {
        ascii_bytes(substituted(self.spec_datetime().rendering()))
    }

    open spec fn code_text(&self) -> Seq<char> {
        datetime_code()
    }

    open spec fn text(&self) -> Seq<char> {
        datetime_code() + substituted(self.spec_datetime().rendering())
    }

    fn derivative(&self) -> (d: Vec<u8>) {
        let plain = self.datetime.to_rfc3339();
        let body = substitute_text(plain.as_str());
        let text = body.as_str();
        proof {
            assert forall|i: int| 0 <= i < text@.len() implies '\0' <= #[trigger] text@[i]
                <= '\u{7f}' by {
                lemma_substituted_chars(plain@, i);
            }
            vstd::string::is_ascii_spec_bytes(text);
        }
        let d = text.as_bytes_vec();
        assert(d@ =~= self.derivative_bytes());
        d
    }

    fn derivation_code(&self) -> (c: String) {
        proof {
            reveal_strlit("1AAG");
        }
        let c = "1AAG".to_owned();
        assert(c@ =~= datetime_code());
        c
    }

    fn to_str(&self) -> (s: String) {
        let plain = self.datetime.to_rfc3339();
        let body = substitute_text(plain.as_str());
        let mut s = self.derivation_code();
        s.append(body.as_str());
        s
    }
}

impl core::str::FromStr for DateTimePrefix {
    type Err = Error;

    /// Reads a prefix from its text, as `DateTimePrefix::from_str` does:
    /// behind the code `1AAG`, the instant that the restored rest names.
    fn from_str(s: &str) -> (r: Result<DateTimePrefix, Error>)
        ensures
            match r {
                Ok(p) => parse_datetime(s@) == Ok::<(int, int, int), Error>(p.instant()),
                Err(e) => parse_datetime(s@) == Err::<(int, int, int), Error>(e),
            },
    {
        DateTimePrefix::from_str(s)
    }
}

/// Every timestamp prefix has 36 characters, none of them `:`, `.` or `+`.
pub proof fn lemma_datetime_text(rendering: Seq<char>)
    requires
        rendering.len() == 32,
        forall|i: int| 0 <= i < rendering.len() ==> is_timestamp_char(#[trigger] rendering[i]),
    ensures
        (datetime_code() + substituted(rendering)).len() == 36,
        forall|i: int|
            0 <= i < 36 ==> {
                let c = #[trigger] (datetime_code() + substituted(rendering))[i];
                c != ':' && c != '.' && c != '+'
            },
{
    assert forall|i: int| 0 <= i < 36 implies {
        let c = #[trigger] (datetime_code() + substituted(rendering))[i];
        c != ':' && c != '.' && c != '+'
    } by {
        if i >= 4 {
            lemma_substituted_chars(rendering, i - 4);
        }
    }
}

/// Reading the prefix of a timestamp parses the very text that the
/// timestamp was rendered as: the substitution loses nothing.
pub proof fn lemma_datetime_round_trip(rendering: Seq<char>)
    requires
        forall|i: int| 0 <= i < rendering.len() ==> is_timestamp_char(#[trigger] rendering[i]),
    ensures
        parse_datetime(datetime_code() + substituted(rendering)) == accepted(
            rfc3339_instant(rendering),
        ),
{
    let text = datetime_code() + substituted(rendering);
    assert(text.skip(4) =~= substituted(rendering));
    assert forall|i: int| 0 <= i < rendering.len() implies rendering[i] != 'c' && rendering[i]
        != 'd' && rendering[i] != 'p' by {
        assert(is_timestamp_char(rendering[i]));
    }
    lemma_restore_substituted(rendering);
}

} // verus!
