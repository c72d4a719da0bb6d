//! Names of Rust toolchains, such as `stable`, `1.58.1` or
//! `nightly-2022-01-01-x86_64-unknown-linux-gnu`.

use crate::text::{
    all_digits, decimal, find_byte, index_of, is_digit_byte, lemma_decimal_bound,
    lemma_encode_concat, lemma_index_of, lemma_index_of_first, lemma_str_decodes, parse_unsigned,
    str_eq, str_from, str_until, unsigned_of,
};
use crate::triple::{parse_triple, triple_from, triple_text, triple_to_string};
use target_lexicon::Triple;
use time::{Date, Month};
use vstd::prelude::*;
use vstd::string::{StringExecFns, StringSliceAdditionalSpecFns};
use vstd::utf8::{decode_utf8, encode_utf8};

verus! {

/// Why a toolchain name could not be read.
#[derive(Clone, Copy, Debug, PartialEq, Eq, Structural)]
pub enum ParseError {
    /// A version holds a major number and nothing after it.
    MissingMinorVersion,
    /// A part of a version is not a number from 0 to 255.
    InvalidNumber,
    /// The date does not exist in the calendar.
    InvalidDate,
    /// The host is not a target triple.
    InvalidHost,
}

/// A release channel, or a version that stands for one.
#[derive(Clone, Copy, Debug, PartialEq, Eq, Structural)]
pub enum Channel {
    Stable,
    Beta,
    Nightly,
    Partial { major: u8, minor: u8 },
    Full { major: u8, minor: u8, patch: u8 },
}

/// The channel that the version `bytes` names: two or three numbers from 0 to
/// 255 separated by `.`, the third reaching to the end of the text.
pub open spec fn version_of(bytes: Seq<u8>) -> Result<Channel, ParseError> {
    let dot = index_of(bytes, 0x2e);
    match unsigned_of(bytes.take(dot), 255) {
        None => Err(ParseError::InvalidNumber),
        Some(major) => if dot == bytes.len() {
            Err(ParseError::MissingMinorVersion)
        } else {
            let rest = bytes.skip(dot + 1);
            let second = index_of(rest, 0x2e);
            match unsigned_of(rest.take(second), 255) {
                None => Err(ParseError::InvalidNumber),
                Some(minor) => if second == rest.len() {
                    Ok(Channel::Partial { major: major as u8, minor: minor as u8 })
                } else {
                    match unsigned_of(rest.skip(second + 1), 255) {
                        None => Err(ParseError::InvalidNumber),
                        Some(patch) => Ok(
                            Channel::Full {
                                major: major as u8,
                                minor: minor as u8,
                                patch: patch as u8,
                            },
                        ),
                    }
                },
            }
        },
    }
}

/// The channel that `text` names.
pub open spec fn channel_of(text: Seq<char>) -> Result<Channel, ParseError> {
    if text == "stable"@ {
        Ok(Channel::Stable)
    } else if text == "beta"@ {
        Ok(Channel::Beta)
    } else if text == "nightly"@ {
        Ok(Channel::Nightly)
    } else {
        version_of(encode_utf8(text))
    }
}

/// The decimal digits of `n`, without leading zeros.
pub open spec fn decimal_text(n: nat) -> Seq<char>
    decreases n,
{
    let digit = crate::checksums::hex_digits()[(n % 10) as int];
    if n < 10 {
        seq![digit]
    } else {
        decimal_text(n / 10).push(digit)
    }
}

/// Calls `to_string` on an integer, which writes it in base ten without
/// leading zeros.
#[verifier::external_body]
pub(crate) fn number_text(n: u64) -> (text: String)
    ensures
        text@ == decimal_text(n as nat),
{
    n.to_string()
}

impl Channel {
    /// Reads a channel name: `stable`, `beta`, `nightly`, or a version of two
    /// or three numbers.
    pub fn parse(s: &str) -> (parsed: Result<Channel, ParseError>)
        ensures
            parsed == channel_of(s@),
    {
        if str_eq(s, "stable") {
            return Ok(Channel::Stable);
        }
        if str_eq(s, "beta") {
            return Ok(Channel::Beta);
        }
        if str_eq(s, "nightly") {
            return Ok(Channel::Nightly);
        }
        let bytes = s.as_bytes();
        let dot = find_byte(bytes, 0x2e);
        proof {
            lemma_index_of(bytes@, 0x2e);
            assert(bytes@.take(dot as int) =~= bytes@.subrange(0, dot as int));
        }
        let major = match parse_unsigned(bytes, 0, dot, 255) {
            Some(n) => n as u8,
            None => {
                return Err(ParseError::InvalidNumber);
            },
        };
        if dot == bytes.len() {
            return Err(ParseError::MissingMinorVersion);
        }
        let ghost rest = bytes@.skip(dot as int + 1);
        let mut second: usize = dot + 1;
        proof {
            lemma_index_of(rest, 0x2e);
        }
        while second < bytes.len() && bytes[second] != 0x2e
            invariant
                dot + 1 <= second <= bytes@.len(),
                rest == bytes@.skip(dot as int + 1),
                forall|j: int| 0 <= j < second - dot - 1 ==> #[trigger] rest[j] != 0x2e,
                0 <= index_of(rest, 0x2e) <= rest.len(),
                index_of(rest, 0x2e) < rest.len() ==> rest[index_of(rest, 0x2e)] == 0x2e,
                forall|j: int| 0 <= j < index_of(rest, 0x2e) ==> #[trigger] rest[j] != 0x2e,
            decreases bytes@.len() - second,
        {
            assert(rest[second - dot - 1] == bytes@[second as int]);
            second += 1;
        }
        proof {
            if second < bytes@.len() {
                assert(rest[second - dot - 1] == bytes@[second as int]);
            }
            assert(index_of(rest, 0x2e) == second - dot - 1);
            assert(rest.take(second - dot - 1) =~= bytes@.subrange(dot as int + 1, second as int));
        }
        let minor = match parse_unsigned(bytes, dot + 1, second, 255) {
            Some(n) => n as u8,
            None => {
                return Err(ParseError::InvalidNumber);
            },
        };
        if second == bytes.len() {
            return Ok(Channel::Partial { major, minor });
        }
        proof {
            assert(rest.skip(second - dot) =~= bytes@.subrange(
                second as int + 1,
                bytes@.len() as int,
            ));
        }
        match parse_unsigned(bytes, second + 1, bytes.len(), 255) {
            Some(n) => Ok(Channel::Full { major, minor, patch: n as u8 }),
            None => Err(ParseError::InvalidNumber),
        }
    }

    /// The name of the channel, as [`Channel::parse`] reads it.
    pub open spec fn text(self) -> Seq<char> {
        match self {
            Channel::Stable => "stable"@,
            Channel::Beta => "beta"@,
            Channel::Nightly => "nightly"@,
            Channel::Partial { major, minor } => decimal_text(major as nat) + seq!['.']
                + decimal_text(minor as nat),
            Channel::Full { major, minor, patch } => decimal_text(major as nat) + seq!['.']
                + decimal_text(minor as nat) + seq!['.'] + decimal_text(patch as nat),
        }
    }

    /// Writes the name of the channel.
    pub fn to_string(&self) -> (name: String)
        ensures
            name@ == self.text(),
    {
        proof {
            reveal_strlit(".");
        }
        match *self {
            Channel::Stable => String::from_str("stable"),
            Channel::Beta => String::from_str("beta"),
            Channel::Nightly => String::from_str("nightly"),
            Channel::Partial { major, minor } => {
                let mut name = number_text(major as u64);
                name.append(".");
                name.append(number_text(minor as u64).as_str());
                assert("."@ =~= seq!['.']);
                name
            },
            Channel::Full { major, minor, patch } => {
                let mut name = number_text(major as u64);
                name.append(".");
                name.append(number_text(minor as u64).as_str());
                name.append(".");
                name.append(number_text(patch as u64).as_str());
                assert("."@ =~= seq!['.']);
                name
            },
        }
    }
}

impl Default for Channel {
    fn default() -> (channel: Channel)
        ensures
            channel == Channel::Stable,
    {
        Channel::Stable
    }
}

/// Whether every byte of `b` is an ASCII digit.
pub fn is_digit(b: &[u8]) -> (yes: bool)
    ensures
        yes == all_digits(b@),
{
    let mut i: usize = 0;
    while i < b.len()
        invariant
            0 <= i <= b@.len(),
            forall|j: int| 0 <= j < i ==> is_digit_byte(#[trigger] b@[j]),
        decreases b@.len() - i,
    {
        if b[i] < 0x30 || b[i] > 0x39 {
            return false;
        }
        i += 1;
    }
    true
}

/// Whether `bytes` begins with a date written as `YYYY-MM-DD`: four digits,
/// `-`, two digits, `-`, two digits.
pub open spec fn begins_with_date(bytes: Seq<u8>) -> bool {
    &&& bytes.len() >= 10
    &&& all_digits(bytes.subrange(0, 4))
    &&& bytes[4] == 0x2d
    &&& all_digits(bytes.subrange(5, 7))
    &&& bytes[7] == 0x2d
    &&& all_digits(bytes.subrange(8, 10))
}

/// Whether `s` begins with something of the shape of a date, `YYYY-MM-DD`.
pub fn maybe_date(s: &str) -> (yes: bool)
    ensures
        yes == begins_with_date(s.spec_bytes()),
{
    let sb = s.as_bytes();
    if sb.len() < 10 {
        return false;
    }
    let year = vstd::slice::slice_subrange(sb, 0, 4);
    let month = vstd::slice::slice_subrange(sb, 5, 7);
    let day = vstd::slice::slice_subrange(sb, 8, 10);
    is_digit(year) && sb[4] == 0x2d && is_digit(month) && sb[7] == 0x2d && is_digit(day)
}

/// `time::Date`, a day of the calendar. Nothing of its inside is used.
#[verifier::external_type_specification]
#[verifier::external_body]
pub struct ExDate(Date);

/// The date of the given year, month and day, if `Date::from_calendar_date`
/// accepts them.
pub uninterp spec fn calendar_date(year: int, month: int, day: int) -> Option<Date>;

/// The year, the number of the month and the day of a date.
pub uninterp spec fn date_parts(date: Date) -> (int, int, int);

/// Whether `year` is a leap year of the Gregorian calendar.
pub open spec fn is_leap_year(year: int) -> bool {
    year % 4 == 0 && (year % 100 != 0 || year % 400 == 0)
}

/// The number of days of a month, by its number.
pub open spec fn days_in_month(year: int, month: int) -> int {
    if month == 2 {
        if is_leap_year(year) {
            29
        } else {
            28
        }
    } else if month == 4 || month == 6 || month == 9 || month == 11 {
        30
    } else {
        31
    }
}

/// Whether the calendar holds the given day, in the years the `time` crate
/// represents.
pub open spec fn is_calendar_date(year: int, month: int, day: int) -> bool {
    &&& -9999 <= year <= 9999
    &&& 1 <= month <= 12
    &&& 1 <= day <= days_in_month(year, month)
}

/// Calls `Month::try_from` and `Date::from_calendar_date`. A date comes back
/// exactly when the month is one of the twelve and the day exists in it, and
/// it is the date of that year, month and day.
#[verifier::external_body]
fn date_from(year: i32, month: u8, day: u8) -> (date: Option<Date>)
    ensures
        date == calendar_date(year as int, month as int, day as int),
        date is Some <==> is_calendar_date(year as int, month as int, day as int),
        date matches Some(d) ==> date_parts(d) == (year as int, month as int, day as int),
{
    Date::from_calendar_date(year, Month::try_from(month).ok()?, day).ok()
}

/// The last `width` decimal digits of `n`, with leading zeros.
pub open spec fn fixed_digits(n: nat, width: nat) -> Seq<char>
    decreases width,
{
    if width == 0 {
        Seq::empty()
    } else {
        fixed_digits(n / 10, (width - 1) as nat).push(
            crate::checksums::hex_digits()[(n % 10) as int],
        )
    }
}

/// A date written as `YYYY-MM-DD`, with `-` before a year that is negative.
pub open spec fn iso_text(parts: (int, int, int)) -> Seq<char> {
    let sign = if parts.0 < 0 {
        seq!['-']
    } else {
        Seq::empty()
    };
    let year = if parts.0 < 0 {
        -parts.0
    } else {
        parts.0
    };
    sign + fixed_digits(year as nat, 4) + seq!['-'] + fixed_digits(parts.1 as nat, 2) + seq!['-']
        + fixed_digits(parts.2 as nat, 2)
}

/// Calls `to_string` on a date. The `time` crate holds years from -9999 to
/// 9999 and writes four digits for the year, two for the month and two for
/// the day, with `-` between them and before a negative year.
#[verifier::external_body]
fn date_to_string(date: &Date) -> (text: String)
    ensures
        text@ == iso_text(date_parts(*date)),
{
    date.to_string()
}

/// The name of a toolchain: a channel, optionally the date of a build and the
/// host that the toolchain runs on.
#[derive(Debug, Default, PartialEq, Eq)]
pub struct Toolchain {
    pub channel: Channel,
    pub date: Option<Date>,
    pub host: Option<Triple>,
}

/// The date that the ten bytes `YYYY-MM-DD` at the start of `bytes` write.
pub open spec fn date_of(bytes: Seq<u8>) -> Option<Date> {
    calendar_date(
        decimal(bytes.subrange(0, 4)) as int,
        decimal(bytes.subrange(5, 7)) as int,
        decimal(bytes.subrange(8, 10)) as int,
    )
}

/// The year, the month and the day that the ten bytes `YYYY-MM-DD` at the
/// start of `bytes` write.
pub open spec fn written_date(bytes: Seq<u8>) -> (int, int, int) {
    (
        decimal(bytes.subrange(0, 4)) as int,
        decimal(bytes.subrange(5, 7)) as int,
        decimal(bytes.subrange(8, 10)) as int,
    )
}

/// What holds of the date in a toolchain name. Where the text after the first
/// `-` begins with the shape of a date, it is read as a date exactly when the
/// calendar holds the day that is written, and the date that is read is the
/// one of the year, month and day that are written.
pub open spec fn date_read(text: Seq<char>) -> bool {
    let bytes = encode_utf8(text);
    let dash = index_of(bytes, 0x2d);
    let rest = bytes.skip(dash + 1);
    let written = written_date(rest);
    dash < bytes.len() && begins_with_date(rest) ==> {
        &&& date_of(rest) is Some <==> is_calendar_date(written.0, written.1, written.2)
        &&& match date_of(rest) {
            Some(date) => date_parts(date) == written,
            None => true,
        }
    }
}

/// What follows the channel and its `-` in a toolchain name, once a date at
/// its start is taken off.
pub open spec fn after_date(rest: Seq<u8>) -> Seq<u8> {
    if begins_with_date(rest) {
        rest.skip(10)
    } else {
        rest
    }
}

/// The bytes that name the host: what follows the date, without one leading
/// `-`.
pub open spec fn host_bytes(rest: Seq<u8>) -> Seq<u8> {
    let tail = after_date(rest);
    if tail.len() > 0 && tail[0] == 0x2d {
        tail.skip(1)
    } else {
        tail
    }
}

/// The toolchain that `text` names. The channel reaches to the first `-`.
/// After it may stand a date, and after that a host. A date that does not
/// exist is reported first, then a host that is no target triple, then what
/// is wrong with the channel.
pub open spec fn toolchain_of(text: Seq<char>) -> Result<Toolchain, ParseError> {
    let bytes = encode_utf8(text);
    let dash = index_of(bytes, 0x2d);
    if dash == bytes.len() {
        match channel_of(text) {
            Ok(channel) => Ok(Toolchain { channel, date: None, host: None }),
            Err(error) => Err(error),
        }
    } else {
        let rest = bytes.skip(dash + 1);
        let dated = begins_with_date(rest);
        let named = host_bytes(rest).len() > 0;
        let host = triple_from(decode_utf8(host_bytes(rest)));
        if dated && date_of(rest) is None {
            Err(ParseError::InvalidDate)
        } else if named && host is None {
            Err(ParseError::InvalidHost)
        } else {
            match channel_of(decode_utf8(bytes.take(dash))) {
                Ok(channel) => Ok(
                    Toolchain {
                        channel,
                        date: if dated {
                            date_of(rest)
                        } else {
                            None
                        },
                        host: if named {
                            host
                        } else {
                            None
                        },
                    },
                ),
                Err(error) => Err(error),
            }
        }
    }
}

impl Toolchain {
    /// A toolchain of the given channel, date and host.
    #[inline]
    #[must_use]
    pub fn new(channel: Channel, date: Option<Date>, host: Option<Triple>) -> (toolchain: Toolchain)
        ensures
            toolchain == (Toolchain { channel, date, host }),
    {
        Toolchain { channel, date, host }
    }

    /// The toolchain of a channel, without date and host.
    #[inline]
    #[must_use]
    pub fn channel(channel: Channel) -> (toolchain: Toolchain)
        ensures
            toolchain == (Toolchain { channel, date: None, host: None }),
    {
        Toolchain { channel, date: None, host: None }
    }

    /// The toolchain of a channel as it was built on a date.
    #[inline]
    #[must_use]
    pub fn with_date(channel: Channel, date: Date) -> (toolchain: Toolchain)
        ensures
            toolchain == (Toolchain { channel, date: Some(date), host: None }),
    {
        Toolchain { channel, date: Some(date), host: None }
    }

    /// The toolchain of a channel for a host.
    #[inline]
    #[must_use]
    pub fn with_host(channel: Channel, host: Triple) -> (toolchain: Toolchain)
        ensures
            toolchain == (Toolchain { channel, date: None, host: Some(host) }),
    {
        Toolchain { channel, date: None, host: Some(host) }
    }

    /// The toolchain of a channel as it was built on a date, for a host.
    #[inline]
    #[must_use]
    pub fn with_date_and_host(channel: Channel, date: Date, host: Triple) -> (toolchain: Toolchain)
        ensures
            toolchain == (Toolchain { channel, date: Some(date), host: Some(host) }),
    {
        Toolchain { channel, date: Some(date), host: Some(host) }
    }

    /// Reads the name of a toolchain.
    pub fn parse(s: &str) -> (parsed: Result<Toolchain, ParseError>)
        ensures
            parsed == toolchain_of(s@),
            date_read(s@),
    {
        let bytes = s.as_bytes();
        let dash = find_byte(bytes, 0x2d);
        proof {
            lemma_index_of(bytes@, 0x2d);
        }
        if dash == bytes.len() {
            return match Channel::parse(s) {
                Ok(channel) => Ok(Toolchain::channel(channel)),
                Err(error) => Err(error),
            };
        }
        let head = str_until(s, dash);
        let rest = str_from(s, dash + 1);
        let ghost rest_bytes = bytes@.skip(dash as int + 1);
        proof {
            lemma_str_decodes(head);
        }
        let dated = maybe_date(rest);
        let mut date: Option<Date> = None;
        let mut tail = rest;
        if dated {
            let rb = rest.as_bytes();
            proof {
                lemma_decimal_bound(rb@.subrange(0, 4));
                lemma_decimal_bound(rb@.subrange(5, 7));
                lemma_decimal_bound(rb@.subrange(8, 10));
                assert(rb@.subrange(0, 4).drop_first() =~= rb@.subrange(1, 4));
            }
            let year = parse_unsigned(rb, 0, 4, 9999);
            let month = parse_unsigned(rb, 5, 7, 99);
            let day = parse_unsigned(rb, 8, 10, 99);
            assert(year is Some && month is Some && day is Some);
            match (year, month, day) {
                (Some(y), Some(m), Some(d)) => {
                    match date_from(y as i32, m as u8, d as u8) {
                        Some(found) => {
                            date = Some(found);
                        },
                        None => {
                            return Err(ParseError::InvalidDate);
                        },
                    }
                },
                _ => {
                    return Err(ParseError::InvalidDate);
                },
            }
            assert(is_digit_byte(rb@.subrange(8, 10)[1]));
            tail = str_from(rest, 10);
        }
        assert(tail.spec_bytes() == after_date(rest_bytes));
        let tb = tail.as_bytes();
        let named = if tb.len() > 0 && tb[0] == 0x2d {
            str_from(tail, 1)
        } else {
            tail
        };
        assert(named.spec_bytes() == host_bytes(rest_bytes));
        proof {
            lemma_str_decodes(named);
        }
        let mut host: Option<Triple> = None;
        if named.as_bytes().len() > 0 {
            match parse_triple(named) {
                Some(triple) => {
                    host = Some(triple);
                },
                None => {
                    return Err(ParseError::InvalidHost);
                },
            }
        }
        match Channel::parse(head) {
            Ok(channel) => Ok(Toolchain { channel, date, host }),
            Err(error) => Err(error),
        }
    }

    /// The name of the toolchain: the channel, then the date and the host,
    /// each with a `-` before it, as far as they are set.
    pub open spec fn text(&self) -> Seq<char> {
        self.channel.text() + match self.date {
            Some(date) => seq!['-'] + iso_text(date_parts(date)),
            None => Seq::empty(),
        } + match self.host {
            Some(host) => seq!['-'] + triple_text(host),
            None => Seq::empty(),
        }
    }

    /// Writes the name of the toolchain.
    pub fn to_string(&self) -> (name: String)
        ensures
            name@ == self.text(),
    {
        proof {
            reveal_strlit("-");
        }
        let mut name = self.channel.to_string();
        let ghost channel = name@;
        if let Some(date) = &self.date {
            name.append("-");
            name.append(date_to_string(date).as_str());
            assert(name@ =~= channel + (seq!['-'] + iso_text(date_parts(*date))));
        } else {
            assert(name@ =~= channel + Seq::<char>::empty());
        }
        let ghost dated = name@;
        if let Some(host) = &self.host {
            name.append("-");
            name.append(triple_to_string(host).as_str());
            assert(name@ =~= dated + (seq!['-'] + triple_text(*host)));
        } else {
            assert(name@ =~= dated + Seq::<char>::empty());
        }
        name
    }
}

/// The bytes of a number written in base ten are digits, at least one, and
/// they write that number.
pub proof fn lemma_decimal_text(n: nat)
    ensures
        decimal_text(n).len() > 0,
        encode_utf8(decimal_text(n)).len() == decimal_text(n).len(),
        all_digits(encode_utf8(decimal_text(n))),
        decimal(encode_utf8(decimal_text(n))) == n,
        forall|i: int|
            0 <= i < decimal_text(n).len() ==> '0' <= #[trigger] decimal_text(n)[i] <= '9',
    decreases n,
{
    let k = (n % 10) as int;
    let digit = crate::checksums::hex_digits()[k];
    let one = seq![digit];
    assert('0' <= digit <= '9' && digit as u32 == 0x30 + k) by {
        assert(0 <= k < 10);
        assert(crate::checksums::hex_digits()[0] == '0');
        assert(crate::checksums::hex_digits()[1] == '1');
        assert(crate::checksums::hex_digits()[2] == '2');
        assert(crate::checksums::hex_digits()[3] == '3');
        assert(crate::checksums::hex_digits()[4] == '4');
        assert(crate::checksums::hex_digits()[5] == '5');
        assert(crate::checksums::hex_digits()[6] == '6');
        assert(crate::checksums::hex_digits()[7] == '7');
        assert(crate::checksums::hex_digits()[8] == '8');
        assert(crate::checksums::hex_digits()[9] == '9');
    }
    assert(vstd::utf8::is_ascii_chars(one));
    vstd::utf8::is_ascii_chars_encode_utf8(one);
    let last = encode_utf8(one);
    assert(last.len() == 1 && last[0] == 0x30 + k);
    if n < 10 {
        assert(decimal_text(n) =~= one);
        assert(last.drop_last() =~= Seq::<u8>::empty());
        reveal_with_fuel(decimal, 2);
    } else {
        let front = decimal_text(n / 10);
        lemma_decimal_text(n / 10);
        lemma_encode_concat(front, one);
        assert(decimal_text(n) =~= front + one);
        let bytes = encode_utf8(decimal_text(n));
        assert(bytes.drop_last() =~= encode_utf8(front));
        assert(bytes.last() == last[0]);
        assert(all_digits(bytes)) by {
            assert forall|i: int| 0 <= i < bytes.len() implies is_digit_byte(#[trigger] bytes[i]) by {
                if i < encode_utf8(front).len() {
                    assert(bytes[i] == encode_utf8(front)[i]);
                }
            }
        }
    }
}

/// What [`lemma_decimal_text`] says of a part of a version: its bytes are read
/// back as the number, and hold neither a dot nor a dash.
proof fn lemma_version_part(n: u8)
    ensures
        unsigned_of(encode_utf8(decimal_text(n as nat)), 255) == Some(n as nat),
        forall|j: int|
            0 <= j < encode_utf8(decimal_text(n as nat)).len() ==> {
                let b = #[trigger] encode_utf8(decimal_text(n as nat))[j];
                b != 0x2e && b != 0x2d && b != 0x2b
            },
{
    lemma_decimal_text(n as nat);
    let bytes = encode_utf8(decimal_text(n as nat));
    assert forall|j: int| 0 <= j < bytes.len() implies {
        let b = #[trigger] bytes[j];
        b != 0x2e && b != 0x2d && b != 0x2b
    } by {
        assert(is_digit_byte(bytes[j]));
    }
    assert(bytes[0] != 0x2b);
}

/// The bytes of the three words that name a channel: lower-case letters.
proof fn lemma_channel_words()
    ensures
        "stable"@ != "beta"@,
        "stable"@ != "nightly"@,
        "beta"@ != "nightly"@,
        "stable"@.len() > 0 && "stable"@[0] == 's',
        "beta"@.len() > 0 && "beta"@[0] == 'b',
        "nightly"@.len() > 0 && "nightly"@[0] == 'n',
        forall|j: int| 0 <= j < encode_utf8("stable"@).len() ==> encode_utf8("stable"@)[j] != 0x2d,
        forall|j: int| 0 <= j < encode_utf8("beta"@).len() ==> encode_utf8("beta"@)[j] != 0x2d,
        forall|j: int| 0 <= j < encode_utf8("nightly"@).len() ==> encode_utf8("nightly"@)[j] != 0x2d,
{
    reveal_strlit("stable");
    reveal_strlit("beta");
    reveal_strlit("nightly");
    assert("stable"@.len() == 6 && "beta"@.len() == 4 && "nightly"@.len() == 7);
    assert(vstd::utf8::is_ascii_chars("stable"@));
    assert(vstd::utf8::is_ascii_chars("beta"@));
    assert(vstd::utf8::is_ascii_chars("nightly"@));
    vstd::utf8::is_ascii_chars_encode_utf8("stable"@);
    vstd::utf8::is_ascii_chars_encode_utf8("beta"@);
    vstd::utf8::is_ascii_chars_encode_utf8("nightly"@);
}

/// The bytes of a version: the digits of its numbers with dots between them.
proof fn lemma_version_bytes(first: Seq<char>, second: Seq<char>)
    ensures
        encode_utf8(first + seq!['.'] + second) == encode_utf8(first) + seq![0x2eu8] + encode_utf8(
            second,
        ),
{
    let dot = seq!['.'];
    assert(vstd::utf8::is_ascii_chars(dot));
    vstd::utf8::is_ascii_chars_encode_utf8(dot);
    assert(encode_utf8(dot) =~= seq![0x2eu8]);
    lemma_encode_concat(first, dot);
    lemma_encode_concat(first + dot, second);
}

/// A channel is read back from its name: what [`Channel::to_string`] writes,
/// [`Channel::parse`] reads as the same channel.
pub proof fn lemma_channel_round_trip(channel: Channel)
    ensures
        channel_of(channel.text()) == Ok::<Channel, ParseError>(channel),
{
    lemma_channel_words();
    match channel {
        Channel::Stable => {},
        Channel::Beta => {},
        Channel::Nightly => {},
        Channel::Partial { major, minor } => {
            let a = decimal_text(major as nat);
            let b = decimal_text(minor as nat);
            let text = channel.text();
            lemma_decimal_text(major as nat);
            lemma_version_part(major);
            lemma_version_part(minor);
            lemma_version_bytes(a, b);
            assert(text[0] == a[0]);
            let x = encode_utf8(a);
            let y = encode_utf8(b);
            let bytes = encode_utf8(text);
            assert(bytes == x + seq![0x2eu8] + y);
            assert(bytes[x.len() as int] == 0x2e);
            assert forall|j: int| 0 <= j < x.len() implies #[trigger] bytes[j] != 0x2e by {
                assert(bytes[j] == x[j]);
            }
            lemma_index_of_first(bytes, 0x2e, x.len() as int);
            assert(bytes.take(x.len() as int) =~= x);
            let rest = bytes.skip(x.len() as int + 1);
            assert(rest =~= y);
            lemma_index_of_first(rest, 0x2e, y.len() as int);
            assert(rest.take(y.len() as int) =~= y);
        },
        Channel::Full { major, minor, patch } => {
            let a = decimal_text(major as nat);
            let b = decimal_text(minor as nat);
            let c = decimal_text(patch as nat);
            let text = channel.text();
            lemma_decimal_text(major as nat);
            lemma_version_part(major);
            lemma_version_part(minor);
            lemma_version_part(patch);
            lemma_version_bytes(a, b);
            lemma_version_bytes(a + seq!['.'] + b, c);
            assert(text[0] == a[0]);
            let x = encode_utf8(a);
            let y = encode_utf8(b);
            let z = encode_utf8(c);
            let bytes = encode_utf8(text);
            assert(bytes == x + seq![0x2eu8] + y + seq![0x2eu8] + z);
            assert(bytes[x.len() as int] == 0x2e);
            assert forall|j: int| 0 <= j < x.len() implies #[trigger] bytes[j] != 0x2e by {
                assert(bytes[j] == x[j]);
            }
            lemma_index_of_first(bytes, 0x2e, x.len() as int);
            assert(bytes.take(x.len() as int) =~= x);
            let rest = bytes.skip(x.len() as int + 1);
            assert(rest =~= y + seq![0x2eu8] + z);
            assert(rest[y.len() as int] == 0x2e);
            assert forall|j: int| 0 <= j < y.len() implies #[trigger] rest[j] != 0x2e by {
                assert(rest[j] == y[j]);
            }
            lemma_index_of_first(rest, 0x2e, y.len() as int);
            assert(rest.take(y.len() as int) =~= y);
            assert(rest.skip(y.len() as int + 1) =~= z);
        },
    }
}

/// A toolchain that is a channel alone is read back from its name. With a
/// date or a host the same would need what the crates that write and read
/// them do not promise: that they read back what they wrote.
pub proof fn lemma_channel_toolchain_round_trip(channel: Channel)
    ensures
        toolchain_of((Toolchain { channel, date: None, host: None }).text()) == Ok::<
            Toolchain,
            ParseError,
        >(Toolchain { channel, date: None, host: None }),
{
    let toolchain = Toolchain { channel, date: None, host: None };
    let text = channel.text();
    assert(toolchain.text() =~= text);
    lemma_channel_round_trip(channel);
    lemma_channel_words();
    let bytes = encode_utf8(text);
    assert forall|j: int| 0 <= j < bytes.len() implies #[trigger] bytes[j] != 0x2d by {
        match channel {
            Channel::Stable => {},
            Channel::Beta => {},
            Channel::Nightly => {},
            Channel::Partial { major, minor } => {
                let x = encode_utf8(decimal_text(major as nat));
                let y = encode_utf8(decimal_text(minor as nat));
                lemma_version_part(major);
                lemma_version_part(minor);
                lemma_version_bytes(decimal_text(major as nat), decimal_text(minor as nat));
                if j < x.len() {
                    assert(bytes[j] == x[j]);
                } else if j > x.len() {
                    assert(bytes[j] == y[j - x.len() - 1]);
                }
            },
            Channel::Full { major, minor, patch } => {
                let a = decimal_text(major as nat);
                let b = decimal_text(minor as nat);
                let c = decimal_text(patch as nat);
                let x = encode_utf8(a);
                let y = encode_utf8(b);
                let z = encode_utf8(c);
                lemma_version_part(major);
                lemma_version_part(minor);
                lemma_version_part(patch);
                lemma_version_bytes(a, b);
                lemma_version_bytes(a + seq!['.'] + b, c);
                assert(bytes == x + seq![0x2eu8] + y + seq![0x2eu8] + z);
                if j < x.len() {
                    assert(bytes[j] == x[j]);
                } else if x.len() < j < x.len() + 1 + y.len() {
                    assert(bytes[j] == y[j - x.len() - 1]);
                } else if j > x.len() + 1 + y.len() {
                    assert(bytes[j] == z[j - x.len() - y.len() - 2]);
                }
            },
        }
    }
    lemma_index_of_first(bytes, 0x2d, bytes.len() as int);
}

impl std::str::FromStr for Channel {
    type Err = ParseError;

    /// Reads a channel name, as [`Channel::parse`] does.
    fn from_str(s: &str) -> (parsed: Result<Self, Self::Err>)
        ensures
            parsed == channel_of(s@),
    {
        Channel::parse(s)
    }
}

impl std::str::FromStr for Toolchain {
    type Err = ParseError;

    /// Reads the name of a toolchain, as [`Toolchain::parse`] does.
    fn from_str(s: &str) -> (parsed: Result<Self, Self::Err>)
        ensures
            parsed == toolchain_of(s@),
            date_read(s@),
    {
        Toolchain::parse(s)
    }
}

} // verus!
