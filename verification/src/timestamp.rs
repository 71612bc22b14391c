//! Reading the timestamp of a stored review, which is written either as a
//! number of seconds or as a map that holds a number of milliseconds.

use chrono::{TimeZone, Utc};
use vstd::prelude::*;

verus! {

/// One entry of a timestamp map: its key and, where its value is an object
/// with a text under `$numberLong`, that text.
#[derive(Clone, Debug, PartialEq, Eq)]
pub struct MapEntry {
    pub key: String,
    pub number_long: Option<String>,
}

/// A timestamp as it is found in a document.
#[derive(Clone, Debug, PartialEq, Eq)]
pub enum RawTimestamp {
    /// Seconds since the start of 1970, UTC.
    Seconds(u64),
    /// A map, by its entries in order.
    Document(Vec<MapEntry>),
}

/// Why a timestamp could not be read.
#[derive(Clone, Copy, Debug, PartialEq, Eq)]
pub enum TimestampError {
    /// The number of seconds does not fit a signed 64-bit integer.
    Conversion,
    /// The map has no readable number of milliseconds under `$date`.
    Missing,
    /// The instant lies outside the range of dates that can be represented.
    OutOfRange,
}

impl TimestampError {
    /// A message for the error, fit for a log or a terminal.
    pub fn message(&self) -> (r: &'static str)
        ensures
            r@ == match self {
                TimestampError::Conversion => "Failed to convert u64"@,
                TimestampError::Missing => "Failed to get timestamp from map"@,
                TimestampError::OutOfRange => "Failed to get unique conversion result"@,
            },
    {
        match self {
            TimestampError::Conversion => "Failed to convert u64",
            TimestampError::Missing => "Failed to get timestamp from map",
            TimestampError::OutOfRange => "Failed to get unique conversion result",
        }
    }
}

/// The mathematical value of a [`MapEntry`].
pub struct MapEntryView {
    pub key: Seq<char>,
    pub number_long: Option<Seq<char>>,
}

impl DeepView for MapEntry {
    type V = MapEntryView;

    open spec fn deep_view(&self) -> MapEntryView {
        MapEntryView { key: self.key@, number_long: self.number_long.deep_view() }
    }
}

/// The mathematical value of a [`RawTimestamp`].
pub enum RawTimestampView {
    Seconds(u64),
    Document(Seq<MapEntryView>),
}

impl DeepView for RawTimestamp {
    type V = RawTimestampView;

    open spec fn deep_view(&self) -> RawTimestampView {
        match self {
            RawTimestamp::Seconds(s) => RawTimestampView::Seconds(*s),
            RawTimestamp::Document(entries) => RawTimestampView::Document(entries.deep_view()),
        }
    }
}

/// The number that a text of decimal digits spells.
pub open spec fn digits_value(s: Seq<char>) -> int
    decreases s.len(),
{
    if s.len() == 0 {
        0
    } else {
        digits_value(s.drop_last()) * 10 + (s.last() as int - '0' as int)
    }
}

/// Whether every character is a decimal digit.
pub open spec fn all_digits(s: Seq<char>) -> bool {
    forall|i: int| 0 <= i < s.len() ==> '0' <= #[trigger] s[i] <= '9'
}

/// The digits of a numeral: what follows its sign, where it has one.
pub open spec fn unsigned_part(s: Seq<char>) -> Seq<char> {
    if s.len() > 0 && (s[0] == '-' || s[0] == '+') {
        s.skip(1)
    } else {
        s
    }
}

/// The integer that a numeral spells: an optional `+` or `-`, then one or
/// more decimal digits and nothing else.
pub open spec fn numeral_value(s: Seq<char>) -> Option<int> {
    let digits = unsigned_part(s);
    if digits.len() == 0 || !all_digits(digits) {
        None
    } else if s[0] == '-' {
        Some(-digits_value(digits))
    } else {
        Some(digits_value(digits))
    }
}

/// The signed 64-bit integer that a text spells, if it spells one that
/// fits.
pub open spec fn parsed_i64(text: Seq<char>) -> Option<i64> {
    match numeral_value(text) {
        Some(v) => if i64::MIN <= v <= i64::MAX {
            Some(v as i64)
        } else {
            None
        },
        None => None,
    }
}

/// A numeral of digits spells no less than any of its beginnings.
pub proof fn lemma_digits_value_grows(s: Seq<char>, k: int)
    requires
        all_digits(s),
        0 <= k <= s.len(),
    ensures
        0 <= digits_value(s.take(k)) <= digits_value(s),
    decreases s.len() - k,
{
    if k == s.len() {
        assert(s.take(k) =~= s);
        lemma_digits_value_positive(s);
    } else {
        lemma_digits_value_grows(s, k + 1);
        assert(s.take(k + 1).drop_last() =~= s.take(k));
        assert(s.take(k + 1).last() == s[k]);
        lemma_digits_value_positive(s.take(k));
    }
}

/// A numeral of digits spells no negative number.
pub proof fn lemma_digits_value_positive(s: Seq<char>)
    requires
        all_digits(s),
    ensures
        0 <= digits_value(s),
    decreases s.len(),
{
    if s.len() > 0 {
        assert(s.drop_last() =~= s.take(s.len() - 1));
        assert forall|i: int| 0 <= i < s.drop_last().len() implies '0' <= #[trigger] s.drop_last()[i]
            <= '9' by {
            assert(s.drop_last()[i] == s[i]);
        }
        lemma_digits_value_positive(s.drop_last());
        assert('0' <= s[s.len() - 1] <= '9');
    }
}

/// Reads a signed 64-bit integer from a text: an optional sign, then
/// decimal digits only. Anything else, and a number that does not fit,
/// gives `None`.
pub fn parse_i64(text: &str) -> (r: Option<i64>)
    ensures
        r == parsed_i64(text@),
{
    let cs = crate::text::to_chars(text);
    if cs.len() == 0 {
        return None;
    }
    let negative = cs[0] == '-';
    let start: usize = if cs[0] == '-' || cs[0] == '+' {
        1
    } else {
        0
    };
    let ghost digits = unsigned_part(cs@);
    assert(digits =~= cs@.skip(start as int));
    if start >= cs.len() {
        return None;
    }
    let limit: u64 = if negative {
        9223372036854775808u64
    } else {
        9223372036854775807u64
    };
    let mut i: usize = start;
    let mut magnitude: u64 = 0;
    assert(digits.take(0) =~= Seq::empty());
    while i < cs.len()
        invariant
            start <= i <= cs.len(),
            start < cs.len(),
            cs@ == text@,
            digits == unsigned_part(text@),
            digits == cs@.skip(start as int),
            negative == (cs[0] == '-'),
            limit == if negative {
                9223372036854775808u64
            } else {
                9223372036854775807u64
            },
            all_digits(digits.take(i - start)),
            magnitude == digits_value(digits.take(i - start)),
            magnitude <= limit,
        decreases cs.len() - i,
    {
        let c = cs[i];
        let ghost upto = digits.take(i - start + 1);
        proof {
            assert(upto.drop_last() =~= digits.take(i - start));
            assert(upto.last() == c);
        }
        if !('0' <= c && c <= '9') {
            assert(!all_digits(digits)) by {
                assert(digits[i - start] == c);
            }
            return None;
        }
        assert(all_digits(upto)) by {
            assert forall|k: int| 0 <= k < upto.len() implies '0' <= #[trigger] upto[k] <= '9' by {
                if k < upto.len() - 1 {
                    assert(digits.take(i - start)[k] == upto[k]);
                }
            }
        }
        let d: u64 = (c as u32 - '0' as u32) as u64;
        assert(d == c as int - '0' as int);
        if magnitude > (limit - d) / 10 {
            proof {
                assert(digits_value(upto) > limit);
                if all_digits(digits) {
                    lemma_digits_value_grows(digits, i - start + 1);
                }
            }
            return None;
        }
        magnitude = magnitude * 10 + d;
        i += 1;
    }
    assert(digits.take(cs.len() - start) =~= digits);
    if !negative {
        Some(magnitude as i64)
    } else if magnitude == 9223372036854775808u64 {
        Some(i64::MIN)
    } else {
        Some(-(magnitude as i64))
    }
}

/// The milliseconds since the epoch of the UTC date and time that chrono
/// makes of a number of seconds, or `None` where chrono has no such date.
pub uninterp spec fn utc_millis_of_seconds(secs: i64) -> Option<i64>;

/// The milliseconds since the epoch of the UTC date and time that chrono
/// makes of a number of milliseconds, or `None` where chrono has no such
/// date.
pub uninterp spec fn utc_millis_of_millis(millis: i64) -> Option<i64>;

/// Calls chrono's `Utc.timestamp_opt(secs, 0)`, takes the single result and
/// reads it back with `DateTime::timestamp_millis`. Chrono answers either
/// with the date at exactly that second or, out of its range, with none.
#[verifier::external_body]
fn utc_from_seconds(secs: i64) -> (r: Option<i64>)
    ensures
        r == utc_millis_of_seconds(secs),
        r matches Some(m) ==> m == secs * 1000,
{
    match Utc.timestamp_opt(secs, 0).single() {
        Some(instant) => Some(instant.timestamp_millis()),
        None => None,
    }
}

/// Calls chrono's `Utc.timestamp_millis_opt(millis)`, takes the single
/// result and reads it back with `DateTime::timestamp_millis`. Chrono
/// answers either with the date at exactly that millisecond or, out of its
/// range, with none.
#[verifier::external_body]
fn utc_from_millis(millis: i64) -> (r: Option<i64>)
    ensures
        r == utc_millis_of_millis(millis),
        r matches Some(m) ==> m == millis,
{
    match Utc.timestamp_millis_opt(millis).single() {
        Some(instant) => Some(instant.timestamp_millis()),
        None => None,
    }
}

/// The number of milliseconds that the last `$date` entry of a map holds,
/// if it holds one that can be read; earlier `$date` entries do not count.
pub open spec fn date_of(entries: Seq<MapEntryView>) -> Option<i64>
    decreases entries.len(),
{
    if entries.len() == 0 {
        None
    } else if entries.last().key == "$date"@ {
        match entries.last().number_long {
            Some(text) => parsed_i64(text),
            None => None,
        }
    } else {
        date_of(entries.drop_last())
    }
}

/// The instant that a conversion yields, or the error that it has none.
pub open spec fn instant_of(converted: Option<i64>) -> Result<i64, TimestampError> {
    match converted {
        Some(millis) => Ok(millis),
        None => Err(TimestampError::OutOfRange),
    }
}

/// The timestamp that a document's value stands for, in milliseconds since
/// the epoch.
pub open spec fn timestamp_of(raw: RawTimestampView) -> Result<i64, TimestampError> {
    match raw {
        RawTimestampView::Seconds(secs) => if secs > i64::MAX {
            Err(TimestampError::Conversion)
        } else {
            instant_of(utc_millis_of_seconds(secs as i64))
        },
        RawTimestampView::Document(entries) => match date_of(entries) {
            Some(millis) => instant_of(utc_millis_of_millis(millis)),
            None => Err(TimestampError::Missing),
        },
    }
}

/// Turns the outcome of a conversion into the timestamp or the error.
pub fn resolve_instant(converted: Option<i64>) -> (r: Result<i64, TimestampError>)
    ensures
        r == instant_of(converted),
{
    match converted {
        Some(millis) => Ok(millis),
        None => Err(TimestampError::OutOfRange),
    }
}

/// What a map's entry makes of the number found so far: a `$date` entry
/// replaces it by its own number, read or not; any other entry keeps it.
pub fn date_entry(found: Option<i64>, key: &str, number: Option<i64>) -> (r: Option<i64>)
    ensures
        r == if key@ == "$date"@ {
            number
        } else {
            found
        },
{
    if crate::text::str_eq(key, "$date") {
        number
    } else {
        found
    }
}

/// Reads a timestamp: a number counts seconds, a map holds milliseconds as
/// text under `$date` and `$numberLong`. The result counts milliseconds
/// since the start of 1970, UTC.
pub fn deserialize_timestamp(raw: &RawTimestamp) -> (r: Result<i64, TimestampError>)
    ensures
        r == timestamp_of(raw.deep_view()),
        r matches Ok(millis) ==> (raw matches RawTimestamp::Seconds(secs) ==> millis == secs
            * 1000),
{
    match raw {
        RawTimestamp::Seconds(secs) => {
            if *secs > i64::MAX as u64 {
                Err(TimestampError::Conversion)
            } else {
                resolve_instant(utc_from_seconds(*secs as i64))
            }
        },
        RawTimestamp::Document(entries) => {
            let mut found: Option<i64> = None;
            let mut i: usize = 0;
            assert(entries.deep_view().take(0) =~= Seq::empty());
            while i < entries.len()
                invariant
                    i <= entries.len(),
                    found == date_of(entries.deep_view().take(i as int)),
                decreases entries.len() - i,
            {
                proof {
                    let upto = entries.deep_view().take(i as int + 1);
                    assert(upto.drop_last() =~= entries.deep_view().take(i as int));
                    assert(upto.last() == entries[i as int].deep_view());
                }
                let number = match &entries[i].number_long {
                    Some(text) => parse_i64(text.as_str()),
                    None => None,
                };
                found = date_entry(found, entries[i].key.as_str(), number);
                i += 1;
            }
            assert(entries.deep_view().take(entries.len() as int) =~= entries.deep_view());
            match found {
                Some(millis) => resolve_instant(utc_from_millis(millis)),
                None => Err(TimestampError::Missing),
            }
        },
    }
}

} // verus!
