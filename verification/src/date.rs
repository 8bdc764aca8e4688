//! Dates and times: time zones, parsing with a list of formats, formatting.
//! Instants are microseconds since the Unix epoch.
use vstd::prelude::*;
use crate::text::{chars_of, views};
use chrono::format::StrftimeItems;
use chrono::{DateTime, Local, MappedLocalTime, NaiveDate, NaiveDateTime, NaiveTime, TimeZone};
use chrono_tz::Tz;

verus! {

#[verifier::external_type_specification]
#[verifier::external_body]
pub struct ExTz(Tz);

#[verifier::external_type_specification]
#[verifier::external_body]
pub struct ExNaiveDateTime(NaiveDateTime);

#[verifier::external_type_specification]
#[verifier::external_body]
pub struct ExNaiveDate(NaiveDate);

/// A time zone: the machine's own, or one of the IANA database.
#[derive(Clone, Copy, Debug)]
pub enum LuaTimezone {
    Local,
    Tz(Tz),
}

/// What converting a local time to an instant can give: one instant, two (the local time
/// occurs twice), or none (it is skipped).
#[derive(Debug)]
pub enum MappedTime<T> {
    Single(T),
    Ambiguous(T, T),
    Nonexistent,
}

/// Why a date operation failed.
#[derive(Debug, PartialEq, Eq)]
pub enum DateError {
    /// No time zone has this name; the message of the lookup error.
    UnknownTimezone(String),
    /// A local time that does not exist in the time zone.
    DecodeFailed,
    /// The date matched none of the three readings of the format.
    CouldNotParse,
    /// The date matched none of the formats.
    NoFormatsMatched,
    /// The format argument is neither nil, a string nor a list.
    BadFormatArgument,
    /// The time zone argument is neither nil, a string nor a time zone; its type's name.
    BadTimezoneArgument(String),
    /// The format holds an unknown specifier.
    InvalidFormat,
}

/// A time zone as a script may give it.
pub enum TimezoneArg {
    Nil,
    Name(String),
    Timezone(LuaTimezone),
    /// Any other value, by the name of its type.
    Other(String),
}

/// Formats as a script may give them.
pub enum FormatArg {
    /// The default formats.
    Default,
    One(String),
    List(Vec<String>),
    /// Any other value.
    Other,
}

/// `Tz::from_str_insensitive`: the zone of that name, letter case ignored.
pub uninterp spec fn tz_lookup(name: Seq<char>) -> Option<Tz>;

/// `Tz::name`.
pub uninterp spec fn tz_name(tz: Tz) -> Seq<char>;

/// `DateTime::parse_from_str`: the instant of a date with an offset, if it parses.
pub uninterp spec fn parse_with_offset(date: Seq<char>, fmt: Seq<char>) -> Option<i64>;

/// `NaiveDateTime::parse_from_str`.
pub uninterp spec fn parse_naive_datetime(date: Seq<char>, fmt: Seq<char>) -> Option<
    NaiveDateTime,
>;

/// `NaiveDate::parse_from_str`.
pub uninterp spec fn parse_naive_date(date: Seq<char>, fmt: Seq<char>) -> Option<NaiveDate>;

/// `NaiveDateTime::new` with the time 00:00:00.
pub uninterp spec fn at_midnight(d: NaiveDate) -> NaiveDateTime;

/// `NaiveDateTime::and_local_timezone` in a zone of the database, as instants.
pub uninterp spec fn tz_localize(n: NaiveDateTime, tz: Tz) -> MappedTime<i64>;

/// `DateTime::from_timestamp_micros` gives a date: the instant lies in chrono's range.
pub uninterp spec fn micros_in_range(micros: i64) -> bool;

/// `TimeZone::timestamp_micros` in a zone of the database, formatted, for an instant in range.
pub uninterp spec fn tz_format(micros: i64, tz: Tz, fmt: Seq<char>) -> Seq<char>;

/// Whether `StrftimeItems::parse` accepts the format: it holds no unknown specifier.
pub uninterp spec fn strftime_valid(fmt: Seq<char>) -> bool;

#[verifier::external_body]
fn lookup_tz(name: &str) -> (r: Result<Tz, String>)
    ensures
        r is Ok <==> tz_lookup(name@) is Some,
        r matches Ok(z) ==> tz_lookup(name@) == Some(z),
{
    Tz::from_str_insensitive(name).map_err(|e| e.to_string())
}

#[verifier::external_body]
fn name_of_tz(tz: Tz) -> (r: String)
    ensures
        r@ == tz_name(tz),
{
    tz.name().to_string()
}

/// `Tz::UTC`, whose name is `UTC`.
#[verifier::external_body]
fn utc() -> (r: Tz)
    ensures
        tz_name(r) == "UTC"@,
{
    Tz::UTC
}

/// `DateTime::parse_from_str`, then `DateTime::timestamp_micros` (changing the time zone of
/// a parsed date keeps its instant).
#[verifier::external_body]
fn parse_offset(date: &str, fmt: &str) -> (r: Option<i64>)
    ensures
        r == parse_with_offset(date@, fmt@),
{
    DateTime::parse_from_str(date, fmt).ok().map(|d| d.timestamp_micros())
}

#[verifier::external_body]
fn parse_naive(date: &str, fmt: &str) -> (r: Option<NaiveDateTime>)
    ensures
        r == parse_naive_datetime(date@, fmt@),
{
    NaiveDateTime::parse_from_str(date, fmt).ok()
}

#[verifier::external_body]
fn parse_date_only(date: &str, fmt: &str) -> (r: Option<NaiveDate>)
    ensures
        r == parse_naive_date(date@, fmt@),
{
    NaiveDate::parse_from_str(date, fmt).ok()
}

#[verifier::external_body]
fn midnight(d: NaiveDate) -> (r: NaiveDateTime)
    ensures
        r == at_midnight(d),
{
    NaiveDateTime::new(d, NaiveTime::MIN)
}

/// `NaiveDateTime::and_local_timezone`, then `timestamp_micros` of each result.
#[verifier::external_body]
fn localize_tz(n: NaiveDateTime, tz: Tz) -> (r: MappedTime<i64>)
    ensures
        r == tz_localize(n, tz),
{
    match n.and_local_timezone(tz) {
        MappedLocalTime::Single(a) => MappedTime::Single(a.timestamp_micros()),
        MappedLocalTime::Ambiguous(a, b) => MappedTime::Ambiguous(
            a.timestamp_micros(),
            b.timestamp_micros(),
        ),
        MappedLocalTime::None => MappedTime::Nonexistent,
    }
}

/// `NaiveDateTime::and_local_timezone` in the machine's time zone. What it gives depends on
/// the machine's settings, so nothing is claimed of it.
#[verifier::external_body]
fn localize_local(n: NaiveDateTime) -> MappedTime<i64> {
    match n.and_local_timezone(Local) {
        MappedLocalTime::Single(a) => MappedTime::Single(a.timestamp_micros()),
        MappedLocalTime::Ambiguous(a, b) => MappedTime::Ambiguous(
            a.timestamp_micros(),
            b.timestamp_micros(),
        ),
        MappedLocalTime::None => MappedTime::Nonexistent,
    }
}

/// `StrftimeItems::parse` succeeds.
#[verifier::external_body]
fn format_valid(fmt: &str) -> (r: bool)
    ensures
        r == strftime_valid(fmt@),
{
    StrftimeItems::new(fmt).parse().is_ok()
}

/// `DateTime::from_timestamp_micros(micros).is_some()`.
#[verifier::external_body]
fn in_range(micros: i64) -> (r: bool)
    ensures
        r == micros_in_range(micros),
{
    DateTime::from_timestamp_micros(micros).is_some()
}

/// `TimeZone::timestamp_micros`, then `DateTime::format`. chrono maps an instant in range
/// to exactly one date in the zone (`MappedLocalTime::Single`) and one out of range to none;
/// formatting panics on a format that `StrftimeItems::parse` refuses, so such formats are
/// left out.
#[verifier::external_body]
fn format_in_tz(micros: i64, tz: Tz, fmt: &str) -> (r: Option<String>)
    requires
        strftime_valid(fmt@),
    ensures
        r is Some <==> micros_in_range(micros),
        r matches Some(s) ==> s@ == tz_format(micros, tz, fmt@),
{
    match tz.timestamp_micros(micros) {
        MappedLocalTime::Single(a) => Some(a.format(fmt).to_string()),
        MappedLocalTime::Ambiguous(_, _) => None,
        MappedLocalTime::None => None,
    }
}

/// `Local::timestamp_micros`, then `DateTime::format`. As in every zone, an instant in range
/// has exactly one date and one out of range has none; which date, and so the text, the
/// machine's settings decide (chrono panics where it cannot read them), so the text is not
/// claimed.
#[verifier::external_body]
fn format_in_local(micros: i64, fmt: &str) -> (r: Option<String>)
    requires
        strftime_valid(fmt@),
    ensures
        r is Some <==> micros_in_range(micros),
{
    match Local.timestamp_micros(micros) {
        MappedLocalTime::Single(a) => Some(a.format(fmt).to_string()),
        MappedLocalTime::Ambiguous(_, _) => None,
        MappedLocalTime::None => None,
    }
}

/// The earlier of an ambiguous pair, the only one of a single result, an error for none.
pub open spec fn decode_spec<T>(m: MappedTime<T>) -> Result<T, DateError> {
    match m {
        MappedTime::Single(t) => Ok(t),
        MappedTime::Ambiguous(t, _) => Ok(t),
        MappedTime::Nonexistent => Err(DateError::DecodeFailed),
    }
}

/// One result of a local-time conversion: the single one or the first of two.
pub fn decode_mapped_time<T>(time: MappedTime<T>) -> (r: Result<T, DateError>)
    ensures
        r == decode_spec(time),
{
    match time {
        MappedTime::Single(t) => Ok(t),
        MappedTime::Ambiguous(t, _) => Ok(t),
        MappedTime::Nonexistent => Err(DateError::DecodeFailed),
    }
}

/// ASCII letters in lower case, other characters as they are.
pub open spec fn ascii_lower(c: char) -> char {
    if 'A' <= c && c <= 'Z' {
        ((c as u32) + 32) as char
    } else {
        c
    }
}

/// `str::eq_ignore_ascii_case`.
pub open spec fn eq_ignore_ascii_case(a: Seq<char>, b: Seq<char>) -> bool {
    a.len() == b.len() && forall|i: int| 0 <= i < a.len() ==> ascii_lower(#[trigger] a[i])
        == ascii_lower(b[i])
}

fn ascii_lower_exec(c: char) -> (r: char)
    ensures
        r == ascii_lower(c),
{
    if 'A' <= c && c <= 'Z' {
        match c {
            'A' => 'a',
            'B' => 'b',
            'C' => 'c',
            'D' => 'd',
            'E' => 'e',
            'F' => 'f',
            'G' => 'g',
            'H' => 'h',
            'I' => 'i',
            'J' => 'j',
            'K' => 'k',
            'L' => 'l',
            'M' => 'm',
            'N' => 'n',
            'O' => 'o',
            'P' => 'p',
            'Q' => 'q',
            'R' => 'r',
            'S' => 's',
            'T' => 't',
            'U' => 'u',
            'V' => 'v',
            'W' => 'w',
            'X' => 'x',
            'Y' => 'y',
            _ => 'z',
        }
    } else {
        c
    }
}

fn eq_ignore_case(a: &str, b: &str) -> (r: bool)
    ensures
        r == eq_ignore_ascii_case(a@, b@),
{
    let va = chars_of(a);
    let vb = chars_of(b);
    if va.len() != vb.len() {
        return false;
    }
    let mut i: usize = 0;
    while i < va.len()
        invariant
            va@ == a@,
            vb@ == b@,
            va.len() == vb.len(),
            i <= va.len(),
            forall|k: int| 0 <= k < i ==> ascii_lower(#[trigger] va@[k]) == ascii_lower(vb@[k]),
        decreases va.len() - i,
    {
        if ascii_lower_exec(va[i]) != ascii_lower_exec(vb[i]) {
            return false;
        }
        i = i + 1;
    }
    true
}

/// The time zone a name stands for: `local` in any letter case is the machine's own,
/// anything else is looked up in the database, letter case ignored.
pub open spec fn timezone_of_name(name: Seq<char>) -> Option<LuaTimezone> {
    if eq_ignore_ascii_case(name, "local"@) {
        Some(LuaTimezone::Local)
    } else {
        match tz_lookup(name) {
            Some(z) => Some(LuaTimezone::Tz(z)),
            None => None,
        }
    }
}

impl LuaTimezone {
    /// The time zone of a name (see `timezone_of_name`); unknown names are an error.
    pub fn from_str(name: &str) -> (r: Result<LuaTimezone, DateError>)
        ensures
            r is Ok <==> timezone_of_name(name@) is Some,
            r matches Ok(z) ==> timezone_of_name(name@) == Some(z),
            r matches Err(e) ==> e is UnknownTimezone,
    {
        if eq_ignore_case(name, "local") {
            Ok(LuaTimezone::Local)
        } else {
            match lookup_tz(name) {
                Ok(z) => Ok(LuaTimezone::Tz(z)),
                Err(m) => Err(DateError::UnknownTimezone(m)),
            }
        }
    }

    /// `Local` for the machine's zone, the database name otherwise.
    pub fn name(&self) -> (r: String)
        ensures
            r@ == (match *self {
                LuaTimezone::Local => "Local"@,
                LuaTimezone::Tz(z) => tz_name(z),
            }),
    {
        match self {
            LuaTimezone::Local => "Local".to_owned(),
            LuaTimezone::Tz(z) => name_of_tz(*z),
        }
    }
}

/// The time zone a script asked for: UTC for nil, a name, or a time zone value.
pub fn value_as_timezone(value: TimezoneArg) -> (r: Result<LuaTimezone, DateError>)
    ensures
        value is Nil ==> (r matches Ok(LuaTimezone::Tz(z)) && tz_name(z) == "UTC"@),
        value matches TimezoneArg::Name(n) ==> (r is Ok <==> timezone_of_name(n@) is Some) && (
        r matches Ok(z) ==> timezone_of_name(n@) == Some(z)),
        value matches TimezoneArg::Timezone(t) ==> r == Ok::<LuaTimezone, DateError>(t),
        value matches TimezoneArg::Other(t) ==> r == Err::<LuaTimezone, DateError>(
            DateError::BadTimezoneArgument(t),
        ),
{
    match value {
        TimezoneArg::Nil => Ok(LuaTimezone::Tz(utc())),
        TimezoneArg::Name(n) => LuaTimezone::from_str(n.as_str()),
        TimezoneArg::Timezone(t) => Ok(t),
        TimezoneArg::Other(t) => Err(DateError::BadTimezoneArgument(t)),
    }
}

/// The RFC 2822 format, the default for formatting.
pub open spec fn rfc2822() -> Seq<char> {
    "%a, %d %b %Y %H:%M:%S %Z"@
}

/// The format to use: the one given, or RFC 2822.
pub fn parse_format(value: Option<&str>) -> (r: String)
    ensures
        r@ == (match value {
            Some(f) => f@,
            None => rfc2822(),
        }),
{
    match value {
        None => "%a, %d %b %Y %H:%M:%S %Z".to_owned(),
        Some(f) => f.to_owned(),
    }
}

/// The instants of a local time in a zone, where the zone is of the database; `None` for the
/// machine's own zone, which the library cannot know.
pub open spec fn localize_spec(n: NaiveDateTime, tz: LuaTimezone) -> Option<MappedTime<i64>> {
    match tz {
        LuaTimezone::Tz(z) => Some(tz_localize(n, z)),
        LuaTimezone::Local => None,
    }
}

/// What parsing a date with one format gives: a date with an offset stands for itself; a
/// date and time, or a date at midnight, is read in the zone. `None` where that depends on
/// the machine's time zone.
pub open spec fn parse_date_spec(date: Seq<char>, fmt: Seq<char>, tz: LuaTimezone) -> Option<
    Result<i64, DateError>,
> {
    match parse_with_offset(date, fmt) {
        Some(m) => Some(Ok(m)),
        None => match parse_naive_datetime(date, fmt) {
            Some(n) => match localize_spec(n, tz) {
                Some(mt) => Some(decode_spec(mt)),
                None => None,
            },
            None => match parse_naive_date(date, fmt) {
                Some(d) => match localize_spec(at_midnight(d), tz) {
                    Some(mt) => Some(decode_spec(mt)),
                    None => None,
                },
                None => Some(Err(DateError::CouldNotParse)),
            },
        },
    }
}

/// The local time a date without an offset stands for: a date and time, or a date at
/// midnight; `None` when the date reads as neither.
pub open spec fn local_time_of(date: Seq<char>, fmt: Seq<char>) -> Option<NaiveDateTime> {
    match parse_naive_datetime(date, fmt) {
        Some(n) => Some(n),
        None => match parse_naive_date(date, fmt) {
            Some(d) => Some(at_midnight(d)),
            None => None,
        },
    }
}

/// What parsing a date with one format gives, where `outcome` is what converting its
/// local time to instants in the zone gave: a date with an offset stands for itself, a
/// local time for the decoding of `outcome`.
pub open spec fn parse_with_outcome(date: Seq<char>, fmt: Seq<char>, outcome: MappedTime<i64>) -> Result<
    i64,
    DateError,
> {
    match parse_with_offset(date, fmt) {
        Some(m) => Ok(m),
        None => match local_time_of(date, fmt) {
            Some(_) => decode_spec(outcome),
            None => Err(DateError::CouldNotParse),
        },
    }
}

/// Whether `outcome` can be the conversion of the format's local time in the zone: in a zone
/// of the database it is the database's answer; the machine's own zone allows any.
pub open spec fn outcome_fits(date: Seq<char>, fmt: Seq<char>, tz: LuaTimezone, outcome: MappedTime<
    i64,
>) -> bool {
    match (tz, local_time_of(date, fmt)) {
        (LuaTimezone::Tz(z), Some(n)) => outcome == tz_localize(n, z),
        _ => true,
    }
}

/// An outcome that fits when no conversion was made.
pub open spec fn fitting_outcome(date: Seq<char>, fmt: Seq<char>, tz: LuaTimezone) -> MappedTime<i64> {
    match (tz, local_time_of(date, fmt)) {
        (LuaTimezone::Tz(z), Some(n)) => tz_localize(n, z),
        _ => MappedTime::Nonexistent,
    }
}

/// The first of the formats with which the date parses gives the instant, each format's
/// local time converted as `outcomes` says; if none parses, the error is `NoFormatsMatched`.
pub open spec fn first_parse_with(
    date: Seq<char>,
    fmts: Seq<Seq<char>>,
    outcomes: Seq<MappedTime<i64>>,
) -> Result<i64, DateError>
    decreases fmts.len(),
{
    if fmts.len() == 0 {
        Err(DateError::NoFormatsMatched)
    } else {
        match parse_with_outcome(date, fmts[0], outcomes[0]) {
            Ok(m) => Ok(m),
            Err(_) => first_parse_with(date, fmts.drop_first(), outcomes.drop_first()),
        }
    }
}

/// Outcomes, one for each format, each fitting its format's local time in the zone.
pub open spec fn outcomes_fit(
    date: Seq<char>,
    fmts: Seq<Seq<char>>,
    tz: LuaTimezone,
    outcomes: Seq<MappedTime<i64>>,
) -> bool {
    &&& outcomes.len() == fmts.len()
    &&& forall|i: int| 0 <= i < fmts.len() ==> outcome_fits(date, #[trigger] fmts[i], tz, outcomes[i])
}

proof fn lemma_first_parse_with_skip(
    date: Seq<char>,
    fmts: Seq<Seq<char>>,
    outcomes: Seq<MappedTime<i64>>,
    i: int,
)
    requires
        outcomes.len() == fmts.len(),
        0 <= i <= fmts.len(),
        forall|k: int| 0 <= k < i ==> (#[trigger] parse_with_outcome(date, fmts[k], outcomes[k])) is Err,
    ensures
        first_parse_with(date, fmts, outcomes) == first_parse_with(
            date,
            fmts.skip(i),
            outcomes.skip(i),
        ),
    decreases i,
{
    if i == 0 {
        assert(fmts.skip(0) == fmts);
        assert(outcomes.skip(0) == outcomes);
    } else {
        assert(parse_with_outcome(date, fmts[0], outcomes[0]) is Err);
        assert forall|k: int| 0 <= k < i - 1 implies (#[trigger] parse_with_outcome(
            date,
            fmts.drop_first()[k],
            outcomes.drop_first()[k],
        )) is Err by {
            assert(fmts.drop_first()[k] == fmts[k + 1]);
            assert(outcomes.drop_first()[k] == outcomes[k + 1]);
            assert(parse_with_outcome(date, fmts[k + 1], outcomes[k + 1]) is Err);
        }
        lemma_first_parse_with_skip(date, fmts.drop_first(), outcomes.drop_first(), i - 1);
        assert(fmts.drop_first().skip(i - 1) == fmts.skip(i));
        assert(outcomes.drop_first().skip(i - 1) == outcomes.skip(i));
    }
}

fn localize(n: NaiveDateTime, tz: LuaTimezone) -> (r: MappedTime<i64>)
    ensures
        localize_spec(n, tz) matches Some(m) ==> r == m,
{
    match tz {
        LuaTimezone::Tz(z) => localize_tz(n, z),
        LuaTimezone::Local => localize_local(n),
    }
}

/// The instant of `date` read with `format` in the zone `tz`.
pub fn parse_date(date: &str, format: &str, tz: LuaTimezone) -> (r: Result<i64, DateError>)
    ensures
        parse_date_spec(date@, format@, tz) matches Some(x) ==> r == x,
        r == Err::<i64, DateError>(DateError::CouldNotParse) <==> (parse_with_offset(
            date@,
            format@,
        ) is None && parse_naive_datetime(date@, format@) is None && parse_naive_date(
            date@,
            format@,
        ) is None),
        r matches Err(e) ==> (e == DateError::CouldNotParse || e == DateError::DecodeFailed),
        exists|outcome: MappedTime<i64>|
            outcome_fits(date@, format@, tz, outcome) && r == parse_with_outcome(
                date@,
                format@,
                outcome,
            ),
{
    if let Some(m) = parse_offset(date, format) {
        let r = Ok(m);
        assert(outcome_fits(date@, format@, tz, fitting_outcome(date@, format@, tz)));
        assert(r == parse_with_outcome(date@, format@, fitting_outcome(date@, format@, tz)));
        r
    } else if let Some(n) = parse_naive(date, format) {
        let outcome = localize(n, tz);
        let ghost g = outcome;
        let r = decode_mapped_time(outcome);
        assert(outcome_fits(date@, format@, tz, g) && r == parse_with_outcome(date@, format@, g));
        r
    } else if let Some(d) = parse_date_only(date, format) {
        let outcome = localize(midnight(d), tz);
        let ghost g = outcome;
        let r = decode_mapped_time(outcome);
        assert(outcome_fits(date@, format@, tz, g) && r == parse_with_outcome(date@, format@, g));
        r
    } else {
        let r = Err(DateError::CouldNotParse);
        assert(outcome_fits(date@, format@, tz, fitting_outcome(date@, format@, tz)));
        assert(r == parse_with_outcome(date@, format@, fitting_outcome(date@, format@, tz)));
        r
    }
}

/// The formats tried when none is given.
pub open spec fn default_formats() -> Seq<Seq<char>> {
    seq!["%a, %d %b %Y %H:%M:%S%.f %Z"@, "%Y-%m-%dT%H:%M:%S%.f%#z"@]
}

/// The first format of the list with which the date parses gives the instant; if none does,
/// the error is `NoFormatsMatched`. `None` where that depends on the machine's time zone.
pub open spec fn first_parse(date: Seq<char>, fmts: Seq<Seq<char>>, tz: LuaTimezone) -> Option<
    Result<i64, DateError>,
>
    decreases fmts.len(),
{
    if fmts.len() == 0 {
        Some(Err(DateError::NoFormatsMatched))
    } else {
        match parse_date_spec(date, fmts[0], tz) {
            Some(Ok(m)) => Some(Ok(m)),
            Some(Err(_)) => first_parse(date, fmts.drop_first(), tz),
            None => None,
        }
    }
}

fn parse_first_of(date: &str, fmts: &Vec<String>, tz: LuaTimezone) -> (r: Result<i64, DateError>)
    ensures
        first_parse(date@, views(fmts@), tz) matches Some(x) ==> r == x,
        r matches Err(e) ==> e == DateError::NoFormatsMatched,
        exists|outcomes: Seq<MappedTime<i64>>|
            outcomes_fit(date@, views(fmts@), tz, outcomes) && r == first_parse_with(
                date@,
                views(fmts@),
                outcomes,
            ),
{
    let ghost all = views(fmts@);
    let ghost mut outs: Seq<MappedTime<i64>> = Seq::empty();
    let mut i: usize = 0;
    assert(all.skip(0) == all);
    while i < fmts.len()
        invariant
            i <= fmts.len(),
            all == views(fmts@),
            first_parse(date@, all, tz) is Some ==> first_parse(date@, all, tz) == first_parse(
                date@,
                all.skip(i as int),
                tz,
            ),
            outs.len() == i,
            forall|k: int| 0 <= k < i ==> outcome_fits(date@, #[trigger] all[k], tz, outs[k]),
            forall|k: int| 0 <= k < i ==> (#[trigger] parse_with_outcome(date@, all[k], outs[k])) is Err,
        decreases fmts.len() - i,
    {
        let ghost rest = all.skip(i as int);
        assert(rest[0] == fmts@[i as int]@);
        assert(rest.drop_first() == all.skip(i + 1));
        let res = parse_date(date, fmts[i].as_str(), tz);
        let ghost g = choose|o: MappedTime<i64>|
            outcome_fits(date@, all[i as int], tz, o) && res == parse_with_outcome(
                date@,
                all[i as int],
                o,
            );
        match res {
            Ok(m) => {
                proof {
                    let n = all.len();
                    let tail = Seq::new(
                        (n - i - 1) as nat,
                        |j: int| fitting_outcome(date@, all[i + 1 + j], tz),
                    );
                    let full = outs.push(g) + tail;
                    assert forall|k: int| 0 <= k < i implies (#[trigger] parse_with_outcome(
                        date@,
                        all[k],
                        full[k],
                    )) is Err by {
                        assert(full[k] == outs[k]);
                    }
                    lemma_first_parse_with_skip(date@, all, full, i as int);
                    assert(all.skip(i as int)[0] == all[i as int]);
                    assert(full.skip(i as int)[0] == g);
                    assert forall|k: int| 0 <= k < all.len() implies outcome_fits(
                        date@,
                        #[trigger] all[k],
                        tz,
                        full[k],
                    ) by {
                        if k < i {
                            assert(full[k] == outs[k]);
                        } else if k == i {
                            assert(full[k] == g);
                        } else {
                            assert(full[k] == tail[k - i - 1]);
                        }
                    }
                    assert(outcomes_fit(date@, all, tz, full));
                    assert(Ok::<i64, DateError>(m) == first_parse_with(date@, all, full));
                }
                return Ok(m);
            },
            Err(_) => {
                proof {
                    outs = outs.push(g);
                }
            },
        }
        i = i + 1;
    }
    assert(all.skip(fmts.len() as int) == Seq::<Seq<char>>::empty());
    proof {
        lemma_first_parse_with_skip(date@, all, outs, i as int);
        assert(outs.skip(i as int) == Seq::<MappedTime<i64>>::empty());
        assert(outcomes_fit(date@, all, tz, outs));
    }
    Err(DateError::NoFormatsMatched)
}

/// The instant of `date` read with the formats a script gave: the default formats, one
/// format, or a list of formats, the first that parses winning. In any zone, the machine's
/// own included, a format that reads a local time gives the decoding of that local time's
/// conversion in the zone.
pub fn parse_input_format(date: &str, formats: &FormatArg, tz: LuaTimezone) -> (r: Result<
    i64,
    DateError,
>)
    ensures
        *formats is Default ==> (first_parse(date@, default_formats(), tz) matches Some(x) ==> r
            == x),
        *formats is Default ==> (r matches Err(e) ==> e == DateError::NoFormatsMatched),
        formats matches FormatArg::One(f) ==> (parse_date_spec(date@, f@, tz) matches Some(x)
            ==> r == x),
        formats matches FormatArg::List(l) ==> (first_parse(date@, views(l@), tz) matches Some(x)
            ==> r == x),
        formats matches FormatArg::List(l) ==> (r matches Err(e) ==> e
            == DateError::NoFormatsMatched),
        *formats is Other ==> r == Err::<i64, DateError>(DateError::BadFormatArgument),
        *formats is Default ==> exists|outcomes: Seq<MappedTime<i64>>|
            outcomes_fit(date@, default_formats(), tz, outcomes) && r == first_parse_with(
                date@,
                default_formats(),
                outcomes,
            ),
        formats matches FormatArg::One(f) ==> exists|outcome: MappedTime<i64>|
            outcome_fits(date@, f@, tz, outcome) && r == parse_with_outcome(date@, f@, outcome),
        formats matches FormatArg::List(l) ==> exists|outcomes: Seq<MappedTime<i64>>|
            outcomes_fit(date@, views(l@), tz, outcomes) && r == first_parse_with(
                date@,
                views(l@),
                outcomes,
            ),
{
    match formats {
        FormatArg::Default => {
            let mut fmts: Vec<String> = Vec::new();
            fmts.push("%a, %d %b %Y %H:%M:%S%.f %Z".to_owned());
            fmts.push("%Y-%m-%dT%H:%M:%S%.f%#z".to_owned());
            assert(views(fmts@) == default_formats());
            parse_first_of(date, &fmts, tz)
        },
        FormatArg::One(f) => parse_date(date, f.as_str(), tz),
        FormatArg::List(l) => parse_first_of(date, l, tz),
        FormatArg::Other => Err(DateError::BadFormatArgument),
    }
}

/// The format used: the one given, or RFC 2822.
pub open spec fn format_or_default(format: Option<&str>) -> Seq<char> {
    match format {
        Some(f) => f@,
        None => rfc2822(),
    }
}

/// The instant `micros` written with `format` (RFC 2822 when none is given) in the zone
/// `tz`; an instant outside chrono's range cannot be decoded. The format must be one that
/// chrono accepts.
pub fn format_timestamp(micros: i64, format: Option<&str>, tz: LuaTimezone) -> (r: Result<
    String,
    DateError,
>)
    requires
        strftime_valid(format_or_default(format)),
    ensures
        r is Ok <==> micros_in_range(micros),
        r matches Err(e) ==> e == DateError::DecodeFailed,
        r matches Ok(s) ==> (tz matches LuaTimezone::Tz(z) ==> s@ == tz_format(
            micros,
            z,
            format_or_default(format),
        )),
{
    let fmt = parse_format(format);
    let text = match tz {
        LuaTimezone::Tz(z) => format_in_tz(micros, z, fmt.as_str()),
        LuaTimezone::Local => format_in_local(micros, fmt.as_str()),
    };
    match text {
        Some(t) => Ok(t),
        None => Err(DateError::DecodeFailed),
    }
}

/// `format_timestamp`, first decoding the instant: one out of range is `DecodeFailed`
/// whatever the format; then a format that chrono refuses is `InvalidFormat`.
pub fn try_format_timestamp(micros: i64, format: Option<&str>, tz: LuaTimezone) -> (r: Result<
    String,
    DateError,
>)
    ensures
        !micros_in_range(micros) ==> r == Err::<String, DateError>(DateError::DecodeFailed),
        micros_in_range(micros) && !strftime_valid(format_or_default(format)) ==> r == Err::<
            String,
            DateError,
        >(DateError::InvalidFormat),
        micros_in_range(micros) && strftime_valid(format_or_default(format)) ==> r is Ok,
        r matches Ok(s) ==> (tz matches LuaTimezone::Tz(z) ==> s@ == tz_format(
            micros,
            z,
            format_or_default(format),
        )),
{
    if !in_range(micros) {
        return Err(DateError::DecodeFailed);
    }
    let fmt = parse_format(format);
    if !format_valid(fmt.as_str()) {
        return Err(DateError::InvalidFormat);
    }
    format_timestamp(micros, format, tz)
}

} // verus!
