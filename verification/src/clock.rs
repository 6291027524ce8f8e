//! The wall clock and its rendering through strftime-style patterns.

use chrono::{DateTime, FixedOffset, Local, Locale, Utc};
use chrono_tz::Tz;
use std::fmt::Write;
use vstd::prelude::*;

verus! {

/// Whether `name` is the name of a locale in the table of `pure_rust_locales`.
pub uninterp spec fn known_locale(name: Seq<char>) -> bool;

/// Whether `name` is the name of a zone in the table of `chrono_tz`.
pub uninterp spec fn known_zone(name: Seq<char>) -> bool;

/// The text of an instant, given as seconds and nanoseconds after the Unix
/// epoch, rendered by chrono through `pattern` in the zone named `zone`.
pub uninterp spec fn zone_text(secs: i64, nanos: u32, pattern: Seq<char>, zone: Seq<char>) -> Option<
    Seq<char>,
>;

/// As `zone_text`, with the names of days and months in the locale `locale`.
pub uninterp spec fn zone_text_localized(
    secs: i64,
    nanos: u32,
    pattern: Seq<char>,
    zone: Seq<char>,
    locale: Seq<char>,
) -> Option<Seq<char>>;

/// The text of an instant, given as seconds and nanoseconds after the Unix
/// epoch, rendered by chrono through `pattern` at `offset` seconds east of
/// UTC.
pub uninterp spec fn offset_text(secs: i64, nanos: u32, pattern: Seq<char>, offset: i32) -> Option<
    Seq<char>,
>;

/// As `offset_text`, with the names of days and months in the locale `locale`.
pub uninterp spec fn offset_text_localized(
    secs: i64,
    nanos: u32,
    pattern: Seq<char>,
    offset: i32,
    locale: Seq<char>,
) -> Option<Seq<char>>;

/// The earliest second that chrono can represent: the first of the year
/// 262144 before the common era.
pub const EARLIEST_SECS: i64 = -8_334_601_228_800;

/// The latest second that chrono can represent: the last of the year 262142.
pub const LATEST_SECS: i64 = 8_210_266_876_799;

/// The instant is one that the clock can give: a second that chrono can
/// represent, and less than a second past it.
pub open spec fn on_the_clock(secs: i64, nanos: u32) -> bool {
    EARLIEST_SECS <= secs <= LATEST_SECS && nanos < 1_000_000_000
}

/// The offset is one of a zone: less than a day to either side of UTC.
pub open spec fn within_a_day(offset: i32) -> bool {
    -86_400 < offset < 86_400
}

/// Looks a locale up by its name with `Locale::try_from`, which matches the
/// name against a fixed table: whether a name is known depends on the name
/// alone. Nothing is claimed of which names are known.
#[verifier::external_body]
pub(crate) fn is_locale(name: &str) -> (r: bool)
    ensures
        r == known_locale(name@),
{
    Locale::try_from(name).is_ok()
}

/// Looks a zone up by its name with `Tz::from_str`, which searches a fixed
/// table: whether a name is known depends on the name alone. Nothing is
/// claimed of which names are known.
#[verifier::external_body]
pub(crate) fn is_zone(name: &str) -> (r: bool)
    ensures
        r == known_zone(name@),
{
    name.parse::<Tz>().is_ok()
}

/// Reads the clock with `Utc::now`: whole seconds since the Unix epoch and
/// the nanoseconds past them. `Utc::now` builds its result with
/// `DateTime::from_timestamp` from the time since the epoch, so the second is
/// one that chrono can represent and the nanoseconds stay below a second;
/// nothing else is claimed of the instant. `Utc::now` panics where the system
/// clock stands before the epoch.
#[verifier::external_body]
pub(crate) fn clock_now() -> (r: (i64, u32))
    ensures
        on_the_clock(r.0, r.1),
{
    let now = Utc::now();
    (now.timestamp(), now.timestamp_subsec_nanos())
}

/// The offset of the system's local zone at the instant, in seconds east of
/// UTC: `DateTime::from_timestamp`, `with_timezone(&Local)`, `offset` and
/// `FixedOffset::local_minus_utc`. `None` where chrono cannot represent the
/// instant. The offset depends on the zone that the machine is set to, which
/// chrono reads from the environment, so only its range is claimed: a
/// `FixedOffset` is less than a day. chrono panics where the zone data of the
/// machine gives no offset for the instant.
#[verifier::external_body]
pub(crate) fn local_offset(secs: i64, nanos: u32) -> (r: Option<i32>)
    ensures
        r matches Some(offset) ==> within_a_day(offset),
{
    Some(DateTime::from_timestamp(secs, nanos)?.with_timezone(&Local).offset().local_minus_utc())
}

/// Renders the instant at `offset` seconds east of UTC:
/// `DateTime::from_timestamp`, `with_timezone` to `FixedOffset::east_opt` of
/// the offset, and `format`. `None` where the offset is a day or more, or
/// chrono cannot represent the instant or refuses the pattern. The outcome
/// depends on the arguments alone: it is `offset_text` of them.
#[verifier::external_body]
pub(crate) fn render_at_offset(secs: i64, nanos: u32, pattern: &str, offset: i32) -> (r: Option<String>)
    ensures
        r.deep_view() == offset_text(secs, nanos, pattern@, offset),
{
    let zone = FixedOffset::east_opt(offset)?;
    let instant = DateTime::from_timestamp(secs, nanos)?.with_timezone(&zone);
    let mut text = String::new();
    write!(text, "{}", instant.format(pattern)).ok()?;
    Some(text)
}

/// As `render_at_offset`, through `format_localized` with the locale that
/// `Locale::try_from` finds under `locale`; `None` also where it finds none.
/// The outcome is `offset_text_localized` of the arguments.
#[verifier::external_body]
pub(crate) fn render_at_offset_localized(
    secs: i64,
    nanos: u32,
    pattern: &str,
    offset: i32,
    locale: &str,
) -> (r: Option<String>)
    ensures
        r.deep_view() == offset_text_localized(secs, nanos, pattern@, offset, locale@),
{
    let zone = FixedOffset::east_opt(offset)?;
    let instant = DateTime::from_timestamp(secs, nanos)?.with_timezone(&zone);
    let mut text = String::new();
    write!(text, "{}", instant.format_localized(pattern, Locale::try_from(locale).ok()?)).ok()?;
    Some(text)
}

/// Renders the instant in the zone that `Tz::from_str` finds under `zone`:
/// `DateTime::from_timestamp`, `with_timezone` and `format`. `None` where
/// there is no such zone, or chrono cannot represent the instant or refuses
/// the pattern. The zone table is part of `chrono_tz`, so the outcome depends
/// on the arguments alone: it is `zone_text` of them.
#[verifier::external_body]
pub(crate) fn render_in_zone(secs: i64, nanos: u32, pattern: &str, zone: &str) -> (r: Option<String>)
    ensures
        r.deep_view() == zone_text(secs, nanos, pattern@, zone@),
{
    let instant = DateTime::from_timestamp(secs, nanos)?.with_timezone(&zone.parse::<Tz>().ok()?);
    let mut text = String::new();
    write!(text, "{}", instant.format(pattern)).ok()?;
    Some(text)
}

/// As `render_in_zone`, through `format_localized` with the locale that
/// `Locale::try_from` finds under `locale`; `None` also where it finds none.
/// The outcome is `zone_text_localized` of the arguments.
#[verifier::external_body]
pub(crate) fn render_in_zone_localized(
    secs: i64,
    nanos: u32,
    pattern: &str,
    zone: &str,
    locale: &str,
) -> (r: Option<String>)
    ensures
        r.deep_view() == zone_text_localized(secs, nanos, pattern@, zone@, locale@),
{
    let instant = DateTime::from_timestamp(secs, nanos)?.with_timezone(&zone.parse::<Tz>().ok()?);
    let mut text = String::new();
    write!(text, "{}", instant.format_localized(pattern, Locale::try_from(locale).ok()?)).ok()?;
    Some(text)
}

} // verus!
