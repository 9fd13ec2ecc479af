//! The text of the countdown module.

use vstd::prelude::*;

use crate::text::{decimal, decimal_string, pad_left, padded_left};

verus! {

/// Rust's `%`: the remainder of division rounding toward zero, with the sign of `a`.
pub open spec fn remainder(a: int, b: int) -> int {
    if a >= 0 {
        a % b
    } else {
        -((-a) % b)
    }
}

/// `one` for exactly one, `other` for every other count.
pub open spec fn plural_form(value: int, one: Seq<char>, other: Seq<char>) -> Seq<char> {
    if value == 1 {
        one
    } else {
        other
    }
}

/// A count rendered with `{:0>width}`.
pub open spec fn zero_padded(value: int, width: nat) -> Seq<char> {
    pad_left(decimal(value), '0', width)
}

/// The countdown text for a remaining time given as whole days, hours, minutes and
/// seconds, each counted in total (as the duration's `num_*` accessors give them).
pub open spec fn countdown_text(
    days: int,
    total_hours: int,
    total_minutes: int,
    total_seconds: int,
) -> Seq<char> {
    let hours = remainder(total_hours, 24);
    let minutes = remainder(total_minutes, 60);
    let seconds = remainder(total_seconds, 60);
    fields_text(days, hours, minutes, seconds)
}

/// The countdown text showing the given days, hours, minutes and seconds.
pub open spec fn fields_text(days: int, hours: int, minutes: int, seconds: int) -> Seq<char> {
    zero_padded(days, 3) + " "@ + plural_form(days, "day, "@, "days,"@) + " "@ + zero_padded(
        hours,
        2,
    ) + " "@ + plural_form(hours, "hour, "@, "hours,"@) + " "@ + zero_padded(minutes, 2) + " "@
        + plural_form(minutes, "minute "@, "minutes"@) + " and "@ + zero_padded(seconds, 2) + " "@
        + plural_form(seconds, "second "@, "seconds"@)
}

/// For a remaining time that is not negative, the countdown text shows the whole days,
/// then the hours, minutes and seconds left over: where the total hours are
/// `days * 24 + hours`, the total minutes `total_hours * 60 + minutes` and the total
/// seconds `total_minutes * 60 + seconds`, with each part below its unit, the text shows
/// `days`, `hours`, `minutes` and `seconds`.
pub proof fn lemma_countdown_shows_what_is_left(
    days: int,
    total_hours: int,
    total_minutes: int,
    total_seconds: int,
    hours: int,
    minutes: int,
    seconds: int,
)
    requires
        days >= 0,
        0 <= hours < 24,
        0 <= minutes < 60,
        0 <= seconds < 60,
        total_hours == days * 24 + hours,
        total_minutes == total_hours * 60 + minutes,
        total_seconds == total_minutes * 60 + seconds,
    ensures
        countdown_text(days, total_hours, total_minutes, total_seconds) == fields_text(
            days,
            hours,
            minutes,
            seconds,
        ),
{
    vstd::arithmetic::div_mod::lemma_fundamental_div_mod_converse(total_hours, 24, days, hours);
    vstd::arithmetic::div_mod::lemma_fundamental_div_mod_converse(
        total_minutes,
        60,
        total_hours,
        minutes,
    );
    vstd::arithmetic::div_mod::lemma_fundamental_div_mod_converse(
        total_seconds,
        60,
        total_minutes,
        seconds,
    );
}

/// Rust's `/` on integers: the quotient rounded toward zero.
pub open spec fn quotient(a: int, b: int) -> int {
    if a >= 0 {
        a / b
    } else {
        -((-a) / b)
    }
}

/// The whole seconds from the instant `now_secs` seconds and `now_nanos` nanoseconds after
/// the Unix epoch to the instant `target_millis` milliseconds after it, rounded toward zero
/// (what a duration's `num_seconds` gives for the difference of the two).
pub open spec fn whole_seconds_until(target_millis: int, now_secs: int, now_nanos: int) -> int {
    quotient(target_millis * 1_000_000 - (now_secs * 1_000_000_000 + now_nanos), 1_000_000_000)
}

/// The countdown text shown at the instant `(now_secs, now_nanos)` for a target instant
/// given in milliseconds since the Unix epoch.
pub open spec fn countdown_text_at(target_millis: int, now_secs: int, now_nanos: int) -> Seq<
    char,
> {
    let seconds = whole_seconds_until(target_millis, now_secs, now_nanos);
    countdown_text(quotient(seconds, 86_400), quotient(seconds, 3_600), quotient(seconds, 60), seconds)
}

/// The countdown text shown while the target is still ahead splits the whole seconds
/// left into days, hours, minutes and seconds: `days * 86400 + hours * 3600 +
/// minutes * 60 + seconds` is the time left, each part below its unit.
pub proof fn lemma_countdown_splits_the_time_left(target_millis: int, now_secs: int, now_nanos: int)
    requires
        whole_seconds_until(target_millis, now_secs, now_nanos) >= 0,
    ensures
        ({
            let left = whole_seconds_until(target_millis, now_secs, now_nanos);
            let days = left / 86_400;
            let hours = left % 86_400 / 3_600;
            let minutes = left % 3_600 / 60;
            let seconds = left % 60;
            &&& days * 86_400 + hours * 3_600 + minutes * 60 + seconds == left
            &&& 0 <= hours < 24 && 0 <= minutes < 60 && 0 <= seconds < 60
            &&& countdown_text_at(target_millis, now_secs, now_nanos) == fields_text(
                days,
                hours,
                minutes,
                seconds,
            )
        }),
{
    let left = whole_seconds_until(target_millis, now_secs, now_nanos);
    let days = left / 86_400;
    let hours = left % 86_400 / 3_600;
    let minutes = left % 3_600 / 60;
    let seconds = left % 60;
    assert(left / 3_600 == days * 24 + hours);
    assert(left / 60 == (left / 3_600) * 60 + minutes);
    assert(left == (left / 60) * 60 + seconds);
    lemma_countdown_shows_what_is_left(
        days,
        left / 3_600,
        left / 60,
        left,
        hours,
        minutes,
        seconds,
    );
}

/// Renders the countdown module.
pub struct CountdownModuleRenderer;

impl CountdownModuleRenderer {
    /// Picks the singular or plural form of a unit for `value`.
    pub fn pluralize<'a>(value: i64, one: &'a str, other: &'a str) -> (form: &'a str)
        ensures
            form == if value == 1 {
                one
            } else {
                other
            },
    {
        match value {
            1 => one,
            _ => other,
        }
    }

    /// The remaining time from the instant `(now_secs, now_nanos)` to the target instant,
    /// as whole days, hours, minutes and seconds, each counted in total.
    pub fn remaining_time(target_millis: i64, now_secs: i64, now_nanos: u32) -> (parts: (
        i64,
        i64,
        i64,
        i64,
    ))
        requires
            i64::MIN <= whole_seconds_until(target_millis as int, now_secs as int, now_nanos as int)
                <= i64::MAX,
        ensures
            parts.3 == whole_seconds_until(target_millis as int, now_secs as int, now_nanos as int),
            parts.2 == quotient(parts.3 as int, 60),
            parts.1 == quotient(parts.3 as int, 3_600),
            parts.0 == quotient(parts.3 as int, 86_400),
    {
        let target_nanos: i128 = (target_millis as i128) * 1_000_000;
        let now_total: i128 = (now_secs as i128) * 1_000_000_000 + (now_nanos as i128);
        let diff: i128 = target_nanos - now_total;
        let whole: i128 = diff / 1_000_000_000;
        assert(whole == quotient(diff as int, 1_000_000_000));
        let seconds: i64 = whole as i64;
        (seconds / 86_400, seconds / 3_600, seconds / 60, seconds)
    }

    /// The countdown text for the given remaining days, hours, minutes and seconds,
    /// each counted in total.
    pub fn countdown_string(
        days: i64,
        total_hours: i64,
        total_minutes: i64,
        total_seconds: i64,
    ) -> (text: String)
        ensures
            text@ == countdown_text(
                days as int,
                total_hours as int,
                total_minutes as int,
                total_seconds as int,
            ),
    {
        let hours = total_hours % 24;
        let minutes = total_minutes % 60;
        let seconds = total_seconds % 60;
        let mut text = padded_left(decimal_string(days).as_str(), '0', 3);
        text.append(" ");
        text.append(Self::pluralize(days, "day, ", "days,"));
        text.append(" ");
        text.append(padded_left(decimal_string(hours).as_str(), '0', 2).as_str());
        text.append(" ");
        text.append(Self::pluralize(hours, "hour, ", "hours,"));
        text.append(" ");
        text.append(padded_left(decimal_string(minutes).as_str(), '0', 2).as_str());
        text.append(" ");
        text.append(Self::pluralize(minutes, "minute ", "minutes"));
        text.append(" and ");
        text.append(padded_left(decimal_string(seconds).as_str(), '0', 2).as_str());
        text.append(" ");
        text.append(Self::pluralize(seconds, "second ", "seconds"));
        assert(text@ =~= countdown_text(
            days as int,
            total_hours as int,
            total_minutes as int,
            total_seconds as int,
        ));
        text
    }

    /// The countdown text at the instant `now_secs` seconds and `now_nanos` nanoseconds
    /// after the Unix epoch, for a target instant given in milliseconds since the epoch.
    pub fn make_countdown_string(target_millis: i64, now_secs: i64, now_nanos: u32) -> (text: String)
        requires
            i64::MIN <= whole_seconds_until(target_millis as int, now_secs as int, now_nanos as int)
                <= i64::MAX,
        ensures
            text@ == countdown_text_at(target_millis as int, now_secs as int, now_nanos as int),
    {
        let parts = Self::remaining_time(target_millis, now_secs, now_nanos);
        Self::countdown_string(parts.0, parts.1, parts.2, parts.3)
    }
}

} // verus!
