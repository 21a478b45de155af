//! Instants and spans of time as text, written by `chrono` and `timeago`.
//!
//! An instant is a number of seconds since the epoch. What the two crates write for it is
//! not spelled out here: the texts go by the names [`utc_text`] and [`elapsed_text`].

use std::fmt::Write;
use vstd::prelude::*;

verus! {

/// What `chrono` writes for the instant `secs` seconds after the epoch, in UTC, under the
/// `strftime` pattern `pattern`; `None` where the instant is beyond the dates that `chrono`
/// can hold or the pattern cannot be written.
pub uninterp spec fn utc_text(secs: int, pattern: Seq<char>) -> Option<Seq<char>>;

/// What `timeago` writes in English for the span from the instant `from` to the instant `to`,
/// with `suffix` in the place of the word "ago"; `None` where one of the instants is beyond
/// the dates that `chrono` can hold.
pub uninterp spec fn elapsed_text(from: int, to: int, suffix: Seq<char>) -> Option<Seq<char>>;

/// `chrono::DateTime::from_timestamp` and `chrono::DateTime::format`, written out: the text
/// is the one named by [`utc_text`], and there is none exactly where that name has none.
#[verifier::external_body]
fn format_utc(secs: i64, pattern: &str) -> (text: Option<String>)
    ensures
        text matches Some(t) ==> utc_text(secs as int, pattern@) == Some(t@),
        text is None ==> utc_text(secs as int, pattern@) is None,
{
    let instant = chrono::DateTime::from_timestamp(secs, 0)?;
    let mut text = String::new();
    match write!(text, "{}", instant.format(pattern)) {
        Ok(()) => Some(text),
        Err(_) => None,
    }
}

/// `timeago::Formatter::convert_chrono` on an English formatter whose "ago" is `suffix`,
/// between two instants made by `chrono::DateTime::from_timestamp`: the text is the one named
/// by [`elapsed_text`], and there is none exactly where that name has none.
#[verifier::external_body]
fn format_elapsed(from: i64, to: i64, suffix: &'static str) -> (text: Option<String>)
    ensures
        text matches Some(t) ==> elapsed_text(from as int, to as int, suffix@) == Some(t@),
        text is None ==> elapsed_text(from as int, to as int, suffix@) is None,
{
    let from = chrono::DateTime::from_timestamp(from, 0)?;
    let to = chrono::DateTime::from_timestamp(to, 0)?;
    let mut formatter = timeago::Formatter::new();
    formatter.ago(suffix);
    Some(formatter.convert_chrono(from, to))
}

/// `chrono::Utc::now`, in whole seconds since the epoch. Nothing is known of the value.
#[verifier::external_body]
pub(crate) fn current_timestamp() -> i64 {
    chrono::Utc::now().timestamp()
}

/// The pattern in which instants are shown: time of day, month, day and year.
pub open spec fn clock_pattern() -> Seq<char> {
    seq!['%', 'T', ' ', '%', 'b', ' ', '%', 'e', ' ', '%', 'Y']
}

/// An instant as the tables show it. An instant that cannot be written is shown as the epoch.
pub open spec fn instant_text(secs: int) -> Seq<char> {
    match utc_text(secs, clock_pattern()) {
        Some(text) => text,
        None => match utc_text(0, clock_pattern()) {
            Some(text) => text,
            None => Seq::empty(),
        },
    }
}

/// Writes an instant as the tables show it.
pub fn format_instant(secs: i64) -> (text: String)
    ensures
        text@ == instant_text(secs as int),
{
    proof {
        reveal_strlit("%T %b %e %Y");
        assert("%T %b %e %Y"@ =~= clock_pattern());
    }
    match format_utc(secs, "%T %b %e %Y") {
        Some(text) => text,
        None => match format_utc(0, "%T %b %e %Y") {
            Some(text) => text,
            None => String::new(),
        },
    }
}

/// The whole seconds of an instant given in microseconds, rounded towards the epoch.
pub open spec fn seconds_of_micros(micros: int) -> int {
    if micros >= 0 {
        micros / 1_000_000
    } else {
        -((-micros) / 1_000_000)
    }
}

/// Turns microseconds since the epoch into whole seconds, rounding towards the epoch.
pub fn micros_to_seconds(micros: i64) -> (secs: i64)
    ensures
        secs == seconds_of_micros(micros as int),
{
    if micros >= 0 {
        micros / 1_000_000
    } else if micros == i64::MIN {
        -9_223_372_036_854i64
    } else {
        -((-micros) / 1_000_000)
    }
}

/// How long a player has been on the server, as the tables show it: the span from the
/// instant of joining to `now`, in words. A joining instant that cannot be written counts
/// as the epoch.
pub open spec fn playtime_text(join_micros: int, now: int) -> Seq<char> {
    match elapsed_text(seconds_of_micros(join_micros), now, Seq::empty()) {
        Some(text) => text,
        None => match elapsed_text(0, now, Seq::empty()) {
            Some(text) => text,
            None => Seq::empty(),
        },
    }
}

/// Writes how long a player who joined at `join_micros` has been on the server at `now`.
pub fn format_playtime(join_micros: i64, now: i64) -> (text: String)
    ensures
        text@ == playtime_text(join_micros as int, now as int),
{
    proof {
        reveal_strlit("");
        assert(""@ =~= Seq::<char>::empty());
    }
    match format_elapsed(micros_to_seconds(join_micros), now, "") {
        Some(text) => text,
        None => match format_elapsed(0, now, "") {
            Some(text) => text,
            None => String::new(),
        },
    }
}

} // verus!
