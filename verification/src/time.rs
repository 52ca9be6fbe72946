//! Instants parsed from RFC 3339 text, and the age and expiry rules built on them.

use vstd::prelude::*;
use crate::models::opt_string_view;

verus! {

/// An instant as whole seconds since the Unix epoch and the nanoseconds past them.
pub type Instant = (i64, u32);

/// Nanoseconds since the Unix epoch.
pub open spec fn nanos_of(t: Instant) -> int {
    t.0 as int * 1_000_000_000 + t.1 as int
}

pub open spec fn nanos_per_day() -> int {
    86_400_000_000_000
}

/// The UTC instant that `chrono` reads from an RFC 3339 timestamp, as
/// `(timestamp(), timestamp_subsec_nanos())`, or `None` where it rejects the text.
pub uninterp spec fn rfc3339_instant(s: Seq<char>) -> Option<(i64, u32)>;

/// `chrono::DateTime::parse_from_rfc3339`, converted to UTC.
/// Claimed: the result is the instant named by `rfc3339_instant`, a function
/// of the text alone (the offset in the text fixes the instant).
#[verifier::external_body]
pub(crate) fn parse_rfc3339(s: &str) -> (r: Option<Instant>)
    ensures
        r == rfc3339_instant(s@),
{
    match chrono::DateTime::parse_from_rfc3339(s) {
        Ok(d) => {
            let u = d.with_timezone(&chrono::Utc);
            Some((u.timestamp(), u.timestamp_subsec_nanos()))
        },
        Err(_) => None,
    }
}

/// The system clock against the Unix epoch:
/// `SystemTime::now().duration_since(UNIX_EPOCH)`, as whether the clock reads
/// the epoch or later, and the whole seconds and nanoseconds of the distance
/// (for a clock before the epoch, the distance of the error's `duration`).
/// Claimed: the nanoseconds are below one second, as `Duration::subsec_nanos`
/// documents. Which time the clock reads is not stated.
#[verifier::external_body]
fn read_clock() -> (r: (bool, u64, u32))
    ensures
        r.2 < 1_000_000_000,
{
    match std::time::SystemTime::now().duration_since(std::time::UNIX_EPOCH) {
        Ok(d) => (true, d.as_secs(), d.subsec_nanos()),
        Err(e) => (false, e.duration().as_secs(), e.duration().subsec_nanos()),
    }
}

/// The current time as an instant; a clock beyond the range of `i64`
/// seconds is held at the nearest end of that range.
pub(crate) fn current_instant() -> (t: Instant)
    ensures
        t.1 < 1_000_000_000,
{
    let (after, secs, nanos) = read_clock();
    let max = i64::MAX as u64;
    if after {
        if secs > max {
            (i64::MAX, nanos)
        } else {
            (secs as i64, nanos)
        }
    } else if secs >= max {
        (i64::MIN, 0)
    } else if nanos == 0 {
        (-(secs as i64), 0)
    } else {
        (-(secs as i64) - 1, 1_000_000_000 - nanos)
    }
}

/// The UTC date of an instant as `chrono` writes it with `%Y-%m-%d`; `None`
/// for an instant that `chrono` cannot represent.
pub uninterp spec fn utc_date_text(t: (i64, u32)) -> Option<Seq<char>>;

/// An instant as `chrono`'s `to_rfc3339` writes it in UTC; `None` for an
/// instant that `chrono` cannot represent.
pub uninterp spec fn rfc3339_text(t: (i64, u32)) -> Option<Seq<char>>;

/// A character of a `%Y-%m-%d` date.
pub open spec fn date_char(c: char) -> bool {
    ('0' <= c && c <= '9') || c == '-' || c == '+'
}

/// `DateTime::<Utc>::from_timestamp`, then `format("%Y-%m-%d")`.
/// Claimed: the result is `utc_date_text(t)`; the text is not empty and
/// holds only digits, `-` and `+` (a year outside 0..=9999 has its sign).
#[verifier::external_body]
pub(crate) fn format_utc_date(t: Instant) -> (r: Option<String>)
    ensures
        opt_string_view(r) == utc_date_text(t),
        r matches Some(x) ==> x@.len() > 0 && forall|i: int| 0 <= i < x@.len() ==> date_char(#[trigger] x@[i]),
{
    match chrono::DateTime::from_timestamp(t.0, t.1) {
        Some(d) => Some(d.format("%Y-%m-%d").to_string()),
        None => None,
    }
}

/// `DateTime::<Utc>::from_timestamp`, then `to_rfc3339`.
/// Claimed: the result is `rfc3339_text(t)`.
#[verifier::external_body]
pub(crate) fn format_rfc3339(t: Instant) -> (r: Option<String>)
    ensures
        opt_string_view(r) == rfc3339_text(t),
{
    match chrono::DateTime::from_timestamp(t.0, t.1) {
        Some(d) => Some(d.to_rfc3339()),
        None => None,
    }
}

fn nanos_exec(t: Instant) -> (n: i128)
    ensures
        n as int == nanos_of(t),
{
    t.0 as i128 * 1_000_000_000i128 + t.1 as i128
}

/// A file is old enough for a rule that asks for `min_age_days`: always when
/// the rule asks for none, otherwise when its modification time parses and
/// lies at least that many days before `now`.
pub open spec fn age_ok_spec(min_age_days: u32, modified_at: Option<Seq<char>>, now: Instant) -> bool {
    min_age_days == 0 || match modified_at {
        None => false,
        Some(m) => match rfc3339_instant(m) {
            None => false,
            Some(t) => nanos_of(now) - nanos_of(t) >= min_age_days as int * nanos_per_day(),
        },
    }
}

pub open spec fn opt_view(s: Option<&str>) -> Option<Seq<char>> {
    match s {
        Some(x) => Some(x@),
        None => None,
    }
}

pub fn age_ok_at(min_age_days: u32, modified_at: Option<&str>, now: Instant) -> (b: bool)
    ensures
        b == age_ok_spec(min_age_days, opt_view(modified_at), now),
{
    if min_age_days == 0 {
        return true;
    }
    let raw = match modified_at {
        Some(raw) => raw,
        None => return false,
    };
    match parse_rfc3339(raw) {
        None => false,
        Some(t) => nanos_exec(now) - nanos_exec(t) >= min_age_days as i128 * 86_400_000_000_000i128,
    }
}

/// The age rule measured against the current time.
pub fn age_ok(min_age_days: u32, modified_at: Option<&str>) -> (b: bool)
    ensures
        exists|now: Instant| b == age_ok_spec(min_age_days, opt_view(modified_at), now),
{
    let now = current_instant();
    age_ok_at(min_age_days, modified_at, now)
}

/// The state of a quarantined item whose retention ends at `expires_at`:
/// `expired` once that instant has come, `expiring` within three days of
/// it, and `active` otherwise or when the text does not parse.
pub open spec fn quarantine_status_spec(expires_at: Seq<char>, now: Instant) -> Seq<char> {
    match rfc3339_instant(expires_at) {
        None => "active"@,
        Some(e) => if nanos_of(e) <= nanos_of(now) {
            "expired"@
        } else if nanos_of(e) - nanos_of(now) <= 3 * nanos_per_day() {
            "expiring"@
        } else {
            "active"@
        },
    }
}

pub fn quarantine_status_at(expires_at: &str, now: Instant) -> (s: &'static str)
    ensures
        s@ == quarantine_status_spec(expires_at@, now),
{
    match parse_rfc3339(expires_at) {
        None => "active",
        Some(e) => {
            let en = nanos_exec(e);
            let nn = nanos_exec(now);
            if en <= nn {
                "expired"
            } else if en - nn <= 3 * 86_400_000_000_000i128 {
                "expiring"
            } else {
                "active"
            }
        },
    }
}

/// The status of a quarantined item measured against the current time.
pub fn compute_status(expires_at: &str) -> (s: String)
    ensures
        exists|now: Instant| s@ == quarantine_status_spec(expires_at@, now),
{
    let now = current_instant();
    quarantine_status_at(expires_at, now).to_owned()
}


/// An entry old enough for a rule stays old enough as time goes on.
pub proof fn law_age_ok_monotone(min_age_days: u32, modified_at: Option<Seq<char>>, earlier: Instant, later: Instant)
    requires
        nanos_of(earlier) <= nanos_of(later),
        age_ok_spec(min_age_days, modified_at, earlier),
    ensures
        age_ok_spec(min_age_days, modified_at, later),
{
}

/// A quarantined item's state only moves forward in time: an expired item
/// stays expired, and an expiring one never becomes active again.
pub proof fn law_quarantine_status_monotone(expires_at: Seq<char>, earlier: Instant, later: Instant)
    requires
        nanos_of(earlier) <= nanos_of(later),
    ensures
        quarantine_status_spec(expires_at, earlier) == "expired"@
            ==> quarantine_status_spec(expires_at, later) == "expired"@,
        quarantine_status_spec(expires_at, earlier) == "expiring"@
            ==> quarantine_status_spec(expires_at, later) != "active"@,
{
    reveal_strlit("expired");
    reveal_strlit("expiring");
    reveal_strlit("active");
    assert("expired"@[0] != "active"@[0]);
    assert("expiring"@[0] != "active"@[0]);
    assert("expired"@.len() != "expiring"@.len());
}

/// An entry is old enough for a rule without a minimum age whatever its
/// time; for a rule with one, it is old enough exactly when its time reads
/// as a time at least that many whole days before now; an entry without a
/// readable time is never old enough for such a rule.
pub proof fn law_age_rule(min_age_days: u32, modified_at: Option<Seq<char>>, now: Instant)
    ensures
        min_age_days == 0 ==> age_ok_spec(min_age_days, modified_at, now),
        min_age_days > 0 && modified_at is None ==> !age_ok_spec(min_age_days, modified_at, now),
        modified_at matches Some(m) ==> (min_age_days > 0 && rfc3339_instant(m) is None
            ==> !age_ok_spec(min_age_days, modified_at, now)),
        modified_at matches Some(m) ==> (rfc3339_instant(m) matches Some(t) ==> (min_age_days > 0 ==> (
            age_ok_spec(min_age_days, modified_at, now) <==> nanos_of(now) - nanos_of(t) >= min_age_days as int
                * 86_400_000_000_000))),
{
}

/// A quarantined item is expired once its expiry time has come, expiring
/// within the three days before it, and active before that or when its
/// expiry cannot be read.
pub proof fn law_quarantine_status_by_time(expires_at: Seq<char>, now: Instant)
    ensures
        rfc3339_instant(expires_at) is None ==> quarantine_status_spec(expires_at, now) == "active"@,
        rfc3339_instant(expires_at) matches Some(e) ==> (nanos_of(e) <= nanos_of(now)
            ==> quarantine_status_spec(expires_at, now) == "expired"@),
        rfc3339_instant(expires_at) matches Some(e) ==> (nanos_of(now) < nanos_of(e) <= nanos_of(now)
            + 3 * 86_400_000_000_000 ==> quarantine_status_spec(expires_at, now) == "expiring"@),
        rfc3339_instant(expires_at) matches Some(e) ==> (nanos_of(e) > nanos_of(now) + 3 * 86_400_000_000_000
            ==> quarantine_status_spec(expires_at, now) == "active"@),
{
}

} // verus!
