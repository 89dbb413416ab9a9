//! Points in time, their text, and the windows that are measured with them.

use vstd::prelude::*;

use crate::text::number::{all_digits, decimal, decimal_denotes, is_digit, parse_digits, value_of};
use crate::text::order::text_lt;
use crate::text::{
    chars_of, is_blank, is_space, lemma_trim_around, lemma_trim_fixed, range_of, same_text,
    string_of, trim, trim_chars,
};

verus! {

/// A point in time: seconds since the start of 1970 in UTC, and nanoseconds. In a
/// leap second the nanoseconds go on beyond a billion.
#[derive(Debug, Clone, Copy, PartialEq, Eq, Structural)]
pub struct Instant {
    pub secs: i64,
    pub nanos: u32,
}

/// The first second that has a date.
pub const MIN_SECS: i64 = -8334601228800;

/// The last second that has a date.
pub const MAX_SECS: i64 = 8210266876799;

/// The seconds of a day.
pub const DAY_SECS: i64 = 86400;

/// A posting that falls this far behind a run is marked closed.
pub const STALE_DAYS: i64 = 3;

impl View for Instant {
    type V = (int, int);

    /// The seconds and the nanoseconds.
    open spec fn view(&self) -> (int, int) {
        (self.secs as int, self.nanos as int)
    }
}

impl Instant {
    /// Whether the instant has a date and is not in a leap second.
    pub open spec fn is_plain(self) -> bool {
        &&& MIN_SECS <= self.secs <= MAX_SECS
        &&& self.nanos < 1_000_000_000
    }

    /// Whether the instant has a date. A leap second follows the last second of a
    /// minute.
    pub open spec fn is_valid(self) -> bool {
        &&& MIN_SECS <= self.secs <= MAX_SECS
        &&& self.nanos < 2_000_000_000
        &&& self.nanos >= 1_000_000_000 ==> self.secs as int % 60 == 59
    }

    /// Whether the instant has a date and is not in a leap second.
    pub fn plain(&self) -> (r: bool)
        ensures
            r == self.is_plain(),
    {
        MIN_SECS <= self.secs && self.secs <= MAX_SECS && self.nanos < 1_000_000_000
    }
}

/// The instant that an RFC 3339 text denotes, if it is one, in seconds and
/// nanoseconds.
pub uninterp spec fn rfc3339_instant(s: Seq<char>) -> Option<(int, int)>;

/// The RFC 3339 text of an instant, given in seconds and nanoseconds.
pub uninterp spec fn rfc3339_text(t: (int, int)) -> Seq<char>;

/// The calendar date of an instant in UTC, as year, month and day.
pub uninterp spec fn utc_date(t: (int, int)) -> Seq<char>;

/// The whole days from the second instant to the first.
pub uninterp spec fn days_apart(now: (int, int), then: (int, int)) -> int;

/// The view of an optional instant.
pub open spec fn opt_instant(o: Option<Instant>) -> Option<(int, int)> {
    match o {
        Some(t) => Some(t@),
        None => None,
    }
}

/// `chrono::DateTime::parse_from_rfc3339`, with the result as seconds and
/// nanoseconds: the instant that the text denotes, or none if the text is not in
/// the format. A leap second is represented as the last second of a minute with a
/// billion nanoseconds more.
#[verifier::external_body]
pub(crate) fn parse_rfc3339(s: &str) -> (r: Option<Instant>)
    ensures
        opt_instant(r) == rfc3339_instant(s@),
        r matches Some(t) ==> t.is_valid(),
{
    match chrono::DateTime::parse_from_rfc3339(s) {
        Ok(t) => Some(Instant { secs: t.timestamp(), nanos: t.timestamp_subsec_nanos() }),
        Err(_) => None,
    }
}

/// Whether an instant, in seconds and nanoseconds, lies in the years from 0 to 9999
/// and is not in a leap second.
pub open spec fn is_common(t: (int, int)) -> bool {
    -62167219200 <= t.0 <= 253402300799 && 0 <= t.1 < 1_000_000_000
}

/// Whether an instant is before another.
pub open spec fn is_before(a: (int, int), b: (int, int)) -> bool {
    a.0 < b.0 || (a.0 == b.0 && a.1 < b.1)
}

/// Whether a text sorts among timestamps as an instant does among instants: those
/// that sort before it are the timestamps of earlier instants.
pub open spec fn sorts_as(text: Seq<char>, t: (int, int)) -> bool {
    forall|u: (int, int)|
        is_common(u) ==> (text_lt(#[trigger] rfc3339_text(u), text) <==> is_before(u, t))
}

/// `chrono::DateTime::to_rfc3339` of an instant in UTC. For the years from 0 to
/// 9999 the text is one that parses back to the same instant, and the texts sort as
/// the instants do: the fields from the year down to the second have a fixed width,
/// a fraction of a second has three, six or nine digits without needless groups of
/// zeros, and the plus sign of the offset behind it sorts before the point and the
/// digits. Other years are written with a sign, which the format does not have.
#[verifier::external_body]
fn to_rfc3339(t: Instant) -> (r: String)
    requires
        t.is_plain(),
    ensures
        r@ == rfc3339_text(t@),
        is_common(t@) ==> rfc3339_instant(r@) == Some(t@),
        is_common(t@) ==> sorts_as(r@, t@),
{
    chrono::DateTime::from_timestamp(t.secs, t.nanos).unwrap().to_rfc3339()
}

/// `chrono::DateTime::format` of an instant in UTC with `%Y-%m-%d`: its calendar
/// date.
#[verifier::external_body]
fn format_date(t: Instant) -> (r: String)
    requires
        t.is_plain(),
    ensures
        r@ == utc_date(t@),
{
    chrono::DateTime::from_timestamp(t.secs, t.nanos).unwrap().format("%Y-%m-%d").to_string()
}

/// The nanoseconds of a day.
pub open spec fn day_nanos() -> int {
    86_400_000_000_000
}

/// The whole days in a number of nanoseconds, rounded toward zero.
pub open spec fn whole_days(nanos: int) -> int {
    if nanos >= 0 {
        nanos / day_nanos()
    } else {
        -((-nanos) / day_nanos())
    }
}

/// `chrono::DateTime::signed_duration_since` and `TimeDelta::num_days`: the whole
/// days from one instant to the other. Outside of leap seconds these are the days
/// in the difference of the two, rounded toward zero; how a leap second is counted
/// is not said.
#[verifier::external_body]
pub(crate) fn elapsed_days(now: Instant, then: Instant) -> (r: i64)
    requires
        now.is_plain(),
        then.is_valid(),
    ensures
        r == days_apart(now@, then@),
        then.is_plain() ==> r == whole_days(
            (now.secs - then.secs) * 1_000_000_000 + now.nanos - then.nanos,
        ),
{
    let a = chrono::DateTime::from_timestamp(now.secs, now.nanos).unwrap();
    let b = chrono::DateTime::from_timestamp(then.secs, then.nanos).unwrap();
    a.signed_duration_since(b).num_days()
}

/// The timestamp of an instant. In the years from 0 to 9999 it reads back as the
/// same instant, and sorts as the instant does.
pub fn timestamp(t: Instant) -> (r: String)
    requires
        t.is_plain(),
    ensures
        r@ == rfc3339_text(t@),
        is_common(t@) ==> rfc3339_instant(r@) == Some(t@),
        is_common(t@) ==> sorts_as(r@, t@),
{
    to_rfc3339(t)
}

/// The calendar date of an instant in UTC.
pub fn date_text(t: Instant) -> (r: String)
    requires
        t.is_plain(),
    ensures
        r@ == utc_date(t@),
{
    format_date(t)
}

/// Whole days elapsed from a text to now, if the text is a timestamp.
pub open spec fn days_from(ts: Seq<char>, now: Instant) -> Option<int> {
    match rfc3339_instant(ts) {
        Some(t) => Some(days_apart(now@, t)),
        None => None,
    }
}

/// An optional number as an integer.
pub open spec fn opt_int(o: Option<i64>) -> Option<int> {
    match o {
        Some(n) => Some(n as int),
        None => None,
    }
}

/// Whole days elapsed from an RFC 3339 timestamp to now.
pub fn days_since(ts: &str, now: Instant) -> (r: Option<i64>)
    requires
        now.is_plain(),
    ensures
        opt_int(r) == days_from(ts@, now),
        r is Some <==> rfc3339_instant(ts@) is Some,
        rfc3339_instant(ts@) matches Some(t) ==> t.1 < 1_000_000_000 ==> opt_int(r) == Some(
            whole_days((now.secs - t.0) * 1_000_000_000 + now.nanos - t.1),
        ),
{
    match parse_rfc3339(ts) {
        Some(t) => Some(elapsed_days(now, t)),
        None => None,
    }
}

/// A time later by fewer days than a bound has fewer whole days elapsed than it,
/// and one later by at least that many has at least as many.
pub proof fn whole_days_count_days(nanos: int, days: int)
    requires
        days > 0,
    ensures
        whole_days(nanos) >= days <==> nanos >= days * day_nanos(),
{
    if nanos >= 0 {
        assert(nanos / 86_400_000_000_000 >= days <==> nanos >= days * 86_400_000_000_000)
            by (nonlinear_arith)
            requires
                nanos >= 0,
                days > 0,
        ;
    } else {
        assert((-nanos) / 86_400_000_000_000 >= 0) by (nonlinear_arith)
            requires
                nanos < 0,
        ;
        assert(days * 86_400_000_000_000 > 0) by (nonlinear_arith)
            requires
                days > 0,
        ;
    }
}

// ---------------------------------------------------------------------------
// Windows
// ---------------------------------------------------------------------------

/// Why a window cannot be understood.
#[derive(Debug, Clone)]
pub enum SinceError {
    /// There is no number, or one that is too large.
    Invalid(String),
    /// The unit is not one of hours, days and weeks.
    UnknownUnit(String),
}

impl SinceError {
    /// The message of the error.
    pub open spec fn text(self) -> Seq<char> {
        match self {
            SinceError::Invalid(s) => "invalid --since value '"@ + s@ + "'"@,
            SinceError::UnknownUnit(u) => "unknown --since unit '"@ + u@ + "' (use h, d, or w)"@,
        }
    }

    /// The message of the error.
    pub fn message(&self) -> (r: String)
        ensures
            r@ == self.text(),
            match self {
                SinceError::Invalid(s) => r@ == "invalid --since value '"@ + s@ + "'"@,
                SinceError::UnknownUnit(u) => r@ == "unknown --since unit '"@ + u@
                    + "' (use h, d, or w)"@,
            },
    {
        match self {
            SinceError::Invalid(v) => {
                let mut s = "invalid --since value '".to_owned();
                s.append(v.as_str());
                s.append("'");
                s
            },
            SinceError::UnknownUnit(u) => {
                let mut s = "unknown --since unit '".to_owned();
                s.append(u.as_str());
                s.append("' (use h, d, or w)");
                s
            },
        }
    }
}

/// The number of digits that a text starts with.
pub open spec fn digits_at_start(s: Seq<char>) -> int
    decreases s.len(),
{
    if s.len() == 0 || !is_digit(s[0]) {
        0
    } else {
        1 + digits_at_start(s.drop_first())
    }
}

/// The seconds of a unit: hours, days or weeks. A number without a unit is in days.
pub open spec fn unit_secs(unit: Seq<char>) -> Option<int> {
    if unit == ""@ || unit == "d"@ {
        Some(86400)
    } else if unit == "h"@ {
        Some(3600)
    } else if unit == "w"@ {
        Some(604800)
    } else {
        None
    }
}

/// The number part of a window.
pub open spec fn window_number(s: Seq<char>) -> Seq<char> {
    trim(s).take(digits_at_start(trim(s)))
}

/// The unit part of a window.
pub open spec fn window_unit(s: Seq<char>) -> Seq<char> {
    trim(s).skip(digits_at_start(trim(s)))
}

/// Whether the number part of a window is a number that can be held.
pub open spec fn has_window_number(s: Seq<char>) -> bool {
    window_number(s).len() > 0 && value_of(window_number(s)) <= i64::MAX
}

/// The seconds of a window, if it can be understood.
pub open spec fn window_secs(s: Seq<char>) -> Option<int> {
    if !has_window_number(s) {
        None
    } else {
        match unit_secs(window_unit(s)) {
            Some(u) => Some(value_of(window_number(s)) * u),
            None => None,
        }
    }
}

/// The digits at the start are digits, and what follows does not start with one.
proof fn lemma_digits_at_start(s: Seq<char>)
    ensures
        0 <= digits_at_start(s) <= s.len(),
        all_digits(s.take(digits_at_start(s))),
        digits_at_start(s) < s.len() ==> !is_digit(s[digits_at_start(s)]),
    decreases s.len(),
{
    if s.len() > 0 && is_digit(s[0]) {
        let d = s.drop_first();
        lemma_digits_at_start(d);
        let n = digits_at_start(s);
        assert forall|i: int| 0 <= i < n implies is_digit(#[trigger] s.take(n)[i]) by {
            if i > 0 {
                assert(d.take(n - 1)[i - 1] == s[i]);
            }
        }
    }
}

/// The number of digits that a text starts with.
fn count_digits(v: &[char]) -> (n: usize)
    ensures
        n == digits_at_start(v@),
        n <= v@.len(),
        all_digits(v@.take(n as int)),
{
    let mut n: usize = 0;
    assert(v@.skip(0) =~= v@);
    while n < v.len() && '0' <= v[n] && v[n] <= '9'
        invariant
            n <= v.len(),
            digits_at_start(v@) == n + digits_at_start(v@.skip(n as int)),
        decreases v.len() - n,
    {
        assert(v@.skip(n as int).drop_first() =~= v@.skip(n + 1));
        n += 1;
    }
    proof {
        lemma_digits_at_start(v@);
        assert(digits_at_start(v@.skip(n as int)) == 0);
    }
    n
}

/// The seconds of a window like `1d`, `3d`, `12h` or `2w`. A bare number is in
/// days.
pub fn since_window(s: &str) -> (r: Result<i128, SinceError>)
    ensures
        match r {
            Ok(w) => window_secs(s@) == Some(w as int) && w >= 0,
            Err(SinceError::Invalid(t)) => !has_window_number(s@) && t@ == trim(s@),
            Err(SinceError::UnknownUnit(u)) => has_window_number(s@) && unit_secs(window_unit(s@))
                is None && u@ == window_unit(s@),
        },
{
    let v = trim_chars(chars_of(s).as_slice());
    let k = count_digits(v.as_slice());
    let number = range_of(v.as_slice(), 0, k);
    let unit = string_of(range_of(v.as_slice(), k, v.len()).as_slice());
    assert(number@ =~= window_number(s@));
    assert(unit@ =~= window_unit(s@));
    match parse_digits(number.as_slice()) {
        None => Err(SinceError::Invalid(string_of(v.as_slice()))),
        Some(n) => {
            let secs: i128 = if same_text(unit.as_str(), "") || same_text(unit.as_str(), "d") {
                86400
            } else if same_text(unit.as_str(), "h") {
                3600
            } else if same_text(unit.as_str(), "w") {
                604800
            } else {
                return Err(SinceError::UnknownUnit(unit));
            };
            assert(0 <= n * secs <= i64::MAX * 604800) by (nonlinear_arith)
                requires
                    0 <= n <= i64::MAX,
                    0 <= secs <= 604800,
            ;
            Ok(n as i128 * secs)
        },
    }
}

/// Whether the start of a window that ends now has a date.
pub open spec fn window_fits(now: Instant, secs: int) -> bool {
    now.is_plain() && 0 <= secs && MIN_SECS <= now.secs - secs
}

/// Whether the start of a window that ends now has a date.
pub fn fits(now: Instant, secs: i128) -> (r: bool)
    ensures
        r == window_fits(now, secs as int),
{
    now.plain() && 0 <= secs && secs <= now.secs as i128 - MIN_SECS as i128
}

/// The instant a number of seconds before.
pub open spec fn earlier(t: (int, int), secs: int) -> (int, int) {
    (t.0 - secs, t.1)
}

/// The text of the start of a window that ends now.
pub fn cutoff(now: Instant, secs: i128) -> (r: String)
    requires
        window_fits(now, secs as int),
    ensures
        r@ == rfc3339_text(earlier(now@, secs as int)),
        is_common(earlier(now@, secs as int)) ==> sorts_as(r@, earlier(now@, secs as int)),
{
    to_rfc3339(Instant { secs: (now.secs as i128 - secs) as i64, nanos: now.nanos })
}

/// Parse a `--since` window like `1d`, `3d`, `12h` or `2w` into the timestamp at
/// which it starts. A bare number is in days.
pub fn parse_since(s: &str, now: Instant) -> (r: Result<String, SinceError>)
    requires
        now.is_plain(),
        window_secs(s@) matches Some(w) ==> window_fits(now, w),
    ensures
        match r {
            Ok(c) => window_secs(s@) matches Some(w) && c@ == rfc3339_text(earlier(now@, w)) && (
            is_common(earlier(now@, w)) ==> sorts_as(c@, earlier(now@, w))),
            Err(SinceError::Invalid(t)) => !has_window_number(s@) && t@ == trim(s@),
            Err(SinceError::UnknownUnit(u)) => has_window_number(s@) && unit_secs(window_unit(s@))
                is None && u@ == window_unit(s@),
        },
{
    match since_window(s) {
        Ok(w) => Ok(cutoff(now, w)),
        Err(e) => Err(e),
    }
}

/// The timestamp before which a posting that was last seen is stale, for a run that
/// started now.
pub fn stale_cutoff(now: Instant) -> (r: String)
    requires
        window_fits(now, STALE_DAYS * DAY_SECS),
    ensures
        r@ == rfc3339_text(earlier(now@, STALE_DAYS * DAY_SECS)),
        r@ == rfc3339_text((now.secs - 259200, now.nanos as int)),
        is_common(earlier(now@, STALE_DAYS * DAY_SECS)) ==> sorts_as(
            r@,
            earlier(now@, STALE_DAYS * DAY_SECS),
        ),
{
    cutoff(now, 259200)
}

/// A window of a number of hours, days or weeks is that many of them, in seconds. A number
/// alone is in days, and whitespace around it does not matter.
pub proof fn windows_are_measured_by_their_unit(n: nat)
    requires
        n <= i64::MAX,
    ensures
        window_secs(decimal(n) + "h"@) == Some(n as int * 3600),
        window_secs(decimal(n) + "d"@) == Some(n as int * 86400),
        window_secs(decimal(n) + "w"@) == Some(n as int * 604800),
        window_secs(decimal(n)) == Some(n as int * 86400),
{
    decimal_denotes(n);
    reveal_strlit("");
    reveal_strlit("h");
    reveal_strlit("d");
    reveal_strlit("w");
    let d = decimal(n);
    lemma_window(d, "h"@);
    lemma_window(d, "d"@);
    lemma_window(d, "w"@);
    lemma_window(d, Seq::empty());
    assert(d + Seq::<char>::empty() =~= d);
    assert(""@ =~= Seq::<char>::empty());
    assert("h"@[0] == 'h' && "d"@[0] == 'd' && "w"@[0] == 'w');
}

/// A window without a number, or with any other unit, is not understood.
pub proof fn other_windows_are_refused(n: nat, unit: Seq<char>)
    requires
        unit.len() > 0,
        forall|i: int| 0 <= i < unit.len() ==> !is_space(#[trigger] unit[i]),
        !is_digit(unit[0]),
        unit != "h"@,
        unit != "d"@,
        unit != "w"@,
    ensures
        window_secs(decimal(n) + unit) is None,
        window_secs(unit) is None,
        window_secs(Seq::empty()) is None,
{
    decimal_denotes(n);
    reveal_strlit("");
    lemma_window(decimal(n), unit);
    lemma_window(Seq::empty(), unit);
    lemma_window(Seq::empty(), Seq::empty());
    assert(Seq::<char>::empty() + unit =~= unit);
    assert(Seq::<char>::empty() + Seq::<char>::empty() =~= Seq::<char>::empty());
}

/// Whitespace around a window does not matter.
pub proof fn windows_are_trimmed(a: Seq<char>, s: Seq<char>, b: Seq<char>)
    requires
        is_blank(a),
        is_blank(b),
    ensures
        window_secs(a + s + b) == window_secs(s),
{
    lemma_trim_around(a, s, b);
}

/// A number too large to be held is refused, whatever its unit; zeros in front of a
/// number do not matter.
pub proof fn numbers_of_windows_are_read_whole(n: nat, unit: Seq<char>)
    requires
        forall|i: int| 0 <= i < unit.len() ==> !is_space(#[trigger] unit[i]),
        unit.len() > 0 ==> !is_digit(unit[0]),
    ensures
        n > i64::MAX ==> window_secs(decimal(n) + unit) is None,
        window_secs(seq!['0'] + decimal(n) + unit) == window_secs(decimal(n) + unit),
{
    decimal_denotes(n);
    let d = decimal(n);
    let z = seq!['0'] + d;
    lemma_window(d, unit);
    assert(all_digits(z)) by {
        assert forall|i: int| 0 <= i < z.len() implies is_digit(#[trigger] z[i]) by {
            if i > 0 {
                assert(z[i] == d[i - 1]);
            }
        }
    }
    lemma_window(z, unit);
    lemma_leading_zero(d);
}

/// A zero in front of digits does not change their value.
proof fn lemma_leading_zero(d: Seq<char>)
    ensures
        value_of(seq!['0'] + d) == value_of(d),
    decreases d.len(),
{
    let z = seq!['0'] + d;
    if d.len() == 0 {
        assert(z.drop_last() =~= d);
        assert(value_of(z.drop_last()) == 0);
    } else {
        assert(z.drop_last() =~= seq!['0'] + d.drop_last());
        lemma_leading_zero(d.drop_last());
    }
}

/// How a window is taken apart.
proof fn lemma_window(d: Seq<char>, unit: Seq<char>)
    requires
        all_digits(d),
        forall|i: int| 0 <= i < unit.len() ==> !is_space(#[trigger] unit[i]),
        unit.len() > 0 ==> !is_digit(unit[0]),
    ensures
        window_number(d + unit) == d,
        window_unit(d + unit) == unit,
{
    let s = d + unit;
    if s.len() > 0 {
        if d.len() > 0 {
            assert(s[0] == d[0]);
            assert(is_digit(d[0]));
        } else {
            assert(s[0] == unit[0]);
        }
        if unit.len() > 0 {
            assert(s.last() == unit[unit.len() - 1]);
        } else {
            assert(s.last() == d[d.len() - 1]);
            assert(is_digit(d[d.len() - 1]));
        }
    }
    lemma_trim_fixed(s);
    lemma_digits_in_front(d, unit);
    assert(s.take(d.len() as int) =~= d);
    assert(s.skip(d.len() as int) =~= unit);
}

proof fn lemma_digits_in_front(d: Seq<char>, unit: Seq<char>)
    requires
        all_digits(d),
        unit.len() > 0 ==> !is_digit(unit[0]),
    ensures
        digits_at_start(d + unit) == d.len(),
    decreases d.len(),
{
    let s = d + unit;
    if d.len() == 0 {
        assert(s =~= unit);
    } else {
        assert(is_digit(d[0]));
        assert(s[0] == d[0]);
        let r = d.drop_first();
        assert forall|i: int| 0 <= i < r.len() implies is_digit(#[trigger] r[i]) by {
            assert(r[i] == d[i + 1]);
        }
        assert(s.drop_first() =~= r + unit);
        lemma_digits_in_front(r, unit);
    }
}

/// A window reaches back by its seconds, and fits where its start still has a date.
pub proof fn windows_reach_back(now: Instant, secs: int)
    ensures
        earlier(now@, secs) == (now.secs - secs, now.nanos as int),
        window_fits(now, secs) <==> -8334601228800 <= now.secs <= 8210266876799 && now.nanos
            < 1_000_000_000 && secs >= 0 && now.secs - secs >= -8334601228800,
{
}

/// Whole days are counted in days of 86400 seconds, and rounded toward now.
pub proof fn days_are_counted_whole(days: int, nanos: int)
    requires
        0 <= nanos < 86_400_000_000_000,
        days >= 0,
    ensures
        whole_days(days * 86_400_000_000_000 + nanos) == days,
        whole_days(-(days * 86_400_000_000_000 + nanos)) == -days,
{
    assert((days * 86_400_000_000_000 + nanos) / 86_400_000_000_000 == days) by (nonlinear_arith)
        requires
            0 <= nanos < 86_400_000_000_000,
            days >= 0,
    ;
    assert(days * 86_400_000_000_000 >= 0) by (nonlinear_arith)
        requires
            days >= 0,
    ;
    assert((days * 86_400_000_000_000) / 86_400_000_000_000 == days) by (nonlinear_arith)
        requires
            days >= 0,
    ;
    if days > 0 {
        assert(days * 86_400_000_000_000 > 0) by (nonlinear_arith)
            requires
                days > 0,
        ;
    }
}

} // verus!
