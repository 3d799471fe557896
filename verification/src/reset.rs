use vstd::prelude::*;

use crate::json::{as_i64, as_str, deref_opt, get, number, number_of, Json};
use crate::text::{
    chars_of, ends_with, parse_i64, parse_i64_chars, slice_chars, split_any, split_any_chars,
    split_once_any, string_of, trim, trim_chars, views, find_any_chars, lemma_find_any_from_bounds,
    all_white, is_white_space, lemma_trim_white_around,
};

verus! {

// ---------------------------------------------------------------------------
// ISO 8601 UTC times
// ---------------------------------------------------------------------------

/// The fields of a time such as `2026-08-27T01:58:06.064Z`. The seconds
/// stay text: they may carry a fraction, which is read as a floating-point
/// number outside this crate.
pub struct IsoUtc {
    pub year: i64,
    pub month: i64,
    pub day: i64,
    pub hour: i64,
    pub minute: i64,
    pub seconds: String,
}

pub struct IsoUtcView {
    pub year: i64,
    pub month: i64,
    pub day: i64,
    pub hour: i64,
    pub minute: i64,
    pub seconds: Seq<char>,
}

impl View for IsoUtc {
    type V = IsoUtcView;

    open spec fn view(&self) -> IsoUtcView {
        IsoUtcView {
            year: self.year,
            month: self.month,
            day: self.day,
            hour: self.hour,
            minute: self.minute,
            seconds: self.seconds@,
        }
    }
}

/// The fields of an ISO 8601 UTC time: the trimmed text, one trailing `Z`
/// dropped, is split at its first `T` into a date and a time; the date's
/// first three `-`-separated pieces are year, month and day, the time's
/// first two `:`-separated pieces are hour and minute, all `i64` integers;
/// the third piece of the time, or `0`, is the seconds text. The month must
/// lie in 1..=12 and the day in 1..=31.
pub open spec fn iso_fields(value: Seq<char>) -> Option<IsoUtcView> {
    let t = trim(value);
    let rest = if ends_with(t, seq!['Z']) {
        t.drop_last()
    } else {
        t
    };
    match split_once_any(rest, seq!['T']) {
        None => None,
        Some((date, time)) => {
            let d = split_any(date, seq!['-']);
            let tm = split_any(time, seq![':']);
            if d.len() < 3 || tm.len() < 2 {
                None
            } else {
                match (
                    parse_i64(d[0]),
                    parse_i64(d[1]),
                    parse_i64(d[2]),
                    parse_i64(tm[0]),
                    parse_i64(tm[1]),
                ) {
                    (Some(y), Some(mo), Some(da), Some(h), Some(mi)) => if 1 <= mo <= 12 && 1
                        <= da <= 31 {
                        Some(
                            IsoUtcView {
                                year: y,
                                month: mo,
                                day: da,
                                hour: h,
                                minute: mi,
                                seconds: if tm.len() >= 3 {
                                    tm[2]
                                } else {
                                    "0"@
                                },
                            },
                        )
                    } else {
                        None
                    },
                    _ => None,
                }
            }
        },
    }
}

/// A trailing `Z` and white space around the text do not change the fields
/// of a time: for a text `s` that neither starts nor ends with white space
/// and does not end in `Z`, the texts `a + s + b` and `a + s + "Z" + b`,
/// with white space `a` and `b`, give what `s` gives.
pub proof fn zone_mark_and_white_space_are_ignored(a: Seq<char>, s: Seq<char>, b: Seq<char>)
    requires
        all_white(a),
        all_white(b),
        s.len() == 0 || (!is_white_space(s[0]) && !is_white_space(s.last()) && s.last() != 'Z'),
    ensures
        iso_fields(a + s + b) == iso_fields(s),
        iso_fields(a + (s + seq!['Z']) + b) == iso_fields(s),
{
    let e = Seq::<char>::empty();
    assert(all_white(e));
    lemma_trim_white_around(a, s, b);
    lemma_trim_white_around(e, s, e);
    assert(e + s + e == s);
    let sz = s + seq!['Z'];
    assert(sz[0] == (if s.len() == 0 { 'Z' } else { s[0] }));
    assert(sz.last() == 'Z');
    lemma_trim_white_around(a, sz, b);
    assert(ends_with(sz, seq!['Z'])) by {
        assert(sz.skip(sz.len() - 1) == seq!['Z']);
    }
    assert(sz.drop_last() == s);
    if s.len() > 0 {
        assert(s.skip(s.len() - 1) =~= seq![s.last()]);
    }
    assert(!ends_with(s, seq!['Z'])) by {
        if s.len() > 0 && ends_with(s, seq!['Z']) {
            assert(s.skip(s.len() - 1)[0] == s.last());
        }
    }
}

pub open spec fn iso_view(r: Option<IsoUtc>) -> Option<IsoUtcView> {
    match r {
        Some(t) => Some(t@),
        None => None,
    }
}

/// The fields of an ISO 8601 UTC time (see `iso_fields`); the milliseconds
/// since the Unix epoch follow from them by `civil_epoch_ms` once the
/// seconds text is read.
pub fn parse_iso_utc_ms(value: &str) -> (r: Option<IsoUtc>)
    ensures
        iso_view(r) == iso_fields(value@),
{
    let v = chars_of(value);
    let t = trim_chars(&v);
    let z = vec!['Z'];
    assert(z@ == seq!['Z']);
    let rest = if crate::text::ends_with_chars(&t, &z) {
        slice_chars(&t, 0, t.len() - 1)
    } else {
        slice_chars(&t, 0, t.len())
    };
    assert(t@.subrange(0, t@.len() as int) == t@);
    assert(t@.len() > 0 ==> t@.subrange(0, t@.len() - 1) == t@.drop_last());
    let tee = vec!['T'];
    assert(tee@ == seq!['T']);
    let k = match find_any_chars(&rest, &tee) {
        None => return None,
        Some(k) => k,
    };
    let date = slice_chars(&rest, 0, k);
    let time = slice_chars(&rest, k + 1, rest.len());
    assert(date@ == rest@.take(k as int));
    assert(time@ == rest@.skip(k + 1));
    let dash = vec!['-'];
    let colon = vec![':'];
    assert(dash@ == seq!['-']);
    assert(colon@ == seq![':']);
    let d = split_any_chars(&date, &dash);
    let tm = split_any_chars(&time, &colon);
    if d.len() < 3 || tm.len() < 2 {
        return None;
    }
    assert(views(d@)[0] == d@[0]@ && views(d@)[1] == d@[1]@ && views(d@)[2] == d@[2]@);
    assert(views(tm@)[0] == tm@[0]@ && views(tm@)[1] == tm@[1]@);
    let year = match parse_i64_chars(&d[0]) {
        Some(n) => n,
        None => return None,
    };
    let month = match parse_i64_chars(&d[1]) {
        Some(n) => n,
        None => return None,
    };
    let day = match parse_i64_chars(&d[2]) {
        Some(n) => n,
        None => return None,
    };
    let hour = match parse_i64_chars(&tm[0]) {
        Some(n) => n,
        None => return None,
    };
    let minute = match parse_i64_chars(&tm[1]) {
        Some(n) => n,
        None => return None,
    };
    if month < 1 || month > 12 || day < 1 || day > 31 {
        return None;
    }
    let seconds = if tm.len() >= 3 {
        assert(views(tm@)[2] == tm@[2]@);
        string_of(&tm[2])
    } else {
        "0".to_owned()
    };
    Some(IsoUtc { year, month, day, hour, minute, seconds })
}

// ---------------------------------------------------------------------------
// Days from the civil calendar
// ---------------------------------------------------------------------------

/// Whether an integer fits in `i64`.
pub open spec fn in_i64(x: int) -> bool {
    i64::MIN <= x <= i64::MAX
}

/// The year counted from March (January and February belong to the year before).
pub open spec fn shifted_year(y: int, m: int) -> int {
    if m <= 2 {
        y - 1
    } else {
        y
    }
}

/// The 400-year era of a shifted year (rounded down).
pub open spec fn era_of(sy: int) -> int {
    sy / 400
}

/// The day within the era: days of whole years before, with the leap days
/// of the Gregorian calendar, plus the day within the March-based year.
pub open spec fn day_of_era(sy: int, m: int, d: int) -> int {
    let yoe = sy - era_of(sy) * 400;
    let moy = (m + 9) % 12;
    let doy = (153 * moy + 2) / 5 + d - 1;
    yoe * 365 + yoe / 4 - yoe / 100 + doy
}

/// Days from 1970-01-01 to the given date of the Gregorian calendar.
pub open spec fn days_from_civil(y: int, m: int, d: int) -> int {
    let sy = shifted_year(y, m);
    era_of(sy) * 146097 + day_of_era(sy, m, d) - 719468
}

/// Milliseconds since the Unix epoch of the given UTC time, the seconds
/// being given in milliseconds.
pub open spec fn civil_ms(t: IsoUtcView, second_ms: int) -> int {
    (days_from_civil(t.year as int, t.month as int, t.day as int) * 86400 + t.hour * 3600
        + t.minute * 60) * 1000 + second_ms
}

/// The step-by-step `i64` computation of `civil_ms` overflows nowhere.
pub open spec fn civil_ms_fits(t: IsoUtcView, second_ms: int) -> bool {
    let sy = shifted_year(t.year as int, t.month as int);
    let era = era_of(sy);
    let days = days_from_civil(t.year as int, t.month as int, t.day as int);
    &&& in_i64(sy)
    &&& in_i64(era * 400)
    &&& in_i64(era * 146097)
    &&& in_i64(era * 146097 + day_of_era(sy, t.month as int, t.day as int))
    &&& in_i64(days)
    &&& in_i64(days * 86400)
    &&& in_i64(t.hour * 3600)
    &&& in_i64(t.minute * 60)
    &&& in_i64(days * 86400 + t.hour * 3600)
    &&& in_i64(days * 86400 + t.hour * 3600 + t.minute * 60)
    &&& in_i64((days * 86400 + t.hour * 3600 + t.minute * 60) * 1000)
    &&& in_i64(civil_ms(t, second_ms))
}

fn in_i64_exec(x: i128) -> (b: bool)
    ensures
        b == in_i64(x as int),
{
    -0x8000_0000_0000_0000 <= x && x <= 0x7fff_ffff_ffff_ffff
}

/// `(days, day_of_era, era)` in exact arithmetic.
fn civil_days(t: &IsoUtc) -> (r: (i128, i128, i128))
    requires
        1 <= t.month <= 12,
        1 <= t.day <= 31,
    ensures
        r.0 == days_from_civil(t.year as int, t.month as int, t.day as int),
        r.1 == day_of_era(shifted_year(t.year as int, t.month as int), t.month as int, t.day as int),
        r.2 == era_of(shifted_year(t.year as int, t.month as int)),
        -0x1_0000_0000_0000_0000_0000_0000 < r.0 < 0x1_0000_0000_0000_0000_0000_0000,
{
    let y = t.year as i128;
    let m = t.month as i128;
    let d = t.day as i128;
    let sy = if m <= 2 {
        y - 1
    } else {
        y
    };
    // Shift to a non-negative number of whole eras, divide, shift back.
    let shift: i128 = 0x0100_0000_0000_0000;
    let era = (sy + 400 * shift) / 400 - shift;
    assert(era == era_of(sy as int));
    let yoe = sy - era * 400;
    let moy = (m + 9) % 12;
    let doy = (153 * moy + 2) / 5 + d - 1;
    let doe = yoe * 365 + yoe / 4 - yoe / 100 + doy;
    let days = era * 146097 + doe - 719468;
    (days, doe, era)
}

/// Whether `civil_epoch_ms` computes `t` without overflow (see `civil_ms_fits`).
pub fn civil_ms_in_range(t: &IsoUtc, second_ms: i64) -> (b: bool)
    requires
        1 <= t.month <= 12,
        1 <= t.day <= 31,
    ensures
        b == civil_ms_fits(t@, second_ms as int),
{
    let (days, doe, era) = civil_days(t);
    let sy: i128 = if t.month <= 2 {
        t.year as i128 - 1
    } else {
        t.year as i128
    };
    let h = t.hour as i128 * 3600;
    let mi = t.minute as i128 * 60;
    let dd = days * 86400;
    let base = (dd + h + mi) * 1000;
    in_i64_exec(sy) && in_i64_exec(era * 400) && in_i64_exec(era * 146097) && in_i64_exec(
        era * 146097 + doe,
    ) && in_i64_exec(days) && in_i64_exec(dd) && in_i64_exec(h) && in_i64_exec(mi)
        && in_i64_exec(dd + h) && in_i64_exec(dd + h + mi) && in_i64_exec(base) && in_i64_exec(
        base + second_ms as i128,
    )
}

/// Milliseconds since the Unix epoch of a parsed UTC time whose seconds
/// are `second_ms` milliseconds (see `civil_ms`).
pub fn civil_epoch_ms(t: &IsoUtc, second_ms: i64) -> (r: i64)
    requires
        1 <= t.month <= 12,
        1 <= t.day <= 31,
        civil_ms_fits(t@, second_ms as int),
    ensures
        r == civil_ms(t@, second_ms as int),
{
    let (days, _doe, _era) = civil_days(t);
    let ms = (days * 86400 + t.hour as i128 * 3600 + t.minute as i128 * 60) * 1000
        + second_ms as i128;
    ms as i64
}

/// Every parsed time has its month in 1..=12 and its day in 1..=31.
pub proof fn iso_fields_in_calendar(value: Seq<char>)
    ensures
        iso_fields(value) matches Some(t) ==> 1 <= t.month <= 12 && 1 <= t.day <= 31,
{
}

// ---------------------------------------------------------------------------
// Reset times of quota windows
// ---------------------------------------------------------------------------

/// When a quota window resets: milliseconds since the Unix epoch, or a UTC
/// time whose seconds are still text.
pub enum ResetStamp {
    Millis(i64),
    Civil(IsoUtc),
}

pub enum ResetStampView {
    Millis(i64),
    Civil(IsoUtcView),
}

impl View for ResetStamp {
    type V = ResetStampView;

    open spec fn view(&self) -> ResetStampView {
        match self {
            ResetStamp::Millis(ms) => ResetStampView::Millis(*ms),
            ResetStamp::Civil(t) => ResetStampView::Civil(t@),
        }
    }
}

pub open spec fn stamp_view(r: Option<ResetStamp>) -> Option<ResetStampView> {
    match r {
        Some(s) => Some(s@),
        None => None,
    }
}

/// `n * 1000`, saturating at the bounds of `i64`.
pub open spec fn saturating_times_1000(n: int) -> int {
    if n * 1000 > i64::MAX {
        i64::MAX as int
    } else if n * 1000 < i64::MIN {
        i64::MIN as int
    } else {
        n * 1000
    }
}

/// The reset time a JSON value gives. An integer (or a string that parses as
/// one) of at least 10^12 is milliseconds, one of at least 10^9 is seconds
/// (times 1000, saturating), a smaller one gives none; any other string is
/// read as an ISO 8601 UTC time.
pub open spec fn reset_stamp(value: Option<Json>) -> Option<ResetStampView> {
    match value {
        None => None,
        Some(v) => match number_of(value) {
            Some(n) => if n >= 1_000_000_000_000 {
                Some(ResetStampView::Millis(n))
            } else if n >= 1_000_000_000 {
                Some(ResetStampView::Millis(saturating_times_1000(n as int) as i64))
            } else {
                None
            },
            None => match as_str(v) {
                Some(s) => match iso_fields(s) {
                    Some(t) => Some(ResetStampView::Civil(t)),
                    None => None,
                },
                None => None,
            },
        },
    }
}

/// The reset time a JSON value gives (see `reset_stamp`).
pub fn reset_epoch_ms(value: Option<&Json>) -> (r: Option<ResetStamp>)
    ensures
        stamp_view(r) == reset_stamp(deref_opt(value)),
{
    let v = match value {
        None => return None,
        Some(v) => v,
    };
    match number(value) {
        Some(n) => {
            if n >= 1_000_000_000_000 {
                Some(ResetStamp::Millis(n))
            } else if n >= 1_000_000_000 {
                let ms = if n > 9_223_372_036_854_775 {
                    0x7fff_ffff_ffff_ffff
                } else {
                    n * 1000
                };
                Some(ResetStamp::Millis(ms))
            } else {
                None
            }
        },
        None => match v.as_str() {
            Some(s) => match parse_iso_utc_ms(s) {
                Some(t) => Some(ResetStamp::Civil(t)),
                None => None,
            },
            None => None,
        },
    }
}

// ---------------------------------------------------------------------------
// Codex reset times
// ---------------------------------------------------------------------------

/// What is known of a window's reset before its time is read: an absolute
/// time, and seconds from now. The reset time is the absolute time when that
/// reads as one, else now plus the seconds when they are positive (see
/// `codex_reset_ms`).
pub struct ResetPlan {
    pub absolute: Option<ResetStamp>,
    pub relative_secs: Option<i64>,
}

pub struct ResetPlanView {
    pub absolute: Option<ResetStampView>,
    pub relative_secs: Option<i64>,
}

impl View for ResetPlan {
    type V = ResetPlanView;

    open spec fn view(&self) -> ResetPlanView {
        ResetPlanView { absolute: stamp_view(self.absolute), relative_secs: self.relative_secs }
    }
}

/// The plan may give a reset time: it has an absolute time, or a positive
/// number of seconds.
pub open spec fn may_reset(p: ResetPlanView) -> bool {
    p.absolute is Some || (p.relative_secs matches Some(s) && s > 0)
}

pub fn plan_may_reset(p: &ResetPlan) -> (b: bool)
    ensures
        b == may_reset(p@),
{
    p.absolute.is_some() || match p.relative_secs {
        Some(s) => s > 0,
        None => false,
    }
}

/// The member `a` of a window, or else its member `b`.
pub open spec fn either_member(w: Json, a: Seq<char>, b: Seq<char>) -> Option<Json> {
    match get(w, a) {
        Some(v) => Some(v),
        None => get(w, b),
    }
}

/// What a Codex rate-limit window says of its reset: the absolute time
/// `resetsAt` (or `reset_at`), and the seconds `resetsInSeconds` (or
/// `resets_in_seconds`).
pub open spec fn codex_reset_plan(window: Json) -> ResetPlanView {
    ResetPlanView {
        absolute: reset_stamp(either_member(window, "resetsAt"@, "reset_at"@)),
        relative_secs: match number_of(get(window, "resetsInSeconds"@)) {
            Some(n) => Some(n),
            None => number_of(get(window, "resets_in_seconds"@)),
        },
    }
}

/// What a Codex window says of its reset (see `codex_reset_plan`).
pub fn codex_reset(window: &Json) -> (r: ResetPlan)
    ensures
        r@ == codex_reset_plan(*window),
{
    let absolute = reset_epoch_ms(
        match window.get("resetsAt") {
            Some(v) => Some(v),
            None => window.get("reset_at"),
        },
    );
    let relative_secs = match number(window.get("resetsInSeconds")) {
        Some(n) => Some(n),
        None => number(window.get("resets_in_seconds")),
    };
    ResetPlan { absolute, relative_secs }
}

/// When a Codex window resets, in milliseconds since the Unix epoch: the
/// absolute time when it gives one; else, for a positive number of seconds
/// from now, now plus those seconds (saturating); else none.
pub open spec fn codex_reset_ms(absolute_ms: Option<i64>, relative_secs: Option<i64>, now_ms: i64) -> Option<i64> {
    match absolute_ms {
        Some(ms) => Some(ms),
        None => match relative_secs {
            None => None,
            Some(secs) => if secs <= 0 {
                None
            } else {
                let sum = now_ms + saturating_times_1000(secs as int);
                Some(
                    (if sum > i64::MAX {
                        i64::MAX as int
                    } else if sum < i64::MIN {
                        i64::MIN as int
                    } else {
                        sum
                    }) as i64,
                )
            },
        },
    }
}

/// When a Codex window resets (see `codex_reset_ms`); `absolute_ms` is the
/// absolute reset time, read, and `now_ms` the current time.
pub fn codex_reset_epoch_ms(absolute_ms: Option<i64>, relative_secs: Option<i64>, now_ms: i64) -> (r: Option<i64>)
    ensures
        r == codex_reset_ms(absolute_ms, relative_secs, now_ms),
{
    if absolute_ms.is_some() {
        return absolute_ms;
    }
    let secs = match relative_secs {
        None => return None,
        Some(s) => s,
    };
    if secs <= 0 {
        return None;
    }
    let ms: i64 = if secs > 9_223_372_036_854_775 {
        0x7fff_ffff_ffff_ffff
    } else {
        secs * 1000
    };
    let sum = now_ms as i128 + ms as i128;
    let r: i64 = if sum > 0x7fff_ffff_ffff_ffff {
        0x7fff_ffff_ffff_ffff
    } else if sum < -0x8000_0000_0000_0000 {
        -0x8000_0000_0000_0000
    } else {
        sum as i64
    };
    Some(r)
}

/// A copy of a reset time.
pub fn copy_stamp(stamp: &Option<ResetStamp>) -> (r: Option<ResetStamp>)
    ensures
        stamp_view(r) == stamp_view(*stamp),
{
    match stamp {
        None => None,
        Some(ResetStamp::Millis(ms)) => Some(ResetStamp::Millis(*ms)),
        Some(ResetStamp::Civil(t)) => Some(
            ResetStamp::Civil(
                IsoUtc {
                    year: t.year,
                    month: t.month,
                    day: t.day,
                    hour: t.hour,
                    minute: t.minute,
                    seconds: t.seconds.clone(),
                },
            ),
        ),
    }
}


// ---------------------------------------------------------------------------
// Laws of reset times
// ---------------------------------------------------------------------------

/// A reset time given as a number is in milliseconds and at least 10^12
/// (September 2001): seconds are scaled up, smaller numbers give none.
pub proof fn numeric_resets_are_millis(value: Json)
    requires
        number_of(Some(value)) is Some,
    ensures
        reset_stamp(Some(value)) matches Some(ResetStampView::Millis(ms)) ==> ms >= 1_000_000_000_000,
        reset_stamp(Some(value)) is None <==> number_of(Some(value))->0 < 1_000_000_000,
        !(reset_stamp(Some(value)) matches Some(ResetStampView::Civil(_))),
{
}

/// An absolute reset time wins over seconds from now; without one, only a
/// positive number of seconds gives a time, and that time lies no earlier
/// than now.
pub proof fn absolute_reset_wins(absolute_ms: Option<i64>, relative_secs: Option<i64>, now_ms: i64)
    ensures
        absolute_ms matches Some(ms) ==> codex_reset_ms(absolute_ms, relative_secs, now_ms) == Some(ms),
        absolute_ms is None ==> (codex_reset_ms(absolute_ms, relative_secs, now_ms) is Some
            <==> (relative_secs matches Some(s) && s > 0)),
        absolute_ms is None ==> (codex_reset_ms(absolute_ms, relative_secs, now_ms) matches Some(t)
            ==> t >= now_ms),
{
}

/// Seconds from now count as seconds: without an absolute reset time, a
/// positive number of seconds `secs` read at `now_ms` gives `now_ms` plus
/// `1000 * secs` milliseconds, saturating at the bounds of `i64` (the
/// product first, then the sum); more seconds never give an earlier time.
pub proof fn relative_resets_count_seconds(secs: i64, more: i64, now_ms: i64)
    requires
        secs > 0,
    ensures
        1000 * secs <= i64::MAX && now_ms + 1000 * secs <= i64::MAX ==> codex_reset_ms(None, Some(secs), now_ms)
            == Some((now_ms + 1000 * secs) as i64),
        1000 * secs <= i64::MAX && now_ms + 1000 * secs > i64::MAX ==> codex_reset_ms(None, Some(secs), now_ms)
            == Some(i64::MAX),
        1000 * secs > i64::MAX ==> codex_reset_ms(None, Some(secs), now_ms) == Some(
            (if now_ms >= 0 {
                i64::MAX as int
            } else {
                now_ms + i64::MAX
            }) as i64,
        ),
        secs <= more ==> codex_reset_ms(None, Some(secs), now_ms)->0 <= codex_reset_ms(
            None,
            Some(more),
            now_ms,
        )->0,
{
}

/// The milliseconds of a time read from its text: where the text has fields
/// and the computation fits, `civil_epoch_ms` gives the days from 1970-01-01
/// times 86 400 000, plus the hours, minutes and the seconds' milliseconds.
pub proof fn iso_time_in_millis(value: Seq<char>, second_ms: int)
    ensures
        iso_fields(value) matches Some(t) ==> civil_ms(t, second_ms) == days_from_civil(
            t.year as int,
            t.month as int,
            t.day as int,
        ) * 86_400_000 + t.hour * 3_600_000 + t.minute * 60_000 + second_ms,
{
}

/// The Unix epoch is day 0.
pub proof fn epoch_is_day_zero()
    ensures
        days_from_civil(1970, 1, 1) == 0,
{
    assert(era_of(1969) == 4);
    assert(day_of_era(1969, 1, 1) == 135080);
}


/// Gregorian leap years: divisible by 4, and not by 100 unless by 400.
pub open spec fn is_leap(y: int) -> bool {
    (y % 4 == 0 && y % 100 != 0) || y % 400 == 0
}

/// Days before the March-based year `sy` begins, counted from year 0.
spec fn march_years(sy: int) -> int {
    365 * sy + sy / 4 - sy / 100 + sy / 400
}

proof fn lemma_era_days(sy: int)
    ensures
        era_of(sy) * 146097 + (sy - era_of(sy) * 400) * 365 + (sy - era_of(sy) * 400) / 4 - (sy
            - era_of(sy) * 400) / 100 == march_years(sy),
{
    let era = era_of(sy);
    let yoe = sy - era * 400;
    assert(0 <= yoe < 400);
    assert(sy / 4 == era * 100 + yoe / 4);
    assert(sy / 100 == era * 4 + yoe / 100);
    assert(sy / 400 == era);
}

proof fn lemma_days_linear(y: int, m: int, d: int)
    requires
        1 <= m <= 12,
    ensures
        days_from_civil(y, m, d) == march_years(shifted_year(y, m)) + (153 * ((m + 9) % 12) + 2) / 5
            + d - 1 - 719468,
{
    lemma_era_days(shifted_year(y, m));
}

/// Within a month, each day is one day after the day before.
pub proof fn next_day_within_a_month(y: int, m: int, d: int)
    requires
        1 <= m <= 12,
    ensures
        days_from_civil(y, m, d + 1) == days_from_civil(y, m, d) + 1,
{
    lemma_days_linear(y, m, d);
    lemma_days_linear(y, m, d + 1);
}

proof fn lemma_div_step(y: int, k: int)
    requires
        k > 0,
    ensures
        y / k - (y - 1) / k == (if y % k == 0 {
            1int
        } else {
            0int
        }),
{
    let q = y / k;
    let r = y % k;
    vstd::arithmetic::div_mod::lemma_fundamental_div_mod(y, k);
    assert(y == k * q + r);
    if r == 0 {
        assert(y - 1 == (q - 1) * k + (k - 1)) by (nonlinear_arith)
            requires
                y == k * q + r,
                r == 0,
        ;
        vstd::arithmetic::div_mod::lemma_fundamental_div_mod_converse(y - 1, k, q - 1, k - 1);
    } else {
        assert(y - 1 == q * k + (r - 1)) by (nonlinear_arith)
            requires
                y == k * q + r,
        ;
        vstd::arithmetic::div_mod::lemma_fundamental_div_mod_converse(y - 1, k, q, r - 1);
    }
}

/// March 1 follows February 29 in leap years and February 28 otherwise.
pub proof fn march_follows_february(y: int)
    ensures
        days_from_civil(y, 3, 1) == days_from_civil(y, 2, 28) + (if is_leap(y) {
            2int
        } else {
            1int
        }),
{
    lemma_days_linear(y, 3, 1);
    lemma_days_linear(y, 2, 28);
    lemma_div_step(y, 4);
    lemma_div_step(y, 100);
    lemma_div_step(y, 400);
    assert(march_years(y) - march_years(y - 1) == 365 + (if y % 4 == 0 { 1int } else { 0 }) - (if y
        % 100 == 0 {
        1int
    } else {
        0
    }) + (if y % 400 == 0 {
        1int
    } else {
        0
    }));
}

/// New Year's Day follows New Year's Eve.
pub proof fn new_year_follows_new_years_eve(y: int)
    ensures
        days_from_civil(y + 1, 1, 1) == days_from_civil(y, 12, 31) + 1,
{
    lemma_days_linear(y + 1, 1, 1);
    lemma_days_linear(y, 12, 31);
}


/// The number of days of a month of the Gregorian calendar.
pub open spec fn month_length(y: int, m: int) -> int {
    if m == 2 {
        if is_leap(y) {
            29
        } else {
            28
        }
    } else if m == 4 || m == 6 || m == 9 || m == 11 {
        30
    } else {
        31
    }
}

/// The first of each month follows the last day of the month before.
pub proof fn next_month_follows_month_end(y: int, m: int)
    requires
        1 <= m <= 11,
    ensures
        days_from_civil(y, m + 1, 1) == days_from_civil(y, m, month_length(y, m)) + 1,
{
    if m == 2 {
        march_follows_february(y);
        if is_leap(y) {
            next_day_within_a_month(y, 2, 28);
        }
    } else {
        lemma_days_linear(y, m + 1, 1);
        lemma_days_linear(y, m, month_length(y, m));
    }
}

} // verus!
