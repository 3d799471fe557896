use vstd::prelude::*;

use crate::json::{
    as_str, deref_opt, get, json_bytes, member, member_value, number, number_of, opt_str,
    parse_json_bytes, Json,
};
use crate::quota::{
    kimi_membership, kimi_membership_name, remaining, remaining_defined, remaining_text, reset_views,
    opt_view, QuotaLine, QuotaLineView, QuotaReset, QuotaResetView,
};
use crate::reset::{
    copy_stamp, in_i64, reset_epoch_ms, reset_stamp, stamp_view, ResetPlan, ResetPlanView, ResetStamp,
    ResetStampView,
};
use crate::text::{
    chars_of, concat_chars, contains, contains_chars, i64_decimal, int_decimal, slice_chars,
    string_of,
};

verus! {

/// A quota row of a Kimi reply: its name, the percent left, its reset.
pub struct KimiRow {
    pub name: Vec<char>,
    pub pct: Vec<char>,
    pub reset: Option<ResetStamp>,
}

pub struct KimiRowView {
    pub name: Seq<char>,
    pub pct: Seq<char>,
    pub reset: Option<ResetStampView>,
}

impl View for KimiRow {
    type V = KimiRowView;

    open spec fn view(&self) -> KimiRowView {
        KimiRowView { name: self.name@, pct: self.pct@, reset: stamp_view(self.reset) }
    }
}

pub open spec fn row_views(v: Seq<KimiRow>) -> Seq<KimiRowView> {
    v.map_values(|r: KimiRow| r@)
}

/// The items of `limits`.
pub open spec fn kimi_items(payload: Json) -> Seq<Json> {
    match member_value(payload, "limits"@) {
        Json::Array(items) => items@,
        _ => seq![],
    }
}

/// An item's `detail`, or the item itself.
pub open spec fn kimi_detail(item: Json) -> Json {
    match get(item, "detail"@) {
        Some(d) => d,
        None => item,
    }
}

/// The name of a limit: its `name`, else its detail's `name`, else, for a
/// window counted in minutes of whole hours, `Nh`, else `额度`.
pub open spec fn kimi_row_name(item: Json) -> Seq<char> {
    match as_str(member_value(item, "name"@)) {
        Some(n) => n,
        None => match as_str(member_value(kimi_detail(item), "name"@)) {
            Some(n) => n,
            None => {
                let w = match get(item, "window"@) {
                    Some(w) => w,
                    None => Json::Null,
                };
                let duration: int = match number_of(get(w, "duration"@)) {
                    Some(d) => d as int,
                    None => 0,
                };
                let unit = match as_str(member_value(w, "timeUnit"@)) {
                    Some(u) => u,
                    None => seq![],
                };
                if contains(unit, "MINUTE"@) && duration % 60 == 0 {
                    int_decimal(duration / 60) + "h"@
                } else {
                    "额度"@
                }
            },
        },
    }
}

/// What is used of `limit`: `used`, else `limit - remaining`, else 0.
pub open spec fn kimi_used(d: Json, limit: int) -> int {
    match number_of(get(d, "used"@)) {
        Some(u) => u as int,
        None => match number_of(get(d, "remaining"@)) {
            Some(v) => limit - v,
            None => 0,
        },
    }
}

/// The row of a quota object with a `limit` computes without overflow.
pub open spec fn kimi_quota_fits(d: Json) -> bool {
    match number_of(get(d, "limit"@)) {
        Some(limit) => in_i64(kimi_used(d, limit as int)) && remaining_defined(
            kimi_used(d, limit as int) as i64,
            limit,
        ),
        None => true,
    }
}

/// The rows of the `limits` items that have a limit.
pub open spec fn kimi_limit_rows(items: Seq<Json>) -> Seq<KimiRowView>
    decreases items.len(),
{
    if items.len() == 0 {
        seq![]
    } else {
        let rest = kimi_limit_rows(items.drop_last());
        let item = items.last();
        let d = kimi_detail(item);
        match number_of(get(d, "limit"@)) {
            Some(limit) => rest.push(
                KimiRowView {
                    name: kimi_row_name(item),
                    pct: remaining_text(kimi_used(d, limit as int), limit as int),
                    reset: reset_stamp(get(d, "resetTime"@)),
                },
            ),
            None => rest,
        }
    }
}

/// The row of the `usage` object, when it has a limit: named `7d`.
pub open spec fn kimi_usage_rows(payload: Json) -> Seq<KimiRowView> {
    match member_value(payload, "usage"@) {
        Json::Object(m) => {
            let u = Json::Object(m);
            match number_of(get(u, "limit"@)) {
                Some(limit) => seq![
                    KimiRowView {
                        name: "7d"@,
                        pct: remaining_text(kimi_used(u, limit as int), limit as int),
                        reset: reset_stamp(get(u, "resetTime"@)),
                    },
                ],
                None => seq![],
            }
        },
        _ => seq![],
    }
}

/// The rows of a Kimi reply: those of `limits`, then that of `usage`.
pub open spec fn kimi_rows(payload: Json) -> Seq<KimiRowView> {
    kimi_limit_rows(kimi_items(payload)) + kimi_usage_rows(payload)
}

/// The Kimi line computes without overflow.
pub open spec fn kimi_fits(payload: Json) -> bool {
    &&& forall|i: int|
        0 <= i < kimi_items(payload).len() ==> kimi_quota_fits(
            kimi_detail(#[trigger] kimi_items(payload)[i]),
        )
    &&& (member_value(payload, "usage"@) is Object ==> kimi_quota_fits(member_value(payload, "usage"@)))
}

/// The first row at or after `i` whose name holds `a` or `b`, or -1.
pub open spec fn find_row(rows: Seq<KimiRowView>, a: Seq<char>, b: Seq<char>, i: int) -> int
    decreases rows.len() - i,
{
    if i < 0 || i >= rows.len() {
        -1
    } else if contains(rows[i].name, a) || contains(rows[i].name, b) {
        i
    } else {
        find_row(rows, a, b, i + 1)
    }
}

/// The 5-hour row: the first named with `5h` or `5H`, else the first row.
pub open spec fn five_hour(rows: Seq<KimiRowView>) -> int {
    let k = find_row(rows, "5h"@, "5H"@, 0);
    if k >= 0 {
        k
    } else if rows.len() > 0 {
        0
    } else {
        -1
    }
}

/// The 7-day row: the first named with `7d` or `7D`, else the second row.
pub open spec fn seven_day(rows: Seq<KimiRowView>) -> int {
    let k = find_row(rows, "7d"@, "7D"@, 0);
    if k >= 0 {
        k
    } else if rows.len() > 1 {
        1
    } else {
        -1
    }
}

/// The reset of a row, named by the row, when it has one.
pub open spec fn row_reset(row: KimiRowView) -> Seq<QuotaResetView> {
    match row.reset {
        Some(stamp) => seq![
            QuotaResetView {
                label: row.name,
                reset: ResetPlanView { absolute: Some(stamp), relative_secs: None },
            },
        ],
        None => seq![],
    }
}

/// The Kimi line: `5h P / 7d Q` from the 5-hour and 7-day rows, or the only
/// row's name and percent, or `暂无额度`; the plan of
/// `user.membership.level` by its Kimi name; the resets of the 5-hour and
/// then the 7-day row.
pub open spec fn kimi_view(payload: Json) -> QuotaLineView {
    let rows = kimi_rows(payload);
    let h = five_hour(rows);
    let d = seven_day(rows);
    QuotaLineView {
        provider: "KIMI"@,
        value: if h >= 0 && d >= 0 {
            "5h "@ + rows[h].pct + " / 7d "@ + rows[d].pct
        } else if h >= 0 {
            rows[h].name + " "@ + rows[h].pct
        } else {
            "暂无额度"@
        },
        plan: match opt_str(
            match get(member_value(payload, "user"@), "membership"@) {
                Some(m) => get(m, "level"@),
                None => None,
            },
        ) {
            Some(level) => Some(kimi_membership(level)),
            None => None,
        },
        resets: (if h >= 0 {
            row_reset(rows[h])
        } else {
            seq![]
        }) + (if d >= 0 {
            row_reset(rows[d])
        } else {
            seq![]
        }),
    }
}

/// The row of a quota object, `Err(())` when its arithmetic overflows,
/// `Ok(None)` when it has no limit.
fn quota_row(d: &Json, name: Vec<char>) -> (r: Result<Option<KimiRow>, ()>)
    ensures
        match r {
            Err(()) => !kimi_quota_fits(*d),
            Ok(None) => kimi_quota_fits(*d) && number_of(get(*d, "limit"@)) is None,
            Ok(Some(row)) => kimi_quota_fits(*d) && (number_of(get(*d, "limit"@)) matches Some(
                limit,
            ) && row@ == KimiRowView {
                name: name@,
                pct: remaining_text(kimi_used(*d, limit as int), limit as int),
                reset: reset_stamp(get(*d, "resetTime"@)),
            }),
        },
{
    let limit = match number(d.get("limit")) {
        None => return Ok(None),
        Some(l) => l,
    };
    let used: i64 = match number(d.get("used")) {
        Some(u) => u,
        None => match number(d.get("remaining")) {
            Some(v) => {
                let diff = limit as i128 - v as i128;
                if diff < -0x8000_0000_0000_0000 || diff > 0x7fff_ffff_ffff_ffff {
                    return Err(());
                }
                diff as i64
            },
            None => 0,
        },
    };
    // `remaining` needs a limit of at least 0, `limit - used` within i64,
    // and the clamped remainder times 100 within i64.
    if limit < 0 {
        return Err(());
    }
    let left = limit as i128 - used as i128;
    if left < -0x8000_0000_0000_0000 || left > 0x7fff_ffff_ffff_ffff {
        return Err(());
    }
    let clamped: i128 = if left < 0 {
        0
    } else if left > limit as i128 {
        limit as i128
    } else {
        left
    };
    if clamped * 100 > 0x7fff_ffff_ffff_ffff {
        return Err(());
    }
    let pct = chars_of(remaining(used, limit).as_str());
    Ok(Some(KimiRow { name, pct, reset: reset_epoch_ms(d.get("resetTime")) }))
}

/// The name of a limit item (see `kimi_row_name`).
fn row_name(item: &Json) -> (r: Vec<char>)
    ensures
        r@ == kimi_row_name(*item),
{
    let null = Json::Null;
    match member(item, "name", &null).as_str() {
        Some(n) => return chars_of(n),
        None => {},
    }
    let detail = match item.get("detail") {
        Some(d) => d,
        None => item,
    };
    match member(detail, "name", &null).as_str() {
        Some(n) => return chars_of(n),
        None => {},
    }
    let window = match item.get("window") {
        Some(w) => w,
        None => &null,
    };
    let duration = match number(window.get("duration")) {
        Some(d) => d,
        None => 0,
    };
    let unit = match member(window, "timeUnit", &null).as_str() {
        Some(u) => chars_of(u),
        None => Vec::new(),
    };
    if contains_chars(&unit, &chars_of("MINUTE")) && duration % 60 == 0 {
        concat_chars(&i64_decimal(duration / 60), &chars_of("h"))
    } else {
        chars_of("额度")
    }
}

fn find_row_exec(rows: &Vec<KimiRow>, a: &str, b: &str) -> (r: Option<usize>)
    ensures
        match r {
            Some(k) => k < rows.len() && find_row(row_views(rows@), a@, b@, 0) == k,
            None => find_row(row_views(rows@), a@, b@, 0) == -1,
        },
{
    let pa = chars_of(a);
    let pb = chars_of(b);
    let mut i: usize = 0;
    while i < rows.len()
        invariant
            i <= rows.len(),
            pa@ == a@,
            pb@ == b@,
            find_row(row_views(rows@), a@, b@, 0) == find_row(row_views(rows@), a@, b@, i as int),
        decreases rows.len() - i,
    {
        assert(row_views(rows@)[i as int] == rows@[i as int]@);
        if contains_chars(&rows[i].name, &pa) || contains_chars(&rows[i].name, &pb) {
            return Some(i);
        }
        i = i + 1;
    }
    None
}

fn push_row_reset(resets: &mut Vec<QuotaReset>, row: &KimiRow)
    ensures
        reset_views(final(resets)@) == reset_views(old(resets)@) + row_reset(row@),
{
    match &row.reset {
        Some(stamp) => {
            let ghost r0 = resets@;
            resets.push(
                QuotaReset {
                    label: string_of(&row.name),
                    reset: ResetPlan { absolute: copy_stamp(&row.reset), relative_secs: None },
                },
            );
            assert(reset_views(resets@) == reset_views(r0).push(resets@.last()@));
        },
        None => {
            assert(row_reset(row@) =~= seq![]);
            assert(reset_views(resets@) == reset_views(old(resets)@) + row_reset(row@));
        },
    }
}

/// The Kimi line for the reply of the usage API (see `kimi_view`); `None`
/// exactly when its arithmetic overflows (see `kimi_fits`).
pub fn kimi_line(payload: &Json) -> (r: Option<QuotaLine>)
    ensures
        r is Some <==> kimi_fits(*payload),
        r matches Some(line) ==> line@ == kimi_view(*payload),
{
    let null = Json::Null;
    let empty: Vec<Json> = Vec::new();
    let items: &Vec<Json> = match member(payload, "limits", &null).as_array() {
        Some(v) => v,
        None => &empty,
    };
    let ghost sitems = items@;
    assert(sitems == kimi_items(*payload));
    let mut rows: Vec<KimiRow> = Vec::new();
    let mut i: usize = 0;
    while i < items.len()
        invariant
            i <= items.len(),
            sitems == items@,
            sitems == kimi_items(*payload),
            row_views(rows@) == kimi_limit_rows(sitems.take(i as int)),
            forall|k: int| 0 <= k < i ==> kimi_quota_fits(kimi_detail(#[trigger] sitems[k])),
        decreases items.len() - i,
    {
        let item = &items[i];
        let detail = match item.get("detail") {
            Some(d) => d,
            None => item,
        };
        assert(sitems.take(i + 1).drop_last() == sitems.take(i as int));
        assert(sitems.take(i + 1).last() == *item);
        let name = row_name(item);
        match quota_row(detail, name) {
            Err(()) => {
                assert(!kimi_quota_fits(kimi_detail(sitems[i as int])));
                return None;
            },
            Ok(None) => {},
            Ok(Some(row)) => {
                let ghost r0 = rows@;
                rows.push(row);
                assert(row_views(rows@) == row_views(r0).push(rows@.last()@));
            },
        }
        i = i + 1;
    }
    assert(sitems.take(items.len() as int) == sitems);
    let usage = member(payload, "usage", &null);
    let ghost r1 = rows@;
    match usage {
        Json::Object(_) => {
            match quota_row(usage, chars_of("7d")) {
                Err(()) => return None,
                Ok(None) => {
                    assert(kimi_usage_rows(*payload) =~= seq![]);
                },
                Ok(Some(row)) => {
                    rows.push(row);
                    assert(row_views(rows@) == row_views(r1).push(rows@.last()@));
                },
            }
        },
        _ => {
            assert(kimi_usage_rows(*payload) =~= seq![]);
        },
    }
    let ghost srows = row_views(rows@);
    assert(srows == kimi_rows(*payload));
    assert(kimi_fits(*payload));
    let five: Option<usize> = match find_row_exec(&rows, "5h", "5H") {
        Some(k) => Some(k),
        None => if rows.len() > 0 {
            Some(0)
        } else {
            None
        },
    };
    let seven: Option<usize> = match find_row_exec(&rows, "7d", "7D") {
        Some(k) => Some(k),
        None => if rows.len() > 1 {
            Some(1)
        } else {
            None
        },
    };
    let value = match (five, seven) {
        (Some(h), Some(d)) => {
            assert(srows[h as int] == rows@[h as int]@ && srows[d as int] == rows@[d as int]@);
            let mut t = concat_chars(&chars_of("5h "), &rows[h].pct);
            t = concat_chars(&t, &chars_of(" / 7d "));
            t = concat_chars(&t, &rows[d].pct);
            string_of(&t)
        },
        (Some(h), None) => {
            assert(srows[h as int] == rows@[h as int]@);
            let mut t = concat_chars(&rows[h].name, &chars_of(" "));
            t = concat_chars(&t, &rows[h].pct);
            string_of(&t)
        },
        _ => "暂无额度".to_owned(),
    };
    let mut resets: Vec<QuotaReset> = Vec::new();
    assert(reset_views(resets@) =~= seq![]);
    match five {
        Some(h) => {
            assert(srows[h as int] == rows@[h as int]@);
            push_row_reset(&mut resets, &rows[h]);
        },
        None => {},
    }
    let ghost after_five = reset_views(resets@);
    match seven {
        Some(d) => {
            assert(srows[d as int] == rows@[d as int]@);
            push_row_reset(&mut resets, &rows[d]);
        },
        None => {
            assert(after_five + seq![] == after_five);
        },
    }
    let plan = match member(payload, "user", &null).get("membership") {
        Some(m) => match m.get("level") {
            Some(l) => match l.as_str() {
                Some(level) => Some(kimi_membership_name(level)),
                None => None,
            },
            None => None,
        },
        None => None,
    };
    let line = QuotaLine { provider: "KIMI".to_owned(), value, plan, resets };
    assert(line@ == kimi_view(*payload));
    Some(line)
}

/// The Kimi line keeps the reset time of each of its two rows: when the
/// 5-hour row has a reset time, the line's first reset carries it under that
/// row's name; when the 7-day row has one, the line's last reset carries it
/// under that row's name; and there are no other resets.
pub proof fn kimi_resets_follow_the_rows(payload: Json)
    ensures
        ({
            let rows = kimi_rows(payload);
            let h = five_hour(rows);
            let d = seven_day(rows);
            let resets = kimi_view(payload).resets;
            &&& resets.len() == (if h >= 0 && rows[h].reset is Some {
                1int
            } else {
                0
            }) + (if d >= 0 && rows[d].reset is Some {
                1int
            } else {
                0
            })
            &&& (h >= 0 && rows[h].reset is Some) ==> resets[0] == (QuotaResetView {
                label: rows[h].name,
                reset: ResetPlanView { absolute: rows[h].reset, relative_secs: None },
            })
            &&& (d >= 0 && rows[d].reset is Some) ==> resets.last() == (QuotaResetView {
                label: rows[d].name,
                reset: ResetPlanView { absolute: rows[d].reset, relative_secs: None },
            })
        }),
{
}

// ---------------------------------------------------------------------------
// Credentials
// ---------------------------------------------------------------------------

/// A path below a home directory (`Path::join` with a relative path): a `/`
/// goes between them unless the home is empty or already ends in `/`.
pub open spec fn home_join(home: Seq<char>, rel: Seq<char>) -> Seq<char> {
    if home.len() > 0 && home.last() != '/' {
        home + seq!['/'] + rel
    } else {
        home + rel
    }
}

/// Where Kimi keeps its credentials below a home directory, the Kimi Code
/// file first and the older Kimi file second.
pub open spec fn kimi_credential_files(home: Seq<char>) -> Seq<Seq<char>> {
    seq![
        home_join(home, ".kimi-code/credentials/kimi-code.json"@),
        home_join(home, ".kimi/credentials/kimi-code.json"@),
    ]
}

fn join_home(home: &[char], rel: &str) -> (r: String)
    ensures
        r@ == home_join(home@, rel@),
{
    let slash = vec!['/'];
    assert(slash@ == seq!['/']);
    let base = if home.len() > 0 && home[home.len() - 1] != '/' {
        concat_chars(home, &slash)
    } else {
        slice_chars(home, 0, home.len())
    };
    assert(home@.subrange(0, home@.len() as int) == home@);
    string_of(&concat_chars(&base, &chars_of(rel)))
}

/// The Kimi credential files below a home directory (see
/// `kimi_credential_files`).
pub fn kimi_credential_paths_from_home(home: &str) -> (r: [String; 2])
    ensures
        r[0]@ == kimi_credential_files(home@)[0],
        r[1]@ == kimi_credential_files(home@)[1],
{
    let h = chars_of(home);
    [
        join_home(&h, ".kimi-code/credentials/kimi-code.json"),
        join_home(&h, ".kimi/credentials/kimi-code.json"),
    ]
}

/// The access token of a credential to use as it stands: its non-empty
/// `access_token` when the caller found it not about to expire; `None`
/// when the credential has to be refreshed first.
pub open spec fn usable_token(credential: Json, expiring: bool) -> Option<Seq<char>> {
    match as_str(member_value(credential, "access_token"@)) {
        Some(t) => if t.len() > 0 && !expiring {
            Some(t)
        } else {
            None
        },
        None => None,
    }
}

/// The access token of a credential to use as it stands (see `usable_token`).
pub fn kimi_usable_token(credential: &Json, expiring: bool) -> (r: Option<String>)
    ensures
        match r {
            Some(t) => usable_token(*credential, expiring) == Some(t@),
            None => usable_token(*credential, expiring) is None,
        },
{
    let null = Json::Null;
    match member(credential, "access_token", &null).as_str() {
        Some(t) => if !t.is_empty() && !expiring {
            Some(t.to_owned())
        } else {
            None
        },
        None => None,
    }
}

/// The refresh token of a credential, `refresh_token`.
pub fn kimi_refresh_token(credential: &Json) -> (r: Option<String>)
    ensures
        match r {
            Some(t) => as_str(member_value(*credential, "refresh_token"@)) == Some(t@),
            None => as_str(member_value(*credential, "refresh_token"@)) is None,
        },
{
    let null = Json::Null;
    match member(credential, "refresh_token", &null).as_str() {
        Some(t) => Some(t.to_owned()),
        None => None,
    }
}

/// The tokens a refresh reply gives: the new `access_token`, which it must
/// hold, and a new `refresh_token` when it holds one.
pub open spec fn refreshed_tokens(body: Json) -> Option<(Seq<char>, Option<Seq<char>>)> {
    match as_str(member_value(body, "access_token"@)) {
        Some(t) => Some((t, as_str(member_value(body, "refresh_token"@)))),
        None => None,
    }
}

/// The tokens a refresh reply gives (see `refreshed_tokens`).
pub fn kimi_refreshed_tokens(body: &Json) -> (r: Option<(String, Option<String>)>)
    ensures
        match r {
            Some((t, rt)) => refreshed_tokens(*body) == Some(
                (
                    t@,
                    match rt {
                        Some(x) => Some(x@),
                        None => None::<Seq<char>>,
                    },
                ),
            ),
            None => refreshed_tokens(*body) is None,
        },
{
    let null = Json::Null;
    let token = match member(body, "access_token", &null).as_str() {
        Some(t) => t.to_owned(),
        None => return None,
    };
    let refresh = match member(body, "refresh_token", &null).as_str() {
        Some(t) => Some(t.to_owned()),
        None => None,
    };
    Some((token, refresh))
}


// ---------------------------------------------------------------------------
// Fetching the Kimi usages
// ---------------------------------------------------------------------------

/// How many credential files are tried, in the order of
/// `kimi_credential_files`.
pub const KIMI_CREDENTIAL_FILE_COUNT: usize = 2;

/// Where fetching the Kimi usages stands with one credential file.
#[derive(Clone, Copy, Debug, PartialEq, Eq, Structural)]
pub enum KimiPhase {
    /// The credential file is being read.
    Reading,
    /// The credential was not usable as it stood and is being refreshed.
    FirstRefresh,
    /// The usages are being fetched with the token at hand.
    FirstFetch,
    /// The server refused the token; the credential is being refreshed.
    RetryRefresh,
    /// The usages are being fetched once more with the refreshed token.
    RetryFetch,
    /// Nothing is left to do.
    Finished,
}

/// The state of fetching the Kimi usages: the credential file at hand (its
/// index), the phase, and the refresh token the credential holds now.
pub struct KimiFetch {
    pub path: usize,
    pub phase: KimiPhase,
    pub refresh_token: Option<String>,
}

pub struct KimiFetchView {
    pub path: usize,
    pub phase: KimiPhase,
    pub refresh_token: Option<Seq<char>>,
}

impl View for KimiFetch {
    type V = KimiFetchView;

    open spec fn view(&self) -> KimiFetchView {
        KimiFetchView { path: self.path, phase: self.phase, refresh_token: opt_view(self.refresh_token) }
    }
}

/// What came of the last action.
pub enum KimiEvent {
    /// The credential file's bytes (`None` where it could not be read), and
    /// whether its `expires_at` lies less than a minute ahead.
    Credential { bytes: Option<Vec<u8>>, expiring: bool },
    /// The reply to a refresh request, `None` where the request failed.
    Refreshed(Option<Json>),
    /// The usages, `None` where the request failed.
    Usages(Option<Json>),
}

pub enum KimiEventView {
    Credential(Option<Json>, bool),
    Refreshed(Option<Json>),
    Usages(Option<Json>),
}

impl View for KimiEvent {
    type V = KimiEventView;

    /// The credential's bytes are taken as JSON (`json_bytes`).
    open spec fn view(&self) -> KimiEventView {
        match self {
            KimiEvent::Credential { bytes, expiring } => KimiEventView::Credential(
                match bytes {
                    Some(b) => json_bytes(b@),
                    None => None,
                },
                *expiring,
            ),
            KimiEvent::Refreshed(b) => KimiEventView::Refreshed(*b),
            KimiEvent::Usages(u) => KimiEventView::Usages(*u),
        }
    }
}

/// What to do next.
pub enum KimiAction {
    /// Read the credential file with this index.
    ReadCredential(usize),
    /// Ask for new tokens with this refresh token.
    Refresh(String),
    /// Fetch the usages with this access token.
    Fetch(String),
    /// Store the new tokens in the credential file (the refresh token only
    /// where there is a new one), then fetch the usages with the access
    /// token.
    SaveAndFetch { access_token: String, refresh_token: Option<String> },
    /// Done: the usages, or `None` where no credential file gave any.
    Done(Option<Json>),
}

pub enum KimiActionView {
    ReadCredential(usize),
    Refresh(Seq<char>),
    Fetch(Seq<char>),
    SaveAndFetch(Seq<char>, Option<Seq<char>>),
    Done(Option<Json>),
}

impl View for KimiAction {
    type V = KimiActionView;

    open spec fn view(&self) -> KimiActionView {
        match self {
            KimiAction::ReadCredential(i) => KimiActionView::ReadCredential(*i),
            KimiAction::Refresh(t) => KimiActionView::Refresh(t@),
            KimiAction::Fetch(t) => KimiActionView::Fetch(t@),
            KimiAction::SaveAndFetch { access_token, refresh_token } => KimiActionView::SaveAndFetch(
                access_token@,
                opt_view(*refresh_token),
            ),
            KimiAction::Done(u) => KimiActionView::Done(*u),
        }
    }
}

/// Giving up on credential file `path`: the next file is read where there
/// is one, else fetching ends with no usages.
pub open spec fn next_file(path: usize) -> (KimiFetchView, KimiActionView) {
    if path + 1 < KIMI_CREDENTIAL_FILE_COUNT {
        (
            KimiFetchView { path: (path + 1) as usize, phase: KimiPhase::Reading, refresh_token: None },
            KimiActionView::ReadCredential((path + 1) as usize),
        )
    } else {
        (
            KimiFetchView { path, phase: KimiPhase::Finished, refresh_token: None },
            KimiActionView::Done(None),
        )
    }
}

/// Refreshing the credential, or, where it holds no refresh token, giving
/// up on its file.
pub open spec fn refresh_or_next(path: usize, refresh_token: Option<Seq<char>>, phase: KimiPhase) -> (
    KimiFetchView,
    KimiActionView,
) {
    match refresh_token {
        Some(rt) => (
            KimiFetchView { path, phase, refresh_token },
            KimiActionView::Refresh(rt),
        ),
        None => next_file(path),
    }
}

/// One step of fetching the Kimi usages. A credential file that cannot be
/// read as JSON is given up. Its access token is used as it stands where
/// `usable_token` allows, else the credential is refreshed first. New
/// tokens (`refreshed_tokens`) are stored and used; a failed refresh gives
/// the file up. Usages that come end the fetching; where the server refuses
/// the token at hand, the credential is refreshed and the usages fetched
/// once more, and a second refusal gives the file up. Each file given up
/// passes to the next one (`next_file`). An event that does not answer the
/// last action ends the fetching with no usages.
pub open spec fn kimi_next(s: KimiFetchView, e: KimiEventView) -> (KimiFetchView, KimiActionView) {
    let p = s.path;
    let done = |u: Option<Json>|
        (
            KimiFetchView { path: p, phase: KimiPhase::Finished, refresh_token: s.refresh_token },
            KimiActionView::Done(u),
        );
    match e {
        KimiEventView::Credential(credential, expiring) => if s.phase == KimiPhase::Reading {
            match credential {
                None => next_file(p),
                Some(c) => {
                    let rt = as_str(member_value(c, "refresh_token"@));
                    match usable_token(c, expiring) {
                        Some(t) => (
                            KimiFetchView { path: p, phase: KimiPhase::FirstFetch, refresh_token: rt },
                            KimiActionView::Fetch(t),
                        ),
                        None => refresh_or_next(p, rt, KimiPhase::FirstRefresh),
                    }
                },
            }
        } else {
            done(None)
        },
        KimiEventView::Refreshed(body) => if s.phase == KimiPhase::FirstRefresh || s.phase
            == KimiPhase::RetryRefresh {
            let tokens = match body {
                Some(b) => refreshed_tokens(b),
                None => None,
            };
            match tokens {
                Some((t, new_rt)) => (
                    KimiFetchView {
                        path: p,
                        phase: if s.phase == KimiPhase::FirstRefresh {
                            KimiPhase::FirstFetch
                        } else {
                            KimiPhase::RetryFetch
                        },
                        refresh_token: if new_rt is Some {
                            new_rt
                        } else {
                            s.refresh_token
                        },
                    },
                    KimiActionView::SaveAndFetch(t, new_rt),
                ),
                None => next_file(p),
            }
        } else {
            done(None)
        },
        KimiEventView::Usages(usages) => if s.phase == KimiPhase::FirstFetch {
            match usages {
                Some(u) => done(Some(u)),
                None => refresh_or_next(p, s.refresh_token, KimiPhase::RetryRefresh),
            }
        } else if s.phase == KimiPhase::RetryFetch {
            match usages {
                Some(u) => done(Some(u)),
                None => next_file(p),
            }
        } else {
            done(None)
        },
    }
}

/// The first step of fetching the Kimi usages: read the first credential
/// file.
pub fn kimi_fetch_start() -> (r: (KimiFetch, KimiAction))
    ensures
        r.0@ == (KimiFetchView { path: 0, phase: KimiPhase::Reading, refresh_token: None }),
        r.1@ == KimiActionView::ReadCredential(0),
{
    (KimiFetch { path: 0, phase: KimiPhase::Reading, refresh_token: None }, KimiAction::ReadCredential(0))
}

fn next_file_step(path: usize) -> (r: (KimiFetch, KimiAction))
    ensures
        (r.0@, r.1@) == next_file(path),
{
    if path < KIMI_CREDENTIAL_FILE_COUNT - 1 {
        (KimiFetch { path: path + 1, phase: KimiPhase::Reading, refresh_token: None }, KimiAction::ReadCredential(path + 1))
    } else {
        (KimiFetch { path, phase: KimiPhase::Finished, refresh_token: None }, KimiAction::Done(None))
    }
}

fn refresh_or_next_step(path: usize, refresh_token: Option<String>, phase: KimiPhase) -> (r: (KimiFetch, KimiAction))
    ensures
        (r.0@, r.1@) == refresh_or_next(path, opt_view(refresh_token), phase),
{
    match refresh_token {
        Some(rt) => {
            let action = KimiAction::Refresh(rt.clone());
            (KimiFetch { path, phase, refresh_token: Some(rt) }, action)
        },
        None => next_file_step(path),
    }
}

fn copy_opt_string(o: &Option<String>) -> (r: Option<String>)
    ensures
        opt_view(r) == opt_view(*o),
{
    match o {
        Some(t) => Some(t.clone()),
        None => None,
    }
}

/// One step of fetching the Kimi usages (see `kimi_next`).
pub fn kimi_fetch_step(s: KimiFetch, e: KimiEvent) -> (r: (KimiFetch, KimiAction))
    ensures
        (r.0@, r.1@) == kimi_next(s@, e@),
{
    let p = s.path;
    let phase = s.phase;
    match e {
        KimiEvent::Credential { bytes, expiring } => {
            if phase != KimiPhase::Reading {
                return (KimiFetch { path: p, phase: KimiPhase::Finished, refresh_token: s.refresh_token }, KimiAction::Done(None));
            }
            let credential = match bytes {
                Some(b) => parse_json_bytes(b.as_slice()),
                None => None,
            };
            match credential {
                None => next_file_step(p),
                Some(c) => {
                    let rt = kimi_refresh_token(&c);
                    match kimi_usable_token(&c, expiring) {
                        Some(t) => (KimiFetch { path: p, phase: KimiPhase::FirstFetch, refresh_token: rt }, KimiAction::Fetch(t)),
                        None => refresh_or_next_step(p, rt, KimiPhase::FirstRefresh),
                    }
                },
            }
        },
        KimiEvent::Refreshed(body) => {
            if phase != KimiPhase::FirstRefresh && phase != KimiPhase::RetryRefresh {
                return (KimiFetch { path: p, phase: KimiPhase::Finished, refresh_token: s.refresh_token }, KimiAction::Done(None));
            }
            let tokens = match &body {
                Some(b) => kimi_refreshed_tokens(b),
                None => None,
            };
            match tokens {
                Some((t, new_rt)) => {
                    let next_phase = if phase == KimiPhase::FirstRefresh {
                        KimiPhase::FirstFetch
                    } else {
                        KimiPhase::RetryFetch
                    };
                    let kept = match &new_rt {
                        Some(x) => Some(x.clone()),
                        None => s.refresh_token,
                    };
                    (KimiFetch { path: p, phase: next_phase, refresh_token: kept }, KimiAction::SaveAndFetch { access_token: t, refresh_token: new_rt })
                },
                None => next_file_step(p),
            }
        },
        KimiEvent::Usages(usages) => {
            if phase == KimiPhase::FirstFetch {
                match usages {
                    Some(u) => (KimiFetch { path: p, phase: KimiPhase::Finished, refresh_token: s.refresh_token }, KimiAction::Done(Some(u))),
                    None => refresh_or_next_step(p, s.refresh_token, KimiPhase::RetryRefresh),
                }
            } else if phase == KimiPhase::RetryFetch {
                match usages {
                    Some(u) => (KimiFetch { path: p, phase: KimiPhase::Finished, refresh_token: s.refresh_token }, KimiAction::Done(Some(u))),
                    None => next_file_step(p),
                }
            } else {
                (KimiFetch { path: p, phase: KimiPhase::Finished, refresh_token: s.refresh_token }, KimiAction::Done(None))
            }
        },
    }
}

} // verus!
