use vstd::prelude::*;

use crate::json::{
    as_i64, get, json_bytes, json_text, member, member_value, number, number_of, opt_str, parse_json,
    parse_json_bytes, Json,
};
use crate::reset::{
    codex_reset, codex_reset_plan, copy_stamp, may_reset, plan_may_reset, ResetPlan, ResetPlanView,
};
use crate::settings::clamp;
use crate::text::{
    ascii_uppercase, ascii_uppercase_chars, chars_equal, chars_of, concat_chars, i64_decimal,
    int_decimal, join, join_chars, slice_chars, split_any, split_any_chars, string_of, to_lowercase,
    to_uppercase, trim, trim_chars, trim_start_matches, trim_start_matches_chars, unicode_lowercase,
    unicode_uppercase, views,
};

verus! {

// ---------------------------------------------------------------------------
// Percentages and window names
// ---------------------------------------------------------------------------

/// The share of `limit` still left after `used`, in whole percent:
/// `(limit - used)` clamped to `0..=limit`, times 100, divided by `limit`
/// (by 1 when `limit` is 0), rounded down.
pub open spec fn remaining_percent(used: int, limit: int) -> int {
    clamp(limit - used, 0, limit) * 100 / (if limit < 1 {
        1
    } else {
        limit
    })
}

/// The inputs on which `remaining` computes without overflow or panic:
/// a limit of at least 0, `limit - used` within `i64`, and the clamped
/// remainder times 100 within `i64`.
pub open spec fn remaining_defined(used: i64, limit: i64) -> bool {
    &&& 0 <= limit
    &&& i64::MIN <= limit - used <= i64::MAX
    &&& clamp(limit - used, 0, limit as int) * 100 <= i64::MAX
}

/// The text `remaining` gives: the percentage and a `%` sign.
pub open spec fn remaining_text(used: int, limit: int) -> Seq<char> {
    int_decimal(remaining_percent(used, limit)) + "%"@
}

/// The share of the quota left, as text such as `85%`.
pub fn remaining(used: i64, limit: i64) -> (r: String)
    requires
        remaining_defined(used, limit),
    ensures
        r@ == remaining_text(used as int, limit as int),
{
    let left = limit - used;
    let clamped = if left < 0 {
        0
    } else if left > limit {
        limit
    } else {
        left
    };
    let divisor = if limit < 1 {
        1
    } else {
        limit
    };
    let pct = clamped * 100 / divisor;
    let digits = i64_decimal(pct);
    let percent = chars_of("%");
    string_of(&concat_chars(&digits, &percent))
}

/// The name of a quota window of `minutes` minutes: whole days as `Nd`,
/// else whole hours as `Nh`, else minutes as `Nm`.
pub open spec fn window_label_text(minutes: int) -> Seq<char> {
    if minutes % 1440 == 0 {
        int_decimal(minutes / 1440) + "d"@
    } else if minutes % 60 == 0 {
        int_decimal(minutes / 60) + "h"@
    } else {
        int_decimal(minutes) + "m"@
    }
}

/// The name of a quota window of `minutes` minutes, such as `5h` or `7d`.
pub fn window_label(minutes: i64) -> (r: String)
    ensures
        r@ == window_label_text(minutes as int),
{
    let (n, unit) = if minutes % 1440 == 0 {
        (minutes / 1440, "d")
    } else if minutes % 60 == 0 {
        (minutes / 60, "h")
    } else {
        (minutes, "m")
    };
    let digits = i64_decimal(n);
    let suffix = chars_of(unit);
    string_of(&concat_chars(&digits, &suffix))
}

// ---------------------------------------------------------------------------
// Plan names
// ---------------------------------------------------------------------------

/// The non-empty texts of `parts`, in order.
pub open spec fn non_empty(parts: Seq<Seq<char>>) -> Seq<Seq<char>>
    decreases parts.len(),
{
    if parts.len() == 0 {
        seq![]
    } else {
        let rest = non_empty(parts.drop_last());
        if parts.last().len() > 0 {
            rest.push(parts.last())
        } else {
            rest
        }
    }
}

/// The words of a plan name: the trimmed text without leading `LEVEL_`
/// prefixes, split at `_` and `-`, empty pieces dropped.
pub open spec fn plan_words(value: Seq<char>) -> Seq<Seq<char>> {
    non_empty(split_any(trim_start_matches(trim(value), "LEVEL_"@), seq!['_', '-']))
}

/// A word with its first character upper-cased and the rest lower-cased.
pub open spec fn capitalized(word: Seq<char>) -> Seq<char> {
    if word.len() == 0 {
        seq![]
    } else {
        unicode_uppercase(word.take(1)) + unicode_lowercase(word.skip(1))
    }
}

/// A plan name for people: its words capitalized, joined by spaces.
pub open spec fn readable_plan(value: Seq<char>) -> Seq<char> {
    join(plan_words(value).map_values(|w: Seq<char>| capitalized(w)), " "@)
}

fn keep_non_empty(parts: &Vec<Vec<char>>) -> (r: Vec<Vec<char>>)
    ensures
        views(r@) == non_empty(views(parts@)),
{
    let mut r: Vec<Vec<char>> = Vec::new();
    let mut i: usize = 0;
    while i < parts.len()
        invariant
            i <= parts.len(),
            views(r@) == non_empty(views(parts@).take(i as int)),
        decreases parts.len() - i,
    {
        let ghost before = r@;
        assert(views(parts@).take(i + 1).drop_last() == views(parts@).take(i as int));
        assert(views(parts@).take(i + 1).last() == parts@[i as int]@);
        if parts[i].len() > 0 {
            r.push(parts[i].clone());
            assert(views(r@) == views(before).push(parts@[i as int]@));
        }
        i = i + 1;
    }
    assert(views(parts@).take(parts.len() as int) == views(parts@));
    r
}

/// The words of a plan name (see `plan_words`).
pub fn plan_name_words(value: &str) -> (r: Vec<Vec<char>>)
    ensures
        views(r@) == plan_words(value@),
{
    let v = chars_of(value);
    let t = trim_chars(&v);
    let level = chars_of("LEVEL_");
    let rest = trim_start_matches_chars(&t, &level);
    let seps = vec!['_', '-'];
    assert(seps@ == seq!['_', '-']);
    let parts = split_any_chars(&rest, &seps);
    keep_non_empty(&parts)
}

/// The words of a plan name put back together from their cased parts:
/// each word is its first letter upper-cased followed by the rest
/// lower-cased, and the words are joined by spaces.
pub open spec fn cased_name(parts: Seq<(String, String)>) -> Seq<char> {
    join(parts.map_values(|p: (String, String)| p.0@ + p.1@), " "@)
}

/// A plan name from the cased parts of its words (see `cased_name`).
pub fn plan_name_of_cased(parts: &Vec<(String, String)>) -> (r: String)
    ensures
        r@ == cased_name(parts@),
{
    let mut words: Vec<Vec<char>> = Vec::new();
    let mut i: usize = 0;
    while i < parts.len()
        invariant
            i <= parts.len(),
            views(words@) == parts@.take(i as int).map_values(|p: (String, String)| p.0@ + p.1@),
        decreases parts.len() - i,
    {
        let w = concat_chars(&chars_of(parts[i].0.as_str()), &chars_of(parts[i].1.as_str()));
        let ghost before = words@;
        words.push(w);
        assert(views(words@) == views(before).push(w@));
        assert(parts@.take(i + 1) == parts@.take(i as int).push(parts@[i as int]));
        assert(parts@.take(i + 1).map_values(|p: (String, String)| p.0@ + p.1@) == parts@.take(
            i as int,
        ).map_values(|p: (String, String)| p.0@ + p.1@).push(parts@[i as int].0@ + parts@[i as int].1@));
        i = i + 1;
    }
    assert(parts@.take(parts.len() as int) == parts@);
    let space = chars_of(" ");
    string_of(&join_chars(&words, &space))
}

/// A plan name for people, such as `Enterprise Team` for `enterprise_team`
/// (see `readable_plan`).
pub fn readable_plan_name(value: &str) -> (r: String)
    ensures
        r@ == readable_plan(value@),
{
    let words = plan_name_words(value);
    let mut parts: Vec<(String, String)> = Vec::new();
    let mut i: usize = 0;
    while i < words.len()
        invariant
            i <= words.len(),
            parts.len() == i,
            forall|j: int|
                0 <= j < i ==> #[trigger] parts@[j].0@ + parts@[j].1@ == capitalized(words@[j]@),
        decreases words.len() - i,
    {
        let word = &words[i];
        if word.len() == 0 {
            parts.push((String::new(), String::new()));
            assert(parts@[i as int].0@ + parts@[i as int].1@ =~= capitalized(words@[i as int]@));
        } else {
            let n: usize = 1;
            let head = string_of(&slice_chars(word, 0, n));
            let tail = string_of(&slice_chars(word, n, word.len()));
            assert(word@.subrange(0, n as int) == word@.take(1));
            assert(word@.subrange(n as int, word@.len() as int) == word@.skip(1));
            parts.push((to_uppercase(head.as_str()), to_lowercase(tail.as_str())));
        }
        i = i + 1;
    }
    let ghost cased = parts@.map_values(|p: (String, String)| p.0@ + p.1@);
    assert(cased == views(words@).map_values(|w: Seq<char>| capitalized(w)));
    plan_name_of_cased(&parts)
}

/// The name Kimi gives a membership level: the six known levels (matched
/// trimmed and in any ASCII case) by their names, any other level as a
/// readable plan name.
pub open spec fn kimi_membership(level: Seq<char>) -> Seq<char> {
    let key = ascii_uppercase(trim(level));
    if key == "LEVEL_FREE"@ {
        "Free"@
    } else if key == "LEVEL_BASIC"@ {
        "Adagio"@
    } else if key == "LEVEL_STANDARD"@ {
        "Moderato"@
    } else if key == "LEVEL_INTERMEDIATE"@ {
        "Allegretto"@
    } else if key == "LEVEL_ADVANCED"@ {
        "Allegro"@
    } else if key == "LEVEL_PREMIUM"@ {
        "Vivace"@
    } else {
        readable_plan(level)
    }
}

/// The name of a Kimi membership level (see `kimi_membership`).
pub fn kimi_membership_name(level: &str) -> (r: String)
    ensures
        r@ == kimi_membership(level@),
{
    let v = chars_of(level);
    let key = ascii_uppercase_chars(&trim_chars(&v));
    if chars_equal(&key, &chars_of("LEVEL_FREE")) {
        "Free".to_owned()
    } else if chars_equal(&key, &chars_of("LEVEL_BASIC")) {
        "Adagio".to_owned()
    } else if chars_equal(&key, &chars_of("LEVEL_STANDARD")) {
        "Moderato".to_owned()
    } else if chars_equal(&key, &chars_of("LEVEL_INTERMEDIATE")) {
        "Allegretto".to_owned()
    } else if chars_equal(&key, &chars_of("LEVEL_ADVANCED")) {
        "Allegro".to_owned()
    } else if chars_equal(&key, &chars_of("LEVEL_PREMIUM")) {
        "Vivace".to_owned()
    } else {
        readable_plan_name(level)
    }
}

/// The key given in the settings when there is one: `Some(key)` for a
/// non-empty key, `None` when the key has to be looked up in cc-switch.
pub fn provider_key_with_override(override_key: &str) -> (r: Option<String>)
    ensures
        override_key@.len() == 0 ==> r is None,
        override_key@.len() > 0 ==> (r matches Some(k) && k@ == override_key@),
{
    if override_key.is_empty() {
        None
    } else {
        Some(override_key.to_owned())
    }
}

// ---------------------------------------------------------------------------
// Quota lines
// ---------------------------------------------------------------------------

/// A quota window's name and what is known of its reset.
pub struct QuotaReset {
    pub label: String,
    pub reset: ResetPlan,
}

/// One provider's line on the board.
pub struct QuotaLine {
    pub provider: String,
    pub value: String,
    pub plan: Option<String>,
    pub resets: Vec<QuotaReset>,
}

pub struct QuotaResetView {
    pub label: Seq<char>,
    pub reset: ResetPlanView,
}

pub struct QuotaLineView {
    pub provider: Seq<char>,
    pub value: Seq<char>,
    pub plan: Option<Seq<char>>,
    pub resets: Seq<QuotaResetView>,
}

impl View for QuotaReset {
    type V = QuotaResetView;

    open spec fn view(&self) -> QuotaResetView {
        QuotaResetView { label: self.label@, reset: self.reset@ }
    }
}

pub open spec fn opt_view(o: Option<String>) -> Option<Seq<char>> {
    match o {
        Some(s) => Some(s@),
        None => None,
    }
}

pub open spec fn reset_views(v: Seq<QuotaReset>) -> Seq<QuotaResetView> {
    v.map_values(|r: QuotaReset| r@)
}

impl View for QuotaLine {
    type V = QuotaLineView;

    open spec fn view(&self) -> QuotaLineView {
        QuotaLineView {
            provider: self.provider@,
            value: self.value@,
            plan: opt_view(self.plan),
            resets: reset_views(self.resets@),
        }
    }
}

/// A line that shows a status in place of a quota.
pub open spec fn status_view(provider: Seq<char>, status: Seq<char>) -> QuotaLineView {
    QuotaLineView { provider, value: status, plan: None, resets: seq![] }
}

impl QuotaLine {
    /// A line that shows `status` (such as `读取失败`) in place of a quota.
    pub fn status(provider: &str, status: &str) -> (r: QuotaLine)
        ensures
            r@ == status_view(provider@, status@),
    {
        let r = QuotaLine {
            provider: provider.to_owned(),
            value: status.to_owned(),
            plan: None,
            resets: Vec::new(),
        };
        assert(reset_views(r.resets@) =~= seq![]);
        r
    }
}

/// Characters of a string, then a string of characters: `a + b`.
fn glue(a: &[char], b: &str) -> (r: Vec<char>)
    ensures
        r@ == a@ + b@,
{
    concat_chars(a, &chars_of(b))
}

// ---------------------------------------------------------------------------
// Codex
// ---------------------------------------------------------------------------

/// A Codex rate-limit window: its length in minutes, its text (such as
/// `7d 60%`), and what it says of its reset.
pub struct CodexWindow {
    pub minutes: i64,
    pub text: String,
    pub reset: ResetPlan,
}

pub struct CodexWindowView {
    pub minutes: i64,
    pub text: Seq<char>,
    pub reset: ResetPlanView,
}

impl View for CodexWindow {
    type V = CodexWindowView;

    open spec fn view(&self) -> CodexWindowView {
        CodexWindowView { minutes: self.minutes, text: self.text@, reset: self.reset@ }
    }
}

/// A Codex window: none without `windowDurationMins`; its text is the
/// window's name and the percent left, `usedPercent` (100 when absent)
/// clamped to 0..=100.
pub open spec fn codex_window_of(w: Json) -> Option<CodexWindowView> {
    match number_of(get(w, "windowDurationMins"@)) {
        None => None,
        Some(m) => {
            let used = clamp(
                match number_of(get(w, "usedPercent"@)) {
                    Some(u) => u as int,
                    None => 100,
                },
                0,
                100,
            );
            Some(
                CodexWindowView {
                    minutes: m,
                    text: window_label_text(m as int) + " "@ + int_decimal(100 - used) + "%"@,
                    reset: codex_reset_plan(w),
                },
            )
        },
    }
}

/// A Codex rate-limit window (see `codex_window_of`).
pub fn codex_window(w: &Json) -> (r: Option<CodexWindow>)
    ensures
        match r {
            Some(cw) => codex_window_of(*w) == Some(cw@),
            None => codex_window_of(*w) is None,
        },
{
    let minutes = match number(w.get("windowDurationMins")) {
        Some(m) => m,
        None => return None,
    };
    let raw = match number(w.get("usedPercent")) {
        Some(u) => u,
        None => 100,
    };
    let used = if raw < 0 {
        0
    } else if raw > 100 {
        100
    } else {
        raw
    };
    let label = chars_of(window_label(minutes).as_str());
    let text = glue(&concat_chars(&glue(&label, " "), &i64_decimal(100 - used)), "%");
    Some(CodexWindow { minutes, text: string_of(&text), reset: codex_reset(w) })
}

/// The windows `secondary` and `primary`, in that order, those present.
pub open spec fn codex_windows_of(limits: Json) -> Seq<CodexWindowView> {
    let a = match get(limits, "secondary"@) {
        Some(w) => codex_window_of(w),
        None => None,
    };
    let b = match get(limits, "primary"@) {
        Some(w) => codex_window_of(w),
        None => None,
    };
    match (a, b) {
        (Some(x), Some(y)) => seq![x, y],
        (Some(x), None) => seq![x],
        (None, Some(y)) => seq![y],
        (None, None) => seq![],
    }
}

/// Windows sorted by length, stably (there are two at most).
pub open spec fn by_minutes(ws: Seq<CodexWindowView>) -> Seq<CodexWindowView> {
    if ws.len() == 2 && ws[1].minutes < ws[0].minutes {
        seq![ws[1], ws[0]]
    } else {
        ws
    }
}

/// The windows that may give a reset, named by their length.
pub open spec fn codex_resets(ws: Seq<CodexWindowView>) -> Seq<QuotaResetView>
    decreases ws.len(),
{
    if ws.len() == 0 {
        seq![]
    } else {
        let rest = codex_resets(ws.drop_last());
        if may_reset(ws.last().reset) {
            rest.push(QuotaResetView { label: window_label_text(ws.last().minutes as int), reset: ws.last().reset })
        } else {
            rest
        }
    }
}

/// What Codex reports of its rate limits: the windows' texts joined by
/// ` / `, the plan as a readable name, and the windows' resets.
pub struct CodexLimits {
    pub usage: String,
    pub plan: Option<String>,
    pub resets: Vec<QuotaReset>,
}

pub struct CodexLimitsView {
    pub usage: Seq<char>,
    pub plan: Option<Seq<char>>,
    pub resets: Seq<QuotaResetView>,
}

impl View for CodexLimits {
    type V = CodexLimitsView;

    open spec fn view(&self) -> CodexLimitsView {
        CodexLimitsView { usage: self.usage@, plan: opt_view(self.plan), resets: reset_views(self.resets@) }
    }
}

/// What one reply line of the Codex app server means.
pub enum CodexReply {
    /// Not the reply to the rate-limit request: read on.
    Skip,
    /// The reply: stop reading, with the limits when it gives any.
    Done(Option<CodexLimits>),
}

pub enum CodexReplyView {
    Skip,
    Done(Option<CodexLimitsView>),
}

impl View for CodexReply {
    type V = CodexReplyView;

    open spec fn view(&self) -> CodexReplyView {
        match self {
            CodexReply::Skip => CodexReplyView::Skip,
            CodexReply::Done(None) => CodexReplyView::Done(None),
            CodexReply::Done(Some(l)) => CodexReplyView::Done(Some(l@)),
        }
    }
}

pub open spec fn texts_of(ws: Seq<CodexWindowView>) -> Seq<Seq<char>> {
    ws.map_values(|w: CodexWindowView| w.text)
}

/// A reply line of the Codex app server: lines other than the reply with
/// id 2 are skipped; the reply ends the reading, with no limits when it has
/// no `result.rateLimits` or no window, else with the windows sorted by
/// length, their texts joined by ` / `, the `planType` as a readable name,
/// and the resets of the windows that may give one.
pub open spec fn codex_reply_of(payload: Json) -> CodexReplyView {
    let id = match get(payload, "id"@) {
        Some(v) => as_i64(v),
        None => None,
    };
    if id != Some(2i64) {
        CodexReplyView::Skip
    } else {
        match get(member_value(payload, "result"@), "rateLimits"@) {
            None => CodexReplyView::Done(None),
            Some(limits) => {
                let ws = by_minutes(codex_windows_of(limits));
                if ws.len() == 0 {
                    CodexReplyView::Done(None)
                } else {
                    CodexReplyView::Done(
                        Some(
                            CodexLimitsView {
                                usage: join(texts_of(ws), " / "@),
                                plan: match opt_str(get(limits, "planType"@)) {
                                    Some(p) => Some(readable_plan(p)),
                                    None => None,
                                },
                                resets: codex_resets(ws),
                            },
                        ),
                    )
                }
            },
        }
    }
}

pub open spec fn window_views(v: Seq<CodexWindow>) -> Seq<CodexWindowView> {
    v.map_values(|w: CodexWindow| w@)
}

fn named_window(limits: &Json, name: &str) -> (r: Option<CodexWindow>)
    ensures
        match r {
            Some(w) => (match get(*limits, name@) {
                Some(x) => codex_window_of(x),
                None => None,
            }) == Some(w@),
            None => (match get(*limits, name@) {
                Some(x) => codex_window_of(x),
                None => None,
            }) is None,
        },
{
    match limits.get(name) {
        Some(w) => codex_window(w),
        None => None,
    }
}

/// What a reply line of the Codex app server means (see `codex_reply_of`).
pub fn codex_reply(payload: &Json) -> (r: CodexReply)
    ensures
        r@ == codex_reply_of(*payload),
{
    let id = match payload.get("id") {
        Some(v) => v.as_i64(),
        None => None,
    };
    if id != Some(2i64) {
        return CodexReply::Skip;
    }
    let null = Json::Null;
    let result = member(payload, "result", &null);
    let limits = match result.get("rateLimits") {
        None => return CodexReply::Done(None),
        Some(l) => l,
    };
    let a = named_window(limits, "secondary");
    let b = named_window(limits, "primary");
    let mut ws: Vec<CodexWindow> = Vec::new();
    match a {
        Some(x) => ws.push(x),
        None => {},
    }
    match b {
        Some(y) => ws.push(y),
        None => {},
    }
    assert(window_views(ws@) == codex_windows_of(*limits));
    if ws.len() == 2 && ws[1].minutes < ws[0].minutes {
        let second = ws.pop().unwrap();
        let first = ws.pop().unwrap();
        ws.push(second);
        ws.push(first);
    }
    let ghost sorted = window_views(ws@);
    assert(sorted == by_minutes(codex_windows_of(*limits)));
    if ws.len() == 0 {
        return CodexReply::Done(None);
    }
    let mut texts: Vec<Vec<char>> = Vec::new();
    let mut resets: Vec<QuotaReset> = Vec::new();
    let mut i: usize = 0;
    while i < ws.len()
        invariant
            i <= ws.len(),
            sorted == window_views(ws@),
            views(texts@) == texts_of(sorted.take(i as int)),
            reset_views(resets@) == codex_resets(sorted.take(i as int)),
        decreases ws.len() - i,
    {
        assert(sorted.take(i + 1).drop_last() == sorted.take(i as int));
        assert(sorted.take(i + 1).last() == ws@[i as int]@);
        let ghost t0 = texts@;
        let ghost r0 = resets@;
        texts.push(chars_of(ws[i].text.as_str()));
        assert(views(texts@) == views(t0).push(ws@[i as int].text@));
        assert(texts_of(sorted.take(i + 1)) == texts_of(sorted.take(i as int)).push(ws@[i as int].text@));
        if plan_may_reset(&ws[i].reset) {
            let plan = ResetPlan {
                absolute: copy_stamp(&ws[i].reset.absolute),
                relative_secs: ws[i].reset.relative_secs,
            };
            resets.push(QuotaReset { label: window_label(ws[i].minutes), reset: plan });
            assert(reset_views(resets@) == reset_views(r0).push(resets@.last()@));
        }
        i = i + 1;
    }
    assert(sorted.take(ws.len() as int) == sorted);
    let usage = string_of(&join_chars(&texts, &chars_of(" / ")));
    let plan = match limits.get("planType") {
        Some(v) => match v.as_str() {
            Some(p) => Some(readable_plan_name(p)),
            None => None,
        },
        None => None,
    };
    CodexReply::Done(Some(CodexLimits { usage, plan, resets }))
}

/// The most reply lines read from one Codex app server.
pub const CODEX_LINE_LIMIT: usize = 64;

/// The pause before the second attempt to read the Codex limits.
pub const CODEX_RETRY_PAUSE_MS: u64 = 600;

/// What came of reading the next line from the Codex app server.
pub enum CodexLine {
    /// No line is left.
    End,
    /// The line could not be read.
    Broken,
    /// The line is not JSON.
    NotJson,
    /// The line, read as JSON.
    Payload(Json),
}

/// What to do after a line of the Codex app server.
pub enum CodexStep {
    /// Read the next line.
    ReadOn,
    /// Stop reading, with the limits when the reply gave any.
    Finish(Option<CodexLimits>),
}

pub enum CodexStepView {
    ReadOn,
    Finish(Option<CodexLimitsView>),
}

impl View for CodexStep {
    type V = CodexStepView;

    open spec fn view(&self) -> CodexStepView {
        match self {
            CodexStep::ReadOn => CodexStepView::ReadOn,
            CodexStep::Finish(None) => CodexStepView::Finish(None),
            CodexStep::Finish(Some(l)) => CodexStepView::Finish(Some(l@)),
        }
    }
}

/// Reading the Codex app server's lines, `lines_read` of them before this
/// one: no line left or a broken line stops with nothing; the reply to the
/// rate-limit request stops with what it gives (see `codex_reply_of`); any
/// other line is passed over, unless it is the last of the
/// `CODEX_LINE_LIMIT` lines to read, where reading stops with nothing.
pub open spec fn codex_step_of(lines_read: int, line: CodexLine) -> CodexStepView {
    let read_on = if lines_read + 1 < CODEX_LINE_LIMIT {
        CodexStepView::ReadOn
    } else {
        CodexStepView::Finish(None)
    };
    match line {
        CodexLine::End => CodexStepView::Finish(None),
        CodexLine::Broken => CodexStepView::Finish(None),
        CodexLine::NotJson => read_on,
        CodexLine::Payload(p) => match codex_reply_of(p) {
            CodexReplyView::Skip => read_on,
            CodexReplyView::Done(l) => CodexStepView::Finish(l),
        },
    }
}

/// One step of reading the Codex app server (see `codex_step_of`).
pub fn codex_read_step(lines_read: usize, line: CodexLine) -> (r: CodexStep)
    requires
        lines_read < CODEX_LINE_LIMIT,
    ensures
        r@ == codex_step_of(lines_read as int, line),
{
    let read_on = lines_read + 1 < CODEX_LINE_LIMIT;
    match line {
        CodexLine::End => CodexStep::Finish(None),
        CodexLine::Broken => CodexStep::Finish(None),
        CodexLine::NotJson => if read_on {
            CodexStep::ReadOn
        } else {
            CodexStep::Finish(None)
        },
        CodexLine::Payload(p) => match codex_reply(&p) {
            CodexReply::Skip => if read_on {
                CodexStep::ReadOn
            } else {
                CodexStep::Finish(None)
            },
            CodexReply::Done(l) => CodexStep::Finish(l),
        },
    }
}

/// A line as it came from the Codex app server: `None` when no line is
/// left, `Some(None)` when it could not be read, else its text, read as
/// JSON (`json_text`).
pub open spec fn codex_line_of(line: Option<Option<Seq<char>>>) -> CodexLine {
    match line {
        None => CodexLine::End,
        Some(None) => CodexLine::Broken,
        Some(Some(text)) => match json_text(text) {
            Some(p) => CodexLine::Payload(p),
            None => CodexLine::NotJson,
        },
    }
}

/// One step of reading the Codex app server on a line as it came (see
/// `codex_line_of` and `codex_step_of`).
pub fn codex_read_text(lines_read: usize, line: Option<Option<&str>>) -> (r: CodexStep)
    requires
        lines_read < CODEX_LINE_LIMIT,
    ensures
        r@ == codex_step_of(
            lines_read as int,
            codex_line_of(
                match line {
                    None => None,
                    Some(None) => Some(None),
                    Some(Some(t)) => Some(Some(t@)),
                },
            ),
        ),
{
    let parsed = match line {
        None => CodexLine::End,
        Some(None) => CodexLine::Broken,
        Some(Some(text)) => match parse_json(text) {
            Some(p) => CodexLine::Payload(p),
            None => CodexLine::NotJson,
        },
    };
    codex_read_step(lines_read, parsed)
}

/// What follows a failed attempt to read the Codex limits: another attempt
/// after a pause of `CODEX_RETRY_PAUSE_MS`, or giving up.
#[derive(Debug, PartialEq, Eq, Structural)]
pub enum CodexRetry {
    AfterPause(u64),
    GiveUp,
}

/// After the failed attempt number `attempt` (counted from 0): the first
/// failure is followed by one more attempt after the pause, the second ends
/// the reading.
pub fn codex_after_failure(attempt: u32) -> (r: CodexRetry)
    ensures
        attempt == 0 ==> r == CodexRetry::AfterPause(CODEX_RETRY_PAUSE_MS),
        attempt > 0 ==> r == CodexRetry::GiveUp,
{
    if attempt == 0 {
        CodexRetry::AfterPause(CODEX_RETRY_PAUSE_MS)
    } else {
        CodexRetry::GiveUp
    }
}

// ---------------------------------------------------------------------------
// Keys stored by cc-switch
// ---------------------------------------------------------------------------

/// The query that reads a provider's settings from the cc-switch database.
pub open spec fn key_query(name: Seq<char>) -> Seq<char> {
    "SELECT settings_config FROM providers WHERE app_type='codex' AND name='"@ + name
        + "' LIMIT 1;"@
}

/// The query that reads a provider's settings from the cc-switch database
/// (see `key_query`).
pub fn provider_key_query(name: &str) -> (r: String)
    ensures
        r@ == key_query(name@),
{
    let head = concat_chars(
        &chars_of("SELECT settings_config FROM providers WHERE app_type='codex' AND name='"),
        &chars_of(name),
    );
    string_of(&concat_chars(&head, &chars_of("' LIMIT 1;")))
}

/// The API key in a provider's cc-switch settings: `auth.OPENAI_API_KEY`
/// when it is a string.
pub open spec fn stored_key(config: Json) -> Option<Seq<char>> {
    match get(config, "auth"@) {
        Some(auth) => opt_str(get(auth, "OPENAI_API_KEY"@)),
        None => None,
    }
}

/// The API key in a provider's cc-switch settings (see `stored_key`).
pub fn provider_key_from_config(config: &Json) -> (r: Option<String>)
    ensures
        opt_view(r) == stored_key(*config),
{
    match config.get("auth") {
        Some(auth) => match auth.get("OPENAI_API_KEY") {
            Some(v) => match v.as_str() {
                Some(k) => Some(k.to_owned()),
                None => None,
            },
            None => None,
        },
        None => None,
    }
}

/// The API key in what the cc-switch database printed for a provider: its
/// settings read as JSON (`json_bytes`), then `stored_key`.
pub fn provider_key_from_output(stdout: &[u8]) -> (r: Option<String>)
    ensures
        opt_view(r) == match json_bytes(stdout@) {
            Some(c) => stored_key(c),
            None => None,
        },
{
    match parse_json_bytes(stdout) {
        Some(config) => provider_key_from_config(&config),
        None => None,
    }
}


// ---------------------------------------------------------------------------
// Laws of percentages
// ---------------------------------------------------------------------------

/// The share left is a percentage: from 0 to 100.
pub proof fn remaining_is_a_percentage(used: int, limit: int)
    requires
        0 <= limit,
    ensures
        0 <= remaining_percent(used, limit) <= 100,
{
    let c = clamp(limit - used, 0, limit);
    let d = if limit < 1 {
        1
    } else {
        limit
    };
    assert(0 <= c <= d);
    assert(0 <= c * 100 <= d * 100) by (nonlinear_arith)
        requires
            0 <= c <= d,
    ;
    assert(c * 100 / d <= 100) by (nonlinear_arith)
        requires
            0 <= c * 100 <= d * 100,
            d >= 1,
    ;
    assert(c * 100 / d >= 0) by (nonlinear_arith)
        requires
            0 <= c * 100,
            d >= 1,
    ;
}

/// Nothing used leaves 100%; everything used (or more) leaves 0%.
pub proof fn remaining_extremes(limit: int)
    requires
        1 <= limit,
    ensures
        remaining_percent(0, limit) == 100,
        forall|used: int| used >= limit ==> remaining_percent(used, limit) == 0,
{
    assert(limit * 100 / limit == 100) by (nonlinear_arith)
        requires
            limit >= 1,
    ;
}


/// The six Kimi membership levels go by their fixed names, written in any
/// ASCII case and with white space around: `LEVEL_FREE` is Free,
/// `LEVEL_BASIC` Adagio, `LEVEL_STANDARD` Moderato, `LEVEL_INTERMEDIATE`
/// Allegretto, `LEVEL_ADVANCED` Allegro and `LEVEL_PREMIUM` Vivace; and the
/// six names differ from one another.
pub proof fn kimi_levels_keep_their_names(level: Seq<char>)
    ensures
        ascii_uppercase(trim(level)) == "LEVEL_FREE"@ ==> kimi_membership(level) == "Free"@,
        ascii_uppercase(trim(level)) == "LEVEL_BASIC"@ ==> kimi_membership(level) == "Adagio"@,
        ascii_uppercase(trim(level)) == "LEVEL_STANDARD"@ ==> kimi_membership(level) == "Moderato"@,
        ascii_uppercase(trim(level)) == "LEVEL_INTERMEDIATE"@ ==> kimi_membership(level)
            == "Allegretto"@,
        ascii_uppercase(trim(level)) == "LEVEL_ADVANCED"@ ==> kimi_membership(level) == "Allegro"@,
        ascii_uppercase(trim(level)) == "LEVEL_PREMIUM"@ ==> kimi_membership(level) == "Vivace"@,
        "Free"@ != "Adagio"@ && "Adagio"@ != "Moderato"@ && "Moderato"@ != "Allegretto"@
            && "Allegretto"@ != "Allegro"@ && "Allegro"@ != "Vivace"@ && "Free"@ != "Moderato"@
            && "Moderato"@ != "Allegro"@ && "Moderato"@ != "Vivace"@,
{
    reveal_strlit("LEVEL_FREE");
    reveal_strlit("LEVEL_BASIC");
    reveal_strlit("LEVEL_STANDARD");
    reveal_strlit("LEVEL_INTERMEDIATE");
    reveal_strlit("LEVEL_ADVANCED");
    reveal_strlit("LEVEL_PREMIUM");
    reveal_strlit("Free");
    reveal_strlit("Adagio");
    reveal_strlit("Moderato");
    reveal_strlit("Allegretto");
    reveal_strlit("Allegro");
    reveal_strlit("Vivace");
    assert("LEVEL_FREE"@[6] != "LEVEL_BASIC"@[6]);
    assert("LEVEL_FREE"@[6] != "LEVEL_STANDARD"@[6]);
    assert("LEVEL_FREE"@[6] != "LEVEL_INTERMEDIATE"@[6]);
    assert("LEVEL_FREE"@[6] != "LEVEL_ADVANCED"@[6]);
    assert("LEVEL_FREE"@[6] != "LEVEL_PREMIUM"@[6]);
    assert("LEVEL_BASIC"@[6] != "LEVEL_STANDARD"@[6]);
    assert("LEVEL_BASIC"@[6] != "LEVEL_INTERMEDIATE"@[6]);
    assert("LEVEL_BASIC"@[6] != "LEVEL_ADVANCED"@[6]);
    assert("LEVEL_BASIC"@[6] != "LEVEL_PREMIUM"@[6]);
    assert("LEVEL_STANDARD"@[6] != "LEVEL_INTERMEDIATE"@[6]);
    assert("LEVEL_STANDARD"@[6] != "LEVEL_ADVANCED"@[6]);
    assert("LEVEL_STANDARD"@[6] != "LEVEL_PREMIUM"@[6]);
    assert("LEVEL_INTERMEDIATE"@[6] != "LEVEL_ADVANCED"@[6]);
    assert("LEVEL_INTERMEDIATE"@[6] != "LEVEL_PREMIUM"@[6]);
    assert("LEVEL_ADVANCED"@[6] != "LEVEL_PREMIUM"@[6]);
    assert("Free"@[0] != "Adagio"@[0]);
    assert("Adagio"@[0] != "Moderato"@[0]);
    assert("Moderato"@[0] != "Allegretto"@[0]);
    assert("Allegretto"@.len() != "Allegro"@.len());
    assert("Allegro"@[0] != "Vivace"@[0]);
    assert("Free"@[0] != "Moderato"@[0]);
    assert("Moderato"@[0] != "Allegro"@[0]);
    assert("Moderato"@[0] != "Vivace"@[0]);
}

} // verus!
