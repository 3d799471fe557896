use vstd::prelude::*;

use crate::json::{as_str, get, member_value, number, number_of, opt_str, Json};
use crate::quota::{opt_view, reset_views, QuotaLine, QuotaLineView, QuotaReset, QuotaResetView};
use crate::reset::{in_i64, reset_epoch_ms, reset_stamp, stamp_view, ResetPlan, ResetPlanView};
use crate::sort::{
    ints, key_of, lemma_sort_congruent, sort_by_key, sort_indices_by_key, sorted_by,
    sorting_orders_by_key,
};
use crate::text::{chars_of, concat_chars, i64_decimal, int_decimal, string_of};

verus! {

/// Division rounding toward zero, as Rust's `/` on integers does.
pub open spec fn trunc_div(a: int, b: int) -> int {
    if a >= 0 {
        a / b
    } else {
        -((-a) / b)
    }
}

/// The items of `data.limits`.
pub open spec fn glm_items(payload: Json) -> Seq<Json> {
    match get(payload, "data"@) {
        Some(data) => match get(data, "limits"@) {
            Some(Json::Array(items)) => items@,
            _ => seq![],
        },
        None => seq![],
    }
}

/// An item whose `type` is `TOKENS_LIMIT`.
pub open spec fn is_tokens_limit(item: Json) -> bool {
    as_str(member_value(item, "type"@)) == Some("TOKENS_LIMIT"@)
}

/// The positions of the `TOKENS_LIMIT` items among the first `n`.
pub open spec fn token_positions(items: Seq<Json>, n: int) -> Seq<int>
    decreases n,
{
    if n <= 0 {
        seq![]
    } else {
        let rest = token_positions(items, n - 1);
        if is_tokens_limit(items[n - 1]) {
            rest.push(n - 1)
        } else {
            rest
        }
    }
}

/// A window's length in minutes: `number` hours for unit 3, `number` weeks
/// for unit 6, none otherwise.
pub open spec fn glm_minutes(item: Json) -> Option<int> {
    match number_of(get(item, "number"@)) {
        None => None,
        Some(count) => match number_of(get(item, "unit"@)) {
            Some(unit) => if unit == 3 {
                Some(count * 60)
            } else if unit == 6 {
                Some(count * 7 * 24 * 60)
            } else {
                None
            },
            None => None,
        },
    }
}

/// The `i64` steps of `glm_minutes` overflow nowhere.
pub open spec fn glm_minutes_fit(item: Json) -> bool {
    match number_of(get(item, "number"@)) {
        None => true,
        Some(count) => match number_of(get(item, "unit"@)) {
            Some(unit) => if unit == 3 {
                in_i64(count * 60)
            } else if unit == 6 {
                in_i64(count * 7) && in_i64(count * 7 * 24) && in_i64(count * 7 * 24 * 60)
            } else {
                true
            },
            None => true,
        },
    }
}

/// The sort key of a window: its length, windows of unknown length last.
pub open spec fn glm_key(item: Json) -> int {
    match glm_minutes(item) {
        Some(m) => m,
        None => i64::MAX as int,
    }
}

/// The name of a window: whole days as `Nd`, else hours as `Nh`, `?` when
/// its length is unknown.
pub open spec fn glm_label(item: Json) -> Seq<char> {
    match glm_minutes(item) {
        Some(m) => if m % 1440 == 0 {
            int_decimal(m / 1440) + "d"@
        } else {
            int_decimal(trunc_div(m, 60)) + "h"@
        },
        None => "?"@,
    }
}

/// The used percentage of a window, 100 when absent.
pub open spec fn glm_used(item: Json) -> int {
    match number_of(get(item, "percentage"@)) {
        Some(p) => p as int,
        None => 100,
    }
}

/// The percentage left of a window, as text such as `55%`.
pub open spec fn glm_pct(item: Json) -> Seq<char> {
    int_decimal(100 - glm_used(item)) + "%"@
}

/// The `TOKENS_LIMIT` windows, by position, sorted by length (stably).
pub open spec fn glm_order(payload: Json) -> Seq<int> {
    let items = glm_items(payload);
    sort_by_key(token_positions(items, items.len() as int), |i: int| glm_key(items[i]))
}

/// The resets of the windows at `order` that give a reset time.
pub open spec fn glm_resets(items: Seq<Json>, order: Seq<int>) -> Seq<QuotaResetView>
    decreases order.len(),
{
    if order.len() == 0 {
        seq![]
    } else {
        let rest = glm_resets(items, order.drop_last());
        let item = items[order.last()];
        match reset_stamp(get(item, "nextResetTime"@)) {
            Some(stamp) => rest.push(
                QuotaResetView {
                    label: glm_label(item),
                    reset: ResetPlanView { absolute: Some(stamp), relative_secs: None },
                },
            ),
            None => rest,
        }
    }
}

/// The GLM line computes without overflow: every `TOKENS_LIMIT` window's
/// length fits in `i64`, and so do the percentages left of the first and
/// last window.
pub open spec fn glm_fits(payload: Json) -> bool {
    let items = glm_items(payload);
    let order = glm_order(payload);
    &&& forall|i: int|
        0 <= i < items.len() && is_tokens_limit(items[i]) ==> glm_minutes_fit(#[trigger] items[i])
    &&& order.len() > 0 ==> in_i64(100 - glm_used(items[order[0]])) && in_i64(
        100 - glm_used(items[order.last()]),
    )
}

/// The GLM line: the shortest and the longest `TOKENS_LIMIT` window, each
/// by name and percentage left (`5h 90% / 7d 45%`), or `暂无额度` without
/// any; the plan `data.level`; the resets of the windows, shortest first.
pub open spec fn glm_view(payload: Json) -> QuotaLineView {
    let items = glm_items(payload);
    let order = glm_order(payload);
    QuotaLineView {
        provider: "GLM"@,
        value: if order.len() > 0 {
            let first = items[order[0]];
            let last = items[order.last()];
            glm_label(first) + " "@ + glm_pct(first) + " / "@ + glm_label(last) + " "@ + glm_pct(
                last,
            )
        } else {
            "暂无额度"@
        },
        plan: opt_str(
            match get(payload, "data"@) {
                Some(d) => get(d, "level"@),
                None => None,
            },
        ),
        resets: glm_resets(items, order),
    }
}

/// A window's length: `Err(())` when its computation overflows, else the
/// length when known.
fn minutes_of(item: &Json) -> (r: Result<Option<i64>, ()>)
    ensures
        match r {
            Err(()) => !glm_minutes_fit(*item),
            Ok(m) => glm_minutes_fit(*item) && glm_minutes(*item) == (match m {
                Some(x) => Some(x as int),
                None => None::<int>,
            }),
        },
{
    let count = match number(item.get("number")) {
        None => return Ok(None),
        Some(c) => c,
    };
    let unit = match number(item.get("unit")) {
        None => return Ok(None),
        Some(u) => u,
    };
    if unit == 3 {
        let m = count as i128 * 60;
        if m < -0x8000_0000_0000_0000 || m > 0x7fff_ffff_ffff_ffff {
            Err(())
        } else {
            Ok(Some(m as i64))
        }
    } else if unit == 6 {
        let a = count as i128 * 7;
        let b = a * 24;
        let m = b * 60;
        if a < -0x8000_0000_0000_0000 || a > 0x7fff_ffff_ffff_ffff || b < -0x8000_0000_0000_0000
            || b > 0x7fff_ffff_ffff_ffff || m < -0x8000_0000_0000_0000 || m > 0x7fff_ffff_ffff_ffff {
            Err(())
        } else {
            Ok(Some(m as i64))
        }
    } else {
        Ok(None)
    }
}

fn label_of(item: &Json, minutes: Option<i64>) -> (r: Vec<char>)
    requires
        glm_minutes(*item) == (match minutes {
            Some(x) => Some(x as int),
            None => None::<int>,
        }),
    ensures
        r@ == glm_label(*item),
{
    match minutes {
        Some(m) => if m % 1440 == 0 {
            concat_chars(&i64_decimal(m / 1440), &chars_of("d"))
        } else {
            concat_chars(&i64_decimal(m / 60), &chars_of("h"))
        },
        None => chars_of("?"),
    }
}

/// The percentage left of a window, `None` when `100 - used` overflows.
fn pct_of(item: &Json) -> (r: Option<Vec<char>>)
    ensures
        match r {
            Some(t) => in_i64(100 - glm_used(*item)) && t@ == glm_pct(*item),
            None => !in_i64(100 - glm_used(*item)),
        },
{
    let used = match number(item.get("percentage")) {
        Some(p) => p,
        None => 100,
    };
    if used < -0x7fff_ffff_ffff_ff9b {
        return None;
    }
    Some(concat_chars(&i64_decimal(100 - used), &chars_of("%")))
}

pub open spec fn opt_int(m: Option<i64>) -> Option<int> {
    match m {
        Some(x) => Some(x as int),
        None => None,
    }
}

/// The GLM line for the reply of the quota API (see `glm_view`); `None`
/// exactly when its arithmetic overflows (see `glm_fits`).
pub fn glm_line(payload: &Json) -> (r: Option<QuotaLine>)
    ensures
        r is Some <==> glm_fits(*payload),
        r matches Some(line) ==> line@ == glm_view(*payload),
{
    let empty: Vec<Json> = Vec::new();
    let data = payload.get("data");
    let listed = match data {
        Some(d) => match d.get("limits") {
            Some(l) => l.as_array(),
            None => None,
        },
        None => None,
    };
    let items: &Vec<Json> = match listed {
        Some(v) => v,
        None => &empty,
    };
    let ghost sitems = items@;
    assert(sitems == glm_items(*payload));
    // The TOKENS_LIMIT windows, their lengths and sort keys.
    let mut chosen: Vec<usize> = Vec::new();
    let mut keys: Vec<i64> = Vec::new();
    let mut minutes: Vec<Option<i64>> = Vec::new();
    let mut i: usize = 0;
    while i < items.len()
        invariant
            i <= items.len(),
            sitems == items@,
            sitems == glm_items(*payload),
            keys.len() == i,
            minutes.len() == i,
            ints(chosen@) == token_positions(sitems, i as int),
            forall|k: int| 0 <= k < chosen.len() ==> chosen@[k] < i,
            forall|k: int|
                0 <= k < i && is_tokens_limit(sitems[k]) ==> glm_minutes_fit(#[trigger] sitems[k])
                    && keys@[k] == glm_key(sitems[k]) && opt_int(minutes@[k]) == glm_minutes(
                    sitems[k],
                ),
        decreases items.len() - i,
    {
        let item = &items[i];
        let null = Json::Null;
        let kind = crate::json::member(item, "type", &null);
        let is_token = match kind.as_str() {
            Some(t) => crate::text::str_equal(t, "TOKENS_LIMIT"),
            None => false,
        };
        let ghost c0 = chosen@;
        if is_token {
            match minutes_of(item) {
                Err(()) => {
                    assert(is_tokens_limit(sitems[i as int]));
                    assert(!glm_minutes_fit(sitems[i as int]));
                    assert(sitems == glm_items(*payload));
                    assert(!glm_fits(*payload));
                    return None;
                },
                Ok(m) => {
                    keys.push(
                        match m {
                            Some(x) => x,
                            None => 0x7fff_ffff_ffff_ffff,
                        },
                    );
                    minutes.push(m);
                },
            }
            chosen.push(i);
            assert(ints(chosen@) == ints(c0).push(i as int));
        } else {
            keys.push(0);
            minutes.push(None);
        }
        i = i + 1;
    }
    let ghost spec_key = |k: int| glm_key(sitems[k]);
    let ghost positions = token_positions(sitems, sitems.len() as int);
    proof {
        assert forall|k: int| 0 <= k < positions.len() implies key_of(keys@)(#[trigger] positions[k])
            == spec_key(positions[k]) by {
            lemma_token_positions(sitems, sitems.len() as int);
        }
        lemma_sort_congruent(positions, key_of(keys@), spec_key);
    }
    let order = sort_indices_by_key(&chosen, &keys);
    let ghost sorder = ints(order@);
    assert(sorder == glm_order(*payload));
    proof {
        lemma_token_positions(sitems, sitems.len() as int);
        assert forall|k: int| 0 <= k < sorder.len() implies is_tokens_limit(sitems[#[trigger] sorder[k]]) by {
            assert(positions.contains(sorder[k]));
        }
    }
    // The value: shortest and longest window.
    let value = if order.len() > 0 {
        let first = &items[order[0]];
        let last = &items[order[order.len() - 1]];
        assert(is_tokens_limit(sitems[sorder[0]]));
        assert(is_tokens_limit(sitems[sorder[sorder.len() - 1]]));
        let p1 = match pct_of(first) {
            Some(p) => p,
            None => return None,
        };
        let p2 = match pct_of(last) {
            Some(p) => p,
            None => return None,
        };
        let l1 = label_of(first, minutes[order[0]]);
        let l2 = label_of(last, minutes[order[order.len() - 1]]);
        let mut t = concat_chars(&l1, &chars_of(" "));
        t = concat_chars(&t, &p1);
        t = concat_chars(&t, &chars_of(" / "));
        t = concat_chars(&t, &l2);
        t = concat_chars(&t, &chars_of(" "));
        t = concat_chars(&t, &p2);
        string_of(&t)
    } else {
        "暂无额度".to_owned()
    };
    let plan = match data {
        Some(d) => match d.get("level") {
            Some(v) => match v.as_str() {
                Some(p) => Some(p.to_owned()),
                None => None,
            },
            None => None,
        },
        None => None,
    };
    // The resets, in window order.
    let mut resets: Vec<QuotaReset> = Vec::new();
    let mut j: usize = 0;
    while j < order.len()
        invariant
            j <= order.len(),
            sitems == items@,
            sorder == ints(order@),
            minutes.len() == items.len(),
            forall|k: int| 0 <= k < order.len() ==> order@[k] < items.len(),
            forall|k: int| 0 <= k < sorder.len() ==> is_tokens_limit(sitems[#[trigger] sorder[k]]),
            forall|k: int|
                0 <= k < items.len() && is_tokens_limit(sitems[k]) ==> opt_int(
                    #[trigger] minutes@[k],
                ) == glm_minutes(sitems[k]),
            reset_views(resets@) == glm_resets(sitems, sorder.take(j as int)),
        decreases order.len() - j,
    {
        let k = order[j];
        assert(sorder.take(j + 1).drop_last() == sorder.take(j as int));
        assert(sorder.take(j + 1).last() == k as int);
        assert(is_tokens_limit(sitems[sorder[j as int]]));
        let item = &items[k];
        match reset_epoch_ms(item.get("nextResetTime")) {
            Some(stamp) => {
                let label = string_of(&label_of(item, minutes[k]));
                let ghost r0 = resets@;
                resets.push(
                    QuotaReset {
                        label,
                        reset: ResetPlan { absolute: Some(stamp), relative_secs: None },
                    },
                );
                assert(reset_views(resets@) == reset_views(r0).push(resets@.last()@));
            },
            None => {},
        }
        j = j + 1;
    }
    assert(sorder.take(order.len() as int) == sorder);
    let line = QuotaLine { provider: "GLM".to_owned(), value, plan, resets };
    assert(line@ == glm_view(*payload));
    Some(line)
}

proof fn lemma_token_positions(items: Seq<Json>, n: int)
    requires
        0 <= n <= items.len(),
    ensures
        forall|k: int|
            0 <= k < token_positions(items, n).len() ==> 0 <= #[trigger] token_positions(items, n)[k]
                < n && is_tokens_limit(items[token_positions(items, n)[k]]),
    decreases n,
{
    if n > 0 {
        let rest = token_positions(items, n - 1);
        lemma_token_positions(items, n - 1);
        assert forall|k: int| 0 <= k < token_positions(items, n).len() implies 0
            <= #[trigger] token_positions(items, n)[k] < n && is_tokens_limit(
            items[token_positions(items, n)[k]],
        ) by {
            if k < rest.len() {
                assert(token_positions(items, n)[k] == rest[k]);
            }
        }
    }
}


/// The GLM windows come shortest first: their lengths never decrease, and
/// every `TOKENS_LIMIT` window is among them.
pub proof fn glm_windows_shortest_first(payload: Json)
    ensures
        sorted_by(glm_order(payload), |i: int| glm_key(glm_items(payload)[i])),
        glm_order(payload).len() == token_positions(glm_items(payload), glm_items(payload).len() as int).len(),
{
    let items = glm_items(payload);
    sorting_orders_by_key(token_positions(items, items.len() as int), |i: int| glm_key(items[i]));
}


/// Whether the window at `i` gives a reset time.
pub open spec fn gives_reset(items: Seq<Json>, i: int) -> bool {
    reset_stamp(get(items[i], "nextResetTime"@)) is Some
}

proof fn lemma_resets_of_windows(items: Seq<Json>, order: Seq<int>)
    ensures
        ({
            let f = order.filter(|i: int| gives_reset(items, i));
            let resets = glm_resets(items, order);
            &&& resets.len() == f.len()
            &&& forall|k: int|
                0 <= k < f.len() ==> #[trigger] resets[k] == (QuotaResetView {
                    label: glm_label(items[f[k]]),
                    reset: ResetPlanView {
                        absolute: reset_stamp(get(items[f[k]], "nextResetTime"@)),
                        relative_secs: None,
                    },
                })
        }),
    decreases order.len(),
{
    reveal(Seq::filter);
    if order.len() > 0 {
        lemma_resets_of_windows(items, order.drop_last());
    }
}

/// Every GLM window that gives a reset time gives exactly one reset on the
/// line, labelled by that window, in the order of the windows (shortest
/// first): the resets are those of the windows in `glm_order` that give a
/// reset time, one for one.
pub proof fn glm_resets_one_per_window(payload: Json)
    ensures
        ({
            let items = glm_items(payload);
            let f = glm_order(payload).filter(|i: int| gives_reset(items, i));
            let resets = glm_view(payload).resets;
            &&& resets.len() == f.len()
            &&& forall|k: int|
                0 <= k < f.len() ==> #[trigger] resets[k] == (QuotaResetView {
                    label: glm_label(items[f[k]]),
                    reset: ResetPlanView {
                        absolute: reset_stamp(get(items[f[k]], "nextResetTime"@)),
                        relative_secs: None,
                    },
                })
        }),
{
    lemma_resets_of_windows(glm_items(payload), glm_order(payload));
}

} // verus!
