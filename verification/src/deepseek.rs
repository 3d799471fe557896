use vstd::prelude::*;

use crate::json::{as_str, member, member_value, Json};
use crate::quota::{reset_views, QuotaLine, QuotaLineView};
use crate::text::{chars_of, concat_chars, string_of};

verus! {

/// The balance a DeepSeek reply gives: `total_balance` of the first of
/// `balance_infos`, `—` when there is none.
pub open spec fn deepseek_balance(payload: Json) -> Seq<char> {
    match member_value(payload, "balance_infos"@) {
        Json::Array(items) => if items@.len() > 0 {
            match as_str(member_value(items@[0], "total_balance"@)) {
                Some(b) => b,
                None => "—"@,
            }
        } else {
            "—"@
        },
        _ => "—"@,
    }
}

/// The DeepSeek line: the balance as `余额 ¥B`, the plan `Token`, no resets.
pub open spec fn deepseek_view(payload: Json) -> QuotaLineView {
    QuotaLineView {
        provider: "DEEPSEEK"@,
        value: "余额 ¥"@ + deepseek_balance(payload),
        plan: Some("Token"@),
        resets: seq![],
    }
}

/// The DeepSeek line for the reply of the balance API (see `deepseek_view`).
pub fn deepseek_line(payload: &Json) -> (r: QuotaLine)
    ensures
        r@ == deepseek_view(*payload),
{
    let null = Json::Null;
    let balance: Vec<char> = match member(payload, "balance_infos", &null).as_array() {
        Some(items) => if items.len() > 0 {
            match member(&items[0], "total_balance", &null).as_str() {
                Some(b) => chars_of(b),
                None => chars_of("—"),
            }
        } else {
            chars_of("—")
        },
        None => chars_of("—"),
    };
    let value = string_of(&concat_chars(&chars_of("余额 ¥"), &balance));
    let line = QuotaLine {
        provider: "DEEPSEEK".to_owned(),
        value,
        plan: Some("Token".to_owned()),
        resets: Vec::new(),
    };
    assert(reset_views(line.resets@) =~= seq![]);
    line
}

} // verus!
