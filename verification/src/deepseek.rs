//! The DeepSeek line: the balance of the account.
use vstd::prelude::*;
use vstd::string::*;

use crate::json::{field, field_in, items, list_in, list_view, text, text_in, Json, JsonValue};
use crate::quota::{Fetched, QuotaLine, QuotaText};
use crate::serde_value::{json_from_bytes, parse_json};

verus! {

/// Where the balance is asked for.
pub const DEEPSEEK_URL: &'static str = "https://api.deepseek.com/user/balance";

/// The name of the provider in the settings.
pub const DEEPSEEK_ACCOUNT: &'static str = "DeepSeek";

/// The total of the first balance in an answer.
pub open spec fn balance_in(payload: JsonValue) -> Option<Seq<char>> {
    match list_in(field_in(Some(payload), "balance_infos"@)) {
        Some(balances) => if balances.len() > 0 {
            text_in(field_in(Some(balances[0]), "total_balance"@))
        } else {
            None
        },
        None => None,
    }
}

/// A DeepSeek line; the account pays by the token.
pub open spec fn deepseek_line_of(value: Seq<char>) -> QuotaText {
    QuotaText { provider: "DEEPSEEK"@, value, plan: Some("Token"@) }
}

/// The DeepSeek line of an answer, with a dash in place of a balance that it
/// does not hold.
pub open spec fn deepseek_text(payload: JsonValue) -> QuotaText {
    deepseek_line_of(
        "余额 ¥"@ + (match balance_in(payload) {
            Some(balance) => balance,
            None => "—"@,
        }),
    )
}

/// A DeepSeek line.
fn line_of(value: String) -> (line: QuotaLine)
    ensures
        line@ == deepseek_line_of(value@),
{
    QuotaLine { provider: "DEEPSEEK", value, plan: Some("Token".to_owned()) }
}

/// The total of the first balance in an answer.
fn balance(payload: &Json) -> (total: Option<&str>)
    ensures
        balance_in(payload@) == (match total {
            Some(s) => Some(s@),
            None => None::<Seq<char>>,
        }),
{
    match items(field(Some(payload), "balance_infos")) {
        Some(balances) => if balances.len() > 0 {
            assert(list_view(balances@)[0] == balances@[0]@);
            text(field(Some(&balances[0]), "total_balance"))
        } else {
            None
        },
        None => None,
    }
}

/// The DeepSeek line of an answer.
pub fn deepseek_report(payload: &Json) -> (line: QuotaLine)
    ensures
        line@ == deepseek_text(payload@),
{
    let mut value: String = "余额 ¥".to_owned();
    match balance(payload) {
        Some(total) => value.append(total),
        None => value.append("—"),
    }
    line_of(value)
}

/// The DeepSeek line of what came of asking.
pub fn deepseek_line(fetched: Fetched) -> (line: QuotaLine)
    ensures
        line@ == (match fetched {
            Fetched::NoKey => deepseek_line_of("未配置"@),
            Fetched::Failed => deepseek_line_of("读取失败"@),
            Fetched::Body(body) => match json_from_bytes(body@) {
                None => deepseek_line_of("读取失败"@),
                Some(payload) => deepseek_text(payload),
            },
        }),
{
    match fetched {
        Fetched::NoKey => line_of("未配置".to_owned()),
        Fetched::Failed => line_of("读取失败".to_owned()),
        Fetched::Body(body) => match parse_json(body.as_slice()) {
            None => line_of("读取失败".to_owned()),
            Some(payload) => deepseek_report(&payload),
        },
    }
}

/// An answer whose first balance states its total as a text is shown with that
/// text, however many balances there are.
pub proof fn law_first_balance_is_shown(
    payload: &Json,
    line: QuotaLine,
    balances: Seq<JsonValue>,
    total: Seq<char>,
)
    requires
        call_ensures(deepseek_report, (payload,), line),
        list_in(field_in(Some(payload@), "balance_infos"@)) == Some(balances),
        balances.len() > 0,
        text_in(field_in(Some(balances[0]), "total_balance"@)) == Some(total),
    ensures
        line@.provider == "DEEPSEEK"@,
        line@.value == "余额 ¥"@ + total,
        line@.plan == Some("Token"@),
{
}

/// An answer without balances, or whose first balance states no text as its
/// total, is shown with a dash.
pub proof fn law_missing_balance_is_a_dash(payload: &Json, line: QuotaLine)
    requires
        call_ensures(deepseek_report, (payload,), line),
        list_in(field_in(Some(payload@), "balance_infos"@)) matches Some(balances)
            ==> balances.len() > 0 ==> text_in(field_in(Some(balances[0]), "total_balance"@)) is None,
    ensures
        line@.provider == "DEEPSEEK"@,
        line@.value == "余额 ¥—"@,
        line@.plan == Some("Token"@),
{
    reveal_strlit("余额 ¥");
    reveal_strlit("—");
    reveal_strlit("余额 ¥—");
    assert("余额 ¥"@ + "—"@ =~= "余额 ¥—"@);
}

/// The balances behind the first do not matter.
pub proof fn law_other_balances_do_not_matter(
    payload: &Json,
    line: QuotaLine,
    balances: Seq<JsonValue>,
    other: &Json,
    other_line: QuotaLine,
    other_balances: Seq<JsonValue>,
)
    requires
        call_ensures(deepseek_report, (payload,), line),
        list_in(field_in(Some(payload@), "balance_infos"@)) == Some(balances),
        call_ensures(deepseek_report, (other,), other_line),
        list_in(field_in(Some(other@), "balance_infos"@)) == Some(other_balances),
        balances.len() > 0,
        other_balances.len() > 0,
        balances[0] == other_balances[0],
    ensures
        line@ == other_line@,
{
}

/// A body that is JSON is shown as its document is; any other, and a request
/// that failed, as a failure; without a key, that is what is shown.
pub proof fn law_deepseek_line_comes_from_the_body(
    fetched: Fetched,
    line: QuotaLine,
    payload: &Json,
    report: QuotaLine,
)
    requires
        call_ensures(deepseek_line, (fetched,), line),
        call_ensures(deepseek_report, (payload,), report),
    ensures
        fetched matches Fetched::Body(body) && json_from_bytes(body@) == Some(payload@) ==> line@
            == report@,
        fetched is NoKey ==> line@.value == "未配置"@,
        fetched is Failed || (fetched matches Fetched::Body(body) && json_from_bytes(body@) is None)
            ==> line@.value == "读取失败"@,
        line@.provider == "DEEPSEEK"@,
        line@.plan == Some("Token"@),
{
}

}
