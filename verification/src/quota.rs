//! Quota lines, and what is common to the providers.
use vstd::prelude::*;
use vstd::string::*;

use crate::decimal::{decimal, decimal_text};
use crate::json::{field, field_in, seen, text, text_in, Json, JsonValue};
use crate::serde_value::{json_from_bytes, parse_json};
use crate::text::optional_text;

verus! {

/// The database of provider settings, below the home directory.
pub const SETTINGS_FILE: &'static str = ".cc-switch/cc-switch.db";

/// One line of the board: a provider, what is left of its quota, and the plan
/// that the account is on.
#[derive(Debug)]
pub struct QuotaLine {
    pub provider: &'static str,
    pub value: String,
    pub plan: Option<String>,
}

/// What a quota line says.
pub struct QuotaText {
    pub provider: Seq<char>,
    pub value: Seq<char>,
    pub plan: Option<Seq<char>>,
}

impl View for QuotaLine {
    type V = QuotaText;

    open spec fn view(&self) -> QuotaText {
        QuotaText {
            provider: self.provider@,
            value: self.value@,
            plan: optional_text(self.plan),
        }
    }
}

/// What came of asking a provider that is reached with an API key.
pub enum Fetched {
    /// No key is configured.
    NoKey,
    /// The request failed, or was answered with an error status.
    Failed,
    /// The body of the answer.
    Body(Vec<u8>),
}

/// A percentage as it is shown.
pub open spec fn percent(n: int) -> Seq<char> {
    decimal(n) + "%"@
}

/// The value of a line that shows a five-hour and a seven-day window.
pub open spec fn two_windows(five_hour: Seq<char>, seven_day: Seq<char>) -> Seq<char> {
    "5h "@ + five_hour + " / 7d "@ + seven_day
}

/// What is left of `limit` once `used` is taken off: never less than nothing,
/// never more than the limit.
pub open spec fn amount_left(used: int, limit: int) -> int {
    if limit - used < 0 {
        0
    } else if limit - used > limit {
        limit
    } else {
        limit - used
    }
}

/// What is left of `limit`, in whole percent of it, rounded down.
pub open spec fn percent_left(used: int, limit: int) -> int {
    amount_left(used, limit) * 100 / (if limit < 1 {
        1
    } else {
        limit
    })
}

/// The limit is not negative, and neither the difference nor the hundredfold
/// of what is left exceeds 64 bits.
pub open spec fn quota_in_range(used: int, limit: int) -> bool {
    &&& 0 <= limit
    &&& i64::MIN <= limit - used <= i64::MAX
    &&& amount_left(used, limit) * 100 <= i64::MAX
}

/// The share that is left of a quota is a percentage.
pub proof fn law_share_is_a_percentage(used: int, limit: int)
    requires
        0 <= limit,
    ensures
        0 <= percent_left(used, limit) <= 100,
{
    let left = amount_left(used, limit);
    if limit >= 1 {
        assert(0 <= left * 100 / limit <= 100) by (nonlinear_arith)
            requires
                0 <= left <= limit,
                limit >= 1,
        ;
    }
}

/// Using more of a quota never leaves a greater share of it.
pub proof fn law_use_never_raises_the_share(used: int, more: int, limit: int)
    requires
        0 <= limit,
        used <= more,
    ensures
        percent_left(more, limit) <= percent_left(used, limit),
{
    let left = amount_left(used, limit);
    let less = amount_left(more, limit);
    if limit >= 1 {
        assert(less * 100 / limit <= left * 100 / limit) by (nonlinear_arith)
            requires
                0 <= less <= left,
                limit >= 1,
        ;
    }
}

/// An unused quota is left whole, and a quota that is used up, or overdrawn, is
/// left empty.
pub proof fn law_share_at_the_ends(used: int, limit: int)
    requires
        0 < limit,
    ensures
        used <= 0 ==> percent_left(used, limit) == 100,
        used >= limit ==> percent_left(used, limit) == 0,
{
    assert(limit * 100 / limit == 100) by (nonlinear_arith)
        requires
            limit > 0,
    ;
    assert(0int * 100 / limit == 0) by (nonlinear_arith)
        requires
            limit > 0,
    ;
}

/// A percentage as it is shown.
pub fn percent_text(n: i64) -> (shown: String)
    ensures
        shown@ == percent(n as int),
{
    let mut shown = decimal_text(n);
    shown.append("%");
    shown
}

/// The value of a line that shows a five-hour and a seven-day window.
pub fn two_windows_text(five_hour: &str, seven_day: &str) -> (shown: String)
    ensures
        shown@ == two_windows(five_hour@, seven_day@),
{
    let mut shown: String = "5h ".to_owned();
    shown.append(five_hour);
    shown.append(" / 7d ");
    shown.append(seven_day);
    shown
}

/// Whether the share that is left of a quota can be computed in 64 bits.
pub fn is_in_range(used: i64, limit: i64) -> (fits: bool)
    ensures
        fits == quota_in_range(used as int, limit as int),
{
    if limit < 0 {
        return false;
    }
    let difference: i128 = limit as i128 - used as i128;
    if difference < i64::MIN as i128 || difference > i64::MAX as i128 {
        return false;
    }
    let left: i128 = if difference < 0 {
        0
    } else if difference > limit as i128 {
        limit as i128
    } else {
        difference
    };
    left * 100 <= i64::MAX as i128
}

/// What is left of a quota, as a percentage of its limit.
pub fn remaining(used: i64, limit: i64) -> (shown: String)
    requires
        quota_in_range(used as int, limit as int),
    ensures
        shown@ == percent(percent_left(used as int, limit as int)),
{
    let difference: i64 = limit - used;
    let left: i64 = if difference < 0 {
        0
    } else if difference > limit {
        limit
    } else {
        difference
    };
    let whole: i64 = if limit < 1 {
        1
    } else {
        limit
    };
    proof {
        law_share_is_a_percentage(used as int, limit as int);
    }
    percent_text(((left * 100) as u64 / whole as u64) as i64)
}

/// The query that gives the settings of a provider, as JSON.
pub open spec fn provider_sql(name: Seq<char>) -> Seq<char> {
    "SELECT settings_config FROM providers WHERE app_type='codex' AND name='"@ + name
        + "' LIMIT 1;"@
}

/// The API key in the settings of a provider.
pub open spec fn api_key_in(settings: Option<JsonValue>) -> Option<Seq<char>> {
    text_in(field_in(field_in(settings, "auth"@), "OPENAI_API_KEY"@))
}

/// The query that gives the settings of a provider, as JSON.
pub fn provider_query(name: &str) -> (sql: String)
    ensures
        sql@ == provider_sql(name@),
{
    let mut sql: String =
        "SELECT settings_config FROM providers WHERE app_type='codex' AND name='".to_owned();
    sql.append(name);
    sql.append("' LIMIT 1;");
    sql
}

/// The API key in the settings of a provider.
pub fn api_key(settings: Option<&Json>) -> (key: Option<String>)
    ensures
        optional_text(key) == api_key_in(seen(settings)),
{
    match text(field(field(settings, "auth"), "OPENAI_API_KEY")) {
        Some(key) => Some(key.to_owned()),
        None => None,
    }
}

/// The API key in what the settings query printed; `None` where that is not
/// JSON or holds no key.
pub fn provider_key(printed: &[u8]) -> (key: Option<String>)
    ensures
        optional_text(key) == api_key_in(json_from_bytes(printed@)),
{
    match parse_json(printed) {
        Some(settings) => api_key(Some(&settings)),
        None => None,
    }
}

/// A percentage is shown as the integer with a percent sign behind it.
pub proof fn law_percentage_is_shown(n: i64, shown: String)
    requires
        call_ensures(percent_text, (n,), shown),
    ensures
        shown@ == decimal(n as int) + "%"@,
        percent(n as int) == decimal(n as int) + "%"@,
{
}

/// Two windows are shown in the order in which they are given, the first as the
/// five-hour window and the second as the seven-day window.
pub proof fn law_two_windows_are_shown(five_hour: &str, seven_day: &str, shown: String)
    requires
        call_ensures(two_windows_text, (five_hour, seven_day), shown),
    ensures
        shown@ == "5h "@ + five_hour@ + " / 7d "@ + seven_day@,
        two_windows(five_hour@, seven_day@) == "5h "@ + five_hour@ + " / 7d "@ + seven_day@,
{
}

/// The share that is left is the whole percentage that what is left makes up of
/// the limit: as many hundredths of the limit are left, and not one more.
pub proof fn law_share_is_what_is_left(used: int, limit: int)
    requires
        0 <= used <= limit,
        0 < limit,
    ensures
        percent_left(used, limit) * limit <= (limit - used) * 100,
        (limit - used) * 100 < (percent_left(used, limit) + 1) * limit,
{
    let whole = (limit - used) * 100;
    let share = whole / limit;
    assert(share * limit <= whole && whole < (share + 1) * limit) by (nonlinear_arith)
        requires
            limit > 0,
            share == whole / limit,
    ;
}

/// What is used beyond the limit, or below nothing, counts as the limit, or as
/// nothing; of a limit of nothing, nothing is left.
pub proof fn law_use_beyond_the_limit_counts_as_the_limit(used: int, limit: int)
    requires
        0 <= limit,
    ensures
        used > limit ==> percent_left(used, limit) == percent_left(limit, limit),
        used < 0 ==> percent_left(used, limit) == percent_left(0, limit),
        limit == 0 ==> percent_left(used, limit) == 0,
{
}

/// What is shown of a quota is the share that is left of it, as a percentage.
pub proof fn law_remaining_shows_the_share(used: i64, limit: i64, shown: String, share: int)
    requires
        quota_in_range(used as int, limit as int),
        call_ensures(remaining, (used, limit), shown),
        0 <= used <= limit,
        0 < limit,
        share * limit <= (limit - used) * 100,
        (limit - used) * 100 < (share + 1) * limit,
    ensures
        shown@ == decimal(share) + "%"@,
{
    law_share_is_what_is_left(used as int, limit as int);
    lemma_share_is_unique(
        share,
        percent_left(used as int, limit as int),
        limit as int,
        (limit - used) * 100,
    );
}

/// No two whole numbers of hundredths are both as many as fit.
pub proof fn lemma_share_is_unique(a: int, b: int, limit: int, whole: int)
    requires
        0 < limit,
        a * limit <= whole < (a + 1) * limit,
        b * limit <= whole < (b + 1) * limit,
    ensures
        a == b,
{
    assert(a == b) by (nonlinear_arith)
        requires
            0 < limit,
            a * limit <= whole < (a + 1) * limit,
            b * limit <= whole < (b + 1) * limit,
    ;
}

/// A share can be computed in 64 bits exactly where the limit is not negative,
/// its difference to what is used fits, and the limit or that difference fits a
/// hundred times.
pub proof fn law_range_of_quotas(used: i64, limit: i64, fits: bool)
    requires
        call_ensures(is_in_range, (used, limit), fits),
    ensures
        fits == (0 <= limit && i64::MIN <= limit - used <= i64::MAX && (limit * 100 <= i64::MAX || (
        limit - used) * 100 <= i64::MAX)),
        fits == quota_in_range(used as int, limit as int),
{
}

/// The query for a provider differs from that for another in the name alone.
pub proof fn law_query_names_the_provider(name: &str, sql: String)
    requires
        call_ensures(provider_query, (name,), sql),
    ensures
        sql@ == "SELECT settings_config FROM providers WHERE app_type='codex' AND name='"@ + name@
            + "' LIMIT 1;"@,
{
}

/// The key is the text that the settings hold below `auth`, whatever else they
/// hold; settings without such a text have no key.
pub proof fn law_key_is_read_from_the_settings(
    settings: &Json,
    printed: &[u8],
    key: Option<String>,
    again: Option<String>,
)
    requires
        call_ensures(api_key, (Some(settings),), key),
        json_from_bytes(printed@) == Some(settings@),
        call_ensures(provider_key, (printed,), again),
    ensures
        optional_text(key) == text_in(
            field_in(field_in(Some(settings@), "auth"@), "OPENAI_API_KEY"@),
        ),
        optional_text(again) == optional_text(key),
{
}

/// What is not JSON holds no key.
pub proof fn law_no_settings_have_no_key(printed: &[u8], key: Option<String>)
    requires
        json_from_bytes(printed@) is None,
        call_ensures(provider_key, (printed,), key),
    ensures
        key is None,
{
}

/// A line says what its fields hold.
pub proof fn law_line_says_its_fields(line: QuotaLine)
    ensures
        line@.provider == line.provider@,
        line@.value == line.value@,
        line@.plan == (match line.plan {
            Some(plan) => Some(plan@),
            None => None,
        }),
{
}

}
