//! The GLM line: the token limits that reset soonest and latest.
use vstd::prelude::*;

use crate::decimal::decimal;
use crate::json::{
    field, field_in, items, list_in, list_view, number, number_in, text, text_in,
    Json, JsonValue,
};
use crate::quota::{
    percent, percent_text, two_windows, two_windows_text, Fetched, QuotaLine, QuotaText,
};
use crate::serde_value::{json_from_bytes, parse_json};
use crate::text::same_text;

verus! {

/// Where the limits are asked for.
pub const GLM_URL: &'static str = "https://open.bigmodel.cn/api/monitor/usage/quota/limit";

/// The name of the provider in the settings.
pub const GLM_ACCOUNT: &'static str = "Zhipu GLM";

/// An entry of the answer is a limit on tokens.
pub open spec fn is_token_limit(entry: JsonValue) -> bool {
    text_in(field_in(Some(entry), "type"@)) == Some("TOKENS_LIMIT"@)
}

/// The limits on tokens in an answer, in its order.
pub open spec fn token_limits(payload: JsonValue) -> Seq<JsonValue> {
    match list_in(field_in(field_in(Some(payload), "data"@), "limits"@)) {
        Some(entries) => entries.filter(|entry: JsonValue| is_token_limit(entry)),
        None => Seq::empty(),
    }
}

/// When a limit resets; one that does not say resets last.
pub open spec fn reset_time(limit: JsonValue) -> i64 {
    match number_in(field_in(Some(limit), "nextResetTime"@)) {
        Some(time) => time,
        None => i64::MAX,
    }
}

/// The reset times of a list of limits.
pub open spec fn reset_times(limits: Seq<JsonValue>) -> Seq<i64> {
    limits.map_values(|limit: JsonValue| reset_time(limit))
}

/// The percentage that is used of a limit; one that does not say is used up.
pub open spec fn used_percentage(limit: JsonValue) -> i64 {
    match number_in(field_in(Some(limit), "percentage"@)) {
        Some(used) => used,
        None => 100,
    }
}

/// The position of the least of the keys; of the first one, where several are
/// the least.
pub open spec fn first_least(keys: Seq<i64>) -> int
    decreases keys.len(),
{
    if keys.len() <= 1 {
        0
    } else {
        let before = first_least(keys.drop_last());
        if keys.last() < keys[before] {
            keys.len() - 1
        } else {
            before
        }
    }
}

/// The position of the greatest of the keys; of the last one, where several are
/// the greatest.
pub open spec fn last_greatest(keys: Seq<i64>) -> int
    decreases keys.len(),
{
    if keys.len() <= 1 {
        0
    } else {
        let before = last_greatest(keys.drop_last());
        if keys.last() >= keys[before] {
            keys.len() - 1
        } else {
            before
        }
    }
}

/// The limit that resets first.
pub open spec fn soonest(limits: Seq<JsonValue>) -> JsonValue {
    limits[first_least(reset_times(limits))]
}

/// The limit that resets last.
pub open spec fn latest(limits: Seq<JsonValue>) -> JsonValue {
    limits[last_greatest(reset_times(limits))]
}

/// What is left of a limit fits in 64 bits.
pub open spec fn limit_in_range(limit: JsonValue) -> bool {
    100 - used_percentage(limit) <= i64::MAX
}

/// What is left of the two limits that are shown fits in 64 bits.
pub open spec fn glm_in_range(payload: JsonValue) -> bool {
    let limits = token_limits(payload);
    limits.len() > 0 ==> limit_in_range(soonest(limits)) && limit_in_range(latest(limits))
}

/// The GLM line of an answer.
pub open spec fn glm_text(payload: JsonValue) -> QuotaText {
    let limits = token_limits(payload);
    QuotaText {
        provider: "GLM"@,
        value: if limits.len() > 0 {
            two_windows(
                percent(100 - used_percentage(soonest(limits))),
                percent(100 - used_percentage(latest(limits))),
            )
        } else {
            "暂无额度"@
        },
        plan: text_in(field_in(field_in(Some(payload), "data"@), "level"@)),
    }
}

/// The GLM line where there is no answer to show.
pub open spec fn glm_notice(value: Seq<char>) -> QuotaText {
    QuotaText { provider: "GLM"@, value, plan: None }
}

/// `order` lists the positions of `keys`, each once, by ascending key; equal
/// keys keep their order.
pub open spec fn is_stable_order(order: Seq<int>, keys: Seq<i64>) -> bool {
    &&& order.len() == keys.len()
    &&& forall|i: int| 0 <= i < order.len() ==> 0 <= #[trigger] order[i] < keys.len()
    &&& forall|p: int| 0 <= p < keys.len() ==> #[trigger] order.contains(p)
    &&& forall|i: int, j: int|
        0 <= i < j < order.len() ==> {
            ||| keys[#[trigger] order[i]] < keys[#[trigger] order[j]]
            ||| keys[order[i]] == keys[order[j]] && order[i] < order[j]
        }
}

/// The least of the keys is the least, and stands before its equals.
proof fn lemma_first_least(keys: Seq<i64>)
    requires
        keys.len() > 0,
    ensures
        0 <= first_least(keys) < keys.len(),
        forall|i: int| 0 <= i < keys.len() ==> keys[first_least(keys)] <= #[trigger] keys[i],
        forall|i: int|
            0 <= i < first_least(keys) ==> keys[first_least(keys)] < #[trigger] keys[i],
    decreases keys.len(),
{
    if keys.len() > 1 {
        let rest = keys.drop_last();
        lemma_first_least(rest);
        assert forall|i: int| 0 <= i < keys.len() implies keys[first_least(keys)]
            <= #[trigger] keys[i] by {
            if i < rest.len() {
                assert(rest[i] == keys[i]);
            }
        }
        assert forall|i: int| 0 <= i < first_least(keys) implies keys[first_least(keys)]
            < #[trigger] keys[i] by {
            assert(rest[i] == keys[i]);
        }
    }
}

/// The greatest of the keys is the greatest, and stands behind its equals.
proof fn lemma_last_greatest(keys: Seq<i64>)
    requires
        keys.len() > 0,
    ensures
        0 <= last_greatest(keys) < keys.len(),
        forall|i: int| 0 <= i < keys.len() ==> #[trigger] keys[i] <= keys[last_greatest(keys)],
        forall|i: int|
            last_greatest(keys) < i < keys.len() ==> #[trigger] keys[i]
                < keys[last_greatest(keys)],
    decreases keys.len(),
{
    if keys.len() > 1 {
        let rest = keys.drop_last();
        lemma_last_greatest(rest);
        assert forall|i: int| 0 <= i < keys.len() implies #[trigger] keys[i]
            <= keys[last_greatest(keys)] by {
            if i < rest.len() {
                assert(rest[i] == keys[i]);
            }
        }
        assert forall|i: int| last_greatest(keys) < i < keys.len() implies #[trigger] keys[i]
            < keys[last_greatest(keys)] by {
            if i < rest.len() {
                assert(rest[i] == keys[i]);
            }
        }
    }
}

/// The two limits that are shown are the ends of the list once it is sorted by
/// reset time, where limits of equal reset time keep their order.
pub proof fn law_shown_limits_end_the_order(limits: Seq<JsonValue>, order: Seq<int>)
    requires
        limits.len() > 0,
        is_stable_order(order, reset_times(limits)),
    ensures
        limits[order.first()] == soonest(limits),
        limits[order.last()] == latest(limits),
{
    let keys = reset_times(limits);
    lemma_first_least(keys);
    lemma_last_greatest(keys);
    let low = first_least(keys);
    let high = last_greatest(keys);
    assert(order.contains(low));
    assert(order.contains(high));
    let i = order.index_of(low);
    let j = order.index_of(high);
    if i > 0 {
        assert(keys[order[0]] < keys[order[i]] || (keys[order[0]] == keys[order[i]] && order[0]
            < order[i]));
    }
    if j < order.len() - 1 {
        let last = order.len() - 1;
        assert(keys[order[j]] < keys[order[last]] || (keys[order[j]] == keys[order[last]]
            && order[j] < order[last]));
    }
}

/// The limits on tokens of an answer that reset first and last.
fn shown_limits(payload: &Json) -> (shown: Option<(&Json, &Json)>)
    ensures
        match shown {
            Some((first, last)) => {
                &&& token_limits(payload@).len() > 0
                &&& first@ == soonest(token_limits(payload@))
                &&& last@ == latest(token_limits(payload@))
            },
            None => token_limits(payload@).len() == 0,
        },
{
    let entries: &Vec<Json> = match items(field(field(Some(payload), "data"), "limits")) {
        Some(entries) => entries,
        None => {
            return None;
        },
    };
    let ghost all = list_view(entries@);
    let ghost wanted = |entry: JsonValue| is_token_limit(entry);
    let mut shown: Option<(&Json, &Json)> = None;
    let mut first_time: i64 = 0;
    let mut last_time: i64 = 0;
    let mut i: usize = 0;
    reveal(Seq::filter);
    while i < entries.len()
        invariant
            i <= entries@.len(),
            all == list_view(entries@),
            wanted == (|entry: JsonValue| is_token_limit(entry)),
            match shown {
                Some((first, last)) => {
                    let limits = all.take(i as int).filter(wanted);
                    &&& limits.len() > 0
                    &&& first@ == soonest(limits)
                    &&& last@ == latest(limits)
                    &&& first_time == reset_time(first@)
                    &&& last_time == reset_time(last@)
                },
                None => all.take(i as int).filter(wanted).len() == 0,
            },
        decreases entries@.len() - i,
    {
        let entry: &Json = &entries[i];
        let ghost limits = all.take(i as int).filter(wanted);
        let ghost times = reset_times(limits);
        assert(all.take(i + 1).drop_last() =~= all.take(i as int));
        assert(all.take(i + 1).last() == entry@);
        reveal(Seq::filter);
        let chosen: bool = match text(field(Some(entry), "type")) {
            Some(kind) => same_text(kind, "TOKENS_LIMIT"),
            None => false,
        };
        if chosen {
            let time: i64 = match number(field(Some(entry), "nextResetTime")) {
                Some(time) => time,
                None => i64::MAX,
            };
            let ghost longer = limits.push(entry@);
            assert(reset_times(longer) =~= times.push(time));
            assert(times.push(time).drop_last() =~= times);
            proof {
                if limits.len() > 0 {
                    lemma_first_least(times);
                    lemma_last_greatest(times);
                }
            }
            shown = match shown {
                None => {
                    first_time = time;
                    last_time = time;
                    Some((entry, entry))
                },
                Some((first, last)) => {
                    let new_first: &Json = if time < first_time {
                        first_time = time;
                        entry
                    } else {
                        first
                    };
                    let new_last: &Json = if time >= last_time {
                        last_time = time;
                        entry
                    } else {
                        last
                    };
                    Some((new_first, new_last))
                },
            };
        }
        i = i + 1;
    }
    assert(all.take(all.len() as int) =~= all);
    shown
}

/// The percentage that is used of a limit.
fn used(limit: &Json) -> (percentage: i64)
    ensures
        percentage == used_percentage(limit@),
{
    match number(field(Some(limit), "percentage")) {
        Some(percentage) => percentage,
        None => 100,
    }
}

/// Whether what is left of the limits of an answer fits in 64 bits.
pub fn is_glm_in_range(payload: &Json) -> (fits: bool)
    ensures
        fits == glm_in_range(payload@),
{
    match shown_limits(payload) {
        Some((first, last)) => {
            100 - used(first) as i128 <= i64::MAX as i128 && 100 - used(last) as i128
                <= i64::MAX as i128
        },
        None => true,
    }
}

/// The GLM line of an answer.
pub fn glm_report(payload: &Json) -> (line: QuotaLine)
    requires
        glm_in_range(payload@),
    ensures
        line@ == glm_text(payload@),
{
    let plan: Option<String> = match text(field(field(Some(payload), "data"), "level")) {
        Some(level) => Some(level.to_owned()),
        None => None,
    };
    let value: String = match shown_limits(payload) {
        Some((first, last)) => two_windows_text(
            percent_text(100 - used(first)).as_str(),
            percent_text(100 - used(last)).as_str(),
        ),
        None => "暂无额度".to_owned(),
    };
    QuotaLine { provider: "GLM", value, plan }
}

/// The GLM line of what came of asking; `None` where the answer holds a
/// percentage beyond 64 bits.
pub fn glm_line(fetched: Fetched) -> (line: Option<QuotaLine>)
    ensures
        match fetched {
            Fetched::NoKey => line matches Some(l) && l@ == glm_notice("未配置"@),
            Fetched::Failed => line matches Some(l) && l@ == glm_notice("读取失败"@),
            Fetched::Body(body) => match json_from_bytes(body@) {
                None => line matches Some(l) && l@ == glm_notice("读取失败"@),
                Some(payload) => match line {
                    Some(l) => glm_in_range(payload) && l@ == glm_text(payload),
                    None => !glm_in_range(payload),
                },
            },
        },
{
    let failed: QuotaLine = QuotaLine { provider: "GLM", value: "读取失败".to_owned(), plan: None };
    match fetched {
        Fetched::NoKey => Some(
            QuotaLine { provider: "GLM", value: "未配置".to_owned(), plan: None },
        ),
        Fetched::Failed => Some(failed),
        Fetched::Body(body) => match parse_json(body.as_slice()) {
            None => Some(failed),
            Some(payload) => if is_glm_in_range(&payload) {
                Some(glm_report(&payload))
            } else {
                None
            },
        },
    }
}

/// A limit resets no later than another: both say when, and the one says no
/// later, or the other does not say, which counts as the end of time.
pub open spec fn resets_no_later(limit: JsonValue, other: JsonValue) -> bool {
    match (
        number_in(field_in(Some(limit), "nextResetTime"@)),
        number_in(field_in(Some(other), "nextResetTime"@)),
    ) {
        (Some(time), Some(other_time)) => time <= other_time,
        (Some(_), None) => true,
        (None, Some(other_time)) => other_time == i64::MAX,
        (None, None) => true,
    }
}

/// What is left of a limit and the percentage that it states as used add up to
/// a hundred; of a limit that states none, nothing is left.
pub open spec fn is_share_of(share: int, limit: JsonValue) -> bool {
    match number_in(field_in(Some(limit), "percentage"@)) {
        Some(used) => share + used == 100,
        None => share == 0,
    }
}

/// The first and the last position among the entries that limit tokens, by the
/// time of their reset; of those that reset at the same time, the earlier entry
/// comes first.
pub open spec fn are_ends(entries: Seq<JsonValue>, first: int, last: int) -> bool {
    &&& 0 <= first < entries.len()
    &&& 0 <= last < entries.len()
    &&& text_in(field_in(Some(entries[first]), "type"@)) == Some("TOKENS_LIMIT"@)
    &&& text_in(field_in(Some(entries[last]), "type"@)) == Some("TOKENS_LIMIT"@)
    &&& forall|k: int|
        0 <= k < entries.len() && text_in(field_in(Some(#[trigger] entries[k]), "type"@)) == Some(
            "TOKENS_LIMIT"@,
        ) ==> {
            &&& resets_no_later(entries[first], entries[k])
            &&& resets_no_later(entries[k], entries[first]) ==> first <= k
            &&& resets_no_later(entries[k], entries[last])
            &&& resets_no_later(entries[last], entries[k]) ==> k <= last
        }
}

/// A filtered list has the item at a position at the position that many kept
/// items stand before.
proof fn lemma_filter_at(
    list: Seq<JsonValue>,
    kept: spec_fn(JsonValue) -> bool,
    at: int,
) -> (place: int)
    requires
        0 <= at < list.len(),
        kept(list[at]),
    ensures
        0 <= place < list.filter(kept).len(),
        list.filter(kept)[place] == list[at],
        place == list.take(at).filter(kept).len(),
    decreases list.len(),
{
    reveal(Seq::filter);
    let shorter = list.drop_last();
    if at < list.len() - 1 {
        let place = lemma_filter_at(shorter, kept, at);
        assert(shorter.take(at) =~= list.take(at));
        assert(list.filter(kept)[place] == shorter.filter(kept)[place]);
        place
    } else {
        assert(list.take(at) =~= shorter);
        shorter.filter(kept).len() as int
    }
}

/// What a filtered list has at a position stands in the list.
proof fn lemma_filter_from(
    list: Seq<JsonValue>,
    kept: spec_fn(JsonValue) -> bool,
    place: int,
) -> (at: int)
    requires
        0 <= place < list.filter(kept).len(),
    ensures
        0 <= at < list.len(),
        kept(list[at]),
        list.filter(kept)[place] == list[at],
        place == list.take(at).filter(kept).len(),
    decreases list.len(),
{
    reveal(Seq::filter);
    let shorter = list.drop_last();
    if place < shorter.filter(kept).len() {
        let at = lemma_filter_from(shorter, kept, place);
        assert(shorter.take(at) =~= list.take(at));
        assert(list.filter(kept)[place] == shorter.filter(kept)[place]);
        at
    } else {
        assert(list.take(list.len() - 1) =~= shorter);
        list.len() - 1
    }
}

/// The longer part of a list keeps no fewer items.
proof fn lemma_filter_grows(
    list: Seq<JsonValue>,
    kept: spec_fn(JsonValue) -> bool,
    low: int,
    high: int,
)
    requires
        0 <= low <= high <= list.len(),
    ensures
        list.take(low).filter(kept).len() <= list.take(high).filter(kept).len(),
    decreases high - low,
{
    if low < high {
        reveal(Seq::filter);
        assert(list.take(high).drop_last() =~= list.take(high - 1));
        lemma_filter_grows(list, kept, low, high - 1);
    }
}

/// The ends of the entries are the limits that are picked.
proof fn lemma_ends_are_picked(payload: JsonValue, entries: Seq<JsonValue>, first: int, last: int)
    requires
        list_in(field_in(field_in(Some(payload), "data"@), "limits"@)) == Some(entries),
        are_ends(entries, first, last),
    ensures
        token_limits(payload).len() > 0,
        soonest(token_limits(payload)) == entries[first],
        latest(token_limits(payload)) == entries[last],
{
    let kept = |entry: JsonValue| is_token_limit(entry);
    let limits = token_limits(payload);
    let keys = reset_times(limits);
    let a = lemma_filter_at(entries, kept, first);
    let b = lemma_filter_at(entries, kept, last);
    lemma_first_least(keys);
    lemma_last_greatest(keys);
    let low = first_least(keys);
    let high = last_greatest(keys);
    let i = lemma_filter_from(entries, kept, low);
    let j = lemma_filter_from(entries, kept, high);
    assert(keys[a] == reset_time(entries[first]));
    assert(keys[b] == reset_time(entries[last]));
    assert(keys[low] == reset_time(entries[i]));
    assert(keys[high] == reset_time(entries[j]));
    assert(is_token_limit(entries[i]) && is_token_limit(entries[j]));
    assert(resets_no_later(entries[first], entries[i]));
    assert(resets_no_later(entries[j], entries[last]));
    assert(keys[low] <= keys[a] && keys[b] <= keys[high]);
    assert(keys[low] == keys[a] && keys[b] == keys[high]);
    assert(resets_no_later(entries[i], entries[first]));
    assert(resets_no_later(entries[last], entries[j]));
    assert(first <= i && j <= last);
    lemma_filter_grows(entries, kept, first, i);
    lemma_filter_grows(entries, kept, j, last);
    assert(a <= low && high <= b);
    if a < low {
        assert(keys[low] < keys[a]);
    }
    if high < b {
        assert(keys[b] < keys[high]);
    }
}

/// The line shows what is left of the token limit that resets first as the
/// five-hour window, and of the one that resets last as the seven-day window,
/// as the entries state their resets and what is used of them; entries of other
/// kinds do not matter.
pub proof fn law_limits_that_reset_first_and_last_are_shown(
    payload: &Json,
    line: QuotaLine,
    entries: Seq<JsonValue>,
    first: int,
    last: int,
    five_hour: int,
    seven_day: int,
)
    requires
        call_ensures(glm_report, (payload,), line),
        list_in(field_in(field_in(Some(payload@), "data"@), "limits"@)) == Some(entries),
        are_ends(entries, first, last),
        is_share_of(five_hour, entries[first]),
        is_share_of(seven_day, entries[last]),
    ensures
        line@.provider == "GLM"@,
        line@.value == "5h "@ + (decimal(five_hour) + "%"@) + " / 7d "@ + (decimal(seven_day)
            + "%"@),
        line@.plan == text_in(field_in(field_in(Some(payload@), "data"@), "level"@)),
{
    lemma_ends_are_picked(payload@, entries, first, last);
}

/// Of two token limits that both state a number as their reset, the one with the
/// lesser number is not shown as the seven-day limit while the other is shown as
/// the five-hour one: the five-hour limit states no greater number than any
/// other, and the seven-day limit no lesser one.
pub proof fn law_stated_resets_are_ordered(
    payload: JsonValue,
    entries: Seq<JsonValue>,
    k: int,
    time: i64,
)
    requires
        list_in(field_in(field_in(Some(payload), "data"@), "limits"@)) == Some(entries),
        0 <= k < entries.len(),
        text_in(field_in(Some(entries[k]), "type"@)) == Some("TOKENS_LIMIT"@),
        number_in(field_in(Some(entries[k]), "nextResetTime"@)) == Some(time),
    ensures
        entries.contains(soonest(token_limits(payload))),
        entries.contains(latest(token_limits(payload))),
        number_in(field_in(Some(soonest(token_limits(payload))), "nextResetTime"@)) matches Some(
            least,
        ) ==> least <= time,
        number_in(field_in(Some(soonest(token_limits(payload))), "nextResetTime"@)) is None ==> time
            == i64::MAX,
        number_in(field_in(Some(latest(token_limits(payload))), "nextResetTime"@)) matches Some(
            greatest,
        ) ==> time <= greatest,
{
    let kept = |entry: JsonValue| is_token_limit(entry);
    let limits = token_limits(payload);
    let keys = reset_times(limits);
    let place = lemma_filter_at(entries, kept, k);
    lemma_first_least(keys);
    lemma_last_greatest(keys);
    let i = lemma_filter_from(entries, kept, first_least(keys));
    let j = lemma_filter_from(entries, kept, last_greatest(keys));
    assert(entries.contains(entries[i]) && entries.contains(entries[j]));
    assert(keys[place] == time);
    assert(keys[first_least(keys)] <= keys[place] <= keys[last_greatest(keys)]);
}

/// No entry of an answer limits tokens.
pub open spec fn limits_no_tokens(payload: JsonValue) -> bool {
    list_in(field_in(field_in(Some(payload), "data"@), "limits"@)) matches Some(entries)
        ==> forall|k: int|
        0 <= k < entries.len() ==> text_in(field_in(Some(#[trigger] entries[k]), "type"@)) != Some(
            "TOKENS_LIMIT"@,
        )
}

/// Where no entry limits tokens, no limit is picked.
proof fn lemma_no_limits(payload: JsonValue)
    requires
        limits_no_tokens(payload),
    ensures
        token_limits(payload).len() == 0,
{
    if token_limits(payload).len() > 0 {
        let entries = list_in(field_in(field_in(Some(payload), "data"@), "limits"@))->0;
        let k = lemma_filter_from(entries, |entry: JsonValue| is_token_limit(entry), 0);
        assert(is_token_limit(entries[k]));
    }
}

/// Without an entry that limits tokens, that is what the line shows.
pub proof fn law_no_token_limit_is_said(payload: &Json, line: QuotaLine)
    requires
        call_ensures(glm_report, (payload,), line),
        limits_no_tokens(payload@),
    ensures
        line@.provider == "GLM"@,
        line@.value == "暂无额度"@,
        line@.plan == text_in(field_in(field_in(Some(payload@), "data"@), "level"@)),
        glm_in_range(payload@),
{
    lemma_no_limits(payload@);
}

/// A line is there exactly where what is left of the two limits that are shown
/// fits in 64 bits, and then it is the line of the answer.
pub proof fn law_glm_line_comes_from_the_body(
    body: Vec<u8>,
    line: Option<QuotaLine>,
    payload: &Json,
    entries: Seq<JsonValue>,
    first: int,
    last: int,
    five_hour: int,
    seven_day: int,
    fits: bool,
)
    requires
        call_ensures(glm_line, (Fetched::Body(body),), line),
        json_from_bytes(body@) == Some(payload@),
        list_in(field_in(field_in(Some(payload@), "data"@), "limits"@)) == Some(entries),
        are_ends(entries, first, last),
        is_share_of(five_hour, entries[first]),
        is_share_of(seven_day, entries[last]),
        call_ensures(is_glm_in_range, (payload,), fits),
    ensures
        fits == (five_hour <= i64::MAX && seven_day <= i64::MAX),
        line is Some <==> fits,
        line matches Some(l) ==> l@.provider == "GLM"@ && l@.value == "5h "@ + (decimal(five_hour)
            + "%"@) + " / 7d "@ + (decimal(seven_day) + "%"@) && l@.plan == text_in(
            field_in(field_in(Some(payload@), "data"@), "level"@),
        ),
{
    lemma_ends_are_picked(payload@, entries, first, last);
}

/// Without an answer, the line says why; an answer without token limits always
/// has its line.
pub proof fn law_glm_line_without_limits(fetched: Fetched, line: Option<QuotaLine>)
    requires
        call_ensures(glm_line, (fetched,), line),
        fetched matches Fetched::Body(body) ==> (json_from_bytes(body@) matches Some(payload)
            ==> limits_no_tokens(payload)),
    ensures
        line matches Some(l) && l@.provider == "GLM"@,
        fetched is NoKey ==> line->0@.value == "未配置"@ && line->0@.plan is None,
        fetched is Failed ==> line->0@.value == "读取失败"@ && line->0@.plan is None,
        fetched matches Fetched::Body(body) ==> (match json_from_bytes(body@) {
            None => line->0@.value == "读取失败"@ && line->0@.plan is None,
            Some(payload) => line->0@.value == "暂无额度"@ && line->0@.plan == text_in(
                field_in(field_in(Some(payload), "data"@), "level"@),
            ),
        }),
{
    if fetched is Body {
        let content = json_from_bytes(fetched->Body_0@);
        if content is Some {
            lemma_no_limits(content->0);
        }
    }
}

}
