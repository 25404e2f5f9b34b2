//! The Kimi line: the plan of the account and what is left of its windows.
use vstd::prelude::*;
use vstd::string::*;

use crate::decimal::{decimal, decimal_text, law_decimal_grows_by_digits};
use crate::json::{
    field, field_in, items, list_in, list_view, number, number_in, seen, text, text_in, Json,
    JsonValue,
};
use crate::quota::{
    is_in_range, law_share_at_the_ends, law_share_is_what_is_left,
    law_use_beyond_the_limit_counts_as_the_limit, lemma_share_is_unique, percent, percent_left,
    quota_in_range, remaining, two_windows, two_windows_text, QuotaLine, QuotaText,
};
use crate::text::{
    contains_text, law_prefix_is_taken_off, occurs_at, occurs_in, optional_text, same_text, trim_prefix, without_prefix,
};

verus! {

/// The name under which a membership level is sold; a level without a name
/// goes by its own, without the `LEVEL_` before it.
pub open spec fn plan_name(level: Seq<char>) -> Seq<char> {
    if level == "LEVEL_FREE"@ {
        "Adagio"@
    } else if level == "LEVEL_TRIAL"@ {
        "Andante"@
    } else if level == "LEVEL_BASIC"@ {
        "Moderato"@
    } else if level == "LEVEL_INTERMEDIATE"@ {
        "Allegretto"@
    } else if level == "LEVEL_ADVANCED"@ {
        "Allegro"@
    } else {
        without_prefix(level, "LEVEL_"@)
    }
}

/// The plan in an answer.
pub open spec fn plan_in(payload: JsonValue) -> Option<Seq<char>> {
    match text_in(
        field_in(field_in(field_in(Some(payload), "user"@), "membership"@), "level"@),
    ) {
        Some(level) => Some(plan_name(level)),
        None => None,
    }
}

/// How much of a limit is used: as the quota says, or else what is not
/// remaining, or else nothing.
pub open spec fn used_amount(quota: Option<JsonValue>, limit: i64) -> int {
    match number_in(field_in(quota, "used"@)) {
        Some(used) => used as int,
        None => match number_in(field_in(quota, "remaining"@)) {
            Some(left) => limit - left,
            None => 0,
        },
    }
}

/// The share that is left of a quota that states a limit.
pub open spec fn share_in(quota: Option<JsonValue>) -> Option<Seq<char>> {
    match number_in(field_in(quota, "limit"@)) {
        Some(limit) => Some(percent(percent_left(used_amount(quota, limit), limit as int))),
        None => None,
    }
}

/// The share that is left of a quota can be computed in 64 bits.
pub open spec fn share_in_range(quota: Option<JsonValue>) -> bool {
    match number_in(field_in(quota, "limit"@)) {
        Some(limit) => {
            &&& i64::MIN <= used_amount(quota, limit) <= i64::MAX
            &&& quota_in_range(used_amount(quota, limit), limit as int)
        },
        None => true,
    }
}

/// The part of an entry that states its quota: its detail, if it has one.
pub open spec fn detail_in(entry: JsonValue) -> JsonValue {
    match field_in(Some(entry), "detail"@) {
        Some(detail) => detail,
        None => entry,
    }
}

/// The name of a window by its length: whole hours, where that is known.
pub open spec fn window_name(window: Option<JsonValue>) -> Seq<char> {
    let duration: int = match number_in(field_in(window, "duration"@)) {
        Some(duration) => duration as int,
        None => 0,
    };
    let unit: Seq<char> = match text_in(field_in(window, "timeUnit"@)) {
        Some(unit) => unit,
        None => Seq::empty(),
    };
    if occurs_in(unit, "MINUTE"@) && duration % 60 == 0 {
        decimal(duration / 60) + "h"@
    } else {
        "额度"@
    }
}

/// The name of an entry: its own, or else that of its detail, or else that of
/// its window.
pub open spec fn entry_name(entry: JsonValue) -> Seq<char> {
    match text_in(field_in(Some(entry), "name"@)) {
        Some(name) => name,
        None => match text_in(field_in(Some(detail_in(entry)), "name"@)) {
            Some(name) => name,
            None => window_name(field_in(Some(entry), "window"@)),
        },
    }
}

/// A window that can be shown: its name and the share that is left of it.
pub struct WindowText {
    pub name: Seq<char>,
    pub share: Seq<char>,
}

/// The windows of a list of entries: those that state a limit.
pub open spec fn entry_windows(entries: Seq<JsonValue>) -> Seq<WindowText>
    decreases entries.len(),
{
    if entries.len() == 0 {
        Seq::empty()
    } else {
        let before = entry_windows(entries.drop_last());
        match share_in(Some(detail_in(entries.last()))) {
            Some(share) => before.push(WindowText { name: entry_name(entries.last()), share }),
            None => before,
        }
    }
}

/// The entries in an answer.
pub open spec fn entries_in(payload: JsonValue) -> Seq<JsonValue> {
    match list_in(field_in(Some(payload), "limits"@)) {
        Some(entries) => entries,
        None => Seq::empty(),
    }
}

/// The windows in an answer: those of its entries, then the overall one.
pub open spec fn windows_in(payload: JsonValue) -> Seq<WindowText> {
    let windows = entry_windows(entries_in(payload));
    match share_in(field_in(Some(payload), "usage"@)) {
        Some(share) => windows.push(WindowText { name: "7d"@, share }),
        None => windows,
    }
}

/// The shares that are left in an answer can be computed in 64 bits.
pub open spec fn kimi_in_range(payload: JsonValue) -> bool {
    &&& forall|i: int|
        0 <= i < entries_in(payload).len() ==> share_in_range(
            Some(detail_in(#[trigger] entries_in(payload)[i])),
        )
    &&& share_in_range(field_in(Some(payload), "usage"@))
}

/// A window goes by one of two names.
pub open spec fn is_named(window: WindowText, name: Seq<char>, other: Seq<char>) -> bool {
    occurs_in(window.name, name) || occurs_in(window.name, other)
}

/// The first window that goes by one of two names.
pub open spec fn first_named(
    windows: Seq<WindowText>,
    name: Seq<char>,
    other: Seq<char>,
) -> Option<WindowText>
    decreases windows.len(),
{
    if windows.len() == 0 {
        None
    } else if is_named(windows[0], name, other) {
        Some(windows[0])
    } else {
        first_named(windows.skip(1), name, other)
    }
}

/// The five-hour window: the first of that name, or else the first of all.
pub open spec fn five_hour(windows: Seq<WindowText>) -> Option<WindowText> {
    match first_named(windows, "5h"@, "5H"@) {
        Some(window) => Some(window),
        None => if windows.len() > 0 {
            Some(windows[0])
        } else {
            None
        },
    }
}

/// The seven-day window: the first of that name, or else the second of all.
pub open spec fn seven_day(windows: Seq<WindowText>) -> Option<WindowText> {
    match first_named(windows, "7d"@, "7D"@) {
        Some(window) => Some(window),
        None => if windows.len() > 1 {
            Some(windows[1])
        } else {
            None
        },
    }
}

/// What a line shows of a list of windows.
pub open spec fn windows_value(windows: Seq<WindowText>) -> Seq<char> {
    match (five_hour(windows), seven_day(windows)) {
        (Some(short), Some(long)) => two_windows(short.share, long.share),
        (Some(short), None) => short.name + " "@ + short.share,
        _ => "暂无额度"@,
    }
}

/// The Kimi line of an answer.
pub open spec fn kimi_text(payload: JsonValue) -> QuotaText {
    QuotaText {
        provider: "KIMI"@,
        value: windows_value(windows_in(payload)),
        plan: plan_in(payload),
    }
}

/// Where no window goes by one of two names, none is found; where only the last
/// one does, it is found.
proof fn lemma_first_named_push(
    windows: Seq<WindowText>,
    window: WindowText,
    name: Seq<char>,
    other: Seq<char>,
)
    ensures
        first_named(windows.push(window), name, other) == (match first_named(windows, name, other) {
            Some(found) => Some(found),
            None => if is_named(window, name, other) {
                Some(window)
            } else {
                None
            },
        }),
    decreases windows.len(),
{
    let all = windows.push(window);
    if windows.len() == 0 {
        assert(first_named(all.skip(1), name, other) is None);
    } else if !is_named(windows[0], name, other) {
        lemma_first_named_push(windows.skip(1), window, name, other);
        assert(all.skip(1) =~= windows.skip(1).push(window));
    }
}

/// A window that is found by its name is one of the windows, and goes by one of
/// the names.
proof fn lemma_first_named_member(windows: Seq<WindowText>, name: Seq<char>, other: Seq<char>)
    ensures
        first_named(windows, name, other) matches Some(window) ==> windows.contains(window)
            && is_named(window, name, other),
    decreases windows.len(),
{
    if windows.len() > 0 {
        let rest = windows.skip(1);
        lemma_first_named_member(rest, name, other);
        if is_named(windows[0], name, other) {
            assert(windows.contains(windows[0]));
        } else if first_named(rest, name, other) is Some {
            let k = rest.index_of(first_named(rest, name, other)->0);
            assert(windows[k + 1] == rest[k]);
        }
    }
}

/// Wherever there is a window, one is shown as the five-hour window, and
/// wherever there are two, one is shown as the seven-day window; what is shown
/// is always one of the windows.
pub proof fn law_windows_are_shown(windows: Seq<WindowText>)
    ensures
        five_hour(windows) is Some <==> windows.len() > 0,
        windows.len() > 1 ==> seven_day(windows) is Some,
        five_hour(windows) matches Some(window) ==> windows.contains(window),
        seven_day(windows) matches Some(window) ==> windows.contains(window),
{
    lemma_first_named_member(windows, "5h"@, "5H"@);
    lemma_first_named_member(windows, "7d"@, "7D"@);
    if windows.len() > 0 {
        assert(windows.contains(windows[0]));
    } else {
        assert(first_named(windows, "5h"@, "5H"@) is None);
    }
    if windows.len() > 1 {
        assert(windows.contains(windows[1]));
    }
}

/// An overall usage that states a limit is shown as the seven-day window, unless
/// an entry goes by that name.
pub proof fn law_overall_usage_is_the_seven_day_window(payload: JsonValue, share: Seq<char>)
    requires
        share_in(field_in(Some(payload), "usage"@)) == Some(share),
        first_named(entry_windows(entries_in(payload)), "7d"@, "7D"@) is None,
    ensures
        seven_day(windows_in(payload)) == Some(WindowText { name: "7d"@, share }),
{
    let overall = WindowText { name: "7d"@, share };
    assert("7d"@.subrange(0, "7d"@.len() as int) =~= "7d"@);
    assert(occurs_at(overall.name, "7d"@, 0));
    lemma_first_named_push(entry_windows(entries_in(payload)), overall, "7d"@, "7D"@);
}

/// A window that can be shown.
pub struct Window {
    pub name: String,
    pub share: String,
}

impl View for Window {
    type V = WindowText;

    open spec fn view(&self) -> WindowText {
        WindowText { name: self.name@, share: self.share@ }
    }
}

/// What each window of a list says.
pub open spec fn window_texts(windows: Seq<Window>) -> Seq<WindowText> {
    windows.map_values(|window: Window| window@)
}

/// The name under which a membership level is sold.
pub fn plan_text(level: &str) -> (name: String)
    ensures
        name@ == plan_name(level@),
{
    if same_text(level, "LEVEL_FREE") {
        "Adagio".to_owned()
    } else if same_text(level, "LEVEL_TRIAL") {
        "Andante".to_owned()
    } else if same_text(level, "LEVEL_BASIC") {
        "Moderato".to_owned()
    } else if same_text(level, "LEVEL_INTERMEDIATE") {
        "Allegretto".to_owned()
    } else if same_text(level, "LEVEL_ADVANCED") {
        "Allegro".to_owned()
    } else {
        trim_prefix(level, "LEVEL_")
    }
}

/// Whether the share that is left of a quota can be computed in 64 bits.
fn is_share_in_range(quota: Option<&Json>) -> (fits: bool)
    ensures
        fits == share_in_range(seen(quota)),
{
    match number(field(quota, "limit")) {
        Some(limit) => {
            let used: i128 = match number(field(quota, "used")) {
                Some(used) => used as i128,
                None => match number(field(quota, "remaining")) {
                    Some(left) => limit as i128 - left as i128,
                    None => 0,
                },
            };
            i64::MIN as i128 <= used && used <= i64::MAX as i128 && is_in_range(used as i64, limit)
        },
        None => true,
    }
}

/// The share that is left of a quota that states a limit.
fn share(quota: Option<&Json>) -> (shown: Option<String>)
    requires
        share_in_range(seen(quota)),
    ensures
        optional_text(shown) == share_in(seen(quota)),
{
    match number(field(quota, "limit")) {
        Some(limit) => {
            let used: i64 = match number(field(quota, "used")) {
                Some(used) => used,
                None => match number(field(quota, "remaining")) {
                    Some(left) => limit - left,
                    None => 0,
                },
            };
            Some(remaining(used, limit))
        },
        None => None,
    }
}

/// The part of an entry that states its quota.
fn detail(entry: &Json) -> (part: &Json)
    ensures
        part@ == detail_in(entry@),
{
    match field(Some(entry), "detail") {
        Some(part) => part,
        None => entry,
    }
}

/// The name of a window by its length.
fn name_by_length(window: Option<&Json>) -> (name: String)
    ensures
        name@ == window_name(seen(window)),
{
    let duration: i64 = match number(field(window, "duration")) {
        Some(duration) => duration,
        None => 0,
    };
    let in_minutes: bool = match text(field(window, "timeUnit")) {
        Some(unit) => contains_text(unit, "MINUTE"),
        None => contains_text("", "MINUTE"),
    };
    proof {
        reveal_strlit("");
        assert(""@ =~= Seq::<char>::empty());
    }
    if in_minutes && duration % 60 == 0 {
        let mut name = decimal_text(duration / 60);
        name.append("h");
        name
    } else {
        "额度".to_owned()
    }
}

/// The name of an entry.
fn name_of(entry: &Json) -> (name: String)
    ensures
        name@ == entry_name(entry@),
{
    match text(field(Some(entry), "name")) {
        Some(name) => name.to_owned(),
        None => match text(field(Some(detail(entry)), "name")) {
            Some(name) => name.to_owned(),
            None => name_by_length(field(Some(entry), "window")),
        },
    }
}

/// Whether the shares that are left in an answer can be computed in 64 bits.
pub fn is_kimi_in_range(payload: &Json) -> (fits: bool)
    ensures
        fits == kimi_in_range(payload@),
{
    match items(field(Some(payload), "limits")) {
        Some(entries) => {
            let mut i: usize = 0;
            while i < entries.len()
                invariant
                    i <= entries@.len(),
                    entries_in(payload@) == list_view(entries@),
                    forall|j: int|
                        0 <= j < i ==> share_in_range(
                            Some(detail_in(#[trigger] entries_in(payload@)[j])),
                        ),
                decreases entries@.len() - i,
            {
                assert(entries_in(payload@)[i as int] == entries@[i as int]@);
                if !is_share_in_range(Some(detail(&entries[i]))) {
                    return false;
                }
                i = i + 1;
            }
        },
        None => {},
    }
    is_share_in_range(field(Some(payload), "usage"))
}

/// The windows in an answer.
fn windows(payload: &Json) -> (list: Vec<Window>)
    requires
        kimi_in_range(payload@),
    ensures
        window_texts(list@) == windows_in(payload@),
{
    let mut list: Vec<Window> = Vec::new();
    let ghost all = entries_in(payload@);
    assert(window_texts(list@) =~= entry_windows(all.take(0)));
    match items(field(Some(payload), "limits")) {
        Some(entries) => {
            let mut i: usize = 0;
            while i < entries.len()
                invariant
                    i <= entries@.len(),
                    all == entries_in(payload@),
                    all == list_view(entries@),
                    kimi_in_range(payload@),
                    window_texts(list@) == entry_windows(all.take(i as int)),
                decreases entries@.len() - i,
            {
                let entry: &Json = &entries[i];
                let ghost before = list@;
                assert(entries_in(payload@)[i as int] == entry@);
                assert(all.take(i + 1).drop_last() =~= all.take(i as int));
                let name = name_of(entry);
                match share(Some(detail(entry))) {
                    Some(share) => {
                        list.push(Window { name, share });
                        assert(window_texts(list@) =~= window_texts(before).push(list@.last()@));
                    },
                    None => {},
                }
                i = i + 1;
            }
        },
        None => {},
    }
    assert(all.take(all.len() as int) =~= all);
    match share(field(Some(payload), "usage")) {
        Some(share) => {
            let ghost before = list@;
            list.push(Window { name: "7d".to_owned(), share });
            assert(window_texts(list@) =~= window_texts(before).push(list@.last()@));
        },
        None => {},
    }
    list
}

/// The first window that goes by one of two names.
fn find_named<'a>(list: &'a Vec<Window>, name: &str, other: &str) -> (found: Option<&'a Window>)
    ensures
        first_named(window_texts(list@), name@, other@) == (match found {
            Some(window) => Some(window@),
            None => None::<WindowText>,
        }),
{
    let ghost all = window_texts(list@);
    let mut i: usize = 0;
    assert(all.skip(0) =~= all);
    while i < list.len()
        invariant
            i <= list@.len(),
            all == window_texts(list@),
            first_named(all, name@, other@) == first_named(all.skip(i as int), name@, other@),
        decreases list@.len() - i,
    {
        let window: &Window = &list[i];
        assert(all.skip(i as int)[0] == window@);
        assert(all.skip(i as int).skip(1) =~= all.skip(i + 1));
        if contains_text(window.name.as_str(), name) || contains_text(window.name.as_str(), other) {
            return Some(window);
        }
        i = i + 1;
    }
    None
}

/// What a line shows of a list of windows.
pub fn windows_text(list: &Vec<Window>) -> (shown: String)
    ensures
        shown@ == windows_value(window_texts(list@)),
{
    let short: Option<&Window> = match find_named(list, "5h", "5H") {
        Some(window) => Some(window),
        None => if list.len() > 0 {
            Some(&list[0])
        } else {
            None
        },
    };
    let long: Option<&Window> = match find_named(list, "7d", "7D") {
        Some(window) => Some(window),
        None => if list.len() > 1 {
            Some(&list[1])
        } else {
            None
        },
    };
    match (short, long) {
        (Some(short), Some(long)) => two_windows_text(short.share.as_str(), long.share.as_str()),
        (Some(short), None) => {
            let mut shown: String = short.name.clone();
            shown.append(" ");
            shown.append(short.share.as_str());
            shown
        },
        _ => "暂无额度".to_owned(),
    }
}

/// The Kimi line of an answer.
pub fn kimi_report(payload: &Json) -> (line: QuotaLine)
    requires
        kimi_in_range(payload@),
    ensures
        line@ == kimi_text(payload@),
{
    let plan: Option<String> = match text(
        field(field(field(Some(payload), "user"), "membership"), "level"),
    ) {
        Some(level) => Some(plan_text(level)),
        None => None,
    };
    QuotaLine { provider: "KIMI", value: windows_text(&windows(payload)), plan }
}

/// A level without `LEVEL_` before it is its own name, and one with it has the
/// name of what follows, unless it is sold under a name of its own.
pub proof fn law_level_is_named(level: &str, name: String, rest: Seq<char>)
    requires
        call_ensures(plan_text, (level,), name),
    ensures
        level@ == "LEVEL_FREE"@ ==> name@ == "Adagio"@,
        level@ == "LEVEL_TRIAL"@ ==> name@ == "Andante"@,
        level@ == "LEVEL_BASIC"@ ==> name@ == "Moderato"@,
        level@ == "LEVEL_INTERMEDIATE"@ ==> name@ == "Allegretto"@,
        level@ == "LEVEL_ADVANCED"@ ==> name@ == "Allegro"@,
        !"LEVEL_"@.is_prefix_of(level@) ==> name@ == level@,
        level@ == "LEVEL_"@ + rest && rest != "FREE"@ && rest != "TRIAL"@ && rest != "BASIC"@
            && rest != "INTERMEDIATE"@ && rest != "ADVANCED"@ ==> name@ == without_prefix(
            rest,
            "LEVEL_"@,
        ),
{
    reveal_strlit("LEVEL_");
    reveal_strlit("FREE");
    reveal_strlit("TRIAL");
    reveal_strlit("BASIC");
    reveal_strlit("INTERMEDIATE");
    reveal_strlit("ADVANCED");
    reveal_strlit("LEVEL_FREE");
    reveal_strlit("LEVEL_TRIAL");
    reveal_strlit("LEVEL_BASIC");
    reveal_strlit("LEVEL_INTERMEDIATE");
    reveal_strlit("LEVEL_ADVANCED");
    assert("LEVEL_FREE"@ =~= "LEVEL_"@ + "FREE"@);
    assert("LEVEL_TRIAL"@ =~= "LEVEL_"@ + "TRIAL"@);
    assert("LEVEL_BASIC"@ =~= "LEVEL_"@ + "BASIC"@);
    assert("LEVEL_INTERMEDIATE"@ =~= "LEVEL_"@ + "INTERMEDIATE"@);
    assert("LEVEL_ADVANCED"@ =~= "LEVEL_"@ + "ADVANCED"@);
    assert("LEVEL_FREE"@.len() == 10 && "LEVEL_TRIAL"@.len() == 11 && "LEVEL_BASIC"@.len() == 11);
    assert("LEVEL_INTERMEDIATE"@.len() == 18 && "LEVEL_ADVANCED"@.len() == 14);
    assert("LEVEL_TRIAL"@[6] == 'T' && "LEVEL_BASIC"@[6] == 'B');
    lemma_prefixed("FREE"@);
    lemma_prefixed("TRIAL"@);
    lemma_prefixed("BASIC"@);
    lemma_prefixed("INTERMEDIATE"@);
    lemma_prefixed("ADVANCED"@);
    law_prefix_is_taken_off("LEVEL_"@, level@);
    if level@ == "LEVEL_"@ + rest {
        law_prefix_is_taken_off("LEVEL_"@, rest);
        assert(rest =~= level@.skip(6));
        assert("FREE"@ =~= "LEVEL_FREE"@.skip(6));
        assert("TRIAL"@ =~= "LEVEL_TRIAL"@.skip(6));
        assert("BASIC"@ =~= "LEVEL_BASIC"@.skip(6));
        assert("INTERMEDIATE"@ =~= "LEVEL_INTERMEDIATE"@.skip(6));
        assert("ADVANCED"@ =~= "LEVEL_ADVANCED"@.skip(6));
    }
}

/// What follows the prefix of a level has it as its prefix.
proof fn lemma_prefixed(rest: Seq<char>)
    ensures
        "LEVEL_"@.is_prefix_of("LEVEL_"@ + rest),
{
    assert(("LEVEL_"@ + rest).subrange(0, "LEVEL_"@.len() as int) =~= "LEVEL_"@);
}

/// What a quota states as used: the amount itself, or else the limit without
/// what is stated as remaining, or else nothing.
pub open spec fn states_used(quota: JsonValue, limit: i64, used: int) -> bool {
    match (
        number_in(field_in(Some(quota), "used"@)),
        number_in(field_in(Some(quota), "remaining"@)),
    ) {
        (Some(amount), _) => used == amount,
        (None, Some(left)) => used + left == limit,
        (None, None) => used == 0,
    }
}

/// Of a quota that states a limit, and as used no more than that, the share that
/// is shown is as many whole hundredths of the limit as are left.
pub proof fn law_quota_shows_what_is_left(quota: JsonValue, limit: i64, used: int, share: int)
    requires
        number_in(field_in(Some(quota), "limit"@)) == Some(limit),
        states_used(quota, limit, used),
        0 <= limit,
    ensures
        0 <= used <= limit && 0 < limit && share * limit <= (limit - used) * 100 < (share + 1)
            * limit ==> share_in(Some(quota)) == Some(decimal(share) + "%"@),
        used > limit ==> share_in(Some(quota)) == Some("0%"@),
        limit == 0 ==> share_in(Some(quota)) == Some("0%"@),
        used < 0 && 0 < limit ==> share_in(Some(quota)) == Some("100%"@),
{
    reveal_strlit("%");
    reveal_strlit("0%");
    reveal_strlit("100%");
    law_decimal_grows_by_digits(1, 0);
    law_decimal_grows_by_digits(10, 0);
    law_decimal_grows_by_digits(0, 1);
    assert(decimal(1) =~= seq!['1']);
    assert(decimal(10) =~= seq!['1', '0']);
    assert(decimal(100) =~= seq!['1', '0', '0']);
    assert(decimal(0) =~= seq!['0']);
    assert(decimal(0) + "%"@ =~= "0%"@);
    assert(decimal(100) + "%"@ =~= "100%"@);
    law_use_beyond_the_limit_counts_as_the_limit(used, limit as int);
    if 0 < limit {
        law_share_at_the_ends(used, limit as int);
        if 0 <= used <= limit && share * limit <= (limit - used) * 100 < (share + 1) * limit {
            law_share_is_what_is_left(used, limit as int);
            lemma_share_is_unique(
                share,
                percent_left(used, limit as int),
                limit as int,
                (limit - used) * 100,
            );
        }
    }
}

/// A quota without a limit is not shown, nor is one that is not there.
pub proof fn law_quota_needs_a_limit(quota: Option<JsonValue>)
    ensures
        share_in(quota) is None <==> number_in(field_in(quota, "limit"@)) is None,
{
}

/// The share of a quota can be computed exactly where the amount that it states
/// as used is a 64-bit integer and in range of its limit.
pub proof fn law_range_of_a_quota(quota: JsonValue, limit: i64, used: int)
    requires
        number_in(field_in(Some(quota), "limit"@)) == Some(limit),
        states_used(quota, limit, used),
    ensures
        share_in_range(Some(quota)) <==> i64::MIN <= used <= i64::MAX && 0 <= limit && i64::MIN
            <= limit - used <= i64::MAX && (limit * 100 <= i64::MAX || (limit - used) * 100
            <= i64::MAX),
{
}

/// A quota without a limit is always in range.
pub proof fn law_no_limit_is_in_range(quota: Option<JsonValue>)
    requires
        number_in(field_in(quota, "limit"@)) is None,
    ensures
        share_in_range(quota),
{
}

/// An answer is in range exactly where the quotas of all its entries and its
/// overall quota are.
pub proof fn law_range_of_an_answer(payload: &Json, fits: bool, entries: Seq<JsonValue>)
    requires
        call_ensures(is_kimi_in_range, (payload,), fits),
        match list_in(field_in(Some(payload@), "limits"@)) {
            Some(list) => entries == list,
            None => entries.len() == 0,
        },
    ensures
        fits == kimi_in_range(payload@),
        fits <==> share_in_range(field_in(Some(payload@), "usage"@)) && forall|i: int|
            0 <= i < entries.len() ==> share_in_range(
                Some(
                    match field_in(Some(#[trigger] entries[i]), "detail"@) {
                        Some(detail) => detail,
                        None => entries[i],
                    },
                ),
            ),
{
    let all = entries_in(payload@);
    assert(all =~= entries);
    if forall|i: int|
        0 <= i < entries.len() ==> share_in_range(
            Some(
                match field_in(Some(#[trigger] entries[i]), "detail"@) {
                    Some(detail) => detail,
                    None => entries[i],
                },
            ),
        ) {
        assert forall|i: int| 0 <= i < all.len() implies share_in_range(
            Some(detail_in(#[trigger] all[i])),
        ) by {
            assert(all[i] == entries[i]);
        }
    } else {
        let i = choose|i: int|
            0 <= i < entries.len() && !share_in_range(
                Some(
                    match field_in(Some(#[trigger] entries[i]), "detail"@) {
                        Some(detail) => detail,
                        None => entries[i],
                    },
                ),
            );
        assert(!share_in_range(Some(detail_in(all[i]))));
    }
}

/// A window of whole hours, given in minutes, goes by its hours; any other has
/// the general name.
pub proof fn law_window_is_named_by_its_hours(
    window: JsonValue,
    before: Seq<char>,
    after: Seq<char>,
    hours: int,
    minutes: i64,
)
    requires
        text_in(field_in(Some(window), "timeUnit"@)) == Some(before + "MINUTE"@ + after),
        number_in(field_in(Some(window), "duration"@)) == Some(minutes),
    ensures
        minutes == hours * 60 ==> window_name(Some(window)) == decimal(hours) + "h"@,
        minutes % 60 != 0 ==> window_name(Some(window)) == "额度"@,
{
    let unit = before + "MINUTE"@ + after;
    let at = before.len() as int;
    assert(unit.subrange(at, at + "MINUTE"@.len()) =~= "MINUTE"@);
    assert(occurs_at(unit, "MINUTE"@, at));
}

/// A window that is not given in minutes has the general name; one in minutes
/// that states no length counts as one of none.
pub proof fn law_window_in_other_units(window: Option<JsonValue>)
    ensures
        text_in(field_in(window, "timeUnit"@)) is None ==> window_name(window) == "额度"@,
        text_in(field_in(window, "timeUnit"@)) matches Some(unit) ==> !occurs_in(unit, "MINUTE"@)
            ==> window_name(window) == "额度"@,
        text_in(field_in(window, "timeUnit"@)) matches Some(unit) ==> occurs_in(unit, "MINUTE"@)
            && number_in(field_in(window, "duration"@)) is None ==> window_name(window) == decimal(
            0,
        ) + "h"@,
{
    reveal_strlit("MINUTE");
    assert forall|i: int| !occurs_at(Seq::<char>::empty(), "MINUTE"@, i) by {
        assert("MINUTE"@.len() == 6);
    }
}

/// An entry goes by its own name, or else by that of its detail, or else by that
/// of its window.
pub proof fn law_entry_goes_by_its_name(entry: JsonValue, name: Seq<char>)
    ensures
        text_in(field_in(Some(entry), "name"@)) == Some(name) ==> entry_name(entry) == name,
        text_in(field_in(Some(entry), "name"@)) is None && text_in(
            field_in(field_in(Some(entry), "detail"@), "name"@),
        ) == Some(name) ==> entry_name(entry) == name,
        text_in(field_in(Some(entry), "name"@)) is None && text_in(
            field_in(field_in(Some(entry), "detail"@), "name"@),
        ) is None ==> entry_name(entry) == window_name(field_in(Some(entry), "window"@)),
{
}

/// The quota of an entry is stated by its detail where it has one, and by itself
/// where it has none.
pub proof fn law_detail_states_the_quota(entry: JsonValue)
    ensures
        field_in(Some(entry), "detail"@) matches Some(detail) ==> detail_in(entry) == detail,
        field_in(Some(entry), "detail"@) is None ==> detail_in(entry) == entry,
{
}

/// An entry has one window where its quota states a limit, and none otherwise;
/// the windows of a list are those of its entries, in their order.
pub proof fn law_entries_have_their_windows(
    left: Seq<JsonValue>,
    right: Seq<JsonValue>,
    entry: JsonValue,
)
    ensures
        entry_windows(left + right) == entry_windows(left) + entry_windows(right),
        match share_in(Some(detail_in(entry))) {
            Some(share) => entry_windows(seq![entry]) == seq![
                WindowText { name: entry_name(entry), share },
            ],
            None => entry_windows(seq![entry]).len() == 0,
        },
    decreases right.len(),
{
    assert(seq![entry].drop_last() =~= Seq::<JsonValue>::empty());
    assert(entry_windows(seq![entry].drop_last()) =~= Seq::<WindowText>::empty());
    if share_in(Some(detail_in(entry))) is Some {
        assert(entry_windows(seq![entry]) =~= seq![
            WindowText { name: entry_name(entry), share: share_in(Some(detail_in(entry)))->0 },
        ]);
    }
    if right.len() == 0 {
        assert(left + right =~= left);
        assert(entry_windows(left + right) =~= entry_windows(left) + entry_windows(right));
    } else {
        assert((left + right).drop_last() =~= left + right.drop_last());
        law_entries_have_their_windows(left, right.drop_last(), entry);
        assert(entry_windows(left + right) =~= entry_windows(left) + entry_windows(right));
    }
}

/// The windows of an answer are those of its entries and, behind them, the
/// overall one, where its quota states a limit.
pub proof fn law_overall_window_stands_last(payload: JsonValue, entries: Seq<JsonValue>)
    requires
        match list_in(field_in(Some(payload), "limits"@)) {
            Some(list) => entries == list,
            None => entries.len() == 0,
        },
    ensures
        match share_in(field_in(Some(payload), "usage"@)) {
            Some(share) => windows_in(payload) == entry_windows(entries) + seq![
                WindowText { name: "7d"@, share },
            ],
            None => windows_in(payload) == entry_windows(entries),
        },
{
    assert(entries_in(payload) =~= entries);
    if share_in(field_in(Some(payload), "usage"@)) is Some {
        let share = share_in(field_in(Some(payload), "usage"@))->0;
        assert(windows_in(payload) =~= entry_windows(entries) + seq![
            WindowText { name: "7d"@, share },
        ]);
    }
}

/// A window has one of two texts in its name, and no window before it has.
pub open spec fn is_first_with(
    windows: Seq<WindowText>,
    at: int,
    name: Seq<char>,
    other: Seq<char>,
) -> bool {
    &&& 0 <= at < windows.len()
    &&& occurs_in(windows[at].name, name) || occurs_in(windows[at].name, other)
    &&& forall|i: int|
        0 <= i < at ==> !occurs_in((#[trigger] windows[i]).name, name) && !occurs_in(
            windows[i].name,
            other,
        )
}

/// No window has one of two texts in its name.
pub open spec fn is_none_with(
    windows: Seq<WindowText>,
    name: Seq<char>,
    other: Seq<char>,
) -> bool {
    forall|i: int|
        0 <= i < windows.len() ==> !occurs_in((#[trigger] windows[i]).name, name) && !occurs_in(
            windows[i].name,
            other,
        )
}

/// The first window with one of two names is found, and none where there is
/// none.
proof fn lemma_first_named(windows: Seq<WindowText>, name: Seq<char>, other: Seq<char>, at: int)
    ensures
        is_first_with(windows, at, name, other) ==> first_named(windows, name, other) == Some(
            windows[at],
        ),
        is_none_with(windows, name, other) ==> first_named(windows, name, other) is None,
    decreases windows.len(),
{
    if windows.len() > 0 {
        let rest = windows.skip(1);
        lemma_first_named(rest, name, other, at - 1);
        if is_none_with(windows, name, other) {
            assert(!is_named(windows[0], name, other));
            assert forall|i: int| 0 <= i < rest.len() implies !occurs_in(
                (#[trigger] rest[i]).name,
                name,
            ) && !occurs_in(rest[i].name, other) by {
                assert(rest[i] == windows[i + 1]);
            }
        }
        if is_first_with(windows, at, name, other) && at > 0 {
            assert(!is_named(windows[0], name, other));
            assert(rest[at - 1] == windows[at]);
            assert forall|i: int| 0 <= i < at - 1 implies !occurs_in(
                (#[trigger] rest[i]).name,
                name,
            ) && !occurs_in(rest[i].name, other) by {
                assert(rest[i] == windows[i + 1]);
            }
        }
    }
}

/// The line shows the first window that has `5h` or `5H` in its name, or else the
/// first of all, as the five-hour window, and the first that has `7d` or `7D` in
/// its name, or else the second of all, as the seven-day window. A lone window
/// of another name is shown by its name, and where there is none, that is said.
pub proof fn law_windows_are_picked_by_name_or_place(
    list: &Vec<Window>,
    shown: String,
    short: int,
    long: int,
)
    requires
        call_ensures(windows_text, (list,), shown),
    ensures
        ({
            let windows = window_texts(list@);
            let has_short = is_first_with(windows, short, "5h"@, "5H"@) || (is_none_with(
                windows,
                "5h"@,
                "5H"@,
            ) && short == 0 && windows.len() > 0);
            let has_long = is_first_with(windows, long, "7d"@, "7D"@) || (is_none_with(
                windows,
                "7d"@,
                "7D"@,
            ) && long == 1 && windows.len() > 1);
            &&& has_short && has_long ==> shown@ == "5h "@ + list@[short].share@ + " / 7d "@
                + list@[long].share@
            &&& has_short && windows.len() == 1 && is_none_with(windows, "7d"@, "7D"@) ==> shown@
                == list@[short].name@ + " "@ + list@[short].share@
            &&& windows.len() == 0 ==> shown@ == "暂无额度"@
        }),
{
    let windows = window_texts(list@);
    lemma_first_named(windows, "5h"@, "5H"@, short);
    lemma_first_named(windows, "7d"@, "7D"@, long);
    if windows.len() == 0 {
        assert(is_none_with(windows, "5h"@, "5H"@));
    }
    if 0 <= short < windows.len() {
        assert(windows[short] == list@[short]@);
    }
    if 0 <= long < windows.len() {
        assert(windows[long] == list@[long]@);
    }
}

/// The line of an answer shows its windows as a list of them is shown, with the
/// plan of the membership level, where the answer states one.
pub proof fn law_kimi_line_shows_the_answer(
    payload: &Json,
    line: QuotaLine,
    list: &Vec<Window>,
    shown: String,
    level: &str,
    name: String,
)
    requires
        call_ensures(kimi_report, (payload,), line),
        window_texts(list@) == windows_in(payload@),
        call_ensures(windows_text, (list,), shown),
        call_ensures(plan_text, (level,), name),
    ensures
        line@ == kimi_text(payload@),
        line@.provider == "KIMI"@,
        line@.value == shown@,
        text_in(
            field_in(field_in(field_in(Some(payload@), "user"@), "membership"@), "level"@),
        ) == Some(level@) ==> line@.plan == Some(name@),
        text_in(
            field_in(field_in(field_in(Some(payload@), "user"@), "membership"@), "level"@),
        ) is None ==> line@.plan is None,
{
}

}
