//! Text as sequences of characters: comparison, search, trimming, splitting
//! and joining.
use vstd::prelude::*;
use vstd::string::*;

verus! {

/// The contents of a list of strings.
pub open spec fn texts(strings: Seq<String>) -> Seq<Seq<char>> {
    strings.map_values(|s: String| s@)
}

/// The contents of an optional string.
pub open spec fn optional_text(string: Option<String>) -> Option<Seq<char>> {
    match string {
        Some(s) => Some(s@),
        None => None,
    }
}

/// `pattern` stands in `text` from position `i` on.
pub open spec fn occurs_at(text: Seq<char>, pattern: Seq<char>, i: int) -> bool {
    &&& 0 <= i
    &&& i + pattern.len() <= text.len()
    &&& text.subrange(i, i + pattern.len()) == pattern
}

/// `pattern` stands somewhere in `text`.
pub open spec fn occurs_in(text: Seq<char>, pattern: Seq<char>) -> bool {
    exists|i: int| occurs_at(text, pattern, i)
}

/// `text` without the copies of `prefix` at its start, however many there are.
pub open spec fn without_prefix(text: Seq<char>, prefix: Seq<char>) -> Seq<char>
    decreases text.len(),
{
    if prefix.len() > 0 && occurs_at(text, prefix, 0) {
        without_prefix(text.skip(prefix.len() as int), prefix)
    } else {
        text
    }
}

/// The parts of `text` between the separators, empty parts among them; a text
/// without separator is its own only part.
pub open spec fn parts(text: Seq<char>, separator: char) -> Seq<Seq<char>>
    decreases text.len(),
{
    if text.len() == 0 {
        seq![Seq::empty()]
    } else {
        let before = parts(text.drop_last(), separator);
        if text.last() == separator {
            before.push(Seq::empty())
        } else {
            before.drop_last().push(before.last().push(text.last()))
        }
    }
}

/// The texts one after the other, with `separator` between each two of them.
pub open spec fn joined(list: Seq<Seq<char>>, separator: Seq<char>) -> Seq<char>
    decreases list.len(),
{
    if list.len() == 0 {
        Seq::empty()
    } else if list.len() == 1 {
        list[0]
    } else {
        joined(list.drop_last(), separator) + separator + list.last()
    }
}

/// A text has at least one part.
proof fn lemma_some_part(text: Seq<char>, separator: char)
    ensures
        parts(text, separator).len() > 0,
    decreases text.len(),
{
    if text.len() > 0 {
        lemma_some_part(text.drop_last(), separator);
    }
}

/// The parts of a text, joined by the separator again, are the text.
pub proof fn law_parts_join_to_the_text(text: Seq<char>, separator: char)
    ensures
        joined(parts(text, separator), seq![separator]) == text,
    decreases text.len(),
{
    let all = parts(text, separator);
    if text.len() == 0 {
        assert(all[0] =~= text);
    } else {
        let before = parts(text.drop_last(), separator);
        law_parts_join_to_the_text(text.drop_last(), separator);
        lemma_some_part(text.drop_last(), separator);
        assert(text =~= text.drop_last().push(text.last()));
        if text.last() == separator {
            assert(all.drop_last() =~= before);
            assert(joined(all, seq![separator]) =~= joined(before, seq![separator]).push(
                separator,
            ));
        } else {
            assert(all.drop_last() =~= before.drop_last());
            assert(joined(all, seq![separator]) =~= joined(before, seq![separator]).push(
                text.last(),
            ));
        }
    }
}

/// No part of a text holds the separator.
pub proof fn lemma_parts_hold_no_separator(text: Seq<char>, separator: char)
    ensures
        forall|i: int|
            0 <= i < parts(text, separator).len() ==> !(#[trigger] parts(text, separator)[i]).contains(
                separator,
            ),
    decreases text.len(),
{
    if text.len() > 0 {
        let all = parts(text, separator);
        let before = parts(text.drop_last(), separator);
        lemma_some_part(text.drop_last(), separator);
        lemma_parts_hold_no_separator(text.drop_last(), separator);
        assert forall|i: int| 0 <= i < all.len() implies !(#[trigger] all[i]).contains(
            separator,
        ) by {
            if i < before.len() - 1 {
                assert(all[i] == before[i]);
            } else if text.last() != separator {
                let last = before.last();
                assert(!last.contains(separator));
                assert(all[i] == last.push(text.last()));
                if all[i].contains(separator) {
                    let k = all[i].index_of(separator);
                    assert(k < last.len());
                    assert(last[k] == separator);
                }
            } else if i == before.len() - 1 {
                assert(all[i] == before[i]);
            }
        }
    }
}

/// What holds of all items of a list holds of all items that a filter keeps.
proof fn lemma_filter_keeps(
    list: Seq<Seq<char>>,
    kept: spec_fn(Seq<char>) -> bool,
    property: spec_fn(Seq<char>) -> bool,
)
    requires
        forall|i: int| 0 <= i < list.len() ==> property(#[trigger] list[i]),
    ensures
        forall|i: int|
            0 <= i < list.filter(kept).len() ==> kept(#[trigger] list.filter(kept)[i]) && property(
                list.filter(kept)[i],
            ),
    decreases list.len(),
{
    reveal(Seq::filter);
    if list.len() > 0 {
        let shorter = list.drop_last();
        assert forall|i: int| 0 <= i < shorter.len() implies property(#[trigger] shorter[i]) by {
            assert(property(list[i]));
        }
        lemma_filter_keeps(shorter, kept, property);
        assert(property(list[list.len() - 1]));
        assert forall|i: int| 0 <= i < list.filter(kept).len() implies kept(
            #[trigger] list.filter(kept)[i],
        ) && property(list.filter(kept)[i]) by {
            if i < shorter.filter(kept).len() {
                assert(list.filter(kept)[i] == shorter.filter(kept)[i]);
            }
        }
    }
}

/// A text without the copies of a prefix does not start with the prefix any
/// more, and is the end of the text.
pub proof fn law_prefix_is_gone(text: Seq<char>, prefix: Seq<char>)
    requires
        prefix.len() > 0,
    ensures
        !occurs_at(without_prefix(text, prefix), prefix, 0),
        without_prefix(text, prefix).is_suffix_of(text),
    decreases text.len(),
{
    if occurs_at(text, prefix, 0) {
        let rest = text.skip(prefix.len() as int);
        law_prefix_is_gone(rest, prefix);
        let end = without_prefix(rest, prefix);
        assert(end =~= text.subrange(text.len() - end.len(), text.len() as int));
    } else {
        assert(text =~= text.subrange(0, text.len() as int));
    }
}

/// The characters of a string.
pub fn chars_of(text: &str) -> (chars: Vec<char>)
    ensures
        chars@ == text@,
{
    let mut chars: Vec<char> = Vec::new();
    for c in iter: text.chars()
        invariant
            iter.seq() == text@,
            chars@ == text@.take(iter.index() as int),
    {
        chars.push(c);
    }
    assert(text@.take(text@.len() as int) =~= text@);
    chars
}

/// Whether two strings hold the same characters.
pub fn same_text(left: &str, right: &str) -> (same: bool)
    ensures
        same == (left@ == right@),
{
    let a = chars_of(left);
    let b = chars_of(right);
    if a.len() != b.len() {
        return false;
    }
    let mut i: usize = 0;
    while i < a.len()
        invariant
            i <= a@.len(),
            a@.len() == b@.len(),
            a@ == left@,
            b@ == right@,
            forall|j: int| 0 <= j < i ==> a@[j] == b@[j],
        decreases a@.len() - i,
    {
        if a[i] != b[i] {
            assert(left@[i as int] != right@[i as int]);
            return false;
        }
        i = i + 1;
    }
    assert(left@ =~= right@);
    true
}

/// Whether `pattern` stands in `text` from position `at` on.
fn stands_at(text: &Vec<char>, pattern: &Vec<char>, at: usize) -> (found: bool)
    requires
        at <= text@.len(),
    ensures
        found == occurs_at(text@, pattern@, at as int),
{
    let total: usize = text.len();
    if pattern.len() > total - at {
        return false;
    }
    let mut i: usize = 0;
    while i < pattern.len()
        invariant
            total == text@.len(),
            at + pattern@.len() <= text@.len(),
            i <= pattern@.len(),
            forall|j: int| 0 <= j < i ==> text@[at + j] == pattern@[j],
        decreases pattern@.len() - i,
    {
        if text[at + i] != pattern[i] {
            assert(text@.subrange(at as int, at + pattern@.len())[i as int] != pattern@[i as int]);
            return false;
        }
        i = i + 1;
    }
    assert(text@.subrange(at as int, at + pattern@.len()) =~= pattern@);
    true
}

/// Whether `pattern` stands somewhere in `text`.
pub fn contains_text(text: &str, pattern: &str) -> (found: bool)
    ensures
        found == occurs_in(text@, pattern@),
{
    let chars = chars_of(text);
    let wanted = chars_of(pattern);
    let mut i: usize = 0;
    while i < chars.len()
        invariant
            chars@ == text@,
            wanted@ == pattern@,
            i <= chars@.len(),
            forall|j: int| 0 <= j < i ==> !occurs_at(text@, pattern@, j),
        decreases chars@.len() - i,
    {
        if stands_at(&chars, &wanted, i) {
            return true;
        }
        i = i + 1;
    }
    stands_at(&chars, &wanted, i)
}

/// `text` without the copies of `prefix` at its start, however many there are.
pub fn trim_prefix(text: &str, prefix: &str) -> (rest: String)
    ensures
        rest@ == without_prefix(text@, prefix@),
{
    let chars = chars_of(text);
    let start = chars_of(prefix);
    let total: usize = chars.len();
    let mut from: usize = 0;
    assert(text@.skip(0) =~= text@);
    while start.len() > 0 && stands_at(&chars, &start, from)
        invariant
            chars@ == text@,
            start@ == prefix@,
            total == chars@.len(),
            from <= chars@.len(),
            without_prefix(text@.skip(from as int), prefix@) == without_prefix(text@, prefix@),
        decreases chars@.len() - from,
    {
        proof {
            lemma_occurs_in_rest(text@, prefix@, from as int);
            assert(text@.skip(from as int).skip(prefix@.len() as int) =~= text@.skip(
                from + prefix@.len(),
            ));
        }
        from = from + start.len();
    }
    proof {
        lemma_occurs_in_rest(text@, prefix@, from as int);
        assert(text@.subrange(from as int, text@.len() as int) =~= text@.skip(from as int));
    }
    text.substring_char(from, total).to_owned()
}

/// What stands at `from` stands at the start of the rest from there.
proof fn lemma_occurs_in_rest(text: Seq<char>, pattern: Seq<char>, from: int)
    requires
        0 <= from <= text.len(),
    ensures
        occurs_at(text, pattern, from) == occurs_at(text.skip(from), pattern, 0),
{
    if from + pattern.len() <= text.len() {
        assert(text.skip(from).subrange(0, pattern.len() as int) =~= text.subrange(
            from,
            from + pattern.len(),
        ));
    }
}

/// The parts of `text` between the separators, empty parts among them.
pub fn split(text: &str, separator: char) -> (list: Vec<String>)
    ensures
        texts(list@) == parts(text@, separator),
{
    let chars = chars_of(text);
    let total: usize = chars.len();
    let mut list: Vec<String> = Vec::new();
    let mut start: usize = 0;
    let mut i: usize = 0;
    assert(text@.take(0) =~= Seq::<char>::empty());
    assert(text@.subrange(0, 0) =~= Seq::<char>::empty());
    assert(texts(list@).push(text@.subrange(0, 0)) =~= seq![Seq::<char>::empty()]);
    while i < total
        invariant
            chars@ == text@,
            total == chars@.len(),
            start <= i <= total,
            parts(text@.take(i as int), separator) == texts(list@).push(
                text@.subrange(start as int, i as int),
            ),
        decreases total - i,
    {
        let ghost before = list@;
        let ghost shown = text@.take(i + 1);
        assert(shown.drop_last() =~= text@.take(i as int));
        let ghost open = text@.subrange(start as int, i as int);
        if chars[i] == separator {
            let part: String = text.substring_char(start, i).to_owned();
            list.push(part);
            start = i + 1;
            assert(texts(list@) =~= texts(before).push(open));
            assert(text@.subrange(start as int, i + 1) =~= Seq::<char>::empty());
        } else {
            assert(text@.subrange(start as int, i + 1) =~= open.push(text@[i as int]));
            assert(texts(before).push(open).drop_last() =~= texts(before));
        }
        i = i + 1;
    }
    let ghost before = list@;
    assert(text@.take(total as int) =~= text@);
    list.push(text.substring_char(start, total).to_owned());
    assert(texts(list@) =~= texts(before).push(text@.subrange(start as int, total as int)));
    list
}

/// The strings one after the other, with `separator` between each two of them.
pub fn join(list: &Vec<String>, separator: &str) -> (text: String)
    ensures
        text@ == joined(texts(list@), separator@),
{
    let mut text: String = String::new();
    let ghost all = texts(list@);
    let mut i: usize = 0;
    while i < list.len()
        invariant
            i <= list@.len(),
            all == texts(list@),
            text@ == joined(all.take(i as int), separator@),
        decreases list@.len() - i,
    {
        assert(all.take(i + 1).drop_last() =~= all.take(i as int));
        if i > 0 {
            text.append(separator);
        }
        text.append(list[i].as_str());
        if i == 0 {
            assert(text@ =~= all[0]);
        }
        i = i + 1;
    }
    assert(all.take(all.len() as int) =~= all);
    text
}

/// The uppercase mapping that Unicode gives a character beyond ASCII: its first
/// character, and those that follow.
pub uninterp spec fn char_uppercase(c: char) -> (char, Seq<char>);

/// The uppercase mapping of a character, one character or more: a lowercase
/// ASCII letter maps to its capital, any other ASCII character to itself.
pub open spec fn upper(c: char) -> Seq<char> {
    if 'a' <= c && c <= 'z' {
        seq![(c as int - 32) as char]
    } else if c as int <= 127 {
        seq![c]
    } else {
        seq![char_uppercase(c).0] + char_uppercase(c).1
    }
}

/// `char::to_uppercase`, collected into a string: the uppercase mapping of `c`.
/// Trusted: on ASCII letters the mapping is the usual one and every other ASCII
/// character maps to itself; beyond ASCII the mapping is a function of the
/// character, and yields at least one. Which characters it yields there is left
/// unsaid.
#[verifier::external_body]
fn uppercase(c: char) -> (capital: String)
    ensures
        c as int > 127 ==> capital@ == seq![char_uppercase(c).0] + char_uppercase(c).1,
        c as int <= 127 ==> capital@ == upper(c),
{
    c.to_uppercase().collect()
}

/// `word` with its first character in uppercase.
pub open spec fn capitalised(word: Seq<char>) -> Seq<char> {
    if word.len() == 0 {
        word
    } else {
        upper(word[0]) + word.skip(1)
    }
}

/// The words between the underscores of `text`, without the empty ones.
pub open spec fn words(text: Seq<char>) -> Seq<Seq<char>> {
    parts(text, '_').filter(|part: Seq<char>| part.len() > 0)
}

/// The capitalised words of `text`.
pub open spec fn capitals(text: Seq<char>) -> Seq<Seq<char>> {
    words(text).map_values(|word: Seq<char>| capitalised(word))
}

/// The words of `text`, each with its first character in uppercase, separated
/// by single spaces.
pub open spec fn titled(text: Seq<char>) -> Seq<char> {
    joined(capitals(text), " "@)
}

/// Every word has a character, and none has an underscore.
pub proof fn law_words_are_separated(text: Seq<char>)
    ensures
        forall|i: int|
            0 <= i < words(text).len() ==> (#[trigger] words(text)[i]).len() > 0 && !words(
                text,
            )[i].contains('_'),
{
    lemma_parts_hold_no_separator(text, '_');
    lemma_filter_keeps(
        parts(text, '_'),
        |part: Seq<char>| part.len() > 0,
        |part: Seq<char>| !part.contains('_'),
    );
}

/// A text of nothing but separators has no part with a character.
proof fn lemma_no_part(text: Seq<char>, separator: char)
    requires
        forall|i: int| 0 <= i < text.len() ==> #[trigger] text[i] == separator,
    ensures
        forall|i: int|
            0 <= i < parts(text, separator).len() ==> (#[trigger] parts(text, separator)[i]).len()
                == 0,
    decreases text.len(),
{
    if text.len() > 0 {
        assert(text[text.len() - 1] == separator);
        lemma_no_part(text.drop_last(), separator);
        let all = parts(text, separator);
        let before = parts(text.drop_last(), separator);
        assert forall|i: int| 0 <= i < all.len() implies (#[trigger] all[i]).len() == 0 by {
            if i < before.len() {
                assert(all[i] == before[i]);
            }
        }
    }
}

/// A text with another character than the separator has a part with a
/// character.
proof fn lemma_nonempty_part(text: Seq<char>, separator: char, at: int) -> (part: int)
    requires
        0 <= at < text.len(),
        text[at] != separator,
    ensures
        0 <= part < parts(text, separator).len(),
        parts(text, separator)[part].len() > 0,
    decreases text.len(),
{
    let all = parts(text, separator);
    let before = parts(text.drop_last(), separator);
    lemma_some_part(text.drop_last(), separator);
    if text.last() != separator {
        assert(all[all.len() - 1] == before.last().push(text.last()));
        all.len() - 1
    } else {
        let part = lemma_nonempty_part(text.drop_last(), separator, at);
        assert(all[part] == before[part]);
        part
    }
}

/// A text without separator is its own only part.
proof fn lemma_one_part(text: Seq<char>, separator: char)
    requires
        !text.contains(separator),
    ensures
        parts(text, separator) == seq![text],
    decreases text.len(),
{
    if text.len() > 0 {
        let shorter = text.drop_last();
        assert(text[text.len() - 1] != separator);
        assert forall|i: int| 0 <= i < shorter.len() implies shorter[i] != separator by {
            assert(text[i] != separator);
        }
        lemma_one_part(shorter, separator);
        assert(shorter.push(text.last()) =~= text);
        assert(parts(text, separator) =~= seq![text]);
    } else {
        assert(text =~= Seq::<char>::empty());
    }
}

/// Joined texts start as the first of them does.
proof fn lemma_joined_start(list: Seq<Seq<char>>, separator: Seq<char>)
    requires
        list.len() > 0,
        list[0].len() > 0,
    ensures
        joined(list, separator).len() > 0,
        joined(list, separator)[0] == list[0][0],
    decreases list.len(),
{
    if list.len() > 1 {
        lemma_joined_start(list.drop_last(), separator);
    }
}

/// What no text of a list and not the separator holds, the joined texts do not
/// hold either.
proof fn lemma_joined_without(list: Seq<Seq<char>>, separator: Seq<char>, c: char)
    requires
        forall|i: int| 0 <= i < list.len() ==> !(#[trigger] list[i]).contains(c),
        !separator.contains(c),
    ensures
        !joined(list, separator).contains(c),
    decreases list.len(),
{
    if list.len() > 1 {
        let shorter = list.drop_last();
        assert forall|i: int| 0 <= i < shorter.len() implies !(#[trigger] shorter[i]).contains(
            c,
        ) by {
            assert(!list[i].contains(c));
        }
        lemma_joined_without(shorter, separator, c);
        assert(!list[list.len() - 1].contains(c));
        lemma_without(joined(shorter, separator), separator, c);
        lemma_without(joined(shorter, separator) + separator, list.last(), c);
    } else if list.len() == 1 {
        assert(!list[0].contains(c));
    }
}

/// What a text of a list holds, the joined texts hold too.
proof fn lemma_joined_with(list: Seq<Seq<char>>, separator: Seq<char>, i: int, c: char)
    requires
        0 <= i < list.len(),
        list[i].contains(c),
    ensures
        joined(list, separator).contains(c),
    decreases list.len(),
{
    if list.len() > 1 {
        let before = joined(list.drop_last(), separator) + separator;
        if i < list.len() - 1 {
            lemma_joined_with(list.drop_last(), separator, i, c);
            let at = joined(list.drop_last(), separator).index_of(c);
            assert(joined(list, separator)[at] == c);
        } else {
            let at = list[i].index_of(c);
            assert(joined(list, separator)[before.len() + at] == c);
        }
    }
}

/// What neither of two texts holds, they do not hold together.
proof fn lemma_without(left: Seq<char>, right: Seq<char>, c: char)
    requires
        !left.contains(c),
        !right.contains(c),
    ensures
        !(left + right).contains(c),
{
    assert forall|i: int| 0 <= i < (left + right).len() implies (left + right)[i] != c by {
        if i < left.len() {
            assert(left.contains(left[i]));
        } else {
            assert(right.contains(right[i - left.len()]));
        }
    }
}

/// A text has words unless it is made of underscores alone.
pub proof fn law_only_underscores_have_no_words(text: Seq<char>)
    ensures
        words(text).len() == 0 <==> forall|i: int|
            0 <= i < text.len() ==> #[trigger] text[i] == '_',
{
    let kept = |part: Seq<char>| part.len() > 0;
    let all = parts(text, '_');
    if forall|i: int| 0 <= i < text.len() ==> #[trigger] text[i] == '_' {
        lemma_no_part(text, '_');
        lemma_filter_keeps(all, kept, |part: Seq<char>| part.len() == 0);
        if words(text).len() > 0 {
            assert(kept(all.filter(kept)[0]));
        }
    } else {
        let at = choose|i: int| 0 <= i < text.len() && #[trigger] text[i] != '_';
        let part = lemma_nonempty_part(text, '_', at);
        assert(kept(all[part]));
        all.lemma_filter_contains(kept, part);
        assert(words(text).contains(all[part]));
    }
}

/// A title is empty exactly where the text has no character but underscores.
pub proof fn law_title_is_empty_without_words(text: Seq<char>)
    ensures
        titled(text).len() == 0 <==> forall|i: int|
            0 <= i < text.len() ==> #[trigger] text[i] == '_',
{
    law_only_underscores_have_no_words(text);
    if words(text).len() > 0 {
        law_title_starts_with_a_capital(text);
    }
}

/// A title has no underscore exactly where no word begins with a character
/// whose uppercase mapping has one.
pub proof fn law_title_has_no_underscore(text: Seq<char>)
    ensures
        !titled(text).contains('_') <==> forall|i: int|
            0 <= i < words(text).len() ==> !upper((#[trigger] words(text)[i])[0]).contains('_'),
{
    law_words_are_separated(text);
    if forall|i: int|
        0 <= i < words(text).len() ==> !upper((#[trigger] words(text)[i])[0]).contains('_') {
        assert forall|i: int| 0 <= i < capitals(text).len() implies !(
        #[trigger] capitals(text)[i]).contains('_') by {
            let word = words(text)[i];
            assert forall|j: int| 0 <= j < word.skip(1).len() implies word.skip(1)[j] != '_' by {
                assert(word.contains(word[j + 1]));
            }
            lemma_without(upper(word[0]), word.skip(1), '_');
        }
        reveal_strlit(" ");
        lemma_joined_without(capitals(text), " "@, '_');
    } else {
        let i = choose|i: int|
            0 <= i < words(text).len() && upper((#[trigger] words(text)[i])[0]).contains('_');
        let word = words(text)[i];
        let at = upper(word[0]).index_of('_');
        assert(capitals(text)[i] == capitalised(word));
        assert(capitals(text)[i][at] == '_');
        lemma_joined_with(capitals(text), " "@, i, '_');
    }
}

/// A title without underscore is its own title exactly where it is empty or
/// starts with a character that is its own uppercase.
pub proof fn law_title_is_its_own_title(text: Seq<char>)
    requires
        !titled(text).contains('_'),
    ensures
        titled(titled(text)) == titled(text) <==> (titled(text).len() == 0 || upper(titled(text)[0])
            == seq![titled(text)[0]]),
{
    let title = titled(text);
    lemma_one_part(title, '_');
    let kept = |part: Seq<char>| part.len() > 0;
    reveal(Seq::filter);
    assert(seq![title].drop_last() =~= Seq::<Seq<char>>::empty());
    assert(seq![title].drop_last().filter(kept) =~= Seq::<Seq<char>>::empty());
    if title.len() == 0 {
        assert(words(title) =~= Seq::<Seq<char>>::empty());
        assert(titled(title) =~= title);
    } else {
        assert(words(title) =~= seq![title]);
        assert(capitals(title) =~= seq![capitalised(title)]);
        assert(titled(title) == capitalised(title));
        if upper(title[0]) == seq![title[0]] {
            assert(capitalised(title) =~= title);
        } else if capitalised(title) == title {
            assert(capitalised(title).len() == upper(title[0]).len() + title.len() - 1);
            assert(capitalised(title)[0] == upper(title[0])[0]);
            assert(upper(title[0]) =~= seq![title[0]]);
        }
    }
}

/// The title of a text with words starts as the uppercase mapping of its first
/// character does.
pub proof fn law_title_starts_with_a_capital(text: Seq<char>)
    requires
        words(text).len() > 0,
    ensures
        titled(text).len() > 0,
        titled(text)[0] == upper(words(text)[0][0])[0],
{
    law_words_are_separated(text);
    assert(words(text)[0].len() > 0);
    assert(capitals(text)[0] == capitalised(words(text)[0]));
    lemma_joined_start(capitals(text), " "@);
}

/// A title has no underscore, and is its own title, where each word begins with
/// an ASCII character.
pub proof fn law_ascii_title_is_its_own_title(text: Seq<char>)
    requires
        forall|i: int| 0 <= i < words(text).len() ==> (#[trigger] words(text)[i])[0] as int <= 127,
    ensures
        !titled(text).contains('_'),
        titled(titled(text)) == titled(text),
{
    law_words_are_separated(text);
    assert forall|i: int| 0 <= i < words(text).len() implies !upper(
        (#[trigger] words(text)[i])[0],
    ).contains('_') by {
        let word = words(text)[i];
        assert(word.contains(word[0]));
        assert(upper(word[0]).len() == 1);
    }
    law_title_has_no_underscore(text);
    law_title_is_its_own_title(text);
    if words(text).len() > 0 {
        law_title_starts_with_a_capital(text);
        assert(words(text)[0][0] as int <= 127);
    }
}

/// Turns an identifier into a title: `pro` becomes `Pro`, and
/// `self_serve_business_usage_based` becomes `Self Serve Business Usage Based`.
pub fn to_uppercase_first(text: &str) -> (title: String)
    ensures
        title@ == titled(text@),
        title@.len() == 0 <==> forall|i: int| 0 <= i < text@.len() ==> #[trigger] text@[i] == '_',
{
    let list = split(text, '_');
    let ghost all = parts(text@, '_');
    let ghost nonempty = |part: Seq<char>| part.len() > 0;
    let ghost capital = |word: Seq<char>| capitalised(word);
    let mut capitals: Vec<String> = Vec::new();
    let mut i: usize = 0;
    assert(all.take(0).filter(nonempty).map_values(capital) =~= Seq::empty()) by {
        reveal(Seq::filter);
    }
    assert(texts(capitals@) =~= Seq::empty());
    while i < list.len()
        invariant
            i <= list@.len(),
            texts(list@) == all,
            nonempty == (|part: Seq<char>| part.len() > 0),
            capital == (|word: Seq<char>| capitalised(word)),
            texts(capitals@) == all.take(i as int).filter(nonempty).map_values(capital),
        decreases list@.len() - i,
    {
        let ghost before = capitals@;
        let ghost kept = all.take(i as int).filter(nonempty);
        let word: &str = list[i].as_str();
        assert(word@ == all[i as int]);
        assert(all.take(i + 1).drop_last() =~= all.take(i as int));
        reveal(Seq::filter);
        if !word.is_empty() {
            let length: usize = word.unicode_len();
            let mut capital_word: String = uppercase(word.get_char(0));
            capital_word.append(word.substring_char(1, length));
            assert(word@.subrange(1, length as int) =~= word@.skip(1));
            assert(capital_word@ == capitalised(word@));
            capitals.push(capital_word);
            assert(texts(capitals@) =~= texts(before).push(capitalised(word@)));
            assert(kept.push(word@).map_values(capital) =~= kept.map_values(capital).push(
                capitalised(word@),
            ));
        }
        i = i + 1;
    }
    assert(all.take(all.len() as int) =~= all);
    proof {
        law_title_is_empty_without_words(text@);
    }
    join(&capitals, " ")
}

/// A pattern is found wherever it stands between two other texts.
pub proof fn law_pattern_is_found(
    before: Seq<char>,
    pattern: &str,
    after: Seq<char>,
    text: &str,
    found: bool,
)
    requires
        text@ == before + pattern@ + after,
        call_ensures(contains_text, (text, pattern), found),
    ensures
        found,
        occurs_in(text@, pattern@),
{
    let at = before.len() as int;
    assert(text@.subrange(at, at + pattern@.len()) =~= pattern@);
    assert(occurs_at(text@, pattern@, at));
}

/// A pattern is found only where it stands between two other texts.
pub proof fn law_found_pattern_is_there(text: &str, pattern: &str) -> (sides: (Seq<char>, Seq<char>))
    requires
        call_ensures(contains_text, (text, pattern), true) || occurs_in(text@, pattern@),
    ensures
        text@ == sides.0 + pattern@ + sides.1,
{
    let at = choose|i: int| occurs_at(text@, pattern@, i);
    let sides = (text@.take(at), text@.skip(at + pattern@.len()));
    assert(text@ =~= sides.0 + text@.subrange(at, at + pattern@.len()) + sides.1);
    sides
}

/// A prefix is taken off a text again and again, until the text does not start
/// with it.
pub proof fn law_prefix_is_taken_off(prefix: Seq<char>, rest: Seq<char>)
    requires
        prefix.len() > 0,
    ensures
        without_prefix(prefix + rest, prefix) == without_prefix(rest, prefix),
        !prefix.is_prefix_of(rest) ==> without_prefix(rest, prefix) == rest,
{
    assert((prefix + rest).subrange(0, prefix.len() as int) =~= prefix);
    assert((prefix + rest).skip(prefix.len() as int) =~= rest);
    assert(occurs_at(prefix + rest, prefix, 0));
}

/// One text more is joined with a separator before it, unless it is the only
/// one.
pub proof fn law_texts_are_joined_in_order(
    list: Seq<Seq<char>>,
    text: Seq<char>,
    separator: Seq<char>,
)
    ensures
        joined(Seq::empty(), separator) == Seq::<char>::empty(),
        list.len() == 0 ==> joined(list.push(text), separator) == text,
        list.len() > 0 ==> joined(list.push(text), separator) == joined(list, separator) + separator
            + text,
{
    assert(list.push(text).drop_last() =~= list);
}

/// A separator splits a text in two, whose parts are the parts of the whole.
pub proof fn law_separator_splits(left: Seq<char>, right: Seq<char>, separator: char)
    ensures
        parts(left + seq![separator] + right, separator) == parts(left, separator) + parts(
            right,
            separator,
        ),
        !left.contains(separator) ==> parts(left, separator) == seq![left],
    decreases right.len(),
{
    if !left.contains(separator) {
        lemma_one_part(left, separator);
    }
    let whole = left + seq![separator] + right;
    lemma_some_part(left, separator);
    lemma_some_part(right, separator);
    if right.len() == 0 {
        assert(whole.drop_last() =~= left);
        assert(parts(whole, separator) =~= parts(left, separator).push(Seq::empty()));
        assert(parts(whole, separator) =~= parts(left, separator) + parts(right, separator));
    } else {
        let shorter = right.drop_last();
        law_separator_splits(left, shorter, separator);
        lemma_some_part(shorter, separator);
        assert(whole.drop_last() =~= left + seq![separator] + shorter);
        assert(whole.last() == right.last());
        assert(parts(whole, separator) =~= parts(left, separator) + parts(right, separator));
    }
}

/// Lists of texts that are not empty are joined by joining what they are joined
/// to.
proof fn lemma_joined_add(left: Seq<Seq<char>>, right: Seq<Seq<char>>, separator: Seq<char>)
    requires
        left.len() > 0,
        right.len() > 0,
    ensures
        joined(left + right, separator) == joined(left, separator) + separator + joined(
            right,
            separator,
        ),
    decreases right.len(),
{
    let whole = left + right;
    if right.len() == 1 {
        assert(whole.drop_last() =~= left);
        assert(joined(right, separator) == right[0]);
    } else {
        assert(whole.drop_last() =~= left + right.drop_last());
        lemma_joined_add(left, right.drop_last(), separator);
        assert(joined(whole, separator) =~= joined(left, separator) + separator + joined(
            right,
            separator,
        ));
    }
}

/// A lowercase ASCII letter has the letter thirty-two places before it as its
/// capital; every other ASCII character is its own.
pub proof fn law_ascii_letters_have_capitals(c: char)
    requires
        c as int <= 127,
    ensures
        'a' <= c && c <= 'z' ==> upper(c) == seq![(c as int - 32) as char],
        !('a' <= c && c <= 'z') ==> upper(c) == seq![c],
{
}

/// A word becomes a title by its first character alone.
pub proof fn law_word_becomes_a_title(word: &str, title: String)
    requires
        call_ensures(to_uppercase_first, (word,), title),
        word@.len() > 0,
        !word@.contains('_'),
    ensures
        title@ == upper(word@[0]) + word@.skip(1),
        title@.len() >= word@.len(),
{
    lemma_single_word(word@);
}

/// A text without underscore is its own only word.
proof fn lemma_single_word(word: Seq<char>)
    requires
        word.len() > 0,
        !word.contains('_'),
    ensures
        titled(word) == upper(word[0]) + word.skip(1),
{
    lemma_one_part(word, '_');
    let kept = |part: Seq<char>| part.len() > 0;
    reveal(Seq::filter);
    assert(seq![word].drop_last() =~= Seq::<Seq<char>>::empty());
    assert(seq![word].drop_last().filter(kept) =~= Seq::<Seq<char>>::empty());
    assert(words(word) =~= seq![word]);
    assert(capitals(word) =~= seq![capitalised(word)]);
}

/// The titles on both sides of an underscore stand with a space between them;
/// where one of them is empty, the other stands alone.
pub proof fn law_underscore_becomes_a_space(
    left: &str,
    right: &str,
    whole: &str,
    left_title: String,
    right_title: String,
    title: String,
)
    requires
        whole@ == left@ + seq!['_'] + right@,
        call_ensures(to_uppercase_first, (left,), left_title),
        call_ensures(to_uppercase_first, (right,), right_title),
        call_ensures(to_uppercase_first, (whole,), title),
    ensures
        title@ == (if left_title@.len() == 0 {
            right_title@
        } else if right_title@.len() == 0 {
            left_title@
        } else {
            left_title@ + seq![' '] + right_title@
        }),
{
    let kept = |part: Seq<char>| part.len() > 0;
    let capital = |word: Seq<char>| capitalised(word);
    law_separator_splits(left@, right@, '_');
    Seq::filter_distributes_over_add(parts(left@, '_'), parts(right@, '_'), kept);
    assert(words(whole@) == words(left@) + words(right@));
    assert(capitals(whole@) =~= capitals(left@) + capitals(right@));
    law_only_underscores_have_no_words(left@);
    law_only_underscores_have_no_words(right@);
    law_title_is_empty_without_words(left@);
    law_title_is_empty_without_words(right@);
    reveal_strlit(" ");
    assert(" "@ =~= seq![' ']);
    if words(left@).len() == 0 {
        assert(capitals(whole@) =~= capitals(right@));
    } else if words(right@).len() == 0 {
        assert(capitals(whole@) =~= capitals(left@));
    } else {
        lemma_joined_add(capitals(left@), capitals(right@), " "@);
    }
}

/// Two strings are the same text exactly where they have the same characters.
pub proof fn law_same_text_has_the_same_characters(left: &str, right: &str, same: bool)
    requires
        call_ensures(same_text, (left, right), same),
    ensures
        same <==> left@.len() == right@.len() && forall|i: int|
            0 <= i < left@.len() ==> #[trigger] left@[i] == right@[i],
{
    if left@.len() == right@.len() && forall|i: int|
        0 <= i < left@.len() ==> #[trigger] left@[i] == right@[i] {
        assert(left@ =~= right@);
    }
}

/// An optional string has the characters of the string, where there is one.
pub proof fn law_optional_string_has_its_characters(string: String)
    ensures
        optional_text(Some(string)) == Some(string@),
        optional_text(None) is None,
{
}

}
