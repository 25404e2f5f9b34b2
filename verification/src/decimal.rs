//! Integers in decimal notation.
use vstd::prelude::*;
use vstd::string::*;

use crate::text::chars_of;

verus! {

/// `c` is one of the ten ASCII digits.
pub open spec fn is_digit(c: char) -> bool {
    '0' <= c && c <= '9'
}

/// The number that a digit stands for.
pub open spec fn digit_value(c: char) -> int {
    c as int - '0' as int
}

/// The digit that stands for a number below ten.
pub open spec fn digit_char(d: int) -> char {
    ('0' as int + d) as char
}

/// The digits of `n`, the most significant first, without leading zeros.
pub open spec fn digits(n: nat) -> Seq<char>
    decreases n,
{
    if n < 10 {
        seq![digit_char(n as int)]
    } else {
        digits(n / 10).push(digit_char((n % 10) as int))
    }
}

/// `n` in decimal notation, with a minus sign where it is negative.
pub open spec fn decimal(n: int) -> Seq<char> {
    if n < 0 {
        seq!['-'] + digits((-n) as nat)
    } else {
        digits(n as nat)
    }
}

/// The number that a row of digits stands for.
pub open spec fn digits_value(s: Seq<char>) -> nat
    decreases s.len(),
{
    if s.len() == 0 {
        0
    } else {
        digits_value(s.drop_last()) * 10 + digit_value(s.last()) as nat
    }
}

/// One digit or more, and nothing else.
pub open spec fn all_digits(s: Seq<char>) -> bool {
    &&& s.len() > 0
    &&& forall|i: int| 0 <= i < s.len() ==> is_digit(#[trigger] s[i])
}

/// `s` without the sign it may start with.
pub open spec fn unsigned_part(s: Seq<char>) -> Seq<char> {
    if s.len() > 0 && (s[0] == '-' || s[0] == '+') {
        s.skip(1)
    } else {
        s
    }
}

/// The number that a row of digits after an optional sign stands for.
pub open spec fn signed_value(s: Seq<char>) -> int {
    if s.len() > 0 && s[0] == '-' {
        -(digits_value(unsigned_part(s)) as int)
    } else {
        digits_value(unsigned_part(s)) as int
    }
}

/// The 64-bit integer that a text denotes: digits after an optional sign, of a
/// value that fits.
pub open spec fn parsed_integer(s: Seq<char>) -> Option<i64> {
    if all_digits(unsigned_part(s)) && i64::MIN <= signed_value(s) <= i64::MAX {
        Some(signed_value(s) as i64)
    } else {
        None
    }
}

/// The digits of a number are digits, and stand for that number.
proof fn lemma_digits(n: nat)
    ensures
        all_digits(digits(n)),
        digits_value(digits(n)) == n,
    decreases n,
{
    if n < 10 {
        assert(digits_value(digits(n).drop_last()) == 0);
    } else {
        lemma_digits(n / 10);
        assert(digits(n).drop_last() =~= digits(n / 10));
        assert(digits(n).last() == digit_char((n % 10) as int));
        assert forall|i: int| 0 <= i < digits(n).len() implies is_digit(#[trigger] digits(n)[i]) by {
            if i < digits(n).len() - 1 {
                assert(is_digit(digits(n / 10)[i]));
            }
        }
    }
}

/// Reading back a decimal notation gives the integer that was written.
pub proof fn law_decimal_reads_back(n: i64)
    ensures
        parsed_integer(decimal(n as int)) == Some(n),
{
    if n < 0 {
        let m = (-n) as nat;
        lemma_digits(m);
        assert(decimal(n as int).skip(1) =~= digits(m));
    } else {
        lemma_digits(n as nat);
        assert(is_digit(digits(n as nat)[0]));
    }
}

/// Two integers with the same decimal notation are the same integer.
pub proof fn law_decimal_is_injective(m: i64, n: i64)
    requires
        decimal(m as int) == decimal(n as int),
    ensures
        m == n,
{
    law_decimal_reads_back(m);
    law_decimal_reads_back(n);
}

/// A longer row of digits stands for no smaller number.
proof fn lemma_prefix_value(s: Seq<char>, i: int)
    requires
        0 <= i <= s.len(),
        forall|j: int| 0 <= j < s.len() ==> is_digit(#[trigger] s[j]),
    ensures
        digits_value(s.take(i)) <= digits_value(s),
    decreases s.len(),
{
    if i < s.len() {
        let shorter = s.drop_last();
        assert forall|j: int| 0 <= j < shorter.len() implies is_digit(#[trigger] shorter[j]) by {
            assert(is_digit(s[j]));
        }
        lemma_prefix_value(shorter, i);
        assert(shorter.take(i) =~= s.take(i));
        assert(is_digit(s.last()));
    } else {
        assert(s.take(i) =~= s);
    }
}

/// The digit that stands for a number below ten, as a string.
fn digit_text(d: u64) -> (text: &'static str)
    requires
        d < 10,
    ensures
        text@ == seq![digit_char(d as int)],
{
    proof {
        reveal_strlit("0");
        reveal_strlit("1");
        reveal_strlit("2");
        reveal_strlit("3");
        reveal_strlit("4");
        reveal_strlit("5");
        reveal_strlit("6");
        reveal_strlit("7");
        reveal_strlit("8");
        reveal_strlit("9");
    }
    let text: &'static str = match d {
        0 => "0",
        1 => "1",
        2 => "2",
        3 => "3",
        4 => "4",
        5 => "5",
        6 => "6",
        7 => "7",
        8 => "8",
        _ => "9",
    };
    assert(text@ =~= seq![digit_char(d as int)]);
    text
}

/// The digits of `n`.
fn digits_text(n: u64) -> (text: String)
    ensures
        text@ == digits(n as nat),
    decreases n,
{
    if n < 10 {
        digit_text(n).to_owned()
    } else {
        let mut text = digits_text(n / 10);
        let ghost before = text@;
        text.append(digit_text(n % 10));
        assert(text@ =~= before.push(digit_char((n % 10) as int)));
        text
    }
}

/// `n` in decimal notation.
pub fn decimal_text(n: i64) -> (text: String)
    ensures
        text@ == decimal(n as int),
{
    if n < 0 {
        let magnitude: u64 = (-(n as i128)) as u64;
        let mut text: String = "-".to_owned();
        text.append(digits_text(magnitude).as_str());
        proof {
            reveal_strlit("-");
        }
        assert("-"@ =~= seq!['-']);
        text
    } else {
        digits_text(n as u64)
    }
}

/// The 64-bit integer that a text denotes; `None` where it denotes none.
pub fn parse_integer(text: &str) -> (integer: Option<i64>)
    ensures
        integer == parsed_integer(text@),
{
    let chars = chars_of(text);
    let ghost body = unsigned_part(text@);
    let total: usize = chars.len();
    let negative: bool = total > 0 && chars[0] == '-';
    let signed: bool = negative || (total > 0 && chars[0] == '+');
    let start: usize = if signed {
        1
    } else {
        0
    };
    if start == total {
        return None;
    }
    let limit: u128 = 0x8000_0000_0000_0000;
    let mut magnitude: u128 = 0;
    let mut i: usize = start;
    assert(body.take(0) =~= Seq::<char>::empty());
    while i < total
        invariant
            chars@ == text@,
            total == chars@.len(),
            start <= i <= total,
            limit == 0x8000_0000_0000_0000,
            body == unsigned_part(text@),
            body == text@.skip(start as int),
            magnitude <= limit,
            magnitude == digits_value(body.take(i - start)),
            forall|j: int| 0 <= j < i - start ==> is_digit(#[trigger] body[j]),
        decreases total - i,
    {
        let c = chars[i];
        assert(c == body[i - start]);
        if c < '0' || c > '9' {
            return None;
        }
        let digit: u128 = (c as u32 - '0' as u32) as u128;
        proof {
            assert(body.take(i - start + 1).drop_last() =~= body.take(i - start));
        }
        magnitude = magnitude * 10 + digit;
        if magnitude > limit {
            proof {
                if all_digits(body) {
                    lemma_prefix_value(body, i - start + 1);
                }
            }
            return None;
        }
        i = i + 1;
    }
    assert(body.take(total - start) =~= body);
    if negative {
        Some((-(magnitude as i128)) as i64)
    } else if magnitude == limit {
        None
    } else {
        Some(magnitude as i64)
    }
}

/// One digit more multiplies a number by ten and adds the digit; a number below
/// ten has one digit; a negative number has a minus sign before the notation of
/// its opposite.
pub proof fn law_decimal_grows_by_digits(n: nat, d: int)
    requires
        0 <= d < 10,
    ensures
        decimal(d) == seq![('0' as int + d) as char],
        n > 0 ==> decimal(n * 10 + d) == decimal(n as int).push(('0' as int + d) as char),
        n > 0 ==> decimal(-n) == seq!['-'] + decimal(n as int),
{
    if n > 0 {
        let longer = (n * 10 + d) as nat;
        assert(longer / 10 == n);
        assert(longer % 10 == d);
    }
}

/// A single digit denotes its number.
pub proof fn law_digit_is_read(c: char)
    requires
        '0' <= c && c <= '9',
    ensures
        parsed_integer(seq![c]) matches Some(n) && n == c as int - '0' as int,
        parsed_integer(seq!['-', c]) matches Some(n) && n == '0' as int - c as int,
{
    let one = seq![c];
    assert(all_digits(one));
    assert(one.drop_last() =~= Seq::<char>::empty());
    assert(digits_value(one) == digits_value(one.drop_last()) * 10 + digit_value(c));
    assert(seq!['-', c].skip(1) =~= one);
}

/// A row of digits with one more at its end denotes ten times the number and
/// the digit, as long as that is a 64-bit integer; with a minus sign before it,
/// likewise, downwards.
pub proof fn law_next_digit_is_read(row: Seq<char>, c: char)
    requires
        row.len() > 0,
        forall|i: int| 0 <= i < row.len() ==> '0' <= #[trigger] row[i] && row[i] <= '9',
        '0' <= c && c <= '9',
    ensures
        match parsed_integer(row) {
            Some(n) => {
                let next = n * 10 + (c as int - '0' as int);
                if next <= i64::MAX {
                    parsed_integer(row.push(c)) matches Some(m) && m == next
                } else {
                    parsed_integer(row.push(c)) is None
                }
            },
            None => parsed_integer(row.push(c)) is None,
        },
        match parsed_integer(seq!['-'] + row) {
            Some(n) => {
                let next = n * 10 - (c as int - '0' as int);
                if next >= i64::MIN {
                    parsed_integer(seq!['-'] + row.push(c)) matches Some(m) && m == next
                } else {
                    parsed_integer(seq!['-'] + row.push(c)) is None
                }
            },
            None => parsed_integer(seq!['-'] + row.push(c)) is None,
        },
{
    let longer = row.push(c);
    assert(longer.drop_last() =~= row);
    assert forall|i: int| 0 <= i < row.len() implies is_digit(#[trigger] row[i]) by {}
    assert forall|i: int| 0 <= i < longer.len() implies is_digit(#[trigger] longer[i]) by {
        if i < row.len() {
            assert(is_digit(row[i]));
        }
    }
    assert(is_digit(row[0]));
    assert(digits_value(longer) == digits_value(row) * 10 + digit_value(c));
    assert((seq!['-'] + row).skip(1) =~= row);
    assert((seq!['-'] + longer).skip(1) =~= longer);
    assert(unsigned_part(row) == row);
    assert(unsigned_part(longer) == longer);
}

/// A plus sign before a row of digits changes nothing, a zero before it neither;
/// a minus sign turns the number into its opposite.
pub proof fn law_signs_and_zeros_are_read(row: Seq<char>)
    requires
        row.len() > 0,
        forall|i: int| 0 <= i < row.len() ==> '0' <= #[trigger] row[i] && row[i] <= '9',
    ensures
        parsed_integer(seq!['+'] + row) == parsed_integer(row),
        parsed_integer(seq!['0'] + row) == parsed_integer(row),
        parsed_integer(row) matches Some(n) ==> (parsed_integer(seq!['-'] + row) matches Some(m)
            && m == -n),
{
    assert forall|i: int| 0 <= i < row.len() implies is_digit(#[trigger] row[i]) by {}
    assert(is_digit(row[0]));
    let zero = seq!['0'] + row;
    assert forall|i: int| 0 <= i < zero.len() implies is_digit(#[trigger] zero[i]) by {
        if i > 0 {
            assert(is_digit(row[i - 1]));
        }
    }
    lemma_leading_zero(row);
    assert((seq!['+'] + row).skip(1) =~= row);
    assert((seq!['-'] + row).skip(1) =~= row);
    assert(unsigned_part(zero) == zero);
}

/// A leading zero adds nothing to a number.
proof fn lemma_leading_zero(row: Seq<char>)
    ensures
        digits_value(seq!['0'] + row) == digits_value(row),
    decreases row.len(),
{
    let zero = seq!['0'] + row;
    if row.len() == 0 {
        assert(zero.drop_last() =~= Seq::<char>::empty());
        assert(digits_value(zero) == digits_value(zero.drop_last()) * 10 + digit_value('0'));
    } else {
        assert(zero.drop_last() =~= seq!['0'] + row.drop_last());
        lemma_leading_zero(row.drop_last());
    }
}

/// What denotes an integer is made of digits, but for a sign at its start, and
/// has one digit at least.
pub proof fn law_only_digits_are_read(s: Seq<char>)
    requires
        parsed_integer(s) is Some,
    ensures
        s.len() > 0,
        forall|i: int| 0 < i < s.len() ==> '0' <= #[trigger] s[i] && s[i] <= '9',
        '0' <= s[0] && s[0] <= '9' || (s[0] == '-' || s[0] == '+') && s.len() > 1,
{
    let body = unsigned_part(s);
    if s.len() > 0 && (s[0] == '-' || s[0] == '+') {
        assert forall|i: int| 0 < i < s.len() implies '0' <= #[trigger] s[i] && s[i] <= '9' by {
            assert(is_digit(body[i - 1]));
        }
    } else {
        assert(is_digit(body[0]));
        assert forall|i: int| 0 < i < s.len() implies '0' <= #[trigger] s[i] && s[i] <= '9' by {
            assert(is_digit(body[i]));
        }
    }
}

/// What is written for an integer is read as that integer.
pub proof fn law_written_integer_is_read(n: i64, written: String, source: &str, read: Option<i64>)
    requires
        call_ensures(decimal_text, (n,), written),
        source@ == written@,
        call_ensures(parse_integer, (source,), read),
    ensures
        written@ == decimal(n as int),
        read == Some(n),
{
    law_decimal_reads_back(n);
}

}
