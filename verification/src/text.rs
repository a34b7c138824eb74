//! Small pieces of text handling: decimal numbers, prefixes and splitting at a
//! separator.

use vstd::prelude::*;

verus! {

/// The character for a decimal digit.
pub open spec fn digit_char(d: nat) -> char {
    if d == 0 {
        '0'
    } else if d == 1 {
        '1'
    } else if d == 2 {
        '2'
    } else if d == 3 {
        '3'
    } else if d == 4 {
        '4'
    } else if d == 5 {
        '5'
    } else if d == 6 {
        '6'
    } else if d == 7 {
        '7'
    } else if d == 8 {
        '8'
    } else {
        '9'
    }
}

/// `n` in decimal, without leading zeros.
pub open spec fn decimal(n: nat) -> Seq<char>
    decreases n,
{
    if n < 10 {
        seq![digit_char(n)]
    } else {
        decimal(n / 10).push(digit_char(n % 10))
    }
}

/// `n` in decimal, with a leading minus sign when it is negative.
pub open spec fn signed_decimal(n: int) -> Seq<char> {
    if n < 0 {
        seq!['-'] + decimal((-n) as nat)
    } else {
        decimal(n as nat)
    }
}

/// The number that a sequence of decimal digits is read as: ten times the
/// number of all but the last, plus the last digit.
pub open spec fn number_value(digits: Seq<char>) -> int
    decreases digits.len(),
{
    if digits.len() == 0 {
        0
    } else {
        10 * number_value(digits.drop_last()) + (digits.last() as int - '0' as int)
    }
}

/// Whether `digits` writes `n` in decimal: it has decimal digits only, is read
/// as `n`, and has no zero in front of another digit.
pub open spec fn writes_number(digits: Seq<char>, n: int) -> bool {
    &&& digits.len() > 0
    &&& forall|i: int| 0 <= i < digits.len() ==> '0' <= #[trigger] digits[i] <= '9'
    &&& number_value(digits) == n
    &&& digits[0] == '0' ==> digits.len() == 1
}

/// The decimal text of a number is read as that number, and has no leading zero.
pub proof fn law_decimal_writes_number(n: nat)
    ensures
        writes_number(decimal(n), n as int),
        decimal(n)[0] == '0' ==> n == 0,
    decreases n,
{
    let d = decimal(n);
    if n < 10 {
        assert(d.drop_last() =~= Seq::<char>::empty());
        assert(number_value(d.drop_last()) == 0);
        assert(d.last() as int - '0' as int == n);
    } else {
        let front = decimal(n / 10);
        law_decimal_writes_number(n / 10);
        assert(d.drop_last() =~= front);
        assert(d.last() == digit_char(n % 10));
        assert(d.last() as int - '0' as int == n % 10);
        assert forall|i: int| 0 <= i < d.len() implies '0' <= #[trigger] d[i] <= '9' by {
            if i < front.len() {
                assert(d[i] == front[i]);
            }
        }
        assert(d[0] == front[0]);
    }
}

/// There is one decimal text of a number: whatever writes the number is it.
pub proof fn law_decimal_is_the_only_text(digits: Seq<char>, n: nat)
    requires
        writes_number(digits, n as int),
    ensures
        digits == decimal(n),
    decreases digits.len(),
{
    let front = digits.drop_last();
    let last = digits.last() as int - '0' as int;
    assert('0' <= digits[digits.len() - 1] <= '9');
    assert(0 <= last < 10);
    if digits.len() == 1 {
        assert(number_value(front) == 0);
        assert(digit_char(n) == digits[0]);
        assert(digits =~= decimal(n));
    } else {
        assert forall|i: int| 0 <= i < front.len() implies '0' <= #[trigger] front[i] <= '9' by {
            assert(front[i] == digits[i]);
        }
        assert(front[0] == digits[0]);
        lemma_number_at_least_one(front);
        assert(n == 10 * number_value(front) + last);
        assert(n / 10 == number_value(front) && n % 10 == last);
        law_decimal_is_the_only_text(front, n / 10);
        assert(digit_char(n % 10) == digits.last());
        assert(digits =~= front.push(digits.last()));
    }
}

/// Digits that do not begin with a zero are read as a number above zero.
proof fn lemma_number_at_least_one(digits: Seq<char>)
    requires
        digits.len() > 0,
        forall|i: int| 0 <= i < digits.len() ==> '0' <= #[trigger] digits[i] <= '9',
        digits[0] != '0',
    ensures
        number_value(digits) >= 1,
    decreases digits.len(),
{
    let front = digits.drop_last();
    assert('0' <= digits[digits.len() - 1] <= '9');
    if digits.len() == 1 {
        assert(number_value(front) == 0);
    } else {
        assert forall|i: int| 0 <= i < front.len() implies '0' <= #[trigger] front[i] <= '9' by {
            assert(front[i] == digits[i]);
        }
        lemma_number_at_least_one(front);
    }
}

/// Different numbers have different decimal texts.
pub proof fn law_decimal_tells_numbers_apart(n: nat, m: nat)
    requires
        decimal(n) == decimal(m),
    ensures
        n == m,
{
    law_decimal_writes_number(n);
    law_decimal_writes_number(m);
}

/// The signed text of a number is that of its magnitude, behind a minus sign
/// where the number is negative.
pub proof fn law_signed_decimal_writes_number(n: int)
    ensures
        n >= 0 ==> writes_number(signed_decimal(n), n),
        n < 0 ==> signed_decimal(n).len() > 0 && signed_decimal(n)[0] == '-' && writes_number(
            signed_decimal(n).skip(1),
            -n,
        ),
{
    if n < 0 {
        law_decimal_writes_number((-n) as nat);
        assert(signed_decimal(n).skip(1) =~= decimal((-n) as nat));
    } else {
        law_decimal_writes_number(n as nat);
    }
}

/// The text of a single decimal digit.
fn digit_text(d: u64) -> (r: &'static str)
    requires
        d < 10,
    ensures
        r@ == seq![digit_char(d as nat)],
{
    proof {
        reveal_strlit("0");
        reveal_strlit("1");
        reveal_strlit("2");
        reveal_strlit("3");
        reveal_strlit("4");
        reveal_strlit("5");
        reveal_strlit("6");
        reveal_strlit("7");
        reveal_strlit("8");
        reveal_strlit("9");
    }
    match d {
        0 => "0",
        1 => "1",
        2 => "2",
        3 => "3",
        4 => "4",
        5 => "5",
        6 => "6",
        7 => "7",
        8 => "8",
        _ => "9",
    }
}

/// Writes `n` in decimal.
pub fn decimal_text(n: u64) -> (r: String)
    ensures
        r@ == decimal(n as nat),
        writes_number(r@, n as int),
    decreases n,
{
    proof {
        law_decimal_writes_number(n as nat);
    }
    if n < 10 {
        digit_text(n).to_owned()
    } else {
        let mut r = decimal_text(n / 10);
        r.append(digit_text(n % 10));
        r
    }
}

/// Writes `n` in decimal, with a leading minus sign when it is negative.
pub fn signed_decimal_text(n: i32) -> (r: String)
    ensures
        r@ == signed_decimal(n as int),
        n >= 0 ==> writes_number(r@, n as int),
        n < 0 ==> r@.len() > 0 && r@[0] == '-' && writes_number(r@.skip(1), -n),
{
    proof {
        law_signed_decimal_writes_number(n as int);
    }
    if n < 0 {
        proof {
            reveal_strlit("-");
        }
        let magnitude: i64 = -(n as i64);
        let mut r = "-".to_owned();
        r.append(decimal_text(magnitude as u64).as_str());
        assert(r@ =~= signed_decimal(n as int));
        r
    } else {
        decimal_text(n as u64)
    }
}

/// Whether `s` begins with `prefix`.
pub fn has_prefix(s: &str, prefix: &str) -> (r: bool)
    ensures
        r == prefix@.is_prefix_of(s@),
{
    let n: usize = prefix.unicode_len();
    if s.unicode_len() < n {
        false
    } else {
        s.substring_char(0, n).to_owned() == prefix.to_owned()
    }
}

/// The two parts of `s` around the first `separator`, if there is one.
pub open spec fn split_at_first(s: Seq<char>, separator: char) -> Option<(Seq<char>, Seq<char>)> {
    match s.index_of_first(separator) {
        Some(i) => Some((s.take(i), s.skip(i + 1))),
        None => None,
    }
}

/// A text made of a head without the separator, the separator and a tail
/// splits into that head and that tail.
pub proof fn law_split_at_first(head: Seq<char>, separator: char, tail: Seq<char>)
    requires
        !head.contains(separator),
    ensures
        split_at_first(head + seq![separator] + tail, separator) == Some((head, tail)),
{
    let s = head + seq![separator] + tail;
    assert(s[head.len() as int] == separator);
    assert(s.contains(separator));
    s.index_of_first_ensures(separator);
    let i = s.index_of_first(separator)->0;
    assert(i == head.len()) by {
        if i < head.len() {
            assert(head[i] == s[i]);
        }
    }
    assert(s.take(i) =~= head);
    assert(s.skip(i + 1) =~= tail);
}

/// A text splits exactly where it has the separator, and the two parts with the
/// separator between them are the text, with no separator in the first.
pub proof fn law_split_parts(s: Seq<char>, separator: char)
    ensures
        split_at_first(s, separator) is Some <==> s.contains(separator),
        split_at_first(s, separator) matches Some((head, tail)) ==> s == head + seq![separator]
            + tail && !head.contains(separator),
{
    s.index_of_first_ensures(separator);
    if s.contains(separator) {
        let i = s.index_of_first(separator)->0;
        assert(s =~= s.take(i) + seq![separator] + s.skip(i + 1));
        assert forall|j: int| 0 <= j < i implies s.take(i)[j] != separator by {
            assert(s.take(i)[j] == s[j]);
        }
    }
}

/// Splits `s` around the first `separator`.
pub fn split_once(s: &str, separator: char) -> (r: Option<(&str, &str)>)
    ensures
        match r {
            Some((head, tail)) => split_at_first(s@, separator) == Some((head@, tail@)),
            None => split_at_first(s@, separator) is None,
        },
        r is Some <==> s@.contains(separator),
        r matches Some((head, tail)) ==> s@ == head@ + seq![separator] + tail@ && !head@.contains(
            separator,
        ),
{
    proof {
        law_split_parts(s@, separator);
    }
    let n: usize = s.unicode_len();
    let mut i: usize = 0;
    proof {
        s@.index_of_first_ensures(separator);
    }
    for c in it: s.chars()
        invariant
            n == s@.len(),
            i == it.index(),
            it.seq() == s@,
            forall|j: int| 0 <= j < i ==> s@[j] != separator,
    {
        if c == separator {
            proof {
                s@.index_of_first_ensures(separator);
                assert(s@[i as int] == separator);
                assert(s@.contains(separator));
            }
            return Some((s.substring_char(0, i), s.substring_char(i + 1, n)));
        }
        i = i + 1;
    }
    None
}

/// The text of a number is read as that number, so different numbers are written
/// differently, and a minus sign tells negative numbers.
pub proof fn law_written_numbers_read_back(
    n: u64,
    text: String,
    m: i32,
    signed: String,
)
    requires
        call_ensures(decimal_text, (n,), text),
        call_ensures(signed_decimal_text, (m,), signed),
    ensures
        number_value(text@) == n,
        forall|i: int| 0 <= i < text@.len() ==> '0' <= #[trigger] text@[i] <= '9',
        text@.len() > 0,
        text@[0] == '0' ==> text@.len() == 1,
        m >= 0 ==> writes_number(signed@, m as int),
        m < 0 ==> signed@[0] == '-' && writes_number(signed@.skip(1), -m),
{
    law_decimal_writes_number(n as nat);
    law_signed_decimal_writes_number(m as int);
}

/// A text begins with a prefix exactly where something behind the prefix makes
/// up the text.
pub proof fn law_prefix_has_a_rest(s: &str, prefix: &str, r: bool)
    requires
        call_ensures(has_prefix, (s, prefix), r),
    ensures
        r <==> exists|rest: Seq<char>| s@ == #[trigger] (prefix@ + rest),
{
    if r {
        let rest = s@.skip(prefix@.len() as int);
        assert(s@ =~= prefix@ + rest);
    }
    if exists|rest: Seq<char>| s@ == #[trigger] (prefix@ + rest) {
        let rest = choose|rest: Seq<char>| s@ == #[trigger] (prefix@ + rest);
        assert(prefix@ =~= s@.take(prefix@.len() as int));
    }
}

} // verus!
