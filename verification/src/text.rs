//! Text as sequences of characters: comparison, splitting and decimal numbers.
use vstd::prelude::*;

verus! {

/// The outcome of comparing two texts by the code points of their characters.
#[derive(Clone, Copy, PartialEq, Eq, Structural)]
pub enum TextOrder {
    Before,
    Same,
    After,
}

/// `a` comes before `b` in lexicographic order of code points.
pub open spec fn text_before(a: Seq<char>, b: Seq<char>) -> bool
    decreases a.len(),
{
    if b.len() == 0 {
        false
    } else if a.len() == 0 {
        true
    } else if a[0] != b[0] {
        a[0] < b[0]
    } else {
        text_before(a.drop_first(), b.drop_first())
    }
}

/// Compares two texts.
pub fn compare_texts(a: &str, b: &str) -> (order: TextOrder)
    ensures
        order == TextOrder::Before <==> text_before(a@, b@),
        order == TextOrder::Same <==> a@ == b@,
        order == TextOrder::After <==> !text_before(a@, b@) && a@ != b@,
{
    let mut left = a.chars();
    let mut right = b.chars();
    loop
        invariant
            text_before(a@, b@) == text_before(vstd::std_specs::iter::IteratorSpec::remaining(&left), vstd::std_specs::iter::IteratorSpec::remaining(&right)),
            (a@ == b@) == (vstd::std_specs::iter::IteratorSpec::remaining(&left) == vstd::std_specs::iter::IteratorSpec::remaining(&right)),
            vstd::std_specs::iter::IteratorSpec::decrease(&left) is Some,
        decreases vstd::std_specs::iter::IteratorSpec::decrease(&left)->0,
    {
        let ghost l = vstd::std_specs::iter::IteratorSpec::remaining(&left);
        let ghost r = vstd::std_specs::iter::IteratorSpec::remaining(&right);
        match (left.next(), right.next()) {
            (None, None) => {
                assert(l =~= r);
                return TextOrder::Same;
            },
            (None, Some(_)) => {
                return TextOrder::Before;
            },
            (Some(_), None) => {
                return TextOrder::After;
            },
            (Some(c), Some(d)) => {
                if c != d {
                    assert(l[0] != r[0]);
                    return if c < d { TextOrder::Before } else { TextOrder::After };
                }
                assert(l == r <==> l.drop_first() == r.drop_first()) by {
                    assert(l =~= seq![l[0]] + l.drop_first());
                    assert(r =~= seq![r[0]] + r.drop_first());
                }
            },
        }
    }
}

/// No text comes before itself.
pub proof fn text_before_irreflexive(a: Seq<char>)
    ensures
        !text_before(a, a),
    decreases a.len(),
{
    if a.len() > 0 {
        text_before_irreflexive(a.drop_first());
    }
}

/// Of two different texts exactly one comes before the other.
pub proof fn text_before_total(a: Seq<char>, b: Seq<char>)
    ensures
        a != b ==> (text_before(a, b) != text_before(b, a)),
    decreases a.len(),
{
    if a.len() == 0 || b.len() == 0 {
        if a.len() == b.len() {
            assert(a =~= b);
        }
    } else if a[0] == b[0] {
        text_before_total(a.drop_first(), b.drop_first());
        if a.drop_first() == b.drop_first() {
            assert(a =~= seq![a[0]] + a.drop_first());
            assert(b =~= seq![b[0]] + b.drop_first());
        }
    }
}

/// The order of texts is transitive.
pub proof fn text_before_transitive(a: Seq<char>, b: Seq<char>, c: Seq<char>)
    requires
        text_before(a, b),
        text_before(b, c),
    ensures
        text_before(a, c),
    decreases a.len(),
{
    if a.len() > 0 && a[0] == b[0] && b[0] == c[0] {
        text_before_transitive(a.drop_first(), b.drop_first(), c.drop_first());
    }
}

/// Whether two texts hold the same characters.
pub fn same_text(a: &str, b: &str) -> (same: bool)
    ensures
        same == (a@ == b@),
{
    match compare_texts(a, b) {
        TextOrder::Same => true,
        _ => false,
    }
}

/// The characters of a text.
pub fn characters(text: &str) -> (chars: Vec<char>)
    ensures
        chars@ == text@,
{
    let mut chars: Vec<char> = Vec::new();
    for c in iter: text.chars()
        invariant
            chars@ == iter.seq().take(iter.index() as int),
            iter.seq() == text@,
    {
        chars.push(c);
    }
    assert(text@.take(text@.len() as int) =~= text@);
    chars
}

/// An ASCII letter in lower case; any other character as it is.
pub open spec fn ascii_lower(c: char) -> char {
    if 'A' <= c <= 'Z' {
        (c as u32 + 32) as char
    } else {
        c
    }
}

/// Two texts that differ at most in the case of ASCII letters.
pub open spec fn same_ignoring_ascii_case(a: Seq<char>, b: Seq<char>) -> bool {
    &&& a.len() == b.len()
    &&& forall|i: int| 0 <= i < a.len() ==> ascii_lower(#[trigger] a[i]) == ascii_lower(b[i])
}

fn lower_case(c: char) -> (lower: char)
    ensures
        lower == ascii_lower(c),
{
    if 'A' <= c && c <= 'Z' {
        ((c as u8) + 32) as char
    } else {
        c
    }
}

/// Compares two texts, taking ASCII letters of either case for the same.
pub fn equals_ignoring_ascii_case(a: &str, b: &str) -> (same: bool)
    ensures
        same == same_ignoring_ascii_case(a@, b@),
{
    let left = characters(a);
    let right = characters(b);
    if left.len() != right.len() {
        return false;
    }
    for i in 0..left.len()
        invariant
            left@ == a@,
            right@ == b@,
            left.len() == right.len(),
            forall|j: int| 0 <= j < i ==> ascii_lower(#[trigger] a@[j]) == ascii_lower(b@[j]),
    {
        if lower_case(left[i]) != lower_case(right[i]) {
            assert(ascii_lower(a@[i as int]) != ascii_lower(b@[i as int]));
            return false;
        }
    }
    true
}

/// The decimal digit for a number below ten.
pub open spec fn digit_char(digit: int) -> char {
    ('0' as int + digit) as char
}

/// The decimal digits of a natural number, most significant first, without leading zeros.
pub open spec fn decimal_digits(n: nat) -> Seq<char>
    decreases n,
{
    if n < 10 {
        seq![digit_char(n as int)]
    } else {
        decimal_digits(n / 10).push(digit_char((n % 10) as int))
    }
}

/// An integer written in decimal, with a minus sign where it is negative.
pub open spec fn decimal(n: int) -> Seq<char> {
    if n < 0 {
        seq!['-'] + decimal_digits((-n) as nat)
    } else {
        decimal_digits(n as nat)
    }
}

fn digit_text(digit: u64) -> (text: &'static str)
    requires
        digit < 10,
    ensures
        text@ == seq![digit_char(digit as int)],
{
    proof {
        reveal_strlit("0");
        reveal_strlit("1");
        reveal_strlit("2");
        reveal_strlit("3");
        reveal_strlit("4");
        reveal_strlit("5");
        reveal_strlit("6");
        reveal_strlit("7");
        reveal_strlit("8");
        reveal_strlit("9");
    }
    match digit {
        0 => "0",
        1 => "1",
        2 => "2",
        3 => "3",
        4 => "4",
        5 => "5",
        6 => "6",
        7 => "7",
        8 => "8",
        _ => "9",
    }
}

/// Writes an unsigned integer in decimal.
pub fn unsigned_text(n: u64) -> (text: String)
    ensures
        text@ == decimal(n as int),
    decreases n,
{
    if n < 10 {
        digit_text(n).to_owned()
    } else {
        let mut text = unsigned_text(n / 10);
        text.append(digit_text(n % 10));
        assert(text@ =~= decimal(n as int));
        text
    }
}

/// Writes a signed integer in decimal.
pub fn signed_text(n: i64) -> (text: String)
    ensures
        text@ == decimal(n as int),
{
    if n < 0 {
        let magnitude: u64 = (-(n + 1)) as u64 + 1;
        let mut text = "-".to_owned();
        proof {
            reveal_strlit("-");
        }
        text.append(unsigned_text(magnitude).as_str());
        assert(text@ =~= decimal(n as int));
        text
    } else {
        unsigned_text(n as u64)
    }
}

/// A decimal digit.
pub open spec fn is_digit(c: char) -> bool {
    '0' <= c <= '9'
}

/// Nothing but decimal digits.
pub open spec fn all_digits(text: Seq<char>) -> bool {
    forall|i: int| 0 <= i < text.len() ==> is_digit(#[trigger] text[i])
}

/// The number that decimal digits stand for.
pub open spec fn digits_value(digits: Seq<char>) -> int
    decreases digits.len(),
{
    if digits.len() == 0 {
        0
    } else {
        digits_value(digits.drop_last()) * 10 + (digits.last() as int - '0' as int)
    }
}

/// The integer of 32 bits that a text is: a sign or none, then digits and nothing else.
pub open spec fn parsed_i32(text: Seq<char>) -> Option<i32> {
    let signed = text.len() > 0 && (text[0] == '+' || text[0] == '-');
    let digits = if signed { text.drop_first() } else { text };
    let value = if signed && text[0] == '-' { -digits_value(digits) } else { digits_value(digits) };
    if digits.len() > 0 && all_digits(digits) && i32::MIN <= value <= i32::MAX {
        Some(value as i32)
    } else {
        None
    }
}

/// The pieces of a text between the occurrences of a separator.
pub open spec fn pieces(text: Seq<char>, separator: char) -> Seq<Seq<char>>
    decreases text.len(),
{
    if text.contains(separator) {
        let end = text.index_of_first(separator)->0;
        proof {
            text.index_of_first_ensures(separator);
        }
        seq![text.take(end)] + pieces(text.skip(end + 1), separator)
    } else {
        seq![text]
    }
}

/// The digits of a number stand for that number.
pub proof fn decimal_digits_stand_for_number(n: nat)
    ensures
        decimal_digits(n).len() > 0,
        all_digits(decimal_digits(n)),
        digits_value(decimal_digits(n)) == n,
    decreases n,
{
    if n < 10 {
        let digits = decimal_digits(n);
        assert(digits.drop_last() =~= Seq::<char>::empty());
        assert(digits_value(digits.drop_last()) == 0);
    } else {
        decimal_digits_stand_for_number(n / 10);
        let digits = decimal_digits(n);
        assert(digits.drop_last() =~= decimal_digits(n / 10));
        assert(digits.last() == digit_char((n % 10) as int));
        assert(n == (n / 10) * 10 + n % 10);
    }
}

/// Different integers are written differently.
pub proof fn decimal_is_injective(a: int, b: int)
    requires
        decimal(a) == decimal(b),
    ensures
        a == b,
{
    if a < 0 {
        decimal_digits_stand_for_number((-a) as nat);
        assert(decimal(a)[0] == '-');
        assert(decimal(a).drop_first() =~= decimal_digits((-a) as nat));
    } else {
        decimal_digits_stand_for_number(a as nat);
        assert(is_digit(decimal(a)[0]));
    }
    if b < 0 {
        decimal_digits_stand_for_number((-b) as nat);
        assert(decimal(b)[0] == '-');
        assert(decimal(b).drop_first() =~= decimal_digits((-b) as nat));
    } else {
        decimal_digits_stand_for_number(b as nat);
        assert(is_digit(decimal(b)[0]));
    }
}

/// Reading back what was written gives the number.
pub proof fn parsed_decimal_is_number(n: i32)
    ensures
        parsed_i32(decimal(n as int)) == Some(n),
{
    if n < 0 {
        decimal_digits_stand_for_number((-n) as nat);
        assert(decimal(n as int).drop_first() =~= decimal_digits((-n) as nat));
    } else {
        decimal_digits_stand_for_number(n as nat);
        assert(is_digit(decimal(n as int)[0]));
    }
}

/// The integer of 32 bits that a part of a text is.
pub(crate) fn parse_i32(chars: &Vec<char>, start: usize, end: usize) -> (result: Option<i32>)
    requires
        start <= end <= chars@.len(),
    ensures
        result == parsed_i32(chars@.subrange(start as int, end as int)),
{
    let ghost text = chars@.subrange(start as int, end as int);
    let signed = start < end && (chars[start] == '+' || chars[start] == '-');
    let negative = signed && chars[start] == '-';
    let first: usize = if signed { start + 1 } else { start };
    let ghost digits = if signed { text.drop_first() } else { text };
    assert(digits =~= chars@.subrange(first as int, end as int));
    if first == end {
        return None;
    }
    let mut value: i64 = 0;
    let mut i: usize = first;
    while i < end
        invariant
            start <= first <= i <= end <= chars@.len(),
            !all_digits(digits) ==> parsed_i32(chars@.subrange(start as int, end as int)) is None,
            digits == chars@.subrange(first as int, end as int),
            forall|k: int| 0 <= k < i - first ==> is_digit(#[trigger] digits[k]),
            0 <= value <= 0x1_0000_0000,
            value < 0x1_0000_0000 ==> value == digits_value(digits.take(i - first)),
            value == 0x1_0000_0000 ==> digits_value(digits.take(i - first)) >= 0x1_0000_0000,
        decreases end - i,
    {
        let c = chars[i];
        assert(digits[i - first] == c);
        if !('0' <= c && c <= '9') {
            assert(!is_digit(digits[i - first]));
            return None;
        }
        let digit: i64 = (c as u8 - '0' as u8) as i64;
        let ghost before = digits.take(i - first);
        let ghost after = digits.take(i - first + 1);
        assert(after.drop_last() =~= before);
        assert(after.last() == c);
        let next: i64 = value * 10 + digit;
        value = if next < 0x1_0000_0000 { next } else { 0x1_0000_0000 };
        i = i + 1;
    }
    assert(digits.take(end - first) =~= digits);
    if negative {
        if value <= 0x8000_0000 {
            Some((-value) as i32)
        } else {
            None
        }
    } else if value <= 0x7fff_ffff {
        Some(value as i32)
    } else {
        None
    }
}

/// The first place where two texts differ decides their order: by the characters there, or, where
/// one of the texts ends, by the lengths.
pub proof fn first_difference_decides(a: Seq<char>, b: Seq<char>, place: int)
    requires
        0 <= place <= a.len(),
        place <= b.len(),
        forall|i: int| 0 <= i < place ==> a[i] == b[i],
        place == a.len() || place == b.len() || a[place] != b[place],
    ensures
        text_before(a, b) == if place < a.len() && place < b.len() {
            a[place] < b[place]
        } else {
            a.len() < b.len()
        },
    decreases place,
{
    if place > 0 {
        let x = a.drop_first();
        let y = b.drop_first();
        assert forall|i: int| 0 <= i < place - 1 implies x[i] == y[i] by {
            assert(a[i + 1] == b[i + 1]);
        }
        first_difference_decides(x, y, place - 1);
    }
}

/// The letters of the Latin alphabet have their small ones, and no other character is changed.
pub proof fn small_letters_stand_for_capitals(c: char, place: int)
    requires
        0 <= place < 26,
    ensures
        ascii_lower("ABCDEFGHIJKLMNOPQRSTUVWXYZ"@[place]) == "abcdefghijklmnopqrstuvwxyz"@[place],
        !"ABCDEFGHIJKLMNOPQRSTUVWXYZ"@.contains(c) ==> ascii_lower(c) == c,
{
    reveal_strlit("ABCDEFGHIJKLMNOPQRSTUVWXYZ");
    reveal_strlit("abcdefghijklmnopqrstuvwxyz");
    let capitals = "ABCDEFGHIJKLMNOPQRSTUVWXYZ"@;
    if 'A' <= c <= 'Z' {
        assert(capitals[c as int - 'A' as int] == c);
    }
}

/// Texts that are the same but for the case of letters are those that are the same in small
/// letters.
pub proof fn texts_agree_in_small_letters(a: Seq<char>, b: Seq<char>)
    ensures
        same_ignoring_ascii_case(a, b) <==> a.map_values(|c: char| ascii_lower(c)) == b.map_values(
            |c: char| ascii_lower(c),
        ),
{
    let x = a.map_values(|c: char| ascii_lower(c));
    let y = b.map_values(|c: char| ascii_lower(c));
    if same_ignoring_ascii_case(a, b) {
        assert forall|i: int| 0 <= i < x.len() implies x[i] == y[i] by {
            assert(ascii_lower(a[i]) == ascii_lower(b[i]));
        }
        assert(x =~= y);
    }
    if x == y {
        assert(a.len() == x.len() && b.len() == y.len());
        assert forall|i: int| 0 <= i < a.len() implies ascii_lower(#[trigger] a[i]) == ascii_lower(b[i]) by {
            assert(x[i] == y[i]);
        }
    }
}

/// A further digit multiplies a number by ten and adds the digit, in the number that a text stands
/// for and in the text of a number; the digits are those from 0 to 9.
pub proof fn digits_count_by_tens(digits: Seq<char>, n: nat, digit: int)
    requires
        0 <= digit < 10,
    ensures
        digits_value(Seq::empty()) == 0,
        digits_value(digits.push("0123456789"@[digit])) == 10 * digits_value(digits) + digit,
        decimal(digit) == seq!["0123456789"@[digit]],
        n > 0 ==> decimal(10 * n + digit) == decimal(n as int).push("0123456789"@[digit]),
{
    reveal_strlit("0123456789");
    let c = "0123456789"@[digit];
    assert(c == digit_char(digit));
    assert(digits.push(c).drop_last() =~= digits);
    if n > 0 {
        assert((10 * n + digit) / 10 == n as int);
        assert((10 * n + digit) % 10 == digit);
    }
}

/// A negative number is written as its opposite with a minus sign before it.
pub proof fn minus_stands_before_number(n: int)
    requires
        n > 0,
    ensures
        decimal(-n) == seq!['-'] + decimal(n),
{
}

/// A digit is one of the characters from 0 to 9.
pub proof fn digits_are_ten(c: char)
    ensures
        is_digit(c) <==> "0123456789"@.contains(c),
        all_digits(seq![c]) <==> "0123456789"@.contains(c),
{
    reveal_strlit("0123456789");
    let digits = "0123456789"@;
    if is_digit(c) {
        assert(digits[c as int - '0' as int] == c);
    }
    if all_digits(seq![c]) {
        assert(is_digit(seq![c][0]));
    }
}

/// A text is all digits where each of its characters is one.
pub proof fn all_digits_holds_of_each(text: Seq<char>)
    ensures
        all_digits(text) <==> forall|i: int|
            0 <= i < text.len() ==> "0123456789"@.contains(#[trigger] text[i]),
{
    assert forall|i: int| 0 <= i < text.len() implies is_digit(#[trigger] text[i])
        == "0123456789"@.contains(text[i]) by {
        digits_are_ten(text[i]);
    }
    if forall|i: int| 0 <= i < text.len() ==> "0123456789"@.contains(#[trigger] text[i]) {
        assert forall|i: int| 0 <= i < text.len() implies is_digit(#[trigger] text[i]) by {
            assert("0123456789"@.contains(text[i]));
        }
    }
}

/// Digits are read as the number that they stand for, with either sign before them or none, as
/// long as it fits.
pub proof fn digits_are_read_with_sign(digits: Seq<char>)
    requires
        digits.len() > 0,
        all_digits(digits),
    ensures
        parsed_i32(digits) == if digits_value(digits) <= 2147483647 {
            Some(digits_value(digits) as i32)
        } else {
            None
        },
        parsed_i32(seq!['+'] + digits) == parsed_i32(digits),
        parsed_i32(seq!['-'] + digits) == if digits_value(digits) <= 2147483648 {
            Some((-digits_value(digits)) as i32)
        } else {
            None
        },
{
    assert(is_digit(digits[0]));
    digits_value_is_natural(digits);
    assert((seq!['+'] + digits).drop_first() =~= digits);
    assert((seq!['-'] + digits).drop_first() =~= digits);
}

proof fn digits_value_is_natural(digits: Seq<char>)
    requires
        all_digits(digits),
    ensures
        digits_value(digits) >= 0,
    decreases digits.len(),
{
    if digits.len() > 0 {
        assert(all_digits(digits.drop_last()));
        digits_value_is_natural(digits.drop_last());
        assert(is_digit(digits[digits.len() - 1]));
    }
}

/// Nothing is read as a number but digits with a sign before them or none.
pub proof fn nothing_else_is_read(text: Seq<char>)
    requires
        parsed_i32(text) is Some,
    ensures
        text.len() > 0,
        all_digits(text) || (text.len() > 1 && (text[0] == '+' || text[0] == '-') && all_digits(
            text.drop_first(),
        )),
{
}

/// A text without the separator is its only piece; else the first piece is what stands before the
/// first separator, and the others are the pieces of what stands after it.
pub proof fn separator_parts_pieces(first: Seq<char>, rest: Seq<char>, separator: char)
    requires
        !first.contains(separator),
    ensures
        pieces(first, separator) == seq![first],
        pieces(first + seq![separator] + rest, separator) == seq![first] + pieces(rest, separator),
{
    let text = first + seq![separator] + rest;
    let end = first.len() as int;
    text.index_of_first_ensures(separator);
    assert(text[end] == separator);
    let found = text.index_of_first(separator)->0;
    if found < end {
        assert(first[found] == separator);
    }
    assert(text.take(end) =~= first);
    assert(text.skip(end + 1) =~= rest);
}

} // verus!
