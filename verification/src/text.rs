//! Dates as text: the form `YYYY-MM-DD`.
//!
//! A date is written by [`crate::date::Date::format_date`] and read back by
//! [`parse_date`], which takes exactly the texts that writing produces.

use crate::date::{Date, Ymd};
use vstd::prelude::*;
use vstd::string::StrSliceExecFns;

verus! {

/// The character of a decimal digit.
pub open spec fn digit_char(digit: int) -> char {
    if digit == 0 {
        '0'
    } else if digit == 1 {
        '1'
    } else if digit == 2 {
        '2'
    } else if digit == 3 {
        '3'
    } else if digit == 4 {
        '4'
    } else if digit == 5 {
        '5'
    } else if digit == 6 {
        '6'
    } else if digit == 7 {
        '7'
    } else if digit == 8 {
        '8'
    } else {
        '9'
    }
}

/// The digit that a character stands for, if it is a decimal digit.
pub open spec fn digit_of(c: char) -> Option<nat> {
    if c == '0' {
        Some(0)
    } else if c == '1' {
        Some(1)
    } else if c == '2' {
        Some(2)
    } else if c == '3' {
        Some(3)
    } else if c == '4' {
        Some(4)
    } else if c == '5' {
        Some(5)
    } else if c == '6' {
        Some(6)
    } else if c == '7' {
        Some(7)
    } else if c == '8' {
        Some(8)
    } else if c == '9' {
        Some(9)
    } else {
        None
    }
}

/// The decimal digits of `n`, with zeros put before them until there are at
/// least `width` digits.
pub open spec fn decimal(n: nat, width: int) -> Seq<char>
    decreases n, width,
{
    if n < 10 && width <= 1 {
        seq![digit_char(n as int)]
    } else {
        decimal(n / 10, width - 1).push(digit_char((n % 10) as int))
    }
}

/// How many decimal digits `n` has.
pub open spec fn digit_count(n: nat) -> int
    decreases n,
{
    if n < 10 {
        1
    } else {
        1 + digit_count(n / 10)
    }
}

/// The number that a sequence of decimal digits stands for; none where a
/// character is no digit.
pub open spec fn number_of(digits: Seq<char>) -> Option<nat>
    decreases digits.len(),
{
    if digits.len() == 0 {
        Some(0)
    } else {
        match (number_of(digits.drop_last()), digit_of(digits.last())) {
            (Some(high), Some(low)) => Some(high * 10 + low),
            _ => None,
        }
    }
}

/// The text of a year: four digits for the years 0 to 9999; for any other
/// year a sign, `+` or `-`, and then at least four digits.
pub open spec fn year_text(year: int) -> Seq<char> {
    if 0 <= year <= 9999 {
        decimal(year as nat, 4)
    } else if year < 0 {
        seq!['-'] + decimal((-year) as nat, 4)
    } else {
        seq!['+'] + decimal(year as nat, 4)
    }
}

impl Ymd {
    /// The date as text: the year, a hyphen, the month in two digits, a
    /// hyphen, and the day in two digits.
    pub open spec fn iso_text(self) -> Seq<char> {
        year_text(self.year) + seq!['-'] + decimal(self.month as nat, 2) + seq!['-'] + decimal(
            self.day as nat,
            2,
        )
    }
}

/// What reading `text` as a date may give: a valid date whose text it is,
/// or nothing where it is the text of no valid date.
pub open spec fn is_reading(text: Seq<char>, outcome: Option<Ymd>) -> bool {
    match outcome {
        Some(date) => date.valid() && text == date.iso_text(),
        None => forall|date: Ymd| date.valid() ==> text != #[trigger] date.iso_text(),
    }
}

/// The larger of `width` and the number of digits of `n`.
pub open spec fn padded_width(n: nat, width: int) -> int {
    if digit_count(n) > width {
        digit_count(n)
    } else {
        width
    }
}

/// The digits of a number written with [`decimal`] are as many as the
/// width asks for, or more where the number needs more, and they stand for
/// that number.
pub proof fn lemma_decimal_number(n: nat, width: int)
    ensures
        decimal(n, width).len() == padded_width(n, width),
        number_of(decimal(n, width)) == Some(n),
    decreases n, width,
{
    let text = decimal(n, width);
    if n < 10 && width <= 1 {
        assert(text.drop_last() =~= Seq::empty());
        assert(number_of(text.drop_last()) == Some(0nat));
    } else {
        lemma_decimal_number(n / 10, width - 1);
        assert(text.drop_last() =~= decimal(n / 10, width - 1));
        assert(text.last() == digit_char((n % 10) as int));
    }
}

/// Digits that stand for a number, and are as many as [`decimal`] writes
/// for it, are what [`decimal`] writes.
pub proof fn lemma_number_decimal(digits: Seq<char>, n: nat, width: int)
    requires
        number_of(digits) == Some(n),
        digits.len() == padded_width(n, width),
    ensures
        digits == decimal(n, width),
    decreases digits.len(),
{
    assert(digits.len() >= 1);
    let front = digits.drop_last();
    let high = number_of(front)->0;
    let low = digit_of(digits.last())->0;
    assert(n == high * 10 + low);
    assert(digit_char(low as int) == digits.last());
    if n < 10 && width <= 1 {
        assert(front =~= Seq::empty());
        assert(digits =~= seq![digit_char(n as int)]);
    } else {
        assert(high == n / 10 && low == n % 10);
        lemma_number_decimal(front, n / 10, width - 1);
        assert(digits =~= front.push(digits.last()));
    }
}

/// The size of a year without its sign.
pub open spec fn year_size(year: int) -> nat {
    if year < 0 {
        (-year) as nat
    } else {
        year as nat
    }
}

/// How many characters stand before the digits of a year: one for a sign,
/// or none.
pub open spec fn sign_width(year: int) -> int {
    if 0 <= year <= 9999 {
        0
    } else {
        1
    }
}

/// The shape of the text of a valid date: where its hyphens and its sign
/// stand, and what its three runs of digits are.
pub proof fn lemma_text_shape(date: Ymd)
    requires
        date.valid(),
    ensures
        ({
            let text = date.iso_text();
            let n = text.len() as int;
            let start = sign_width(date.year);
            &&& 10 <= n <= 13
            &&& n == start + padded_width(year_size(date.year), 4) + 6
            &&& text[n - 6] == '-'
            &&& text[n - 3] == '-'
            &&& (text[0] == '-' <==> date.year < 0)
            &&& (text[0] == '+' <==> date.year > 9999)
            &&& text.subrange(start, n - 6) == decimal(year_size(date.year), 4)
            &&& text.subrange(n - 5, n - 3) == decimal(date.month as nat, 2)
            &&& text.subrange(n - 2, n) == decimal(date.day as nat, 2)
        }),
{
    let text = date.iso_text();
    let size = year_size(date.year);
    let year = year_text(date.year);
    let month = decimal(date.month as nat, 2);
    let day = decimal(date.day as nat, 2);
    lemma_decimal_number(size, 4);
    lemma_decimal_number(date.month as nat, 2);
    lemma_decimal_number(date.day as nat, 2);
    lemma_digit_count(size);
    lemma_digit_count(date.month as nat);
    lemma_digit_count(date.day as nat);
    assert(month.len() == 2);
    assert(day.len() == 2);
    let n = text.len() as int;
    let start = sign_width(date.year);
    assert(year.len() == start + padded_width(size, 4));
    assert(text.subrange(start, n - 6) =~= decimal(size, 4));
    assert(text.subrange(n - 5, n - 3) =~= month);
    assert(text.subrange(n - 2, n) =~= day);
    if start == 0 {
        lemma_first_is_digit(size, 4);
        assert(text[0] == decimal(size, 4)[0]);
    }
}

/// The number of digits of the numbers below a million.
pub proof fn lemma_digit_count(n: nat)
    ensures
        n < 10 ==> digit_count(n) == 1,
        10 <= n < 100 ==> digit_count(n) == 2,
        100 <= n < 1000 ==> digit_count(n) == 3,
        1000 <= n < 10000 ==> digit_count(n) == 4,
        10000 <= n < 100000 ==> digit_count(n) == 5,
        100000 <= n < 1000000 ==> digit_count(n) == 6,
        digit_count(n) >= 1,
    decreases n,
{
    if n >= 10 {
        lemma_digit_count(n / 10);
    }
}

/// What [`decimal`] writes begins with a digit.
pub proof fn lemma_first_is_digit(n: nat, width: int)
    ensures
        decimal(n, width).len() >= 1,
        digit_of(decimal(n, width)[0]) is Some,
    decreases n, width,
{
    if !(n < 10 && width <= 1) {
        lemma_first_is_digit(n / 10, width - 1);
    }
}

/// Two valid dates with the same text are the same date.
pub proof fn lemma_text_names_one_date(a: Ymd, b: Ymd)
    requires
        a.valid(),
        b.valid(),
        a.iso_text() == b.iso_text(),
    ensures
        a == b,
{
    lemma_text_shape(a);
    lemma_text_shape(b);
    lemma_decimal_number(year_size(a.year), 4);
    lemma_decimal_number(year_size(b.year), 4);
    lemma_decimal_number(a.month as nat, 2);
    lemma_decimal_number(b.month as nat, 2);
    lemma_decimal_number(a.day as nat, 2);
    lemma_decimal_number(b.day as nat, 2);
}

/// Reading the text of a valid date gives that date back.
pub proof fn lemma_text_round_trip(date: Ymd, outcome: Option<Ymd>)
    requires
        date.valid(),
        is_reading(date.iso_text(), outcome),
    ensures
        outcome == Some(date),
{
    match outcome {
        Some(read) => {
            lemma_text_names_one_date(read, date);
        },
        None => {
            assert(date.iso_text() != date.iso_text());
        },
    }
}

/// The digit that `c` stands for.
fn digit_value(c: char) -> (digit: Option<u32>)
    ensures
        match digit {
            Some(d) => digit_of(c) == Some(d as nat),
            None => digit_of(c) is None,
        },
{
    match c {
        '0' => Some(0),
        '1' => Some(1),
        '2' => Some(2),
        '3' => Some(3),
        '4' => Some(4),
        '5' => Some(5),
        '6' => Some(6),
        '7' => Some(7),
        '8' => Some(8),
        '9' => Some(9),
        _ => None,
    }
}

/// One more than the largest number of so many digits.
spec fn limit(digits: int) -> nat {
    if digits <= 0 {
        1
    } else if digits == 1 {
        10
    } else if digits == 2 {
        100
    } else if digits == 3 {
        1000
    } else if digits == 4 {
        10000
    } else if digits == 5 {
        100000
    } else {
        1000000
    }
}

/// The number that the characters from `from` up to `to` stand for.
fn number_in(chars: &Vec<char>, from: usize, to: usize) -> (number: Option<u32>)
    requires
        from <= to <= chars.len(),
        to - from <= 6,
    ensures
        match number {
            Some(n) => number_of(chars@.subrange(from as int, to as int)) == Some(n as nat) && n
                < limit(to - from),
            None => number_of(chars@.subrange(from as int, to as int)) is None,
        },
{
    let mut number: Option<u32> = Some(0);
    let mut i: usize = from;
    assert(chars@.subrange(from as int, from as int) =~= Seq::empty());
    while i < to
        invariant
            from <= i <= to <= chars.len(),
            to - from <= 6,
            match number {
                Some(n) => number_of(chars@.subrange(from as int, i as int)) == Some(n as nat)
                    && n < limit(i - from),
                None => number_of(chars@.subrange(from as int, i as int)) is None,
            },
        decreases to - i,
    {
        let digit: Option<u32> = digit_value(chars[i]);
        proof {
            let longer = chars@.subrange(from as int, i + 1);
            assert(longer.drop_last() =~= chars@.subrange(from as int, i as int));
            assert(longer.last() == chars@[i as int]);
        }
        number = match (number, digit) {
            (Some(high), Some(low)) => Some(high * 10 + low),
            _ => None,
        };
        i += 1;
    }
    number
}

/// The characters of `text`.
fn chars_of(text: &str) -> (chars: Vec<char>)
    ensures
        chars@ == text@,
{
    let n: usize = text.unicode_len();
    let mut chars: Vec<char> = Vec::new();
    let mut i: usize = 0;
    while i < n
        invariant
            n == text@.len(),
            i <= n,
            chars@ == text@.subrange(0, i as int),
        decreases n - i,
    {
        chars.push(text.get_char(i));
        assert(chars@ =~= text@.subrange(0, i + 1));
        i += 1;
    }
    assert(chars@ =~= text@);
    chars
}

/// Reads a date written as `YYYY-MM-DD`. The answer is the valid date whose
/// text `text` is, character for character; there is none where a part is
/// missing, out of range or not padded with zeros, or where anything else
/// stands in the text.
pub fn parse_date(text: &str) -> (parsed: Option<Date>)
    ensures
        is_reading(
            text@,
            match parsed {
                Some(date) => Some(date@),
                None => None,
            },
        ),
{
    let n: usize = text.unicode_len();
    if n < 10 || n > 13 {
        assert forall|date: Ymd| date.valid() implies text@ != #[trigger] date.iso_text() by {
            lemma_text_shape(date);
        }
        return None;
    }
    let chars: Vec<char> = chars_of(text);
    let first: char = chars[0];
    let start: usize = if first == '+' || first == '-' {
        1
    } else {
        0
    };
    let width: usize = n - 6 - start;
    let year_part: Option<u32> = if width <= 6 {
        number_in(&chars, start, n - 6)
    } else {
        None
    };
    let month_part: Option<u32> = number_in(&chars, n - 5, n - 3);
    let day_part: Option<u32> = number_in(&chars, n - 2, n);
    let hyphens: bool = chars[n - 6] == '-' && chars[n - 3] == '-';
    let found: Option<Date> = match (year_part, month_part, day_part) {
        (Some(size), Some(month), Some(day)) => {
            let digits: usize = if size < 10000 {
                4
            } else if size < 100000 {
                5
            } else {
                6
            };
            let signed_well: bool = if first == '-' {
                size >= 1
            } else if first == '+' {
                size > 9999
            } else {
                size <= 9999
            };
            let year: i32 = if first == '-' {
                -(size as i32)
            } else {
                size as i32
            };
            let date: Date = Date { year, month, day };
            if hyphens && width == digits && signed_well && date.is_valid() {
                proof {
                    let wanted = date@.iso_text();
                    lemma_text_shape(date@);
                    lemma_digit_count(size as nat);
                    lemma_digit_count(month as nat);
                    lemma_digit_count(day as nat);
                    lemma_number_decimal(
                        text@.subrange(start as int, n - 6),
                        size as nat,
                        4,
                    );
                    lemma_number_decimal(text@.subrange(n - 5, n - 3), month as nat, 2);
                    lemma_number_decimal(text@.subrange(n - 2, n as int), day as nat, 2);
                    assert(text@.len() == wanted.len());
                    assert forall|i: int| 0 <= i < n implies text@[i] == wanted[i] by {
                        if start <= i < n - 6 {
                            assert(text@[i] == text@.subrange(start as int, n - 6)[i - start]);
                            assert(wanted[i] == wanted.subrange(start as int, n - 6)[i - start]);
                        } else if n - 5 <= i < n - 3 {
                            assert(text@[i] == text@.subrange(n - 5, n - 3)[i - (n - 5)]);
                            assert(wanted[i] == wanted.subrange(n - 5, n - 3)[i - (n - 5)]);
                        } else if n - 2 <= i {
                            assert(text@[i] == text@.subrange(n - 2, n as int)[i - (n - 2)]);
                            assert(wanted[i] == wanted.subrange(n - 2, n as int)[i - (n - 2)]);
                        }
                    }
                    assert(text@ =~= wanted);
                }
                Some(date)
            } else {
                None
            }
        },
        _ => None,
    };
    if found.is_none() {
        assert forall|date: Ymd| date.valid() implies text@ != #[trigger] date.iso_text() by {
            if text@ == date.iso_text() {
                lemma_text_shape(date);
                lemma_decimal_number(year_size(date.year), 4);
                lemma_decimal_number(date.month as nat, 2);
                lemma_decimal_number(date.day as nat, 2);
                lemma_digit_count(year_size(date.year));
                assert(false);
            }
        }
    }
    found
}

} // verus!
