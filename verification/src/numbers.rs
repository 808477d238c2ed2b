//! Numbers as text: a list of numbers is kept as decimal numbers separated
//! by commas, and read back leniently.

use crate::text::{chars_of, code_point, join, lemma_split_of_join, split, texts};
use vstd::prelude::*;
use vstd::string::*;

verus! {

/// Whether a character is white space in the sense of Unicode's
/// `White_Space` property.
pub open spec fn is_white_space(c: char) -> bool {
    let u = code_point(c);
    u == 0x20 || (0x09 <= u <= 0x0d) || u == 0x85 || u == 0xa0 || u == 0x1680 || (0x2000 <= u
        <= 0x200a) || u == 0x2028 || u == 0x2029 || u == 0x202f || u == 0x205f || u == 0x3000
}

/// A text without its leading white space.
pub open spec fn trim_start(s: Seq<char>) -> Seq<char>
    decreases s.len(),
{
    if s.len() > 0 && is_white_space(s[0]) {
        trim_start(s.drop_first())
    } else {
        s
    }
}

/// A text without its trailing white space.
pub open spec fn trim_end(s: Seq<char>) -> Seq<char>
    decreases s.len(),
{
    if s.len() > 0 && is_white_space(s.last()) {
        trim_end(s.drop_last())
    } else {
        s
    }
}

/// A text without white space at either end.
pub open spec fn trim(s: Seq<char>) -> Seq<char> {
    trim_end(trim_start(s))
}

/// Whether a character is one of the decimal digits `0` to `9`.
pub open spec fn is_decimal_digit(c: char) -> bool {
    0x30 <= code_point(c) <= 0x39
}

/// Whether a text holds decimal digits only.
pub open spec fn all_decimal_digits(s: Seq<char>) -> bool {
    forall|i: int| 0 <= i < s.len() ==> is_decimal_digit(#[trigger] s[i])
}

/// The number that a run of decimal digits writes; leading zeros count for nothing.
pub open spec fn decimal_value(digits: Seq<char>) -> int
    decreases digits.len(),
{
    if digits.len() == 0 {
        0
    } else {
        decimal_value(digits.drop_last()) * 10 + (code_point(digits.last()) - 0x30)
    }
}

/// The `u32` that a run of digits writes: at least one digit and nothing
/// else, the number no larger than `u32::MAX`.
pub open spec fn parse_digits(digits: Seq<char>) -> Option<u32> {
    if digits.len() > 0 && all_decimal_digits(digits) && decimal_value(digits) <= u32::MAX {
        Some(decimal_value(digits) as u32)
    } else {
        None
    }
}

/// The `u32` that a text writes in decimal: an optional `+`, then digits.
pub open spec fn parse_u32(s: Seq<char>) -> Option<u32> {
    if s.len() > 0 && s[0] == '+' {
        parse_digits(s.drop_first())
    } else {
        parse_digits(s)
    }
}

/// The numbers among the pieces: each piece is trimmed and read as a `u32`;
/// a piece that writes none is passed over.
pub open spec fn numbers_among(pieces: Seq<Seq<char>>) -> Seq<u32>
    decreases pieces.len(),
{
    if pieces.len() == 0 {
        Seq::<u32>::empty()
    } else {
        let before = numbers_among(pieces.drop_last());
        match parse_u32(trim(pieces.last())) {
            Some(n) => before.push(n),
            None => before,
        }
    }
}

/// The numbers in a comma-separated list. Each item is trimmed; an item
/// that writes no `u32` is passed over.
pub open spec fn csv_numbers(s: Seq<char>) -> Seq<u32> {
    numbers_among(split(s, ','))
}

/// The character that writes a decimal digit.
pub open spec fn digit_char(d: int) -> char {
    if d == 0 {
        '0'
    } else if d == 1 {
        '1'
    } else if d == 2 {
        '2'
    } else if d == 3 {
        '3'
    } else if d == 4 {
        '4'
    } else if d == 5 {
        '5'
    } else if d == 6 {
        '6'
    } else if d == 7 {
        '7'
    } else if d == 8 {
        '8'
    } else {
        '9'
    }
}

/// A number written in decimal, without sign or leading zeros.
pub open spec fn decimal_text(n: nat) -> Seq<char>
    decreases n,
{
    if n < 10 {
        seq![digit_char(n as int)]
    } else {
        decimal_text(n / 10).push(digit_char((n % 10) as int))
    }
}

/// The numbers written in decimal, number by number.
pub open spec fn decimal_texts(numbers: Seq<u32>) -> Seq<Seq<char>> {
    Seq::new(numbers.len(), |i: int| decimal_text(numbers[i] as nat))
}

/// The numbers written as a comma-separated list.
pub open spec fn csv_of(numbers: Seq<u32>) -> Seq<char> {
    join(decimal_texts(numbers), ',')
}

/// A run of digits writes a number that is not negative.
pub proof fn lemma_decimal_value_nonnegative(digits: Seq<char>)
    requires
        all_decimal_digits(digits),
    ensures
        0 <= decimal_value(digits),
    decreases digits.len(),
{
    if digits.len() > 0 {
        lemma_decimal_value_nonnegative(digits.drop_last());
    }
}

/// A longer run of digits writes no smaller a number than its beginning.
pub proof fn lemma_decimal_value_grows(digits: Seq<char>, k: int)
    requires
        0 <= k <= digits.len(),
        all_decimal_digits(digits),
    ensures
        0 <= decimal_value(digits.take(k)) <= decimal_value(digits),
    decreases digits.len() - k,
{
    lemma_decimal_value_nonnegative(digits.take(k));
    if k < digits.len() {
        let next = digits.take(k + 1);
        assert(next.drop_last() =~= digits.take(k));
        lemma_decimal_value_grows(digits, k + 1);
    } else {
        assert(digits.take(k) =~= digits);
    }
}

/// A number written in decimal is a run of digits that writes the number.
pub proof fn lemma_decimal_text(n: nat)
    ensures
        decimal_text(n).len() >= 1,
        all_decimal_digits(decimal_text(n)),
        decimal_value(decimal_text(n)) == n,
    decreases n,
{
    if n < 10 {
        let t = decimal_text(n);
        assert(decimal_value(t.drop_last()) == 0);
    } else {
        lemma_decimal_text(n / 10);
        let t = decimal_text(n);
        assert(t.drop_last() =~= decimal_text(n / 10));
    }
}

/// A number written in decimal reads back as the same number.
pub proof fn lemma_read_back(n: u32)
    ensures
        parse_u32(trim(decimal_text(n as nat))) == Some(n),
        !decimal_text(n as nat).contains(','),
{
    lemma_decimal_text(n as nat);
}

/// The numbers written in decimal read back as the same numbers.
pub proof fn lemma_numbers_among_decimal_texts(numbers: Seq<u32>)
    ensures
        numbers_among(decimal_texts(numbers)) == numbers,
    decreases numbers.len(),
{
    let pieces = decimal_texts(numbers);
    if numbers.len() > 0 {
        let init = numbers.drop_last();
        lemma_numbers_among_decimal_texts(init);
        assert(pieces.drop_last() =~= decimal_texts(init));
        lemma_read_back(numbers.last());
    }
}

/// A comma-separated list that was written from numbers reads back as the
/// same numbers.
pub proof fn lemma_csv_reads_back(numbers: Seq<u32>)
    ensures
        numbers_among(split(csv_of(numbers), ',')) == numbers,
{
    let pieces = decimal_texts(numbers);
    if numbers.len() == 0 {
        let only = split(csv_of(numbers), ',');
        assert(numbers_among(only.drop_last()) =~= Seq::<u32>::empty());
    } else {
        assert forall|i: int| 0 <= i < pieces.len() implies !(#[trigger] pieces[i]).contains(',') by {
            lemma_read_back(numbers[i]);
        }
        lemma_split_of_join(pieces, ',');
        lemma_numbers_among_decimal_texts(numbers);
    }
}

/// Whether a character is white space.
pub fn is_space(c: char) -> (r: bool)
    ensures
        r == is_white_space(c),
{
    let u: u32 = c as u32;
    u == 0x20 || (0x09 <= u && u <= 0x0d) || u == 0x85 || u == 0xa0 || u == 0x1680 || (0x2000 <= u
        && u <= 0x200a) || u == 0x2028 || u == 0x2029 || u == 0x202f || u == 0x205f || u == 0x3000
}

/// Finds the part of `chars` that is left when white space is trimmed off
/// both ends: the part from the first to just before the second index returned.
pub fn trimmed_range(chars: &Vec<char>) -> (r: (usize, usize))
    ensures
        r.0 <= r.1 <= chars.len(),
        chars@.subrange(r.0 as int, r.1 as int) == trim(chars@),
{
    let n = chars.len();
    let mut a: usize = 0;
    assert(chars@.subrange(0, n as int) =~= chars@);
    while a < n && is_space(chars[a])
        invariant
            a <= n,
            n == chars.len(),
            trim_start(chars@) == trim_start(chars@.subrange(a as int, n as int)),
        decreases n - a,
    {
        assert(chars@.subrange(a as int, n as int).drop_first() =~= chars@.subrange(
            a + 1,
            n as int,
        ));
        a += 1;
    }
    let mut b: usize = n;
    while b > a && is_space(chars[b - 1])
        invariant
            a <= b <= n,
            n == chars.len(),
            trim_start(chars@) == chars@.subrange(a as int, n as int),
            trim(chars@) == trim_end(chars@.subrange(a as int, b as int)),
        decreases b,
    {
        assert(chars@.subrange(a as int, b as int).drop_last() =~= chars@.subrange(
            a as int,
            b - 1,
        ));
        b -= 1;
    }
    (a, b)
}

/// Reads a text as a `u32` written in decimal.
pub fn read_u32(chars: &Vec<char>, from: usize, to: usize) -> (r: Option<u32>)
    requires
        from <= to <= chars.len(),
    ensures
        r == parse_u32(chars@.subrange(from as int, to as int)),
{
    let ghost s = chars@.subrange(from as int, to as int);
    let start: usize = if from < to && chars[from] == '+' {
        from + 1
    } else {
        from
    };
    let ghost digits = chars@.subrange(start as int, to as int);
    assert(digits =~= if s.len() > 0 && s[0] == '+' {
        s.drop_first()
    } else {
        s
    });
    if start == to {
        return None;
    }
    let mut value: u64 = 0;
    let mut i: usize = start;
    while i < to
        invariant
            start <= i <= to <= chars.len(),
            digits == chars@.subrange(start as int, to as int),
            parse_u32(chars@.subrange(from as int, to as int)) == parse_digits(digits),
            all_decimal_digits(digits.take(i - start)),
            value == decimal_value(digits.take(i - start)),
            value <= u32::MAX,
        decreases to - i,
    {
        let c: char = chars[i];
        let u: u32 = c as u32;
        assert(c == digits[i - start]);
        if u < 0x30 || u > 0x39 {
            return None;
        }
        let ghost next = digits.take(i - start + 1);
        assert(next.drop_last() =~= digits.take(i - start));
        let grown: u64 = value * 10 + (u - 0x30) as u64;
        if grown > 0xffff_ffff {
            proof {
                if all_decimal_digits(digits) {
                    lemma_decimal_value_grows(digits, i - start + 1);
                }
            }
            return None;
        }
        value = grown;
        i += 1;
    }
    assert(digits.take(to - start) =~= digits);
    Some(value as u32)
}

/// The numbers that the pieces of a list write.
pub fn read_numbers(pieces: &Vec<String>) -> (numbers: Vec<u32>)
    ensures
        numbers@ == numbers_among(texts(pieces@)),
{
    let mut numbers: Vec<u32> = Vec::new();
    let mut i: usize = 0;
    while i < pieces.len()
        invariant
            i <= pieces.len(),
            numbers@ == numbers_among(texts(pieces@).take(i as int)),
        decreases pieces.len() - i,
    {
        let chars = chars_of(pieces[i].as_str());
        let (from, to) = trimmed_range(&chars);
        let ghost upto = texts(pieces@).take(i + 1);
        assert(upto.drop_last() =~= texts(pieces@).take(i as int));
        match read_u32(&chars, from, to) {
            Some(n) => {
                numbers.push(n);
            },
            None => {},
        }
        i += 1;
    }
    assert(texts(pieces@).take(i as int) =~= texts(pieces@));
    numbers
}

/// The text of a decimal digit.
fn digit_text(d: u32) -> (text: &'static str)
    requires
        d < 10,
    ensures
        text@ == seq![digit_char(d as int)],
{
    proof {
        reveal_strlit("0");
        reveal_strlit("1");
        reveal_strlit("2");
        reveal_strlit("3");
        reveal_strlit("4");
        reveal_strlit("5");
        reveal_strlit("6");
        reveal_strlit("7");
        reveal_strlit("8");
        reveal_strlit("9");
    }
    let text = if d == 0 {
        "0"
    } else if d == 1 {
        "1"
    } else if d == 2 {
        "2"
    } else if d == 3 {
        "3"
    } else if d == 4 {
        "4"
    } else if d == 5 {
        "5"
    } else if d == 6 {
        "6"
    } else if d == 7 {
        "7"
    } else if d == 8 {
        "8"
    } else {
        "9"
    };
    text
}

/// Writes a number in decimal.
pub fn write_decimal(n: u32) -> (text: String)
    ensures
        text@ == decimal_text(n as nat),
    decreases n,
{
    if n < 10 {
        digit_text(n).to_owned()
    } else {
        let mut text = write_decimal(n / 10);
        text.append(digit_text(n % 10));
        text
    }
}

/// Writes numbers as a comma-separated list.
pub fn write_csv(numbers: &Vec<u32>) -> (csv: String)
    ensures
        csv@ == csv_of(numbers@),
{
    let mut csv = String::new();
    let mut i: usize = 0;
    let ghost pieces = decimal_texts(numbers@);
    proof {
        reveal_strlit(",");
    }
    while i < numbers.len()
        invariant
            i <= numbers.len(),
            pieces == decimal_texts(numbers@),
            csv@ == join(pieces.take(i as int), ','),
            ","@.len() == 1,
            ","@[0] == ',',
        decreases numbers.len() - i,
    {
        let ghost upto = pieces.take(i + 1);
        assert(upto.drop_last() =~= pieces.take(i as int));
        if i > 0 {
            csv.append(",");
        }
        let number = write_decimal(numbers[i]);
        csv.append(number.as_str());
        assert(csv@ =~= join(upto, ',')) by {
            assert(","@ =~= seq![',']);
        }
        i += 1;
    }
    assert(pieces.take(i as int) =~= pieces);
    csv
}

} // verus!
