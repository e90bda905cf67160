//! Fixed-point money: an unsigned count of ten-thousandths.

use vstd::prelude::*;
use vstd::string::*;

verus! {

/// Number of decimal digits after the point.
pub const SCALE_DIGITS: usize = 4;

/// Number of units in one whole: ten to the power of `SCALE_DIGITS`.
pub const UNITS_PER_WHOLE: u64 = 10000;

/// An amount of money, counted in ten-thousandths of the currency unit.
#[derive(Clone, Copy, Debug, PartialEq, Eq, Structural)]
pub struct Money {
    pub units: u64,
}

/// Why an arithmetic operation on `Money` failed.
#[derive(Clone, Copy, Debug, PartialEq, Eq, Structural)]
pub enum ArithmeticError {
    /// The sum does not fit the backing integer.
    Overflow,
    /// The difference would be negative.
    Underflow,
}

impl View for Money {
    type V = nat;

    open spec fn view(&self) -> nat {
        self.units as nat
    }
}

impl Money {
    /// The amount zero.
    pub fn zero() -> (r: Money)
        ensures
            r@ == 0,
    {
        Money { units: 0 }
    }

    /// The amount of `units` ten-thousandths.
    pub fn from_units(units: u64) -> (r: Money)
        ensures
            r@ == units,
    {
        Money { units }
    }

    /// The sum of two amounts, or `Overflow` where it exceeds `u64::MAX` units.
    pub fn checked_add(self, other: Money) -> (r: Result<Money, ArithmeticError>)
        ensures
            self@ + other@ <= u64::MAX ==> r == Ok::<Money, ArithmeticError>(
                Money { units: (self@ + other@) as u64 },
            ),
            self@ + other@ > u64::MAX ==> r == Err::<Money, ArithmeticError>(
                ArithmeticError::Overflow,
            ),
    {
        if other.units <= u64::MAX - self.units {
            Ok(Money { units: self.units + other.units })
        } else {
            Err(ArithmeticError::Overflow)
        }
    }

    /// The difference of two amounts, or `Underflow` where it would be negative.
    pub fn checked_sub(self, other: Money) -> (r: Result<Money, ArithmeticError>)
        ensures
            other@ <= self@ ==> r == Ok::<Money, ArithmeticError>(
                Money { units: (self@ - other@) as u64 },
            ),
            other@ > self@ ==> r == Err::<Money, ArithmeticError>(ArithmeticError::Underflow),
    {
        if other.units <= self.units {
            Ok(Money { units: self.units - other.units })
        } else {
            Err(ArithmeticError::Underflow)
        }
    }
}

/// Why a decimal text is not an amount of money.
#[derive(Clone, Copy, Debug, PartialEq, Eq, Structural)]
pub enum ParseError {
    /// The text is empty.
    Empty,
    /// A character is neither a decimal digit nor the first decimal point.
    InvalidCharacter,
    /// The text holds a decimal point and no digit.
    NoDigits,
    /// More than four digits follow the decimal point.
    TooManyFractionDigits,
    /// The amount exceeds `u64::MAX` ten-thousandths.
    OutOfRange,
}

/// Whether `c` is one of the ten decimal digits.
pub open spec fn is_digit(c: char) -> bool {
    '0' <= c && c <= '9'
}

/// The number that the decimal digit `c` stands for.
pub open spec fn digit_value(c: char) -> nat
    recommends
        is_digit(c),
{
    (c as u32 - '0' as u32) as nat
}

/// The decimal digit that stands for `d`.
pub open spec fn digit_char(d: nat) -> char
    recommends
        d < 10,
{
    if d == 0 {
        '0'
    } else if d == 1 {
        '1'
    } else if d == 2 {
        '2'
    } else if d == 3 {
        '3'
    } else if d == 4 {
        '4'
    } else if d == 5 {
        '5'
    } else if d == 6 {
        '6'
    } else if d == 7 {
        '7'
    } else if d == 8 {
        '8'
    } else {
        '9'
    }
}

/// Whether every character of `s` is a decimal digit.
pub open spec fn all_digits(s: Seq<char>) -> bool {
    forall|i: int| 0 <= i < s.len() ==> is_digit(#[trigger] s[i])
}

/// The number that the digit string `s` denotes in base ten; the empty string denotes zero.
pub open spec fn decimal_value(s: Seq<char>) -> nat
    decreases s.len(),
{
    if s.len() == 0 {
        0
    } else {
        decimal_value(s.drop_last()) * 10 + digit_value(s.last())
    }
}

/// Ten to the power of `n`.
pub open spec fn pow10(n: nat) -> nat
    decreases n,
{
    if n == 0 {
        1
    } else {
        10 * pow10((n - 1) as nat)
    }
}

/// The position of the first decimal point in `s`, or the length of `s` where it has none.
pub open spec fn point_index(s: Seq<char>) -> nat
    decreases s.len(),
{
    if s.len() == 0 || s[0] == '.' {
        0
    } else {
        1 + point_index(s.drop_first())
    }
}

/// The characters of `s` before its first decimal point.
pub open spec fn whole_part(s: Seq<char>) -> Seq<char> {
    s.subrange(0, point_index(s) as int)
}

/// The characters of `s` after its first decimal point; empty where it has none.
pub open spec fn fraction_part(s: Seq<char>) -> Seq<char> {
    if point_index(s) < s.len() {
        s.subrange(point_index(s) as int + 1, s.len() as int)
    } else {
        Seq::empty()
    }
}

/// The amount that a decimal text denotes, or the reason why it denotes none.
///
/// A text is an amount when it consists of decimal digits with at most one decimal
/// point among them, at least one digit, at most four digits after the point, and
/// a value of at most `u64::MAX` ten-thousandths.
pub open spec fn parse_spec(s: Seq<char>) -> Result<Money, ParseError> {
    let whole = whole_part(s);
    let fraction = fraction_part(s);
    let units = decimal_value(whole) * UNITS_PER_WHOLE + decimal_value(fraction) * pow10(
        (SCALE_DIGITS - fraction.len()) as nat,
    );
    if s.len() == 0 {
        Err(ParseError::Empty)
    } else if !all_digits(whole) || !all_digits(fraction) {
        Err(ParseError::InvalidCharacter)
    } else if whole.len() + fraction.len() == 0 {
        Err(ParseError::NoDigits)
    } else if fraction.len() > SCALE_DIGITS {
        Err(ParseError::TooManyFractionDigits)
    } else if units > u64::MAX {
        Err(ParseError::OutOfRange)
    } else {
        Ok(Money { units: units as u64 })
    }
}

/// The decimal digits of `n`, most significant first, without leading zeros.
pub open spec fn digits_of(n: nat) -> Seq<char>
    decreases n,
{
    if n < 10 {
        seq![digit_char(n)]
    } else {
        digits_of(n / 10).push(digit_char(n % 10))
    }
}

/// The four decimal digits of `n`, with leading zeros.
pub open spec fn four_digits(n: nat) -> Seq<char>
    recommends
        n < 10000,
{
    seq![
        digit_char(n / 1000),
        digit_char(n / 100 % 10),
        digit_char(n / 10 % 10),
        digit_char(n % 10),
    ]
}

/// The decimal text of `units` ten-thousandths: the whole part, a point, four digits.
pub open spec fn format_spec(units: nat) -> Seq<char> {
    digits_of(units / (UNITS_PER_WHOLE as nat)) + seq!['.'] + four_digits(
        units % (UNITS_PER_WHOLE as nat),
    )
}

/// The first decimal point of `s` stands at `point_index(s)`, and none stands before it.
pub proof fn lemma_point_index(s: Seq<char>)
    ensures
        point_index(s) <= s.len(),
        point_index(s) < s.len() ==> s[point_index(s) as int] == '.',
        forall|j: int| 0 <= j < point_index(s) ==> #[trigger] s[j] != '.',
    decreases s.len(),
{
    if s.len() == 0 || s[0] == '.' {
    } else {
        let t = s.drop_first();
        lemma_point_index(t);
        assert forall|j: int| 0 <= j < point_index(s) implies #[trigger] s[j] != '.' by {
            if j > 0 {
                assert(s[j] == t[j - 1]);
            }
        }
    }
}

/// A position that holds the first decimal point of `s`, or its end, is `point_index(s)`.
pub proof fn lemma_point_index_is(s: Seq<char>, p: int)
    requires
        0 <= p <= s.len(),
        p < s.len() ==> s[p] == '.',
        forall|j: int| 0 <= j < p ==> #[trigger] s[j] != '.',
    ensures
        point_index(s) == p,
{
    lemma_point_index(s);
    let q = point_index(s) as int;
    if q < p {
        assert(s[q] != '.');
    } else if p < q {
        assert(s[p] != '.');
    }
}

/// Appending one digit multiplies the value by ten and adds the digit.
pub proof fn lemma_decimal_value_push(s: Seq<char>, c: char)
    ensures
        decimal_value(s.push(c)) == decimal_value(s) * 10 + digit_value(c),
{
    assert(s.push(c).drop_last() =~= s);
    assert(s.push(c).last() == c);
}

/// A digit string of length `n` denotes a number below ten to the `n`.
pub proof fn lemma_decimal_value_bound(s: Seq<char>)
    requires
        all_digits(s),
    ensures
        decimal_value(s) < pow10(s.len()),
    decreases s.len(),
{
    if s.len() > 0 {
        let t = s.drop_last();
        assert forall|i: int| 0 <= i < t.len() implies is_digit(#[trigger] t[i]) by {
            assert(t[i] == s[i]);
        }
        lemma_decimal_value_bound(t);
        assert(is_digit(s.last()));
        assert(digit_value(s.last()) <= 9);
    }
}

/// `digit_char` and `digit_value` are inverse on the ten digits.
pub proof fn lemma_digit_char_value(d: nat)
    requires
        d < 10,
    ensures
        is_digit(digit_char(d)),
        digit_value(digit_char(d)) == d,
        digit_char(d) != '.',
{
}

/// The digits of a number are digits, and denote that number.
pub proof fn lemma_digits_of(n: nat)
    ensures
        all_digits(digits_of(n)),
        digits_of(n).len() >= 1,
        decimal_value(digits_of(n)) == n,
    decreases n,
{
    if n < 10 {
        lemma_digit_char_value(n);
        let s = digits_of(n);
        assert(s.drop_last() =~= Seq::<char>::empty());
        assert(decimal_value(s.drop_last()) == 0);
    } else {
        lemma_digits_of(n / 10);
        lemma_digit_char_value(n % 10);
        lemma_decimal_value_push(digits_of(n / 10), digit_char(n % 10));
    }
}

/// The four digits of a number below ten thousand are digits, and denote that number.
pub proof fn lemma_four_digits(n: nat)
    requires
        n < 10000,
    ensures
        all_digits(four_digits(n)),
        four_digits(n).len() == 4,
        decimal_value(four_digits(n)) == n,
{
    let d0 = digit_char(n / 1000);
    let d1 = digit_char(n / 100 % 10);
    let d2 = digit_char(n / 10 % 10);
    let d3 = digit_char(n % 10);
    lemma_digit_char_value(n / 1000);
    lemma_digit_char_value(n / 100 % 10);
    lemma_digit_char_value(n / 10 % 10);
    lemma_digit_char_value(n % 10);
    let e = Seq::<char>::empty();
    assert(four_digits(n) =~= e.push(d0).push(d1).push(d2).push(d3));
    lemma_decimal_value_push(e, d0);
    lemma_decimal_value_push(e.push(d0), d1);
    lemma_decimal_value_push(e.push(d0).push(d1), d2);
    lemma_decimal_value_push(e.push(d0).push(d1).push(d2), d3);
}

/// Formatting an amount and parsing the text again gives the amount back.
pub proof fn lemma_format_parse_round_trip(m: Money)
    ensures
        parse_spec(format_spec(m@)) == Ok::<Money, ParseError>(m),
{
    let whole = digits_of(m@ / 10000);
    let fraction = four_digits(m@ % 10000);
    let s = format_spec(m@);
    lemma_digits_of(m@ / 10000);
    lemma_four_digits(m@ % 10000);
    let p = whole.len() as int;
    assert(s.len() == p + 5);
    assert(s[p] == '.');
    assert forall|j: int| 0 <= j < p implies #[trigger] s[j] != '.' by {
        assert(s[j] == whole[j]);
        assert(is_digit(whole[j]));
    }
    lemma_point_index_is(s, p);
    assert(whole_part(s) =~= whole);
    assert(fraction_part(s) =~= fraction);
    assert(pow10(0) == 1);
    assert((4 - fraction_part(s).len()) as nat == 0);
}

/// The characters of `s`, in order.
fn characters(s: &str) -> (v: Vec<char>)
    ensures
        v@ == s@,
{
    let mut v: Vec<char> = Vec::new();
    for c in it: s.chars()
        invariant
            it.seq() == s@,
            v@ == it.seq().take(it.index() as int),
    {
        v.push(c);
    }
    v
}

/// The position of the first decimal point in `text`, or its length.
fn find_point(text: &Vec<char>) -> (p: usize)
    ensures
        p == point_index(text@),
        p <= text.len(),
{
    let mut i: usize = 0;
    while i < text.len() && text[i] != '.'
        invariant
            i <= text.len(),
            forall|j: int| 0 <= j < i ==> #[trigger] text@[j] != '.',
        decreases text.len() - i,
    {
        i += 1;
    }
    proof {
        lemma_point_index_is(text@, i as int);
    }
    i
}

/// Whether the characters from `from` up to `to` are all decimal digits.
fn digits_between(text: &Vec<char>, from: usize, to: usize) -> (b: bool)
    requires
        from <= to <= text.len(),
    ensures
        b == all_digits(text@.subrange(from as int, to as int)),
{
    let ghost part = text@.subrange(from as int, to as int);
    let mut i: usize = from;
    while i < to
        invariant
            from <= i <= to <= text.len(),
            part == text@.subrange(from as int, to as int),
            forall|j: int| 0 <= j < i - from ==> is_digit(#[trigger] part[j]),
        decreases to - i,
    {
        let c = text[i];
        proof {
            assert(part[i - from] == c);
        }
        if c < '0' || c > '9' {
            return false;
        }
        i += 1;
    }
    true
}

/// The number that the digits from `from` up to `to` denote, or `None` where it exceeds `u64::MAX`.
fn value_between(text: &Vec<char>, from: usize, to: usize) -> (r: Option<u64>)
    requires
        from <= to <= text.len(),
        all_digits(text@.subrange(from as int, to as int)),
    ensures
        match r {
            Some(v) => v == decimal_value(text@.subrange(from as int, to as int)),
            None => decimal_value(text@.subrange(from as int, to as int)) > u64::MAX,
        },
{
    let ghost part = text@.subrange(from as int, to as int);
    let mut acc: u64 = 0;
    let mut exceeded = false;
    let mut i: usize = from;
    proof {
        assert(part.subrange(0, 0) =~= Seq::<char>::empty());
    }
    while i < to
        invariant
            from <= i <= to <= text.len(),
            part == text@.subrange(from as int, to as int),
            all_digits(part),
            !exceeded ==> acc == decimal_value(part.subrange(0, i - from)),
            exceeded ==> decimal_value(part.subrange(0, i - from)) > u64::MAX,
        decreases to - i,
    {
        let c = text[i];
        proof {
            let before = part.subrange(0, i - from);
            assert(part[i - from] == c);
            assert(is_digit(part[i - from]));
            assert(part.subrange(0, i - from + 1) =~= before.push(c));
            lemma_decimal_value_push(before, c);
        }
        let d: u64 = (c as u32 - '0' as u32) as u64;
        if !exceeded {
            if acc > (u64::MAX - d) / 10 {
                exceeded = true;
            } else {
                acc = acc * 10 + d;
            }
        }
        i += 1;
    }
    proof {
        assert(part.subrange(0, to - from) =~= part);
    }
    if exceeded {
        None
    } else {
        Some(acc)
    }
}

impl Money {
    /// Reads an amount from its decimal text.
    pub fn parse(s: &str) -> (r: Result<Money, ParseError>)
        ensures
            r == parse_spec(s@),
    {
        let text = characters(s);
        let n = text.len();
        if n == 0 {
            return Err(ParseError::Empty);
        }
        let p = find_point(&text);
        let start = if p < n {
            p + 1
        } else {
            n
        };
        proof {
            assert(fraction_part(text@) =~= text@.subrange(start as int, n as int));
        }
        if !digits_between(&text, 0, p) || !digits_between(&text, start, n) {
            return Err(ParseError::InvalidCharacter);
        }
        let places = n - start;
        if p + places == 0 {
            return Err(ParseError::NoDigits);
        }
        if places > SCALE_DIGITS {
            return Err(ParseError::TooManyFractionDigits);
        }
        let whole = value_between(&text, 0, p);
        let fraction = value_between(&text, start, n);
        let ghost whole_value = decimal_value(whole_part(text@));
        let ghost fraction_value = decimal_value(fraction_part(text@));
        proof {
            lemma_decimal_value_bound(fraction_part(text@));
            lemma_pow10_values();
            assert(whole_part(text@) == text@.subrange(0, p as int));
            assert(fraction_part(text@).len() == places);
            assert(fraction_value < pow10(places as nat));
        }
        let scale: u64 = if places == 0 {
            10000
        } else if places == 1 {
            1000
        } else if places == 2 {
            100
        } else if places == 3 {
            10
        } else {
            1
        };
        assert(pow10((4 - places) as nat) == scale);
        match (whole, fraction) {
            (Some(w), Some(f)) => {
                assert(f * scale < 10000) by (nonlinear_arith)
                    requires
                        (places == 0 && f < 1 && scale == 10000) || (places == 1 && f < 10 && scale
                            == 1000) || (places == 2 && f < 100 && scale == 100) || (places == 3
                            && f < 1000 && scale == 10) || (places == 4 && f < 10000 && scale == 1),
                ;
                let low: u64 = f * scale;
                assert(whole_value * 10000 + fraction_value * pow10((4 - places) as nat) == w
                    * 10000 + low);
                if w > (u64::MAX - low) / UNITS_PER_WHOLE {
                    Err(ParseError::OutOfRange)
                } else {
                    Ok(Money { units: w * UNITS_PER_WHOLE + low })
                }
            },
            _ => {
                assert(whole_value > u64::MAX);
                assert(whole_value * 10000 + fraction_value * pow10((4 - places) as nat)
                    > u64::MAX) by (nonlinear_arith)
                    requires
                        whole_value > u64::MAX,
                ;
                Err(ParseError::OutOfRange)
            },
        }
    }
}

/// The one-character text of the decimal digit `d`.
pub fn digit_text(d: u64) -> (t: &'static str)
    requires
        d < 10,
    ensures
        t@ == seq![digit_char(d as nat)],
{
    proof {
        reveal_strlit("0");
        reveal_strlit("1");
        reveal_strlit("2");
        reveal_strlit("3");
        reveal_strlit("4");
        reveal_strlit("5");
        reveal_strlit("6");
        reveal_strlit("7");
        reveal_strlit("8");
        reveal_strlit("9");
    }
    let t = if d == 0 {
        "0"
    } else if d == 1 {
        "1"
    } else if d == 2 {
        "2"
    } else if d == 3 {
        "3"
    } else if d == 4 {
        "4"
    } else if d == 5 {
        "5"
    } else if d == 6 {
        "6"
    } else if d == 7 {
        "7"
    } else if d == 8 {
        "8"
    } else {
        "9"
    };
    assert(t@ =~= seq![digit_char(d as nat)]);
    t
}

/// Appends the decimal digits of `n`, without leading zeros, to `out`.
pub fn push_digits(out: &mut String, n: u64)
    ensures
        final(out)@ == old(out)@ + digits_of(n as nat),
    decreases n,
{
    if n >= 10 {
        push_digits(out, n / 10);
    }
    out.append(digit_text(n % 10));
    proof {
        assert(out@ =~= old(out)@ + digits_of(n as nat));
    }
}

impl Money {
    /// The decimal text of the amount, with exactly four digits after the point.
    pub fn format(&self) -> (r: String)
        ensures
            r@ == format_spec(self@),
            parse_spec(r@) == Ok::<Money, ParseError>(*self),
    {
        let whole = self.units / UNITS_PER_WHOLE;
        let fraction = self.units % UNITS_PER_WHOLE;
        let mut out = String::new();
        push_digits(&mut out, whole);
        proof {
            reveal_strlit(".");
        }
        out.append(".");
        out.append(digit_text(fraction / 1000));
        out.append(digit_text(fraction / 100 % 10));
        out.append(digit_text(fraction / 10 % 10));
        out.append(digit_text(fraction % 10));
        proof {
            assert(out@ =~= format_spec(self@));
            lemma_format_parse_round_trip(*self);
        }
        out
    }
}

/// The first five powers of ten.
pub proof fn lemma_pow10_values()
    ensures
        pow10(0) == 1,
        pow10(1) == 10,
        pow10(2) == 100,
        pow10(3) == 1000,
        pow10(4) == 10000,
{
    reveal_with_fuel(pow10, 5);
}

} // verus!
