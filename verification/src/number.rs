//! Exact decimal numerals: what a numeric literal of the language denotes
//! before any rounding to a machine number takes place.
use vstd::prelude::*;
use crate::text::{at, is_digit, is_name_part, is_space, push_char, spec_at, spec_is_digit,
    spec_is_name_part, spec_is_space, to_chars};

verus! {

/// A decimal numeral in canonical form. `digits` holds the decimal digits,
/// most significant first; the last `scale` of them stand after the point.
#[derive(Debug, PartialEq, Eq)]
pub struct Number {
    pub negative: bool,
    pub digits: Vec<u8>,
    pub scale: usize,
}

pub struct NumberView {
    pub negative: bool,
    pub digits: Seq<u8>,
    pub scale: nat,
}

impl View for Number {
    type V = NumberView;

    open spec fn view(&self) -> NumberView {
        NumberView { negative: self.negative, digits: self.digits@, scale: self.scale as nat }
    }
}

/// Canonical form: every digit is below ten, the integer part has no
/// leading zero, and the fraction has no trailing zero. Zero has no digits.
pub open spec fn canonical(n: NumberView) -> bool {
    &&& n.scale <= n.digits.len()
    &&& forall|i: int| 0 <= i < n.digits.len() ==> #[trigger] n.digits[i] <= 9
    &&& n.digits.len() > n.scale ==> n.digits[0] != 0
    &&& n.scale > 0 ==> n.digits[n.digits.len() - 1] != 0
}

pub open spec fn spec_digit_value(c: char) -> u8 {
    if c == '1' {
        1
    } else if c == '2' {
        2
    } else if c == '3' {
        3
    } else if c == '4' {
        4
    } else if c == '5' {
        5
    } else if c == '6' {
        6
    } else if c == '7' {
        7
    } else if c == '8' {
        8
    } else if c == '9' {
        9
    } else {
        0
    }
}

pub fn digit_value(c: char) -> (d: u8)
    ensures
        d == spec_digit_value(c),
        d <= 9,
{
    if c == '1' {
        1
    } else if c == '2' {
        2
    } else if c == '3' {
        3
    } else if c == '4' {
        4
    } else if c == '5' {
        5
    } else if c == '6' {
        6
    } else if c == '7' {
        7
    } else if c == '8' {
        8
    } else if c == '9' {
        9
    } else {
        0
    }
}

pub open spec fn spec_digit_char(d: u8) -> char {
    if d == 1 {
        '1'
    } else if d == 2 {
        '2'
    } else if d == 3 {
        '3'
    } else if d == 4 {
        '4'
    } else if d == 5 {
        '5'
    } else if d == 6 {
        '6'
    } else if d == 7 {
        '7'
    } else if d == 8 {
        '8'
    } else if d == 9 {
        '9'
    } else {
        '0'
    }
}

pub fn digit_char(d: u8) -> (c: char)
    ensures
        c == spec_digit_char(d),
{
    if d == 1 {
        '1'
    } else if d == 2 {
        '2'
    } else if d == 3 {
        '3'
    } else if d == 4 {
        '4'
    } else if d == 5 {
        '5'
    } else if d == 6 {
        '6'
    } else if d == 7 {
        '7'
    } else if d == 8 {
        '8'
    } else if d == 9 {
        '9'
    } else {
        '0'
    }
}

/// Where the run of decimal digits that starts at `pos` ends.
pub open spec fn spec_digits_end(s: Seq<char>, pos: int) -> int
    decreases s.len() - pos,
{
    if 0 <= pos < s.len() && spec_is_digit(s[pos]) {
        spec_digits_end(s, pos + 1)
    } else {
        pos
    }
}

pub fn digits_end(s: &Vec<char>, pos: usize) -> (end: usize)
    requires
        pos <= s.len(),
    ensures
        end == spec_digits_end(s@, pos as int),
        pos <= end <= s.len(),
        forall|i: int| pos <= i < end ==> spec_is_digit(#[trigger] s@[i]),
{
    let mut i: usize = pos;
    while i < s.len() && is_digit(s[i])
        invariant
            pos <= i <= s.len(),
            spec_digits_end(s@, pos as int) == spec_digits_end(s@, i as int),
            forall|k: int| pos <= k < i ==> spec_is_digit(#[trigger] s@[k]),
        decreases s.len() - i,
    {
        i += 1;
    }
    i
}

/// The first position in `from..to` that does not hold the digit zero, or
/// `to` where every one holds it.
pub open spec fn spec_leading_zeros_end(s: Seq<char>, from: int, to: int) -> int
    decreases to - from,
{
    if 0 <= from < to <= s.len() && s[from] == '0' {
        spec_leading_zeros_end(s, from + 1, to)
    } else {
        from
    }
}

/// The position just after the last character in `from..to` that is not
/// the digit zero, or `from` where every one is.
pub open spec fn spec_trailing_zeros_start(s: Seq<char>, from: int, to: int) -> int
    decreases to - from,
{
    if 0 <= from < to <= s.len() && s[to - 1] == '0' {
        spec_trailing_zeros_start(s, from, to - 1)
    } else {
        to
    }
}

/// The values of the digit characters in `from..to`.
pub open spec fn spec_digit_values(s: Seq<char>, from: int, to: int) -> Seq<u8> {
    Seq::new((to - from) as nat, |i: int| spec_digit_value(s[from + i]))
}

fn push_digit_values(out: &mut Vec<u8>, s: &Vec<char>, from: usize, to: usize)
    requires
        from <= to <= s.len(),
    ensures
        final(out)@ == old(out)@ + spec_digit_values(s@, from as int, to as int),
{
    let mut i: usize = from;
    while i < to
        invariant
            from <= i <= to <= s.len(),
            out@ == old(out)@ + spec_digit_values(s@, from as int, i as int),
        decreases to - i,
    {
        out.push(digit_value(s[i]));
        proof {
            assert(spec_digit_values(s@, from as int, i + 1) == spec_digit_values(
                s@,
                from as int,
                i as int,
            ).push(spec_digit_value(s@[i as int])));
        }
        i += 1;
    }
}

/// The numeral written with the integer digits `whole.0..whole.1` and the
/// fraction digits `part.0..part.1` of `s`, brought to canonical form.
pub open spec fn spec_compose(
    s: Seq<char>,
    negative: bool,
    whole: (int, int),
    part: (int, int),
) -> NumberView {
    let first = spec_leading_zeros_end(s, whole.0, whole.1);
    let last = spec_trailing_zeros_start(s, part.0, part.1);
    NumberView {
        negative,
        digits: spec_digit_values(s, first, whole.1) + spec_digit_values(s, part.0, last),
        scale: (last - part.0) as nat,
    }
}

fn compose(s: &Vec<char>, negative: bool, whole: (usize, usize), part: (usize, usize)) -> (r:
    Number)
    requires
        whole.0 <= whole.1 <= s.len(),
        part.0 <= part.1 <= s.len(),
        forall|i: int| whole.0 <= i < whole.1 ==> spec_is_digit(#[trigger] s@[i]),
        forall|i: int| part.0 <= i < part.1 ==> spec_is_digit(#[trigger] s@[i]),
    ensures
        r@ == spec_compose(
            s@,
            negative,
            (whole.0 as int, whole.1 as int),
            (part.0 as int, part.1 as int),
        ),
        canonical(r@),
{
    let mut first: usize = whole.0;
    while first < whole.1 && s[first] == '0'
        invariant
            whole.0 <= first <= whole.1 <= s.len(),
            spec_leading_zeros_end(s@, whole.0 as int, whole.1 as int) == spec_leading_zeros_end(
                s@,
                first as int,
                whole.1 as int,
            ),
        decreases whole.1 - first,
    {
        first += 1;
    }
    let mut last: usize = part.1;
    while part.0 < last && s[last - 1] == '0'
        invariant
            part.0 <= last <= part.1 <= s.len(),
            spec_trailing_zeros_start(s@, part.0 as int, part.1 as int)
                == spec_trailing_zeros_start(s@, part.0 as int, last as int),
        decreases last - part.0,
    {
        last -= 1;
    }
    let mut digits: Vec<u8> = Vec::new();
    push_digit_values(&mut digits, s, first, whole.1);
    push_digit_values(&mut digits, s, part.0, last);
    let r = Number { negative, digits, scale: last - part.0 };
    proof {
        let a = spec_digit_values(s@, first as int, whole.1 as int);
        let b = spec_digit_values(s@, part.0 as int, last as int);
        assert(r@.digits == a + b);
        assert forall|i: int| 0 <= i < r@.digits.len() implies #[trigger] r@.digits[i] <= 9 by {
            if i < a.len() {
                assert(r@.digits[i] == a[i]);
            } else {
                assert(r@.digits[i] == b[i - a.len()]);
            }
        }
        if r@.digits.len() > r@.scale {
            assert(first < whole.1);
            assert(spec_is_digit(s@[first as int]));
            assert(r@.digits[0] == a[0]);
        }
        if r@.scale > 0 {
            assert(spec_is_digit(s@[last - 1]));
            assert(r@.digits[r@.digits.len() - 1] == b[b.len() - 1]);
        }
    }
    r
}

/// A signed decimal literal at `pos`: an optional minus sign, one or more
/// digits, and optionally a point followed by one or more digits. Gives the
/// numeral and the position after it.
pub open spec fn spec_decimal(s: Seq<char>, pos: int) -> Option<(NumberView, int)> {
    let negative = 0 <= pos < s.len() && s[pos] == '-';
    let start = if negative {
        pos + 1
    } else {
        pos
    };
    let whole_end = spec_digits_end(s, start);
    if whole_end == start {
        None
    } else if 0 <= whole_end < s.len() && s[whole_end] == '.' && spec_digits_end(s, whole_end + 1)
        > whole_end + 1 {
        let end = spec_digits_end(s, whole_end + 1);
        Some((spec_compose(s, negative, (start, whole_end), (whole_end + 1, end)), end))
    } else {
        Some((spec_compose(s, negative, (start, whole_end), (whole_end, whole_end)), whole_end))
    }
}

pub fn decimal(s: &Vec<char>, pos: usize) -> (r: Option<(Number, usize)>)
    requires
        pos <= s.len(),
    ensures
        r is Some == spec_decimal(s@, pos as int) is Some,
        r is Some ==> {
            &&& r.unwrap().0@ == spec_decimal(s@, pos as int).unwrap().0
            &&& r.unwrap().1 == spec_decimal(s@, pos as int).unwrap().1
            &&& pos < r.unwrap().1 <= s.len()
            &&& canonical(r.unwrap().0@)
        },
{
    let negative = pos < s.len() && s[pos] == '-';
    let start: usize = if negative {
        pos + 1
    } else {
        pos
    };
    let whole_end = digits_end(s, start);
    if whole_end == start {
        return None;
    }
    if whole_end < s.len() && s[whole_end] == '.' {
        let end = digits_end(s, whole_end + 1);
        if end > whole_end + 1 {
            return Some((compose(s, negative, (start, whole_end), (whole_end + 1, end)), end));
        }
    }
    Some((compose(s, negative, (start, whole_end), (whole_end, whole_end)), whole_end))
}

/// The word at `pos` that stands for one of the integers one to nine,
/// the longer of two that fit, with the position after it.
pub open spec fn spec_alias_word(s: Seq<char>, pos: int) -> Option<(u8, int)> {
    if spec_at(s, pos, "IX"@) {
        Some((9u8, pos + "IX"@.len()))
    } else if spec_at(s, pos, "VIII"@) {
        Some((8u8, pos + "VIII"@.len()))
    } else if spec_at(s, pos, "VII"@) {
        Some((7u8, pos + "VII"@.len()))
    } else if spec_at(s, pos, "VI"@) {
        Some((6u8, pos + "VI"@.len()))
    } else if spec_at(s, pos, "V"@) {
        Some((5u8, pos + "V"@.len()))
    } else if spec_at(s, pos, "IV"@) {
        Some((4u8, pos + "IV"@.len()))
    } else if spec_at(s, pos, "III"@) {
        Some((3u8, pos + "III"@.len()))
    } else if spec_at(s, pos, "II"@) {
        Some((2u8, pos + "II"@.len()))
    } else if spec_at(s, pos, "I"@) {
        Some((1u8, pos + "I"@.len()))
    } else {
        None
    }
}

fn alias_word(s: &Vec<char>, pos: usize) -> (r: Option<(u8, usize)>)
    requires
        pos <= s.len(),
    ensures
        r is Some == spec_alias_word(s@, pos as int) is Some,
        r is Some ==> {
            &&& r.unwrap().0 == spec_alias_word(s@, pos as int).unwrap().0
            &&& r.unwrap().1 == spec_alias_word(s@, pos as int).unwrap().1
            &&& pos < r.unwrap().1 <= s.len()
            &&& 1 <= r.unwrap().0 <= 9
        },
{
    proof {
        reveal_strlit("IX");
        reveal_strlit("VIII");
        reveal_strlit("VII");
        reveal_strlit("VI");
        reveal_strlit("V");
        reveal_strlit("IV");
        reveal_strlit("III");
        reveal_strlit("II");
        reveal_strlit("I");
    }
    if let Some(end) = at(s, pos, "IX") {
        Some((9, end))
    } else if let Some(end) = at(s, pos, "VIII") {
        Some((8, end))
    } else if let Some(end) = at(s, pos, "VII") {
        Some((7, end))
    } else if let Some(end) = at(s, pos, "VI") {
        Some((6, end))
    } else if let Some(end) = at(s, pos, "V") {
        Some((5, end))
    } else if let Some(end) = at(s, pos, "IV") {
        Some((4, end))
    } else if let Some(end) = at(s, pos, "III") {
        Some((3, end))
    } else if let Some(end) = at(s, pos, "II") {
        Some((2, end))
    } else if let Some(end) = at(s, pos, "I") {
        Some((1, end))
    } else {
        None
    }
}

/// The word at `pos` that stands for one of the integers one to nine, with
/// the position after it. The word must end where it is written: a name
/// character may not follow.
pub open spec fn spec_alias(s: Seq<char>, pos: int) -> Option<(u8, int)> {
    match spec_alias_word(s, pos) {
        Some((value, end)) => if end < s.len() && spec_is_name_part(s[end]) {
            None
        } else {
            Some((value, end))
        },
        None => None,
    }
}

pub fn alias(s: &Vec<char>, pos: usize) -> (r: Option<(u8, usize)>)
    requires
        pos <= s.len(),
    ensures
        r is Some == spec_alias(s@, pos as int) is Some,
        r is Some ==> {
            &&& r.unwrap().0 == spec_alias(s@, pos as int).unwrap().0
            &&& r.unwrap().1 == spec_alias(s@, pos as int).unwrap().1
            &&& pos < r.unwrap().1 <= s.len()
            &&& 1 <= r.unwrap().0 <= 9
        },
{
    match alias_word(s, pos) {
        Some((value, end)) => {
            if end < s.len() && is_name_part(s[end]) {
                None
            } else {
                Some((value, end))
            }
        },
        None => None,
    }
}

/// The numeral of a single digit `value`, which is not zero.
pub open spec fn spec_unit(value: u8) -> NumberView {
    NumberView { negative: false, digits: seq![value], scale: 0 }
}

pub fn unit(value: u8) -> (r: Number)
    requires
        1 <= value <= 9,
    ensures
        r@ == spec_unit(value),
        canonical(r@),
{
    let mut digits: Vec<u8> = Vec::new();
    digits.push(value);
    let r = Number { negative: false, digits, scale: 0 };
    assert(r@.digits == seq![value]);
    r
}

/// A numeric literal at `pos`: a signed decimal, or one of the nine words.
pub open spec fn spec_numeral(s: Seq<char>, pos: int) -> Option<(NumberView, int)> {
    match spec_decimal(s, pos) {
        Some(found) => Some(found),
        None => match spec_alias(s, pos) {
            Some((value, end)) => Some((spec_unit(value), end)),
            None => None,
        },
    }
}

pub fn numeral(s: &Vec<char>, pos: usize) -> (r: Option<(Number, usize)>)
    requires
        pos <= s.len(),
    ensures
        r is Some == spec_numeral(s@, pos as int) is Some,
        r is Some ==> {
            &&& r.unwrap().0@ == spec_numeral(s@, pos as int).unwrap().0
            &&& r.unwrap().1 == spec_numeral(s@, pos as int).unwrap().1
            &&& pos < r.unwrap().1 <= s.len()
            &&& canonical(r.unwrap().0@)
        },
{
    match decimal(s, pos) {
        Some(found) => Some(found),
        None => match alias(s, pos) {
            Some((value, end)) => Some((unit(value), end)),
            None => None,
        },
    }
}

/// Where the run of blank characters that starts at `pos` ends.
pub open spec fn spec_blanks_end(s: Seq<char>, pos: int) -> int
    decreases s.len() - pos,
{
    if 0 <= pos < s.len() && spec_is_space(s[pos]) {
        spec_blanks_end(s, pos + 1)
    } else {
        pos
    }
}

pub fn blanks_end(s: &Vec<char>, pos: usize) -> (end: usize)
    requires
        pos <= s.len(),
    ensures
        end == spec_blanks_end(s@, pos as int),
        pos <= end <= s.len(),
{
    let mut i: usize = pos;
    while i < s.len() && is_space(s[i])
        invariant
            pos <= i <= s.len(),
            spec_blanks_end(s@, pos as int) == spec_blanks_end(s@, i as int),
        decreases s.len() - i,
    {
        i += 1;
    }
    i
}

/// The numeral that a line of input holds: a numeric literal with nothing
/// but blanks before and after it.
pub open spec fn spec_entered(line: Seq<char>) -> Option<NumberView> {
    match spec_numeral(line, spec_blanks_end(line, 0)) {
        Some((number, end)) => if spec_blanks_end(line, end) == line.len() {
            Some(number)
        } else {
            None
        },
        None => None,
    }
}

/// The decimal digits of `n`, most significant first; none for zero.
pub open spec fn spec_decimal_digits(n: nat) -> Seq<u8>
    decreases n,
{
    if n == 0 {
        Seq::empty()
    } else {
        spec_decimal_digits(n / 10).push((n % 10) as u8)
    }
}

/// The natural number that a sequence of decimal digits denotes.
pub open spec fn spec_digits_value(digits: Seq<u8>) -> nat
    decreases digits.len(),
{
    if digits.len() == 0 {
        0
    } else {
        spec_digits_value(digits.drop_last()) * 10 + digits.last() as nat
    }
}

/// The numeral of the natural number `n`.
pub open spec fn spec_natural(n: nat) -> NumberView {
    NumberView { negative: false, digits: spec_decimal_digits(n), scale: 0 }
}

/// Writing a natural number in decimal digits and reading the digits back
/// gives the number again, and the digits are in canonical form.
pub proof fn lemma_decimal_digits(n: nat)
    ensures
        spec_digits_value(spec_decimal_digits(n)) == n,
        canonical(spec_natural(n)),
    decreases n,
{
    if n != 0 {
        lemma_decimal_digits(n / 10);
        let d = spec_decimal_digits(n);
        assert(d.drop_last() == spec_decimal_digits(n / 10));
        if n / 10 != 0 {
            assert(d[0] == spec_decimal_digits(n / 10)[0]);
        }
        assert forall|i: int| 0 <= i < d.len() implies #[trigger] d[i] <= 9 by {
            if i < d.len() - 1 {
                assert(d[i] == spec_decimal_digits(n / 10)[i]);
            }
        }
    }
}

/// The text of a numeral: a minus sign where it is negative, the integer
/// digits (a single zero where there are none), and, where there is a
/// fraction, a point and the fraction's digits, with zeros before them
/// where the numeral has fewer digits than its scale.
pub open spec fn spec_text(n: NumberView) -> Seq<char> {
    let split = if n.scale <= n.digits.len() {
        n.digits.len() - n.scale
    } else {
        0
    };
    let sign = if n.negative {
        seq!['-']
    } else {
        Seq::<char>::empty()
    };
    let whole = if split == 0 {
        seq!['0']
    } else {
        spec_digit_chars(n.digits.take(split))
    };
    let part = if n.scale == 0 {
        Seq::<char>::empty()
    } else {
        seq!['.'] + spec_zeros((n.scale - (n.digits.len() - split)) as nat) + spec_digit_chars(
            n.digits.skip(split),
        )
    };
    sign + whole + part
}

/// A run of zeros.
pub open spec fn spec_zeros(n: nat) -> Seq<char> {
    Seq::new(n, |i: int| '0')
}

pub open spec fn spec_digit_chars(digits: Seq<u8>) -> Seq<char> {
    Seq::new(digits.len(), |i: int| spec_digit_char(digits[i]))
}

impl Number {
    pub open spec fn wf(&self) -> bool {
        canonical(self@)
    }

    /// A copy of the numeral.
    pub fn duplicate(&self) -> (r: Number)
        ensures
            r@ == self@,
    {
        let mut digits: Vec<u8> = Vec::new();
        let mut i: usize = 0;
        while i < self.digits.len()
            invariant
                i <= self.digits.len(),
                digits@ == self.digits@.take(i as int),
            decreases self.digits.len() - i,
        {
            digits.push(self.digits[i]);
            proof {
                assert(self.digits@.take(i + 1) == self.digits@.take(i as int).push(
                    self.digits@[i as int],
                ));
            }
            i += 1;
        }
        proof {
            assert(self.digits@.take(self.digits@.len() as int) == self.digits@);
        }
        Number { negative: self.negative, digits, scale: self.scale }
    }

    /// The numeral of a natural number.
    pub fn from_index(index: u128) -> (r: Number)
        ensures
            r@ == spec_natural(index as nat),
            r.wf(),
    {
        let mut low_first: Vec<u8> = Vec::new();
        let mut rest: u128 = index;
        while rest > 0
            invariant
                spec_decimal_digits(index as nat) == spec_decimal_digits(rest as nat)
                    + low_first@.reverse(),
            decreases rest,
        {
            let digit: u8 = (rest % 10) as u8;
            proof {
                let before = low_first@;
                let after = before.push(digit);
                assert(after.reverse() == seq![digit] + before.reverse());
                assert(spec_decimal_digits(rest as nat) == spec_decimal_digits(
                    (rest / 10) as nat,
                ).push(digit));
                assert(spec_decimal_digits((rest / 10) as nat).push(digit) + before.reverse()
                    == spec_decimal_digits((rest / 10) as nat) + (seq![digit] + before.reverse()));
            }
            low_first.push(digit);
            rest = rest / 10;
        }
        let mut digits: Vec<u8> = Vec::new();
        let mut left: usize = low_first.len();
        while left > 0
            invariant
                left <= low_first.len(),
                digits@ == low_first@.reverse().take(low_first.len() - left),
            decreases left,
        {
            left -= 1;
            digits.push(low_first[left]);
            proof {
                let whole = low_first@.reverse();
                let k = low_first.len() - left - 1;
                assert(whole.take(k + 1) == whole.take(k).push(whole[k]));
            }
        }
        proof {
            let whole = low_first@.reverse();
            assert(whole.take(whole.len() as int) == whole);
            assert(spec_decimal_digits(0) + whole == whole);
            lemma_decimal_digits(index as nat);
        }
        Number { negative: false, digits, scale: 0 }
    }

    /// The numeral's text, as `spec_text` defines it.
    pub fn text(&self) -> (r: String)
        ensures
            r@ == spec_text(self@),
    {
        let split: usize = if self.scale <= self.digits.len() {
            self.digits.len() - self.scale
        } else {
            0
        };
        let mut r = String::new();
        if self.negative {
            push_char(&mut r, '-');
        }
        let ghost sign = r@;
        if split == 0 {
            push_char(&mut r, '0');
        } else {
            let mut i: usize = 0;
            while i < split
                invariant
                    i <= split <= self.digits.len(),
                    r@ == sign + spec_digit_chars(self.digits@.take(i as int)),
                decreases split - i,
            {
                push_char(&mut r, digit_char(self.digits[i]));
                proof {
                    assert(spec_digit_chars(self.digits@.take(i + 1)) == spec_digit_chars(
                        self.digits@.take(i as int),
                    ).push(spec_digit_char(self.digits@[i as int])));
                }
                i += 1;
            }
        }
        let ghost head = r@;
        if self.scale > 0 {
            push_char(&mut r, '.');
            let zeros: usize = self.scale - (self.digits.len() - split);
            let mut k: usize = 0;
            while k < zeros
                invariant
                    k <= zeros,
                    r@ == head + (seq!['.'] + spec_zeros(k as nat)),
                decreases zeros - k,
            {
                push_char(&mut r, '0');
                proof {
                    assert(spec_zeros((k + 1) as nat) == spec_zeros(k as nat).push('0'));
                }
                k += 1;
            }
            let mut i: usize = split;
            while i < self.digits.len()
                invariant
                    split <= i <= self.digits.len(),
                    r@ == head + (seq!['.'] + spec_zeros(zeros as nat) + spec_digit_chars(
                        self.digits@.skip(split as int).take(i - split),
                    )),
                decreases self.digits.len() - i,
            {
                push_char(&mut r, digit_char(self.digits[i]));
                proof {
                    let tail = self.digits@.skip(split as int);
                    assert(spec_digit_chars(tail.take(i - split + 1)) == spec_digit_chars(
                        tail.take(i - split),
                    ).push(spec_digit_char(self.digits@[i as int])));
                }
                i += 1;
            }
            proof {
                let tail = self.digits@.skip(split as int);
                assert(tail.take(tail.len() as int) == tail);
            }
        }
        r
    }

    /// Reads a numeral from a line of input.
    pub fn parse(line: &str) -> (r: Option<Number>)
        ensures
            r is Some == spec_entered(line@) is Some,
            r is Some ==> r->0@ == spec_entered(line@)->0 && r->0.wf(),
    {
        let s = to_chars(line);
        let start = blanks_end(&s, 0);
        match numeral(&s, start) {
            Some((number, end)) => {
                if blanks_end(&s, end) == s.len() {
                    Some(number)
                } else {
                    None
                }
            },
            None => None,
        }
    }
}

} // verus!
