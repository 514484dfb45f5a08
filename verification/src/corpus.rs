//! The list of synthetic star fields that plate solving is judged by.
//!
//! Numbers are in billionths of the unit that their name gives.

use vstd::prelude::*;
use vstd::string::*;

use crate::numbers::divide_down;
use crate::text;
use crate::text::{
    eq_ignore_ascii_case, push_decimal, same_text, split_text, string_of, strip_text, Separator,
};

verus! {

broadcast use vstd::string::group_string_axioms;

/// A number of the list.
#[derive(Clone, Copy, Debug, PartialEq, Eq, Structural)]
pub enum Number {
    /// In billionths, to the nearest.
    Finite(i64),
    /// Too far from zero to be counted in billionths; infinity is among these.
    Beyond {
        /// Whether it lies below zero.
        negative: bool,
    },
    /// The value that is no number.
    NotANumber,
}

/// What is true of one field.
#[derive(Debug)]
pub struct Field {
    /// Its name.
    pub name: String,
    /// Right ascension of its center.
    pub ra_deg: Number,
    /// Declination of its center.
    pub dec_deg: Number,
    /// How it is rotated.
    pub rotation_deg: Number,
    /// Its width, to a first approximation.
    pub fov_x_deg: Number,
    /// Its height, to a first approximation.
    pub fov_y_deg: Number,
    /// The angle that a pixel covers at the center.
    pub pixscale_arcsec: Number,
    /// Columns of its image.
    pub nx: u32,
    /// Rows of its image.
    pub ny: u32,
    /// How many stars its image shows.
    pub n_rendered: i32,
}

/// Whether a function gives the angle of every tangent, in billionths of a degree, always alike.
pub open spec fn is_arctangent<F: Fn(i128) -> i64>(arctangent: F) -> bool {
    &&& forall|tangent: (i128,)| #[trigger] call_requires(arctangent, tangent)
    &&& forall|tangent: (i128,), a: i64| #[trigger]
        call_ensures(arctangent, tangent, a) ==> -90_000_000_000 <= a <= 90_000_000_000
    &&& forall|tangent: (i128,), a: i64, b: i64|
        #[trigger] call_ensures(arctangent, tangent, a) && #[trigger] call_ensures(
            arctangent,
            tangent,
            b,
        ) ==> a == b
}

/// The angle of a tangent.
pub open spec fn angle_of<F: Fn(i128) -> i64>(arctangent: F, tangent: i128) -> i64 {
    choose|angle: i64| call_ensures(arctangent, (tangent,), angle)
}

impl Field {
    /// The tangent of half the field's width: half its columns times the angle of a pixel, in
    /// radians.
    pub open spec fn half_width_tangent(&self) -> int {
        let pixel = self.pixscale_arcsec->Finite_0 as int;
        self.nx * pixel * 3_141_592_654 / 1_296_000_000_000_000
    }

    /// The field's true width. `fov_x_deg` takes all pixels for equally wide, but the image is
    /// projected onto a plane, where pixels off the center cover less. The angle of a pixel is one
    /// that can be counted.
    pub fn true_fov_x_deg<F: Fn(i128) -> i64>(&self, arctangent: &F) -> (fov: i64)
        requires
            is_arctangent(*arctangent),
            self.pixscale_arcsec is Finite,
        ensures
            fov == 2 * angle_of(*arctangent, self.half_width_tangent() as i128),
    {
        let pixel: i64 = match self.pixscale_arcsec {
            Number::Finite(pixel) => pixel,
            _ => 0,
        };
        proof {
            let n = self.nx as int;
            let p = pixel as int;
            assert(-0x1_0000_0000 * 0x8000_0000_0000_0000 <= n * p <= 0x1_0000_0000
                * 0x8000_0000_0000_0000) by (nonlinear_arith)
                requires
                    0 <= n <= 0xffff_ffff,
                    -0x8000_0000_0000_0000 <= p <= 0x7fff_ffff_ffff_ffff,
            ;
        }
        let product: i128 = self.nx as i128 * pixel as i128;
        let tangent: i128 = divide_down(product * 3_141_592_654, 1_296_000_000_000_000);
        let angle: i64 = arctangent(tangent);
        2 * angle
    }
}

/// A power of ten.
pub open spec fn pow10(n: nat) -> int
    decreases n,
{
    if n == 0 {
        1
    } else {
        pow10((n - 1) as nat) * 10
    }
}

/// Powers of ten grow.
proof fn lemma_pow10_grows(a: nat, b: nat)
    requires
        a <= b,
    ensures
        0 < pow10(a) <= pow10(b),
    decreases b,
{
    if b == 0 {
    } else if a == b {
        lemma_pow10_grows((a - 1) as nat, (b - 1) as nat);
    } else {
        lemma_pow10_grows(a, (b - 1) as nat);
    }
}

/// The largest number that is counted, in billionths.
pub const MAX_NUMBER: i64 = 9_000_000_000_000_000_000;

/// A number of digits shifted by a power of ten, to the nearest whole.
pub open spec fn shifted(mantissa: int, power: int) -> int {
    if power >= 0 {
        mantissa * pow10(power as nat)
    } else {
        (mantissa * 2 + pow10((-power) as nat)) / (pow10((-power) as nat) * 2)
    }
}

/// A number of billionths with its sign, unless there are too many to be counted.
pub open spec fn counted(negative: bool, billionths: int) -> Number {
    if billionths > MAX_NUMBER {
        Number::Beyond { negative }
    } else if negative {
        Number::Finite((-billionths) as i64)
    } else {
        Number::Finite(billionths as i64)
    }
}

/// Reads the first of some digits, unless they make too large a number.
fn read_digits(digits: &Vec<char>, count: usize) -> (r: Option<u64>)
    requires
        text::all_digits(digits@),
        count <= digits@.len(),
    ensures
        match r {
            Some(value) => value == text::digits_value(digits@.take(count as int)) && value
                <= MAX_NUMBER,
            None => text::digits_value(digits@.take(count as int)) > MAX_NUMBER,
        },
{
    let mut value: u64 = 0;
    let mut i: usize = 0;
    while i < count
        invariant
            i <= count <= digits@.len(),
            text::all_digits(digits@),
            value == text::digits_value(digits@.take(i as int)),
            value <= MAX_NUMBER,
        decreases count - i,
    {
        let ghost after = digits@.take(i + 1);
        assert(after.drop_last() =~= digits@.take(i as int));
        assert(after.last() == digits@[i as int]);
        assert(text::is_digit(digits@[i as int]));
        let more: u128 = value as u128 * 10 + (digits[i] as u32 - 48) as u128;
        if more > MAX_NUMBER as u128 {
            proof {
                let front = digits@.take(count as int);
                assert(text::all_digits(front)) by {
                    assert forall|j: int| 0 <= j < front.len() implies text::is_digit(
                        #[trigger] front[j],
                    ) by {
                        assert(front[j] == digits@[j]);
                    }
                }
                text::lemma_digits_value_monotone(front, i + 1);
                assert(front.take(i + 1) =~= after);
            }
            return None;
        }
        value = more as u64;
        i = i + 1;
    }
    Some(value)
}

/// Multiplies a number by a power of ten, unless that makes it too large.
fn multiply(number: u64, power: i128) -> (r: Option<i64>)
    requires
        number <= MAX_NUMBER,
        0 <= power,
    ensures
        match r {
            Some(value) => shifted(number as int, power as int) == value && 0 <= value
                <= MAX_NUMBER,
            None => shifted(number as int, power as int) > MAX_NUMBER,
        },
{
    let mut value: u128 = number as u128;
    let mut i: i128 = 0;
    assert(number * pow10(0) == number) by {
        assert(pow10(0) == 1);
    }
    if number == 0 {
        assert(0 * pow10(power as nat) == 0) by (nonlinear_arith);
        return Some(0);
    }
    while i < power
        invariant
            0 <= i <= power,
            value == number * pow10(i as nat),
            number > 0,
            0 < value <= MAX_NUMBER,
        decreases power - i,
    {
        let ghost m = number as int;
        let ghost p = pow10(i as nat);
        assert(pow10((i + 1) as nat) == p * 10);
        assert(m * (p * 10) == (m * p) * 10) by (nonlinear_arith);
        value = value * 10;
        if value > MAX_NUMBER as u128 {
            proof {
                lemma_pow10_grows((i + 1) as nat, power as nat);
                assert(m * pow10(power as nat) >= m * (p * 10)) by (nonlinear_arith)
                    requires
                        m > 0,
                        pow10(power as nat) >= p * 10,
                ;
            }
            return None;
        }
        i = i + 1;
    }
    Some(value as i64)
}

/// Reads some digits with the point moved by a number of places, to the nearest whole, unless
/// that makes too large a number.
fn shift(digits: &Vec<char>, power: i128) -> (r: Option<i64>)
    requires
        text::all_digits(digits@),
        -0x1000_0000_0000_0000_0000_0000_0000 <= power <= 0x1000_0000_0000_0000_0000_0000_0000,
    ensures
        match r {
            Some(value) => shifted(text::digits_value(digits@), power as int) == value && 0
                <= value <= MAX_NUMBER,
            None => shifted(text::digits_value(digits@), power as int) > MAX_NUMBER,
        },
{
    let count: usize = digits.len();
    assert(digits@.take(count as int) =~= digits@);
    proof {
        lemma_digits_bound(digits@);
    }
    if power >= 0 {
        return match read_digits(digits, count) {
            Some(number) => multiply(number, power),
            None => {
                proof {
                    let m = text::digits_value(digits@);
                    lemma_pow10_grows(0, power as nat);
                    assert(m * pow10(power as nat) >= m) by (nonlinear_arith)
                        requires
                            m > 0,
                            pow10(power as nat) >= 1,
                    ;
                }
                None
            },
        };
    }
    let places: i128 = -power;
    if places > count as i128 {
        proof {
            lemma_nothing_left(digits@, places as int);
        }
        return Some(0);
    }
    let kept: usize = count - places as usize;
    proof {
        lemma_rounded(digits@, kept as int);
    }
    match read_digits(digits, kept) {
        Some(value) => {
            let rounded: u64 = if digits[kept] >= '5' { value + 1 } else { value };
            if rounded > MAX_NUMBER as u64 {
                None
            } else {
                Some(rounded as i64)
            }
        },
        None => None,
    }
}

/// Digits that all lie behind the point, with a zero before them, round to nothing.
proof fn lemma_nothing_left(digits: Seq<char>, places: int)
    requires
        text::all_digits(digits),
        places > digits.len(),
    ensures
        shifted(text::digits_value(digits), -places) == 0,
{
    let m = text::digits_value(digits);
    let d = pow10(places as nat);
    lemma_digits_bound(digits);
    lemma_pow10_grows(digits.len(), (places - 1) as nat);
    assert(d == pow10((places - 1) as nat) * 10);
    assert((m * 2 + d) / (d * 2) == 0) by (nonlinear_arith)
        requires
            0 <= m * 2 < d,
    ;
}

/// Digits behind the point round up exactly where the first of them is five or more.
proof fn lemma_rounded(digits: Seq<char>, kept: int)
    requires
        text::all_digits(digits),
        0 <= kept < digits.len(),
    ensures
        ({
            let whole = text::digits_value(digits.take(kept));
            let value = if digits[kept] >= '5' {
                whole + 1
            } else {
                whole
            };
            shifted(text::digits_value(digits), kept - digits.len()) == value
        }),
{
    let m = text::digits_value(digits);
    let front = digits.take(kept);
    let rest = digits.skip(kept);
    let first = rest.take(1);
    let last = rest.skip(1);
    let d = pow10(rest.len());
    let e = pow10(last.len());
    assert(front + rest =~= digits);
    assert(first + last =~= rest);
    assert forall|j: int| 0 <= j < last.len() implies text::is_digit(#[trigger] last[j]) by {
        assert(last[j] == digits[kept + 1 + j]);
    }
    lemma_joined_digits(front, rest);
    lemma_joined_digits(first, last);
    lemma_digits_bound(last);
    lemma_pow10_grows(0, last.len());
    assert(d == e * 10);
    assert(text::is_digit(digits[kept]));
    let q = text::digits_value(front);
    let r = text::digits_value(rest);
    let c = text::digit_value(digits[kept]);
    assert(text::digits_value(first) == c) by {
        reveal_with_fuel(text::digits_value, 2);
        assert(first.last() == digits[kept]);
        assert(first.drop_last() =~= Seq::<char>::empty());
    }
    assert(r == c * e + text::digits_value(last));
    if c >= 5 {
        assert(d <= 2 * r < 2 * d) by (nonlinear_arith)
            requires
                5 <= c <= 9,
                e > 0,
                c * e <= r < c * e + e,
                d == e * 10,
        ;
        assert(m * 2 + d == (q + 1) * (d * 2) + (2 * r - d)) by (nonlinear_arith)
            requires
                m == q * d + r,
        ;
        vstd::arithmetic::div_mod::lemma_fundamental_div_mod_converse(
            m * 2 + d,
            d * 2,
            q + 1,
            2 * r - d,
        );
    } else {
        assert(0 <= 2 * r < d) by (nonlinear_arith)
            requires
                0 <= c <= 4,
                e > 0,
                c * e <= r < c * e + e,
                d == e * 10,
        ;
        assert(m * 2 + d == q * (d * 2) + (2 * r + d)) by (nonlinear_arith)
            requires
                m == q * d + r,
        ;
        vstd::arithmetic::div_mod::lemma_fundamental_div_mod_converse(
            m * 2 + d,
            d * 2,
            q,
            2 * r + d,
        );
    }
}

/// The parts of a number before and behind its exponent sign.
pub open spec fn exponent_parts(s: Seq<char>) -> Seq<Seq<char>> {
    let parts = text::pieces(s, Separator::Character('e'));
    if parts.len() == 2 {
        parts
    } else {
        text::pieces(s, Separator::Character('E'))
    }
}

/// A text without its sign.
pub open spec fn unsigned(s: Seq<char>) -> Seq<char> {
    if s.len() > 0 && (s[0] == '+' || s[0] == '-') {
        s.skip(1)
    } else {
        s
    }
}

/// Whether a text begins with a minus sign.
pub open spec fn begins_with_minus(s: Seq<char>) -> bool {
    s.len() > 0 && s[0] == '-'
}

/// The exponent of a number, if it is one.
pub open spec fn exponent_of(parts: Seq<Seq<char>>) -> Option<int> {
    if parts.len() == 1 {
        Some(0)
    } else if parts.len() == 2 {
        text::integer_value(parts[1])
    } else {
        None
    }
}

/// Whether a text is a run of digits with a point in it or none.
pub open spec fn is_mantissa(halves: Seq<Seq<char>>) -> bool {
    &&& halves.len() == 1 || halves.len() == 2
    &&& forall|i: int| 0 <= i < halves.len() ==> text::all_digits(#[trigger] halves[i])
    &&& halves[0].len() + fraction_of(halves).len() > 0
}

/// The digits behind the point.
pub open spec fn fraction_of(halves: Seq<Seq<char>>) -> Seq<char> {
    if halves.len() == 2 {
        halves[1]
    } else {
        Seq::empty()
    }
}

/// Whether a text without its sign is the name of infinity.
pub open spec fn names_infinity(s: Seq<char>) -> bool {
    text::same_but_case(s, "inf"@) || text::same_but_case(s, "infinity"@)
}

/// The number that a text stands for: a sign or none, and either the name of infinity or of no
/// number, or digits with a point or none, and an exponent or none.
pub open spec fn number_of(s: Seq<char>) -> Option<Number> {
    if names_infinity(unsigned(s)) {
        Some(Number::Beyond { negative: begins_with_minus(s) })
    } else if text::same_but_case(unsigned(s), "nan"@) {
        Some(Number::NotANumber)
    } else {
        let parts = exponent_parts(s);
        let halves = text::pieces(unsigned(parts[0]), Separator::Character('.'));
        match exponent_of(parts) {
            Some(exponent) => if is_mantissa(halves) {
                let digits = text::digits_value(halves[0] + fraction_of(halves));
                Some(
                    counted(
                        begins_with_minus(parts[0]),
                        shifted(digits, 9 + exponent - fraction_of(halves).len()),
                    ),
                )
            } else {
                None
            },
            None => None,
        }
    }
}

/// The largest exponent that is told from larger ones.
const MAX_EXPONENT: i128 = 1_000_000_000_000_000_000_000_000_000_000;

/// Reads an exponent, down to the smallest and up to the largest that is told from others.
fn read_exponent(s: &str) -> (r: Option<i128>)
    ensures
        match r {
            Some(exponent) => {
                &&& -MAX_EXPONENT <= exponent <= MAX_EXPONENT
                &&& text::integer_value(s@) matches Some(value) && {
                    &&& -MAX_EXPONENT < exponent < MAX_EXPONENT ==> exponent == value
                    &&& exponent == MAX_EXPONENT ==> value >= MAX_EXPONENT
                    &&& exponent == -MAX_EXPONENT ==> value <= -MAX_EXPONENT
                }
            },
            None => text::integer_value(s@) is None,
        },
{
    let v: Vec<char> = text::chars_of(s);
    if v.len() == 0 {
        return None;
    }
    let signed: bool = v[0] == '+' || v[0] == '-';
    let negative: bool = v[0] == '-';
    let start: usize = if signed { 1 } else { 0 };
    let ghost digits = if signed { s@.skip(1) } else { s@ };
    if v.len() == start {
        return None;
    }
    let mut value: i128 = 0;
    let mut i: usize = start;
    while i < v.len()
        invariant
            start <= i <= v.len(),
            v@ == s@,
            s@.len() > 0,
            signed == (s@[0] == '+' || s@[0] == '-'),
            start == (if signed { 1int } else { 0int }),
            digits == (if signed { s@.skip(1) } else { s@ }),
            digits.len() == v.len() - start,
            text::all_digits(digits.take(i - start)),
            0 <= value <= MAX_EXPONENT,
            value < MAX_EXPONENT ==> value == text::digits_value(digits.take(i - start)),
            value == MAX_EXPONENT ==> text::digits_value(digits.take(i - start)) >= MAX_EXPONENT,
        decreases v.len() - i,
    {
        let c: char = v[i];
        assert(digits[i - start] == c);
        if c < '0' || c > '9' {
            assert(!text::is_digit(digits[i - start]));
            return None;
        }
        let ghost before = digits.take(i - start);
        let ghost after = digits.take(i - start + 1);
        assert(after.drop_last() =~= before);
        assert(after.last() == c);
        assert forall|j: int| 0 <= j < after.len() implies text::is_digit(#[trigger] after[j]) by {
            if j < before.len() {
                assert(after[j] == before[j]);
            }
        }
        let more: i128 = value * 10 + (c as u32 - 48) as i128;
        value = if more < MAX_EXPONENT { more } else { MAX_EXPONENT };
        i = i + 1;
    }
    assert(digits.take(v.len() - start) =~= digits);
    if negative {
        Some(-value)
    } else {
        Some(value)
    }
}

/// A number moved by very many places is none or too large whatever their number.
proof fn lemma_far_places(digits: Seq<char>, power: int, other: int)
    requires
        text::all_digits(digits),
        power == other || (power >= 20 && other >= 20) || (power < -digits.len() && other
            < -digits.len()),
    ensures
        counted(true, shifted(text::digits_value(digits), power)) == counted(
            true,
            shifted(text::digits_value(digits), other),
        ),
        counted(false, shifted(text::digits_value(digits), power)) == counted(
            false,
            shifted(text::digits_value(digits), other),
        ),
{
    if power != other {
        if power >= 20 {
            lemma_large_power(digits, power);
            lemma_large_power(digits, other);
        } else {
            lemma_nothing_left(digits, -power);
            lemma_nothing_left(digits, -other);
        }
    }
}

/// A number moved up by many places is none or too large.
proof fn lemma_large_power(digits: Seq<char>, power: int)
    requires
        text::all_digits(digits),
        power >= 20,
    ensures
        text::digits_value(digits) == 0 ==> shifted(text::digits_value(digits), power) == 0,
        text::digits_value(digits) != 0 ==> shifted(text::digits_value(digits), power) > MAX_NUMBER,
{
    let m = text::digits_value(digits);
    let p = pow10(power as nat);
    lemma_digits_bound(digits);
    lemma_pow10_grows(20, power as nat);
    assert(pow10(20) == 100_000_000_000_000_000_000) by {
        reveal_with_fuel(pow10, 21);
    }
    assert(m == 0 ==> m * p == 0) by (nonlinear_arith);
    assert(m >= 1 ==> m * p >= p) by (nonlinear_arith)
        requires
            p > 0,
    ;
}

/// The value of two runs of digits one after the other.
proof fn lemma_joined_digits(a: Seq<char>, b: Seq<char>)
    ensures
        text::digits_value(a + b) == text::digits_value(a) * pow10(b.len()) + text::digits_value(b),
    decreases b.len(),
{
    if b.len() == 0 {
        assert(a + b =~= a);
        assert(pow10(0) == 1);
    } else {
        let front = b.drop_last();
        assert((a + b).drop_last() =~= a + front);
        assert((a + b).last() == b.last());
        lemma_joined_digits(a, front);
        let x = text::digits_value(a);
        let p = pow10(front.len());
        let y = text::digits_value(front);
        assert(pow10(b.len()) == p * 10);
        assert((x * p + y) * 10 == x * (p * 10) + y * 10) by (nonlinear_arith);
    }
}

/// So many digits make a number below that power of ten.
proof fn lemma_digits_bound(digits: Seq<char>)
    requires
        text::all_digits(digits),
    ensures
        0 <= text::digits_value(digits) < pow10(digits.len()),
    decreases digits.len(),
{
    if digits.len() > 0 {
        let front = digits.drop_last();
        assert forall|j: int| 0 <= j < front.len() implies text::is_digit(#[trigger] front[j]) by {
            assert(front[j] == digits[j]);
        }
        lemma_digits_bound(front);
        assert(text::is_digit(digits[digits.len() - 1]));
    }
}

/// Appends digits, and tells whether that is what they all are.
fn push_digits(digits: &mut Vec<char>, more: &Vec<char>) -> (all: bool)
    ensures
        all == text::all_digits(more@),
        all ==> final(digits)@ == old(digits)@ + more@,
{
    let mut i: usize = 0;
    assert(digits@ =~= old(digits)@ + more@.take(0));
    while i < more.len()
        invariant
            i <= more@.len(),
            text::all_digits(more@.take(i as int)),
            digits@ == old(digits)@ + more@.take(i as int),
        decreases more@.len() - i,
    {
        let ch: char = more[i];
        if ch < '0' || ch > '9' {
            assert(!text::is_digit(more@[i as int]));
            return false;
        }
        digits.push(ch);
        assert forall|j: int| 0 <= j < i + 1 implies text::is_digit(
            #[trigger] more@.take(i + 1)[j],
        ) by {
            if j < i {
                assert(more@.take(i + 1)[j] == more@.take(i as int)[j]);
            }
        }
        assert(digits@ =~= old(digits)@ + more@.take(i + 1));
        i = i + 1;
    }
    assert(more@.take(i as int) =~= more@);
    true
}

/// Reads a number.
pub fn parse_number(s: &str) -> (r: Option<Number>)
    ensures
        r == number_of(s@),
{
    let chars: Vec<char> = text::chars_of(s);
    let has_sign: bool = chars.len() > 0 && (chars[0] == '+' || chars[0] == '-');
    let name: String = string_of(&chars, if has_sign { 1 } else { 0 }, chars.len());
    assert(name@ =~= unsigned(s@));
    if eq_ignore_ascii_case(name.as_str(), "inf") || eq_ignore_ascii_case(
        name.as_str(),
        "infinity",
    ) {
        return Some(Number::Beyond { negative: chars.len() > 0 && chars[0] == '-' });
    }
    if eq_ignore_ascii_case(name.as_str(), "nan") {
        return Some(Number::NotANumber);
    }
    let mut parts: Vec<String> = split_text(s, Separator::Character('e'));
    if parts.len() != 2 {
        parts = split_text(s, Separator::Character('E'));
    }
    proof {
        text::lemma_pieces_exist(s@, Separator::Character('e'));
        text::lemma_pieces_exist(s@, Separator::Character('E'));
    }
    let ghost all = text::views(parts@);
    assert(all == exponent_parts(s@));
    assert(all[0] == parts@[0]@);
    let mut exponent: i128 = 0;
    if parts.len() > 2 {
        return None;
    }
    if parts.len() == 2 {
        assert(all[1] == parts@[1]@);
        match read_exponent(parts[1].as_str()) {
            Some(value) => exponent = value,
            None => return None,
        }
    }
    let ghost truth = exponent_of(all)->0;
    assert(exponent_of(all) is Some);
    let head: Vec<char> = text::chars_of(parts[0].as_str());
    let signed: bool = head.len() > 0 && (head[0] == '+' || head[0] == '-');
    let negative: bool = head.len() > 0 && head[0] == '-';
    let body: String = string_of(&head, if signed { 1 } else { 0 }, head.len());
    assert(body@ =~= unsigned(all[0]));
    let halves: Vec<String> = split_text(body.as_str(), Separator::Character('.'));
    let ghost both = text::views(halves@);
    proof {
        text::lemma_pieces_exist(body@, Separator::Character('.'));
    }
    assert(both[0] == halves@[0]@);
    if halves.len() > 2 {
        return None;
    }
    let whole: Vec<char> = text::chars_of(halves[0].as_str());
    let fraction: Vec<char> = if halves.len() == 2 {
        assert(both[1] == halves@[1]@);
        text::chars_of(halves[1].as_str())
    } else {
        Vec::new()
    };
    assert(whole@ == both[0]);
    assert(fraction@ =~= fraction_of(both));
    if whole.len() == 0 && fraction.len() == 0 {
        return None;
    }
    let mut digits: Vec<char> = Vec::new();
    if !push_digits(&mut digits, &whole) {
        assert(!text::all_digits(both[0]));
        return None;
    }
    if !push_digits(&mut digits, &fraction) {
        assert(!text::all_digits(fraction_of(both)));
        return None;
    }
    assert(digits@ =~= whole@ + fraction@);
    assert forall|j: int| 0 <= j < digits@.len() implies text::is_digit(#[trigger] digits@[j]) by {
        if j < whole@.len() {
            assert(digits@[j] == whole@[j]);
        } else {
            assert(digits@[j] == fraction@[j - whole@.len()]);
        }
    }
    assert(is_mantissa(both)) by {
        assert forall|i: int| 0 <= i < both.len() implies text::all_digits(#[trigger] both[i]) by {
        }
    }
    let power: i128 = 9 + exponent - fraction.len() as i128;
    proof {
        lemma_far_places(digits@, power as int, 9 + truth - fraction@.len());
    }
    match shift(&digits, power) {
        Some(value) => Some(Number::Finite(if negative { -value } else { value })),
        None => Some(Number::Beyond { negative }),
    }
}

/// The first line of the list.
pub open spec fn manifest_header() -> Seq<char> {
    "name,ra,dec,rotation_deg,fov_x_deg,fov_y_deg,pixscale_arcsec,nx,ny,maglim,n_catalog,n_rendered,seed"@
}

/// The texts of a list, each without white space at either end.
pub open spec fn all_stripped(list: Seq<Seq<char>>) -> Seq<Seq<char>> {
    Seq::new(list.len(), |i: int| text::stripped(list[i]))
}

/// The lines of a text that are not blank, without white space at either end.
pub open spec fn lines_of(s: Seq<char>) -> Seq<Seq<char>> {
    text::non_empty(all_stripped(text::pieces(s, Separator::Character('\n'))))
}

/// Reads the lines of a text that are not blank.
fn read_lines(s: &str) -> (lines: Vec<String>)
    ensures
        text::views(lines@) == lines_of(s@),
{
    let parts: Vec<String> = split_text(s, Separator::Character('\n'));
    let ghost all = all_stripped(text::views(parts@));
    let mut lines: Vec<String> = Vec::new();
    let total: usize = parts.len();
    let mut i: usize = 0;
    assert(all.take(0) =~= Seq::<Seq<char>>::empty());
    assert(text::views(lines@) =~= Seq::<Seq<char>>::empty());
    while i < total
        invariant
            i <= total,
            total == parts@.len(),
            all == all_stripped(text::views(parts@)),
            text::views(lines@) == text::non_empty(all.take(i as int)),
        decreases total - i,
    {
        let line: String = strip_text(parts[i].as_str());
        assert(all.take(i + 1).drop_last() =~= all.take(i as int));
        assert(all.take(i + 1).last() == line@);
        if line.as_str().unicode_len() > 0 {
            let ghost before = text::views(lines@);
            let ghost content = line@;
            lines.push(line);
            assert(text::views(lines@) =~= before.push(content));
        }
        i = i + 1;
    }
    assert(all.take(total as int) =~= all);
    lines
}

/// The columns of a line.
pub open spec fn columns_of(line: Seq<char>) -> Seq<Seq<char>> {
    text::pieces(line, Separator::Character(','))
}

/// Why a column cannot be read as a number.
pub open spec fn number_error(row: int, column: int, s: Seq<char>) -> Option<Seq<char>> {
    if number_of(s) is Some {
        None
    } else {
        Some(
            "manifest.csv row "@ + text::decimal(row as nat) + " col "@ + text::decimal(
                column as nat,
            ) + (if s.len() == 0 {
                ": cannot parse float from empty string"@
            } else {
                ": invalid float literal"@
            }),
        )
    }
}

/// The first of two errors, if there is one.
pub open spec fn first_error(a: Option<Seq<char>>, b: Option<Seq<char>>) -> Option<Seq<char>> {
    match a {
        Some(error) => Some(error),
        None => b,
    }
}

/// Why the first columns of a line, up to one, cannot be read as numbers. The tenth and the
/// eleventh are not read.
pub open spec fn columns_error(columns: Seq<Seq<char>>, row: int, upto: int) -> Option<Seq<char>>
    decreases upto,
{
    if upto <= 1 {
        None
    } else {
        first_error(
            columns_error(columns, row, upto - 1),
            if upto == 10 || upto == 11 {
                None
            } else {
                number_error(row, upto - 1, columns[upto - 1])
            },
        )
    }
}

/// Why a line cannot be read, if it cannot.
pub open spec fn row_error(line: Seq<char>, row: int) -> Option<Seq<char>> {
    let columns = columns_of(line);
    if columns.len() != 13 {
        Some(
            "manifest.csv row "@ + text::decimal(row as nat) + " has "@ + text::decimal(
                columns.len(),
            ) + " columns, expected 13"@,
        )
    } else {
        columns_error(columns, row, 12)
    }
}

/// A number cut off to a whole one that is not negative, and kept within range. What is no number
/// counts as zero.
pub open spec fn as_count(number: Number) -> int {
    match number {
        Number::Finite(billionths) => if billionths < 0 {
            0
        } else if billionths as int / 1_000_000_000 > u32::MAX {
            u32::MAX as int
        } else {
            billionths as int / 1_000_000_000
        },
        Number::Beyond { negative } => if negative {
            0
        } else {
            u32::MAX as int
        },
        Number::NotANumber => 0,
    }
}

/// A number cut off to a whole one, and kept within range. What is no number counts as zero.
pub open spec fn as_whole(number: Number) -> int {
    match number {
        Number::Finite(billionths) => {
            let whole = if billionths < 0 {
                -((-billionths) / 1_000_000_000)
            } else {
                billionths as int / 1_000_000_000
            };
            if whole > i32::MAX {
                i32::MAX as int
            } else if whole < i32::MIN {
                i32::MIN as int
            } else {
                whole
            }
        },
        Number::Beyond { negative } => if negative {
            i32::MIN as int
        } else {
            i32::MAX as int
        },
        Number::NotANumber => 0,
    }
}

/// Whether a field is what a line says.
pub open spec fn is_field(field: Field, line: Seq<char>) -> bool {
    let columns = columns_of(line);
    &&& field.name@ == columns[0]
    &&& number_of(columns[1]) == Some(field.ra_deg)
    &&& number_of(columns[2]) == Some(field.dec_deg)
    &&& number_of(columns[3]) == Some(field.rotation_deg)
    &&& number_of(columns[4]) == Some(field.fov_x_deg)
    &&& number_of(columns[5]) == Some(field.fov_y_deg)
    &&& number_of(columns[6]) == Some(field.pixscale_arcsec)
    &&& number_of(columns[7]) matches Some(nx) && field.nx == as_count(nx)
    &&& number_of(columns[8]) matches Some(ny) && field.ny == as_count(ny)
    &&& number_of(columns[11]) matches Some(n) && field.n_rendered == as_whole(n)
}

/// Cuts a number off to a whole one that is not negative.
fn to_count(number: Number) -> (count: u32)
    ensures
        count == as_count(number),
{
    match number {
        Number::Finite(billionths) => {
            if billionths < 0 {
                0
            } else {
                let whole: i64 = billionths / 1_000_000_000;
                if whole > 0xffff_ffff {
                    0xffff_ffff
                } else {
                    whole as u32
                }
            }
        },
        Number::Beyond { negative } => if negative { 0 } else { 0xffff_ffff },
        Number::NotANumber => 0,
    }
}

/// Cuts a number off to a whole one.
fn to_whole(number: Number) -> (whole: i32)
    ensures
        whole == as_whole(number),
{
    match number {
        Number::Finite(billionths) => {
            let whole: i128 = if billionths < 0 {
                -((-(billionths as i128)) / 1_000_000_000)
            } else {
                billionths as i128 / 1_000_000_000
            };
            if whole > 0x7fff_ffff {
                0x7fff_ffff
            } else if whole < -0x8000_0000 {
                -0x8000_0000
            } else {
                whole as i32
            }
        },
        Number::Beyond { negative } => if negative { -0x8000_0000 } else { 0x7fff_ffff },
        Number::NotANumber => 0,
    }
}

/// Words an error in a number.
fn word_number_error(row: usize, column: usize, empty: bool) -> (error: String)
    ensures
        error@ == "manifest.csv row "@ + text::decimal(row as nat) + " col "@ + text::decimal(
            column as nat,
        ) + (if empty {
            ": cannot parse float from empty string"@
        } else {
            ": invalid float literal"@
        }),
{
    let mut error: String = "manifest.csv row ".to_owned();
    push_decimal(&mut error, row as u64);
    error.append(" col ");
    push_decimal(&mut error, column as u64);
    if empty {
        error.append(": cannot parse float from empty string");
    } else {
        error.append(": invalid float literal");
    }
    error
}

/// Reads a column as a number.
fn read_column(columns: &Vec<String>, row: usize, column: usize) -> (r: Result<Number, String>)
    requires
        column < columns@.len(),
    ensures
        match r {
            Ok(value) => number_of(columns@[column as int]@) == Some(value),
            Err(error) => number_error(row as int, column as int, columns@[column as int]@)
                == Some(error@),
        },
        r is Ok ==> number_error(row as int, column as int, columns@[column as int]@) is None,
{
    match parse_number(columns[column].as_str()) {
        Some(value) => Ok(value),
        None => {
            let empty: bool = columns[column].as_str().unicode_len() == 0;
            Err(word_number_error(row, column, empty))
        },
    }
}

/// Reads a line.
fn parse_row(line: &str, row: usize) -> (r: Result<Field, String>)
    ensures
        match r {
            Ok(field) => row_error(line@, row as int) is None && is_field(field, line@),
            Err(error) => row_error(line@, row as int) == Some(error@),
        },
{
    let columns: Vec<String> = split_text(line, Separator::Character(','));
    let ghost all = columns_of(line@);
    assert(text::views(columns@) == all);
    if columns.len() != 13 {
        let mut error: String = "manifest.csv row ".to_owned();
        push_decimal(&mut error, row as u64);
        error.append(" has ");
        push_decimal(&mut error, columns.len() as u64);
        error.append(" columns, expected 13");
        return Err(error);
    }
    let mut values: Vec<Number> = Vec::new();
    let mut i: usize = 1;
    while i < 12
        invariant
            1 <= i <= 12,
            columns@.len() == 13,
            all == columns_of(line@),
            all.len() == 13,
            text::views(columns@) == all,
            row_error(line@, row as int) == columns_error(all, row as int, 12),
            columns_error(all, row as int, i as int) is None,
            values@.len() == i - 1,
            forall|k: int|
                1 <= k < i && k != 9 && k != 10 ==> number_of(#[trigger] all[k]) == Some(
                    values@[k - 1],
                ),
        decreases 12 - i,
    {
        assert(all[i as int] == columns@[i as int]@);
        if i == 9 || i == 10 {
            values.push(Number::NotANumber);
        } else {
            match read_column(&columns, row, i) {
                Ok(value) => values.push(value),
                Err(error) => {
                    proof {
                        lemma_error_stays(all, row as int, i + 1, 12);
                    }
                    return Err(error);
                },
            }
        }
        i = i + 1;
    }
    assert(all[0] == columns@[0]@);
    assert(number_of(all[1]) == Some(values@[0]));
    assert(number_of(all[2]) == Some(values@[1]));
    assert(number_of(all[3]) == Some(values@[2]));
    assert(number_of(all[4]) == Some(values@[3]));
    assert(number_of(all[5]) == Some(values@[4]));
    assert(number_of(all[6]) == Some(values@[5]));
    assert(number_of(all[7]) == Some(values@[6]));
    assert(number_of(all[8]) == Some(values@[7]));
    assert(number_of(all[11]) == Some(values@[10]));
    Ok(
        Field {
            name: columns[0].clone(),
            ra_deg: values[0],
            dec_deg: values[1],
            rotation_deg: values[2],
            fov_x_deg: values[3],
            fov_y_deg: values[4],
            pixscale_arcsec: values[5],
            nx: to_count(values[6]),
            ny: to_count(values[7]),
            n_rendered: to_whole(values[10]),
        },
    )
}

/// An error in a column stays the first one.
proof fn lemma_error_stays(columns: Seq<Seq<char>>, row: int, from: int, upto: int)
    requires
        from <= upto,
        columns_error(columns, row, from) is Some,
    ensures
        columns_error(columns, row, upto) == columns_error(columns, row, from),
    decreases upto - from,
{
    if from < upto {
        lemma_error_stays(columns, row, from, upto - 1);
    }
}

/// The first error in the lines after the heading, if there is one. Lines count from two.
pub open spec fn rows_error(rows: Seq<Seq<char>>) -> Option<Seq<char>>
    decreases rows.len(),
{
    if rows.len() == 0 {
        None
    } else {
        first_error(rows_error(rows.drop_last()), row_error(rows.last(), rows.len() as int + 1))
    }
}

/// Why the list cannot be read, if it cannot.
pub open spec fn manifest_error(content: Seq<char>) -> Option<Seq<char>> {
    let lines = lines_of(content);
    if lines.len() == 0 {
        Some("manifest.csv is empty"@)
    } else if lines[0] != manifest_header() {
        Some(
            "manifest.csv header drift.\n  expected: "@ + manifest_header() + "\n  found:    "@
                + lines[0],
        )
    } else {
        rows_error(lines.skip(1))
    }
}

/// Whether fields are what the lines after the heading say, one by one.
pub open spec fn are_fields(fields: Seq<Field>, rows: Seq<Seq<char>>) -> bool {
    &&& fields.len() == rows.len()
    &&& forall|i: int| 0 <= i < fields.len() ==> is_field(#[trigger] fields[i], rows[i])
}

/// An error in an earlier line stays the first one.
proof fn lemma_row_error_stays(rows: Seq<Seq<char>>, k: int)
    requires
        0 <= k <= rows.len(),
        rows_error(rows.take(k)) is Some,
    ensures
        rows_error(rows) == rows_error(rows.take(k)),
    decreases rows.len() - k,
{
    if k < rows.len() {
        assert(rows.take(k + 1).drop_last() =~= rows.take(k));
        lemma_row_error_stays(rows, k + 1);
    } else {
        assert(rows.take(k) =~= rows);
    }
}

/// Reads the list. Columns go by their position, so that another heading is an error.
pub fn parse_manifest(content: &str) -> (r: Result<Vec<Field>, String>)
    ensures
        match r {
            Ok(fields) => manifest_error(content@) is None && are_fields(
                fields@,
                lines_of(content@).skip(1),
            ),
            Err(error) => manifest_error(content@) == Some(error@),
        },
{
    let header: &str = "name,ra,dec,rotation_deg,fov_x_deg,fov_y_deg,pixscale_arcsec,nx,ny,maglim,n_catalog,n_rendered,seed";
    let lines: Vec<String> = read_lines(content);
    let ghost all = lines_of(content@);
    let total: usize = lines.len();
    if total == 0 {
        assert(all.len() == 0);
        return Err("manifest.csv is empty".to_owned());
    }
    assert(all[0] == lines@[0]@);
    if !same_text(lines[0].as_str(), header) {
        let mut error: String = "manifest.csv header drift.\n  expected: ".to_owned();
        error.append(header);
        error.append("\n  found:    ");
        error.append(lines[0].as_str());
        return Err(error);
    }
    let ghost rows = all.skip(1);
    let mut fields: Vec<Field> = Vec::new();
    let mut i: usize = 1;
    assert(rows.take(0) =~= Seq::<Seq<char>>::empty());
    while i < total
        invariant
            1 <= i <= total,
            total == lines@.len(),
            text::views(lines@) == all,
            rows == all.skip(1),
            rows_error(rows.take(i - 1)) is None,
            are_fields(fields@, rows.take(i - 1)),
            manifest_error(content@) == rows_error(rows),
        decreases total - i,
    {
        assert(rows.take(i as int).drop_last() =~= rows.take(i - 1));
        assert(rows.take(i as int).last() == lines@[i as int]@);
        match parse_row(lines[i].as_str(), i + 1) {
            Ok(field) => {
                let ghost before = fields@;
                fields.push(field);
                assert(are_fields(fields@, rows.take(i as int))) by {
                    assert forall|k: int| 0 <= k < fields@.len() implies is_field(
                        #[trigger] fields@[k],
                        rows.take(i as int)[k],
                    ) by {
                        if k < before.len() {
                            assert(fields@[k] == before[k]);
                            assert(rows.take(i as int)[k] == rows.take(i - 1)[k]);
                        }
                    }
                }
            },
            Err(error) => {
                proof {
                    lemma_row_error_stays(rows, i as int);
                }
                return Err(error);
            },
        }
        i = i + 1;
    }
    assert(rows.take(total - 1) =~= rows);
    Ok(fields)
}

/// Whether an image has the size that the list gives it.
pub fn check_image_size(field: &Field, width: u32, height: u32) -> (fits: bool)
    ensures
        fits == (width == field.nx && height == field.ny),
{
    width == field.nx && height == field.ny
}

/// Digits, with or without a sign in front, are not the name of anything.
proof fn lemma_digits_name_nothing(s: Seq<char>)
    requires
        s.len() > 0,
        text::is_digit(s[0]) || s[0] == '.',
    ensures
        !names_infinity(s),
        !text::same_but_case(s, "nan"@),
{
    reveal_strlit("inf");
    reveal_strlit("infinity");
    reveal_strlit("nan");
    assert(text::lower_case(s[0]) == s[0]);
    assert("inf"@[0] == 'i' && "infinity"@[0] == 'i' && "nan"@[0] == 'n');
    assert(text::lower_case('i') == 'i' && text::lower_case('n') == 'n');
    if text::same_but_case(s, "inf"@) {
        assert(text::lower_case(s[0]) == text::lower_case("inf"@[0]));
    }
    if text::same_but_case(s, "infinity"@) {
        assert(text::lower_case(s[0]) == text::lower_case("infinity"@[0]));
    }
    if text::same_but_case(s, "nan"@) {
        assert(text::lower_case(s[0]) == text::lower_case("nan"@[0]));
    }
}

/// The halves of a number around its point.
proof fn lemma_halves(whole: Seq<char>, fraction: Seq<char>, mantissa: Seq<char>)
    requires
        text::all_digits(whole),
        text::all_digits(fraction),
        whole.len() + fraction.len() > 0,
        mantissa == whole + seq!['.'] + fraction || (mantissa == whole && fraction.len() == 0),
    ensures
        ({
            let halves = text::pieces(mantissa, Separator::Character('.'));
            &&& is_mantissa(halves)
            &&& halves[0] + fraction_of(halves) == whole + fraction
            &&& fraction_of(halves).len() == fraction.len()
        }),
{
    assert(!whole.contains('.')) by {
        if whole.contains('.') {
            let i = choose|i: int| 0 <= i < whole.len() && whole[i] == '.';
            assert(text::is_digit(whole[i]));
        }
    }
    assert(!fraction.contains('.')) by {
        if fraction.contains('.') {
            let i = choose|i: int| 0 <= i < fraction.len() && fraction[i] == '.';
            assert(text::is_digit(fraction[i]));
        }
    }
    let halves = text::pieces(mantissa, Separator::Character('.'));
    if mantissa == whole + seq!['.'] + fraction {
        text::lemma_two_pieces(whole, fraction, '.');
        assert(halves[0] == whole && halves[1] == fraction);
    } else {
        text::lemma_one_piece(whole, '.');
        assert(halves[0] == whole);
        assert(whole + fraction =~= whole);
        assert(halves[0] + Seq::<char>::empty() =~= whole);
    }
}

/// The parts of a number with an exponent, and of one without.
proof fn lemma_exponent_parts(front: Seq<char>, exponent: Seq<char>, mark: char, s: Seq<char>)
    requires
        mark == 'e' || mark == 'E',
        !front.contains('e') && !front.contains('E'),
        !exponent.contains('e') && !exponent.contains('E'),
        s == front || s == front + seq![mark] + exponent,
    ensures
        s == front ==> exponent_parts(s) == seq![front],
        s == front + seq![mark] + exponent ==> exponent_parts(s) == seq![front, exponent],
{
    if s == front {
        text::lemma_one_piece(front, 'e');
        text::lemma_one_piece(front, 'E');
    }
    if s == front + seq![mark] + exponent {
        text::lemma_two_pieces(front, exponent, mark);
        if mark == 'E' {
            assert(!s.contains('e')) by {
                if s.contains('e') {
                    let i = choose|i: int| 0 <= i < s.len() && s[i] == 'e';
                    if i < front.len() {
                        assert(front[i] == 'e');
                    } else if i > front.len() {
                        assert(exponent[i - front.len() - 1] == 'e');
                    }
                }
            }
            text::lemma_one_piece(s, 'e');
        }
    }
}

/// Powers of ten up to the ninth, and the twelfth.
proof fn lemma_powers_of_ten()
    ensures
        pow10(0) == 1 && pow10(1) == 10 && pow10(2) == 100 && pow10(3) == 1_000,
        pow10(4) == 10_000 && pow10(5) == 100_000 && pow10(6) == 1_000_000,
        pow10(7) == 10_000_000 && pow10(8) == 100_000_000 && pow10(9) == 1_000_000_000,
        pow10(12) == 1_000_000_000_000,
{
    reveal_with_fuel(pow10, 13);
}

/// A number is read as its digits say, with or without a point among them, and with its sign: each
/// digit behind the point counts a tenth of the one before.
pub proof fn law_digits_are_read(
    s: &str,
    digits: &str,
    n: u64,
    negative: bool,
    whole: Seq<char>,
    fraction: Seq<char>,
    read: Option<Number>,
)
    requires
        text::all_digits(whole),
        text::all_digits(fraction),
        whole.len() + fraction.len() > 0,
        fraction.len() <= 9,
        ({
            let front = if negative {
                seq!['-']
            } else {
                Seq::<char>::empty()
            };
            s@ == front + (whole + seq!['.'] + fraction) || (s@ == front + whole && fraction.len()
                == 0)
        }),
        digits@ == whole + fraction,
        call_ensures(text::parse_u64, (digits,), Some(n)),
        n <= 9_000_000_000,
        call_ensures(parse_number, (s,), read),
    ensures
        ({
            let k = fraction.len();
            let unit: int = if k == 0 {
                1_000_000_000
            } else if k == 1 {
                100_000_000
            } else if k == 2 {
                10_000_000
            } else if k == 3 {
                1_000_000
            } else if k == 4 {
                100_000
            } else if k == 5 {
                10_000
            } else if k == 6 {
                1_000
            } else if k == 7 {
                100
            } else if k == 8 {
                10
            } else {
                1
            };
            &&& !negative ==> read == Some(Number::Finite((n * unit) as i64))
            &&& negative ==> read == Some(Number::Finite((-(n * unit)) as i64))
            &&& 0 <= n * unit <= 9_000_000_000_000_000_000
        }),
{
    let front = if negative {
        seq!['-']
    } else {
        Seq::<char>::empty()
    };
    let mantissa = s@.skip(front.len() as int);
    if s@ == front + (whole + seq!['.'] + fraction) {
        assert(mantissa =~= whole + seq!['.'] + fraction);
    } else {
        assert(mantissa =~= whole);
    }
    assert(mantissa.len() > 0);
    assert(text::is_digit(mantissa[0]) || mantissa[0] == '.') by {
        if whole.len() > 0 {
            assert(mantissa[0] == whole[0]);
            assert(text::is_digit(whole[0]));
        }
    }
    assert(s@ =~= front + mantissa);
    assert(unsigned(s@) =~= mantissa);
    assert(begins_with_minus(s@) == negative);
    lemma_digits_name_nothing(mantissa);
    assert forall|i: int| 0 <= i < s@.len() implies text::is_digit(#[trigger] s@[i]) || s@[i] == '.'
        || s@[i] == '-' by {
        if i >= front.len() {
            let k = i - front.len();
            assert(s@[i] == mantissa[k]);
            if k < whole.len() {
                assert(mantissa[k] == whole[k]);
                assert(text::is_digit(whole[k]));
            } else if k > whole.len() {
                assert(mantissa[k] == fraction[k - whole.len() - 1]);
                assert(text::is_digit(fraction[k - whole.len() - 1]));
            }
        }
    }
    assert(!s@.contains('e') && !s@.contains('E'));
    lemma_exponent_parts(s@, Seq::empty(), 'e', s@);
    lemma_halves(whole, fraction, mantissa);
    assert(text::all_digits(whole + fraction)) by {
        let both = whole + fraction;
        assert forall|i: int| 0 <= i < both.len() implies text::is_digit(#[trigger] both[i]) by {
            if i < whole.len() {
                assert(both[i] == whole[i]);
            } else {
                assert(both[i] == fraction[i - whole.len()]);
            }
        }
    }
    assert(text::is_digit(digits@[0]));
    text::lemma_digits_value_nonnegative(digits@);
    assert(text::digits_value(whole + fraction) == n);
    lemma_powers_of_ten();
}

/// An exponent, behind either letter, shifts the point: none by none, and three by a thousand
/// either way.
pub proof fn law_exponent_shifts_the_point(
    s: &str,
    digits: &str,
    n: u64,
    mark: char,
    exponent: &str,
    e: i32,
    read: Option<Number>,
)
    requires
        text::all_digits(digits@),
        digits@.len() > 0,
        mark == 'e' || mark == 'E',
        s@ == digits@ + seq![mark] + exponent@,
        call_ensures(text::parse_u64, (digits,), Some(n)),
        call_ensures(text::parse_i32, (exponent,), Some(e)),
        n <= 9_000_000,
        call_ensures(parse_number, (s,), read),
    ensures
        e == 0 ==> read == Some(Number::Finite((n * 1_000_000_000) as i64)),
        e == 3 ==> read == Some(Number::Finite((n * 1_000_000_000_000) as i64)),
        e == -3 ==> read == Some(Number::Finite((n * 1_000_000) as i64)),
        e == -9 ==> read == Some(Number::Finite(n as i64)),
{
    assert(text::is_digit(digits@[0]));
    assert(s@[0] == digits@[0]);
    assert(unsigned(s@) == s@);
    lemma_digits_name_nothing(s@);
    assert(!digits@.contains('e') && !digits@.contains('E')) by {
        assert(forall|i: int| 0 <= i < digits@.len() ==> text::is_digit(#[trigger] digits@[i]));
    }
    assert(!exponent@.contains('e') && !exponent@.contains('E')) by {
        let x = exponent@;
        assert forall|i: int| 0 <= i < x.len() implies x[i] != 'e' && x[i] != 'E' by {
            if x[0] == '+' || x[0] == '-' {
                if i > 0 {
                    assert(x.skip(1)[i - 1] == x[i]);
                    assert(text::is_digit(x.skip(1)[i - 1]));
                }
            } else {
                assert(text::is_digit(x[i]));
            }
        }
    }
    lemma_exponent_parts(digits@, exponent@, mark, s@);
    let parts = exponent_parts(s@);
    assert(parts[0] == digits@ && parts[1] == exponent@);
    assert(unsigned(parts[0]) == digits@);
    lemma_halves(digits@, Seq::empty(), digits@);
    assert(digits@ + Seq::<char>::empty() =~= digits@);
    text::lemma_digits_value_nonnegative(digits@);
    lemma_powers_of_ten();
}

/// The names of infinity and of no number stand for these in any case, with a sign or none, and an
/// empty text for no value at all.
pub proof fn law_names_are_read(s: &str, read: Option<Number>)
    requires
        call_ensures(parse_number, (s,), read),
    ensures
        s@ == "inf"@ || s@ == "Inf"@ || s@ == "infinity"@ ==> read == Some(
            Number::Beyond { negative: false },
        ),
        s@ == "-inf"@ ==> read == Some(Number::Beyond { negative: true }),
        s@ == "nan"@ || s@ == "NaN"@ ==> read == Some(Number::NotANumber),
        s@.len() == 0 ==> read is None,
{
    reveal_strlit("inf");
    reveal_strlit("Inf");
    reveal_strlit("infinity");
    reveal_strlit("-inf");
    reveal_strlit("nan");
    reveal_strlit("NaN");
    assert(text::lower_case('I') == 'i' && text::lower_case('N') == 'n');
    if s@ == "inf"@ {
        assert(unsigned(s@) == s@);
    }
    if s@ == "Inf"@ {
        assert(unsigned(s@) == s@);
        assert(text::same_but_case(s@, "inf"@));
    }
    if s@ == "-inf"@ {
        assert(s@.skip(1) =~= "inf"@);
    }
    if s@ == "nan"@ || s@ == "NaN"@ {
        assert(unsigned(s@) == s@);
        assert(s@.len() == 3 && (s@[0] == 'n' || s@[0] == 'N'));
        assert(text::lower_case(s@[0]) == 'n');
        assert("inf"@[0] == 'i' && text::lower_case('i') == 'i');
        if text::same_but_case(s@, "inf"@) {
            assert(text::lower_case(s@[0]) == text::lower_case("inf"@[0]));
        }
        assert("infinity"@.len() == 8);
        assert(text::same_but_case(s@, "nan"@));
    }
    if s@.len() == 0 {
        assert(unsigned(s@) == s@);
        assert(!s@.contains('e') && !s@.contains('E') && !s@.contains('.'));
        lemma_exponent_parts(s@, Seq::empty(), 'e', s@);
        text::lemma_one_piece(s@, '.');
    }
}

/// Lines that are not blank and have no white space at either end stay as they are.
proof fn lemma_plain_lines(content: Seq<char>, parts: Seq<Seq<char>>)
    requires
        text::pieces(content, Separator::Character('\n')) == parts,
        forall|i: int|
            0 <= i < parts.len() ==> (#[trigger] parts[i]).len() > 0 && text::stripped(parts[i])
                == parts[i],
    ensures
        lines_of(content) == parts,
{
    assert(all_stripped(parts) =~= parts);
    lemma_none_empty(parts);
}

/// A list without empty texts keeps all of them.
proof fn lemma_none_empty(list: Seq<Seq<char>>)
    requires
        forall|i: int| 0 <= i < list.len() ==> (#[trigger] list[i]).len() > 0,
    ensures
        text::non_empty(list) == list,
    decreases list.len(),
{
    if list.len() > 0 {
        let front = list.drop_last();
        assert forall|i: int| 0 <= i < front.len() implies (#[trigger] front[i]).len() > 0 by {
            assert(front[i] == list[i]);
        }
        lemma_none_empty(front);
        assert(list[list.len() - 1].len() > 0);
        assert(front.push(list.last()) =~= list);
    } else {
        assert(text::non_empty(list) =~= list);
    }
}

/// Where no line is wrong, none of them is.
proof fn lemma_no_row_is_wrong(rows: Seq<Seq<char>>, i: int)
    requires
        rows_error(rows) is None,
        0 <= i < rows.len(),
    ensures
        row_error(rows[i], i + 2) is None,
    decreases rows.len(),
{
    if i < rows.len() - 1 {
        lemma_no_row_is_wrong(rows.drop_last(), i);
        assert(rows.drop_last()[i] == rows[i]);
    }
}

/// A list is read line by line and column by column: a field for each line after the heading, whose
/// numbers are those of its columns. Sizes are cut off to whole ones.
pub proof fn law_list_is_read_by_columns(
    content: &str,
    lines: Vec<String>,
    line: &str,
    columns: Vec<String>,
    i: int,
    c: int,
    column: &str,
    number: Option<Number>,
    r: Result<Vec<Field>, String>,
)
    requires
        call_ensures(split_text, (content, Separator::Character('\n')), lines),
        forall|k: int|
            0 <= k < lines@.len() ==> (#[trigger] lines@[k])@.len() > 0 && text::stripped(
                lines@[k]@,
            ) == lines@[k]@,
        1 <= i < lines@.len(),
        line@ == lines@[i]@,
        call_ensures(split_text, (line, Separator::Character(',')), columns),
        0 <= c < columns@.len(),
        column@ == columns@[c]@,
        call_ensures(parse_number, (column,), number),
        call_ensures(parse_manifest, (content,), r),
    ensures
        r is Ok ==> lines@[0]@
            == "name,ra,dec,rotation_deg,fov_x_deg,fov_y_deg,pixscale_arcsec,nx,ny,maglim,n_catalog,n_rendered,seed"@,
        columns@.len() != 13 ==> r is Err,
        r matches Ok(fields) ==> {
            let field = fields@[i - 1];
            &&& fields@.len() == lines@.len() - 1
            &&& field.name@ == columns@[0]@
            &&& c == 1 ==> number == Some(field.ra_deg)
            &&& c == 2 ==> number == Some(field.dec_deg)
            &&& c == 3 ==> number == Some(field.rotation_deg)
            &&& c == 4 ==> number == Some(field.fov_x_deg)
            &&& c == 5 ==> number == Some(field.fov_y_deg)
            &&& c == 6 ==> number == Some(field.pixscale_arcsec)
            &&& number matches Some(Number::Finite(v)) ==> (0 <= v < 2_147_483_648_000_000_000 ==> (
            c == 7 ==> field.nx * 1_000_000_000 <= v < (field.nx + 1) * 1_000_000_000) && (c == 8
                ==> field.ny * 1_000_000_000 <= v < (field.ny + 1) * 1_000_000_000) && (c == 11
                ==> field.n_rendered * 1_000_000_000 <= v < (field.n_rendered + 1)
                * 1_000_000_000))
        },
{
    let all = text::views(lines@);
    assert forall|k: int| 0 <= k < all.len() implies (#[trigger] all[k]).len() > 0
        && text::stripped(all[k]) == all[k] by {
        assert(all[k] == lines@[k]@);
    }
    lemma_plain_lines(content@, all);
    assert(all[0] == lines@[0]@);
    assert(columns_of(line@) == text::views(columns@));
    assert(text::views(columns@)[c] == columns@[c]@);
    assert(text::views(columns@)[0] == columns@[0]@);
    let rows = all.skip(1);
    assert(rows[i - 1] == line@);
    if rows_error(rows) is None {
        lemma_no_row_is_wrong(rows, i - 1);
    }
    if let Ok(fields) = r {
        assert(is_field(fields@[i - 1], rows[i - 1]));
    }
}

/// An image fits where both its sizes do. A field is as wide as twice the angle whose tangent is
/// half its columns times the angle of a pixel.
pub proof fn law_field_is_measured<F: Fn(i128) -> i64>(
    field: Field,
    width: u32,
    height: u32,
    fits: bool,
    arctangent: F,
    pixel: i64,
    fov: i64,
    tangent: i128,
    angle: i64,
)
    requires
        is_arctangent(arctangent),
        field.pixscale_arcsec == Number::Finite(pixel),
        0 <= pixel,
        tangent * 1_296_000_000_000_000 <= field.nx * pixel * 3_141_592_654 < (tangent + 1)
            * 1_296_000_000_000_000,
        call_ensures(check_image_size, (&field, width, height), fits),
        call_ensures(Field::true_fov_x_deg::<F>, (&field, &arctangent), fov),
        call_ensures(arctangent, (tangent,), angle),
    ensures
        fits <==> width == field.nx && height == field.ny,
        fov == 2 * angle,
{
    assert(field.nx * pixel * 3_141_592_654 / 1_296_000_000_000_000 == tangent);
}

} // verus!
