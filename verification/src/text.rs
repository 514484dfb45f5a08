//! Text helpers: decimal numbers, padded fields, and pieces of a `str`.

use vstd::prelude::*;
use vstd::string::*;
use vstd::utf8::*;

verus! {

broadcast use vstd::string::group_string_axioms;

/// `String::push` of std appends one character to the end of the string.
pub assume_specification[ std::string::String::push ](string: &mut String, ch: char)
    ensures
        final(string)@ == old(string)@.push(ch),
;

/// The character of a decimal digit.
pub open spec fn digit_char(digit: int) -> char {
    (48 + digit) as char
}

/// Whether a character is one of the ASCII digits.
pub open spec fn is_digit(ch: char) -> bool {
    '0' <= ch && ch <= '9'
}

/// The value of an ASCII digit.
pub open spec fn digit_value(ch: char) -> int {
    ch as int - 48
}

/// A natural number in decimal, without leading zeros.
pub open spec fn decimal(n: nat) -> Seq<char>
    decreases n,
{
    if n < 10 {
        seq![digit_char(n as int)]
    } else {
        decimal(n / 10).push(digit_char((n % 10) as int))
    }
}

/// An integer padded with zeros to a width of at least two, sign included.
pub open spec fn padded(n: int) -> Seq<char> {
    if n < 0 {
        seq!['-'] + decimal((-n) as nat)
    } else if n < 10 {
        seq!['0'] + decimal(n as nat)
    } else {
        decimal(n as nat)
    }
}

/// Whether every character is an ASCII digit.
pub open spec fn all_digits(s: Seq<char>) -> bool {
    forall|i: int| 0 <= i < s.len() ==> is_digit(#[trigger] s[i])
}

/// The value of a run of ASCII digits.
pub open spec fn digits_value(s: Seq<char>) -> int
    decreases s.len(),
{
    if s.len() == 0 {
        0
    } else {
        digits_value(s.drop_last()) * 10 + digit_value(s.last())
    }
}

/// The integer that a text stands for: an optional sign and one or more digits.
pub open spec fn integer_value(s: Seq<char>) -> Option<int> {
    if s.len() > 0 && (s[0] == '+' || s[0] == '-') {
        let digits = s.skip(1);
        if digits.len() == 0 || !all_digits(digits) {
            None
        } else if s[0] == '-' {
            Some(-digits_value(digits))
        } else {
            Some(digits_value(digits))
        }
    } else if s.len() == 0 || !all_digits(s) {
        None
    } else {
        Some(digits_value(s))
    }
}

/// The text read as an `i32`: `None` where it is no integer or does not fit.
pub open spec fn i32_value(s: Seq<char>) -> Option<i32> {
    match integer_value(s) {
        Some(n) => if i32::MIN <= n <= i32::MAX {
            Some(n as i32)
        } else {
            None
        },
        None => None,
    }
}

/// A run of digits never stands for a negative number.
pub proof fn lemma_digits_value_nonnegative(s: Seq<char>)
    requires
        all_digits(s),
    ensures
        digits_value(s) >= 0,
    decreases s.len(),
{
    if s.len() > 0 {
        lemma_digits_value_nonnegative(s.drop_last());
        assert(is_digit(s[s.len() - 1]));
    }
}

/// More digits stand for a number at least as large.
pub proof fn lemma_digits_value_monotone(s: Seq<char>, k: int)
    requires
        all_digits(s),
        0 <= k <= s.len(),
    ensures
        0 <= digits_value(s.take(k)) <= digits_value(s),
    decreases s.len() - k,
{
    lemma_digits_value_nonnegative(s.take(k));
    if k < s.len() {
        let longer = s.take(k + 1);
        assert(longer.drop_last() =~= s.take(k));
        assert(is_digit(s[k]));
        assert(longer.last() == s[k]);
        lemma_digits_value_monotone(s, k + 1);
    } else {
        assert(s.take(k) =~= s);
    }
}

/// The characters of a text.
pub fn chars_of(s: &str) -> (v: Vec<char>)
    ensures
        v@ == s@,
{
    let mut v: Vec<char> = Vec::new();
    let n: usize = s.unicode_len();
    let mut i: usize = 0;
    while i < n
        invariant
            i <= n,
            n == s@.len(),
            v@ == s@.take(i as int),
        decreases n - i,
    {
        v.push(s.get_char(i));
        i = i + 1;
    }
    assert(s@.take(n as int) =~= s@);
    v
}

/// The text made of some characters, from `from` up to but without `to`.
pub fn string_of(v: &Vec<char>, from: usize, to: usize) -> (s: String)
    requires
        from <= to <= v.len(),
    ensures
        s@ == v@.subrange(from as int, to as int),
{
    let mut s = String::new();
    let mut i: usize = from;
    while i < to
        invariant
            from <= i <= to <= v.len(),
            s@ == v@.subrange(from as int, i as int),
        decreases to - i,
    {
        s.push(v[i]);
        i = i + 1;
    }
    s
}

/// Appends a natural number in decimal.
pub fn push_decimal(s: &mut String, n: u64)
    ensures
        final(s)@ == old(s)@ + decimal(n as nat),
    decreases n,
{
    if n >= 10 {
        push_decimal(s, n / 10);
    }
    let digit: u8 = (n % 10) as u8;
    s.push((48u8 + digit) as char);
    assert(s@ =~= old(s)@ + decimal(n as nat));
}

/// Appends a natural number of many digits in decimal.
pub fn push_long_decimal(s: &mut String, n: u128)
    ensures
        final(s)@ == old(s)@ + decimal(n as nat),
    decreases n,
{
    if n >= 10 {
        push_long_decimal(s, n / 10);
    }
    let digit: u8 = (n % 10) as u8;
    s.push((48u8 + digit) as char);
    assert(s@ =~= old(s)@ + decimal(n as nat));
}

/// Appends an integer padded with zeros to a width of at least two.
pub fn push_padded(s: &mut String, n: i64)
    ensures
        final(s)@ == old(s)@ + padded(n as int),
{
    if n < 0 {
        s.push('-');
        let magnitude: u64 = (-(n + 1)) as u64 + 1;
        push_decimal(s, magnitude);
    } else {
        if n < 10 {
            s.push('0');
        }
        push_decimal(s, n as u64);
    }
    assert(s@ =~= old(s)@ + padded(n as int));
}

/// Reads an `i32`: an optional sign followed by one or more ASCII digits, within range.
pub fn parse_i32(s: &str) -> (r: Option<i32>)
    ensures
        r == i32_value(s@),
{
    let v: Vec<char> = chars_of(s);
    if v.len() == 0 {
        return None;
    }
    let signed: bool = v[0] == '+' || v[0] == '-';
    let negative: bool = v[0] == '-';
    let start: usize = if signed { 1 } else { 0 };
    let ghost digits = if signed { s@.skip(1) } else { s@ };
    if v.len() == start {
        return None;
    }
    let mut value: i64 = 0;
    let mut i: usize = start;
    while i < v.len()
        invariant
            start <= i <= v.len(),
            v@ == s@,
            start <= 1,
            s@.len() > 0,
            signed == (s@[0] == '+' || s@[0] == '-'),
            start == (if signed { 1int } else { 0int }),
            digits == (if signed { s@.skip(1) } else { s@ }),
            digits.len() == v.len() - start,
            all_digits(digits.take(i - start)),
            value == digits_value(digits.take(i - start)),
            0 <= value <= 2147483648,
            negative == (s@[0] == '-'),
        decreases v.len() - i,
    {
        let c: char = v[i];
        assert(digits[i - start] == c);
        if c < '0' || c > '9' {
            assert(!is_digit(digits[i - start]));
            return None;
        }
        let ghost before = digits.take(i - start);
        let ghost after = digits.take(i - start + 1);
        assert(after.drop_last() =~= before);
        assert(after.last() == c);
        assert forall|j: int| 0 <= j < after.len() implies is_digit(#[trigger] after[j]) by {
            if j < before.len() {
                assert(after[j] == before[j]);
            }
        }
        value = value * 10 + (c as u32 - 48) as i64;
        assert(value == digits_value(after));
        if value > 2147483648 {
            proof {
                if all_digits(digits) {
                    lemma_digits_value_monotone(digits, i - start + 1);
                }
            }
            return None;
        }
        i = i + 1;
    }
    assert(digits.take(v.len() - start) =~= digits);
    if negative {
        Some((-value) as i32)
    } else if value == 2147483648 {
        None
    } else {
        Some(value as i32)
    }
}

/// The bytes `from..to` of a text, read as text.
pub open spec fn byte_slice(s: Seq<char>, from: int, to: int) -> Seq<char> {
    decode_utf8(encode_utf8(s).subrange(from, to))
}

/// Whether a text can be cut before its byte `at`: no character straddles that place.
pub open spec fn can_cut(s: Seq<char>, at: int) -> bool {
    0 <= at <= encode_utf8(s).len() && is_char_boundary(encode_utf8(s), at)
}

/// The bytes `from..to` of a text, or `None` where an end cuts a character or lies outside.
pub fn slice_bytes<'a>(s: &'a str, from: usize, to: usize) -> (r: Option<&'a str>)
    requires
        from <= to,
    ensures
        r is Some <==> can_cut(s@, from as int) && can_cut(s@, to as int),
        r matches Some(t) ==> t@ == byte_slice(s@, from as int, to as int),
{
    let n: usize = s.as_bytes().len();
    if to > n || !s.is_char_boundary(from) || !s.is_char_boundary(to) {
        return None;
    }
    let (head, _tail) = s.split_at(to);
    proof {
        encode_utf8_valid_utf8(s@);
        encode_utf8_valid_utf8(head@);
        lemma_boundary_in_head(encode_utf8(s@), from as int, to as int);
    }
    let (_front, mid) = head.split_at(from);
    proof {
        encode_utf8_decode_utf8(mid@);
        assert(encode_utf8(mid@) =~= encode_utf8(s@).subrange(from as int, to as int));
    }
    Some(mid)
}

/// A place where a text can be cut is also one of the text's head, up to its end.
proof fn lemma_boundary_in_head(bytes: Seq<u8>, from: int, to: int)
    requires
        valid_utf8(bytes),
        0 <= from <= to <= bytes.len(),
        is_char_boundary(bytes, from),
        is_char_boundary(bytes, to),
    ensures
        valid_utf8(bytes.subrange(0, to)),
        is_char_boundary(bytes.subrange(0, to), from),
{
    let head = bytes.subrange(0, to);
    valid_utf8_split(bytes, to);
    is_char_boundary_start_end_of_seq(head);
    if 0 < from < to {
        is_char_boundary_iff_not_is_continuation_byte(bytes, from);
        is_char_boundary_iff_not_is_continuation_byte(head, from);
        assert(head[from] == bytes[from]);
    }
}

/// Bytes decode to no more characters than there are bytes.
proof fn lemma_decode_len(bytes: Seq<u8>)
    requires
        valid_utf8(bytes),
    ensures
        decode_utf8(bytes).len() <= bytes.len(),
    decreases bytes.len(),
{
    if bytes.len() > 0 {
        lemma_decode_len(pop_first_scalar(bytes));
    }
}

/// Three digits or fewer stand for less than a thousand.
pub proof fn lemma_digits_value_short(s: Seq<char>)
    requires
        all_digits(s),
        s.len() <= 3,
    ensures
        0 <= digits_value(s) <= 999,
        s.len() <= 2 ==> digits_value(s) <= 99,
        s.len() <= 1 ==> digits_value(s) <= 9,
    decreases s.len(),
{
    if s.len() > 0 {
        lemma_digits_value_short(s.drop_last());
        assert(is_digit(s[s.len() - 1]));
    }
}

/// A slice of three bytes or fewer that stands for an integer stands for a small one.
pub proof fn lemma_short_slice_is_small(s: Seq<char>, from: int, to: int)
    requires
        can_cut(s, from),
        can_cut(s, to),
        from <= to <= from + 3,
    ensures
        i32_value(byte_slice(s, from, to)) matches Some(n) ==> -999 <= n <= 999,
{
    let bytes = encode_utf8(s);
    encode_utf8_valid_utf8(s);
    lemma_boundary_in_head(bytes, from, to);
    let head = bytes.subrange(0, to);
    valid_utf8_split(head, from);
    assert(head.subrange(from, to) =~= bytes.subrange(from, to));
    lemma_decode_len(bytes.subrange(from, to));
    let slice = byte_slice(s, from, to);
    if slice.len() > 0 && (slice[0] == '+' || slice[0] == '-') {
        if all_digits(slice.skip(1)) {
            lemma_digits_value_short(slice.skip(1));
        }
    } else if all_digits(slice) {
        lemma_digits_value_short(slice);
    }
}

/// Two digits are the padded form of the number that they stand for.
pub proof fn lemma_two_digits(s: Seq<char>)
    requires
        all_digits(s),
        s.len() == 2,
    ensures
        0 <= digits_value(s) <= 99,
        padded(digits_value(s)) == s,
        i32_value(s) == Some(digits_value(s) as i32),
{
    lemma_digits_value_short(s);
    assert(is_digit(s[0]));
    assert(is_digit(s[1]));
    let tens = digit_value(s[0]);
    let ones = digit_value(s[1]);
    assert(digits_value(s) == tens * 10 + ones) by {
        reveal_with_fuel(digits_value, 3);
        assert(s.drop_last().drop_last().len() == 0);
        assert(s.drop_last().last() == s[0]);
    }
    let n = digits_value(s);
    assert(n / 10 == tens && n % 10 == ones);
    assert(digit_char(tens) == s[0] && digit_char(ones) == s[1]);
    assert(padded(n) =~= s) by {
        reveal_with_fuel(decimal, 2);
    }
}

/// Whether a text holds another from one of its characters on.
pub open spec fn holds_at(s: Seq<char>, part: Seq<char>, at: int) -> bool {
    0 <= at && at + part.len() <= s.len() && s.subrange(at, at + part.len()) == part
}

/// Whether a text holds another anywhere.
pub open spec fn holds(s: Seq<char>, part: Seq<char>) -> bool {
    exists|at: int| #[trigger] holds_at(s, part, at)
}

/// Whether two texts are the same.
pub fn same_text(a: &str, b: &str) -> (same: bool)
    ensures
        same == (a@ == b@),
{
    let x: Vec<char> = chars_of(a);
    let y: Vec<char> = chars_of(b);
    if x.len() != y.len() {
        return false;
    }
    let found: bool = matches_at(&x, &y, 0);
    assert(a@.subrange(0, b@.len() as int) =~= a@);
    found
}

/// Whether characters hold others from an index on.
pub fn matches_at(v: &Vec<char>, part: &Vec<char>, at: usize) -> (found: bool)
    requires
        at + part@.len() <= v@.len(),
    ensures
        found == holds_at(v@, part@, at as int),
{
    let total: usize = v.len();
    let mut i: usize = 0;
    while i < part.len()
        invariant
            i <= part@.len(),
            at + part@.len() <= v@.len(),
            v@.len() == total,
            forall|j: int| 0 <= j < i ==> v@[at + j] == part@[j],
        decreases part@.len() - i,
    {
        if v[at + i] != part[i] {
            assert(v@.subrange(at as int, at + part@.len())[i as int] != part@[i as int]);
            return false;
        }
        i = i + 1;
    }
    assert(v@.subrange(at as int, at + part@.len()) =~= part@);
    true
}

/// Whether a text holds another anywhere.
pub fn contains_text(s: &str, part: &str) -> (found: bool)
    ensures
        found == holds(s@, part@),
{
    let v: Vec<char> = chars_of(s);
    let p: Vec<char> = chars_of(part);
    if p.len() > v.len() {
        return false;
    }
    let last: usize = v.len() - p.len();
    let mut at: usize = 0;
    loop
        invariant
            v@ == s@,
            p@ == part@,
            p@.len() <= v@.len(),
            last == v@.len() - p@.len(),
            at <= last,
            forall|j: int| 0 <= j < at ==> !holds_at(s@, part@, j),
        decreases last - at,
    {
        if matches_at(&v, &p, at) {
            return true;
        }
        if at == last {
            assert forall|j: int| !#[trigger] holds_at(s@, part@, j) by {
                if 0 <= j <= last && j < at {
                }
            }
            return false;
        }
        at = at + 1;
    }
}

/// Whether a text starts with another.
pub fn starts_with_text(s: &str, part: &str) -> (starts: bool)
    ensures
        starts == holds_at(s@, part@, 0),
{
    let v: Vec<char> = chars_of(s);
    let p: Vec<char> = chars_of(part);
    if p.len() > v.len() {
        return false;
    }
    matches_at(&v, &p, 0)
}

/// A letter of the ASCII alphabet in lower case; any other character as it is.
pub open spec fn lower_case(ch: char) -> char {
    if 'A' <= ch && ch <= 'Z' {
        (ch as u32 + 32) as char
    } else {
        ch
    }
}

/// Whether two texts are the same but for the case of ASCII letters.
pub open spec fn same_but_case(a: Seq<char>, b: Seq<char>) -> bool {
    a.len() == b.len() && forall|i: int|
        0 <= i < a.len() ==> lower_case(#[trigger] a[i]) == lower_case(b[i])
}

/// A character in lower case.
fn to_lower_case(ch: char) -> (lower: char)
    ensures
        lower == lower_case(ch),
{
    if 'A' <= ch && ch <= 'Z' {
        (ch as u8 + 32) as char
    } else {
        ch
    }
}

/// Whether two texts are the same but for the case of ASCII letters.
pub fn eq_ignore_ascii_case(a: &str, b: &str) -> (same: bool)
    ensures
        same == same_but_case(a@, b@),
{
    let x: Vec<char> = chars_of(a);
    let y: Vec<char> = chars_of(b);
    if x.len() != y.len() {
        return false;
    }
    let mut i: usize = 0;
    while i < x.len()
        invariant
            i <= x@.len(),
            x@ == a@,
            y@ == b@,
            x@.len() == y@.len(),
            forall|j: int| 0 <= j < i ==> lower_case(#[trigger] a@[j]) == lower_case(b@[j]),
        decreases x@.len() - i,
    {
        if to_lower_case(x[i]) != to_lower_case(y[i]) {
            assert(lower_case(a@[i as int]) != lower_case(b@[i as int]));
            return false;
        }
        i = i + 1;
    }
    true
}

/// How many characters at the start of a text equal a character.
pub open spec fn leading(s: Seq<char>, ch: char) -> int
    decreases s.len(),
{
    if s.len() == 0 || s[0] != ch {
        0
    } else {
        1 + leading(s.skip(1), ch)
    }
}

/// How many characters at the end of a text equal a character.
pub open spec fn trailing(s: Seq<char>, ch: char) -> int
    decreases s.len(),
{
    if s.len() == 0 || s.last() != ch {
        0
    } else {
        1 + trailing(s.drop_last(), ch)
    }
}

/// A text without a character at its end, however often it stands there.
pub open spec fn trimmed_end(s: Seq<char>, ch: char) -> Seq<char> {
    s.take(s.len() - trailing(s, ch))
}

/// A text without a character at either end, however often it stands there.
pub open spec fn trimmed(s: Seq<char>, ch: char) -> Seq<char> {
    trimmed_end(s.skip(leading(s, ch)), ch)
}

/// A run at the start ends at the first other character.
proof fn lemma_leading(s: Seq<char>, ch: char, count: int)
    requires
        0 <= count <= s.len(),
        forall|j: int| 0 <= j < count ==> s[j] == ch,
        count < s.len() ==> s[count] != ch,
    ensures
        leading(s, ch) == count,
    decreases s.len(),
{
    if count > 0 {
        assert(s[0] == ch);
        assert forall|j: int| 0 <= j < count - 1 implies s.skip(1)[j] == ch by {
            assert(s.skip(1)[j] == s[j + 1]);
        }
        lemma_leading(s.skip(1), ch, count - 1);
    }
}

/// A run at the end starts after the last other character.
proof fn lemma_trailing(s: Seq<char>, ch: char, kept: int)
    requires
        0 <= kept <= s.len(),
        forall|j: int| kept <= j < s.len() ==> s[j] == ch,
        kept > 0 ==> s[kept - 1] != ch,
    ensures
        trailing(s, ch) == s.len() - kept,
    decreases s.len(),
{
    if kept < s.len() {
        assert(s[s.len() - 1] == ch);
        lemma_trailing(s.drop_last(), ch, kept);
    }
}

/// A text without a character at its end.
pub fn trim_end_matches(s: &str, ch: char) -> (t: String)
    ensures
        t@ == trimmed_end(s@, ch),
{
    let v: Vec<char> = chars_of(s);
    let end: usize = trimmed_len(&v, 0, ch);
    assert(s@.skip(0) =~= s@);
    assert(s@.subrange(0, end as int) =~= s@.take(end as int));
    string_of(&v, 0, end)
}

/// Where the run of a character at the end starts, looking no farther back than an index.
fn trimmed_len(v: &Vec<char>, start: usize, ch: char) -> (end: usize)
    requires
        start <= v@.len(),
    ensures
        start <= end <= v@.len(),
        end - start == v@.skip(start as int).len() - trailing(v@.skip(start as int), ch),
{
    let mut end: usize = v.len();
    while end > start && v[end - 1] == ch
        invariant
            start <= end <= v@.len(),
            forall|j: int| end <= j < v@.len() ==> v@[j] == ch,
        decreases end,
    {
        end = end - 1;
    }
    proof {
        let rest = v@.skip(start as int);
        lemma_trailing(rest, ch, end - start);
    }
    end
}

/// A text without a character at either end.
pub fn trim_matches(s: &str, ch: char) -> (t: String)
    ensures
        t@ == trimmed(s@, ch),
{
    let v: Vec<char> = chars_of(s);
    let mut start: usize = 0;
    while start < v.len() && v[start] == ch
        invariant
            start <= v@.len(),
            v@ == s@,
            forall|j: int| 0 <= j < start ==> s@[j] == ch,
        decreases v@.len() - start,
    {
        start = start + 1;
    }
    proof {
        lemma_leading(s@, ch, start as int);
    }
    let end: usize = trimmed_len(&v, start, ch);
    assert(s@.subrange(start as int, end as int) =~= s@.skip(start as int).take(end - start));
    string_of(&v, start, end)
}

/// Whether a character counts as white space in Unicode.
pub open spec fn is_white(ch: char) -> bool {
    let n = ch as int;
    ||| 0x9 <= n <= 0xd
    ||| n == 0x20
    ||| n == 0x85
    ||| n == 0xa0
    ||| n == 0x1680
    ||| 0x2000 <= n <= 0x200a
    ||| n == 0x2028
    ||| n == 0x2029
    ||| n == 0x202f
    ||| n == 0x205f
    ||| n == 0x3000
}

/// Whether a character counts as white space in Unicode.
pub fn is_whitespace(ch: char) -> (white: bool)
    ensures
        white == is_white(ch),
{
    let n: u32 = ch as u32;
    (0x9 <= n && n <= 0xd) || n == 0x20 || n == 0x85 || n == 0xa0 || n == 0x1680 || (0x2000 <= n
        && n <= 0x200a) || n == 0x2028 || n == 0x2029 || n == 0x202f || n == 0x205f || n == 0x3000
}

/// What text is split at.
#[derive(Clone, Copy, Debug, PartialEq, Eq, Structural)]
pub enum Separator {
    /// One character.
    Character(char),
    /// Any white space.
    Whitespace,
}

impl Separator {
    /// Whether text is split at a character.
    pub open spec fn splits(self, ch: char) -> bool {
        match self {
            Separator::Character(own) => ch == own,
            Separator::Whitespace => is_white(ch),
        }
    }

    /// Whether text is split at a character.
    fn is_at(self, ch: char) -> (splits: bool)
        ensures
            splits == self.splits(ch),
    {
        match self {
            Separator::Character(own) => ch == own,
            Separator::Whitespace => is_whitespace(ch),
        }
    }
}

/// The pieces of a text between its separators, empty ones included.
pub open spec fn pieces(s: Seq<char>, separator: Separator) -> Seq<Seq<char>>
    decreases s.len(),
{
    if s.len() == 0 {
        seq![s]
    } else {
        let front = pieces(s.drop_last(), separator);
        if separator.splits(s.last()) {
            front.push(Seq::empty())
        } else {
            front.drop_last().push(front.last().push(s.last()))
        }
    }
}

/// There is always one piece at least.
pub proof fn lemma_pieces_exist(s: Seq<char>, separator: Separator)
    ensures
        pieces(s, separator).len() >= 1,
    decreases s.len(),
{
    if s.len() > 0 {
        lemma_pieces_exist(s.drop_last(), separator);
    }
}

/// The texts in a list.
pub open spec fn views(list: Seq<String>) -> Seq<Seq<char>> {
    Seq::new(list.len(), |i: int| list[i]@)
}

/// Splits a text at its separators.
pub fn split_text(s: &str, separator: Separator) -> (list: Vec<String>)
    ensures
        views(list@) == pieces(s@, separator),
{
    let v: Vec<char> = chars_of(s);
    let mut list: Vec<String> = Vec::new();
    let mut current: String = String::new();
    let total: usize = v.len();
    let mut i: usize = 0;
    assert(s@.take(0) =~= Seq::<char>::empty());
    assert(current@ =~= Seq::<char>::empty());
    assert(views(list@).push(current@) =~= pieces(s@.take(0), separator));
    while i < total
        invariant
            i <= total,
            total == v@.len(),
            v@ == s@,
            views(list@).push(current@) == pieces(s@.take(i as int), separator),
        decreases total - i,
    {
        let ch: char = v[i];
        let ghost before = pieces(s@.take(i as int), separator);
        assert(s@.take(i + 1).drop_last() =~= s@.take(i as int));
        assert(s@.take(i + 1).last() == ch);
        assert(before.drop_last() =~= views(list@));
        assert(before.last() == current@);
        if separator.is_at(ch) {
            let ghost old_views = views(list@);
            let ghost piece = current@;
            list.push(current);
            current = String::new();
            assert(views(list@) =~= old_views.push(piece));
            assert(current@ =~= Seq::<char>::empty());
        } else {
            current.push(ch);
        }
        i = i + 1;
    }
    assert(s@.take(total as int) =~= s@);
    let ghost old_views = views(list@);
    let ghost piece = current@;
    list.push(current);
    assert(views(list@) =~= old_views.push(piece));
    list
}

/// The texts of a list that are not empty, in order.
pub open spec fn non_empty(list: Seq<Seq<char>>) -> Seq<Seq<char>>
    decreases list.len(),
{
    if list.len() == 0 {
        Seq::empty()
    } else if list.last().len() == 0 {
        non_empty(list.drop_last())
    } else {
        non_empty(list.drop_last()).push(list.last())
    }
}

/// The words of a text: what white space separates.
pub open spec fn words(s: Seq<char>) -> Seq<Seq<char>> {
    non_empty(pieces(s, Separator::Whitespace))
}

/// Splits a text into words.
pub fn split_words(s: &str) -> (list: Vec<String>)
    ensures
        views(list@) == words(s@),
{
    let parts: Vec<String> = split_text(s, Separator::Whitespace);
    let mut list: Vec<String> = Vec::new();
    let total: usize = parts.len();
    let mut i: usize = 0;
    assert(views(list@) =~= Seq::<Seq<char>>::empty());
    assert(views(parts@).take(0) =~= Seq::<Seq<char>>::empty());
    while i < total
        invariant
            i <= total,
            total == parts@.len(),
            views(list@) == non_empty(views(parts@).take(i as int)),
        decreases total - i,
    {
        let part: String = parts[i].clone();
        assert(views(parts@).take(i + 1).drop_last() =~= views(parts@).take(i as int));
        assert(views(parts@).take(i + 1).last() == part@);
        if part.as_str().unicode_len() > 0 {
            let ghost before = views(list@);
            let ghost word = part@;
            list.push(part);
            assert(views(list@) =~= before.push(word));
        }
        i = i + 1;
    }
    assert(views(parts@).take(total as int) =~= views(parts@));
    list
}

/// A text without white space at its start.
pub open spec fn without_leading_white(s: Seq<char>) -> Seq<char>
    decreases s.len(),
{
    if s.len() > 0 && is_white(s[0]) {
        without_leading_white(s.skip(1))
    } else {
        s
    }
}

/// A text without white space at its end.
pub open spec fn without_trailing_white(s: Seq<char>) -> Seq<char>
    decreases s.len(),
{
    if s.len() > 0 && is_white(s.last()) {
        without_trailing_white(s.drop_last())
    } else {
        s
    }
}

/// A text without white space at either end.
pub open spec fn stripped(s: Seq<char>) -> Seq<char> {
    without_trailing_white(without_leading_white(s))
}

/// Strips a text of white space at either end.
pub fn strip_text(s: &str) -> (t: String)
    ensures
        t@ == stripped(s@),
{
    let v: Vec<char> = chars_of(s);
    let mut start: usize = 0;
    assert(s@.skip(0) =~= s@);
    while start < v.len() && is_whitespace(v[start])
        invariant
            start <= v@.len(),
            v@ == s@,
            without_leading_white(s@) == without_leading_white(s@.skip(start as int)),
        decreases v@.len() - start,
    {
        assert(s@.skip(start as int).skip(1) =~= s@.skip(start + 1));
        start = start + 1;
    }
    assert(without_leading_white(s@) == s@.skip(start as int));
    let mut end: usize = v.len();
    assert(s@.subrange(start as int, end as int) =~= s@.skip(start as int));
    while end > start && is_whitespace(v[end - 1])
        invariant
            start <= end <= v@.len(),
            v@ == s@,
            without_trailing_white(s@.skip(start as int)) == without_trailing_white(
                s@.subrange(start as int, end as int),
            ),
        decreases end,
    {
        assert(s@.subrange(start as int, end as int).drop_last() =~= s@.subrange(
            start as int,
            end - 1,
        ));
        end = end - 1;
    }
    string_of(&v, start, end)
}

/// The text read as a `u64`: digits, after a plus sign or none, that stand for a number that fits.
pub open spec fn u64_value(s: Seq<char>) -> Option<u64> {
    let digits = if s.len() > 0 && s[0] == '+' {
        s.skip(1)
    } else {
        s
    };
    if digits.len() == 0 || !all_digits(digits) || digits_value(digits) > u64::MAX {
        None
    } else {
        Some(digits_value(digits) as u64)
    }
}

/// Reads a `u64`: one or more ASCII digits, after a plus sign or none, within range.
pub fn parse_u64(s: &str) -> (r: Option<u64>)
    ensures
        r == u64_value(s@),
{
    let v: Vec<char> = chars_of(s);
    let start: usize = if v.len() > 0 && v[0] == '+' { 1 } else { 0 };
    let ghost digits = if s@.len() > 0 && s@[0] == '+' { s@.skip(1) } else { s@ };
    assert(digits =~= s@.skip(start as int));
    if v.len() == start {
        return None;
    }
    let mut value: u128 = 0;
    let mut i: usize = start;
    while i < v.len()
        invariant
            start <= i <= v.len(),
            v@ == s@,
            start <= 1,
            digits == s@.skip(start as int),
            u64_value(s@) == (if digits.len() == 0 || !all_digits(digits) || digits_value(digits)
                > u64::MAX {
                None
            } else {
                Some(digits_value(digits) as u64)
            }),
            all_digits(digits.take(i - start)),
            value == digits_value(digits.take(i - start)),
            value <= u64::MAX,
        decreases v.len() - i,
    {
        let c: char = v[i];
        assert(digits[i - start] == c);
        if c < '0' || c > '9' {
            assert(!is_digit(digits[i - start]));
            return None;
        }
        let ghost before = digits.take(i - start);
        let ghost after = digits.take(i - start + 1);
        assert(after.drop_last() =~= before);
        assert(after.last() == c);
        assert forall|j: int| 0 <= j < after.len() implies is_digit(#[trigger] after[j]) by {
            if j < before.len() {
                assert(after[j] == before[j]);
            }
        }
        value = value * 10 + (c as u32 - 48) as u128;
        assert(value == digits_value(after));
        if value > u64::MAX as u128 {
            proof {
                if all_digits(digits) {
                    lemma_digits_value_monotone(digits, i - start + 1);
                }
            }
            return None;
        }
        i = i + 1;
    }
    assert(digits.take(v.len() - start) =~= digits);
    Some(value as u64)
}

/// In a text of ASCII characters every byte is a character.
pub proof fn lemma_ascii_text(s: Seq<char>, from: int, to: int)
    requires
        is_ascii_chars(s),
        0 <= from <= to <= s.len(),
    ensures
        can_cut(s, from),
        can_cut(s, to),
        byte_slice(s, from, to) == s.subrange(from, to),
        encode_utf8(s).len() == s.len(),
{
    let bytes = encode_utf8(s);
    is_ascii_chars_encode_utf8(s);
    encode_utf8_valid_utf8(s);
    is_char_boundary_start_end_of_seq(bytes);
    if from < s.len() {
        assert(s[from] as u8 == bytes[from]);
        is_char_boundary_iff_not_is_continuation_byte(bytes, from);
    }
    if to < s.len() {
        assert(s[to] as u8 == bytes[to]);
        is_char_boundary_iff_not_is_continuation_byte(bytes, to);
    }
    let part = s.subrange(from, to);
    assert forall|i: int| 0 <= i < part.len() implies '\0' <= #[trigger] part[i] <= '\u{7f}' by {
        assert(part[i] == s[from + i]);
    }
    is_ascii_chars_encode_utf8(part);
    let cut = bytes.subrange(from, to);
    assert forall|i: int| 0 <= i < part.len() implies cut[i] == encode_utf8(part)[i] by {
        assert(part[i] == s[from + i]);
        assert(cut[i] == bytes[from + i]);
    }
    assert(cut =~= encode_utf8(part));
    encode_utf8_decode_utf8(part);
}

/// What stays of a text without a character at either end is what lies between the first other
/// character and the last.
pub proof fn lemma_trimmed(s: Seq<char>, ch: char, from: int, to: int)
    requires
        0 <= from < to <= s.len(),
        forall|j: int| 0 <= j < from ==> s[j] == ch,
        forall|j: int| to <= j < s.len() ==> s[j] == ch,
        s[from] != ch,
        s[to - 1] != ch,
    ensures
        trimmed(s, ch) == s.subrange(from, to),
{
    lemma_leading(s, ch, from);
    let rest = s.skip(from);
    lemma_trailing(rest, ch, to - from);
    assert(rest.take(to - from) =~= s.subrange(from, to));
}

/// A number in decimal is digits only, reads back as itself, and starts with a zero only where it
/// is zero.
pub proof fn lemma_decimal_reads_back(n: nat)
    ensures
        all_digits(decimal(n)),
        digits_value(decimal(n)) == n,
        decimal(n).len() > 0,
        n > 0 ==> decimal(n)[0] != '0',
        n < 10 ==> decimal(n).len() == 1,
        10 <= n < 100 ==> decimal(n).len() == 2,
        n >= 10 ==> decimal(n).len() >= 2,
    decreases n,
{
    if n < 10 {
        assert(decimal(n).drop_last() =~= Seq::<char>::empty());
        assert(digits_value(decimal(n).drop_last()) == 0);
    } else {
        lemma_decimal_reads_back(n / 10);
        assert(decimal(n).drop_last() =~= decimal(n / 10));
        assert(decimal(n)[0] == decimal(n / 10)[0]);
        assert forall|i: int| 0 <= i < decimal(n).len() implies is_digit(
            #[trigger] decimal(n)[i],
        ) by {
            if i < decimal(n / 10).len() {
                assert(decimal(n)[i] == decimal(n / 10)[i]);
            }
        }
    }
}

/// What is written of a number is read as that number, after whatever stood there before, with or
/// without a sign, and padded or not. A number in decimal has no zero in front; a padded one has
/// two places at least.
pub proof fn law_numbers_read_back(
    s: &mut String,
    n: u64,
    written: &str,
    read: Option<u64>,
    small: Option<i32>,
    p: &mut String,
    m: i64,
    padded_text: &str,
    padded_read: Option<i32>,
)
    requires
        call_ensures(push_decimal, (s, n), ()),
        final(s)@ == old(s)@ + written@,
        call_ensures(parse_u64, (written,), read),
        call_ensures(parse_i32, (written,), small),
        call_ensures(push_padded, (p, m), ()),
        final(p)@ == old(p)@ + padded_text@,
        call_ensures(parse_i32, (padded_text,), padded_read),
    ensures
        read == Some(n),
        n <= i32::MAX ==> small == Some(n as i32),
        n > i32::MAX ==> small is None,
        n > 0 ==> written@[0] != '0',
        i32::MIN <= m <= i32::MAX ==> padded_read == Some(m as i32),
        padded_text@.len() >= 2,
        0 <= m < 100 ==> padded_text@.len() == 2,
{
    let d = decimal(n as nat);
    lemma_decimal_reads_back(n as nat);
    assert(written@ =~= d) by {
        let whole = old(s)@ + d;
        assert(whole.skip(old(s)@.len() as int) =~= d);
        assert((old(s)@ + written@).skip(old(s)@.len() as int) =~= written@);
    }
    assert(is_digit(d[0]));
    let q = padded(m as int);
    assert(padded_text@ =~= q) by {
        assert((old(p)@ + q).skip(old(p)@.len() as int) =~= q);
        assert((old(p)@ + padded_text@).skip(old(p)@.len() as int) =~= padded_text@);
    }
    if m < 0 {
        let digits = decimal((-m) as nat);
        lemma_decimal_reads_back((-m) as nat);
        assert(q.skip(1) =~= digits);
        assert(q.len() == 1 + digits.len());
    } else {
        let digits = decimal(m as nat);
        lemma_decimal_reads_back(m as nat);
        if m < 10 {
            assert(q.len() == 2 && q[0] == '0' && q[1] == digits[0]);
            assert(q.drop_last() =~= seq!['0']);
            assert(q.drop_last().drop_last() =~= Seq::<char>::empty());
            assert(digits.drop_last() =~= Seq::<char>::empty());
            assert(digits_value(q.drop_last().drop_last()) == 0);
            assert(digits_value(q.drop_last()) == 0);
            assert(digits_value(digits.drop_last()) == 0);
            assert(is_digit(digits[0]));
            assert(digits_value(q) == m);
            assert(all_digits(q));
        } else {
            assert(is_digit(digits[0]));
        }
        assert(is_digit(q[0]));
    }
}

/// A text with anything but digits is no number, and neither is an empty one; a minus sign makes
/// the number negative, and a plus sign changes nothing.
pub proof fn law_only_digits_are_numbers(
    s: &str,
    i: int,
    signed: &str,
    plus: &str,
    read: Option<i32>,
    long: Option<u64>,
    negated: Option<i32>,
    same: Option<i32>,
)
    requires
        call_ensures(parse_i32, (s,), read),
        call_ensures(parse_u64, (s,), long),
        call_ensures(parse_i32, (signed,), negated),
        call_ensures(parse_i32, (plus,), same),
        signed@ == seq!['-'] + s@,
        plus@ == seq!['+'] + s@,
    ensures
        s@.len() == 0 ==> read is None && long is None && negated is None,
        0 < i < s@.len() && !('0' <= s@[i] <= '9') ==> read is None && long is None && negated
            is None && same is None,
        s@.len() > 0 && '0' <= s@[0] <= '9' ==> same == read,
        s@.len() > 0 && '0' <= s@[0] <= '9' ==> (read matches Some(value) ==> negated == Some(
            (-value) as i32,
        )),
        read is Some && long is Some && s@[0] != '+' ==> read->0 == long->0,
{
    assert(signed@.skip(1) =~= s@);
    assert(plus@.skip(1) =~= s@);
    if 0 < i < s@.len() && !('0' <= s@[i] <= '9') {
        assert(!is_digit(s@[i]));
        assert(s@.skip(1)[i - 1] == s@[i]);
        assert(!all_digits(s@.skip(1)));
        assert(!all_digits(s@));
    }
    if s@.len() > 0 && '0' <= s@[0] <= '9' && all_digits(s@) {
        lemma_digits_value_nonnegative(s@);
    }
}

/// Trimming a character keeps what lies between the first other character and the last, and nothing
/// of a text that is that character only; at the end alone it keeps what stands before.
pub proof fn law_trimming_keeps_the_middle(
    s: &str,
    ch: char,
    from: int,
    to: int,
    both: String,
    end: String,
)
    requires
        0 <= from < to <= s@.len(),
        forall|j: int| 0 <= j < from ==> s@[j] == ch,
        forall|j: int| to <= j < s@.len() ==> s@[j] == ch,
        s@[from] != ch,
        s@[to - 1] != ch,
        call_ensures(trim_matches, (s, ch), both),
        call_ensures(trim_end_matches, (s, ch), end),
    ensures
        both@ == s@.subrange(from, to),
        end@ == s@.take(to),
{
    lemma_trimmed(s@, ch, from, to);
    lemma_trailing(s@, ch, to);
}

/// Stripping a text keeps what lies between the first character that is no white space and the
/// last.
pub proof fn law_stripping_keeps_the_middle(s: &str, from: int, to: int, stripped_text: String)
    requires
        0 <= from < to <= s@.len(),
        forall|j: int| 0 <= j < from ==> s@[j] == ' ' || s@[j] == '\t' || s@[j] == '\n' || s@[j]
            == '\r',
        forall|j: int| to <= j < s@.len() ==> s@[j] == ' ' || s@[j] == '\t' || s@[j] == '\n'
            || s@[j] == '\r',
        s@[from] as u32 > 32 && (s@[from] as u32) < 127,
        s@[to - 1] as u32 > 32 && (s@[to - 1] as u32) < 127,
        call_ensures(strip_text, (s,), stripped_text),
    ensures
        stripped_text@ == s@.subrange(from, to),
{
    lemma_no_leading_white(s@, from);
    let rest = s@.skip(from);
    lemma_no_trailing_white(rest, to - from);
    assert(rest.take(to - from) =~= s@.subrange(from, to));
}

/// White space at the start goes up to the first other character.
proof fn lemma_no_leading_white(s: Seq<char>, from: int)
    requires
        0 <= from < s.len(),
        forall|j: int| 0 <= j < from ==> is_white(s[j]),
        !is_white(s[from]),
    ensures
        without_leading_white(s) == s.skip(from),
    decreases from,
{
    if from > 0 {
        lemma_no_leading_white(s.skip(1), from - 1);
        assert(s.skip(1).skip(from - 1) =~= s.skip(from));
    } else {
        assert(s.skip(0) =~= s);
    }
}

/// White space at the end goes back to the last other character.
proof fn lemma_no_trailing_white(s: Seq<char>, to: int)
    requires
        0 < to <= s.len(),
        forall|j: int| to <= j < s.len() ==> is_white(s[j]),
        !is_white(s[to - 1]),
    ensures
        without_trailing_white(s) == s.take(to),
    decreases s.len() - to,
{
    if to < s.len() {
        lemma_no_trailing_white(s.drop_last(), to);
        assert(s.drop_last().take(to) =~= s.take(to));
    } else {
        assert(s.take(to) =~= s);
    }
}

/// A text that is two texts around a character is split into what the two are split into. A text
/// without the character stays whole.
pub proof fn law_splitting_takes_parts(
    a: &str,
    b: &str,
    joined: &str,
    ch: char,
    of_a: Vec<String>,
    of_b: Vec<String>,
    of_joined: Vec<String>,
)
    requires
        joined@ == a@ + seq![ch] + b@,
        call_ensures(split_text, (a, Separator::Character(ch)), of_a),
        call_ensures(split_text, (b, Separator::Character(ch)), of_b),
        call_ensures(split_text, (joined, Separator::Character(ch)), of_joined),
    ensures
        of_joined@.len() == of_a@.len() + of_b@.len(),
        forall|i: int| 0 <= i < of_a@.len() ==> of_joined@[i]@ == #[trigger] of_a@[i]@,
        forall|i: int|
            0 <= i < of_b@.len() ==> #[trigger] of_joined@[of_a@.len() + i]@ == of_b@[i]@,
        !a@.contains(ch) ==> of_a@.len() == 1 && of_a@[0]@ == a@,
{
    let separator = Separator::Character(ch);
    lemma_pieces_join(a@, b@, ch, separator);
    let joint = views(of_joined@);
    let left = views(of_a@);
    let right = views(of_b@);
    assert(joint == left + right);
    assert(joint.len() == of_joined@.len() && left.len() == of_a@.len() && right.len()
        == of_b@.len());
    assert forall|i: int| 0 <= i < of_a@.len() implies of_joined@[i]@ == #[trigger] of_a@[i]@ by {
        assert(joint[i] == (left + right)[i]);
        assert(joint[i] == of_joined@[i]@ && left[i] == of_a@[i]@);
    }
    assert forall|i: int| 0 <= i < of_b@.len() implies #[trigger] of_joined@[of_a@.len() + i]@
        == of_b@[i]@ by {
        assert(joint[left.len() + i] == (left + right)[left.len() + i]);
        assert(joint[left.len() + i] == of_joined@[of_a@.len() + i]@ && right[i] == of_b@[i]@);
    }
    if !a@.contains(ch) {
        lemma_piece_stays_whole(a@, separator);
        assert(left[0] == a@);
    }
}

/// The pieces of two texts around a separator.
proof fn lemma_pieces_join(a: Seq<char>, b: Seq<char>, ch: char, separator: Separator)
    requires
        separator.splits(ch),
    ensures
        pieces(a + seq![ch] + b, separator) == pieces(a, separator) + pieces(b, separator),
    decreases b.len(),
{
    let joined = a + seq![ch] + b;
    lemma_pieces_exist(a, separator);
    lemma_pieces_exist(b, separator);
    if b.len() == 0 {
        assert(joined.drop_last() =~= a);
        assert(joined.last() == ch);
        assert(b =~= Seq::<char>::empty());
        assert(pieces(b, separator) =~= seq![Seq::<char>::empty()]);
        assert(pieces(joined, separator) =~= pieces(a, separator) + pieces(b, separator));
    } else {
        lemma_pieces_join(a, b.drop_last(), ch, separator);
        assert(joined.drop_last() =~= a + seq![ch] + b.drop_last());
        assert(joined.last() == b.last());
        lemma_pieces_exist(b.drop_last(), separator);
        let left = pieces(a, separator);
        let right = pieces(b.drop_last(), separator);
        let both = left + right;
        assert(both.last() == right.last());
        assert(both.drop_last() =~= left + right.drop_last());
        if separator.splits(b.last()) {
            assert(both.push(Seq::empty()) =~= left + right.push(Seq::empty()));
        } else {
            let grown = right.last().push(b.last());
            assert(both.drop_last().push(grown) =~= left + right.drop_last().push(grown));
        }
    }
}

/// A text without separators is one piece.
proof fn lemma_piece_stays_whole(s: Seq<char>, separator: Separator)
    requires
        forall|i: int| 0 <= i < s.len() ==> !separator.splits(#[trigger] s[i]),
    ensures
        pieces(s, separator) == seq![s],
    decreases s.len(),
{
    if s.len() > 0 {
        assert forall|i: int| 0 <= i < s.drop_last().len() implies !separator.splits(
            #[trigger] s.drop_last()[i],
        ) by {
            assert(s.drop_last()[i] == s[i]);
        }
        lemma_piece_stays_whole(s.drop_last(), separator);
        let front = seq![s.drop_last()];
        assert(s.drop_last().push(s.last()) =~= s);
        assert(!separator.splits(s[s.len() - 1]));
        assert(front.drop_last().push(s) =~= seq![s]);
    }
}

/// A text holds each of its parts, starts with its first ones, and is the same as none but itself.
/// Upper and lower case make no difference where that is asked for, and other letters do.
pub proof fn law_texts_are_compared(
    s: &str,
    part: &str,
    head: Seq<char>,
    tail: Seq<char>,
    holds_part: bool,
    starts: bool,
    same: bool,
    alike: bool,
)
    requires
        call_ensures(contains_text, (s, part), holds_part),
        call_ensures(starts_with_text, (s, part), starts),
        call_ensures(same_text, (s, part), same),
        call_ensures(eq_ignore_ascii_case, (s, part), alike),
    ensures
        s@ == head + part@ + tail ==> holds_part,
        s@ == part@ + tail ==> starts,
        starts ==> holds_part && s@.len() >= part@.len() && (forall|i: int|
            0 <= i < part@.len() ==> s@[i] == part@[i]),
        same <==> s@ =~= part@,
        same ==> alike,
        alike ==> s@.len() == part@.len(),
        holds_part ==> part@.len() <= s@.len(),
        forall|i: int|
            alike && 0 <= i < s@.len() ==> #[trigger] s@[i] == part@[i] || s@[i] as u32 == part@[i]
                as u32 + 32 || s@[i] as u32 + 32 == part@[i] as u32,
{
    if s@ == head + part@ + tail {
        assert(s@.subrange(head.len() as int, (head.len() + part@.len()) as int) =~= part@);
        assert(holds_at(s@, part@, head.len() as int));
    }
    if s@ == part@ + tail {
        assert(s@.subrange(0, part@.len() as int) =~= part@);
    }
    if starts {
        assert(holds_at(s@, part@, 0));
        assert forall|i: int| 0 <= i < part@.len() implies s@[i] == part@[i] by {
            assert(s@.subrange(0, part@.len() as int)[i] == s@[i]);
        }
    }
    if alike {
        assert forall|i: int| 0 <= i < s@.len() implies #[trigger] s@[i] == part@[i] || s@[i] as u32
            == part@[i] as u32 + 32 || s@[i] as u32 + 32 == part@[i] as u32 by {
            assert(lower_case(s@[i]) == lower_case(part@[i]));
        }
    }
}

/// A text without a character is one piece.
pub proof fn lemma_one_piece(s: Seq<char>, ch: char)
    requires
        !s.contains(ch),
    ensures
        pieces(s, Separator::Character(ch)) == seq![s],
{
    assert forall|i: int| 0 <= i < s.len() implies !Separator::Character(ch).splits(
        #[trigger] s[i],
    ) by {
        assert(s.contains(s[i]));
    }
    lemma_piece_stays_whole(s, Separator::Character(ch));
}

/// A text with a character in it once is two pieces.
pub proof fn lemma_two_pieces(a: Seq<char>, b: Seq<char>, ch: char)
    requires
        !a.contains(ch),
        !b.contains(ch),
    ensures
        pieces(a + seq![ch] + b, Separator::Character(ch)) == seq![a, b],
{
    lemma_one_piece(a, ch);
    lemma_one_piece(b, ch);
    lemma_pieces_join(a, b, ch, Separator::Character(ch));
    assert(seq![a] + seq![b] =~= seq![a, b]);
}

/// A part of an ASCII text is cut by characters. A long number is written as a short one is.
pub proof fn law_ascii_is_cut_by_characters(
    s: &str,
    from: usize,
    to: usize,
    part: Option<&str>,
    short: &mut String,
    long: &mut String,
    n: u64,
)
    requires
        from <= to,
        forall|i: int| 0 <= i < s@.len() ==> '\0' <= #[trigger] s@[i] <= '\u{7f}',
        to <= s@.len(),
        call_ensures(slice_bytes, (s, from, to), part),
        old(short)@ == old(long)@,
        call_ensures(push_decimal, (short, n), ()),
        call_ensures(push_long_decimal, (long, n as u128), ()),
    ensures
        part matches Some(cut) && cut@ == s@.subrange(from as int, to as int),
        final(short)@ == final(long)@,
{
    lemma_ascii_text(s@, from as int, to as int);
}

/// Blanks, tabs and line breaks are white space, and no letter, digit or sign of ASCII is.
pub proof fn law_white_space(ch: char, white: bool)
    requires
        call_ensures(is_whitespace, (ch,), white),
    ensures
        ch == ' ' || ch == '\t' || ch == '\n' || ch == '\r' ==> white,
        '!' <= ch <= '~' ==> !white,
{
}

/// The words of two texts with white space between them are the words of the one and then those of
/// the other. A text without white space is one word, and an empty one has none.
pub proof fn law_words_are_separated(
    a: &str,
    b: &str,
    joined: &str,
    ch: char,
    white: bool,
    of_a: Vec<String>,
    of_b: Vec<String>,
    of_joined: Vec<String>,
)
    requires
        call_ensures(is_whitespace, (ch,), white),
        white,
        joined@ == a@ + seq![ch] + b@,
        call_ensures(split_words, (a,), of_a),
        call_ensures(split_words, (b,), of_b),
        call_ensures(split_words, (joined,), of_joined),
    ensures
        of_joined@.len() == of_a@.len() + of_b@.len(),
        forall|i: int| 0 <= i < of_a@.len() ==> of_joined@[i]@ == #[trigger] of_a@[i]@,
        forall|i: int|
            0 <= i < of_b@.len() ==> #[trigger] of_joined@[of_a@.len() + i]@ == of_b@[i]@,
        a@.len() == 0 ==> of_a@.len() == 0,
        a@.len() > 0 && (forall|i: int| 0 <= i < a@.len() ==> '!' <= #[trigger] a@[i] <= '~')
            ==> of_a@.len() == 1 && of_a@[0]@ == a@,
{
    let separator = Separator::Whitespace;
    lemma_pieces_join(a@, b@, ch, separator);
    lemma_non_empty_join(pieces(a@, separator), pieces(b@, separator));
    let joint = views(of_joined@);
    let left = views(of_a@);
    let right = views(of_b@);
    assert(joint == left + right);
    assert(joint.len() == of_joined@.len() && left.len() == of_a@.len() && right.len()
        == of_b@.len());
    assert forall|i: int| 0 <= i < of_a@.len() implies of_joined@[i]@ == #[trigger] of_a@[i]@ by {
        assert(joint[i] == (left + right)[i]);
        assert(joint[i] == of_joined@[i]@ && left[i] == of_a@[i]@);
    }
    assert forall|i: int| 0 <= i < of_b@.len() implies #[trigger] of_joined@[of_a@.len() + i]@
        == of_b@[i]@ by {
        assert(joint[left.len() + i] == (left + right)[left.len() + i]);
        assert(joint[left.len() + i] == of_joined@[of_a@.len() + i]@ && right[i] == of_b@[i]@);
    }
    let none = Seq::<Seq<char>>::empty();
    let whole = seq![a@];
    assert(whole.drop_last() =~= none);
    assert(non_empty(none) =~= none);
    if a@.len() == 0 {
        assert(pieces(a@, separator) == whole);
        assert(non_empty(whole) =~= none);
    } else if forall|i: int| 0 <= i < a@.len() ==> '!' <= #[trigger] a@[i] <= '~' {
        lemma_piece_stays_whole(a@, separator);
        assert(non_empty(whole) =~= whole);
        assert(left[0] == a@);
    }
}

/// What is not empty in two lists.
proof fn lemma_non_empty_join(a: Seq<Seq<char>>, b: Seq<Seq<char>>)
    ensures
        non_empty(a + b) == non_empty(a) + non_empty(b),
    decreases b.len(),
{
    if b.len() == 0 {
        assert(a + b =~= a);
        assert(non_empty(b) =~= Seq::<Seq<char>>::empty());
        assert(non_empty(a) + non_empty(b) =~= non_empty(a));
    } else {
        lemma_non_empty_join(a, b.drop_last());
        assert((a + b).drop_last() =~= a + b.drop_last());
        assert((a + b).last() == b.last());
        assert(non_empty(a + b) =~= non_empty(a) + non_empty(b));
    }
}

/// Texts that differ in the case of letters only are alike where case makes no difference, and only
/// letters have a case.
pub proof fn law_case_makes_no_difference(s: &str, t: &str, alike: bool, i: int)
    requires
        call_ensures(eq_ignore_ascii_case, (s, t), alike),
    ensures
        s@.len() == t@.len() && (forall|j: int|
            0 <= j < s@.len() ==> #[trigger] s@[j] == t@[j] || ('a' <= s@[j] <= 'z' && s@[j] as u32
                == t@[j] as u32 + 32) || ('a' <= t@[j] <= 'z' && t@[j] as u32 == s@[j] as u32 + 32))
            ==> alike,
        alike && 0 <= i < s@.len() && s@[i] != t@[i] ==> 'A' <= s@[i] <= 'z' && 'A' <= t@[i] <= 'z',
{
    if s@.len() == t@.len() && (forall|j: int|
        0 <= j < s@.len() ==> #[trigger] s@[j] == t@[j] || ('a' <= s@[j] <= 'z' && s@[j] as u32
            == t@[j] as u32 + 32) || ('a' <= t@[j] <= 'z' && t@[j] as u32 == s@[j] as u32 + 32)) {
        assert forall|j: int| 0 <= j < s@.len() implies lower_case(#[trigger] s@[j]) == lower_case(
            t@[j],
        ) by {
            assert(s@[j] == t@[j] || ('a' <= s@[j] <= 'z' && s@[j] as u32 == t@[j] as u32 + 32) || (
            'a' <= t@[j] <= 'z' && t@[j] as u32 == s@[j] as u32 + 32));
        }
    }
    if alike && 0 <= i < s@.len() && s@[i] != t@[i] {
        assert(lower_case(s@[i]) == lower_case(t@[i]));
    }
}

} // verus!
