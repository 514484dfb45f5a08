//! A minimal LX200 responder: a fixed table of requests and replies.

use vstd::prelude::*;
use vstd::string::*;
use vstd::utf8::*;

use crate::position_reporter::TelescopePosition;
use crate::text;
use crate::text::{push_decimal, push_padded};

verus! {

broadcast use vstd::string::group_string_axioms;

/// Whole units, minutes and seconds of an amount in 3600 million parts per unit, cut off below
/// the second.
pub open spec fn truncated_hms(n: int) -> (int, int, int) {
    let seconds: int = n / 1_000_000;
    (seconds / 3600, seconds / 60 % 60, seconds % 60)
}

/// An hour of right ascension, in microarcseconds.
pub const HOUR: i64 = 54_000_000_000;

/// A minute of right ascension, in microarcseconds.
pub const MINUTE: i64 = 900_000_000;

/// A second of right ascension, in microarcseconds.
pub const SECOND: i64 = 15_000_000;

/// How often a unit fits into an amount, cut off towards zero. An amount below zero keeps its
/// sign, even where the unit does not fit once.
pub open spec fn units_in(n: int, unit: int) -> Seq<char> {
    if n >= 0 {
        text::padded(n / unit)
    } else {
        seq!['-'] + text::decimal(((-n) / unit) as nat)
    }
}

/// What is left of an amount once all whole units are taken away. It keeps its sign.
pub open spec fn left_over(n: int, unit: int) -> int {
    if n >= 0 {
        n % unit
    } else {
        -((-n) % unit)
    }
}

/// A right ascension as `HH:MM:SS#`. Below zero each part that is not all gone has a sign.
pub open spec fn truncated_ra(ra: int) -> Seq<char> {
    units_in(ra, HOUR as int) + seq![':'] + units_in(left_over(ra, HOUR as int), MINUTE as int)
        + seq![':'] + units_in(left_over(ra, MINUTE as int), SECOND as int) + seq!['#']
}

/// A declination as `sDD*MM'SS#`.
pub open spec fn truncated_dec(dec: int) -> Seq<char> {
    let hms = truncated_hms(vstd::math::abs(dec) as int);
    seq![if dec < 0 { '-' } else { '+' }] + text::padded(hms.0) + seq!['*'] + text::padded(hms.1)
        + seq!['\''] + text::padded(hms.2) + seq!['#']
}

/// The reply to a request of `n` bytes that was read into `buf`. Requests told apart by their
/// start alone are looked for in the whole buffer.
pub open spec fn reply_value(buf: Seq<u8>, n: int, position: TelescopePosition) -> Option<
    Seq<char>,
> {
    let request = buf.take(n);
    if request == encode_utf8("#\x06"@) {
        Some("A"@)
    } else if request == encode_utf8("#:GW#"@) {
        Some("ANH#"@)
    } else if request == encode_utf8("#:GR#"@) {
        Some(truncated_ra(position.boresight_ra as int))
    } else if request == encode_utf8("#:GD#"@) {
        Some(truncated_dec(position.boresight_dec as int))
    } else if request == encode_utf8("#:GVP#"@) {
        Some("Cedar#"@)
    } else if request == encode_utf8("#:GVN#"@) {
        Some("0.9.3"@)
    } else if request == encode_utf8("#:GVT#"@) {
        Some("12:00:00#"@)
    } else if request == encode_utf8("#:GVD#"@) {
        Some("Nov 05 2025"@)
    } else if request == encode_utf8("#:Gg#"@) || request == encode_utf8("#:D#"@) {
        None
    } else if encode_utf8("#:St"@).is_prefix_of(buf) {
        Some("1#"@)
    } else {
        None
    }
}

/// Whether the first `n` bytes of a buffer are those of a text.
fn is_request(buf: &[u8], n: usize, want: &str) -> (same: bool)
    requires
        n <= buf@.len(),
    ensures
        same == (buf@.take(n as int) == encode_utf8(want@)),
{
    let bytes: &[u8] = want.as_bytes();
    if bytes.len() != n {
        return false;
    }
    starts_with(buf, want)
}

/// Whether a buffer starts with the bytes of a text.
fn starts_with(buf: &[u8], want: &str) -> (starts: bool)
    ensures
        starts == encode_utf8(want@).is_prefix_of(buf@),
        starts && buf@.len() >= encode_utf8(want@).len() ==> buf@.take(
            encode_utf8(want@).len() as int,
        ) == encode_utf8(want@),
{
    let bytes: &[u8] = want.as_bytes();
    if bytes.len() > buf.len() {
        return false;
    }
    let mut i: usize = 0;
    while i < bytes.len()
        invariant
            i <= bytes.len() <= buf.len(),
            bytes@ == encode_utf8(want@),
            forall|j: int| 0 <= j < i ==> buf@[j] == bytes@[j],
        decreases bytes.len() - i,
    {
        if buf[i] != bytes[i] {
            assert(buf@.subrange(0, bytes@.len() as int)[i as int] != bytes@[i as int]);
            return false;
        }
        i = i + 1;
    }
    assert(buf@.take(bytes@.len() as int) =~= bytes@);
    true
}

/// Appends whole units, minutes and seconds with the given marks between them, and a hash mark.
fn push_hms(reply: &mut String, n: i64, first: char, second: char)
    requires
        n >= 0,
    ensures
        final(reply)@ == old(reply)@ + text::padded(truncated_hms(n as int).0) + seq![first]
            + text::padded(truncated_hms(n as int).1) + seq![second] + text::padded(
            truncated_hms(n as int).2,
        ) + seq!['#'],
{
    let seconds: i64 = n / 1_000_000;
    push_padded(reply, seconds / 3600);
    reply.push(first);
    push_padded(reply, seconds / 60 % 60);
    reply.push(second);
    push_padded(reply, seconds % 60);
    reply.push('#');
    assert(reply@ =~= old(reply)@ + text::padded(truncated_hms(n as int).0) + seq![first]
        + text::padded(truncated_hms(n as int).1) + seq![second] + text::padded(
        truncated_hms(n as int).2,
    ) + seq!['#']);
}

/// Appends how often a unit fits into an amount.
fn push_units(reply: &mut String, n: i64, unit: i64)
    requires
        unit > 0,
    ensures
        final(reply)@ == old(reply)@ + units_in(n as int, unit as int),
{
    if n >= 0 {
        push_padded(reply, n / unit);
    } else {
        let magnitude: u64 = (-(n + 1)) as u64 + 1;
        reply.push('-');
        push_decimal(reply, magnitude / unit as u64);
        assert(reply@ =~= old(reply)@ + units_in(n as int, unit as int));
    }
}

/// What is left of an amount once all whole units are taken away.
fn take_units(n: i64, unit: i64) -> (left: i64)
    requires
        unit > 0,
    ensures
        left == left_over(n as int, unit as int),
{
    if n >= 0 {
        n % unit
    } else {
        let magnitude: u64 = (-(n + 1)) as u64 + 1;
        -((magnitude % unit as u64) as i64)
    }
}

/// Answers a request of `n` bytes that was read into `buf`, or returns `None` where there is
/// nothing to answer.
pub fn lx200_reply(buf: &[u8], n: usize, position: &TelescopePosition) -> (reply: Option<String>)
    requires
        n <= buf@.len(),
        position.boresight_dec > i64::MIN,
    ensures
        reply matches Some(text) ==> reply_value(buf@, n as int, *position) == Some(text@),
        reply is None ==> reply_value(buf@, n as int, *position) is None,
{
    if is_request(buf, n, "#\x06") {
        Some("A".to_owned())
    } else if is_request(buf, n, "#:GW#") {
        Some("ANH#".to_owned())
    } else if is_request(buf, n, "#:GR#") {
        let mut reply = String::new();
        let ra: i64 = position.boresight_ra;
        push_units(&mut reply, ra, HOUR);
        reply.push(':');
        push_units(&mut reply, take_units(ra, HOUR), MINUTE);
        reply.push(':');
        push_units(&mut reply, take_units(ra, MINUTE), SECOND);
        reply.push('#');
        assert(reply@ =~= truncated_ra(ra as int));
        Some(reply)
    } else if is_request(buf, n, "#:GD#") {
        let dec: i64 = position.boresight_dec;
        let mut reply = String::new();
        reply.push(if dec < 0 { '-' } else { '+' });
        push_hms(&mut reply, if dec < 0 { -dec } else { dec }, '*', '\'');
        assert(reply@ =~= truncated_dec(dec as int));
        Some(reply)
    } else if is_request(buf, n, "#:GVP#") {
        Some("Cedar#".to_owned())
    } else if is_request(buf, n, "#:GVN#") {
        Some("0.9.3".to_owned())
    } else if is_request(buf, n, "#:GVT#") {
        Some("12:00:00#".to_owned())
    } else if is_request(buf, n, "#:GVD#") {
        Some("Nov 05 2025".to_owned())
    } else if is_request(buf, n, "#:Gg#") || is_request(buf, n, "#:D#") {
        None
    } else if starts_with(buf, "#:St") {
        Some("1#".to_owned())
    } else {
        None
    }
}

/// Different texts are different bytes.
proof fn lemma_bytes_tell_texts_apart(a: Seq<char>, b: Seq<char>)
    requires
        encode_utf8(a) == encode_utf8(b),
    ensures
        a == b,
{
    encode_utf8_decode_utf8(a);
    encode_utf8_decode_utf8(b);
}

/// A request that is a given one is none of the others.
proof fn lemma_request_is_one(request: Seq<u8>)
    ensures
        request == encode_utf8("#:GR#"@) ==> request != encode_utf8("#\x06"@) && request
            != encode_utf8("#:GW#"@),
        request == encode_utf8("#:GD#"@) ==> request != encode_utf8("#\x06"@) && request
            != encode_utf8("#:GW#"@) && request != encode_utf8("#:GR#"@),
        request == encode_utf8("#:GVP#"@) ==> request != encode_utf8("#\x06"@) && request
            != encode_utf8("#:GW#"@) && request != encode_utf8("#:GR#"@) && request
            != encode_utf8("#:GD#"@),
        request == encode_utf8("#:GW#"@) ==> request != encode_utf8("#\x06"@),
{
    reveal_strlit("#\x06");
    reveal_strlit("#:GW#");
    reveal_strlit("#:GR#");
    reveal_strlit("#:GD#");
    reveal_strlit("#:GVP#");
    assert("#:GR#"@[3] == 'R' && "#:GD#"@[3] == 'D' && "#:GW#"@[3] == 'W' && "#:GVP#"@[3] == 'V');
    assert("#\x06"@.len() == 2 && "#:GW#"@.len() == 5);
    if request == encode_utf8("#:GR#"@) {
        if request == encode_utf8("#\x06"@) {
            lemma_bytes_tell_texts_apart("#:GR#"@, "#\x06"@);
        }
        if request == encode_utf8("#:GW#"@) {
            lemma_bytes_tell_texts_apart("#:GR#"@, "#:GW#"@);
        }
    }
    if request == encode_utf8("#:GD#"@) {
        if request == encode_utf8("#\x06"@) {
            lemma_bytes_tell_texts_apart("#:GD#"@, "#\x06"@);
        }
        if request == encode_utf8("#:GW#"@) {
            lemma_bytes_tell_texts_apart("#:GD#"@, "#:GW#"@);
        }
        if request == encode_utf8("#:GR#"@) {
            lemma_bytes_tell_texts_apart("#:GD#"@, "#:GR#"@);
        }
    }
    if request == encode_utf8("#:GVP#"@) {
        if request == encode_utf8("#\x06"@) {
            lemma_bytes_tell_texts_apart("#:GVP#"@, "#\x06"@);
        }
        if request == encode_utf8("#:GW#"@) {
            lemma_bytes_tell_texts_apart("#:GVP#"@, "#:GW#"@);
        }
        if request == encode_utf8("#:GR#"@) {
            lemma_bytes_tell_texts_apart("#:GVP#"@, "#:GR#"@);
        }
        if request == encode_utf8("#:GD#"@) {
            lemma_bytes_tell_texts_apart("#:GVP#"@, "#:GD#"@);
        }
    }
    if request == encode_utf8("#:GW#"@) {
        if request == encode_utf8("#\x06"@) {
            lemma_bytes_tell_texts_apart("#:GW#"@, "#\x06"@);
        }
    }
}

/// Asked for the right ascension, the reply tells whole hours, minutes and seconds of it.
pub proof fn law_reply_tells_right_ascension(
    buf: &[u8],
    n: usize,
    position: TelescopePosition,
    reply: Option<String>,
    h: int,
    m: int,
    s: int,
)
    requires
        n <= buf@.len(),
        buf@.take(n as int) == encode_utf8("#:GR#"@),
        0 <= h && 0 <= m < 60 && 0 <= s < 60,
        15_000_000 * (3600 * h + 60 * m + s) <= position.boresight_ra < 15_000_000 * (3600 * h + 60
            * m + s + 1),
        call_ensures(lx200_reply, (buf, n, &position), reply),
    ensures
        reply matches Some(told) && told@ == text::padded(h) + seq![':'] + text::padded(m)
            + seq![':'] + text::padded(s) + seq!['#'],
{
    lemma_request_is_one(buf@.take(n as int));
    let ra = position.boresight_ra as int;
    let rest = ra - 54_000_000_000 * h;
    assert(0 <= rest < 54_000_000_000);
    assert(ra / 54_000_000_000 == h && ra % 54_000_000_000 == rest);
    assert(rest / 900_000_000 == m);
    assert(ra % 900_000_000 == rest - 900_000_000 * m);
    assert((rest - 900_000_000 * m) / 15_000_000 == s);
}

/// Asked for the declination, the reply tells its sign and whole degrees, minutes and seconds of
/// it.
pub proof fn law_reply_tells_declination(
    buf: &[u8],
    n: usize,
    position: TelescopePosition,
    reply: Option<String>,
    d: int,
    m: int,
    s: int,
)
    requires
        n <= buf@.len(),
        position.boresight_dec > i64::MIN,
        buf@.take(n as int) == encode_utf8("#:GD#"@),
        0 <= d && 0 <= m < 60 && 0 <= s < 60,
        ({
            let size = if position.boresight_dec < 0 {
                -position.boresight_dec
            } else {
                position.boresight_dec as int
            };
            1_000_000 * (3600 * d + 60 * m + s) <= size < 1_000_000 * (3600 * d + 60 * m + s + 1)
        }),
        call_ensures(lx200_reply, (buf, n, &position), reply),
    ensures
        reply matches Some(told) && told@ == seq![
            if position.boresight_dec < 0 {
                '-'
            } else {
                '+'
            },
        ] + text::padded(d) + seq!['*'] + text::padded(m) + seq!['\''] + text::padded(s)
            + seq!['#'],
{
    lemma_request_is_one(buf@.take(n as int));
    let size = vstd::math::abs(position.boresight_dec as int) as int;
    let seconds = size / 1_000_000;
    assert(seconds == 3600 * d + 60 * m + s);
    assert(seconds / 60 == 60 * d + m);
    assert((60 * d + m) % 60 == m);
    assert(seconds % 60 == s);
    assert(seconds / 3600 == d);
}

/// Asked what it is, the server says so, and that it is ready; a request that starts no command
/// that is known gets no reply. Where nothing about the position is asked, the reply does not go by
/// it.
pub proof fn law_reply_tells_what_this_is(
    buf: &[u8],
    n: usize,
    here: TelescopePosition,
    there: TelescopePosition,
    reply: Option<String>,
    other: Option<String>,
)
    requires
        n <= buf@.len(),
        call_ensures(lx200_reply, (buf, n, &here), reply),
        call_ensures(lx200_reply, (buf, n, &there), other),
    ensures
        buf@.take(n as int) == encode_utf8("#\x06"@) ==> (reply matches Some(told) && told@
            == seq!['A']),
        buf@.take(n as int) == encode_utf8("#:GW#"@) ==> (reply matches Some(told) && told@
            == "ANH#"@),
        buf@.take(n as int) == encode_utf8("#:GVP#"@) ==> (reply matches Some(told) && told@
            == "Cedar#"@),
        buf@.take(n as int) != encode_utf8("#:GR#"@) && buf@.take(n as int) != encode_utf8(
            "#:GD#"@,
        ) ==> (reply is Some <==> other is Some) && (reply matches Some(told) ==> told@
            == other->0@),
        n == 0 && buf@.len() == 0 ==> reply is None,
{
    lemma_request_is_one(buf@.take(n as int));
    reveal_strlit("A");
    assert("A"@ =~= seq!['A']);
    if n == 0 && buf@.len() == 0 {
        let none = buf@.take(0);
        lemma_some_bytes("#\x06"@, none);
        lemma_some_bytes("#:GW#"@, none);
        lemma_some_bytes("#:GR#"@, none);
        lemma_some_bytes("#:GD#"@, none);
        lemma_some_bytes("#:GVP#"@, none);
        lemma_some_bytes("#:GVN#"@, none);
        lemma_some_bytes("#:GVT#"@, none);
        lemma_some_bytes("#:GVD#"@, none);
        reveal_strlit("#\x06");
        reveal_strlit("#:GW#");
        reveal_strlit("#:GR#");
        reveal_strlit("#:GD#");
        reveal_strlit("#:GVP#");
        reveal_strlit("#:GVN#");
        reveal_strlit("#:GVT#");
        reveal_strlit("#:GVD#");
        reveal_strlit("#:St");
        lemma_some_bytes("#:St"@, buf@);
        assert(encode_utf8("#:St"@).len() > 0);
    }
}

/// A text that is not empty has bytes.
proof fn lemma_some_bytes(s: Seq<char>, bytes: Seq<u8>)
    requires
        bytes.len() == 0,
    ensures
        s.len() > 0 ==> encode_utf8(s) != bytes,
        s.len() > 0 ==> encode_utf8(s).len() > 0,
{
    if s.len() > 0 && encode_utf8(s).len() == 0 {
        assert(encode_utf8(s) =~= encode_utf8(Seq::<char>::empty()));
        lemma_bytes_tell_texts_apart(s, Seq::empty());
    }
}

} // verus!
