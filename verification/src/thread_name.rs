//! Names of threads, as the operating system takes them.

use vstd::prelude::*;
use vstd::string::*;
use vstd::utf8::*;

verus! {

broadcast use vstd::string::group_string_axioms;

/// The longest name in bytes.
pub const MAX_LEN: usize = 15;

/// A thread's name: at most fifteen bytes, and zeros up to sixteen.
#[derive(Debug)]
pub struct ThreadName {
    /// The bytes, with a zero at the end.
    pub bytes: Vec<u8>,
    /// How many of them belong to the name.
    pub len: usize,
}

/// Where a name is cut off: at the last character that ends within the limit.
pub open spec fn cut_of(bytes: Seq<u8>, at: int) -> int
    decreases at,
{
    if at <= 0 || is_char_boundary(bytes, at) {
        at
    } else {
        cut_of(bytes, at - 1)
    }
}

/// The length that a name is first cut to.
pub open spec fn limit_of(bytes: Seq<u8>) -> int {
    if bytes.len() < MAX_LEN {
        bytes.len() as int
    } else {
        MAX_LEN as int
    }
}

impl ThreadName {
    /// A thread's name has sixteen bytes, of which the last is zero.
    pub open spec fn wf(&self) -> bool {
        &&& self.bytes@.len() == MAX_LEN + 1
        &&& self.len <= MAX_LEN
        &&& forall|i: int| self.len <= i < self.bytes@.len() ==> #[trigger] self.bytes@[i] == 0
    }

    /// Makes a name. A longer one is cut off, but never within a character.
    pub fn new(name: &str) -> (r: Self)
        ensures
            r.wf(),
            r.len == cut_of(encode_utf8(name@), limit_of(encode_utf8(name@))),
            r.bytes@.take(r.len as int) == encode_utf8(name@).take(r.len as int),
    {
        let source: &[u8] = name.as_bytes();
        let ghost encoded = encode_utf8(name@);
        let mut end: usize = if source.len() < MAX_LEN { source.len() } else { MAX_LEN };
        while end > 0 && !name.is_char_boundary(end)
            invariant
                encoded == encode_utf8(name@),
                source@ == encoded,
                end <= MAX_LEN,
                end <= source@.len(),
                cut_of(encoded, limit_of(encoded)) == cut_of(encoded, end as int),
            decreases end,
        {
            end = end - 1;
        }
        let mut bytes: Vec<u8> = Vec::new();
        let mut i: usize = 0;
        while i < end
            invariant
                i <= end,
                end <= source@.len(),
                bytes@ == source@.take(i as int),
            decreases end - i,
        {
            bytes.push(source[i]);
            i = i + 1;
            assert(bytes@ =~= source@.take(i as int));
        }
        while i < MAX_LEN + 1
            invariant
                end <= i <= MAX_LEN + 1,
                end <= source@.len(),
                bytes@.len() == i,
                bytes@.take(end as int) == source@.take(end as int),
                forall|k: int| end <= k < i ==> #[trigger] bytes@[k] == 0,
            decreases MAX_LEN + 1 - i,
        {
            let ghost before = bytes@;
            bytes.push(0);
            i = i + 1;
            assert(bytes@.take(end as int) =~= before.take(end as int));
        }
        ThreadName { bytes, len: end }
    }

    /// The name of a thread that does nothing.
    pub fn idle() -> (r: Self)
        ensures
            r.wf(),
            r.len == cut_of(encode_utf8("idle"@), limit_of(encode_utf8("idle"@))),
            r.bytes@.take(r.len as int) == encode_utf8("idle"@).take(r.len as int),
    {
        ThreadName::new("idle")
    }
}

/// A name that is short enough is kept whole.
pub proof fn law_short_names_are_whole(name: Seq<char>)
    requires
        encode_utf8(name).len() <= MAX_LEN,
    ensures
        cut_of(encode_utf8(name), limit_of(encode_utf8(name))) == encode_utf8(name).len(),
{
    encode_utf8_valid_utf8(name);
    is_char_boundary_start_end_of_seq(encode_utf8(name));
}

/// A name has sixteen bytes and ends in a zero. It starts as the text does, is never cut within a
/// character, and is as long as that and fifteen bytes allow; a text of fifteen bytes is whole.
pub proof fn law_names_are_cut_between_characters(name: &str, made: ThreadName, at: int)
    requires
        call_ensures(ThreadName::new, (name,), made),
    ensures
        made.bytes@.len() == 16 && made.bytes@[15] == 0,
        made.len <= 15 && made.len <= encode_utf8(name@).len(),
        forall|i: int| 0 <= i < made.len ==> #[trigger] made.bytes@[i] == encode_utf8(name@)[i],
        forall|i: int| made.len <= i < 16 ==> #[trigger] made.bytes@[i] == 0,
        made.len > 0 ==> is_char_boundary(encode_utf8(name@), made.len as int),
        made.len < at <= 15 && at <= encode_utf8(name@).len() ==> !is_char_boundary(
            encode_utf8(name@),
            at,
        ),
        encode_utf8(name@).len() <= 15 ==> made.len == encode_utf8(name@).len(),
{
    let bytes = encode_utf8(name@);
    lemma_cut_is_last(bytes, limit_of(bytes), at);
    if bytes.len() <= 15 {
        law_short_names_are_whole(name@);
    }
    assert forall|i: int| 0 <= i < made.len implies #[trigger] made.bytes@[i] == bytes[i] by {
        assert(made.bytes@.take(made.len as int)[i] == bytes.take(made.len as int)[i]);
    }
}

/// A cut is the last place between characters up to a limit.
proof fn lemma_cut_is_last(bytes: Seq<u8>, limit: int, at: int)
    requires
        0 <= limit,
    ensures
        0 <= cut_of(bytes, limit) <= limit,
        cut_of(bytes, limit) > 0 ==> is_char_boundary(bytes, cut_of(bytes, limit)),
        cut_of(bytes, limit) < at <= limit ==> !is_char_boundary(bytes, at),
    decreases limit,
{
    if limit > 0 && !is_char_boundary(bytes, limit) {
        lemma_cut_is_last(bytes, limit - 1, at);
    }
}

} // verus!
