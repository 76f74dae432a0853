//! Text values: padding, trimming, the backslash that separates the
//! components of a multi-valued string, and conversion to and from `String`.

use encoding::all::ISO_8859_1;
use encoding::DecoderTrap;
use encoding::EncoderTrap;
use encoding::Encoding;
use vstd::prelude::*;

verus! {

/// The byte that separates the components of a multi-valued string.
pub const BACKSLASH: u8 = 0x5C;

/// The space, which pads text to an even length.
pub const SPACE: u8 = 0x20;

/// Whether a byte is padding: a space or a zero byte.
pub open spec fn is_pad(b: u8) -> bool {
    b == 0x20 || b == 0x00
}

/// The end of the text in the window `from..to` of `s`, once the padding at
/// the end of the window is left out.
pub open spec fn end_of_text(s: Seq<u8>, from: int, to: int) -> int
    decreases to - from,
{
    if from < to && is_pad(s[to - 1]) {
        end_of_text(s, from, to - 1)
    } else {
        to
    }
}

/// The start of the text in the window `from..to` of `s`, once the padding
/// at the start of the window is left out.
pub open spec fn start_of_text(s: Seq<u8>, from: int, to: int) -> int
    decreases to - from,
{
    if from < to && is_pad(s[from]) {
        start_of_text(s, from + 1, to)
    } else {
        from
    }
}

/// The window `from..to` of `s` without the padding at either end.
pub open spec fn trimmed(s: Seq<u8>, from: int, to: int) -> Seq<u8> {
    let e = end_of_text(s, from, to);
    s.subrange(start_of_text(s, from, e), e)
}

/// The position of the first backslash at or after `from`, or the length of
/// `s` where there is none.
pub open spec fn next_delimiter(s: Seq<u8>, from: int) -> int
    decreases s.len() - from,
{
    if from >= s.len() {
        s.len() as int
    } else if s[from] == 0x5C {
        from
    } else {
        next_delimiter(s, from + 1)
    }
}

/// The trimmed components of `s` from `from` on, split at each backslash.
pub open spec fn split_from(s: Seq<u8>, from: int) -> Seq<Seq<u8>>
    decreases s.len() - from,
{
    let d = next_delimiter(s, from);
    if d < from || d >= s.len() {
        seq![trimmed(s, from, s.len() as int)]
    } else {
        seq![trimmed(s, from, d)] + split_from(s, d + 1)
    }
}

/// The components of a multi-valued string: `s` split at each backslash,
/// each component without the padding at its ends.
pub open spec fn spec_strings(s: Seq<u8>) -> Seq<Seq<u8>> {
    split_from(s, 0)
}

/// A single text: `s` without the padding at its end.
pub open spec fn spec_text(s: Seq<u8>) -> Seq<u8> {
    s.subrange(0, end_of_text(s, 0, s.len() as int))
}

/// The components joined by backslashes.
pub open spec fn join(parts: Seq<Seq<u8>>) -> Seq<u8>
    decreases parts.len(),
{
    if parts.len() == 0 {
        Seq::empty()
    } else if parts.len() == 1 {
        parts[0]
    } else {
        parts[0] + seq![0x5Cu8] + join(parts.drop_first())
    }
}

/// `s`, with `pad` added where its length is odd.
pub open spec fn padded(s: Seq<u8>, pad: u8) -> Seq<u8> {
    if s.len() % 2 == 1 {
        s.push(pad)
    } else {
        s
    }
}

/// The views of the vectors of a sequence.
pub open spec fn views(v: Seq<Vec<u8>>) -> Seq<Seq<u8>> {
    v.map_values(|x: Vec<u8>| x@)
}

/// A component that splitting and trimming give back as it is: it holds no
/// backslash and neither starts nor ends with padding.
pub open spec fn is_component(p: Seq<u8>) -> bool {
    &&& forall|i: int| 0 <= i < p.len() ==> p[i] != 0x5C
    &&& p.len() > 0 ==> !is_pad(p[0]) && !is_pad(p.last())
}

/// The characters of bytes read as ISO 8859-1: each byte is the character
/// with its number.
pub open spec fn latin1_chars(b: Seq<u8>) -> Seq<char> {
    b.map_values(|x: u8| x as char)
}

/// Whether every character has a number below 256.
pub open spec fn is_latin1(s: Seq<char>) -> bool {
    forall|i: int| 0 <= i < s.len() ==> (#[trigger] s[i]) as u32 <= 0xFF
}

/// The bytes of characters written in ISO 8859-1: each character is the
/// byte with its number.
pub open spec fn latin1_bytes(s: Seq<char>) -> Seq<u8> {
    s.map_values(|c: char| c as u8)
}

/// Bytes are the bytes of their own characters.
pub proof fn lemma_latin1_round_trip(b: Seq<u8>)
    ensures
        latin1_bytes(latin1_chars(b)) == b,
        is_latin1(latin1_chars(b)),
{
}

/// Where no backslash stands in `from..d` and `d` is a backslash or the
/// end, `d` is the next delimiter.
proof fn lemma_next_delimiter_is(s: Seq<u8>, from: int, d: int)
    requires
        0 <= from <= d <= s.len(),
        forall|k: int| from <= k < d ==> s[k] != 0x5C,
        d == s.len() || s[d] == 0x5C,
    ensures
        next_delimiter(s, from) == d,
    decreases d - from,
{
    if from < d {
        lemma_next_delimiter_is(s, from + 1, d);
    }
}

/// A window that holds a component is trimmed to itself.
proof fn lemma_trimmed_component(s: Seq<u8>, from: int, to: int)
    requires
        0 <= from <= to <= s.len(),
        is_component(s.subrange(from, to)),
    ensures
        trimmed(s, from, to) == s.subrange(from, to),
{
}

/// Joining one more component adds a backslash and the component.
pub proof fn lemma_join_push(parts: Seq<Seq<u8>>, p: Seq<u8>)
    ensures
        join(parts.push(p)) == if parts.len() == 0 {
            p
        } else {
            join(parts) + seq![0x5Cu8] + p
        },
    decreases parts.len(),
{
    if parts.len() == 0 {
    } else {
        let rest = parts.drop_first();
        lemma_join_push(rest, p);
        assert(parts.push(p).drop_first() =~= rest.push(p));
    }
}

/// Splitting what was joined, with or without one byte of padding after
/// it, gives the components back.
pub proof fn lemma_split_of_join(s: Seq<u8>, from: int, parts: Seq<Seq<u8>>, tail: Seq<u8>)
    requires
        0 <= from <= s.len(),
        parts.len() >= 1,
        forall|i: int| 0 <= i < parts.len() ==> is_component(#[trigger] parts[i]),
        tail.len() <= 1,
        tail.len() == 1 ==> is_pad(tail[0]),
        s.subrange(from, s.len() as int) == join(parts) + tail,
    ensures
        split_from(s, from) == parts,
    decreases parts.len(),
{
    let head = parts[0];
    let d = from + head.len();
    let whole = join(parts) + tail;
    if parts.len() == 1 {
        assert forall|k: int| from <= k < s.len() implies s[k] != 0x5C by {
            assert(whole[k - from] == s[k]);
        }
        lemma_next_delimiter_is(s, from, s.len() as int);
        assert(s.subrange(from, d) =~= head);
        lemma_trimmed_component(s, from, d);
        if tail.len() == 1 {
            assert(whole[head.len() as int] == tail[0]);
        }
    } else {
        let rest = parts.drop_first();
        assert forall|k: int| from <= k < d implies s[k] != 0x5C by {
            assert(whole[k - from] == head[k - from]);
        }
        assert(whole[head.len() as int] == 0x5C);
        lemma_next_delimiter_is(s, from, d);
        assert(s.subrange(from, d) =~= head);
        lemma_trimmed_component(s, from, d);
        let r = join(rest) + tail;
        assert forall|k: int| 0 <= k < r.len() implies s[d + 1 + k] == r[k] by {
            assert(whole[head.len() + 1 + k] == r[k]);
        }
        assert(s.subrange(d + 1, s.len() as int) =~= r);
        lemma_split_of_join(s, d + 1, rest, tail);
    }
}

/// The components of a padded, joined string are the components that were
/// joined.
pub proof fn lemma_strings_round_trip(parts: Seq<Seq<u8>>, pad: u8)
    requires
        parts.len() >= 1,
        forall|i: int| 0 <= i < parts.len() ==> is_component(#[trigger] parts[i]),
        is_pad(pad),
    ensures
        spec_strings(padded(join(parts), pad)) == parts,
{
    let j = join(parts);
    let s = padded(j, pad);
    if j.len() % 2 == 1 {
        assert(s.subrange(0, s.len() as int) =~= j + seq![pad]);
        lemma_split_of_join(s, 0, parts, seq![pad]);
    } else {
        assert(s.subrange(0, s.len() as int) =~= j + Seq::<u8>::empty());
        lemma_split_of_join(s, 0, parts, Seq::empty());
    }
}

/// A text that does not end with padding is read back from its padded form.
pub proof fn lemma_text_round_trip(t: Seq<u8>, pad: u8)
    requires
        t.len() > 0,
        !is_pad(t.last()),
        is_pad(pad),
    ensures
        spec_text(padded(t, pad)) == t,
{
    let s = padded(t, pad);
    if t.len() % 2 == 1 {
        assert(end_of_text(s, 0, s.len() as int) == end_of_text(s, 0, t.len() as int));
    } else {
    }
}

fn is_pad_byte(b: u8) -> (r: bool)
    ensures
        r == is_pad(b),
{
    b == 0x20 || b == 0x00
}

/// The end of the text in the window `from..to`.
pub fn trim_end(value: &[u8], from: usize, to: usize) -> (e: usize)
    requires
        from <= to <= value@.len(),
    ensures
        e == end_of_text(value@, from as int, to as int),
        from <= e <= to,
{
    let mut e = to;
    while e > from && is_pad_byte(value[e - 1])
        invariant
            from <= e <= to <= value@.len(),
            end_of_text(value@, from as int, to as int) == end_of_text(
                value@,
                from as int,
                e as int,
            ),
        decreases e,
    {
        e -= 1;
    }
    e
}

/// The start of the text in the window `from..to`.
pub fn trim_start(value: &[u8], from: usize, to: usize) -> (b: usize)
    requires
        from <= to <= value@.len(),
    ensures
        b == start_of_text(value@, from as int, to as int),
        from <= b <= to,
{
    let mut b = from;
    while b < to && is_pad_byte(value[b])
        invariant
            from <= b <= to <= value@.len(),
            start_of_text(value@, from as int, to as int) == start_of_text(
                value@,
                b as int,
                to as int,
            ),
        decreases to - b,
    {
        b += 1;
    }
    b
}

/// A copy of the bytes `from..to`.
pub fn copy_range(value: &[u8], from: usize, to: usize) -> (out: Vec<u8>)
    requires
        from <= to <= value@.len(),
    ensures
        out@ == value@.subrange(from as int, to as int),
{
    let mut out: Vec<u8> = Vec::new();
    let mut i = from;
    while i < to
        invariant
            from <= i <= to <= value@.len(),
            out@ == value@.subrange(from as int, i as int),
        decreases to - i,
    {
        out.push(value[i]);
        i += 1;
    }
    out
}

/// The window `from..to` without the padding at either end.
pub fn trim_window(value: &[u8], from: usize, to: usize) -> (out: Vec<u8>)
    requires
        from <= to <= value@.len(),
    ensures
        out@ == trimmed(value@, from as int, to as int),
{
    let e = trim_end(value, from, to);
    let b = trim_start(value, from, e);
    copy_range(value, b, e)
}

/// The position of the first backslash at or after `from`.
pub fn find_delimiter(value: &[u8], from: usize) -> (d: usize)
    requires
        from <= value@.len(),
    ensures
        d == next_delimiter(value@, from as int),
        from <= d <= value@.len(),
{
    let n = value.len();
    let mut d = from;
    while d < n && value[d] != BACKSLASH
        invariant
            from <= d <= n,
            n == value@.len(),
            next_delimiter(value@, from as int) == next_delimiter(value@, d as int),
        decreases n - d,
    {
        d += 1;
    }
    d
}

/// Splits a multi-valued string into its trimmed components.
pub fn split_strings(value: &[u8]) -> (parts: Vec<Vec<u8>>)
    ensures
        views(parts@) == spec_strings(value@),
        parts@.len() >= 1,
{
    let n = value.len();
    let mut parts: Vec<Vec<u8>> = Vec::new();
    let mut from: usize = 0;
    let mut done = false;
    while !done
        invariant
            from <= n,
            n == value@.len(),
            !done ==> spec_strings(value@) == views(parts@) + split_from(value@, from as int),
            done ==> spec_strings(value@) == views(parts@),
            done ==> parts@.len() >= 1,
        decreases (n - from) + (if done { 0int } else { 1int }),
    {
        let d = find_delimiter(value, from);
        if d >= n {
            let part = trim_window(value, from, n);
            parts.push(part);
            done = true;
        } else {
            let part = trim_window(value, from, d);
            parts.push(part);
            from = d + 1;
        }
    }
    parts
}

/// A single text without the padding at its end.
pub fn trim_text(value: &[u8]) -> (out: Vec<u8>)
    ensures
        out@ == spec_text(value@),
{
    let e = trim_end(value, 0, value.len());
    copy_range(value, 0, e)
}

/// Appends the bytes of `part` to `out`.
pub fn append(out: &mut Vec<u8>, part: &[u8])
    ensures
        final(out)@ == old(out)@ + part@,
{
    let n = part.len();
    let mut i: usize = 0;
    while i < n
        invariant
            i <= n,
            n == part@.len(),
            out@ == old(out)@ + part@.subrange(0, i as int),
        decreases n - i,
    {
        out.push(part[i]);
        i += 1;
    }
}

/// Joins the components with backslashes.
pub fn join_strings(parts: &Vec<Vec<u8>>) -> (out: Vec<u8>)
    ensures
        out@ == join(views(parts@)),
{
    let mut out: Vec<u8> = Vec::new();
    let mut i: usize = 0;
    while i < parts.len()
        invariant
            i <= parts@.len(),
            out@ == join(views(parts@).subrange(0, i as int)),
        decreases parts@.len() - i,
    {
        let ghost before = views(parts@).subrange(0, i as int);
        proof {
            lemma_join_push(before, parts@[i as int]@);
            assert(views(parts@).subrange(0, i + 1) =~= before.push(parts@[i as int]@));
        }
        if i > 0 {
            out.push(BACKSLASH);
        }
        append(&mut out, parts[i].as_slice());
        i += 1;
    }
    assert(views(parts@).subrange(0, parts@.len() as int) == views(parts@));
    out
}

/// Adds `pad` where the length of `out` is odd.
pub fn pad_to_even(out: &mut Vec<u8>, pad: u8)
    ensures
        final(out)@ == padded(old(out)@, pad),
{
    if out.len() % 2 == 1 {
        out.push(pad);
    }
}

/// Whether two byte strings are the same.
pub fn bytes_equal(a: &[u8], b: &[u8]) -> (r: bool)
    ensures
        r == (a@ == b@),
{
    if a.len() != b.len() {
        return false;
    }
    let n = a.len();
    let mut i: usize = 0;
    while i < n
        invariant
            i <= n,
            n == a@.len(),
            n == b@.len(),
            forall|k: int| 0 <= k < i ==> a@[k] == b@[k],
        decreases n - i,
    {
        if a[i] != b[i] {
            return false;
        }
        i += 1;
    }
    assert(a@ =~= b@);
    true
}

/// `encoding::all::ISO_8859_1.decode` with the strict trap: each byte
/// becomes the character with its number. The decoder of this character set
/// has a character for every byte, so the error arm is never taken.
#[verifier::external_body]
fn latin1_decode(bytes: &[u8]) -> (s: String)
    ensures
        s@ == latin1_chars(bytes@),
{
    match ISO_8859_1.decode(bytes, DecoderTrap::Strict) {
        Ok(s) => s,
        Err(_) => String::new(),
    }
}

/// `encoding::all::ISO_8859_1.encode` with the strict trap: each character
/// with a number below 256 becomes the byte with that number; a string that
/// holds any other character is refused.
#[verifier::external_body]
fn latin1_encode(s: &str) -> (r: Option<Vec<u8>>)
    ensures
        r is Some <==> is_latin1(s@),
        r matches Some(v) ==> latin1_chars(v@) == s@,
{
    match ISO_8859_1.encode(s, EncoderTrap::Strict) {
        Ok(v) => Some(v),
        Err(_) => None,
    }
}

/// The text that the bytes stand for in the default character repertoire.
pub fn bytes_to_string(bytes: &[u8]) -> (s: String)
    ensures
        s@ == latin1_chars(bytes@),
{
    latin1_decode(bytes)
}

/// The bytes of a text in the default character repertoire; `None` exactly
/// where the text holds a character outside it.
pub fn string_to_bytes(s: &str) -> (r: Option<Vec<u8>>)
    ensures
        r is Some <==> is_latin1(s@),
        r matches Some(v) ==> v@ == latin1_bytes(s@) && latin1_chars(v@) == s@,
{
    let r = latin1_encode(s);
    proof {
        if r is Some {
            lemma_latin1_round_trip(r->0@);
        }
    }
    r
}

} // verus!
