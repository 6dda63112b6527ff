//! Text: equality, joining, trimming and slicing by byte offset.

use vstd::prelude::*;
use vstd::utf8::{
    decode_utf8, decode_utf8_encode_utf8, encode_utf8, encode_utf8_decode_utf8,
    encode_utf8_valid_utf8, is_char_boundary, is_char_boundary_iff_not_is_continuation_byte,
    is_char_boundary_start_end_of_seq, valid_utf8, valid_utf8_split,
};

verus! {

/// The characters with the Unicode property White_Space.
pub open spec fn is_white_space(c: char) -> bool {
    ||| '\u{9}' <= c <= '\u{d}'
    ||| c == '\u{20}'
    ||| c == '\u{85}'
    ||| c == '\u{a0}'
    ||| c == '\u{1680}'
    ||| '\u{2000}' <= c <= '\u{200a}'
    ||| c == '\u{2028}'
    ||| c == '\u{2029}'
    ||| c == '\u{202f}'
    ||| c == '\u{205f}'
    ||| c == '\u{3000}'
}

/// The text without its leading white space.
pub open spec fn trim_start(s: Seq<char>) -> Seq<char>
    decreases s.len(),
{
    if s.len() > 0 && is_white_space(s[0]) {
        trim_start(s.drop_first())
    } else {
        s
    }
}

/// The text without its trailing white space.
pub open spec fn trim_end(s: Seq<char>) -> Seq<char>
    decreases s.len(),
{
    if s.len() > 0 && is_white_space(s.last()) {
        trim_end(s.drop_last())
    } else {
        s
    }
}

/// The text without leading and trailing white space.
pub open spec fn trimmed(s: Seq<char>) -> Seq<char> {
    trim_end(trim_start(s))
}

/// `str::trim`. Trusted: it takes away the white space at both ends, and white
/// space is what Unicode calls White_Space.
#[verifier::external_body]
pub(crate) fn trim(s: &str) -> (r: &str)
    ensures
        r@ == trimmed(s@),
{
    s.trim()
}

/// The texts one after the other, with `separator` between neighbours.
pub open spec fn joined(parts: Seq<Seq<char>>, separator: Seq<char>) -> Seq<char>
    decreases parts.len(),
{
    if parts.len() == 0 {
        Seq::empty()
    } else if parts.len() == 1 {
        parts[0]
    } else {
        joined(parts.drop_last(), separator) + separator + parts.last()
    }
}

/// The characters of each text.
pub open spec fn views(parts: Seq<String>) -> Seq<Seq<char>> {
    parts.map_values(|s: String| s@)
}

/// The characters of a text that may be missing.
pub open spec fn text_of(s: Option<String>) -> Option<Seq<char>> {
    match s {
        Some(s) => Some(s@),
        None => None,
    }
}

/// The characters of a text that may be missing, none where it is.
pub open spec fn text_or_empty(s: Option<String>) -> Seq<char> {
    match s {
        Some(s) => s@,
        None => Seq::empty(),
    }
}

/// Joins texts with a separator.
pub fn join(parts: &Vec<String>, separator: &str) -> (r: String)
    ensures
        r@ == joined(views(parts@), separator@),
{
    let mut r = String::new();
    let ghost all = views(parts@);
    let n: usize = parts.len();
    for i in 0..n
        invariant
            n == parts@.len(),
            all == views(parts@),
            r@ == joined(all.take(i as int), separator@),
    {
        proof {
            assert(all.take(i + 1).drop_last() =~= all.take(i as int));
            assert(all.take(i + 1).last() == parts@[i as int]@);
        }
        if i > 0 {
            r.append(separator);
        }
        r.append(parts[i].as_str());
        proof {
            if i == 0 {
                assert(r@ =~= parts@[0]@);
            }
        }
    }
    proof {
        assert(all.take(n as int) =~= all);
    }
    r
}

/// Whether two texts are the same.
pub fn same_text(a: &str, b: &str) -> (same: bool)
    ensures
        same == (a@ == b@),
{
    let x = a.as_bytes();
    let y = b.as_bytes();
    proof {
        encode_utf8_decode_utf8(a@);
        encode_utf8_decode_utf8(b@);
    }
    if x.len() != y.len() {
        return false;
    }
    let n: usize = x.len();
    let mut i: usize = 0;
    while i < n
        invariant
            i <= n,
            n == x@.len(),
            n == y@.len(),
            x@ == encode_utf8(a@),
            y@ == encode_utf8(b@),
            x@.take(i as int) =~= y@.take(i as int),
        decreases n - i,
    {
        if x[i] != y[i] {
            return false;
        }
        i += 1;
    }
    proof {
        assert(x@.take(n as int) =~= x@);
        assert(y@.take(n as int) =~= y@);
    }
    true
}

/// The number of bytes of a text.
pub open spec fn byte_len(s: Seq<char>) -> nat {
    encode_utf8(s).len()
}

/// Whether a character of the text starts at the byte offset, or the text ends there.
pub open spec fn boundary(s: Seq<char>, offset: int) -> bool {
    is_char_boundary(encode_utf8(s), offset)
}

/// Whether the byte offsets bound a part of the text.
pub open spec fn bounds(s: Seq<char>, start: int, end: int) -> bool {
    start <= end && boundary(s, start) && boundary(s, end)
}

/// The part of a text between two byte offsets.
pub open spec fn part(s: Seq<char>, start: int, end: int) -> Seq<char> {
    decode_utf8(encode_utf8(s).subrange(start, end))
}

/// Whether the byte offsets bound a part of the text.
pub fn is_bounds(s: &str, start: usize, end: usize) -> (r: bool)
    ensures
        r == bounds(s@, start as int, end as int),
{
    start <= end && s.is_char_boundary(start) && s.is_char_boundary(end)
}

/// A boundary lies in the text.
pub(crate) proof fn lemma_boundary_range(s: Seq<char>, offset: int)
    requires
        boundary(s, offset),
    ensures
        0 <= offset <= byte_len(s),
{
    encode_utf8_valid_utf8(s);
}

/// A part has as many bytes as lie between its bounds.
pub(crate) proof fn lemma_part_len(s: Seq<char>, start: int, end: int)
    requires
        bounds(s, start, end),
    ensures
        byte_len(part(s, start, end)) == end - start,
{
    let bytes = encode_utf8(s);
    lemma_boundary_range(s, start);
    lemma_boundary_range(s, end);
    lemma_part_valid(s, start, end);
    decode_utf8_encode_utf8(bytes.subrange(start, end));
}

/// The bytes of a part are those of a text.
proof fn lemma_part_valid(s: Seq<char>, start: int, end: int)
    requires
        bounds(s, start, end),
    ensures
        valid_utf8(encode_utf8(s).subrange(start, end)),
        is_char_boundary(encode_utf8(s).subrange(0, end), start),
{
    let bytes = encode_utf8(s);
    let front = bytes.subrange(0, end);
    lemma_boundary_range(s, start);
    lemma_boundary_range(s, end);
    encode_utf8_valid_utf8(s);
    valid_utf8_split(bytes, end);
    if start < end {
        is_char_boundary_iff_not_is_continuation_byte(bytes, start);
        is_char_boundary_iff_not_is_continuation_byte(front, start);
        assert(front[start] == bytes[start]);
    } else {
        is_char_boundary_start_end_of_seq(front);
    }
    valid_utf8_split(front, start);
    assert(front.subrange(start, end) =~= bytes.subrange(start, end));
}

/// The part of a text between two byte offsets.
pub fn slice(s: &str, start: usize, end: usize) -> (r: &str)
    requires
        bounds(s@, start as int, end as int),
    ensures
        r@ == part(s@, start as int, end as int),
{
    let ghost bytes = encode_utf8(s@);
    proof {
        lemma_part_valid(s@, start as int, end as int);
    }
    let (head, _) = s.split_at(end);
    let (_, r) = head.split_at(start);
    proof {
        lemma_boundary_range(s@, start as int);
        lemma_boundary_range(s@, end as int);
        assert(bytes.subrange(0, end as int).subrange(start as int, end as int) =~= bytes.subrange(
            start as int,
            end as int,
        ));
        encode_utf8_decode_utf8(r@);
    }
    r
}

/// Whether a text holds a character.
pub fn contains_char(s: &str, c: char) -> (r: bool)
    ensures
        r == s@.contains(c),
{
    for x in it: s.chars()
        invariant
            it.seq() == s@,
            forall|i: int| 0 <= i < it.index() ==> #[trigger] s@[i] != c,
    {
        if x == c {
            assert(s@[it.index() as int] == c);
            return true;
        }
    }
    false
}

/// Joining puts the separator between neighbours and nowhere else, and keeps the order.
pub proof fn law_joined(parts: Seq<Seq<char>>, last: Seq<char>, separator: Seq<char>)
    ensures
        joined(Seq::empty(), separator) == Seq::<char>::empty(),
        joined(seq![last], separator) == last,
        parts.len() > 0 ==> joined(parts.push(last), separator) == joined(parts, separator)
            + separator + last,
{
    assert(parts.push(last).drop_last() =~= parts);
}

/// Trimming takes away white space at both ends, all of it, and nothing else.
pub proof fn law_trimmed(s: Seq<char>)
    ensures
        exists|start: int, end: int|
            #![trigger s.subrange(start, end)]
            0 <= start <= end <= s.len() && trimmed(s) == s.subrange(start, end) && (forall|i: int|
                0 <= i < start || end <= i < s.len() ==> is_white_space(#[trigger] s[i])) && (start
                < end ==> !is_white_space(s[start]) && !is_white_space(s[end - 1])),
{
    let from = lemma_trim_start_at(s);
    let rest = trim_start(s);
    let to = lemma_trim_end_at(rest);
    let end = from + to;
    assert(trimmed(s) =~= s.subrange(from, end));
    assert forall|i: int| 0 <= i < from || end <= i < s.len() implies is_white_space(
        #[trigger] s[i],
    ) by {
        if end <= i {
            assert(rest[i - from] == s[i]);
        }
    }
    if from < end {
        assert(rest[0] == s[from]);
        assert(rest[to - 1] == s[end - 1]);
    }
}

/// Where the text starts that is left.
proof fn lemma_trim_start_at(s: Seq<char>) -> (start: int)
    ensures
        0 <= start <= s.len(),
        trim_start(s) == s.skip(start),
        forall|i: int| 0 <= i < start ==> is_white_space(#[trigger] s[i]),
        start < s.len() ==> !is_white_space(s[start]),
    decreases s.len(),
{
    if s.len() > 0 && is_white_space(s[0]) {
        let rest = s.drop_first();
        let k = lemma_trim_start_at(rest);
        assert(rest.skip(k) =~= s.skip(k + 1));
        assert forall|i: int| 0 <= i < k + 1 implies is_white_space(#[trigger] s[i]) by {
            if i > 0 {
                assert(rest[i - 1] == s[i]);
            }
        }
        k + 1
    } else {
        assert(s.skip(0) =~= s);
        0
    }
}

/// Where the text ends that is left.
proof fn lemma_trim_end_at(s: Seq<char>) -> (end: int)
    ensures
        0 <= end <= s.len(),
        trim_end(s) == s.take(end),
        forall|i: int| end <= i < s.len() ==> is_white_space(#[trigger] s[i]),
        end > 0 ==> !is_white_space(s[end - 1]),
    decreases s.len(),
{
    if s.len() > 0 && is_white_space(s.last()) {
        let front = s.drop_last();
        let k = lemma_trim_end_at(front);
        assert(front.take(k) =~= s.take(k));
        assert forall|i: int| k <= i < s.len() implies is_white_space(#[trigger] s[i]) by {
            if i < front.len() {
                assert(front[i] == s[i]);
            }
        }
        if k > 0 {
            assert(front[k - 1] == s[k - 1]);
        }
        k
    } else {
        assert(s.take(s.len() as int) =~= s);
        s.len() as int
    }
}

/// A visible character of ASCII is no white space; the space, the tab and the line breaks are.
pub proof fn law_white_space(c: char)
    ensures
        '!' <= c <= '~' ==> !is_white_space(c),
        is_white_space(' '),
        is_white_space('\t'),
        is_white_space('\n'),
        is_white_space('\r'),
{
}

/// A part of a text has exactly the bytes between its bounds.
pub proof fn law_part_has_its_bytes(s: Seq<char>, start: int, end: int)
    requires
        start <= end,
        is_char_boundary(encode_utf8(s), start),
        is_char_boundary(encode_utf8(s), end),
    ensures
        encode_utf8(part(s, start, end)) == encode_utf8(s).subrange(start, end),
{
    lemma_boundary_range(s, start);
    lemma_boundary_range(s, end);
    lemma_part_valid(s, start, end);
    decode_utf8_encode_utf8(encode_utf8(s).subrange(start, end));
}

} // verus!
