//! Paths: the run-time keys that name a field, and the dotted text they are written in.
//!
//! A path is a sequence of segments. In contracts it is a `Seq<Seq<char>>`; in
//! executable code it is a slice of string slices, whose `deep_view()` is that sequence.

use vstd::prelude::*;
use vstd::string::StringSliceAdditionalSpecFns;
use vstd::utf8::*;

verus! {

/// The byte that encodes a dot. No other character's encoding holds it.
pub const DOT: u8 = 0x2e;

/// No character of `s` is a dot.
pub open spec fn dot_free(s: Seq<char>) -> bool {
    forall|i: int| 0 <= i < s.len() ==> s[i] != '.'
}

/// The segments of a dotted key. Read from the left, a dot opens a new segment and any
/// other character joins the segment that is open; so a text of `n` dots has `n + 1`
/// segments, some of them possibly empty, and the empty text has one empty segment.
pub open spec fn split_dots(s: Seq<char>) -> Seq<Seq<char>>
    decreases s.len(),
{
    if s.len() == 0 {
        seq![Seq::<char>::empty()]
    } else {
        let rest = split_dots(s.drop_first());
        if s[0] == '.' {
            seq![Seq::<char>::empty()] + rest
        } else {
            rest.update(0, seq![s[0]] + rest[0])
        }
    }
}

/// The segments written one after the other, with a dot between each two.
pub open spec fn join_dots(segments: Seq<Seq<char>>) -> Seq<char>
    decreases segments.len(),
{
    if segments.len() == 0 {
        Seq::<char>::empty()
    } else if segments.len() == 1 {
        segments[0]
    } else {
        segments[0] + seq!['.'] + join_dots(segments.drop_first())
    }
}

/// Splitting loses nothing: there is at least one segment, no segment holds a dot, and
/// the segments joined by dots give the key back.
pub proof fn lemma_split_then_join(s: Seq<char>)
    ensures
        split_dots(s).len() >= 1,
        forall|i: int| 0 <= i < split_dots(s).len() ==> dot_free(#[trigger] split_dots(s)[i]),
        join_dots(split_dots(s)) == s,
    decreases s.len(),
{
    if s.len() > 0 {
        let tail = s.drop_first();
        let rest = split_dots(tail);
        lemma_split_then_join(tail);
        let all = split_dots(s);
        if s[0] == '.' {
            assert(all.drop_first() =~= rest);
            assert(all[0] =~= Seq::<char>::empty());
            assert forall|i: int| 0 <= i < all.len() implies dot_free(#[trigger] all[i]) by {
                if i > 0 {
                    assert(all[i] == rest[i - 1]);
                }
            }
            assert(join_dots(all) =~= seq!['.'] + tail);
            assert(s =~= seq!['.'] + tail);
        } else {
            assert(dot_free(rest[0]));
            assert forall|i: int| 0 <= i < all.len() implies dot_free(#[trigger] all[i]) by {
                if i > 0 {
                    assert(all[i] == rest[i]);
                }
            }
            assert(s =~= seq![s[0]] + tail);
            if rest.len() > 1 {
                assert(all.drop_first() =~= rest.drop_first());
                assert(join_dots(all) =~= seq![s[0]] + join_dots(rest));
            }
        }
    }
}

/// Splitting is the only way back from a joined text: dot-free segments, at least one of
/// them, are what their joined text splits into.
pub proof fn lemma_join_then_split(segments: Seq<Seq<char>>)
    requires
        segments.len() >= 1,
        forall|i: int| 0 <= i < segments.len() ==> dot_free(#[trigger] segments[i]),
    ensures
        split_dots(join_dots(segments)) == segments,
    decreases segments.len(),
{
    if segments.len() == 1 {
        lemma_split_dot_free(segments[0]);
        assert(segments =~= seq![segments[0]]);
    } else {
        let rest = segments.drop_first();
        assert forall|i: int| 0 <= i < rest.len() implies dot_free(#[trigger] rest[i]) by {
            assert(rest[i] == segments[i + 1]);
        }
        lemma_join_then_split(rest);
        lemma_split_at_dot(segments[0], join_dots(rest));
        assert(segments =~= seq![segments[0]] + rest);
    }
}

/// A text without a dot is its own single segment.
pub proof fn lemma_split_dot_free(head: Seq<char>)
    requires
        dot_free(head),
    ensures
        split_dots(head) == seq![head],
    decreases head.len(),
{
    if head.len() == 0 {
        assert(head =~= Seq::<char>::empty());
    } else {
        let tail = head.drop_first();
        assert forall|i: int| 0 <= i < tail.len() implies tail[i] != '.' by {
            assert(tail[i] == head[i + 1]);
        }
        lemma_split_dot_free(tail);
        assert(seq![head[0]] + tail =~= head);
        assert(split_dots(head) =~= seq![head]);
    }
}

/// The first dot of a text ends its first segment, and the rest is split on its own.
pub proof fn lemma_split_at_dot(head: Seq<char>, tail: Seq<char>)
    requires
        dot_free(head),
    ensures
        split_dots(head + seq!['.'] + tail) == seq![head] + split_dots(tail),
    decreases head.len(),
{
    let s = head + seq!['.'] + tail;
    if head.len() == 0 {
        assert(s.drop_first() =~= tail);
        assert(head =~= Seq::<char>::empty());
    } else {
        let shorter = head.drop_first();
        assert forall|i: int| 0 <= i < shorter.len() implies shorter[i] != '.' by {
            assert(shorter[i] == head[i + 1]);
        }
        lemma_split_at_dot(shorter, tail);
        assert(s.drop_first() =~= shorter + seq!['.'] + tail);
        assert(s[0] == head[0]);
        assert(seq![head[0]] + shorter =~= head);
        assert(split_dots(s) =~= seq![head] + split_dots(tail));
    }
}

/// A text whose encoding holds no dot byte holds no dot.
proof fn lemma_no_dot_byte(s: Seq<char>)
    requires
        forall|k: int| 0 <= k < encode_utf8(s).len() ==> encode_utf8(s)[k] != DOT,
    ensures
        dot_free(s),
    decreases s.len(),
{
    if s.len() > 0 {
        let first = encode_scalar(s[0] as u32);
        let tail = s.drop_first();
        let rest = encode_utf8(tail);
        assert(encode_utf8(s) == first + rest);
        assert forall|k: int| 0 <= k < rest.len() implies rest[k] != DOT by {
            assert((first + rest)[first.len() + k] == rest[k]);
        }
        lemma_no_dot_byte(tail);
        if s[0] == '.' {
            assert(s[0] as u32 == 0x2e);
            assert((0x2eu32 & 0x7f) as u8 == 0x2eu8) by (bit_vector);
            assert((first + rest)[0] == DOT);
        }
        assert forall|i: int| 0 <= i < s.len() implies s[i] != '.' by {
            if i > 0 {
                assert(s[i] == tail[i - 1]);
            }
        }
    }
}

/// Where the first dot byte of an encoded text stands, the text falls into the part
/// before the dot, the dot, and the part after it, each encoded by its own bytes.
proof fn lemma_first_dot_byte(s: Seq<char>, j: int)
    requires
        0 <= j < encode_utf8(s).len(),
        encode_utf8(s)[j] == DOT,
        forall|k: int| 0 <= k < j ==> encode_utf8(s)[k] != DOT,
    ensures
        is_char_boundary(encode_utf8(s), j),
        is_char_boundary(encode_utf8(s).subrange(j, encode_utf8(s).len() as int), 1),
        valid_utf8(encode_utf8(s).subrange(0, j)),
        valid_utf8(encode_utf8(s).subrange(j + 1, encode_utf8(s).len() as int)),
        dot_free(decode_utf8(encode_utf8(s).subrange(0, j))),
        s == decode_utf8(encode_utf8(s).subrange(0, j)) + seq!['.'] + decode_utf8(
            encode_utf8(s).subrange(j + 1, encode_utf8(s).len() as int),
        ),
{
    let b = encode_utf8(s);
    let n = b.len() as int;
    let before = b.subrange(0, j);
    let from_dot = b.subrange(j, n);
    let after = b.subrange(j + 1, n);
    encode_utf8_valid_utf8(s);
    encode_utf8_decode_utf8(s);
    is_char_boundary_iff_not_is_continuation_byte(b, j);
    valid_utf8_split(b, j);
    decode_utf8_split(b, j);
    // the dot is a scalar of one byte at the head of `from_dot`
    assert(from_dot[0] == DOT);
    assert(is_leading_byte_width_1(from_dot[0]));
    assert(pop_first_scalar(from_dot) =~= after);
    assert((0x2eu8 & 0x7f) as u32 == 0x2eu32) by (bit_vector);
    assert(decode_first_scalar(from_dot) == 0x2eu32);
    assert(0x2eu32 as char == '.');
    assert(decode_utf8(from_dot) == seq!['.'] + decode_utf8(after));
    assert(is_char_boundary(from_dot, 1)) by {
        reveal_with_fuel(is_char_boundary, 2);
    }
    // no dot before it
    decode_utf8_encode_utf8(before);
    assert forall|k: int| 0 <= k < before.len() implies before[k] != DOT by {
        assert(before[k] == b[k]);
    }
    lemma_no_dot_byte(decode_utf8(before));
    assert(s =~= decode_utf8(before) + seq!['.'] + decode_utf8(after));
}

/// Whether two texts are the same characters.
pub fn str_eq(a: &str, b: &str) -> (equal: bool)
    ensures
        equal == (a@ == b@),
{
    let x = a.as_bytes();
    let y = b.as_bytes();
    proof {
        encode_utf8_decode_utf8(a@);
        encode_utf8_decode_utf8(b@);
    }
    if x.len() != y.len() {
        return false;
    }
    let mut i: usize = 0;
    while i < x.len()
        invariant
            i <= x.len(),
            x.len() == y.len(),
            x@ == encode_utf8(a@),
            y@ == encode_utf8(b@),
            forall|k: int| 0 <= k < i ==> x@[k] == y@[k],
        decreases x.len() - i,
    {
        if x[i] != y[i] {
            return false;
        }
        i += 1;
    }
    assert(x@ =~= y@);
    true
}

/// Splits a dotted key into its segments, each a slice of the key.
pub fn split_key<'a>(key: &'a str) -> (segments: Vec<&'a str>)
    ensures
        segments.deep_view() == split_dots(key@),
{
    let mut segments: Vec<&'a str> = Vec::new();
    let mut rest: &'a str = key;
    assert(segments.deep_view() + split_dots(rest@) =~= split_dots(key@));
    loop
        invariant_except_break
            segments.deep_view() + split_dots(rest@) == split_dots(key@),
        ensures
            segments.deep_view() == split_dots(key@),
        decreases rest.spec_bytes().len(),
    {
        let ghost done = segments.deep_view();
        let bytes = rest.as_bytes();
        let mut j: usize = 0;
        while j < bytes.len() && bytes[j] != DOT
            invariant
                j <= bytes.len(),
                forall|k: int| 0 <= k < j ==> bytes@[k] != DOT,
            decreases bytes.len() - j,
        {
            j += 1;
        }
        if j == bytes.len() {
            proof {
                lemma_no_dot_byte(rest@);
                lemma_split_dot_free(rest@);
            }
            segments.push(rest);
            assert(segments.deep_view() =~= done.push(rest@));
            assert(done.push(rest@) =~= done + seq![rest@]);
            break ;
        }
        proof {
            lemma_first_dot_byte(rest@, j as int);
        }
        let (head, from_dot) = rest.split_at(j);
        let (_, after) = from_dot.split_at(1);
        proof {
            encode_utf8_decode_utf8(head@);
            encode_utf8_decode_utf8(after@);
            assert(after.spec_bytes() =~= rest.spec_bytes().subrange(
                j + 1,
                rest.spec_bytes().len() as int,
            ));
            lemma_split_at_dot(head@, after@);
        }
        segments.push(head);
        assert(segments.deep_view() =~= done.push(head@));
        assert(done.push(head@) + split_dots(after@) =~= done + (seq![head@] + split_dots(after@)));
        rest = after;
    }
    segments
}

} // verus!
