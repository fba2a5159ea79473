//! Text bookkeeping: fragment concatenation, range extraction, and the
//! byte and wide-character lengths of character sequences.

use vstd::prelude::*;

verus! {

/// Bytes a character occupies in the byte encoding.
pub open spec fn char_utf8_len(c: char) -> int {
    if (c as u32) < 0x80 {
        1
    } else if (c as u32) < 0x800 {
        2
    } else if (c as u32) < 0x10000 {
        3
    } else {
        4
    }
}

/// Wide characters a character occupies in the wide encoding.
pub open spec fn char_utf16_len(c: char) -> int {
    if (c as u32) < 0x10000 {
        1
    } else {
        2
    }
}

/// Bytes a character sequence occupies in the byte encoding.
pub open spec fn utf8_len_of(s: Seq<char>) -> int
    decreases s.len(),
{
    if s.len() == 0 {
        0
    } else {
        char_utf8_len(s[0]) + utf8_len_of(s.drop_first())
    }
}

/// Wide characters a character sequence occupies in the wide encoding.
pub open spec fn utf16_len_of(s: Seq<char>) -> int
    decreases s.len(),
{
    if s.len() == 0 {
        0
    } else {
        char_utf16_len(s[0]) + utf16_len_of(s.drop_first())
    }
}

/// Appending one character adds exactly its own lengths.
pub proof fn lemma_len_push(s: Seq<char>, c: char)
    ensures
        utf8_len_of(s.push(c)) == utf8_len_of(s) + char_utf8_len(c),
        utf16_len_of(s.push(c)) == utf16_len_of(s) + char_utf16_len(c),
    decreases s.len(),
{
    if s.len() == 0 {
        assert(s.push(c).len() == 1);
        assert(s.push(c)[0] == c);
        assert(s.push(c).drop_first() =~= Seq::<char>::empty());
        assert(utf8_len_of(Seq::<char>::empty()) == 0);
        assert(utf8_len_of(s.push(c).drop_first()) == 0);
        assert(utf8_len_of(s.push(c)) == char_utf8_len(c));
        assert(utf8_len_of(s) == 0);
        assert(utf16_len_of(Seq::<char>::empty()) == 0);
        assert(utf16_len_of(s.push(c).drop_first()) == 0);
        assert(utf16_len_of(s.push(c)) == char_utf16_len(c));
        assert(utf16_len_of(s) == 0);
    } else {
        assert(s.push(c).drop_first() =~= s.drop_first().push(c));
        assert(s.push(c)[0] == s[0]);
        lemma_len_push(s.drop_first(), c);
        assert(utf8_len_of(s.push(c)) == char_utf8_len(s[0]) + utf8_len_of(
            s.drop_first().push(c),
        ));
        assert(utf16_len_of(s.push(c)) == char_utf16_len(s[0]) + utf16_len_of(
            s.drop_first().push(c),
        ));
        assert(utf16_len_of(s) == char_utf16_len(s[0]) + utf16_len_of(s.drop_first()));
    }
}

/// Both lengths split over any cut of the sequence.
pub proof fn lemma_len_split(s: Seq<char>, i: int)
    requires
        0 <= i <= s.len(),
    ensures
        utf8_len_of(s) == utf8_len_of(s.take(i)) + utf8_len_of(s.skip(i)),
        utf16_len_of(s) == utf16_len_of(s.take(i)) + utf16_len_of(s.skip(i)),
    decreases i,
{
    if i == 0 {
        assert(s.take(0) =~= Seq::<char>::empty());
        assert(s.skip(0) =~= s);
    } else {
        lemma_len_split(s, i - 1);
        assert(s.take(i) =~= s.take(i - 1).push(s[i - 1]));
        lemma_len_push(s.take(i - 1), s[i - 1]);
        assert(s.skip(i - 1) =~= seq![s[i - 1]] + s.skip(i));
        assert(s.skip(i - 1).drop_first() =~= s.skip(i));
        assert(utf8_len_of(s.skip(i - 1)) == char_utf8_len(s[i - 1]) + utf8_len_of(s.skip(i)));
        assert(utf16_len_of(s.skip(i - 1)) == char_utf16_len(s[i - 1]) + utf16_len_of(s.skip(i)));
    }
}

/// Each character costs at least one unit in either encoding.
pub proof fn lemma_len_bounds(s: Seq<char>)
    ensures
        s.len() <= utf8_len_of(s) <= 4 * s.len(),
        s.len() <= utf16_len_of(s) <= 2 * s.len(),
    decreases s.len(),
{
    if s.len() > 0 {
        lemma_len_bounds(s.drop_first());
    }
}

/// The characters of a text, in order.
pub fn chars_vec(s: &str) -> (r: Vec<char>)
    ensures
        r@ == s@,
{
    let n = s.unicode_len();
    let mut out: Vec<char> = Vec::new();
    let mut i: usize = 0;
    while i < n
        invariant
            0 <= i <= n,
            n == s@.len(),
            out@ == s@.take(i as int),
        decreases n - i,
    {
        out.push(s.get_char(i));
        proof {
            assert(out@ =~= s@.take(i + 1));
        }
        i = i + 1;
    }
    proof {
        assert(s@.take(n as int) =~= s@);
    }
    out
}

/// The text submitted for one synthesis call: every fragment's wide text
/// followed by one separating blank.
pub open spec fn joined_fragments(frags: Seq<Seq<u16>>) -> Seq<u16>
    decreases frags.len(),
{
    if frags.len() == 0 {
        Seq::empty()
    } else {
        frags[0] + seq![32u16] + joined_fragments(frags.drop_first())
    }
}

/// Concatenates the fragments of one synthesis call, a blank after each.
pub fn concat_fragments(frags: &Vec<Vec<u16>>) -> (r: Vec<u16>)
    ensures
        r@ == joined_fragments(frags.deep_view()),
{
    let ghost whole = frags.deep_view();
    let mut out: Vec<u16> = Vec::new();
    let mut i: usize = 0;
    proof {
        assert(whole.skip(0) =~= whole);
    }
    while i < frags.len()
        invariant
            0 <= i <= frags@.len(),
            whole == frags.deep_view(),
            whole.len() == frags@.len(),
            forall|j: int| 0 <= j < frags@.len() ==> #[trigger] frags@[j]@ == whole[j],
            out@ + joined_fragments(whole.skip(i as int)) == joined_fragments(whole),
        decreases frags@.len() - i,
    {
        let ghost rest = whole.skip(i as int);
        let ghost pre = out@;
        proof {
            assert(rest[0] == whole[i as int]);
            assert(rest.drop_first() =~= whole.skip(i + 1));
            assert(joined_fragments(rest) == whole[i as int] + seq![32u16] + joined_fragments(
                whole.skip(i + 1),
            ));
        }
        let frag = &frags[i];
        let mut k: usize = 0;
        while k < frag.len()
            invariant
                0 <= k <= frag@.len(),
                out@ == pre + frag@.take(k as int),
            decreases frag@.len() - k,
        {
            out.push(frag[k]);
            proof {
                assert(out@ =~= pre + frag@.take(k + 1));
            }
            k = k + 1;
        }
        out.push(32);
        proof {
            assert(frag@.take(frag@.len() as int) =~= frag@);
            assert(out@ =~= pre + whole[i as int] + seq![32u16]);
            assert(out@ + joined_fragments(whole.skip(i + 1)) =~= pre + joined_fragments(rest));
        }
        i = i + 1;
    }
    proof {
        assert(whole.skip(whole.len() as int) =~= Seq::<Seq<u16>>::empty());
        assert(out@ =~= out@ + joined_fragments(whole.skip(whole.len() as int)));
    }
    out
}

/// The wide text a range `[start, end]` covers, both bounds inclusive.
pub fn range_text(text: &Vec<u16>, start: usize, end: usize) -> (r: Vec<u16>)
    requires
        start <= end < text@.len(),
    ensures
        r@ == text@.subrange(start as int, end + 1),
{
    let n = text.len();
    let mut out: Vec<u16> = Vec::new();
    let mut i: usize = start;
    while i <= end
        invariant
            start <= i <= end + 1,
            end < n == text@.len(),
            out@ == text@.subrange(start as int, i as int),
        decreases end + 1 - i,
    {
        out.push(text[i]);
        proof {
            assert(out@ =~= text@.subrange(start as int, i + 1));
        }
        i = i + 1;
    }
    out
}

/// The wide-encoding units of one character: the unit itself for a
/// basic-plane character, a surrogate pair for the rest.
pub open spec fn char_utf16_units(c: char) -> Seq<u16> {
    if (c as u32) < 0x10000 {
        seq![(c as u32) as u16]
    } else {
        seq![
            (0xD800 + ((c as u32) - 0x10000) / 0x400) as u16,
            (0xDC00 + ((c as u32) - 0x10000) % 0x400) as u16,
        ]
    }
}

/// The wide encoding of a character sequence.
pub open spec fn utf16_encode(s: Seq<char>) -> Seq<u16>
    decreases s.len(),
{
    if s.len() == 0 {
        Seq::empty()
    } else {
        char_utf16_units(s[0]) + utf16_encode(s.drop_first())
    }
}

/// Appending one character appends exactly its own units.
pub proof fn lemma_utf16_encode_push(s: Seq<char>, c: char)
    ensures
        utf16_encode(s.push(c)) == utf16_encode(s) + char_utf16_units(c),
    decreases s.len(),
{
    if s.len() == 0 {
        assert(s.push(c).drop_first() =~= Seq::<char>::empty());
        assert(s.push(c)[0] == c);
        assert(utf16_encode(Seq::<char>::empty()) =~= Seq::<u16>::empty());
        assert(utf16_encode(s.push(c).drop_first()) =~= Seq::<u16>::empty());
        assert(utf16_encode(s.push(c)) =~= char_utf16_units(c));
        assert(utf16_encode(s) + char_utf16_units(c) =~= char_utf16_units(c));
    } else {
        assert(s.push(c).drop_first() =~= s.drop_first().push(c));
        assert(s.push(c)[0] == s[0]);
        lemma_utf16_encode_push(s.drop_first(), c);
        assert(utf16_encode(s.push(c)) =~= utf16_encode(s) + char_utf16_units(c));
    }
}

/// Encodes text as wide characters with one trailing terminator, as handed
/// to the host's wide-string interfaces.
pub fn to_utf16(s: &str) -> (r: Vec<u16>)
    ensures
        r@ == utf16_encode(s@).push(0u16),
{
    let n = s.unicode_len();
    let mut out: Vec<u16> = Vec::new();
    let mut i: usize = 0;
    proof {
        assert(s@.take(0) =~= Seq::<char>::empty());
    }
    while i < n
        invariant
            0 <= i <= n,
            n == s@.len(),
            out@ == utf16_encode(s@.take(i as int)),
        decreases n - i,
    {
        let c = s.get_char(i);
        let cu = c as u32;
        proof {
            assert(s@.take(i + 1) =~= s@.take(i as int).push(s@[i as int]));
            lemma_utf16_encode_push(s@.take(i as int), s@[i as int]);
        }
        if cu < 0x10000 {
            out.push(cu as u16);
            proof {
                assert(out@ =~= utf16_encode(s@.take(i as int)) + char_utf16_units(c));
            }
        } else {
            let v = cu - 0x10000;
            out.push((0xD800 + v / 0x400) as u16);
            out.push((0xDC00 + v % 0x400) as u16);
            proof {
                assert(out@ =~= utf16_encode(s@.take(i as int)) + char_utf16_units(c));
            }
        }
        i = i + 1;
    }
    proof {
        assert(s@.take(n as int) =~= s@);
    }
    out.push(0);
    out
}

} // verus!
