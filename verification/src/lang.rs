//! Approximate matching of language codes such as `"en"` or `"en-US"`.
//!
//! Two codes match when their primary tags (the text before a `-` or `_`
//! separator) are equal, unless both codes carry a separator, in which case
//! the whole codes must be equal.

use vstd::prelude::*;

verus! {

/// Characters that separate a code's primary tag from its region suffix.
pub open spec fn is_code_separator(c: char) -> bool {
    c == '-' || c == '_'
}

/// Index of the first separator in `s`, or `s.len()` when there is none.
pub open spec fn first_separator(s: Seq<char>) -> int
    decreases s.len(),
{
    if s.len() == 0 {
        0
    } else if is_code_separator(s[0]) {
        0
    } else {
        1 + first_separator(s.drop_first())
    }
}

/// Whether `s` carries a region suffix.
pub open spec fn has_separator(s: Seq<char>) -> bool {
    first_separator(s) < s.len()
}

/// The primary tag of a code: everything before the first separator.
pub open spec fn code_prefix(s: Seq<char>) -> Seq<char> {
    s.take(first_separator(s))
}

/// The matching rule: exact equality when both codes are qualified by a
/// region, otherwise equality of the primary tags.
pub open spec fn codes_match(a: Seq<char>, b: Seq<char>) -> bool {
    if has_separator(a) && has_separator(b) {
        a == b
    } else {
        code_prefix(a) == code_prefix(b)
    }
}

pub proof fn lemma_first_separator_bounds(s: Seq<char>)
    ensures
        0 <= first_separator(s) <= s.len(),
        forall|j: int| 0 <= j < first_separator(s) ==> !is_code_separator(s[j]),
        first_separator(s) < s.len() ==> is_code_separator(s[first_separator(s)]),
    decreases s.len(),
{
    if s.len() == 0 {
    } else if is_code_separator(s[0]) {
    } else {
        lemma_first_separator_bounds(s.drop_first());
        assert forall|j: int| 0 <= j < first_separator(s) implies !is_code_separator(s[j]) by {
            if j > 0 {
                assert(s[j] == s.drop_first()[j - 1]);
            }
        }
        if first_separator(s) < s.len() {
            assert(s[first_separator(s)] == s.drop_first()[first_separator(s.drop_first())]);
        }
    }
}

/// The first separator is exactly the first index holding a separator.
pub proof fn lemma_first_separator_is(s: Seq<char>, i: int)
    requires
        0 <= i <= s.len(),
        forall|j: int| 0 <= j < i ==> !is_code_separator(s[j]),
        i < s.len() ==> is_code_separator(s[i]),
    ensures
        first_separator(s) == i,
{
    lemma_first_separator_bounds(s);
    if first_separator(s) < i {
        assert(!is_code_separator(s[first_separator(s)]));
    } else if i < first_separator(s) {
        assert(!is_code_separator(s[i]));
    }
}

/// Index of the first separator character of `s`, or its character length
/// when it has none.
pub fn find_separator(s: &str) -> (r: usize)
    ensures
        r == first_separator(s@),
{
    let n: usize = s.unicode_len();
    let mut i: usize = 0;
    while i < n
        invariant
            0 <= i <= n,
            n == s@.len(),
            forall|j: int| 0 <= j < i ==> !is_code_separator(s@[j]),
        decreases n - i,
    {
        let c = s.get_char(i);
        if c == '-' || c == '_' {
            proof {
                lemma_first_separator_is(s@, i as int);
            }
            return i;
        }
        i = i + 1;
    }
    proof {
        lemma_first_separator_is(s@, n as int);
    }
    n
}

/// Whether the first `a_to` characters of `a` equal the first `b_to`
/// characters of `b`.
fn prefixes_equal(a: &str, a_to: usize, b: &str, b_to: usize) -> (r: bool)
    requires
        a_to <= a@.len(),
        b_to <= b@.len(),
    ensures
        r == (a@.take(a_to as int) == b@.take(b_to as int)),
{
    if a_to != b_to {
        assert(a@.take(a_to as int).len() != b@.take(b_to as int).len());
        return false;
    }
    let mut i: usize = 0;
    while i < a_to
        invariant
            0 <= i <= a_to,
            a_to == b_to,
            a_to <= a@.len(),
            b_to <= b@.len(),
            forall|j: int| 0 <= j < i ==> a@[j] == b@[j],
        decreases a_to - i,
    {
        if a.get_char(i) != b.get_char(i) {
            assert(a@.take(a_to as int)[i as int] != b@.take(b_to as int)[i as int]);
            return false;
        }
        i = i + 1;
    }
    proof {
        assert(a@.take(a_to as int) =~= b@.take(b_to as int));
    }
    true
}

/// Whether two language codes denote the same language under the approximate
/// rule: a request for `"en"` matches a detected `"en-US"`, but `"en-US"`
/// does not match `"en-GB"`.
pub fn equal_language_codes(first: &str, second: &str) -> (r: bool)
    ensures
        r == codes_match(first@, second@),
{
    let first_len: usize = first.unicode_len();
    let second_len: usize = second.unicode_len();
    let first_sep = find_separator(first);
    let second_sep = find_separator(second);
    proof {
        lemma_first_separator_bounds(first@);
        lemma_first_separator_bounds(second@);
    }
    if first_sep < first_len && second_sep < second_len {
        let r = prefixes_equal(first, first_len, second, second_len);
        proof {
            assert(first@.take(first_len as int) =~= first@);
            assert(second@.take(second_len as int) =~= second@);
        }
        r
    } else {
        prefixes_equal(first, first_sep, second, second_sep)
    }
}

/// Whether a list of codes names more than one language: some later entry
/// fails to match the first one.
pub fn has_multiple_languages(languages: &Vec<String>) -> (r: bool)
    ensures
        r == exists|i: int|
            1 <= i < languages@.len() && !codes_match(languages@[0]@, languages@[i]@),
{
    if languages.len() == 0 {
        return false;
    }
    let mut i: usize = 1;
    while i < languages.len()
        invariant
            1 <= i <= languages@.len(),
            forall|j: int| 1 <= j < i ==> codes_match(languages@[0]@, #[trigger] languages@[j]@),
        decreases languages@.len() - i,
    {
        if !equal_language_codes(languages[0].as_str(), languages[i].as_str()) {
            return true;
        }
        i = i + 1;
    }
    false
}

} // verus!
