//! Character-sequence scanning primitives shared by the extraction and
//! naming logic: whitespace classification, literal matching at a
//! position, first-occurrence searches, and trimming.

use vstd::prelude::*;
use vstd::std_specs::iter::IteratorSpec;
use vstd::string::StrSliceExecFns;

verus! {

/// The Unicode white-space characters (the class that `char::is_whitespace`
/// and the usual `\s` pattern class recognize).
pub open spec fn is_space(c: char) -> bool {
    ||| c == ' '
    ||| c == '\t'
    ||| c == '\n'
    ||| c == '\r'
    ||| c == '\u{000B}'
    ||| c == '\u{000C}'
    ||| c == '\u{0085}'
    ||| c == '\u{00A0}'
    ||| c == '\u{1680}'
    ||| ('\u{2000}' <= c && c <= '\u{200A}')
    ||| c == '\u{2028}'
    ||| c == '\u{2029}'
    ||| c == '\u{202F}'
    ||| c == '\u{205F}'
    ||| c == '\u{3000}'
}

pub fn is_space_char(c: char) -> (b: bool)
    ensures
        b == is_space(c),
{
    c == ' ' || c == '\t' || c == '\n' || c == '\r' || c == '\u{000B}' || c == '\u{000C}'
        || c == '\u{0085}' || c == '\u{00A0}' || c == '\u{1680}' || ('\u{2000}' <= c && c
        <= '\u{200A}') || c == '\u{2028}' || c == '\u{2029}' || c == '\u{202F}' || c == '\u{205F}'
        || c == '\u{3000}'
}

/// The pattern `pat` occurs in `s` starting at position `i`.
pub open spec fn matches_at(s: Seq<char>, pat: Seq<char>, i: int) -> bool {
    0 <= i && i + pat.len() <= s.len() && s.subrange(i, i + pat.len()) == pat
}

pub fn is_match_at(text: &Vec<char>, pat: &Vec<char>, i: usize) -> (b: bool)
    ensures
        b == matches_at(text@, pat@, i as int),
{
    if i > text.len() || text.len() - i < pat.len() {
        return false;
    }
    let mut k: usize = 0;
    while k < pat.len()
        invariant
            i + pat.len() <= text.len(),
            k <= pat.len(),
            forall|m: int| 0 <= m < k ==> text@[i + m] == pat@[m],
        decreases pat.len() - k,
    {
        if text[i + k] != pat[k] {
            proof {
                assert(!matches_at(text@, pat@, i as int)) by {
                    if matches_at(text@, pat@, i as int) {
                        assert(text@.subrange(i as int, i + pat@.len())[k as int] == pat@[k as int]);
                    }
                }
            }
            return false;
        }
        k += 1;
    }
    proof {
        assert(text@.subrange(i as int, i + pat@.len()) =~= pat@);
    }
    true
}

/// The characters of a string, in order, as a vector.
pub fn chars_of(s: &str) -> (r: Vec<char>)
    ensures
        r@ == s@,
{
    broadcast use vstd::string::axiom_spec_iter, vstd::string::next_postcondition;

    let mut it = s.chars();
    let mut v: Vec<char> = Vec::new();
    loop
        invariant
            it.obeys_prophetic_iter_laws(),
            it.decrease() is Some,
            v@ + it.remaining() == s@,
        decreases it.decrease()->0,
    {
        match it.next() {
            Some(c) => {
                v.push(c);
            },
            None => {
                proof {
                    assert(v@ =~= s@);
                }
                return v;
            },
        }
    }
}

/// Index of the first occurrence of `c` in `text` at or after `from`,
/// or `text.len()` if there is none.
pub fn find_char_from(text: &Vec<char>, from: usize, c: char) -> (r: usize)
    requires
        from <= text.len(),
    ensures
        from <= r <= text@.len(),
        forall|m: int| from <= m < r ==> text@[m] != c,
        r < text@.len() ==> text@[r as int] == c,
{
    let mut i: usize = from;
    while i < text.len()
        invariant
            from <= i <= text@.len(),
            forall|m: int| from <= m < i ==> text@[m] != c,
        decreases text@.len() - i,
    {
        if text[i] == c {
            return i;
        }
        i += 1;
    }
    i
}

/// Index of the first position at or after `from` where no character of
/// `text` is white space, or `text.len()` if all the rest are.
pub fn skip_spaces(text: &Vec<char>, from: usize) -> (r: usize)
    requires
        from <= text.len(),
    ensures
        from <= r <= text@.len(),
        forall|m: int| from <= m < r ==> is_space(text@[m]),
        r < text@.len() ==> !is_space(text@[r as int]),
{
    let mut i: usize = from;
    while i < text.len()
        invariant
            from <= i <= text@.len(),
            forall|m: int| from <= m < i ==> is_space(text@[m]),
        decreases text@.len() - i,
    {
        if !is_space_char(text[i]) {
            return i;
        }
        i += 1;
    }
    i
}

/// Index of the first occurrence of `pat` in `text` at or after `from`,
/// or `text.len()` if there is none.
pub fn find_pat_from(text: &Vec<char>, pat: &Vec<char>, from: usize) -> (r: usize)
    requires
        from <= text.len(),
    ensures
        from <= r <= text@.len(),
        forall|m: int| from <= m < r ==> !matches_at(text@, pat@, m),
        r < text@.len() ==> matches_at(text@, pat@, r as int),
{
    let mut i: usize = from;
    while i < text.len()
        invariant
            from <= i <= text@.len(),
            forall|m: int| from <= m < i ==> !matches_at(text@, pat@, m),
        decreases text@.len() - i,
    {
        if is_match_at(text, pat, i) {
            return i;
        }
        i += 1;
    }
    i
}

/// First index at or after `from` that holds a character other than white
/// space, or `s.len()` if there is none.
pub open spec fn first_non_space(s: Seq<char>, from: int) -> int
    decreases s.len() - from,
{
    if from < 0 || from >= s.len() {
        s.len() as int
    } else if !is_space(s[from]) {
        from
    } else {
        first_non_space(s, from + 1)
    }
}

/// One past the last index below `upto` that holds a character other than
/// white space, or `0` if there is none.
pub open spec fn last_non_space(s: Seq<char>, upto: int) -> int
    decreases upto,
{
    if upto <= 0 || upto > s.len() {
        0
    } else if !is_space(s[upto - 1]) {
        upto
    } else {
        last_non_space(s, upto - 1)
    }
}

/// `s` with the white space at both ends removed.
pub open spec fn trim(s: Seq<char>) -> Seq<char> {
    let lo = first_non_space(s, 0);
    let hi = last_non_space(s, s.len() as int);
    if lo < hi {
        s.subrange(lo, hi)
    } else {
        Seq::empty()
    }
}

pub proof fn lemma_first_non_space(s: Seq<char>, from: int)
    requires
        0 <= from <= s.len(),
    ensures
        from <= first_non_space(s, from) <= s.len(),
        forall|m: int| from <= m < first_non_space(s, from) ==> is_space(s[m]),
        first_non_space(s, from) < s.len() ==> !is_space(s[first_non_space(s, from)]),
    decreases s.len() - from,
{
    if from < s.len() && is_space(s[from]) {
        lemma_first_non_space(s, from + 1);
    }
}

pub proof fn lemma_last_non_space(s: Seq<char>, upto: int)
    requires
        0 <= upto <= s.len(),
    ensures
        0 <= last_non_space(s, upto) <= upto,
        forall|m: int| last_non_space(s, upto) <= m < upto ==> is_space(s[m]),
        last_non_space(s, upto) > 0 ==> !is_space(s[last_non_space(s, upto) - 1]),
    decreases upto,
{
    if upto > 0 && is_space(s[upto - 1]) {
        lemma_last_non_space(s, upto - 1);
    }
}

/// Bounds, within `text`, of the trimmed form of the window `[a, b)`:
/// returns `(lo, hi)` with `text@.subrange(lo, hi) == trim(text@.subrange(a, b))`.
pub fn trim_in_window(text: &Vec<char>, a: usize, b: usize) -> (r: (usize, usize))
    requires
        a <= b <= text.len(),
    ensures
        a <= r.0 <= r.1 <= b,
        text@.subrange(r.0 as int, r.1 as int) == trim(text@.subrange(a as int, b as int)),
{
    let ghost sub = text@.subrange(a as int, b as int);
    proof {
        lemma_first_non_space(sub, 0);
        lemma_last_non_space(sub, sub.len() as int);
    }
    let mut lo: usize = a;
    while lo < b && is_space_char(text[lo])
        invariant
            a <= lo <= b <= text.len(),
            forall|m: int| a <= m < lo ==> is_space(text@[m]),
        decreases b - lo,
    {
        lo += 1;
    }
    let mut hi: usize = b;
    while hi > lo && is_space_char(text[hi - 1])
        invariant
            lo <= hi <= b <= text.len(),
            forall|m: int| hi <= m < b ==> is_space(text@[m]),
        decreases hi,
    {
        hi -= 1;
    }
    proof {
        let slo = first_non_space(sub, 0);
        let shi = last_non_space(sub, sub.len() as int);
        assert(forall|m: int| 0 <= m < sub.len() ==> sub[m] == text@[a + m]);
        if lo == b {
            // every character of the window is white space
            assert(slo == sub.len()) by {
                if slo < sub.len() {
                    assert(is_space(text@[a + slo]));
                }
            }
            assert(shi <= slo);
            assert(trim(sub) =~= Seq::<char>::empty());
            assert(text@.subrange(lo as int, hi as int) =~= Seq::<char>::empty());
        } else {
            // lo is the first non-space position of the window
            assert(!is_space(text@[lo as int]));
            assert(slo == lo - a) by {
                if slo < lo - a {
                    assert(is_space(text@[a + slo]));
                    assert(sub[slo] == text@[a + slo]);
                } else if slo > lo - a {
                    assert(is_space(sub[lo - a]));
                }
            }
            assert(hi > lo) by {
                if hi == lo {
                    assert(is_space(text@[lo as int]));
                }
            }
            assert(!is_space(text@[hi - 1]));
            assert(shi == hi - a) by {
                if shi < hi - a {
                    assert(is_space(sub[hi - a - 1]));
                } else if shi > hi - a {
                    assert(is_space(sub[shi - 1]));
                    assert(sub[shi - 1] == text@[a + shi - 1]);
                }
            }
            assert(text@.subrange(lo as int, hi as int) =~= sub.subrange(slo, shi));
        }
    }
    (lo, hi)
}

/// `s` with the white space at both ends removed, as an owned string.
pub fn trim_str(s: &str) -> (r: String)
    ensures
        r@ == trim(s@),
{
    let chars = chars_of(s);
    let (lo, hi) = trim_in_window(&chars, 0, chars.len());
    proof {
        assert(s@.subrange(0, s@.len() as int) =~= s@);
    }
    let t = s.substring_char(lo, hi);
    t.to_owned()
}

} // verus!
