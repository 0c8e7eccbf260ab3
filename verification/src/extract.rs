//! Locating the media reference inside the fetched page text.
//!
//! The page embeds a script payload that is not valid JSON as a whole, so
//! the title and the two stream URLs are found by scanning for three fixed
//! shallow patterns.  Each scan is all-or-nothing: either the complete
//! pattern occurs and its captured substring (trimmed) is returned, or the
//! scan fails and no partial result is produced.

use vstd::prelude::*;
use crate::text::{
    chars_of, find_char_from, find_pat_from, is_match_at, is_space, matches_at, skip_spaces, trim,
    trim_in_window,
};
use vstd::string::StrSliceExecFns;

verus! {

/// Which of the three patterns was not found.
#[derive(Clone, Copy, Debug, PartialEq, Eq, Structural)]
pub enum ExtractError {
    Title,
    VideoUrl,
    AudioUrl,
}

/// The resolved media reference: all three fields are captured from the
/// page text, or none is (no partial reference is ever built).
#[derive(Debug)]
pub struct MediaReference {
    pub title: String,
    pub video_url: String,
    pub audio_url: String,
}

pub open spec fn title_open() -> Seq<char> {
    "<title"@
}

pub open spec fn title_close() -> Seq<char> {
    "</title>"@
}

pub open spec fn title_suffix() -> Seq<char> {
    "_哔哩哔哩_bilibili"@
}

pub open spec fn video_key() -> Seq<char> {
    "\"video\":"@
}

pub open spec fn audio_key() -> Seq<char> {
    "\"audio\":"@
}

pub open spec fn baseurl_key() -> Seq<char> {
    "\"baseUrl\":\""@
}

/// A complete title pattern in `s`: the tag opener at `i`, its first `>`
/// at `j`, the element text running to the `<` at `k` (where the closing
/// tag stands), ending in the site suffix, with a non-blank part before
/// the suffix.
pub open spec fn title_match(s: Seq<char>, i: int, j: int, k: int) -> bool {
    &&& matches_at(s, title_open(), i)
    &&& i + title_open().len() <= j < s.len()
    &&& s[j] == '>'
    &&& (forall|m: int| i + title_open().len() <= m < j ==> s[m] != '>')
    &&& j < k < s.len()
    &&& s[k] == '<'
    &&& (forall|m: int| j < m < k ==> s[m] != '<')
    &&& matches_at(s, title_close(), k)
    &&& k - (j + 1) > title_suffix().len()
    &&& matches_at(s, title_suffix(), k - title_suffix().len())
    &&& trim(s.subrange(j + 1, k - title_suffix().len())).len() > 0
}

/// What a title pattern with text bounds `j`, `k` captures: the element
/// text before the suffix, trimmed.
pub open spec fn title_capture(s: Seq<char>, j: int, k: int) -> Seq<char> {
    trim(s.subrange(j + 1, k - title_suffix().len()))
}

/// Some complete title pattern occurs in `s`.
pub open spec fn has_title(s: Seq<char>) -> bool {
    exists|i: int, j: int, k: int| title_match(s, i, j, k)
}

/// `t` is the capture of the leftmost complete title pattern of `s`.
pub open spec fn title_result(s: Seq<char>, t: Seq<char>) -> bool {
    exists|i: int, j: int, k: int|
        title_match(s, i, j, k) && t == title_capture(s, j, k) && (forall|
            i2: int,
            j2: int,
            k2: int,
        | title_match(s, i2, j2, k2) ==> i <= i2)
}

/// A complete stream pattern in `s` for `key` (the quoted `video` or
/// `audio` field name with its colon): the key at `i`, then only white
/// space up to the `[` at `a`, then only white space up to the `{` at `b`,
/// then — before any `}` and at the first place it occurs — the quoted
/// `baseUrl` field opener at `q`, whose string value runs to the closing
/// quote at `g` and is non-blank.
pub open spec fn stream_match(
    s: Seq<char>,
    key: Seq<char>,
    i: int,
    a: int,
    b: int,
    q: int,
    g: int,
) -> bool {
    &&& matches_at(s, key, i)
    &&& i + key.len() <= a < s.len()
    &&& s[a] == '['
    &&& (forall|m: int| i + key.len() <= m < a ==> is_space(s[m]))
    &&& a + 1 <= b < s.len()
    &&& s[b] == '{'
    &&& (forall|m: int| a + 1 <= m < b ==> is_space(s[m]))
    &&& b + 1 <= q
    &&& matches_at(s, baseurl_key(), q)
    &&& (forall|m: int| b + 1 <= m < q ==> s[m] != '}')
    &&& (forall|m: int| b + 1 <= m < q ==> !matches_at(s, baseurl_key(), m))
    &&& q + baseurl_key().len() < g < s.len()
    &&& s[g] == '"'
    &&& (forall|m: int| q + baseurl_key().len() <= m < g ==> s[m] != '"')
    &&& trim(s.subrange(q + baseurl_key().len(), g)).len() > 0
}

/// What a stream pattern with value bounds `q`, `g` captures: the quoted
/// string value, trimmed.
pub open spec fn stream_capture(s: Seq<char>, q: int, g: int) -> Seq<char> {
    trim(s.subrange(q + baseurl_key().len(), g))
}

/// Some complete stream pattern for `key` occurs in `s`.
pub open spec fn has_stream_url(s: Seq<char>, key: Seq<char>) -> bool {
    exists|i: int, a: int, b: int, q: int, g: int| stream_match(s, key, i, a, b, q, g)
}

/// `u` is the capture of the leftmost complete stream pattern of `s` for `key`.
pub open spec fn stream_result(s: Seq<char>, key: Seq<char>, u: Seq<char>) -> bool {
    exists|i: int, a: int, b: int, q: int, g: int|
        stream_match(s, key, i, a, b, q, g) && u == stream_capture(s, q, g) && (forall|
            i2: int,
            a2: int,
            b2: int,
            q2: int,
            g2: int,
        | stream_match(s, key, i2, a2, b2, q2, g2) ==> i <= i2)
}

/// The extraction contract pins the title down: any two titles it admits
/// for one page text are the same, because the leftmost complete pattern's
/// positions are forced.
pub proof fn lemma_title_result_unique(s: Seq<char>, t1: Seq<char>, t2: Seq<char>)
    requires
        title_result(s, t1),
        title_result(s, t2),
    ensures
        t1 == t2,
{
    let (i1, j1, k1): (int, int, int) = choose|i: int, j: int, k: int|
        title_match(s, i, j, k) && t1 == title_capture(s, j, k) && (forall|
            i2: int,
            j2: int,
            k2: int,
        | title_match(s, i2, j2, k2) ==> i <= i2);
    let (i2, j2, k2): (int, int, int) = choose|i: int, j: int, k: int|
        title_match(s, i, j, k) && t2 == title_capture(s, j, k) && (forall|
            i3: int,
            j3: int,
            k3: int,
        | title_match(s, i3, j3, k3) ==> i <= i3);
    assert(i1 == i2);
    if j1 < j2 {
        assert(s[j1] != '>');
    } else if j2 < j1 {
        assert(s[j2] != '>');
    }
    if k1 < k2 {
        assert(s[k1] != '<');
    } else if k2 < k1 {
        assert(s[k2] != '<');
    }
}

/// The extraction contract pins each stream URL down: any two URLs it
/// admits for one page text and key are the same.
pub proof fn lemma_stream_result_unique(s: Seq<char>, key: Seq<char>, u1: Seq<char>, u2: Seq<char>)
    requires
        stream_result(s, key, u1),
        stream_result(s, key, u2),
    ensures
        u1 == u2,
{
    let (i1, a1, b1, q1, g1): (int, int, int, int, int) = choose|
        i: int,
        a: int,
        b: int,
        q: int,
        g: int,
    |
        stream_match(s, key, i, a, b, q, g) && u1 == stream_capture(s, q, g) && (forall|
            i2: int,
            a2: int,
            b2: int,
            q2: int,
            g2: int,
        | stream_match(s, key, i2, a2, b2, q2, g2) ==> i <= i2);
    let (i2, a2, b2, q2, g2): (int, int, int, int, int) = choose|
        i: int,
        a: int,
        b: int,
        q: int,
        g: int,
    |
        stream_match(s, key, i, a, b, q, g) && u2 == stream_capture(s, q, g) && (forall|
            i3: int,
            a3: int,
            b3: int,
            q3: int,
            g3: int,
        | stream_match(s, key, i3, a3, b3, q3, g3) ==> i <= i3);
    assert(i1 == i2);
    assert(!is_space('[') && !is_space('{'));
    if a1 < a2 {
        assert(is_space(s[a1]));
    } else if a2 < a1 {
        assert(is_space(s[a2]));
    }
    if b1 < b2 {
        assert(is_space(s[b1]));
    } else if b2 < b1 {
        assert(is_space(s[b2]));
    }
    if q1 < q2 {
        assert(!matches_at(s, baseurl_key(), q1));
    } else if q2 < q1 {
        assert(!matches_at(s, baseurl_key(), q2));
    }
    if g1 < g2 {
        assert(s[g1] != '"');
    } else if g2 < g1 {
        assert(s[g2] != '"');
    }
}

/// The substring of `text` between the character positions `lo` and `hi`,
/// as an owned string.
fn capture_between(text: &str, lo: usize, hi: usize) -> (r: String)
    requires
        lo <= hi <= text@.len(),
    ensures
        r@ == text@.subrange(lo as int, hi as int),
{
    let t = text.substring_char(lo, hi);
    t.to_owned()
}

/// In a complete title pattern starting at `i`, the `>` and `<` positions
/// are forced: they are the first such characters after the opener.
proof fn lemma_jk_forced(s: Seq<char>, i: int, j: int, k: int, j2: int, k2: int)
    requires
        title_match(s, i, j2, k2),
        i + title_open().len() <= j < s.len(),
        s[j] == '>',
        forall|m: int| i + title_open().len() <= m < j ==> s[m] != '>',
        j + 1 <= k < s.len(),
        s[k] == '<',
        forall|m: int| j + 1 <= m < k ==> s[m] != '<',
    ensures
        j2 == j,
        k2 == k,
{
    if j2 < j {
        assert(s[j2] != '>');
    } else if j2 > j {
        assert(s[j] != '>');
    }
    if k2 < k {
        assert(s[k2] != '<');
    } else if k2 > k {
        assert(s[k] != '<');
    }
}

/// Tries to complete a title pattern at the opener `occ`, with `j` the
/// first `>` after the opener and `k` the first `<` after that.
fn try_complete_title(
    text: &str,
    chars: &Vec<char>,
    close_pat: &Vec<char>,
    suffix: &Vec<char>,
    occ: usize,
    j: usize,
    k: usize,
) -> (r: Option<String>)
    requires
        chars@ == text@,
        close_pat@ == title_close(),
        suffix@ == title_suffix(),
        matches_at(text@, title_open(), occ as int),
        occ + title_open().len() <= j < text@.len(),
        text@[j as int] == '>',
        forall|m: int| occ + title_open().len() <= m < j ==> text@[m] != '>',
        j + 1 <= k < text@.len(),
        text@[k as int] == '<',
        forall|m: int| j + 1 <= m < k ==> text@[m] != '<',
    ensures
        match r {
            Some(t) => title_match(text@, occ as int, j as int, k as int) && t@ == title_capture(
                text@,
                j as int,
                k as int,
            ),
            None => forall|j2: int, k2: int| !title_match(text@, occ as int, j2, k2),
        },
{
    let ghost s = text@;
    if !is_match_at(chars, close_pat, k) {
        proof {
            assert forall|j2: int, k2: int| !title_match(s, occ as int, j2, k2) by {
                if title_match(s, occ as int, j2, k2) {
                    lemma_jk_forced(s, occ as int, j as int, k as int, j2, k2);
                }
            }
        }
        return None;
    }
    if k - (j + 1) <= suffix.len() {
        proof {
            assert forall|j2: int, k2: int| !title_match(s, occ as int, j2, k2) by {
                if title_match(s, occ as int, j2, k2) {
                    lemma_jk_forced(s, occ as int, j as int, k as int, j2, k2);
                }
            }
        }
        return None;
    }
    if !is_match_at(chars, suffix, k - suffix.len()) {
        proof {
            assert forall|j2: int, k2: int| !title_match(s, occ as int, j2, k2) by {
                if title_match(s, occ as int, j2, k2) {
                    lemma_jk_forced(s, occ as int, j as int, k as int, j2, k2);
                }
            }
        }
        return None;
    }
    let (lo, hi) = trim_in_window(chars, j + 1, k - suffix.len());
    if lo == hi {
        proof {
            assert forall|j2: int, k2: int| !title_match(s, occ as int, j2, k2) by {
                if title_match(s, occ as int, j2, k2) {
                    lemma_jk_forced(s, occ as int, j as int, k as int, j2, k2);
                    assert(trim(s.subrange(j + 1, k - title_suffix().len())).len() == 0);
                }
            }
        }
        return None;
    }
    proof {
        assert(title_match(s, occ as int, j as int, k as int));
    }
    Some(capture_between(text, lo, hi))
}

fn scan_title(text: &str, chars: &Vec<char>) -> (r: Option<String>)
    requires
        chars@ == text@,
    ensures
        match r {
            Some(t) => title_result(text@, t@),
            None => !has_title(text@),
        },
{
    let ghost s = text@;
    let open_pat = chars_of("<title");
    let close_pat = chars_of("</title>");
    let suffix = chars_of("_哔哩哔哩_bilibili");
    let n = chars.len();
    let mut i: usize = 0;
    loop
        invariant
            s == text@,
            chars@ == s,
            open_pat@ == title_open(),
            close_pat@ == title_close(),
            suffix@ == title_suffix(),
            n == s.len(),
            i <= n,
            forall|i2: int, j2: int, k2: int| i2 < i ==> !title_match(s, i2, j2, k2),
        decreases n - i,
    {
        let occ = find_pat_from(chars, &open_pat, i);
        proof {
            assert forall|i2: int, j2: int, k2: int| i2 < occ implies !title_match(
                s,
                i2,
                j2,
                k2,
            ) by {
                if i <= i2 < occ {
                    assert(!matches_at(s, title_open(), i2));
                }
            }
        }
        if occ == n {
            proof {
                assert forall|i2: int, j2: int, k2: int| !title_match(s, i2, j2, k2) by {
                    if title_match(s, i2, j2, k2) {
                        assert(i2 + title_open().len() <= j2 < s.len());
                    }
                }
            }
            return None;
        }
        let j = find_char_from(chars, occ + open_pat.len(), '>');
        if j == n {
            // no '>' after this opener, so no later candidate completes either
            proof {
                assert forall|i2: int, j2: int, k2: int| !title_match(s, i2, j2, k2) by {
                    if title_match(s, i2, j2, k2) {
                        assert(i2 >= occ);
                        assert(occ + title_open().len() <= j2 < s.len() && s[j2] == '>');
                    }
                }
            }
            return None;
        }
        let k = find_char_from(chars, j + 1, '<');
        if k == n {
            // no '<' after the first possible '>' of any remaining candidate
            proof {
                assert forall|i2: int, j2: int, k2: int| !title_match(s, i2, j2, k2) by {
                    if title_match(s, i2, j2, k2) {
                        assert(i2 >= occ);
                        assert(j2 >= occ + title_open().len() && s[j2] == '>');
                        assert(j2 >= j);
                        assert(k2 > j2 && k2 < s.len() && s[k2] == '<');
                    }
                }
            }
            return None;
        }
        match try_complete_title(text, chars, &close_pat, &suffix, occ, j, k) {
            Some(t) => {
                proof {
                    assert forall|i2: int, j2: int, k2: int|
                        title_match(s, i2, j2, k2) implies occ as int <= i2 by {}
                    assert(title_result(s, t@));
                }
                return Some(t);
            },
            None => {
                i = occ + 1;
            },
        }
    }
}

/// In a complete stream pattern starting at `i`, the `[` and `{` positions
/// are forced: they are the first non-space positions.
proof fn lemma_ab_forced(
    s: Seq<char>,
    kv: Seq<char>,
    i: int,
    a: int,
    b: int,
    a2: int,
    b2: int,
    q2: int,
    g2: int,
)
    requires
        stream_match(s, kv, i, a2, b2, q2, g2),
        i + kv.len() <= a < s.len(),
        s[a] == '[',
        forall|m: int| i + kv.len() <= m < a ==> is_space(s[m]),
        a + 1 <= b < s.len(),
        s[b] == '{',
        forall|m: int| a + 1 <= m < b ==> is_space(s[m]),
    ensures
        a2 == a,
        b2 == b,
{
    assert(!is_space('[') && !is_space('{'));
    if a2 < a {
        assert(is_space(s[a2]));
    } else if a2 > a {
        assert(is_space(s[a]));
    }
    if b2 < b {
        assert(is_space(s[b2]));
    } else if b2 > b {
        assert(is_space(s[b]));
    }
}

/// Scans the brace-free zone beginning at `start` for the first value
/// opener; reports `None` when the zone ends (at a `}` or at the end of
/// the text) before one occurs.
fn scan_zone(chars: &Vec<char>, bkey: &Vec<char>, start: usize) -> (r: Option<usize>)
    requires
        start <= chars.len(),
        bkey@ == baseurl_key(),
    ensures
        match r {
            Some(q) => {
                &&& start <= q
                &&& matches_at(chars@, baseurl_key(), q as int)
                &&& (forall|m: int| start <= m < q ==> chars@[m] != '}')
                &&& (forall|m: int| start <= m < q ==> !matches_at(chars@, baseurl_key(), m))
            },
            None => forall|q: int|
                start <= q && matches_at(chars@, baseurl_key(), q) && (forall|m: int|
                    start <= m < q ==> !matches_at(chars@, baseurl_key(), m)) ==> exists|m: int|
                    start <= m < q && chars@[m] == '}',
        },
{
    let ghost s = chars@;
    proof {
        reveal_strlit("\"baseUrl\":\"");
    }
    let n = chars.len();
    let mut p: usize = start;
    while p < n
        invariant
            chars@ == s,
            bkey@ == baseurl_key(),
            n == s.len(),
            start <= p <= n,
            forall|m: int| start <= m < p ==> s[m] != '}',
            forall|m: int| start <= m < p ==> !matches_at(s, baseurl_key(), m),
        decreases n - p,
    {
        if is_match_at(chars, bkey, p) {
            return Some(p);
        }
        if chars[p] == '}' {
            proof {
                assert forall|q: int|
                    start <= q && matches_at(s, baseurl_key(), q) && (forall|m: int|
                        start <= m < q ==> !matches_at(s, baseurl_key(), m)) implies exists|m: int|
                    start <= m < q && s[m] == '}' by {
                    if q <= p {
                        assert(!matches_at(s, baseurl_key(), q));
                    } else {
                        assert(start <= p < q && s[p as int] == '}');
                    }
                }
            }
            return None;
        }
        p += 1;
    }
    proof {
        assert forall|q: int|
            start <= q && matches_at(s, baseurl_key(), q) && (forall|m: int|
                start <= m < q ==> !matches_at(s, baseurl_key(), m)) implies exists|m: int|
            start <= m < q && s[m] == '}' by {
            assert(q + baseurl_key().len() <= s.len());
            assert(!matches_at(s, baseurl_key(), q));
        }
    }
    None
}

enum StreamAttempt {
    Found(String),
    NoCandidate,
}

fn try_complete_stream(
    text: &str,
    chars: &Vec<char>,
    key: &Vec<char>,
    bkey: &Vec<char>,
    occ: usize,
) -> (r: StreamAttempt)
    requires
        chars@ == text@,
        bkey@ == baseurl_key(),
        occ < text@.len(),
        matches_at(text@, key@, occ as int),
    ensures
        match r {
            StreamAttempt::Found(u) => exists|a: int, b: int, q: int, g: int|
                stream_match(text@, key@, occ as int, a, b, q, g) && u@ == stream_capture(
                    text@,
                    q,
                    g,
                ),
            StreamAttempt::NoCandidate => forall|a2: int, b2: int, q2: int, g2: int|
                !stream_match(text@, key@, occ as int, a2, b2, q2, g2),
        },
{
    let ghost s = text@;
    let ghost kv = key@;
    let n = chars.len();
    let a = skip_spaces(chars, occ + key.len());
    if a == n || !char_eq(chars, a, '[') {
        proof {
            assert forall|a2: int, b2: int, q2: int, g2: int|
                !stream_match(s, kv, occ as int, a2, b2, q2, g2) by {
                if stream_match(s, kv, occ as int, a2, b2, q2, g2) {
                    assert(!is_space('['));
                    if a2 < a {
                        assert(is_space(s[a2]));
                    } else if a2 > a {
                        assert(is_space(s[a as int]));
                        assert(!is_space(s[a as int]));
                    } else {
                        assert(s[a2] == '[');
                    }
                }
            }
        }
        return StreamAttempt::NoCandidate;
    }
    let b = skip_spaces(chars, a + 1);
    if b == n || !char_eq(chars, b, '{') {
        proof {
            assert forall|a2: int, b2: int, q2: int, g2: int|
                !stream_match(s, kv, occ as int, a2, b2, q2, g2) by {
                if stream_match(s, kv, occ as int, a2, b2, q2, g2) {
                    assert(!is_space('[') && !is_space('{'));
                    assert(a2 == a) by {
                        if a2 < a {
                            assert(is_space(s[a2]));
                        } else if a2 > a {
                            assert(is_space(s[a as int]));
                        }
                    }
                    if b2 < b {
                        assert(is_space(s[b2]));
                    } else if b2 > b {
                        assert(is_space(s[b as int]));
                        assert(!is_space(s[b as int]));
                    } else {
                        assert(s[b2] == '{');
                    }
                }
            }
        }
        return StreamAttempt::NoCandidate;
    }
    match scan_zone(chars, bkey, b + 1) {
        None => {
            proof {
                assert forall|a2: int, b2: int, q2: int, g2: int|
                    !stream_match(s, kv, occ as int, a2, b2, q2, g2) by {
                    if stream_match(s, kv, occ as int, a2, b2, q2, g2) {
                        lemma_ab_forced(s, kv, occ as int, a as int, b as int, a2, b2, q2, g2);
                        let m = choose|m: int| b + 1 <= m < q2 && s[m] == '}';
                        assert(s[m] != '}');
                    }
                }
            }
            return StreamAttempt::NoCandidate;
        },
        Some(q) => {
            let vs = q + bkey.len();
            let g = find_char_from(chars, vs, '"');
            if g == n || g == vs {
                proof {
                    assert forall|a2: int, b2: int, q2: int, g2: int|
                        !stream_match(s, kv, occ as int, a2, b2, q2, g2) by {
                        if stream_match(s, kv, occ as int, a2, b2, q2, g2) {
                            lemma_ab_forced(s, kv, occ as int, a as int, b as int, a2, b2, q2, g2);
                            assert(q2 == q) by {
                                if q2 < q {
                                    assert(!matches_at(s, baseurl_key(), q2));
                                } else if q2 > q {
                                    assert(!matches_at(s, baseurl_key(), q as int));
                                }
                            }
                            assert(g2 == g) by {
                                if g2 < g {
                                    assert(s[g2] != '"');
                                } else if g2 > g {
                                    assert(s[g as int] != '"');
                                }
                            }
                        }
                    }
                }
                return StreamAttempt::NoCandidate;
            }
            let (lo, hi) = trim_in_window(chars, vs, g);
            if lo == hi {
                proof {
                    assert forall|a2: int, b2: int, q2: int, g2: int|
                        !stream_match(s, kv, occ as int, a2, b2, q2, g2) by {
                        if stream_match(s, kv, occ as int, a2, b2, q2, g2) {
                            lemma_ab_forced(s, kv, occ as int, a as int, b as int, a2, b2, q2, g2);
                            assert(q2 == q) by {
                                if q2 < q {
                                    assert(!matches_at(s, baseurl_key(), q2));
                                } else if q2 > q {
                                    assert(!matches_at(s, baseurl_key(), q as int));
                                }
                            }
                            assert(g2 == g) by {
                                if g2 < g {
                                    assert(s[g2] != '"');
                                } else if g2 > g {
                                    assert(s[g as int] != '"');
                                }
                            }
                            assert(trim(s.subrange(q + baseurl_key().len(), g as int)).len() == 0);
                        }
                    }
                }
                return StreamAttempt::NoCandidate;
            }
            proof {
                assert(stream_match(s, kv, occ as int, a as int, b as int, q as int, g as int));
            }
            let u = capture_between(text, lo, hi);
            proof {
                assert(u@ == stream_capture(s, q as int, g as int));
            }
            StreamAttempt::Found(u)
        },
    }
}

/// Whether the character at position `i` is `c`.
fn char_eq(chars: &Vec<char>, i: usize, c: char) -> (b: bool)
    requires
        i < chars.len(),
    ensures
        b == (chars@[i as int] == c),
{
    chars[i] == c
}

fn scan_stream_url(text: &str, chars: &Vec<char>, key: &Vec<char>) -> (r: Option<String>)
    requires
        chars@ == text@,
    ensures
        match r {
            Some(u) => stream_result(text@, key@, u@),
            None => !has_stream_url(text@, key@),
        },
{
    let ghost s = text@;
    let ghost kv = key@;
    let bkey = chars_of("\"baseUrl\":\"");
    let n = chars.len();
    let mut i: usize = 0;
    loop
        invariant
            s == text@,
            chars@ == s,
            bkey@ == baseurl_key(),
            kv == key@,
            n == s.len(),
            i <= n,
            forall|i2: int, a2: int, b2: int, q2: int, g2: int|
                i2 < i ==> !stream_match(s, kv, i2, a2, b2, q2, g2),
        decreases n - i,
    {
        let occ = find_pat_from(chars, key, i);
        proof {
            assert forall|i2: int, a2: int, b2: int, q2: int, g2: int|
                i2 < occ implies !stream_match(s, kv, i2, a2, b2, q2, g2) by {
                if i <= i2 < occ {
                    assert(!matches_at(s, kv, i2));
                }
            }
        }
        if occ == n {
            proof {
                assert forall|i2: int, a2: int, b2: int, q2: int, g2: int|
                    !stream_match(s, kv, i2, a2, b2, q2, g2) by {
                    if stream_match(s, kv, i2, a2, b2, q2, g2) {
                        assert(i2 + kv.len() <= a2 < s.len());
                    }
                }
            }
            return None;
        }
        match try_complete_stream(text, chars, key, &bkey, occ) {
            StreamAttempt::Found(u) => {
                proof {
                    assert forall|i2: int, a2: int, b2: int, q2: int, g2: int|
                        stream_match(s, kv, i2, a2, b2, q2, g2) implies occ as int <= i2 by {}
                    assert(stream_result(s, kv, u@));
                }
                return Some(u);
            },
            StreamAttempt::NoCandidate => {
                i = occ + 1;
            },
        }
    }
}

/// The video title captured by the leftmost complete title pattern of the
/// page text, trimmed; fails when no complete title pattern occurs.
pub fn get_video_name(text: &str) -> (r: Result<String, ExtractError>)
    ensures
        match r {
            Ok(t) => title_result(text@, t@),
            Err(e) => !has_title(text@) && e == ExtractError::Title,
        },
{
    let chars = chars_of(text);
    match scan_title(text, &chars) {
        Some(t) => Ok(t),
        None => Err(ExtractError::Title),
    }
}

/// The first video stream URL of the page text: the `baseUrl` value of the
/// first object of the `video` array, trimmed; fails when no complete
/// pattern occurs.
pub fn get_video_baseurl(text: &str) -> (r: Result<String, ExtractError>)
    ensures
        match r {
            Ok(u) => stream_result(text@, video_key(), u@),
            Err(e) => !has_stream_url(text@, video_key()) && e == ExtractError::VideoUrl,
        },
{
    let chars = chars_of(text);
    let key = chars_of("\"video\":");
    match scan_stream_url(text, &chars, &key) {
        Some(u) => Ok(u),
        None => Err(ExtractError::VideoUrl),
    }
}

/// The first audio stream URL of the page text: the `baseUrl` value of the
/// first object of the `audio` array, trimmed; fails when no complete
/// pattern occurs.
pub fn get_audio_baseurl(text: &str) -> (r: Result<String, ExtractError>)
    ensures
        match r {
            Ok(u) => stream_result(text@, audio_key(), u@),
            Err(e) => !has_stream_url(text@, audio_key()) && e == ExtractError::AudioUrl,
        },
{
    let chars = chars_of(text);
    let key = chars_of("\"audio\":");
    match scan_stream_url(text, &chars, &key) {
        Some(u) => Ok(u),
        None => Err(ExtractError::AudioUrl),
    }
}

/// Resolves the whole media reference from the page text, all-or-nothing:
/// it returns a reference exactly when all three patterns occur, and
/// otherwise reports the first pattern (title, then video, then audio)
/// that is missing.
pub fn locate_media(text: &str) -> (r: Result<MediaReference, ExtractError>)
    ensures
        r is Ok <==> has_title(text@) && has_stream_url(text@, video_key()) && has_stream_url(
            text@,
            audio_key(),
        ),
        r matches Ok(m) ==> title_result(text@, m.title@) && stream_result(
            text@,
            video_key(),
            m.video_url@,
        ) && stream_result(text@, audio_key(), m.audio_url@),
        r == Err::<MediaReference, ExtractError>(ExtractError::Title) <==> !has_title(text@),
        r == Err::<MediaReference, ExtractError>(ExtractError::VideoUrl) <==> has_title(text@)
            && !has_stream_url(text@, video_key()),
        r == Err::<MediaReference, ExtractError>(ExtractError::AudioUrl) <==> has_title(text@)
            && has_stream_url(text@, video_key()) && !has_stream_url(text@, audio_key()),
{
    let title = match get_video_name(text) {
        Ok(t) => t,
        Err(e) => {
            return Err(e);
        },
    };
    let video_url = match get_video_baseurl(text) {
        Ok(u) => u,
        Err(e) => {
            return Err(e);
        },
    };
    let audio_url = match get_audio_baseurl(text) {
        Ok(u) => u,
        Err(e) => {
            return Err(e);
        },
    };
    Ok(MediaReference { title, video_url, audio_url })
}

} // verus!
