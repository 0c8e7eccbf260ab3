//! Choosing the output file name: the sanitized title with `.mp4`, given a
//! numeric disambiguation suffix when the plain name is already taken.

use vstd::prelude::*;
use vstd::string::StringExecFns;
use vstd::string::StrSliceExecFns;

verus! {

/// A path inside the directory `dir`: the two joined with a separator,
/// unless the directory part is empty or already ends in one.
pub open spec fn joined(dir: Seq<char>, name: Seq<char>) -> Seq<char> {
    if dir.len() == 0 {
        name
    } else if dir.last() == '/' {
        dir + name
    } else {
        dir + "/"@ + name
    }
}

pub fn join_path(dir: &str, name: &str) -> (r: String)
    ensures
        r@ == joined(dir@, name@),
{
    let n = dir.unicode_len();
    if n == 0 {
        name.to_owned()
    } else {
        let last = dir.get_char(n - 1);
        let mut s = dir.to_owned();
        if last != '/' {
            s.append("/");
        }
        s.append(name);
        s
    }
}

/// The decimal digit character for `d` (meaningful for `d < 10`).
pub open spec fn digit_char(d: nat) -> char {
    if d == 0 {
        '0'
    } else if d == 1 {
        '1'
    } else if d == 2 {
        '2'
    } else if d == 3 {
        '3'
    } else if d == 4 {
        '4'
    } else if d == 5 {
        '5'
    } else if d == 6 {
        '6'
    } else if d == 7 {
        '7'
    } else if d == 8 {
        '8'
    } else {
        '9'
    }
}

/// The value of a decimal digit character (`10` for any other character).
pub open spec fn digit_val(c: char) -> int {
    if c == '0' {
        0
    } else if c == '1' {
        1
    } else if c == '2' {
        2
    } else if c == '3' {
        3
    } else if c == '4' {
        4
    } else if c == '5' {
        5
    } else if c == '6' {
        6
    } else if c == '7' {
        7
    } else if c == '8' {
        8
    } else if c == '9' {
        9
    } else {
        10
    }
}

/// The decimal digits of `n`, most significant first, without leading
/// zeros (except for `n == 0` itself).
pub open spec fn decimal_digits(n: nat) -> Seq<char>
    decreases n,
{
    if n < 10 {
        seq![digit_char(n)]
    } else {
        decimal_digits(n / 10).push(digit_char(n % 10))
    }
}

/// The number a digit string denotes.
pub open spec fn digits_val(s: Seq<char>) -> int
    decreases s.len(),
{
    if s.len() == 0 {
        0
    } else {
        digits_val(s.drop_last()) * 10 + digit_val(s.last())
    }
}

/// Rendering a number and reading it back are inverse, so rendering is
/// injective.
pub proof fn lemma_decimal_digits_val(n: nat)
    ensures
        digits_val(decimal_digits(n)) == n,
        decimal_digits(n).len() >= 1,
    decreases n,
{
    if n < 10 {
        let s = seq![digit_char(n)];
        assert(s.drop_last() =~= Seq::<char>::empty());
        assert(digits_val(Seq::<char>::empty()) == 0);
        assert(digits_val(s) == digit_val(digit_char(n)));
    } else {
        lemma_decimal_digits_val(n / 10);
        let s = decimal_digits(n / 10);
        let c = digit_char(n % 10);
        assert(s.push(c).drop_last() =~= s);
        assert(s.push(c).last() == c);
        vstd::arithmetic::div_mod::lemma_fundamental_div_mod(n as int, 10);
    }
}

pub proof fn lemma_decimal_digits_injective(n1: nat, n2: nat)
    requires
        decimal_digits(n1) == decimal_digits(n2),
    ensures
        n1 == n2,
{
    lemma_decimal_digits_val(n1);
    lemma_decimal_digits_val(n2);
}

fn digit_str(d: u64) -> (r: String)
    requires
        d < 10,
    ensures
        r@ == seq![digit_char(d as nat)],
{
    proof {
        reveal_strlit("0");
        reveal_strlit("1");
        reveal_strlit("2");
        reveal_strlit("3");
        reveal_strlit("4");
        reveal_strlit("5");
        reveal_strlit("6");
        reveal_strlit("7");
        reveal_strlit("8");
        reveal_strlit("9");
    }
    let t: &str = if d == 0 {
        "0"
    } else if d == 1 {
        "1"
    } else if d == 2 {
        "2"
    } else if d == 3 {
        "3"
    } else if d == 4 {
        "4"
    } else if d == 5 {
        "5"
    } else if d == 6 {
        "6"
    } else if d == 7 {
        "7"
    } else if d == 8 {
        "8"
    } else {
        "9"
    };
    let r = t.to_owned();
    proof {
        assert(r@ =~= seq![digit_char(d as nat)]);
    }
    r
}

/// `n` written in decimal.
pub fn decimal_string(n: u64) -> (r: String)
    ensures
        r@ == decimal_digits(n as nat),
    decreases n,
{
    if n < 10 {
        digit_str(n)
    } else {
        let mut s = decimal_string(n / 10);
        let d = digit_str(n % 10);
        s.append(d.as_str());
        proof {
            assert(decimal_digits((n / 10) as nat) + seq![digit_char((n % 10) as nat)]
                =~= decimal_digits((n / 10) as nat).push(digit_char((n % 10) as nat)));
        }
        s
    }
}

/// The candidate output file name with disambiguation count `cnt`:
/// `name.mp4` for zero, `name-cnt.mp4` after that.
pub open spec fn candidate_name(name: Seq<char>, cnt: nat) -> Seq<char> {
    if cnt == 0 {
        name + ".mp4"@
    } else {
        name + "-"@ + decimal_digits(cnt) + ".mp4"@
    }
}

pub fn candidate_filename(video_name: &str, cnt: u64) -> (r: String)
    ensures
        r@ == candidate_name(video_name@, cnt as nat),
{
    let mut s = video_name.to_owned();
    if cnt == 0 {
        s.append(".mp4");
        s
    } else {
        s.append("-");
        let d = decimal_string(cnt);
        s.append(d.as_str());
        s.append(".mp4");
        s
    }
}

/// For one title the candidate names never repeat.
pub proof fn lemma_candidate_name_injective(name: Seq<char>, c1: nat, c2: nat)
    requires
        candidate_name(name, c1) == candidate_name(name, c2),
    ensures
        c1 == c2,
{
    reveal_strlit(".mp4");
    reveal_strlit("-");
    if c1 != 0 {
        lemma_decimal_digits_val(c1);
    }
    if c2 != 0 {
        lemma_decimal_digits_val(c2);
    }
    assert(candidate_name(name, c1).len() == candidate_name(name, c2).len());
    if c1 == 0 && c2 != 0 {
        assert(candidate_name(name, c1).len() == name.len() + 4);
        assert(candidate_name(name, c2).len() == name.len() + 1 + decimal_digits(c2).len() + 4);
    } else if c1 != 0 && c2 == 0 {
        assert(candidate_name(name, c1).len() == name.len() + 1 + decimal_digits(c1).len() + 4);
        assert(candidate_name(name, c2).len() == name.len() + 4);
    } else if c1 != 0 && c2 != 0 {
        let d1 = decimal_digits(c1);
        let d2 = decimal_digits(c2);
        assert(".mp4"@.len() == 4 && "-"@.len() == 1);
        assert(candidate_name(name, c1).len() == name.len() + 1 + d1.len() + 4);
        assert(candidate_name(name, c2).len() == name.len() + 1 + d2.len() + 4);
        assert(d1.len() == d2.len());
        assert(d1 =~= d2) by {
            assert forall|i: int| 0 <= i < d1.len() implies d1[i] == d2[i] by {
                assert(candidate_name(name, c1)[name.len() + 1 + i] == d1[i]);
                assert(candidate_name(name, c2)[name.len() + 1 + i] == d2[i]);
            }
        }
        lemma_decimal_digits_injective(c1, c2);
    }
}

/// Whether some element of `v` has exactly the characters of `x`.
fn contains_string(v: &Vec<String>, x: &String) -> (b: bool)
    ensures
        b == v.deep_view().contains(x@),
{
    let ghost dv = v.deep_view();
    let mut i: usize = 0;
    while i < v.len()
        invariant
            dv == v.deep_view(),
            i <= v.len(),
            dv.len() == v.len(),
            forall|m: int| 0 <= m < i ==> dv[m] != x@,
        decreases v.len() - i,
    {
        if v[i] == *x {
            proof {
                assert(dv[i as int] == x@);
            }
            return true;
        }
        i += 1;
    }
    proof {
        if dv.contains(x@) {
            let w = choose|w: int| 0 <= w < dv.len() && dv[w] == x@;
            assert(dv[w] != x@);
        }
    }
    false
}

/// Among the first `n + 1` candidate names at least one is not among `n`
/// existing names: were all of them taken, more distinct names would be
/// taken than names exist.
proof fn lemma_candidate_available(ex: Seq<Seq<char>>, name: Seq<char>, n: nat)
    requires
        ex.len() == n,
    ensures
        exists|j: nat| j <= n && !ex.contains(candidate_name(name, j)),
{
    broadcast use vstd::seq_lib::seq_to_set_is_finite;
    broadcast use vstd::set::group_set_axioms;

    if exists|j: nat| j <= n && !ex.contains(candidate_name(name, j)) {
        return ;
    }
    assert(forall|j: nat| j <= n ==> ex.contains(candidate_name(name, j)));
    let cands = Seq::new(n + 1, |j: int| candidate_name(name, j as nat));
    assert(cands.no_duplicates()) by {
        assert forall|i: int, j: int|
            0 <= i < cands.len() && 0 <= j < cands.len() && i != j implies cands[i] != cands[j] by {
            if cands[i] == cands[j] {
                lemma_candidate_name_injective(name, i as nat, j as nat);
            }
        }
    }
    cands.unique_seq_to_set();
    ex.lemma_cardinality_of_set();
    assert(cands.to_set().subset_of(ex.to_set())) by {
        assert forall|x: Seq<char>| cands.to_set().contains(x) implies ex.to_set().contains(x) by {
            let j = choose|j: int| 0 <= j < cands.len() && cands[j] == x;
            assert(ex.contains(candidate_name(name, j as nat)));
        }
    }
    vstd::set_lib::lemma_len_subset(cands.to_set(), ex.to_set());
    assert(false);
}

/// The first candidate name, in counting order, that is not among the
/// names already existing in the target directory.  The result never
/// collides with an existing name, and with no existing names it is
/// exactly the plain `name.mp4` candidate.
pub fn generate_unique_filename(existing: &Vec<String>, video_name: &str) -> (r: String)
    ensures
        !existing.deep_view().contains(r@),
        exists|cnt: nat|
            r@ == candidate_name(video_name@, cnt) && (forall|j: nat|
                j < cnt ==> existing.deep_view().contains(candidate_name(video_name@, j))),
{
    let ghost name = video_name@;
    let ghost ex = existing.deep_view();
    let n = existing.len();
    let mut cnt: usize = 0;
    loop
        invariant
            ex == existing.deep_view(),
            name == video_name@,
            ex.len() == n,
            n == existing.len(),
            cnt <= n,
            forall|j: nat| j < cnt ==> ex.contains(candidate_name(name, j)),
        decreases n - cnt,
    {
        let c = candidate_filename(video_name, cnt as u64);
        if !contains_string(existing, &c) {
            proof {
                assert(c@ == candidate_name(name, cnt as nat));
            }
            return c;
        }
        proof {
            assert(ex.contains(candidate_name(name, cnt as nat)));
            if cnt == n {
                lemma_candidate_available(ex, name, n as nat);
                let j = choose|j: nat| j <= n && !ex.contains(candidate_name(name, j));
                assert(ex.contains(candidate_name(name, j)));
            }
        }
        cnt += 1;
    }
}

/// With no existing names, any name the selection rule admits is exactly
/// the plain `name.mp4` candidate.
pub proof fn lemma_unique_name_no_existing(
    existing: Seq<Seq<char>>,
    name: Seq<char>,
    r: Seq<char>,
    cnt: nat,
)
    requires
        existing.len() == 0,
        r == candidate_name(name, cnt),
        forall|j: nat| j < cnt ==> existing.contains(candidate_name(name, j)),
    ensures
        r == candidate_name(name, 0),
{
    if cnt > 0 {
        assert(existing.contains(candidate_name(name, 0)));
    }
}

} // verus!
