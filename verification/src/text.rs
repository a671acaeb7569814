//! Text helpers: building strings and ordering them.
use vstd::prelude::*;
use vstd::string::*;

verus! {

/// `String::push`: appends one character.
#[verifier::external_body]
pub(crate) fn push_char(s: &mut String, c: char)
    ensures
        final(s)@ == old(s)@.push(c),
{
    s.push(c);
}

/// The order in which `String`s compare: character by character, by code
/// point, a proper prefix before the longer text. (`String` compares its
/// UTF-8 bytes, and UTF-8 keeps the order of code points.)
pub open spec fn text_lt(a: Seq<char>, b: Seq<char>) -> bool
    decreases a.len(),
{
    if b.len() == 0 {
        false
    } else if a.len() == 0 {
        true
    } else if a[0] != b[0] {
        a[0] < b[0]
    } else {
        text_lt(a.drop_first(), b.drop_first())
    }
}

pub(crate) proof fn lemma_text_lt_irreflexive(a: Seq<char>)
    ensures
        !text_lt(a, a),
    decreases a.len(),
{
    if a.len() > 0 {
        lemma_text_lt_irreflexive(a.drop_first());
    }
}

pub(crate) proof fn lemma_text_lt_transitive(a: Seq<char>, b: Seq<char>, c: Seq<char>)
    requires
        text_lt(a, b),
        text_lt(b, c),
    ensures
        text_lt(a, c),
    decreases a.len(),
{
    if a.len() > 0 && a[0] == b[0] && b[0] == c[0] {
        lemma_text_lt_transitive(a.drop_first(), b.drop_first(), c.drop_first());
    }
}

pub(crate) proof fn lemma_text_lt_total(a: Seq<char>, b: Seq<char>)
    ensures
        a == b || text_lt(a, b) || text_lt(b, a),
    decreases a.len(),
{
    if a.len() > 0 && b.len() > 0 && a[0] == b[0] {
        lemma_text_lt_total(a.drop_first(), b.drop_first());
        if a.drop_first() == b.drop_first() {
            assert(a =~= seq![a[0]] + a.drop_first());
            assert(b =~= seq![b[0]] + b.drop_first());
        }
    } else if a.len() == 0 && b.len() == 0 {
        assert(a =~= b);
    }
}

/// The texts of a vector of strings.
pub open spec fn texts(v: Seq<String>) -> Seq<Seq<char>> {
    v.map_values(|s: String| s@)
}

/// itertools' `sorted`, collected into a vector: the same strings, in
/// ascending order (the sort is `slice::sort`, stable, on `String`'s `Ord`).
#[verifier::external_body]
pub(crate) fn sort_texts(items: Vec<String>) -> (r: Vec<String>)
    ensures
        texts(r@).to_multiset() == texts(items@).to_multiset(),
        forall|i: int, j: int| 0 <= i < j < r@.len() ==> !text_lt(r@[j]@, r@[i]@),
{
    itertools::sorted(items).collect()
}

/// `s` with every occurrence of `pat` taken out, scanning from the left, as
/// `str::replace(s, pat, "")` does (matches do not overlap; an empty pattern
/// takes nothing out).
pub open spec fn without_pattern(s: Seq<char>, pat: Seq<char>) -> Seq<char>
    decreases s.len(),
{
    if s.len() == 0 {
        s
    } else if 0 < pat.len() <= s.len() && s.take(pat.len() as int) == pat {
        without_pattern(s.skip(pat.len() as int), pat)
    } else {
        seq![s[0]] + without_pattern(s.drop_first(), pat)
    }
}

fn occurs_at(s: &str, pat: &str, i: usize, n: usize, m: usize) -> (r: bool)
    requires
        n == s@.len(),
        m == pat@.len(),
        i <= n,
    ensures
        r == (0 < m && i + m <= n && s@.subrange(i as int, i + m) == pat@),
{
    if m == 0 || m > n - i {
        return false;
    }
    let mut j: usize = 0;
    while j < m
        invariant
            0 < m <= n - i,
            n == s@.len(),
            m == pat@.len(),
            j <= m,
            forall|k: int| 0 <= k < j ==> s@[i + k] == pat@[k],
        decreases m - j,
    {
        if s.get_char(i + j) != pat.get_char(j) {
            assert(s@.subrange(i as int, i + m)[j as int] != pat@[j as int]);
            return false;
        }
        j = j + 1;
    }
    assert(s@.subrange(i as int, i + m) =~= pat@);
    true
}

/// `str::replace(s, pat, "")`: `s` with every occurrence of `pat` removed.
pub fn remove_all(s: &str, pat: &str) -> (r: String)
    ensures
        r@ == without_pattern(s@, pat@),
{
    let n = s.unicode_len();
    let m = pat.unicode_len();
    let mut r = String::new();
    let mut i: usize = 0;
    assert(s@.skip(0) =~= s@);
    while i < n
        invariant
            i <= n,
            n == s@.len(),
            m == pat@.len(),
            r@ + without_pattern(s@.skip(i as int), pat@) == without_pattern(s@, pat@),
        decreases n - i,
    {
        let rest = Ghost(s@.skip(i as int));
        if occurs_at(s, pat, i, n, m) {
            assert(rest@.take(m as int) =~= s@.subrange(i as int, i + m));
            assert(rest@.skip(m as int) =~= s@.skip(i + m));
            i = i + m;
        } else {
            assert(!(0 < pat@.len() <= rest@.len() && rest@.take(m as int) == pat@)) by {
                if 0 < pat@.len() <= rest@.len() {
                    assert(rest@.take(m as int) =~= s@.subrange(i as int, i + m));
                }
            }
            assert(rest@.drop_first() =~= s@.skip(i + 1));
            let c = s.get_char(i);
            push_char(&mut r, c);
            assert(r@ + without_pattern(s@.skip(i + 1), pat@) =~= without_pattern(s@, pat@));
            i = i + 1;
        }
    }
    assert(s@.skip(n as int) =~= Seq::<char>::empty());
    assert(r@ =~= r@ + without_pattern(s@.skip(n as int), pat@));
    r
}

/// `pat` occurs somewhere in `s`.
pub open spec fn occurs_in(s: Seq<char>, pat: Seq<char>) -> bool {
    exists|i: int| 0 <= i && i + pat.len() <= s.len() && #[trigger] s.subrange(i, i + pat.len()) == pat
}

/// Text in which the pattern does not occur comes out as it went in: a
/// database URL without the driver suffix is used as written.
pub proof fn law_remove_absent_pattern(s: Seq<char>, pat: Seq<char>)
    requires
        !occurs_in(s, pat),
    ensures
        without_pattern(s, pat) == s,
    decreases s.len(),
{
    if s.len() > 0 {
        if 0 < pat.len() <= s.len() && s.take(pat.len() as int) == pat {
            assert(s.subrange(0, 0int + pat.len()) =~= s.take(pat.len() as int));
            assert(occurs_in(s, pat));
        }
        assert(!occurs_in(s.drop_first(), pat)) by {
            if occurs_in(s.drop_first(), pat) {
                let i = choose|i: int|
                    0 <= i && i + pat.len() <= s.drop_first().len() && #[trigger] s.drop_first().subrange(
                        i,
                        i + pat.len(),
                    ) == pat;
                assert(s.subrange(i + 1, i + 1 + pat.len()) =~= s.drop_first().subrange(
                    i,
                    i + pat.len(),
                ));
            }
        }
        law_remove_absent_pattern(s.drop_first(), pat);
        assert(s =~= seq![s[0]] + s.drop_first());
    }
}

} // verus!
