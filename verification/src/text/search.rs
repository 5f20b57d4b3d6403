//! Looking for a text inside a text, and replacing it.
use crate::text::basic::{chars_of, opt_text, string_between};
use vstd::prelude::*;

verus! {

/// Whether `p` stands in `s` at position `i`.
pub open spec fn occurs_at(s: Seq<char>, p: Seq<char>, i: int) -> bool {
    0 <= i && i + p.len() <= s.len() && s.subrange(i, i + p.len()) == p
}

/// Whether `p` stands somewhere in `s`.
pub open spec fn holds(s: Seq<char>, p: Seq<char>) -> bool {
    exists|i: int| occurs_at(s, p, i)
}

/// Whether `s` begins with `p`.
pub open spec fn begins(s: Seq<char>, p: Seq<char>) -> bool {
    occurs_at(s, p, 0)
}

/// Whether `s` ends with `p`.
pub open spec fn ends(s: Seq<char>, p: Seq<char>) -> bool {
    occurs_at(s, p, s.len() - p.len())
}

/// Whether `p` stands in `s` at position `i`.
pub fn matches_at(s: &Vec<char>, p: &Vec<char>, i: usize) -> (r: bool)
    requires
        i <= s@.len(),
    ensures
        r == occurs_at(s@, p@, i as int),
{
    let n = s.len();
    if p.len() > n - i {
        return false;
    }
    let mut k: usize = 0;
    while k < p.len()
        invariant
            k <= p@.len(),
            n == s@.len(),
            i + p@.len() <= n,
            forall|j: int| 0 <= j < k ==> s@[i + j] == #[trigger] p@[j],
        decreases p@.len() - k,
    {
        if s[i + k] != p[k] {
            assert(s@.subrange(i as int, i + p@.len())[k as int] != p@[k as int]);
            return false;
        }
        k += 1;
    }
    assert(s@.subrange(i as int, i + p@.len()) == p@);
    true
}

/// The first position from `from` on at which `p` stands in `s`.
pub fn find_from(s: &Vec<char>, p: &Vec<char>, from: usize) -> (r: Option<usize>)
    requires
        from <= s@.len(),
    ensures
        match r {
            Some(i) => from <= i <= s@.len() && occurs_at(s@, p@, i as int) && (forall|j: int|
                from <= j < i ==> !occurs_at(s@, p@, j)),
            None => forall|j: int| from <= j ==> !occurs_at(s@, p@, j),
        },
{
    let mut i: usize = from;
    while i <= s.len()
        invariant
            from <= i <= s@.len() + 1,
            forall|j: int| from <= j < i ==> !occurs_at(s@, p@, j),
        decreases s@.len() + 1 - i,
    {
        if matches_at(s, p, i) {
            return Some(i);
        }
        if i == s.len() {
            assert forall|j: int| from <= j implies !occurs_at(s@, p@, j) by {
                if j > s@.len() {
                }
            }
            return None;
        }
        i += 1;
    }
    None
}

/// Whether `p` stands somewhere in `s`.
pub fn contains(s: &str, p: &str) -> (r: bool)
    ensures
        r == holds(s@, p@),
{
    let a = chars_of(s);
    let b = chars_of(p);
    match find_from(&a, &b, 0) {
        Some(i) => {
            assert(occurs_at(s@, p@, i as int));
            true
        },
        None => {
            assert forall|j: int| !occurs_at(s@, p@, j) by {
                if j >= 0 {
                    assert(!occurs_at(a@, b@, j));
                }
            }
            false
        },
    }
}

/// Whether the character `c` stands somewhere in `s`.
pub fn contains_char(s: &str, c: char) -> (r: bool)
    ensures
        r == s@.contains(c),
{
    let cs = chars_of(s);
    let mut i: usize = 0;
    while i < cs.len()
        invariant
            i <= cs@.len(),
            cs@ == s@,
            forall|j: int| 0 <= j < i ==> cs@[j] != c,
        decreases cs@.len() - i,
    {
        if cs[i] == c {
            assert(s@[i as int] == c);
            return true;
        }
        i += 1;
    }
    false
}

/// Whether `s` begins with `p`.
pub fn begins_with(s: &str, p: &str) -> (r: bool)
    ensures
        r == begins(s@, p@),
{
    let a = chars_of(s);
    let b = chars_of(p);
    matches_at(&a, &b, 0)
}

/// Whether `s` ends with `p`.
pub fn ends_with(s: &str, p: &str) -> (r: bool)
    ensures
        r == ends(s@, p@),
{
    let a = chars_of(s);
    let b = chars_of(p);
    if b.len() > a.len() {
        false
    } else {
        matches_at(&a, &b, a.len() - b.len())
    }
}

/// `s` without the prefix `p`, or `s` itself where it does not begin with `p`.
pub open spec fn without_prefix(s: Seq<char>, p: Seq<char>) -> Seq<char> {
    if begins(s, p) {
        s.skip(p.len() as int)
    } else {
        s
    }
}

/// `s` without the suffix `p`, or `s` itself where it does not end with `p`.
pub open spec fn without_suffix(s: Seq<char>, p: Seq<char>) -> Seq<char> {
    if ends(s, p) {
        s.take(s.len() - p.len())
    } else {
        s
    }
}

/// Drops the prefix `p` where it is there.
pub fn drop_prefix(s: &str, p: &str) -> (r: String)
    ensures
        r@ == without_prefix(s@, p@),
{
    let a = chars_of(s);
    let b = chars_of(p);
    if matches_at(&a, &b, 0) {
        string_between(&a, b.len(), a.len())
    } else {
        s.to_owned()
    }
}

/// Drops the suffix `p` where it is there.
pub fn drop_suffix(s: &str, p: &str) -> (r: String)
    ensures
        r@ == without_suffix(s@, p@),
{
    let a = chars_of(s);
    let b = chars_of(p);
    if b.len() <= a.len() && matches_at(&a, &b, a.len() - b.len()) {
        string_between(&a, 0, a.len() - b.len())
    } else {
        s.to_owned()
    }
}

/// `s` with each occurrence of `p`, from the left and without overlap, replaced by `w`.
pub open spec fn replace_all(s: Seq<char>, p: Seq<char>, w: Seq<char>) -> Seq<char>
    decreases s.len(),
{
    if p.len() == 0 || s.len() == 0 {
        s
    } else if begins(s, p) {
        w + replace_all(s.skip(p.len() as int), p, w)
    } else {
        seq![s[0]] + replace_all(s.drop_first(), p, w)
    }
}

/// Replaces each occurrence of `p` in `s` by `w`.
pub fn replaced(s: &str, p: &str, w: &str) -> (r: String)
    requires
        p@.len() > 0,
    ensures
        r@ == replace_all(s@, p@, w@),
{
    let a = chars_of(s);
    let b = chars_of(p);
    let mut out = String::new();
    let mut i: usize = 0;
    assert(a@.skip(0) == s@);
    while i < a.len()
        invariant
            i <= a@.len(),
            b@ == p@,
            p@.len() > 0,
            out@ + replace_all(a@.skip(i as int), p@, w@) == replace_all(s@, p@, w@),
        decreases a@.len() - i,
    {
        let ghost rest = a@.skip(i as int);
        if matches_at(&a, &b, i) {
            assert(rest.subrange(0, p@.len() as int) == a@.subrange(i as int, i + p@.len()));
            assert(begins(rest, p@));
            assert(rest.skip(p@.len() as int) == a@.skip(i + p@.len()));
            out.append(w);
            i += b.len();
        } else {
            proof {
                if begins(rest, p@) {
                    assert(a@.subrange(i as int, i + p@.len()) == rest.subrange(0, p@.len() as int));
                }
            }
            assert(rest.drop_first() == a@.skip(i + 1));
            let ghost was = out@;
            out.push(a[i]);
            assert(out@ + replace_all(a@.skip(i + 1), p@, w@) == was + (seq![rest[0]]
                + replace_all(rest.drop_first(), p@, w@)));
            i += 1;
        }
    }
    assert(a@.skip(a@.len() as int) == Seq::<char>::empty());
    out
}

/// What follows the first `p` in `s`.
pub open spec fn after_first(s: Seq<char>, p: Seq<char>) -> Option<Seq<char>>
    decreases s.len(),
{
    if begins(s, p) {
        Some(s.skip(p.len() as int))
    } else if s.len() == 0 {
        None
    } else {
        after_first(s.drop_first(), p)
    }
}

/// What stands before the first `p` in `s`, or all of `s` where there is none.
pub open spec fn before_first(s: Seq<char>, p: Seq<char>) -> Seq<char>
    decreases s.len(),
{
    if begins(s, p) {
        Seq::empty()
    } else if s.len() == 0 {
        s
    } else {
        seq![s[0]] + before_first(s.drop_first(), p)
    }
}

proof fn lemma_first(s: Seq<char>, p: Seq<char>, i: int)
    requires
        occurs_at(s, p, i),
        forall|j: int| 0 <= j < i ==> !occurs_at(s, p, j),
    ensures
        after_first(s, p) == Some(s.skip(i + p.len())),
        before_first(s, p) == s.take(i),
    decreases s.len(),
{
    if i == 0 {
        assert(s.take(0) =~= Seq::<char>::empty());
    } else {
        assert(!occurs_at(s, p, 0));
        let t = s.drop_first();
        assert(t.subrange(i - 1, i - 1 + p.len()) =~= s.subrange(i, i + p.len()));
        assert forall|j: int| 0 <= j < i - 1 implies !occurs_at(t, p, j) by {
            assert(!occurs_at(s, p, j + 1));
            if j + p.len() <= t.len() {
                assert(t.subrange(j, j + p.len()) =~= s.subrange(j + 1, j + 1 + p.len()));
            }
        }
        lemma_first(t, p, i - 1);
        assert(t.skip(i - 1 + p.len()) =~= s.skip(i + p.len()));
        assert(seq![s[0]] + t.take(i - 1) =~= s.take(i));
    }
}

proof fn lemma_none(s: Seq<char>, p: Seq<char>)
    requires
        forall|j: int| 0 <= j ==> !occurs_at(s, p, j),
    ensures
        after_first(s, p) is None,
        before_first(s, p) == s,
    decreases s.len(),
{
    assert(!occurs_at(s, p, 0));
    if s.len() > 0 {
        let t = s.drop_first();
        assert forall|j: int| 0 <= j implies !occurs_at(t, p, j) by {
            assert(!occurs_at(s, p, j + 1));
            if j + p.len() <= t.len() {
                assert(t.subrange(j, j + p.len()) =~= s.subrange(j + 1, j + 1 + p.len()));
            }
        }
        lemma_none(t, p);
        assert(seq![s[0]] + t =~= s);
    }
}

/// What follows the first `p` in `s`.
pub fn text_after(s: &str, p: &str) -> (r: Option<String>)
    ensures
        opt_text(r) == after_first(s@, p@),
{
    let a = chars_of(s);
    let b = chars_of(p);
    match find_from(&a, &b, 0) {
        Some(i) => {
            proof {
                lemma_first(s@, p@, i as int);
            }
            let n = a.len();
            assert(i + b@.len() <= n);
            let r = string_between(&a, i + b.len(), n);
            assert(a@.subrange(i + b@.len(), a@.len() as int) =~= s@.skip(i + p@.len()));
            Some(r)
        },
        None => {
            proof {
                lemma_none(s@, p@);
            }
            None
        },
    }
}

/// What stands before the first `p` in `s`.
pub fn text_before(s: &str, p: &str) -> (r: String)
    ensures
        r@ == before_first(s@, p@),
{
    let a = chars_of(s);
    let b = chars_of(p);
    match find_from(&a, &b, 0) {
        Some(i) => {
            proof {
                lemma_first(s@, p@, i as int);
            }
            let r = string_between(&a, 0, i);
            assert(a@.subrange(0, i as int) =~= s@.take(i as int));
            r
        },
        None => {
            proof {
                lemma_none(s@, p@);
            }
            s.to_owned()
        },
    }
}

} // verus!
