//! Cutting a text into parts.
use crate::text::basic::{
    chars_of, is_white, string_between, texts, trim, trim_start, trimmed, white,
};
use vstd::prelude::*;

verus! {

/// The number of characters of `s` before the first `c`, or its length where there is none.
pub open spec fn run_until(s: Seq<char>, c: char) -> nat
    decreases s.len(),
{
    if s.len() == 0 || s[0] == c {
        0
    } else {
        1 + run_until(s.drop_first(), c)
    }
}

/// A run ends within the text, at the first `c`.
pub proof fn lemma_run_until(s: Seq<char>, c: char)
    ensures
        run_until(s, c) <= s.len(),
        run_until(s, c) < s.len() ==> s[run_until(s, c) as int] == c,
        forall|i: int| 0 <= i < run_until(s, c) ==> s[i] != c,
    decreases s.len(),
{
    if s.len() > 0 && s[0] != c {
        lemma_run_until(s.drop_first(), c);
        assert forall|i: int| 0 <= i < run_until(s, c) implies s[i] != c by {
            if i > 0 {
                assert(s[i] == s.drop_first()[i - 1]);
            }
        }
    }
}

/// The parts of `s` between the characters `c`.
pub open spec fn split(s: Seq<char>, c: char) -> Seq<Seq<char>>
    decreases s.len(),
{
    let k = run_until(s, c);
    if k >= s.len() {
        seq![s]
    } else {
        seq![s.take(k as int)] + split(s.skip(k as int + 1), c)
    }
}

/// The position of the first `c` in `cs` from `from` on, or the length.
pub fn position_from(cs: &Vec<char>, from: usize, c: char) -> (k: usize)
    requires
        from <= cs@.len(),
    ensures
        from <= k <= cs@.len(),
        k - from == run_until(cs@.skip(from as int), c),
{
    let mut k: usize = from;
    while k < cs.len() && cs[k] != c
        invariant
            from <= k <= cs@.len(),
            run_until(cs@.skip(from as int), c) == (k - from) + run_until(cs@.skip(k as int), c),
        decreases cs@.len() - k,
    {
        assert(cs@.skip(k as int).drop_first() == cs@.skip(k + 1));
        k += 1;
    }
    k
}

/// Cuts `s` at each `c`.
pub fn split_at_char(s: &str, c: char) -> (r: Vec<String>)
    ensures
        texts(r@) == split(s@, c),
        r@.len() >= 1,
{
    let cs = chars_of(s);
    let mut out: Vec<String> = Vec::new();
    let mut i: usize = 0;
    assert(cs@.skip(0) == s@);
    assert(texts(out@) + split(s@, c) =~= split(s@, c));
    loop
        invariant_except_break
            i <= cs@.len(),
            texts(out@) + split(cs@.skip(i as int), c) == split(s@, c),
        ensures
            texts(out@) == split(s@, c),
            out@.len() >= 1,
        decreases cs@.len() - i,
    {
        let k = position_from(&cs, i, c);
        let ghost rest = cs@.skip(i as int);
        let ghost was = texts(out@);
        let part = string_between(&cs, i, k);
        assert(part@ == rest.take(k - i));
        out.push(part);
        assert(texts(out@) =~= was.push(part@));
        if k >= cs.len() {
            assert(part@ == rest);
            break;
        }
        assert(rest.skip((k - i) + 1) == cs@.skip(k + 1));
        assert(split(rest, c) == seq![rest.take(k - i)] + split(rest.skip((k - i) + 1), c));
        assert(texts(out@) + split(cs@.skip(k + 1), c) =~= was + split(rest, c));
        i = k + 1;
    }
    out
}

/// The number of characters of `s` before the first white space.
pub open spec fn word_len(s: Seq<char>) -> nat
    decreases s.len(),
{
    if s.len() == 0 || is_white(s[0]) {
        0
    } else {
        1 + word_len(s.drop_first())
    }
}

/// Dropping leading white space does not lengthen a text.
pub proof fn lemma_trim_start_len(s: Seq<char>)
    ensures
        trim_start(s).len() <= s.len(),
        trim_start(s).len() > 0 ==> !is_white(trim_start(s)[0]),
    decreases s.len(),
{
    if s.len() > 0 && is_white(s[0]) {
        lemma_trim_start_len(s.drop_first());
    }
}

/// A word ends within the text.
pub proof fn lemma_word_len(s: Seq<char>)
    ensures
        word_len(s) <= s.len(),
    decreases s.len(),
{
    if s.len() > 0 && !is_white(s[0]) {
        lemma_word_len(s.drop_first());
    }
}

/// The words of `s`: the runs of characters that are not white space.
pub open spec fn words(s: Seq<char>) -> Seq<Seq<char>>
    decreases s.len(),
    via words_end
{
    let t = trim_start(s);
    if t.len() == 0 {
        Seq::empty()
    } else {
        seq![t.take(word_len(t) as int)] + words(t.skip(word_len(t) as int))
    }
}

#[via_fn]
proof fn words_end(s: Seq<char>) {
    let t = trim_start(s);
    lemma_trim_start_len(s);
    lemma_word_len(t);
}

/// Whether `w` is a word: not empty, and without white space.
pub open spec fn bare(w: Seq<char>) -> bool {
    w.len() > 0 && forall|i: int| 0 <= i < w.len() ==> !is_white(#[trigger] w[i])
}

proof fn lemma_word_is_bare(s: Seq<char>)
    ensures
        forall|i: int| 0 <= i < word_len(s) && i < s.len() ==> !is_white(#[trigger] s[i]),
    decreases s.len(),
{
    if s.len() > 0 && !is_white(s[0]) {
        lemma_word_is_bare(s.drop_first());
        assert forall|i: int| 0 <= i < word_len(s) && i < s.len() implies !is_white(
            #[trigger] s[i],
        ) by {
            if i > 0 {
                assert(s[i] == s.drop_first()[i - 1]);
            }
        }
    }
}

/// No word is empty and none holds white space.
pub proof fn law_words_are_bare(s: Seq<char>)
    ensures
        forall|i: int| 0 <= i < words(s).len() ==> bare(#[trigger] words(s)[i]),
    decreases s.len(),
{
    let t = trim_start(s);
    lemma_trim_start_len(s);
    lemma_word_len(t);
    lemma_word_is_bare(t);
    if t.len() > 0 {
        let rest = t.skip(word_len(t) as int);
        law_words_are_bare(rest);
        assert forall|i: int| 0 <= i < words(s).len() implies bare(#[trigger] words(s)[i]) by {
            if i > 0 {
                assert(words(s)[i] == words(rest)[i - 1]);
            }
        }
    }
}

/// Cuts `s` into its words.
pub fn split_words(s: &str) -> (r: Vec<String>)
    ensures
        texts(r@) == words(s@),
{
    let cs = chars_of(s);
    let n = cs.len();
    let mut out: Vec<String> = Vec::new();
    let mut i: usize = 0;
    assert(cs@.skip(0) == s@);
    assert(texts(out@) + words(s@) =~= words(s@));
    while i < n
        invariant
            n == cs@.len(),
            i <= n,
            texts(out@) + words(cs@.skip(i as int)) == words(s@),
        decreases n - i,
    {
        let ghost rest = cs@.skip(i as int);
        let mut a: usize = i;
        while a < n && white(cs[a])
            invariant
                n == cs@.len(),
                i <= a <= n,
                rest == cs@.skip(i as int),
                trim_start(rest) == trim_start(cs@.skip(a as int)),
            decreases n - a,
        {
            assert(cs@.skip(a as int).drop_first() == cs@.skip(a + 1));
            a += 1;
        }
        let ghost t = cs@.skip(a as int);
        assert(trim_start(rest) == t);
        let mut b: usize = a;
        while b < n && !white(cs[b])
            invariant
                n == cs@.len(),
                a <= b <= n,
                t == cs@.skip(a as int),
                word_len(t) == (b - a) + word_len(cs@.skip(b as int)),
            decreases n - b,
        {
            assert(cs@.skip(b as int).drop_first() == cs@.skip(b + 1));
            b += 1;
        }
        if a < n {
            let w = string_between(&cs, a, b);
            let ghost was = texts(out@);
            assert(w@ == t.take(b - a));
            assert(t.skip(b - a) == cs@.skip(b as int));
            out.push(w);
            assert(texts(out@) =~= was.push(w@));
            assert(words(rest) == seq![w@] + words(cs@.skip(b as int)));
            assert(texts(out@) + words(cs@.skip(b as int)) =~= was + words(rest));
        } else {
            assert(words(rest) =~= Seq::<Seq<char>>::empty());
            assert(words(cs@.skip(b as int)) =~= Seq::<Seq<char>>::empty());
        }
        i = b;
    }
    assert(words(cs@.skip(n as int)) =~= Seq::<Seq<char>>::empty());
    out
}

/// The parts that are not blank, trimmed, in order.
pub open spec fn filled(parts: Seq<Seq<char>>) -> Seq<Seq<char>>
    decreases parts.len(),
{
    if parts.len() == 0 {
        Seq::empty()
    } else {
        let t = trim(parts.last());
        if t.len() == 0 {
            filled(parts.drop_last())
        } else {
            filled(parts.drop_last()).push(t)
        }
    }
}

/// Trims the texts of a list from position `from` on and drops the blank ones.
pub fn keep_filled(parts: &Vec<String>, from: usize) -> (r: Vec<String>)
    requires
        from <= parts@.len(),
    ensures
        texts(r@) == filled(texts(parts@).skip(from as int)),
{
    let mut out: Vec<String> = Vec::new();
    let mut i: usize = from;
    let ghost all = texts(parts@).skip(from as int);
    assert(texts(out@) =~= filled(all.take(0)));
    while i < parts.len()
        invariant
            from <= i <= parts@.len(),
            all == texts(parts@).skip(from as int),
            texts(out@) == filled(all.take(i - from)),
        decreases parts@.len() - i,
    {
        let ghost k: int = i - from;
        assert(all.take(k + 1).drop_last() == all.take(k));
        assert(all.take(k + 1).last() == parts@[i as int]@);
        let t = trimmed(parts[i].as_str());
        if !t.as_str().is_empty() {
            let ghost was = texts(out@);
            out.push(t);
            assert(texts(out@) =~= was.push(t@));
        }
        i += 1;
    }
    assert(all.take(all.len() as int) == all);
    out
}

} // verus!
