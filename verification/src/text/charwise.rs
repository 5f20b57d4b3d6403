//! Texts taken character by character: the words in which laws speak of them.
use crate::text::basic::{
    blank, equal_ignoring_case, first_chars, is_alnum, is_blank, is_digit, is_white, join,
    lower_ascii, pad, same_ignoring_case, strip_head, strip_tail, trim, trim_end, trim_start,
    trimmed, upper_ascii,
};
use crate::text::search::{
    after_first, before_first, begins, begins_with, contains, ends, ends_with, holds, occurs_at,
    replace_all, text_after, text_before, without_prefix, without_suffix,
};
use crate::text::split::{filled, run_until, split, word_len, words};
use vstd::prelude::*;

verus! {

// ---------------------------------------------------------------------------
// Words
// ---------------------------------------------------------------------------

/// Whether the characters of `p` stand in `s`, one after the other, from position `i` on.
pub open spec fn spelled(s: Seq<char>, p: Seq<char>, i: int) -> bool {
    0 <= i && i + p.len() <= s.len() && forall|k: int|
        0 <= k < p.len() ==> s[i + k] == #[trigger] p[k]
}

/// Whether the characters of `p` stand in `s` one after the other.
pub open spec fn somewhere(s: Seq<char>, p: Seq<char>) -> bool {
    exists|i: int| #[trigger] spelled(s, p, i)
}

/// Whether two characters are the same, or the two cases of one letter from A to Z.
pub open spec fn alike_char(a: char, b: char) -> bool {
    ||| a == b
    ||| 65 <= a as int <= 90 && b as int == a as int + 32
    ||| 65 <= b as int <= 90 && a as int == b as int + 32
}

/// Whether two texts have the same characters at the same places but for the case of the letters
/// from A to Z.
pub open spec fn alike(a: Seq<char>, b: Seq<char>) -> bool {
    a.len() == b.len() && forall|i: int| 0 <= i < a.len() ==> alike_char(#[trigger] a[i], b[i])
}

/// Whether the characters of `p` stand in `s` from position `i` on, in whatever case.
pub open spec fn alike_at(s: Seq<char>, p: Seq<char>, i: int) -> bool {
    0 <= i && i + p.len() <= s.len() && forall|k: int|
        0 <= k < p.len() ==> alike_char(s[i + k], #[trigger] p[k])
}

/// Whether a character has no shape: a blank, a tab, the end of a line and the like.
pub open spec fn is_space(c: char) -> bool {
    let n = c as int;
    ||| 9 <= n <= 13
    ||| n == 32
    ||| n == 133
    ||| n == 160
    ||| n == 5760
    ||| 8192 <= n <= 8202
    ||| n == 8232
    ||| n == 8233
    ||| n == 8239
    ||| n == 8287
    ||| n == 12288
}

/// Whether a character is one of the ten digits.
pub open spec fn is_numeral(c: char) -> bool {
    48 <= c as int <= 57
}

/// Whether every character of `s` is a space.
pub open spec fn only_spaces(s: Seq<char>) -> bool {
    forall|i: int| 0 <= i < s.len() ==> is_space(#[trigger] s[i])
}

/// Whether `t` is the part `s[a..b]`, what is around it is spaces, and it neither begins nor ends
/// with one.
pub open spec fn core_at(s: Seq<char>, t: Seq<char>, a: int, b: int) -> bool {
    &&& 0 <= a <= b <= s.len()
    &&& t == s.subrange(a, b)
    &&& forall|i: int| 0 <= i < a || b <= i < s.len() ==> is_space(#[trigger] s[i])
    &&& a < b ==> !is_space(s[a]) && !is_space(s[b - 1])
}

/// Whether `t` is what is left of `s` without the spaces around it.
pub open spec fn is_core(s: Seq<char>, t: Seq<char>) -> bool {
    exists|a: int, b: int| #[trigger] core_at(s, t, a, b)
}

// ---------------------------------------------------------------------------
// Laws on single texts
// ---------------------------------------------------------------------------

/// What counts as white space, as a digit and as a letter or digit.
pub proof fn law_classes(c: char)
    ensures
        is_white(c) == is_space(c),
        is_digit(c) == is_numeral(c),
        is_alnum(c) == (is_numeral(c) || 65 <= c as int <= 90 || 97 <= c as int <= 122),
{
}

/// Two texts are the same ignoring case exactly where they are so character by character.
pub proof fn law_alike(a: Seq<char>, b: Seq<char>)
    ensures
        same_ignoring_case(a, b) == alike(a, b),
        lower_ascii(a).len() == a.len(),
        alike(a, lower_ascii(a)),
        forall|i: int|
            0 <= i < a.len() ==> !(65 <= (#[trigger] lower_ascii(a)[i]) as int <= 90),
{
    let x = lower_ascii(a);
    let y = lower_ascii(b);
    if x == y {
        assert(x.len() == a.len() && y.len() == b.len());
        assert forall|i: int| 0 <= i < a.len() implies alike_char(#[trigger] a[i], b[i]) by {
            assert(x[i] == y[i]);
        }
    }
    if alike(a, b) {
        assert forall|i: int| 0 <= i < x.len() implies x[i] == y[i] by {
            assert(alike_char(a[i], b[i]));
        }
        assert(x =~= y);
    }
}

/// A text stands inside another exactly where its characters do.
pub proof fn law_occurrence(s: Seq<char>, p: Seq<char>, i: int)
    ensures
        occurs_at(s, p, i) == spelled(s, p, i),
{
    if 0 <= i && i + p.len() <= s.len() {
        let t = s.subrange(i, i + p.len());
        if t == p {
            assert forall|k: int| 0 <= k < p.len() implies s[i + k] == #[trigger] p[k] by {
                assert(t[k] == s[i + k]);
            }
        }
        if spelled(s, p, i) {
            assert forall|k: int| 0 <= k < p.len() implies t[k] == p[k] by {
                assert(s[i + k] == p[k]);
            }
            assert(t =~= p);
        }
    }
}

/// Holding, beginning with and ending in a text, by its characters.
pub proof fn law_substring(s: Seq<char>, p: Seq<char>)
    ensures
        holds(s, p) == somewhere(s, p),
        begins(s, p) == spelled(s, p, 0),
        ends(s, p) == spelled(s, p, s.len() - p.len()),
{
    assert forall|i: int| occurs_at(s, p, i) == #[trigger] spelled(s, p, i) by {
        law_occurrence(s, p, i);
    }
    if holds(s, p) {
        let i = choose|i: int| occurs_at(s, p, i);
        assert(spelled(s, p, i));
    }
    if somewhere(s, p) {
        let i = choose|i: int| #[trigger] spelled(s, p, i);
        assert(occurs_at(s, p, i));
    }
    law_occurrence(s, p, 0);
    law_occurrence(s, p, s.len() - p.len());
}

/// A text in lower case holds a word exactly where the text holds it in whatever case, if the word
/// has no capital letter.
pub proof fn law_lower_occurrence(s: Seq<char>, p: Seq<char>, i: int)
    requires
        forall|k: int| 0 <= k < p.len() ==> !(65 <= (#[trigger] p[k]) as int <= 90),
    ensures
        occurs_at(lower_ascii(s), p, i) == alike_at(s, p, i),
{
    let low = lower_ascii(s);
    law_occurrence(low, p, i);
    if 0 <= i && i + p.len() <= s.len() {
        if spelled(low, p, i) {
            assert forall|k: int| 0 <= k < p.len() implies alike_char(s[i + k], #[trigger] p[k]) by {
                assert(low[i + k] == p[k]);
            }
        }
        if alike_at(s, p, i) {
            assert forall|k: int| 0 <= k < p.len() implies low[i + k] == #[trigger] p[k] by {
                assert(alike_char(s[i + k], p[k]));
            }
        }
    }
}

proof fn lemma_trim_start_cuts(s: Seq<char>) -> (a: int)
    ensures
        0 <= a <= s.len(),
        trim_start(s) == s.skip(a),
        forall|i: int| 0 <= i < a ==> is_space(#[trigger] s[i]),
        a < s.len() ==> !is_space(s[a]),
    decreases s.len(),
{
    if s.len() > 0 && is_white(s[0]) {
        let t = s.drop_first();
        let b = lemma_trim_start_cuts(t);
        assert(t.skip(b) =~= s.skip(b + 1));
        assert forall|i: int| 0 <= i < b + 1 implies is_space(#[trigger] s[i]) by {
            if i > 0 {
                assert(s[i] == t[i - 1]);
            }
        }
        if b < t.len() {
            assert(t[b] == s[b + 1]);
        }
        b + 1
    } else {
        assert(s.skip(0) =~= s);
        0
    }
}

proof fn lemma_trim_end_cuts(s: Seq<char>) -> (b: int)
    ensures
        0 <= b <= s.len(),
        trim_end(s) == s.take(b),
        forall|i: int| b <= i < s.len() ==> is_space(#[trigger] s[i]),
        b > 0 ==> !is_space(s[b - 1]),
    decreases s.len(),
{
    if s.len() > 0 && is_white(s.last()) {
        let t = s.drop_last();
        let b = lemma_trim_end_cuts(t);
        assert(t.take(b) =~= s.take(b));
        assert forall|i: int| b <= i < s.len() implies is_space(#[trigger] s[i]) by {
            if i < t.len() {
                assert(s[i] == t[i]);
            }
        }
        if b > 0 {
            assert(t[b - 1] == s[b - 1]);
        }
        b
    } else {
        assert(s.take(s.len() as int) =~= s);
        s.len() as int
    }
}

/// Trimming takes away the spaces around a text and nothing else.
pub proof fn law_trim(s: Seq<char>)
    ensures
        is_core(s, trim(s)),
        blank(s) == only_spaces(s),
        blank(s) == (trim(s).len() == 0),
{
    let a = lemma_trim_start_cuts(s);
    let t = s.skip(a);
    let n = lemma_trim_end_cuts(t);
    let b = a + n;
    assert(t.take(n) =~= s.subrange(a, b));
    assert forall|i: int| 0 <= i < a || b <= i < s.len() implies is_space(#[trigger] s[i]) by {
        if i >= a {
            assert(t[i - a] == s[i]);
        }
    }
    if a < b {
        assert(t[n - 1] == s[b - 1]);
        assert(t[0] == s[a]);
    }
    assert(core_at(s, trim(s), a, b));
    if only_spaces(s) {
        if a < b {
            assert(is_space(s[a]));
        }
    }
}

/// What is left of a text without the spaces around it is one text.
pub proof fn law_core_is_unique(s: Seq<char>, t: Seq<char>)
    ensures
        is_core(s, t) == (t == trim(s)),
{
    law_trim(s);
    if is_core(s, t) {
        let (a, b) = choose|a: int, b: int| #[trigger] core_at(s, t, a, b);
        let (c, d) = choose|c: int, d: int| #[trigger] core_at(s, trim(s), c, d);
        if a < b {
            assert(!is_space(s[a]) && !is_space(s[b - 1]));
            if c >= d {
                assert(is_space(s[a]));
            }
        }
        if c < d {
            assert(!is_space(s[c]) && !is_space(s[d - 1]));
            if a >= b {
                assert(is_space(s[c]));
            }
        }
        assert(t =~= trim(s));
    }
}

/// Stripping takes one character away from an end of a text, as often as it stands there.
pub proof fn law_strip(s: Seq<char>, c: char)
    ensures
        strip_tail(s.push(c), c) == strip_tail(s, c),
        s.len() == 0 || s.last() != c ==> strip_tail(s, c) == s,
        strip_head(seq![c] + s, c) == strip_head(s, c),
        s.len() == 0 || s[0] != c ==> strip_head(s, c) == s,
{
    assert(s.push(c).drop_last() =~= s);
    assert((seq![c] + s).drop_first() =~= s);
}

/// What comes before and after the first occurrence of a text.
pub proof fn law_first_occurrence(s: Seq<char>, p: Seq<char>)
    ensures
        match after_first(s, p) {
            Some(rest) => exists|i: int| #[trigger]
                spelled(s, p, i) && (forall|j: int| 0 <= j < i ==> !#[trigger] spelled(s, p, j))
                    && rest == s.skip(i + p.len()) && before_first(s, p) == s.take(i),
            None => !somewhere(s, p) && before_first(s, p) == s,
        },
    decreases s.len(),
{
    law_occurrence(s, p, 0);
    if begins(s, p) {
        assert(s.take(0) =~= Seq::<char>::empty());
        assert(spelled(s, p, 0));
    } else if s.len() > 0 {
        let t = s.drop_first();
        law_first_occurrence(t, p);
        assert forall|j: int| 0 <= j implies #[trigger] spelled(s, p, j + 1) == spelled(t, p, j) by {
            if j + p.len() <= t.len() {
                if spelled(s, p, j + 1) {
                    assert forall|k: int| 0 <= k < p.len() implies t[j + k] == #[trigger] p[k] by {
                        assert(s[j + 1 + k] == p[k]);
                    }
                }
                if spelled(t, p, j) {
                    assert forall|k: int| 0 <= k < p.len() implies s[j + 1 + k] == #[trigger] p[k] by {
                        assert(t[j + k] == p[k]);
                    }
                }
            }
        }
        match after_first(t, p) {
            Some(rest) => {
                let i = choose|i: int| #[trigger]
                    spelled(t, p, i) && (forall|j: int|
                        0 <= j < i ==> !#[trigger] spelled(t, p, j)) && rest == t.skip(i + p.len())
                        && before_first(t, p) == t.take(i);
                assert(spelled(s, p, i + 1));
                assert forall|j: int| 0 <= j < i + 1 implies !#[trigger] spelled(s, p, j) by {
                    if j > 0 {
                        assert(spelled(s, p, (j - 1) + 1) == spelled(t, p, j - 1));
                    }
                }
                assert(t.skip(i + p.len()) =~= s.skip(i + 1 + p.len()));
                assert(seq![s[0]] + t.take(i) =~= s.take(i + 1));
            },
            None => {
                assert forall|j: int| !#[trigger] spelled(s, p, j) by {
                    if j > 0 {
                        assert(spelled(s, p, (j - 1) + 1) == spelled(t, p, j - 1));
                    }
                }
                assert(seq![s[0]] + t =~= s);
            },
        }
    } else {
        assert forall|j: int| !#[trigger] spelled(s, p, j) by {
            if 0 <= j && j + p.len() <= s.len() {
                assert(j == 0);
            }
        }
    }
}

proof fn lemma_shifted(s: Seq<char>, p: Seq<char>, j: int)
    requires
        s.len() > 0,
        0 <= j,
    ensures
        spelled(s.drop_first(), p, j) == spelled(s, p, j + 1),
{
    let t = s.drop_first();
    if j + p.len() <= t.len() {
        if spelled(s, p, j + 1) {
            assert forall|k: int| 0 <= k < p.len() implies t[j + k] == #[trigger] p[k] by {
                assert(s[j + 1 + k] == p[k]);
            }
        }
        if spelled(t, p, j) {
            assert forall|k: int| 0 <= k < p.len() implies s[j + 1 + k] == #[trigger] p[k] by {
                assert(t[j + k] == p[k]);
            }
        }
    }
}

/// A text that does not hold what is replaced stays as it is.
pub proof fn law_nothing_to_replace(s: Seq<char>, p: Seq<char>, w: Seq<char>)
    requires
        !somewhere(s, p),
    ensures
        replace_all(s, p, w) == s,
    decreases s.len(),
{
    law_occurrence(s, p, 0);
    assert(!spelled(s, p, 0));
    if s.len() > 0 {
        let t = s.drop_first();
        assert forall|j: int| !#[trigger] spelled(t, p, j) by {
            if 0 <= j {
                lemma_shifted(s, p, j);
                assert(!spelled(s, p, j + 1));
            }
        }
        law_nothing_to_replace(t, p, w);
        assert(seq![s[0]] + t =~= s);
    }
}

/// The first occurrence of what is replaced gives way, and what follows it is dealt with in the
/// same way.
pub proof fn law_replace(s: Seq<char>, p: Seq<char>, w: Seq<char>, i: int)
    requires
        p.len() > 0,
        spelled(s, p, i),
        forall|j: int| 0 <= j < i ==> !#[trigger] spelled(s, p, j),
    ensures
        replace_all(s, p, w) == s.take(i) + w + replace_all(s.skip(i + p.len()), p, w),
    decreases i,
{
    law_occurrence(s, p, 0);
    let rest = replace_all(s.skip(i + p.len()), p, w);
    if i == 0 {
        assert(s.take(0) + w =~= w);
    } else {
        assert(!spelled(s, p, 0));
        let t = s.drop_first();
        lemma_shifted(s, p, i - 1);
        assert forall|j: int| 0 <= j < i - 1 implies !#[trigger] spelled(t, p, j) by {
            lemma_shifted(s, p, j);
            assert(!spelled(s, p, j + 1));
        }
        law_replace(t, p, w, i - 1);
        assert(t.skip(i - 1 + p.len()) =~= s.skip(i + p.len()));
        assert(seq![s[0]] + (t.take(i - 1) + w + rest) =~= s.take(i) + w + rest);
    }
}

/// A prefix or suffix that is dropped is one that was there.
pub proof fn law_dropped_ends(s: Seq<char>, p: Seq<char>)
    ensures
        without_prefix(p + s, p) == s,
        !spelled(s, p, 0) ==> without_prefix(s, p) == s,
        without_suffix(s + p, p) == s,
        !spelled(s, p, s.len() - p.len()) ==> without_suffix(s, p) == s,
{
    law_occurrence(s, p, 0);
    law_occurrence(s, p, s.len() - p.len());
    assert((p + s).subrange(0, p.len() as int) =~= p);
    assert((p + s).skip(p.len() as int) =~= s);
    assert((s + p).subrange(s.len() as int, (s.len() + p.len()) as int) =~= p);
    assert((s + p).take(s.len() as int) =~= s);
}

// ---------------------------------------------------------------------------
// Laws on lists of texts
// ---------------------------------------------------------------------------

/// Joining goes part by part, with the separator between neighbours alone.
pub proof fn law_join(a: Seq<Seq<char>>, b: Seq<Seq<char>>, sep: Seq<char>)
    ensures
        join(Seq::empty(), sep) == Seq::<char>::empty(),
        a.len() == 1 ==> join(a, sep) == a[0],
        a.len() > 0 && b.len() > 0 ==> join(a + b, sep) == join(a, sep) + sep + join(b, sep),
    decreases b.len(),
{
    if a.len() > 0 && b.len() > 0 {
        assert((a + b).drop_last() =~= a + b.drop_last());
        assert((a + b).last() == b.last());
        if b.len() == 1 {
            assert(a + b.drop_last() =~= a);
        } else {
            law_join(a, b.drop_last(), sep);
            assert(join(a, sep) + sep + join(b.drop_last(), sep) + sep + b.last() =~= join(a, sep)
                + sep + (join(b.drop_last(), sep) + sep + b.last()));
        }
    }
}

/// A text is cut at every `c`: before the first part ends there is none, and the rest is cut in the
/// same way.
pub proof fn law_split(a: Seq<char>, b: Seq<char>, c: char)
    requires
        !a.contains(c),
    ensures
        split(a, c) == seq![a],
        split(a + seq![c] + b, c) == seq![a] + split(b, c),
{
    lemma_run(a, b, c);
    lemma_run_whole(a, c);
    let s = a + seq![c] + b;
    assert(s.take(a.len() as int) =~= a);
    assert(s.skip(a.len() as int + 1) =~= b);
}

proof fn lemma_run(a: Seq<char>, b: Seq<char>, c: char)
    requires
        !a.contains(c),
    ensures
        run_until(a + seq![c] + b, c) == a.len(),
    decreases a.len(),
{
    let s = a + seq![c] + b;
    if a.len() > 0 {
        assert(a.contains(a[0]));
        let t = a.drop_first();
        assert(s.drop_first() =~= t + seq![c] + b);
        assert(!t.contains(c)) by {
            if t.contains(c) {
                let i = choose|i: int| 0 <= i < t.len() && t[i] == c;
                assert(a[i + 1] == c);
            }
        }
        lemma_run(t, b, c);
    } else {
        assert(s[0] == c);
    }
}

proof fn lemma_run_whole(a: Seq<char>, c: char)
    requires
        !a.contains(c),
    ensures
        run_until(a, c) == a.len(),
    decreases a.len(),
{
    if a.len() > 0 {
        assert(a.contains(a[0]));
        let t = a.drop_first();
        assert(!t.contains(c)) by {
            if t.contains(c) {
                let i = choose|i: int| 0 <= i < t.len() && t[i] == c;
                assert(a[i + 1] == c);
            }
        }
        lemma_run_whole(t, c);
    }
}

/// The words of a text: a space parts them, and what has no space in it is one word.
pub proof fn law_words(w: Seq<char>, c: char, rest: Seq<char>)
    requires
        is_space(c),
        forall|i: int| 0 <= i < w.len() ==> !is_space(#[trigger] w[i]),
    ensures
        words(Seq::empty()) == Seq::<Seq<char>>::empty(),
        w.len() > 0 ==> words(w) == seq![w],
        w.len() > 0 ==> words(w + seq![c] + rest) == seq![w] + words(rest),
        words(seq![c] + rest) == words(rest),
{
    let none = Seq::<char>::empty();
    assert(words(none) =~= Seq::<Seq<char>>::empty());
    let s = seq![c] + rest;
    assert(s.drop_first() =~= rest);
    assert(trim_start(s) == trim_start(rest));
    lemma_words_by_start(s, rest);
    if w.len() > 0 {
        lemma_word(w, none);
        assert(w + none =~= w);
        assert(!is_white(w[0]));
        assert(w.take(w.len() as int) =~= w);
        assert(w.skip(w.len() as int) =~= none);
        assert(words(w) =~= seq![w]);
        let t = w + s;
        assert(t =~= w + seq![c] + rest);
        lemma_word(w, s);
        assert(t[0] == w[0]);
        assert(trim_start(t) == t);
        assert(t.take(w.len() as int) =~= w);
        assert(t.skip(w.len() as int) =~= s);
    }
}

proof fn lemma_words_by_start(a: Seq<char>, b: Seq<char>)
    requires
        trim_start(a) == trim_start(b),
    ensures
        words(a) == words(b),
{
}

proof fn lemma_word(w: Seq<char>, rest: Seq<char>)
    requires
        forall|i: int| 0 <= i < w.len() ==> !is_space(#[trigger] w[i]),
        rest.len() > 0 ==> is_space(rest[0]),
    ensures
        word_len(w + rest) == w.len(),
    decreases w.len(),
{
    let s = w + rest;
    if w.len() > 0 {
        assert(s[0] == w[0] && !is_space(w[0]));
        let t = w.drop_first();
        assert(s.drop_first() =~= t + rest);
        lemma_word(t, rest);
    } else {
        assert(s =~= rest);
    }
}

/// The parts that are kept are the trimmed ones that are not blank, in order.
pub proof fn law_filled(a: Seq<Seq<char>>, b: Seq<Seq<char>>)
    ensures
        filled(a + b) == filled(a) + filled(b),
        a.len() == 0 ==> filled(a) == Seq::<Seq<char>>::empty(),
        a.len() == 1 ==> filled(a) == (if only_spaces(a[0]) {
            Seq::empty()
        } else {
            seq![trim(a[0])]
        }),
    decreases b.len(),
{
    if a.len() == 1 {
        law_trim(a[0]);
        assert(a.drop_last() =~= Seq::<Seq<char>>::empty());
        assert(filled(a.drop_last()) =~= Seq::<Seq<char>>::empty());
        assert(filled(a) =~= (if only_spaces(a[0]) {
            Seq::empty()
        } else {
            seq![trim(a[0])]
        }));
    }
    if b.len() == 0 {
        assert(a + b =~= a);
        assert(filled(a) + filled(b) =~= filled(a));
    } else {
        assert((a + b).drop_last() =~= a + b.drop_last());
        law_filled(a, b.drop_last());
        assert(filled(a + b) =~= filled(a) + filled(b));
    }
}

/// The first characters of a text are its beginning, no more than asked for.
pub proof fn law_first_chars(s: Seq<char>, n: nat)
    ensures
        first_chars(s, n).len() == (if s.len() < n {
            s.len()
        } else {
            n
        }),
        forall|i: int| 0 <= i < first_chars(s, n).len() ==> first_chars(s, n)[i] == s[i],
{
}

/// A padded text keeps its characters and is followed by spaces, up to the width.
pub proof fn law_pad(s: Seq<char>, width: nat)
    ensures
        s.len() >= width ==> pad(s, width) == s,
        s.len() < width ==> pad(s, width).len() == width && pad(s, width).take(s.len() as int) == s
            && forall|i: int| s.len() <= i < width ==> #[trigger] pad(s, width)[i] == ' ',
{
    if s.len() < width {
        assert(pad(s, width).take(s.len() as int) =~= s);
    }
}

proof fn lemma_first_space(s: Seq<char>) -> (k: int)
    ensures
        0 <= k <= s.len(),
        forall|i: int| 0 <= i < k ==> !is_space(#[trigger] s[i]),
        k < s.len() ==> is_space(s[k]),
    decreases s.len(),
{
    if s.len() == 0 || is_space(s[0]) {
        0
    } else {
        let t = s.drop_first();
        let k = lemma_first_space(t);
        assert forall|i: int| 0 <= i < k + 1 implies !is_space(#[trigger] s[i]) by {
            if i > 0 {
                assert(t[i - 1] == s[i]);
            }
        }
        assert(k < t.len() ==> t[k] == s[k + 1]);
        k + 1
    }
}

/// What stands after the last space is the last word.
pub proof fn law_last_word(s: Seq<char>, c: char, w: Seq<char>)
    requires
        is_space(c),
        w.len() > 0,
        forall|i: int| 0 <= i < w.len() ==> !is_space(#[trigger] w[i]),
    ensures
        words(s + seq![c] + w).len() > 0,
        words(s + seq![c] + w).last() == w,
    decreases s.len(),
{
    let all = s + seq![c] + w;
    law_words(w, c, w);
    if s.len() == 0 {
        assert(all =~= seq![c] + w);
    } else {
        let k = lemma_first_space(s);
        if k == 0 {
            let t = s.drop_first();
            law_last_word(t, c, w);
            assert(all =~= seq![s[0]] + (t + seq![c] + w));
            law_words(Seq::empty(), s[0], t + seq![c] + w);
        } else if k < s.len() {
            let u = s.take(k);
            let t = s.skip(k + 1);
            law_last_word(t, c, w);
            assert forall|i: int| 0 <= i < u.len() implies !is_space(#[trigger] u[i]) by {
                assert(u[i] == s[i]);
            }
            assert(all =~= u + seq![s[k]] + (t + seq![c] + w));
            law_words(u, s[k], t + seq![c] + w);
            assert((seq![u] + words(t + seq![c] + w)).last() == words(t + seq![c] + w).last());
        } else {
            law_words(s, c, w);
            assert((seq![s] + words(w)).last() == w);
        }
    }
}

// ---------------------------------------------------------------------------
// Laws on what a call gives
// ---------------------------------------------------------------------------

/// What is left of a text are its characters without the spaces around them, and it is blank where
/// nothing is left.
pub proof fn law_trimmed(s: &str, r: String, empty: bool)
    requires
        call_ensures(trimmed, (s,), r),
        call_ensures(is_blank, (s,), empty),
    ensures
        is_core(s@, r@),
        empty == only_spaces(s@),
        empty == (r@.len() == 0),
{
    law_trim(s@);
}

/// Texts are compared without regard to the case of their letters, and in no other respect loosely.
pub proof fn law_compared(a: &str, b: &str, r: bool)
    requires
        call_ensures(equal_ignoring_case, (a, b), r),
    ensures
        r == alike(a@, b@),
{
    law_alike(a@, b@);
}

/// Whether a text stands in another, at its start or at its end.
pub proof fn law_found_text(s: &str, p: &str, inside: bool, first: bool, last: bool)
    requires
        call_ensures(contains, (s, p), inside),
        call_ensures(begins_with, (s, p), first),
        call_ensures(ends_with, (s, p), last),
    ensures
        inside == somewhere(s@, p@),
        first == spelled(s@, p@, 0),
        last == spelled(s@, p@, s@.len() - p@.len()),
{
    law_substring(s@, p@);
}

/// The text after the first occurrence of another, and the text before it.
pub proof fn law_cut_text(s: &str, p: &str, after: Option<String>, before: String)
    requires
        call_ensures(text_after, (s, p), after),
        call_ensures(text_before, (s, p), before),
    ensures
        after is Some <==> somewhere(s@, p@),
        after matches Some(rest) ==> s@ == before@ + p@ + rest@ && forall|j: int|
            0 <= j < before@.len() ==> !#[trigger] spelled(s@, p@, j),
        after is None ==> before@ == s@,
{
    law_first_occurrence(s@, p@);
    if let Some(rest) = after {
        let i = choose|i: int| #[trigger]
            spelled(s@, p@, i) && (forall|j: int| 0 <= j < i ==> !#[trigger] spelled(s@, p@, j))
                && rest@ == s@.skip(i + p@.len()) && before@ == s@.take(i);
        assert forall|k: int| 0 <= k < p@.len() implies s@[i + k] == p@[k] by {
            assert(s@[i + k] == p@[k]);
        }
        assert(s@ =~= before@ + p@ + rest@);
    }
}

/// Letters from a to z are put in upper case, and nothing else is changed.
pub proof fn law_upper(s: Seq<char>, i: int)
    requires
        0 <= i < s.len(),
    ensures
        upper_ascii(s).len() == s.len(),
        alike(s, upper_ascii(s)),
        !(97 <= upper_ascii(s)[i] as int <= 122),
{
    let t = upper_ascii(s);
    assert forall|k: int| 0 <= k < s.len() implies alike_char(#[trigger] s[k], t[k]) by {}
}

} // verus!
