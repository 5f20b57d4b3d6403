//! Finding the verification code of a mail.
//!
//! A six-digit number next to a word such as "code" is the best evidence. Only where the subject
//! says that the mail carries a code is any number of a plausible length accepted: a ban notice
//! holds order numbers too.
use crate::mail::html::{html_to_text, plain_text};
use crate::text::basic::{
    all_digits, chars_of, digit, is_digit, lower_ascii, lowercase, lowered_chars, opt_text,
    string_of,
};
use crate::text::charwise::{
    alike_at, alike_char, law_lower_occurrence, law_occurrence, law_substring, somewhere, spelled,
};
use crate::text::search::{
    begins, begins_with, contains, contains_char, holds, matches_at, occurs_at,
};
use vstd::prelude::*;
use vstd::slice::slice_subrange;

verus! {

/// How many characters before a keyword are searched for its code.
pub const BEFORE: usize = 24;

/// How many characters after a keyword are searched for its code.
pub const AFTER: usize = 150;

// ---------------------------------------------------------------------------
// Runs of digits
// ---------------------------------------------------------------------------

/// The number of leading digits of `s`.
pub open spec fn digit_run(s: Seq<char>) -> nat
    decreases s.len(),
{
    if s.len() > 0 && is_digit(s[0]) {
        1 + digit_run(s.drop_first())
    } else {
        0
    }
}

/// The leading digits of a text are digits, and what follows them is not one.
pub proof fn lemma_digit_run(s: Seq<char>)
    ensures
        digit_run(s) <= s.len(),
        forall|i: int| 0 <= i < digit_run(s) ==> is_digit(#[trigger] s[i]),
        digit_run(s) < s.len() ==> !is_digit(s[digit_run(s) as int]),
    decreases s.len(),
{
    if s.len() > 0 && is_digit(s[0]) {
        lemma_digit_run(s.drop_first());
        assert forall|i: int| 0 <= i < digit_run(s) implies is_digit(#[trigger] s[i]) by {
            if i > 0 {
                assert(s[i] == s.drop_first()[i - 1]);
            }
        }
    }
}

/// The first whole run of digits of `s` with at least `min` and at most `max` of them.
pub open spec fn first_run(s: Seq<char>, min: nat, max: nat) -> Option<Seq<char>>
    decreases s.len(),
    via first_run_ends
{
    if s.len() == 0 {
        None
    } else if is_digit(s[0]) {
        let n = digit_run(s);
        if min <= n <= max {
            Some(s.take(n as int))
        } else {
            first_run(s.skip(n as int), min, max)
        }
    } else {
        first_run(s.drop_first(), min, max)
    }
}

#[via_fn]
proof fn first_run_ends(s: Seq<char>, min: nat, max: nat) {
    lemma_digit_run(s);
}

/// Whether `s[i..j]` is a whole run of digits: no digit stands before or after it.
pub open spec fn is_run(s: Seq<char>, i: int, j: int) -> bool {
    &&& 0 <= i < j <= s.len()
    &&& forall|k: int| i <= k < j ==> is_digit(#[trigger] s[k])
    &&& i > 0 ==> !is_digit(s[i - 1])
    &&& j < s.len() ==> !is_digit(s[j])
}

/// The first run of digits of `cs` whose length is in `min..=max`.
fn run_of_digits(cs: &[char], min: usize, max: usize) -> (r: Option<String>)
    ensures
        opt_text(r) == first_run(cs@, min as nat, max as nat),
{
    let n = cs.len();
    let mut i: usize = 0;
    assert(cs@.skip(0) == cs@);
    while i < n
        invariant
            i <= n,
            n == cs@.len(),
            first_run(cs@, min as nat, max as nat) == first_run(
                cs@.skip(i as int),
                min as nat,
                max as nat,
            ),
        decreases n - i,
    {
        let ghost rest = cs@.skip(i as int);
        if digit(cs[i]) {
            let st = i;
            while i < n && digit(cs[i])
                invariant
                    st <= i <= n,
                    n == cs@.len(),
                    digit_run(cs@.skip(st as int)) == (i - st) + digit_run(cs@.skip(i as int)),
                decreases n - i,
            {
                assert(cs@.skip(i as int).drop_first() == cs@.skip(i + 1));
                i += 1;
            }
            proof {
                lemma_digit_run(rest);
                assert(digit_run(rest) == i - st);
            }
            if min <= i - st && i - st <= max {
                assert(rest.take(i - st) == cs@.subrange(st as int, i as int));
                return Some(string_of(slice_subrange(cs, st, i)));
            }
            assert(rest.skip(i - st) == cs@.skip(i as int));
        } else {
            assert(rest.drop_first() == cs@.skip(i + 1));
            i += 1;
        }
    }
    None
}

/// The first six-digit number of `s`; a longer number does not hold one.
pub fn first_six_digit(s: &str) -> (r: Option<String>)
    ensures
        opt_text(r) == first_run(s@, 6, 6),
{
    let cs = chars_of(s);
    first_six_chars(cs.as_slice())
}

/// The first six-digit number among the characters `cs`.
fn first_six_chars(cs: &[char]) -> (r: Option<String>)
    ensures
        opt_text(r) == first_run(cs@, 6, 6),
{
    run_of_digits(cs, 6, 6)
}

/// The first number of `s` whose digits number from `min` to `max`.
pub fn token_digits(s: &str, min: usize, max: usize) -> (r: Option<String>)
    ensures
        opt_text(r) == first_run(s@, min as nat, max as nat),
{
    let cs = chars_of(s);
    run_of_digits(cs.as_slice(), min, max)
}

// ---------------------------------------------------------------------------
// Keywords
// ---------------------------------------------------------------------------

/// What is searched around a keyword of length `k` at position `i`.
pub open spec fn around(s: Seq<char>, i: int, k: int) -> Seq<char> {
    let a = if i > BEFORE {
        i - BEFORE
    } else {
        0
    };
    let b = if i + k + AFTER < s.len() {
        i + k + AFTER
    } else {
        s.len() as int
    };
    s.subrange(a, b)
}

/// The six-digit number around the first `word` from position `i` on that has one. Words do not
/// overlap, and letter case does not count.
pub open spec fn near_word(s: Seq<char>, word: Seq<char>, i: int) -> Option<Seq<char>>
    decreases s.len() - i,
{
    if word.len() == 0 || i < 0 || i + word.len() > s.len() {
        None
    } else if occurs_at(lower_ascii(s), word, i) {
        match first_run(around(s, i, word.len() as int), 6, 6) {
            Some(c) => Some(c),
            None => near_word(s, word, i + word.len()),
        }
    } else {
        near_word(s, word, i + 1)
    }
}

/// The words next to which a code is looked for, the most telling first.
pub open spec fn keywords() -> Seq<Seq<char>> {
    seq![
        "verification code"@,
        "verification"@,
        "code"@,
        "验证码"@,
        "校验码"@,
        "验证代码"@,
    ]
}

/// The six-digit number next to the first of `list` that has one.
pub open spec fn near_words(s: Seq<char>, list: Seq<Seq<char>>) -> Option<Seq<char>>
    decreases list.len(),
{
    if list.len() == 0 {
        None
    } else {
        match near_word(s, list[0], 0) {
            Some(c) => Some(c),
            None => near_words(s, list.drop_first()),
        }
    }
}

/// The six-digit number around `word` in `cs`, whose lower case is `lc`.
fn code_near_word(cs: &Vec<char>, lc: &Vec<char>, word: &str) -> (r: Option<String>)
    requires
        lc@ == lower_ascii(cs@),
    ensures
        opt_text(r) == near_word(cs@, word@, 0),
{
    let k = chars_of(word);
    let n = cs.len();
    let w = k.len();
    if w == 0 || n < w {
        return None;
    }
    let mut i: usize = 0;
    while i <= n - w
        invariant
            n == cs@.len(),
            w == k@.len(),
            0 < w <= n,
            k@ == word@,
            lc@ == lower_ascii(cs@),
            i <= n,
            near_word(cs@, word@, 0) == near_word(cs@, word@, i as int),
        decreases n - i,
    {
        if matches_at(lc, &k, i) {
            let a: usize = if i > BEFORE {
                i - BEFORE
            } else {
                0
            };
            let b: usize = if n - w - i > AFTER {
                i + w + AFTER
            } else {
                n
            };
            let found = first_six_chars(slice_subrange(cs.as_slice(), a, b));
            if found.is_some() {
                return found;
            }
            i += w;
        } else {
            i += 1;
        }
    }
    None
}

/// The six-digit number next to a keyword.
pub fn code_near_keyword(text: &str) -> (r: Option<String>)
    ensures
        opt_text(r) == near_words(text@, keywords()),
{
    let cs = chars_of(text);
    let lc = lowered_chars(&cs);
    let list: [&str; 6] = [
        "verification code",
        "verification",
        "code",
        "验证码",
        "校验码",
        "验证代码",
    ];
    let mut i: usize = 0;
    assert(keywords().skip(0) == keywords());
    while i < 6
        invariant
            i <= 6,
            cs@ == text@,
            lc@ == lower_ascii(cs@),
            forall|j: int| 0 <= j < 6 ==> #[trigger] list@[j]@ == keywords()[j],
            near_words(text@, keywords()) == near_words(text@, keywords().skip(i as int)),
        decreases 6 - i,
    {
        assert(list@[i as int]@ == keywords()[i as int]);
        let found = code_near_word(&cs, &lc, list[i]);
        if found.is_some() {
            return found;
        }
        assert(keywords().skip(i as int).drop_first() == keywords().skip(i + 1));
        i += 1;
    }
    None
}

// ---------------------------------------------------------------------------
// The code of a mail
// ---------------------------------------------------------------------------

/// Whether a text in lower case speaks of a code.
pub open spec fn tells_of_code(low: Seq<char>) -> bool {
    ||| holds(low, "verification code"@)
    ||| holds(low, "temporary code"@)
    ||| holds(low, "login code"@)
    ||| holds(low, "one-time code"@)
    ||| holds(low, "your code"@)
    ||| holds(low, "verification"@)
    ||| holds(low, "验证码"@)
    ||| holds(low, "校验码"@)
}

/// Whether a subject or sender says that the mail carries a code.
pub open spec fn speaks_of_code(s: Seq<char>) -> bool {
    tells_of_code(lowercase(s))
}

/// Whether a text in lower case speaks of a code.
pub fn code_mentioned(t: &str) -> (r: bool)
    ensures
        r == tells_of_code(t@),
{
    contains(t, "verification code") || contains(t, "temporary code") || contains(t, "login code")
        || contains(t, "one-time code") || contains(t, "your code") || contains(t, "verification")
        || contains(t, "验证码") || contains(t, "校验码")
}

/// Whether a subject or sender says that the mail carries a code.
pub fn mentions_code(s: &str) -> (r: bool)
    ensures
        r == speaks_of_code(s@),
{
    let low = s.to_lowercase();
    code_mentioned(low.as_str())
}

/// Whether `c` reads as a year of the twentieth or twenty-first century.
pub open spec fn is_year(c: Seq<char>) -> bool {
    begins(c, "19"@) || begins(c, "20"@)
}

/// The first number of five to eight digits, or else the first of four unless it is a year.
pub open spec fn loose_code(s: Seq<char>) -> Option<Seq<char>> {
    match first_run(s, 5, 8) {
        Some(c) => Some(c),
        None => match first_run(s, 4, 4) {
            Some(c) => if is_year(c) {
                None
            } else {
                Some(c)
            },
            None => None,
        },
    }
}

/// The rule by which the mailbox site itself shows a code.
pub fn site_reference_extract(text: &str) -> (r: Option<String>)
    ensures
        opt_text(r) == loose_code(text@),
{
    let found = token_digits(text, 5, 8);
    if found.is_some() {
        return found;
    }
    match token_digits(text, 4, 4) {
        Some(c) => if begins_with(c.as_str(), "19") || begins_with(c.as_str(), "20") {
            None
        } else {
            Some(c)
        },
        None => None,
    }
}

/// The text in which the code of a mail is looked for.
pub open spec fn haystack(subject: Seq<char>, content: Seq<char>) -> Seq<char> {
    subject + " "@ + (if content.contains('<') {
        plain_text(content)
    } else {
        content
    })
}

/// The code of a mail with this subject and content.
pub open spec fn mail_code(subject: Seq<char>, content: Seq<char>) -> Option<Seq<char>> {
    let hay = haystack(subject, content);
    match near_words(hay, keywords()) {
        Some(c) => Some(c),
        None => if speaks_of_code(subject) {
            loose_code(hay)
        } else {
            None
        },
    }
}

/// Finds the code of a mail with this subject and content.
pub fn extract_code_from_text(subject: &str, content: &str) -> (r: Option<String>)
    ensures
        opt_text(r) == mail_code(subject@, content@),
        any_beside(haystack(subject@, content@)) ==> (r matches Some(c) && c@.len() == 6
            && is_nearest(haystack(subject@, content@), c@)),
        !any_beside(haystack(subject@, content@)) && !says_code(lowercase(subject@)) ==> r is None,
{
    proof {
        law_code_of_a_mail(subject@, content@);
    }
    let text = if contains_char(content, '<') {
        html_to_text(content)
    } else {
        content.to_owned()
    };
    let mut hay = subject.to_owned();
    hay.append(" ");
    hay.append(text.as_str());
    let near = code_near_keyword(hay.as_str());
    if near.is_some() {
        return near;
    }
    if mentions_code(subject) {
        site_reference_extract(hay.as_str())
    } else {
        None
    }
}

// ---------------------------------------------------------------------------
// Laws
// ---------------------------------------------------------------------------

/// A found number is the first whole run of digits of a length in `min..=max`, and nothing is
/// found only where there is no such run.
pub proof fn law_first_run(s: Seq<char>, min: nat, max: nat)
    ensures
        match first_run(s, min, max) {
            Some(c) => exists|i: int, j: int| #[trigger]
                is_run(s, i, j) && min <= j - i <= max && c == s.subrange(i, j) && (forall|
                    a: int,
                    b: int,
                | #[trigger]
                    is_run(s, a, b) && min <= b - a <= max ==> i <= a),
            None => forall|a: int, b: int| #[trigger] is_run(s, a, b) ==> !(min <= b - a <= max),
        },
{
    lemma_first_run_from(s, 0, min, max);
    assert(s.skip(0) =~= s);
}

/// What [`law_first_run`] says, of a search that begins at `p`, with no digit right before it.
proof fn lemma_first_run_from(s: Seq<char>, p: int, min: nat, max: nat)
    requires
        0 <= p <= s.len(),
        p > 0 && p < s.len() ==> !is_digit(s[p - 1]) || !is_digit(s[p]),
    ensures
        match first_run(s.skip(p), min, max) {
            Some(c) => exists|i: int, j: int| #[trigger]
                is_run(s, i, j) && p <= i && min <= j - i <= max && c == s.subrange(i, j) && (
                forall|a: int, b: int| #[trigger]
                    is_run(s, a, b) && p <= a && min <= b - a <= max ==> i <= a),
            None => forall|a: int, b: int| #[trigger]
                is_run(s, a, b) && p <= a ==> !(min <= b - a <= max),
        },
    decreases s.len() - p,
{
    let t = s.skip(p);
    lemma_digit_run(t);
    if t.len() == 0 {
    } else if is_digit(t[0]) {
        let n = digit_run(t) as int;
        assert forall|k: int| p <= k < p + n implies is_digit(#[trigger] s[k]) by {
            assert(s[k] == t[k - p]);
        }
        assert(p + n < s.len() ==> s[p + n] == t[n]);
        assert(s[p] == t[0]);
        assert(is_run(s, p, p + n));
        assert forall|a: int, b: int| #[trigger] is_run(s, a, b) && p <= a < p + n implies a == p
            && b == p + n by {
            if a > p {
                assert(is_digit(s[a - 1]));
            }
            if b < p + n {
                assert(is_digit(s[b]));
            }
            if b > p + n {
                assert(is_digit(s[p + n]));
            }
        }
        if min <= n <= max {
            assert(t.take(n) =~= s.subrange(p, p + n));
        } else {
            assert(t.skip(n) =~= s.skip(p + n));
            lemma_first_run_from(s, p + n, min, max);
        }
    } else {
        assert(t.drop_first() =~= s.skip(p + 1));
        assert(s[p] == t[0]);
        lemma_first_run_from(s, p + 1, min, max);
        assert forall|a: int, b: int| #[trigger] is_run(s, a, b) && p <= a implies p + 1 <= a by {
            if a == p {
                assert(is_digit(s[a]));
            }
        }
    }
}

/// A found number is made of digits, has a length in `min..=max` and stands in the text.
pub proof fn lemma_found_run(s: Seq<char>, min: nat, max: nat)
    ensures
        first_run(s, min, max) matches Some(c) ==> all_digits(c) && min <= c.len() <= max && holds(
            s,
            c,
        ),
{
    law_first_run(s, min, max);
    if let Some(c) = first_run(s, min, max) {
        let (i, j) = choose|i: int, j: int| #[trigger]
            is_run(s, i, j) && min <= j - i <= max && c == s.subrange(i, j);
        assert(occurs_at(s, c, i));
        assert forall|k: int| 0 <= k < c.len() implies is_digit(#[trigger] c[k]) by {
            assert(c[k] == s[i + k]);
        }
    }
}

/// Whether `c` can be a code: four to eight digits, and with four no year.
pub open spec fn is_code(c: Seq<char>) -> bool {
    all_digits(c) && 4 <= c.len() <= 8 && (c.len() == 4 ==> !is_year(c))
}

/// The loose rule finds four to eight digits of the text, and no year.
pub proof fn law_loose_code_shape(s: Seq<char>)
    ensures
        loose_code(s) matches Some(c) ==> is_code(c) && holds(s, c),
{
    lemma_found_run(s, 5, 8);
    lemma_found_run(s, 4, 4);
}

proof fn lemma_part(s: Seq<char>, a: int, b: int, c: Seq<char>)
    requires
        0 <= a <= b <= s.len(),
        holds(s.subrange(a, b), c),
    ensures
        holds(s, c),
{
    let i = choose|i: int| occurs_at(s.subrange(a, b), c, i);
    assert(s.subrange(a + i, a + i + c.len()) =~= s.subrange(a, b).subrange(i, i + c.len()));
    assert(occurs_at(s, c, a + i));
}

proof fn lemma_near_word(s: Seq<char>, word: Seq<char>, i: int)
    ensures
        near_word(s, word, i) matches Some(c) ==> all_digits(c) && c.len() == 6 && holds(s, c)
            && holds(lower_ascii(s), word),
    decreases s.len() - i,
{
    if word.len() == 0 || i < 0 || i + word.len() > s.len() {
    } else if occurs_at(lower_ascii(s), word, i) {
        let w = around(s, i, word.len() as int);
        lemma_found_run(w, 6, 6);
        match first_run(w, 6, 6) {
            Some(c) => {
                let a = if i > BEFORE {
                    i - BEFORE
                } else {
                    0
                };
                lemma_part(s, a, a + w.len(), c);
            },
            None => {
                lemma_near_word(s, word, i + word.len());
            },
        }
    } else {
        lemma_near_word(s, word, i + 1);
    }
}

proof fn lemma_near_words(s: Seq<char>, list: Seq<Seq<char>>)
    ensures
        near_words(s, list) matches Some(c) ==> all_digits(c) && c.len() == 6 && holds(s, c)
            && exists|k: int| 0 <= k < list.len() && holds(lower_ascii(s), #[trigger] list[k]),
    decreases list.len(),
{
    if list.len() > 0 {
        lemma_near_word(s, list[0], 0);
        lemma_near_words(s, list.drop_first());
        if near_word(s, list[0], 0) is None && near_words(s, list.drop_first()) is Some {
            let k = choose|k: int|
                0 <= k < list.drop_first().len() && holds(
                    lower_ascii(s),
                    #[trigger] list.drop_first()[k],
                );
            assert(holds(lower_ascii(s), list[k + 1]));
        }
    }
}

/// Whatever is taken for the code of a mail stands in its subject or text and is four to eight
/// digits, never a year.
pub proof fn law_mail_code_shape(subject: Seq<char>, content: Seq<char>)
    ensures
        mail_code(subject, content) matches Some(c) ==> is_code(c) && holds(
            haystack(subject, content),
            c,
        ),
{
    let hay = haystack(subject, content);
    lemma_near_words(hay, keywords());
    law_loose_code_shape(hay);
}

/// A mail whose subject does not speak of a code yields six digits at most, and only where one of
/// the keywords stands in it: a ban notice yields none, whatever numbers it holds.
pub proof fn law_other_mail_yields_no_loose_code(subject: Seq<char>, content: Seq<char>)
    requires
        !speaks_of_code(subject),
    ensures
        mail_code(subject, content) matches Some(c) ==> c.len() == 6,
        (forall|k: int|
            0 <= k < keywords().len() ==> !holds(
                lower_ascii(haystack(subject, content)),
                #[trigger] keywords()[k],
            )) ==> mail_code(subject, content) is None,
{
    lemma_near_words(haystack(subject, content), keywords());
}

// ---------------------------------------------------------------------------
// Laws on the place of a code
// ---------------------------------------------------------------------------

/// The words next to which a code is looked for, the most telling first.
pub open spec fn code_word(k: int) -> Seq<char> {
    if k == 0 {
        "verification code"@
    } else if k == 1 {
        "verification"@
    } else if k == 2 {
        "code"@
    } else if k == 3 {
        "验证码"@
    } else if k == 4 {
        "校验码"@
    } else {
        "验证代码"@
    }
}

/// What is near a word of length `n` at position `i`: up to 24 characters before it, the word, and
/// up to 150 after it.
pub open spec fn vicinity(s: Seq<char>, i: int, n: int) -> Seq<char> {
    s.subrange(
        if i < 24 {
            0
        } else {
            i - 24
        },
        if s.len() < i + n + 150 {
            s.len() as int
        } else {
            i + n + 150
        },
    )
}

/// Whether `word` stands in `s` at position `i`, in whatever case, and what is near it has a whole
/// run of exactly six digits from `a` to `b`.
pub open spec fn beside(s: Seq<char>, word: Seq<char>, i: int, a: int, b: int) -> bool {
    alike_at(s, word, i) && is_run(vicinity(s, i, word.len() as int), a, b) && b - a == 6
}

/// Whether `c` is the six digits beside the first of the words that has any, at its first place,
/// and the first there.
pub open spec fn is_nearest(s: Seq<char>, c: Seq<char>) -> bool {
    exists|k: int, i: int, a: int, b: int|
        0 <= k < 6 && #[trigger] beside(s, code_word(k), i, a, b) && c == vicinity(
            s,
            i,
            code_word(k).len() as int,
        ).subrange(a, b) && (forall|k2: int, i2: int, a2: int, b2: int|
            0 <= k2 < 6 && #[trigger] beside(s, code_word(k2), i2, a2, b2) ==> k < k2 || (k == k2
                && (i < i2 || (i == i2 && a <= a2))))
}

/// Whether any of the words has six digits near it.
pub open spec fn any_beside(s: Seq<char>) -> bool {
    exists|k: int, i: int, a: int, b: int|
        0 <= k < 6 && #[trigger] beside(s, code_word(k), i, a, b)
}

/// Whether a word has no capital letter, and its first character stands in it once.
spec fn is_simple(word: Seq<char>) -> bool {
    &&& word.len() > 0
    &&& forall|k: int| 0 <= k < word.len() ==> !(65 <= (#[trigger] word[k]) as int <= 90)
    &&& forall|k: int| 0 < k < word.len() ==> #[trigger] word[k] != word[0]
}

proof fn lemma_no_overlap(s: Seq<char>, word: Seq<char>, p: int, m: int)
    requires
        is_simple(word),
        alike_at(s, word, p),
        0 < m < word.len(),
    ensures
        !alike_at(s, word, p + m),
{
    if alike_at(s, word, p + m) {
        assert(alike_char(s[p + m], word[m]));
        assert(alike_char(s[p + m + 0], word[0]));
        assert(!(65 <= word[m] as int <= 90));
        assert(!(65 <= word[0] as int <= 90));
        assert(word[m] != word[0]);
    }
}

proof fn lemma_near_word_from(s: Seq<char>, word: Seq<char>, p: int)
    requires
        is_simple(word),
        0 <= p,
    ensures
        match near_word(s, word, p) {
            Some(c) => exists|i: int, a: int, b: int|
                p <= i && #[trigger] beside(s, word, i, a, b) && c == vicinity(
                    s,
                    i,
                    word.len() as int,
                ).subrange(a, b) && (forall|i2: int, a2: int, b2: int|
                    p <= i2 && #[trigger] beside(s, word, i2, a2, b2) ==> i < i2 || (i == i2 && a
                        <= a2)),
            None => forall|i2: int, a2: int, b2: int|
                p <= i2 ==> !#[trigger] beside(s, word, i2, a2, b2),
        },
    decreases s.len() - p,
{
    let n = word.len() as int;
    if p + n > s.len() {
    } else {
        law_lower_occurrence(s, word, p);
        if occurs_at(lower_ascii(s), word, p) {
            let w = around(s, p, n);
            assert(w == vicinity(s, p, n));
            law_first_run(w, 6, 6);
            match first_run(w, 6, 6) {
                Some(c) => {
                    let (a, b) = choose|a: int, b: int| #[trigger]
                        is_run(w, a, b) && 6 <= b - a <= 6 && c == w.subrange(a, b) && (forall|
                            a2: int,
                            b2: int,
                        | #[trigger]
                            is_run(w, a2, b2) && 6 <= b2 - a2 <= 6 ==> a <= a2);
                    assert(beside(s, word, p, a, b));
                    assert forall|i2: int, a2: int, b2: int|
                        p <= i2 && #[trigger] beside(s, word, i2, a2, b2) implies p < i2 || (p == i2
                        && a <= a2) by {
                        if i2 == p {
                            assert(is_run(w, a2, b2));
                        }
                    }
                },
                None => {
                    lemma_near_word_from(s, word, p + n);
                    assert forall|i2: int, a2: int, b2: int|
                        p <= i2 && #[trigger] beside(s, word, i2, a2, b2) implies p + n <= i2 by {
                        if i2 == p {
                            assert(is_run(w, a2, b2));
                        } else if i2 < p + n {
                            lemma_no_overlap(s, word, p, i2 - p);
                        }
                    }
                    if near_word(s, word, p + n) is Some {
                        let c = near_word(s, word, p + n)->0;
                        let (i, a, b) = choose|i: int, a: int, b: int|
                            p + n <= i && #[trigger] beside(s, word, i, a, b) && c == vicinity(
                                s,
                                i,
                                n,
                            ).subrange(a, b) && (forall|i2: int, a2: int, b2: int|
                                p + n <= i2 && #[trigger] beside(s, word, i2, a2, b2) ==> i < i2 || (
                                i == i2 && a <= a2));
                        assert(p <= i && beside(s, word, i, a, b));
                    }
                },
            }
        } else {
            lemma_near_word_from(s, word, p + 1);
            assert forall|i2: int, a2: int, b2: int|
                p <= i2 && #[trigger] beside(s, word, i2, a2, b2) implies p + 1 <= i2 by {}
            if near_word(s, word, p + 1) is Some {
                let c = near_word(s, word, p + 1)->0;
                let (i, a, b) = choose|i: int, a: int, b: int|
                    p + 1 <= i && #[trigger] beside(s, word, i, a, b) && c == vicinity(
                        s,
                        i,
                        n,
                    ).subrange(a, b) && (forall|i2: int, a2: int, b2: int|
                        p + 1 <= i2 && #[trigger] beside(s, word, i2, a2, b2) ==> i < i2 || (i == i2
                            && a <= a2));
                assert(p <= i && beside(s, word, i, a, b));
            }
        }
    }
}

proof fn lemma_code_words()
    ensures
        keywords().len() == 6,
        forall|k: int|
            0 <= k < 6 ==> #[trigger] keywords()[k] == code_word(k) && is_simple(code_word(k)),
{
    reveal_strlit("verification code");
    reveal_strlit("verification");
    reveal_strlit("code");
    reveal_strlit("验证码");
    reveal_strlit("校验码");
    reveal_strlit("验证代码");
    assert(is_simple("verification code"@));
    assert(is_simple("verification"@));
    assert(is_simple("code"@));
    assert(is_simple("验证码"@));
    assert(is_simple("校验码"@));
    assert(is_simple("验证代码"@));
}

proof fn lemma_near_words_from(s: Seq<char>, k: int)
    requires
        0 <= k <= 6,
    ensures
        match near_words(s, keywords().skip(k)) {
            Some(c) => exists|m: int, i: int, a: int, b: int|
                k <= m < 6 && #[trigger] beside(s, code_word(m), i, a, b) && c == vicinity(
                    s,
                    i,
                    code_word(m).len() as int,
                ).subrange(a, b) && (forall|m2: int, i2: int, a2: int, b2: int|
                    k <= m2 < 6 && #[trigger] beside(s, code_word(m2), i2, a2, b2) ==> m < m2 || (m
                        == m2 && (i < i2 || (i == i2 && a <= a2)))),
            None => forall|m2: int, i2: int, a2: int, b2: int|
                k <= m2 < 6 ==> !#[trigger] beside(s, code_word(m2), i2, a2, b2),
        },
    decreases 6 - k,
{
    lemma_code_words();
    let list = keywords().skip(k);
    if k < 6 {
        let word = code_word(k);
        assert(keywords()[k] == word);
        assert(list[0] == word);
        assert(list.drop_first() =~= keywords().skip(k + 1));
        lemma_near_word_from(s, word, 0);
        lemma_near_words_from(s, k + 1);
        match near_word(s, word, 0) {
            Some(c) => {
                let (i, a, b) = choose|i: int, a: int, b: int|
                    0 <= i && #[trigger] beside(s, word, i, a, b) && c == vicinity(
                        s,
                        i,
                        word.len() as int,
                    ).subrange(a, b) && (forall|i2: int, a2: int, b2: int|
                        0 <= i2 && #[trigger] beside(s, word, i2, a2, b2) ==> i < i2 || (i == i2 && a
                            <= a2));
                assert(beside(s, code_word(k), i, a, b));
            },
            None => {
                if near_words(s, keywords().skip(k + 1)) is Some {
                    let c = near_words(s, keywords().skip(k + 1))->0;
                    let (m, i, a, b) = choose|m: int, i: int, a: int, b: int|
                        k + 1 <= m < 6 && #[trigger] beside(s, code_word(m), i, a, b) && c
                            == vicinity(s, i, code_word(m).len() as int).subrange(a, b) && (forall|
                            m2: int,
                            i2: int,
                            a2: int,
                            b2: int,
                        |
                            k + 1 <= m2 < 6 && #[trigger] beside(s, code_word(m2), i2, a2, b2) ==> m
                                < m2 || (m == m2 && (i < i2 || (i == i2 && a <= a2))));
                    assert(k <= m < 6 && beside(s, code_word(m), i, a, b));
                }
            },
        }
    }
}

/// The six digits next to a word are those beside the first of the words that has any; there are
/// none only where no word has six digits beside it.
pub proof fn law_code_near_a_word(s: Seq<char>)
    ensures
        match near_words(s, keywords()) {
            Some(c) => is_nearest(s, c) && c.len() == 6,
            None => !any_beside(s),
        },
        any_beside(s) ==> near_words(s, keywords()) is Some,
{
    lemma_near_words_from(s, 0);
    lemma_near_words(s, keywords());
    assert(keywords().skip(0) =~= keywords());
}

/// Whether a text in lower case says that there is a code.
pub open spec fn says_code(low: Seq<char>) -> bool {
    ||| somewhere(low, "verification code"@)
    ||| somewhere(low, "temporary code"@)
    ||| somewhere(low, "login code"@)
    ||| somewhere(low, "one-time code"@)
    ||| somewhere(low, "your code"@)
    ||| somewhere(low, "verification"@)
    ||| somewhere(low, "验证码"@)
    ||| somewhere(low, "校验码"@)
}

/// Whether `c` is the first whole run of digits of `s` with at least `min` and at most `max`.
pub open spec fn is_first_run(s: Seq<char>, c: Seq<char>, min: int, max: int) -> bool {
    exists|i: int, j: int| #[trigger]
        is_run(s, i, j) && min <= j - i <= max && c == s.subrange(i, j) && (forall|a: int, b: int|
         #[trigger] is_run(s, a, b) && min <= b - a <= max ==> i <= a)
}

/// Whether `s` has a whole run of digits with at least `min` and at most `max`.
pub open spec fn has_run(s: Seq<char>, min: int, max: int) -> bool {
    exists|i: int, j: int| #[trigger] is_run(s, i, j) && min <= j - i <= max
}

/// What speaks of a code says one of eight things in lower case.
pub proof fn law_speaks_of_code(s: Seq<char>)
    ensures
        speaks_of_code(s) == says_code(lowercase(s)),
{
    let low = lowercase(s);
    law_substring(low, "verification code"@);
    law_substring(low, "temporary code"@);
    law_substring(low, "login code"@);
    law_substring(low, "one-time code"@);
    law_substring(low, "your code"@);
    law_substring(low, "verification"@);
    law_substring(low, "验证码"@);
    law_substring(low, "校验码"@);
}

/// The loose rule takes the first number of five to eight digits; without any, the first of four,
/// unless that reads as a year.
pub proof fn law_loose_rule(s: Seq<char>)
    ensures
        has_run(s, 5, 8) ==> (loose_code(s) matches Some(c) && is_first_run(s, c, 5, 8)),
        !has_run(s, 5, 8) && !has_run(s, 4, 4) ==> loose_code(s) is None,
        !has_run(s, 5, 8) ==> match loose_code(s) {
            Some(c) => is_first_run(s, c, 4, 4) && !(c[0] == '1' && c[1] == '9') && !(c[0] == '2'
                && c[1] == '0'),
            None => forall|c: Seq<char>| #[trigger]
                is_first_run(s, c, 4, 4) ==> (c[0] == '1' && c[1] == '9') || (c[0] == '2' && c[1]
                    == '0'),
        },
{
    reveal_strlit("19");
    reveal_strlit("20");
    law_first_run(s, 5, 8);
    law_first_run(s, 4, 4);
    if has_run(s, 5, 8) {
        let (i, j) = choose|i: int, j: int| #[trigger] is_run(s, i, j) && 5 <= j - i <= 8;
        assert(first_run(s, 5, 8) is Some);
    } else if first_run(s, 4, 4) is Some {
        let c = first_run(s, 4, 4)->0;
        let (i, j) = choose|i: int, j: int| #[trigger]
            is_run(s, i, j) && 4 <= j - i <= 4 && c == s.subrange(i, j) && (forall|a: int, b: int|
             #[trigger] is_run(s, a, b) && 4 <= b - a <= 4 ==> i <= a);
        assert(c.len() == 4);
        law_occurrence(c, "19"@, 0);
        law_occurrence(c, "20"@, 0);
        assert("19"@[0] == '1' && "19"@[1] == '9' && "20"@[0] == '2' && "20"@[1] == '0');
        assert(spelled(c, "19"@, 0) == (c[0] == '1' && c[1] == '9')) by {
            if spelled(c, "19"@, 0) {
                assert(c[0int + 0] == "19"@[0] && c[0int + 1] == "19"@[1]);
            }
        }
        assert(spelled(c, "20"@, 0) == (c[0] == '2' && c[1] == '0')) by {
            if spelled(c, "20"@, 0) {
                assert(c[0int + 0] == "20"@[0] && c[0int + 1] == "20"@[1]);
            }
        }
        assert(is_first_run(s, c, 4, 4));
        assert forall|d: Seq<char>| #[trigger] is_first_run(s, d, 4, 4) implies d == c by {
            let (a, b) = choose|a: int, b: int| #[trigger]
                is_run(s, a, b) && 4 <= b - a <= 4 && d == s.subrange(a, b) && (forall|
                    x: int,
                    y: int,
                | #[trigger] is_run(s, x, y) && 4 <= y - x <= 4 ==> a <= x);
            assert(a == i);
        }
    } else {
        assert forall|d: Seq<char>| !#[trigger] is_first_run(s, d, 4, 4) by {
            if is_first_run(s, d, 4, 4) {
                let (a, b) = choose|a: int, b: int| #[trigger]
                    is_run(s, a, b) && 4 <= b - a <= 4 && d == s.subrange(a, b);
            }
        }
    }
}

/// Six digits beside one of the words are the code of a mail, whatever other numbers it holds. Only
/// where no word has any does the loose rule apply, and only to a mail whose subject speaks of a
/// code.
pub proof fn law_code_of_a_mail(subject: Seq<char>, content: Seq<char>)
    ensures
        any_beside(haystack(subject, content)) ==> (mail_code(subject, content) matches Some(c)
            && is_nearest(haystack(subject, content), c) && c.len() == 6),
        near_words(haystack(subject, content), keywords()) is Some ==> mail_code(subject, content)
            == near_words(haystack(subject, content), keywords()),
        !any_beside(haystack(subject, content)) && says_code(lowercase(subject)) ==> mail_code(
            subject,
            content,
        ) == loose_code(haystack(subject, content)),
        !any_beside(haystack(subject, content)) && !says_code(lowercase(subject)) ==> mail_code(
            subject,
            content,
        ) is None,
{
    law_code_near_a_word(haystack(subject, content));
    law_speaks_of_code(subject);
}

/// A code is looked for in the subject and, after a space, in the text of the mail: as it is, or
/// without its markup.
pub proof fn law_haystack(subject: Seq<char>, content: Seq<char>)
    ensures
        haystack(subject, content) == subject + seq![' '] + (if content.contains('<') {
            plain_text(content)
        } else {
            content
        }),
{
    reveal_strlit(" ");
    assert(" "@ =~= seq![' ']);
}

// ---------------------------------------------------------------------------
// Laws on what a call gives
// ---------------------------------------------------------------------------

/// The code of a mail is the six digits near a word that tells of it, where there are any; the
/// loose rule comes only after that, and only where the subject says that there is a code.
pub proof fn law_extracted_code(subject: &str, content: &str, r: Option<String>)
    requires
        call_ensures(extract_code_from_text, (subject, content), r),
    ensures
        ({
            let s = subject@ + seq![' '] + (if content@.contains('<') {
                plain_text(content@)
            } else {
                content@
            });
            &&& any_beside(s) ==> (r matches Some(c) && c@.len() == 6 && is_nearest(s, c@))
            &&& !any_beside(s) && !says_code(lowercase(subject@)) ==> r is None
            &&& !any_beside(s) && says_code(lowercase(subject@)) && has_run(s, 5, 8) ==> (r matches
                Some(c) && is_first_run(s, c@, 5, 8))
            &&& !any_beside(s) && says_code(lowercase(subject@)) && !has_run(s, 5, 8) && !has_run(
                s,
                4,
                4,
            ) ==> r is None
        }),
{
    law_haystack(subject@, content@);
    law_code_of_a_mail(subject@, content@);
    law_loose_rule(haystack(subject@, content@));
}

/// Six digits are taken only as a whole run: no digit stands before or after them.
pub proof fn law_first_six_digits(s: &str, r: Option<String>)
    requires
        call_ensures(first_six_digit, (s,), r),
    ensures
        r is Some <==> has_run(s@, 6, 6),
        r matches Some(c) ==> is_first_run(s@, c@, 6, 6),
{
    law_first_run(s@, 6, 6);
    if has_run(s@, 6, 6) {
        let (i, j) = choose|i: int, j: int| #[trigger] is_run(s@, i, j) && 6 <= j - i <= 6;
        assert(first_run(s@, 6, 6) is Some);
    }
}

/// The number near a word that tells of a code has six digits; the loose rule takes five to eight,
/// or four that are no year.
pub proof fn law_rules_for_codes(text: &str, near: Option<String>, loose: Option<String>, says: bool)
    requires
        call_ensures(code_near_keyword, (text,), near),
        call_ensures(site_reference_extract, (text,), loose),
        call_ensures(mentions_code, (text,), says),
    ensures
        near is Some <==> any_beside(text@),
        near matches Some(c) ==> is_nearest(text@, c@) && c@.len() == 6,
        has_run(text@, 5, 8) ==> (loose matches Some(c) && is_first_run(text@, c@, 5, 8)),
        loose is Some ==> has_run(text@, 5, 8) || has_run(text@, 4, 4),
        says == says_code(lowercase(text@)),
{
    law_code_near_a_word(text@);
    law_loose_rule(text@);
    law_speaks_of_code(text@);
}

} // verus!
