//! Turning an HTML mail body into plain text.
//!
//! The whole of a `<script>` or `<style>` element is dropped: a colour in a style sheet, such as
//! `#202123`, would otherwise pass for a code.
use crate::text::basic::{
    alnum, chars_of, is_alnum, is_white, join, joined, lower_ascii, lower_char, lowered_char, same,
};
use crate::text::charwise::{
    alike, alike_at, alike_char, is_numeral, law_alike, law_classes, law_lower_occurrence,
    law_nothing_to_replace, law_replace, spelled,
};
use crate::text::numeral::{at_most, digit_value, numeral, read_number};
use crate::text::search::{begins, replace_all, replaced};
use crate::text::split::{
    bare, law_words_are_bare, lemma_run_until, position_from, run_until, split_words, words,
};
use vstd::prelude::*;

verus! {

// ---------------------------------------------------------------------------
// Tags
// ---------------------------------------------------------------------------

/// What follows the first `>` of `s`, or nothing where there is none.
pub open spec fn after_tag(s: Seq<char>) -> Seq<char> {
    let k = run_until(s, '>') as int;
    if k < s.len() {
        s.skip(k + 1)
    } else {
        Seq::empty()
    }
}

/// The leading letters and digits of `s`.
pub open spec fn name_run(s: Seq<char>) -> Seq<char>
    decreases s.len(),
{
    if s.len() > 0 && is_alnum(s[0]) {
        seq![s[0]] + name_run(s.drop_first())
    } else {
        Seq::empty()
    }
}

/// The name of the tag that begins `s`, in lower case; a closing tag has the name of its element.
pub open spec fn tag_name(s: Seq<char>) -> Seq<char> {
    if s.len() > 1 && s[1] == '/' {
        lower_ascii(name_run(s.skip(2)))
    } else {
        lower_ascii(name_run(s.skip(1)))
    }
}

/// Whether the contents of an element with this name are not text.
pub open spec fn is_hidden(name: Seq<char>) -> bool {
    name == "script"@ || name == "style"@
}

/// Whether `s` begins, whatever its case, with the closing tag of `name`.
pub open spec fn closes(s: Seq<char>, name: Seq<char>) -> bool {
    begins(lower_ascii(s), "</"@ + name)
}

/// What follows the closing tag of `name` in `s`, or nothing where there is none.
pub open spec fn after_element(s: Seq<char>, name: Seq<char>) -> Seq<char>
    decreases s.len(),
{
    if s.len() == 0 {
        s
    } else if closes(s, name) {
        after_tag(s)
    } else {
        after_element(s.drop_first(), name)
    }
}

/// What is left of `s` after the tag that begins it, and after the whole element where its
/// contents are hidden.
pub open spec fn after_markup(s: Seq<char>) -> Seq<char> {
    if is_hidden(tag_name(s)) {
        after_element(after_tag(s), tag_name(s))
    } else {
        after_tag(s)
    }
}

/// What follows a tag is shorter than what begins with it.
pub proof fn lemma_after_tag(s: Seq<char>)
    ensures
        after_tag(s).len() <= s.len(),
        s.len() > 0 ==> after_tag(s).len() < s.len(),
{
    lemma_run_until(s, '>');
}

/// What follows an element is no longer than what begins with its contents.
pub proof fn lemma_after_element(s: Seq<char>, name: Seq<char>)
    ensures
        after_element(s, name).len() <= s.len(),
    decreases s.len(),
{
    if s.len() > 0 {
        if closes(s, name) {
            lemma_after_tag(s);
        } else {
            lemma_after_element(s.drop_first(), name);
        }
    }
}

/// The text of `s`, with a space for each tag and for each hidden element.
pub open spec fn strip_tags(s: Seq<char>) -> Seq<char>
    decreases s.len(),
    via strip_tags_ends
{
    if s.len() == 0 {
        Seq::empty()
    } else if s[0] == '<' {
        seq![' '] + strip_tags(after_markup(s))
    } else {
        seq![s[0]] + strip_tags(s.drop_first())
    }
}

#[via_fn]
proof fn strip_tags_ends(s: Seq<char>) {
    if s.len() > 0 {
        lemma_after_tag(s);
        lemma_after_element(after_tag(s), tag_name(s));
    }
}

/// The position after the first `>` from `i` on.
fn end_of_tag(cs: &Vec<char>, i: usize) -> (k: usize)
    requires
        i < cs@.len(),
    ensures
        i < k <= cs@.len(),
        cs@.skip(k as int) == after_tag(cs@.skip(i as int)),
{
    let p = position_from(cs, i, '>');
    if p < cs.len() {
        assert(cs@.skip(i as int).skip((p - i) + 1) == cs@.skip(p + 1));
        p + 1
    } else {
        assert(cs@.skip(p as int) =~= Seq::<char>::empty());
        p
    }
}

/// The name of the tag at `i`.
fn name_at(cs: &Vec<char>, i: usize) -> (r: String)
    requires
        i < cs@.len(),
    ensures
        r@ == tag_name(cs@.skip(i as int)),
{
    let n = cs.len();
    let ghost s = cs@.skip(i as int);
    let mut j: usize = i + 1;
    if j < n && cs[j] == '/' {
        j += 1;
        assert(s.skip(2) == cs@.skip(j as int));
    } else {
        assert(s.skip(1) == cs@.skip(j as int));
    }
    let ghost from = cs@.skip(j as int);
    let mut name = String::new();
    assert(name@ + lower_ascii(name_run(from)) =~= lower_ascii(name_run(from)));
    while j < n && alnum(cs[j])
        invariant
            n == cs@.len(),
            j <= n,
            name@ + lower_ascii(name_run(cs@.skip(j as int))) == lower_ascii(name_run(from)),
        decreases n - j,
    {
        let ghost here = cs@.skip(j as int);
        assert(here.drop_first() == cs@.skip(j + 1));
        let ghost was = name@;
        name.push(lowered_char(cs[j]));
        assert(lower_ascii(name_run(here)) =~= seq![lower_char(here[0])] + lower_ascii(
            name_run(here.drop_first()),
        ));
        assert(name@ + lower_ascii(name_run(cs@.skip(j + 1))) =~= was + lower_ascii(
            name_run(here),
        ));
        j += 1;
    }
    assert(name@ + lower_ascii(name_run(cs@.skip(j as int))) =~= name@);
    name
}

/// Whether the closing tag `end` stands at `i`, whatever its case.
fn closes_at(cs: &Vec<char>, end: &Vec<char>, i: usize) -> (r: bool)
    requires
        i <= cs@.len(),
    ensures
        r == begins(lower_ascii(cs@.skip(i as int)), end@),
{
    let n = cs.len();
    let ghost low = lower_ascii(cs@.skip(i as int));
    if end.len() > n - i {
        return false;
    }
    let mut k: usize = 0;
    while k < end.len()
        invariant
            n == cs@.len(),
            i + end@.len() <= n,
            k <= end@.len(),
            low == lower_ascii(cs@.skip(i as int)),
            forall|j: int| 0 <= j < k ==> low[j] == #[trigger] end@[j],
        decreases end@.len() - k,
    {
        assert(low[k as int] == lower_char(cs@[i + k]));
        if lowered_char(cs[i + k]) != end[k] {
            assert(low.subrange(0, end@.len() as int)[k as int] != end@[k as int]);
            return false;
        }
        k += 1;
    }
    assert(low.subrange(0, end@.len() as int) == end@);
    true
}

/// The position after the closing tag of `name`.
fn end_of_element(cs: &Vec<char>, i: usize, name: &str) -> (k: usize)
    requires
        i <= cs@.len(),
    ensures
        i <= k <= cs@.len(),
        cs@.skip(k as int) == after_element(cs@.skip(i as int), name@),
{
    let mut close = "</".to_owned();
    close.append(name);
    let end = chars_of(close.as_str());
    let mut k: usize = i;
    while k < cs.len()
        invariant
            i <= k <= cs@.len(),
            end@ == "</"@ + name@,
            after_element(cs@.skip(i as int), name@) == after_element(cs@.skip(k as int), name@),
        decreases cs@.len() - k,
    {
        if closes_at(cs, &end, k) {
            return end_of_tag(cs, k);
        }
        assert(cs@.skip(k as int).drop_first() == cs@.skip(k + 1));
        k += 1;
    }
    k
}

/// Removes the tags and hidden elements of `src`.
pub fn tags_stripped(src: &str) -> (r: String)
    ensures
        r@ == strip_tags(src@),
{
    let cs = chars_of(src);
    let mut out = String::new();
    let mut i: usize = 0;
    assert(cs@.skip(0) == src@);
    while i < cs.len()
        invariant
            i <= cs@.len(),
            out@ + strip_tags(cs@.skip(i as int)) == strip_tags(src@),
        decreases cs@.len() - i,
    {
        let ghost rest = cs@.skip(i as int);
        let ghost was = out@;
        if cs[i] == '<' {
            let name = name_at(&cs, i);
            let end = end_of_tag(&cs, i);
            out.push(' ');
            let next: usize = if same(name.as_str(), "script") || same(
                name.as_str(),
                "style",
            ) {
                end_of_element(&cs, end, name.as_str())
            } else {
                end
            };
            assert(cs@.skip(next as int) == after_markup(rest));
            assert(out@ + strip_tags(cs@.skip(next as int)) =~= was + (seq![' '] + strip_tags(
                after_markup(rest),
            )));
            i = next;
        } else {
            out.push(cs[i]);
            assert(rest.drop_first() == cs@.skip(i + 1));
            assert(out@ + strip_tags(cs@.skip(i + 1)) =~= was + (seq![rest[0]] + strip_tags(
                rest.drop_first(),
            )));
            i += 1;
        }
    }
    assert(strip_tags(cs@.skip(cs@.len() as int)) =~= Seq::<char>::empty());
    out
}

// ---------------------------------------------------------------------------
// Entities
// ---------------------------------------------------------------------------

/// The Unicode scalar values: the numbers that are characters.
pub open spec fn is_scalar(v: nat) -> bool {
    v < 0xd800 || 0xe000 <= v <= 0x10ffff
}

/// `char::from_u32`: the character with the number `i`, where there is one.
pub assume_specification[ char::from_u32 ](i: u32) -> (r: Option<char>)
    ensures
        r == (if is_scalar(i as nat) {
            Some(i as char)
        } else {
            None
        }),
;

/// `s` with the named entities replaced, one name after the other; `&amp;` comes second, so that
/// what it uncovers is replaced as well.
pub open spec fn decode_named(s: Seq<char>) -> Seq<char> {
    let s = replace_all(s, "&nbsp;"@, " "@);
    let s = replace_all(s, "&amp;"@, "&"@);
    let s = replace_all(s, "&lt;"@, "<"@);
    let s = replace_all(s, "&gt;"@, ">"@);
    let s = replace_all(s, "&quot;"@, "\""@);
    let s = replace_all(s, "&#39;"@, "'"@);
    let s = replace_all(s, "&apos;"@, "'"@);
    let s = replace_all(s, "&rsquo;"@, "'"@);
    let s = replace_all(s, "&lsquo;"@, "'"@);
    let s = replace_all(s, "&hellip;"@, "…"@);
    let s = replace_all(s, "&mdash;"@, "—"@);
    let s = replace_all(s, "&ndash;"@, "–"@);
    replace_all(s, "&copy;"@, "©"@)
}

/// The number of leading hexadecimal digits of `s`.
pub open spec fn hex_run(s: Seq<char>) -> nat
    decreases s.len(),
{
    if s.len() > 0 && digit_value(s[0], 16) is Some {
        1 + hex_run(s.drop_first())
    } else {
        0
    }
}

/// The character that a numeric entity at the start of `s` stands for, and the entity's length.
///
/// An entity is `&#`, an optional `x` for hexadecimal, digits and `;`; the digits must be those of
/// the radix and the number a character.
pub open spec fn numeric_entity(s: Seq<char>) -> Option<(char, int)> {
    if s.len() > 2 && s[0] == '&' && s[1] == '#' {
        let hex = s[2] == 'x' || s[2] == 'X';
        let st: int = if hex {
            3
        } else {
            2
        };
        let radix: nat = if hex {
            16
        } else {
            10
        };
        let j = st + hex_run(s.skip(st));
        if j > st && j < s.len() && s[j] == ';' {
            match at_most(numeral(s.subrange(st, j), radix), u32::MAX as nat) {
                Some(v) => if is_scalar(v) {
                    Some((v as char, j + 1))
                } else {
                    None
                },
                None => None,
            }
        } else {
            None
        }
    } else {
        None
    }
}

/// `s` with its numeric entities replaced by their characters.
pub open spec fn decode_numeric(s: Seq<char>) -> Seq<char>
    decreases s.len(),
{
    if s.len() == 0 {
        s
    } else {
        match numeric_entity(s) {
            Some((c, n)) => seq![c] + decode_numeric(s.skip(n)),
            None => seq![s[0]] + decode_numeric(s.drop_first()),
        }
    }
}

/// Replaces the named entities of `s`.
fn named_decoded(s: &str) -> (r: String)
    ensures
        r@ == decode_named(s@),
{
    proof {
        reveal_strlit("&nbsp;");
        reveal_strlit("&amp;");
        reveal_strlit("&lt;");
        reveal_strlit("&gt;");
        reveal_strlit("&quot;");
        reveal_strlit("&#39;");
        reveal_strlit("&apos;");
        reveal_strlit("&rsquo;");
        reveal_strlit("&lsquo;");
        reveal_strlit("&hellip;");
        reveal_strlit("&mdash;");
        reveal_strlit("&ndash;");
        reveal_strlit("&copy;");
    }
    let s = replaced(s, "&nbsp;", " ");
    let s = replaced(s.as_str(), "&amp;", "&");
    let s = replaced(s.as_str(), "&lt;", "<");
    let s = replaced(s.as_str(), "&gt;", ">");
    let s = replaced(s.as_str(), "&quot;", "\"");
    let s = replaced(s.as_str(), "&#39;", "'");
    let s = replaced(s.as_str(), "&apos;", "'");
    let s = replaced(s.as_str(), "&rsquo;", "'");
    let s = replaced(s.as_str(), "&lsquo;", "'");
    let s = replaced(s.as_str(), "&hellip;", "…");
    let s = replaced(s.as_str(), "&mdash;", "—");
    let s = replaced(s.as_str(), "&ndash;", "–");
    replaced(s.as_str(), "&copy;", "©")
}

fn hex_digit(c: char) -> (r: bool)
    ensures
        r == (digit_value(c, 16) is Some),
{
    ('0' <= c && c <= '9') || ('a' <= c && c <= 'f') || ('A' <= c && c <= 'F')
}

/// The numeric entity at `i` and the position after it.
fn entity_at(cs: &Vec<char>, i: usize) -> (r: Option<(char, usize)>)
    requires
        i < cs@.len(),
    ensures
        match r {
            Some((c, k)) => i < k <= cs@.len() && numeric_entity(cs@.skip(i as int)) == Some(
                (c, k - i),
            ),
            None => numeric_entity(cs@.skip(i as int)) is None,
        },
{
    let n = cs.len();
    let ghost s = cs@.skip(i as int);
    if n - i > 2 && cs[i] == '&' && cs[i + 1] == '#' {
        let hex = cs[i + 2] == 'x' || cs[i + 2] == 'X';
        let st: usize = if hex {
            i + 3
        } else {
            i + 2
        };
        let mut j: usize = st;
        assert(s.skip(st - i) == cs@.skip(st as int));
        while j < n && hex_digit(cs[j])
            invariant
                n == cs@.len(),
                st <= j <= n,
                hex_run(cs@.skip(st as int)) == (j - st) + hex_run(cs@.skip(j as int)),
            decreases n - j,
        {
            assert(cs@.skip(j as int).drop_first() == cs@.skip(j + 1));
            j += 1;
        }
        if j > st && j < n && cs[j] == ';' {
            assert(s.subrange(st - i, j - i) == cs@.subrange(st as int, j as int));
            let radix: u32 = if hex {
                16
            } else {
                10
            };
            match read_number(cs, st, j, radix, 0xffff_ffff) {
                Some(v) => match char::from_u32(v as u32) {
                    Some(c) => Some((c, j + 1)),
                    None => None,
                },
                None => None,
            }
        } else {
            None
        }
    } else {
        None
    }
}

/// Replaces the numeric entities of `s`.
fn numeric_decoded(s: &str) -> (r: String)
    ensures
        r@ == decode_numeric(s@),
{
    let cs = chars_of(s);
    let mut out = String::new();
    let mut i: usize = 0;
    assert(cs@.skip(0) == s@);
    while i < cs.len()
        invariant
            i <= cs@.len(),
            out@ + decode_numeric(cs@.skip(i as int)) == decode_numeric(s@),
        decreases cs@.len() - i,
    {
        let ghost rest = cs@.skip(i as int);
        let ghost was = out@;
        match entity_at(&cs, i) {
            Some((c, k)) => {
                assert(rest.skip(k - i) == cs@.skip(k as int));
                out.push(c);
                assert(out@ + decode_numeric(cs@.skip(k as int)) =~= was + (seq![c]
                    + decode_numeric(rest.skip(k - i))));
                i = k;
            },
            None => {
                assert(rest.drop_first() == cs@.skip(i + 1));
                out.push(cs[i]);
                assert(out@ + decode_numeric(cs@.skip(i + 1)) =~= was + (seq![rest[0]]
                    + decode_numeric(rest.drop_first())));
                i += 1;
            },
        }
    }
    assert(decode_numeric(cs@.skip(cs@.len() as int)) =~= Seq::<char>::empty());
    out
}

/// Decodes the entities of `s`: the named ones first, then the numeric ones.
pub fn decode_entities(s: &str) -> (r: String)
    ensures
        r@ == decode_numeric(decode_named(s@)),
{
    let named = named_decoded(s);
    numeric_decoded(named.as_str())
}

// ---------------------------------------------------------------------------
// Plain text
// ---------------------------------------------------------------------------

/// The plain text of an HTML document: no tags, no hidden elements, entities decoded, and one
/// space between words.
pub open spec fn plain_text(src: Seq<char>) -> Seq<char> {
    join(words(decode_numeric(decode_named(strip_tags(src)))), " "@)
}

/// Turns an HTML document into plain text.
pub fn html_to_text(src: &str) -> (r: String)
    ensures
        r@ == plain_text(src@),
{
    let out = tags_stripped(src);
    let decoded = decode_entities(out.as_str());
    let parts = split_words(decoded.as_str());
    joined(&parts, " ")
}

// ---------------------------------------------------------------------------
// Laws
// ---------------------------------------------------------------------------

/// No tag is left: the stripped text holds no `<`.
pub proof fn law_no_tag_is_left(s: Seq<char>)
    ensures
        !strip_tags(s).contains('<'),
    decreases s.len(),
{
    if s.len() > 0 {
        lemma_after_tag(s);
        lemma_after_element(after_tag(s), tag_name(s));
        if s[0] == '<' {
            law_no_tag_is_left(after_markup(s));
            let t = strip_tags(after_markup(s));
            assert forall|i: int| 0 <= i < strip_tags(s).len() implies strip_tags(s)[i] != '<' by {
                if i > 0 {
                    assert(strip_tags(s)[i] == t[i - 1]);
                }
            }
        } else {
            law_no_tag_is_left(s.drop_first());
            let t = strip_tags(s.drop_first());
            assert forall|i: int| 0 <= i < strip_tags(s).len() implies strip_tags(s)[i] != '<' by {
                if i > 0 {
                    assert(strip_tags(s)[i] == t[i - 1]);
                }
            }
        }
    }
}

/// Text without tags is left as it is.
pub proof fn law_plain_text_keeps_its_characters(s: Seq<char>)
    requires
        !s.contains('<'),
    ensures
        strip_tags(s) == s,
    decreases s.len(),
{
    if s.len() > 0 {
        assert(s[0] != '<') by {
            if s[0] == '<' {
                assert(s.contains(s[0]));
            }
        }
        assert(!s.drop_first().contains('<')) by {
            if s.drop_first().contains('<') {
                let i = choose|i: int| 0 <= i < s.drop_first().len() && s.drop_first()[i] == '<';
                assert(s[i + 1] == '<');
            }
        }
        law_plain_text_keeps_its_characters(s.drop_first());
        assert(seq![s[0]] + s.drop_first() =~= s);
    }
}

proof fn lemma_tag_ends(head: Seq<char>, rest: Seq<char>)
    requires
        !head.contains('>'),
    ensures
        after_tag(head + seq!['>'] + rest) == rest,
{
    let s = head + seq!['>'] + rest;
    lemma_run_until(s, '>');
    let k = run_until(s, '>') as int;
    if k < head.len() {
        assert(s[k] == head[k]);
        assert(head.contains(head[k]));
    }
    if k > head.len() {
        assert(s[head.len() as int] == '>');
    }
    assert(s.skip(head.len() as int + 1) =~= rest);
}

proof fn lemma_name_run(name: Seq<char>, rest: Seq<char>)
    requires
        forall|i: int| 0 <= i < name.len() ==> is_alnum(#[trigger] name[i]),
        rest.len() == 0 || !is_alnum(rest[0]),
    ensures
        name_run(name + rest) == name,
    decreases name.len(),
{
    let s = name + rest;
    if name.len() > 0 {
        assert(s.drop_first() =~= name.drop_first() + rest);
        lemma_name_run(name.drop_first(), rest);
        assert(seq![name[0]] + name.drop_first() =~= name);
    } else {
        assert(s =~= rest);
    }
}

proof fn lemma_element_ends(body: Seq<char>, name: Seq<char>, tail: Seq<char>, rest: Seq<char>)
    requires
        lower_ascii(name) == name,
        !name.contains('>'),
        !tail.contains('>'),
        forall|i: int|
            0 <= i < body.len() ==> !closes((body + "</"@ + name).skip(i), name),
    ensures
        after_element(body + "</"@ + name + tail + seq!['>'] + rest, name) == rest,
    decreases body.len(),
{
    reveal_strlit("</");
    let mark = "</"@ + name;
    let s = body + "</"@ + name + tail + seq!['>'] + rest;
    let short = body + "</"@ + name;
    if body.len() == 0 {
        assert(s =~= mark + tail + seq!['>'] + rest);
        assert(closes(s, name)) by {
            assert(lower_ascii(s).subrange(0, mark.len() as int) =~= mark) by {
                assert forall|i: int| 0 <= i < mark.len() implies lower_ascii(s)[i] == mark[i] by {
                    if i >= 2 {
                        assert(s[i] == name[i - 2]);
                        assert(lower_ascii(name)[i - 2] == lower_char(name[i - 2]));
                    }
                }
            }
        }
        let head = mark + tail;
        assert(!head.contains('>')) by {
            if head.contains('>') {
                let i = choose|i: int| 0 <= i < head.len() && head[i] == '>';
                if i >= mark.len() {
                    assert(tail.contains(tail[i - mark.len()]));
                } else if i >= 2 {
                    assert(name.contains(name[i - 2]));
                }
            }
        }
        lemma_tag_ends(head, rest);
    } else {
        let less = body.drop_first();
        assert(!closes(s, name)) by {
            assert(!closes(short.skip(0), name));
            assert(short.skip(0) =~= short);
            if closes(s, name) {
                assert(lower_ascii(short).subrange(0, mark.len() as int) =~= lower_ascii(
                    s,
                ).subrange(0, mark.len() as int));
            }
        }
        assert(s.drop_first() =~= less + "</"@ + name + tail + seq!['>'] + rest);
        assert forall|i: int| 0 <= i < less.len() implies !closes(
            (less + "</"@ + name).skip(i),
            name,
        ) by {
            assert((less + "</"@ + name).skip(i) =~= short.skip(i + 1));
        }
        lemma_element_ends(less, name, tail, rest);
    }
}

/// A `<script>` or `<style>` element leaves nothing but a space, whatever it holds.
///
/// `attrs` and `tail` are what stands inside the opening and the closing tag after the name, and
/// `body` what stands between them: anything in which the element is not closed.
pub proof fn law_hidden_element_is_dropped(
    name: Seq<char>,
    attrs: Seq<char>,
    body: Seq<char>,
    tail: Seq<char>,
    rest: Seq<char>,
)
    requires
        is_hidden(name),
        !attrs.contains('>'),
        attrs.len() > 0 ==> !is_alnum(attrs[0]),
        !tail.contains('>'),
        forall|i: int|
            0 <= i < body.len() ==> !closes((body + "</"@ + name).skip(i), name),
    ensures
        strip_tags(
            "<"@ + name + attrs + seq!['>'] + (body + "</"@ + name + tail + seq!['>'] + rest),
        ) == seq![' '] + strip_tags(rest),
{
    reveal_strlit("<");
    reveal_strlit("script");
    reveal_strlit("style");
    let inner = body + "</"@ + name + tail + seq!['>'] + rest;
    let head = "<"@ + name + attrs;
    let s = head + seq!['>'] + inner;
    assert(s =~= "<"@ + name + attrs + seq!['>'] + inner);
    let after = attrs + seq!['>'] + inner;
    assert(s.skip(1) =~= name + after);
    lemma_name_run(name, after);
    assert(lower_ascii(name) =~= name);
    assert(s[1] == name[0]);
    assert(tag_name(s) == name);
    assert(!head.contains('>')) by {
        if head.contains('>') {
            let i = choose|i: int| 0 <= i < head.len() && head[i] == '>';
            if i >= 1 + name.len() {
                assert(attrs.contains(attrs[i - 1 - name.len()]));
            } else if i >= 1 {
                assert(head[i] == name[i - 1]);
            }
        }
    }
    lemma_tag_ends(head, inner);
    assert(!name.contains('>'));
    lemma_element_ends(body, name, tail, rest);
}

/// Plain text has no white space but single spaces between its words.
pub proof fn law_plain_text_is_normalised(src: Seq<char>)
    ensures
        forall|i: int|
            0 <= i < plain_text(src).len() && is_white(#[trigger] plain_text(src)[i])
                ==> plain_text(src)[i] == ' ' && 0 < i < plain_text(src).len() - 1 && !is_white(
                plain_text(src)[i + 1],
            ),
{
    let parts = words(decode_numeric(decode_named(strip_tags(src))));
    law_words_are_bare(decode_numeric(decode_named(strip_tags(src))));
    lemma_joined_words(parts);
}

/// Bare words that are joined by single spaces keep single spaces apart.
proof fn lemma_joined_words(parts: Seq<Seq<char>>)
    requires
        forall|i: int| 0 <= i < parts.len() ==> bare(#[trigger] parts[i]),
    ensures
        parts.len() > 0 ==> join(parts, " "@).len() > 0 && !is_white(join(parts, " "@)[0])
            && !is_white(join(parts, " "@).last()),
        forall|i: int|
            0 <= i < join(parts, " "@).len() && is_white(#[trigger] join(parts, " "@)[i]) ==> join(
                parts,
                " "@,
            )[i] == ' ' && 0 < i < join(parts, " "@).len() - 1 && !is_white(
                join(parts, " "@)[i + 1],
            ),
    decreases parts.len(),
{
    reveal_strlit(" ");
    let s = join(parts, " "@);
    if parts.len() == 1 {
        assert(bare(parts[0]));
    } else if parts.len() > 1 {
        let less = parts.drop_last();
        assert forall|i: int| 0 <= i < less.len() implies bare(#[trigger] less[i]) by {
            assert(less[i] == parts[i]);
        }
        lemma_joined_words(less);
        let t = join(less, " "@);
        let w = parts.last();
        assert(bare(parts[parts.len() - 1]));
        assert forall|i: int| 0 <= i < s.len() && is_white(#[trigger] s[i]) implies s[i] == ' '
            && 0 < i < s.len() - 1 && !is_white(s[i + 1]) by {
            if i < t.len() {
                assert(s[i] == t[i]);
                assert(i < t.len() - 1);
                assert(s[i + 1] == t[i + 1]);
            } else if i > t.len() {
                assert(s[i] == w[i - t.len() - 1]);
            } else {
                assert(s[i + 1] == w[0]);
            }
        }
        assert(s[0] == t[0]);
        assert(s.last() == w.last());
    }
}

// ---------------------------------------------------------------------------
// Laws in plain terms
// ---------------------------------------------------------------------------

/// Text before a tag stays.
pub proof fn law_text_before_a_tag_stays(t: Seq<char>, s: Seq<char>)
    requires
        !t.contains('<'),
    ensures
        strip_tags(t + s) == t + strip_tags(s),
    decreases t.len(),
{
    if t.len() == 0 {
        assert(t + s =~= s);
        assert(t + strip_tags(s) =~= strip_tags(s));
    } else {
        let u = t.drop_first();
        assert(t.contains(t[0]));
        assert((t + s).drop_first() =~= u + s);
        assert(!u.contains('<')) by {
            if u.contains('<') {
                let i = choose|i: int| 0 <= i < u.len() && u[i] == '<';
                assert(t[i + 1] == '<');
            }
        }
        law_text_before_a_tag_stays(u, s);
        assert(seq![t[0]] + (u + strip_tags(s)) =~= t + strip_tags(s));
    }
}

/// Whether `name` is the name of a tag, with what stands after it in the tag.
pub open spec fn in_tag(name: Seq<char>, attrs: Seq<char>) -> bool {
    &&& forall|i: int|
        0 <= i < name.len() ==> is_numeral(#[trigger] name[i]) || 65 <= name[i] as int <= 90 || 97
            <= name[i] as int <= 122
    &&& attrs.len() > 0 ==> !(is_numeral(attrs[0]) || 65 <= attrs[0] as int <= 90 || 97
        <= attrs[0] as int <= 122)
    &&& forall|i: int| 0 <= i < attrs.len() ==> #[trigger] attrs[i] != '>'
}

/// The name of an element that holds a script.
pub open spec fn script() -> Seq<char> {
    seq!['s', 'c', 'r', 'i', 'p', 't']
}

/// The name of an element that holds a style sheet.
pub open spec fn style() -> Seq<char> {
    seq!['s', 't', 'y', 'l', 'e']
}

proof fn lemma_hidden_names(name: Seq<char>)
    ensures
        is_hidden(lower_ascii(name)) == (alike(name, script()) || alike(name, style())),
        alike(name, script()) ==> lower_ascii(name) == script(),
        alike(name, style()) ==> lower_ascii(name) == style(),
        script() == "script"@,
        style() == "style"@,
{
    reveal_strlit("script");
    reveal_strlit("style");
    assert("script"@ =~= script());
    assert("style"@ =~= style());
    law_alike(name, script());
    law_alike(name, style());
    assert(lower_ascii(script()) =~= script());
    assert(lower_ascii(style()) =~= style());
}

proof fn lemma_head(mark: Seq<char>, name: Seq<char>, attrs: Seq<char>, rest: Seq<char>)
    requires
        in_tag(name, attrs),
        mark == seq!['<'] && (name.len() > 0 || (attrs.len() > 0 && attrs[0] != '/')) || mark
            == seq!['<', '/'],
    ensures
        ({
            let s = mark + name + attrs + seq!['>'] + rest;
            &&& s.len() > 0 && s[0] == '<'
            &&& tag_name(s) == lower_ascii(name)
            &&& after_tag(s) == rest
        }),
{
    let s = mark + name + attrs + seq!['>'] + rest;
    let after = attrs + seq!['>'] + rest;
    assert(s.skip(mark.len() as int) =~= name + after);
    assert forall|i: int| 0 <= i < name.len() implies is_alnum(#[trigger] name[i]) by {
        law_classes(name[i]);
    }
    law_classes(after[0]);
    lemma_name_run(name, after);
    if mark == seq!['<'] {
        assert(s[1] == (if name.len() > 0 {
            name[0]
        } else {
            attrs[0]
        }));
    } else {
        assert(s[1] == '/');
    }
    let head = mark + name + attrs;
    assert(!head.contains('>')) by {
        if head.contains('>') {
            let i = choose|i: int| 0 <= i < head.len() && head[i] == '>';
            if i >= mark.len() + name.len() {
                assert(attrs[i - mark.len() - name.len()] == '>');
            } else if i >= mark.len() {
                assert(name[i - mark.len()] == '>');
            }
        }
    }
    lemma_tag_ends(head, rest);
    assert(s =~= head + seq!['>'] + rest);
}

/// A tag leaves a space, and the text after it stays, unless its name is that of a script or a
/// style sheet.
pub proof fn law_tag_leaves_a_space(
    closing: bool,
    name: Seq<char>,
    attrs: Seq<char>,
    rest: Seq<char>,
)
    requires
        in_tag(name, attrs),
        name.len() > 0 || closing || (attrs.len() > 0 && attrs[0] != '/'),
        !alike(name, script()),
        !alike(name, style()),
    ensures
        strip_tags(
            (if closing {
                seq!['<', '/']
            } else {
                seq!['<']
            }) + name + attrs + seq!['>'] + rest,
        ) == seq![' '] + strip_tags(rest),
{
    let mark = if closing {
        seq!['<', '/']
    } else {
        seq!['<']
    };
    lemma_head(mark, name, attrs, rest);
    lemma_hidden_names(name);
}

/// The beginning of the closing tag of an element.
pub open spec fn closing(name: Seq<char>) -> Seq<char> {
    seq!['<', '/'] + name
}

proof fn lemma_closes(s: Seq<char>, name: Seq<char>)
    requires
        name == script() || name == style(),
    ensures
        closes(s, name) == alike_at(s, closing(name), 0),
{
    reveal_strlit("</");
    let mark = closing(name);
    assert("</"@ + name =~= mark);
    law_lower_occurrence(s, mark, 0);
}

proof fn lemma_contents_end(
    name: Seq<char>,
    body: Seq<char>,
    close: Seq<char>,
    tail: Seq<char>,
    rest: Seq<char>,
)
    requires
        name == script() || name == style(),
        alike(close, name),
        forall|i: int| 0 <= i < tail.len() ==> #[trigger] tail[i] != '>',
        forall|i: int|
            0 <= i < body.len() ==> !#[trigger] alike_at(
                body + closing(close),
                closing(name),
                i,
            ),
    ensures
        after_element(body + closing(close) + tail + seq!['>'] + rest, name) == rest,
    decreases body.len(),
{
    let mark = closing(name);
    let end = closing(close);
    let s = body + closing(close) + tail + seq!['>'] + rest;
    let short = body + closing(close);
    lemma_closes(s, name);
    if body.len() == 0 {
        assert(s =~= end + tail + seq!['>'] + rest);
        assert forall|k: int| 0 <= k < mark.len() implies alike_char(s[0 + k], #[trigger] mark[k]) by {
            if k >= 2 {
                assert(s[k] == close[k - 2]);
            }
        }
        let head = end + tail;
        assert(!head.contains('>')) by {
            if head.contains('>') {
                let i = choose|i: int| 0 <= i < head.len() && head[i] == '>';
                if i >= end.len() {
                    assert(tail[i - end.len()] == '>');
                } else if i >= 2 {
                    assert(alike_char(close[i - 2], name[i - 2]));
                }
            }
        }
        lemma_tag_ends(head, rest);
        assert(s =~= head + seq!['>'] + rest);
    } else {
        let less = body.drop_first();
        assert(!alike_at(short, mark, 0));
        if alike_at(s, mark, 0) {
            assert forall|k: int| 0 <= k < mark.len() implies alike_char(
                short[0 + k],
                #[trigger] mark[k],
            ) by {
                assert(alike_char(s[0 + k], mark[k]));
                assert(s[k] == short[k]);
            }
        }
        assert(s.drop_first() =~= less + closing(close) + tail + seq!['>'] + rest);
        let lesser = less + closing(close);
        assert forall|i: int| 0 <= i < less.len() implies !#[trigger] alike_at(lesser, mark, i) by {
            if alike_at(lesser, mark, i) {
                assert forall|k: int| 0 <= k < mark.len() implies alike_char(
                    short[(i + 1) + k],
                    #[trigger] mark[k],
                ) by {
                    assert(alike_char(lesser[i + k], mark[k]));
                    assert(short[i + 1 + k] == lesser[i + k]);
                }
                assert(alike_at(short, mark, i + 1));
            }
        }
        lemma_contents_end(name, less, close, tail, rest);
    }
}

/// A script or a style sheet leaves nothing but a space, whatever it holds and in whatever case
/// its tags are written; the text after it stays.
pub proof fn law_script_and_style_are_dropped(
    name: Seq<char>,
    open: Seq<char>,
    attrs: Seq<char>,
    body: Seq<char>,
    close: Seq<char>,
    tail: Seq<char>,
    rest: Seq<char>,
)
    requires
        name == script() || name == style(),
        alike(open, name),
        alike(close, name),
        in_tag(open, attrs),
        forall|i: int| 0 <= i < tail.len() ==> #[trigger] tail[i] != '>',
        forall|i: int|
            0 <= i < body.len() ==> !#[trigger] alike_at(
                body + closing(close),
                closing(name),
                i,
            ),
    ensures
        strip_tags(
            seq!['<'] + open + attrs + seq!['>'] + (body + closing(close) + tail + seq![
                '>',
            ] + rest),
        ) == seq![' '] + strip_tags(rest),
{
    let inner = body + closing(close) + tail + seq!['>'] + rest;
    lemma_head(seq!['<'], open, attrs, inner);
    lemma_hidden_names(open);
    lemma_contents_end(name, body, close, tail, rest);
}

/// A script or a style sheet that is never closed hides everything after it.
pub proof fn law_open_script_hides_the_rest(
    name: Seq<char>,
    open: Seq<char>,
    attrs: Seq<char>,
    rest: Seq<char>,
)
    requires
        name == script() || name == style(),
        alike(open, name),
        in_tag(open, attrs),
        forall|i: int| !#[trigger] alike_at(rest, closing(name), i),
    ensures
        strip_tags(seq!['<'] + open + attrs + seq!['>'] + rest) == seq![' '],
{
    lemma_head(seq!['<'], open, attrs, rest);
    lemma_hidden_names(open);
    lemma_never_closed(name, rest);
    let none = Seq::<char>::empty();
    assert(after_element(rest, name) =~= none);
    assert(strip_tags(none) =~= none);
    assert(seq![' '] + none =~= seq![' ']);
}

proof fn lemma_never_closed(name: Seq<char>, rest: Seq<char>)
    requires
        name == script() || name == style(),
        forall|i: int| !#[trigger] alike_at(rest, closing(name), i),
    ensures
        after_element(rest, name).len() == 0,
    decreases rest.len(),
{
    let mark = closing(name);
    lemma_closes(rest, name);
    assert(!alike_at(rest, mark, 0));
    if rest.len() > 0 {
        let less = rest.drop_first();
        assert forall|i: int| !#[trigger] alike_at(less, mark, i) by {
            if alike_at(less, mark, i) {
                assert forall|k: int| 0 <= k < mark.len() implies alike_char(
                    rest[(i + 1) + k],
                    #[trigger] mark[k],
                ) by {
                    assert(alike_char(less[i + k], mark[k]));
                    assert(rest[i + 1 + k] == less[i + k]);
                }
                assert(alike_at(rest, mark, i + 1));
            }
        }
        lemma_never_closed(name, less);
    }
}

/// Whether `e` has the form of a named entity: `&` first, `;` last, and neither in between.
pub open spec fn entity_form(e: Seq<char>) -> bool {
    &&& e.len() > 2
    &&& e[0] == '&'
    &&& e.last() == ';'
    &&& forall|i: int| 1 <= i < e.len() ==> #[trigger] e[i] != '&'
    &&& forall|i: int| 0 <= i < e.len() - 1 ==> #[trigger] e[i] != ';'
}

/// Whether `e` is an entity with a name and `w` what it stands for; `&amp;` is apart.
pub open spec fn stands_for(e: Seq<char>, w: Seq<char>) -> bool {
    ||| e == "&nbsp;"@ && w == seq![' ']
    ||| e == "&lt;"@ && w == seq!['<']
    ||| e == "&gt;"@ && w == seq!['>']
    ||| e == "&quot;"@ && w == seq!['"']
    ||| e == "&#39;"@ && w == seq!['\'']
    ||| e == "&apos;"@ && w == seq!['\'']
    ||| e == "&rsquo;"@ && w == seq!['\'']
    ||| e == "&lsquo;"@ && w == seq!['\'']
    ||| e == "&hellip;"@ && w == seq!['…']
    ||| e == "&mdash;"@ && w == seq!['—']
    ||| e == "&ndash;"@ && w == seq!['–']
    ||| e == "&copy;"@ && w == seq!['©']
}

proof fn lemma_no_entity(s: Seq<char>, p: Seq<char>, w: Seq<char>)
    requires
        entity_form(p),
        forall|i: int|
            0 <= i < s.len() && #[trigger] s[i] == '&' ==> forall|j: int|
                i <= j < s.len() ==> #[trigger] s[j] != ';',
    ensures
        replace_all(s, p, w) == s,
{
    assert forall|i: int| !#[trigger] spelled(s, p, i) by {
        if spelled(s, p, i) {
            assert(s[i + 0] == p[0]);
            assert(s[i + (p.len() - 1)] == p[p.len() - 1]);
        }
    }
    law_nothing_to_replace(s, p, w);
}

proof fn lemma_entity_step(
    a: Seq<char>,
    e: Seq<char>,
    b: Seq<char>,
    p: Seq<char>,
    w: Seq<char>,
)
    requires
        entity_form(e),
        entity_form(p),
        !a.contains('&'),
        !b.contains('&'),
    ensures
        p == e ==> replace_all(a + e + b, p, w) == a + w + b,
        p != e ==> replace_all(a + e + b, p, w) == a + e + b,
{
    let s = a + e + b;
    let n = a.len() as int;
    assert forall|i: int| i != n implies !#[trigger] spelled(s, p, i) by {
        if spelled(s, p, i) {
            assert(s[i + 0] == p[0]);
            if i < n {
                assert(a.contains(a[i]));
            } else if i >= n + e.len() {
                assert(b.contains(b[i - n - e.len()]));
            } else {
                assert(s[i] == e[i - n]);
            }
        }
    }
    if p == e {
        assert forall|k: int| 0 <= k < p.len() implies s[n + k] == #[trigger] p[k] by {}
        law_replace(s, p, w, n);
        assert(s.take(n) =~= a);
        assert(s.skip(n + p.len()) =~= b);
        assert forall|i: int| 0 <= i < b.len() implies #[trigger] b[i] != '&' by {
            assert(b.contains(b[i]));
        }
        lemma_no_entity(b, p, w);
    } else {
        if spelled(s, p, n) {
            if p.len() <= e.len() {
                assert(s[n + (p.len() - 1)] == p[p.len() - 1]);
                assert(e[p.len() - 1] == ';');
                assert(p.len() == e.len());
                assert forall|k: int| 0 <= k < p.len() implies p[k] == e[k] by {
                    assert(s[n + k] == p[k]);
                }
                assert(p =~= e);
            } else {
                assert(s[n + (e.len() - 1)] == p[e.len() - 1]);
            }
        }
        law_nothing_to_replace(s, p, w);
    }
}

proof fn lemma_forms()
    ensures
        entity_form("&nbsp;"@),
        entity_form("&amp;"@),
        entity_form("&lt;"@),
        entity_form("&gt;"@),
        entity_form("&quot;"@),
        entity_form("&#39;"@),
        entity_form("&apos;"@),
        entity_form("&rsquo;"@),
        entity_form("&lsquo;"@),
        entity_form("&hellip;"@),
        entity_form("&mdash;"@),
        entity_form("&ndash;"@),
        entity_form("&copy;"@),
{
    reveal_strlit("&nbsp;");
    reveal_strlit("&amp;");
    reveal_strlit("&lt;");
    reveal_strlit("&gt;");
    reveal_strlit("&quot;");
    reveal_strlit("&#39;");
    reveal_strlit("&apos;");
    reveal_strlit("&rsquo;");
    reveal_strlit("&lsquo;");
    reveal_strlit("&hellip;");
    reveal_strlit("&mdash;");
    reveal_strlit("&ndash;");
    reveal_strlit("&copy;");
}

proof fn lemma_forms_differ()
    ensures
        "&nbsp;"@[1] == 'n' && "&nbsp;"@[2] == 'b',
        "&amp;"@[1] == 'a' && "&amp;"@[2] == 'm',
        "&lt;"@[1] == 'l' && "&lt;"@[2] == 't',
        "&gt;"@[1] == 'g',
        "&quot;"@[1] == 'q',
        "&#39;"@[1] == '#',
        "&apos;"@[1] == 'a' && "&apos;"@[2] == 'p',
        "&rsquo;"@[1] == 'r',
        "&lsquo;"@[1] == 'l' && "&lsquo;"@[2] == 's',
        "&hellip;"@[1] == 'h',
        "&mdash;"@[1] == 'm',
        "&ndash;"@[1] == 'n' && "&ndash;"@[2] == 'd',
        "&copy;"@[1] == 'c',
{
    reveal_strlit("&nbsp;");
    reveal_strlit("&amp;");
    reveal_strlit("&lt;");
    reveal_strlit("&gt;");
    reveal_strlit("&quot;");
    reveal_strlit("&#39;");
    reveal_strlit("&apos;");
    reveal_strlit("&rsquo;");
    reveal_strlit("&lsquo;");
    reveal_strlit("&hellip;");
    reveal_strlit("&mdash;");
    reveal_strlit("&ndash;");
    reveal_strlit("&copy;");
}

proof fn lemma_signs()
    ensures
        " "@ == seq![' '],
        "&"@ == seq!['&'],
        "<"@ == seq!['<'],
        ">"@ == seq!['>'],
        "\""@ == seq!['"'],
        "'"@ == seq!['\''],
        "…"@ == seq!['…'],
        "—"@ == seq!['—'],
        "–"@ == seq!['–'],
        "©"@ == seq!['©'],
{
    reveal_strlit(" ");
    reveal_strlit("&");
    reveal_strlit("<");
    reveal_strlit(">");
    reveal_strlit("\"");
    reveal_strlit("'");
    reveal_strlit("…");
    reveal_strlit("—");
    reveal_strlit("–");
    reveal_strlit("©");
}

/// Text in which no `;` follows an `&` keeps its characters: it holds no named entity.
pub proof fn law_text_without_entities_stays(s: Seq<char>)
    requires
        forall|i: int|
            0 <= i < s.len() && #[trigger] s[i] == '&' ==> forall|j: int|
                i <= j < s.len() ==> #[trigger] s[j] != ';',
    ensures
        decode_named(s) == s,
{
    lemma_forms();
    lemma_no_entity(s, "&nbsp;"@, " "@);
    lemma_no_entity(s, "&amp;"@, "&"@);
    lemma_no_entity(s, "&lt;"@, "<"@);
    lemma_no_entity(s, "&gt;"@, ">"@);
    lemma_no_entity(s, "&quot;"@, "\""@);
    lemma_no_entity(s, "&#39;"@, "'"@);
    lemma_no_entity(s, "&apos;"@, "'"@);
    lemma_no_entity(s, "&rsquo;"@, "'"@);
    lemma_no_entity(s, "&lsquo;"@, "'"@);
    lemma_no_entity(s, "&hellip;"@, "…"@);
    lemma_no_entity(s, "&mdash;"@, "—"@);
    lemma_no_entity(s, "&ndash;"@, "–"@);
    lemma_no_entity(s, "&copy;"@, "©"@);
}

proof fn lemma_stage(
    a: Seq<char>,
    e: Seq<char>,
    w: Seq<char>,
    b: Seq<char>,
    p: Seq<char>,
    q: Seq<char>,
    s: Seq<char>,
)
    requires
        entity_form(e),
        entity_form(p),
        !a.contains('&'),
        !b.contains('&'),
        !w.contains('&'),
        p == e ==> q == w,
        s == a + e + b || s == a + w + b,
    ensures
        s == a + w + b || p == e ==> replace_all(s, p, q) == a + w + b,
        s == a + e + b && p != e ==> replace_all(s, p, q) == s,
{
    if s == a + w + b {
        assert forall|i: int| 0 <= i < s.len() implies #[trigger] s[i] != '&' by {
            if i < a.len() {
                assert(a.contains(a[i]));
            } else if i < a.len() + w.len() {
                assert(w.contains(w[i - a.len()]));
            } else {
                assert(b.contains(b[i - a.len() - w.len()]));
            }
        }
        lemma_no_entity(s, p, q);
    }
    if s == a + e + b {
        lemma_entity_step(a, e, b, p, q);
    }
}

/// An entity with a name is replaced by what it stands for, and the text around it stays.
pub proof fn law_named_entity(a: Seq<char>, e: Seq<char>, w: Seq<char>, b: Seq<char>)
    requires
        stands_for(e, w),
        !a.contains('&'),
        !b.contains('&'),
    ensures
        decode_named(a + e + b) == a + w + b,
{
    lemma_forms();
    lemma_forms_differ();
    lemma_signs();
    assert(!w.contains('&'));
    let s0 = a + e + b;
    let s1 = replace_all(s0, "&nbsp;"@, " "@);
    lemma_stage(a, e, w, b, "&nbsp;"@, " "@, s0);
    let s2 = replace_all(s1, "&amp;"@, "&"@);
    lemma_stage(a, e, w, b, "&amp;"@, "&"@, s1);
    let s3 = replace_all(s2, "&lt;"@, "<"@);
    lemma_stage(a, e, w, b, "&lt;"@, "<"@, s2);
    let s4 = replace_all(s3, "&gt;"@, ">"@);
    lemma_stage(a, e, w, b, "&gt;"@, ">"@, s3);
    let s5 = replace_all(s4, "&quot;"@, "\""@);
    lemma_stage(a, e, w, b, "&quot;"@, "\""@, s4);
    let s6 = replace_all(s5, "&#39;"@, "'"@);
    lemma_stage(a, e, w, b, "&#39;"@, "'"@, s5);
    let s7 = replace_all(s6, "&apos;"@, "'"@);
    lemma_stage(a, e, w, b, "&apos;"@, "'"@, s6);
    let s8 = replace_all(s7, "&rsquo;"@, "'"@);
    lemma_stage(a, e, w, b, "&rsquo;"@, "'"@, s7);
    let s9 = replace_all(s8, "&lsquo;"@, "'"@);
    lemma_stage(a, e, w, b, "&lsquo;"@, "'"@, s8);
    let s10 = replace_all(s9, "&hellip;"@, "…"@);
    lemma_stage(a, e, w, b, "&hellip;"@, "…"@, s9);
    let s11 = replace_all(s10, "&mdash;"@, "—"@);
    lemma_stage(a, e, w, b, "&mdash;"@, "—"@, s10);
    let s12 = replace_all(s11, "&ndash;"@, "–"@);
    lemma_stage(a, e, w, b, "&ndash;"@, "–"@, s11);
    let s13 = replace_all(s12, "&copy;"@, "©"@);
    lemma_stage(a, e, w, b, "&copy;"@, "©"@, s12);
}

/// `&amp;` is replaced by `&`.
pub proof fn law_ampersand(a: Seq<char>, b: Seq<char>)
    requires
        !a.contains('&'),
        !b.contains('&'),
        !b.contains(';'),
    ensures
        decode_named(a + "&amp;"@ + b) == a + seq!['&'] + b,
{
    lemma_forms();
    lemma_forms_differ();
    lemma_signs();
    let e = "&amp;"@;
    lemma_entity_step(a, e, b, "&nbsp;"@, " "@);
    lemma_entity_step(a, e, b, "&amp;"@, "&"@);
    let s = a + seq!['&'] + b;
    assert forall|i: int| 0 <= i < s.len() && #[trigger] s[i] == '&' implies forall|j: int|
        i <= j < s.len() ==> #[trigger] s[j] != ';' by {
        if i < a.len() {
            assert(a.contains(a[i]));
        }
        assert forall|j: int| i <= j < s.len() implies #[trigger] s[j] != ';' by {
            if j > a.len() {
                assert(b.contains(b[j - a.len() - 1]));
            }
        }
    }
    lemma_no_entity(s, "&lt;"@, "<"@);
    lemma_no_entity(s, "&gt;"@, ">"@);
    lemma_no_entity(s, "&quot;"@, "\""@);
    lemma_no_entity(s, "&#39;"@, "'"@);
    lemma_no_entity(s, "&apos;"@, "'"@);
    lemma_no_entity(s, "&rsquo;"@, "'"@);
    lemma_no_entity(s, "&lsquo;"@, "'"@);
    lemma_no_entity(s, "&hellip;"@, "…"@);
    lemma_no_entity(s, "&mdash;"@, "—"@);
    lemma_no_entity(s, "&ndash;"@, "–"@);
    lemma_no_entity(s, "&copy;"@, "©"@);
}

/// Whether every character of `s` is a hexadecimal digit.
pub open spec fn all_hex(s: Seq<char>) -> bool {
    forall|i: int|
        0 <= i < s.len() ==> is_numeral(#[trigger] s[i]) || 65 <= s[i] as int <= 70 || 97
            <= s[i] as int <= 102
}

proof fn lemma_hex_run(d: Seq<char>, rest: Seq<char>)
    requires
        all_hex(d),
        rest.len() > 0,
        rest[0] == ';',
    ensures
        hex_run(d + rest) == d.len(),
    decreases d.len(),
{
    if d.len() > 0 {
        assert(is_numeral(d[0]) || 65 <= d[0] as int <= 70 || 97 <= d[0] as int <= 102);
        let t = d.drop_first();
        assert((d + rest).drop_first() =~= t + rest);
        assert forall|i: int| 0 <= i < t.len() implies is_numeral(#[trigger] t[i]) || 65
            <= t[i] as int <= 70 || 97 <= t[i] as int <= 102 by {
            assert(t[i] == d[i + 1]);
        }
        lemma_hex_run(t, rest);
    } else {
        assert(d + rest =~= rest);
    }
}

/// Text before an `&` stays.
pub proof fn law_text_before_an_entity_stays(a: Seq<char>, s: Seq<char>)
    requires
        !a.contains('&'),
    ensures
        decode_numeric(a + s) == a + decode_numeric(s),
    decreases a.len(),
{
    if a.len() == 0 {
        assert(a + s =~= s);
        assert(a + decode_numeric(s) =~= decode_numeric(s));
    } else {
        let u = a.drop_first();
        assert(a.contains(a[0]));
        assert((a + s).drop_first() =~= u + s);
        assert(!u.contains('&')) by {
            if u.contains('&') {
                let i = choose|i: int| 0 <= i < u.len() && u[i] == '&';
                assert(a[i + 1] == '&');
            }
        }
        law_text_before_an_entity_stays(u, s);
        assert(seq![a[0]] + (u + decode_numeric(s)) =~= a + decode_numeric(s));
    }
}

/// A number in decimal between `&#` and `;`, and one in hexadecimal between `&#x` and `;`, stands
/// for the character that has it; a number that no character has stays as it is written.
pub proof fn law_numeric_entity(hex: bool, x: char, d: Seq<char>, rest: Seq<char>)
    requires
        x == 'x' || x == 'X',
        d.len() > 0,
        hex ==> all_hex(d),
        !hex ==> forall|i: int| 0 <= i < d.len() ==> is_numeral(#[trigger] d[i]),
    ensures
        ({
            let s = (if hex {
                seq!['&', '#', x]
            } else {
                seq!['&', '#']
            }) + d + seq![';'] + rest;
            let n = numeral(d, if hex {
                16nat
            } else {
                10
            });
            &&& (n matches Some(v) && (v <= 0xd7ff || 0xe000 <= v <= 0x10ffff)) ==> decode_numeric(s)
                == seq![(n->0) as char] + decode_numeric(rest)
            &&& !(n matches Some(v) && (v <= 0xd7ff || 0xe000 <= v <= 0x10ffff))
                ==> decode_numeric(s) == seq!['&'] + decode_numeric(s.skip(1))
        }),
{
    let mark = if hex {
        seq!['&', '#', x]
    } else {
        seq!['&', '#']
    };
    let s = mark + d + seq![';'] + rest;
    let st: int = mark.len() as int;
    let tail = seq![';'] + rest;
    assert(all_hex(d));
    lemma_hex_run(d, tail);
    assert(s.skip(st) =~= d + tail);
    assert(s[2] == (if hex {
        x
    } else {
        d[0]
    }));
    assert(s[0] == '&' && s[1] == '#');
    let j = st + d.len();
    assert(s[j] == ';');
    assert(s.subrange(st, j) =~= d);
    assert(s.skip(j + 1) =~= rest);
    assert(s.skip(1) =~= s.drop_first());
}

/// Text without tags and without `&` becomes its words, with one space between two of them.
pub proof fn law_plain_words(s: Seq<char>)
    requires
        !s.contains('<'),
        !s.contains('&'),
    ensures
        plain_text(s) == join(words(s), seq![' ']),
{
    law_plain_text_keeps_its_characters(s);
    assert forall|i: int| 0 <= i < s.len() implies #[trigger] s[i] != '&' by {
        assert(s.contains(s[i]));
    }
    law_text_without_entities_stays(s);
    let none = Seq::<char>::empty();
    law_text_before_an_entity_stays(s, none);
    assert(decode_numeric(none) =~= none);
    assert(s + none =~= s);
    lemma_signs();
}

/// Tags are removed before entities are decoded: what an entity uncovers is text, not markup. The
/// named entities come before the numeric ones, and spaces are made single last.
pub proof fn law_order_of_decoding(src: Seq<char>)
    ensures
        plain_text(src) == join(
            words(decode_numeric(decode_named(strip_tags(src)))),
            seq![' '],
        ),
{
    lemma_signs();
}

// ---------------------------------------------------------------------------
// Laws on what a call gives
// ---------------------------------------------------------------------------

/// The text of a document without markup is its words with one space between two of them.
pub proof fn law_text_of_plain_words(src: &str, r: String)
    requires
        call_ensures(html_to_text, (src,), r),
        !src@.contains('<'),
        !src@.contains('&'),
    ensures
        r@ == join(words(src@), seq![' ']),
{
    law_plain_words(src@);
}

/// Two documents that differ only in the contents of a script or a style sheet have the same text.
pub proof fn law_scripts_do_not_matter(
    name: Seq<char>,
    attrs: Seq<char>,
    body: Seq<char>,
    other: Seq<char>,
    rest: Seq<char>,
    a: &str,
    b: &str,
    r: String,
    s: String,
)
    requires
        name == script() || name == style(),
        in_tag(name, attrs),
        a@ == seq!['<'] + name + attrs + seq!['>'] + (body + closing(name) + Seq::<char>::empty()
            + seq!['>'] + rest),
        b@ == seq!['<'] + name + attrs + seq!['>'] + (other + closing(name) + Seq::<char>::empty()
            + seq!['>'] + rest),
        forall|i: int|
            0 <= i < body.len() ==> !#[trigger] alike_at(body + closing(name), closing(name), i),
        forall|i: int|
            0 <= i < other.len() ==> !#[trigger] alike_at(other + closing(name), closing(name), i),
        call_ensures(html_to_text, (a,), r),
        call_ensures(html_to_text, (b,), s),
    ensures
        r@ == s@,
{
    let none = Seq::<char>::empty();
    assert(alike(name, name));
    law_script_and_style_are_dropped(name, name, attrs, body, name, none, rest);
    law_script_and_style_are_dropped(name, name, attrs, other, name, none, rest);
}

/// A tag that is never closed hides everything after it.
pub proof fn law_open_tag_hides_the_rest(s: Seq<char>)
    requires
        s.len() > 0,
        s[0] == '<',
        !s.contains('>'),
    ensures
        strip_tags(s) == seq![' '],
{
    let none = Seq::<char>::empty();
    lemma_run_until(s, '>');
    let k = run_until(s, '>') as int;
    if k < s.len() {
        assert(s[k] == '>');
        assert(s.contains(s[k]));
    }
    assert(after_tag(s) =~= none);
    assert(after_element(none, tag_name(s)) =~= none);
    assert(strip_tags(none) =~= none);
    assert(seq![' '] + none =~= seq![' ']);
}

/// An `&` that begins no number stays: one that is not followed by `#`, and one whose digits are
/// missing or do not end in `;`.
pub proof fn law_plain_ampersand_stays(d: Seq<char>, rest: Seq<char>)
    requires
        all_hex(d),
        rest.len() > 0 ==> rest[0] != ';' && !is_numeral(rest[0]) && !(65 <= rest[0] as int <= 70)
            && !(97 <= rest[0] as int <= 102),
        d.len() > 0 || (rest.len() > 0 ==> rest[0] != 'x' && rest[0] != 'X'),
    ensures
        decode_numeric(seq!['&', '#'] + d + rest) == seq!['&'] + decode_numeric(
            seq!['#'] + d + rest,
        ),
        rest.len() > 0 && rest[0] != '#' ==> decode_numeric(seq!['&'] + rest) == seq!['&']
            + decode_numeric(rest),
{
    let s = seq!['&', '#'] + d + rest;
    assert(s.drop_first() =~= seq!['#'] + d + rest);
    assert(s.skip(2) =~= d + rest);
    lemma_hex_run_ends(d, rest);
    if d.len() > 0 {
        assert(is_numeral(d[0]) || 65 <= d[0] as int <= 70 || 97 <= d[0] as int <= 102);
        assert(s[2] == d[0]);
    } else if rest.len() > 0 {
        assert(s[2] == rest[0]);
    }
    assert(numeric_entity(s) is None) by {
        let j = 2 + d.len();
        if j < s.len() {
            assert(s[j as int] == rest[0]);
        }
    }
    let t = seq!['&'] + rest;
    assert(t.drop_first() =~= rest);
    if rest.len() > 0 {
        assert(t[1] == rest[0]);
    }
}

proof fn lemma_hex_run_ends(d: Seq<char>, rest: Seq<char>)
    requires
        all_hex(d),
        rest.len() > 0 ==> !is_numeral(rest[0]) && !(65 <= rest[0] as int <= 70) && !(97
            <= rest[0] as int <= 102),
    ensures
        hex_run(d + rest) == d.len(),
    decreases d.len(),
{
    if d.len() > 0 {
        assert(is_numeral(d[0]) || 65 <= d[0] as int <= 70 || 97 <= d[0] as int <= 102);
        let t = d.drop_first();
        assert((d + rest).drop_first() =~= t + rest);
        assert forall|i: int| 0 <= i < t.len() implies is_numeral(#[trigger] t[i]) || 65
            <= t[i] as int <= 70 || 97 <= t[i] as int <= 102 by {
            assert(t[i] == d[i + 1]);
        }
        lemma_hex_run_ends(t, rest);
    } else {
        assert(d + rest =~= rest);
    }
}

} // verus!
