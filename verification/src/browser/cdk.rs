//! Asking how often a CDK can still be used, and merging CDKs.
use crate::browser::fetch::{count_doc, count_json, due, poll_step, small, PollStep};
use crate::json::{bool_doc, entries, object_doc, string_doc, strings, strings_doc, Json, JsonV};
use crate::text::basic::{
    blank, is_blank, join, joined, opt_text, text2, text4, texts, trim, trimmed,
};
use crate::text::charwise::{
    core_at, is_core, is_space, law_core_is_unique, law_dropped_ends, law_filled, law_join,
    law_split, law_substring, law_trim, only_spaces, spelled,
};
use crate::text::numeral::{decimal, number_text, opt_nat, read_unsigned, unsigned};
use crate::text::search::{
    begins, begins_with, drop_prefix, drop_suffix, replace_all, replaced, without_prefix,
    without_suffix,
};
use crate::text::split::{filled, keep_filled, split, split_at_char};
use vstd::prelude::*;

verus! {

// ---------------------------------------------------------------------------
// How often a CDK can be used
// ---------------------------------------------------------------------------

/// The parts of a text such as `剩余 3 / 10 次`: what stands between the two words, cut at the
/// slashes.
pub open spec fn left_parts(s: Seq<char>) -> Seq<Seq<char>> {
    let t = trim(s);
    let rest = trim(
        if begins(t, "剩余"@) {
            without_prefix(t, "剩余"@)
        } else {
            s
        },
    );
    split(trim(without_suffix(rest, "次"@)), '/')
}

/// The numbers in a text such as `剩余 3 / 10 次`: how often a CDK can still be used, and how
/// often it could be in all.
pub open spec fn left_numbers(s: Seq<char>) -> (Option<nat>, Option<nat>) {
    let parts = left_parts(s);
    (
        unsigned(trim(parts[0])),
        if parts.len() > 1 {
            unsigned(trim(parts[1]))
        } else {
            None
        },
    )
}

/// The numbers in a text such as `剩余 3 / 10 次`.
pub fn parse_nums(s: &str) -> (r: (Option<u64>, Option<u64>))
    ensures
        (opt_nat(r.0), opt_nat(r.1)) == left_numbers(s@),
{
    let t = trimmed(s);
    let rest = if begins_with(t.as_str(), "剩余") {
        drop_prefix(t.as_str(), "剩余")
    } else {
        s.to_owned()
    };
    let rest = trimmed(rest.as_str());
    let rest = drop_suffix(rest.as_str(), "次");
    let rest = trimmed(rest.as_str());
    let parts = split_at_char(rest.as_str(), '/');
    assert(texts(parts@).len() == parts@.len());
    assert(texts(parts@)[0] == parts@[0]@);
    let first = trimmed(parts[0].as_str());
    let a = read_unsigned(first.as_str());
    let b = if parts.len() > 1 {
        assert(texts(parts@)[1] == parts@[1]@);
        let second = trimmed(parts[1].as_str());
        read_unsigned(second.as_str())
    } else {
        None
    };
    (a, b)
}

/// Why a CDK cannot be asked about.
pub fn check_refused(cdk: &str, cancelled: bool) -> (r: Option<String>)
    ensures
        opt_text(r) == (if blank(cdk@) {
            Some("未保存 CDK，请先填写并保存 CDK"@)
        } else if cancelled {
            Some("已取消"@)
        } else {
            None
        }),
{
    if is_blank(cdk) {
        Some("未保存 CDK，请先填写并保存 CDK".to_owned())
    } else if cancelled {
        Some("已取消".to_owned())
    } else {
        None
    }
}

/// How long an answer about a CDK is waited for, in milliseconds.
pub const CHECK_MS: u128 = 30000;

/// What to do before another look at the answer about a CDK. `left` and `err` are the texts of the
/// page's answer and of its error: one of them ends the waiting.
pub fn check_next(left: &str, err: &str, now: u128, cancelled: bool) -> (r: PollStep)
    ensures
        r == due(left@.len() > 0 || err@.len() > 0, now, CHECK_MS, cancelled),
{
    poll_step(!left.is_empty() || !err.is_empty(), now, CHECK_MS, cancelled)
}

/// What is reported of a CDK about which the page answers `left`.
pub open spec fn check_doc(cdk: Seq<char>, left: Seq<char>, errors: Seq<Seq<char>>) -> JsonV {
    JsonV::Obj(
        seq![
            ("cdk"@, JsonV::Str(cdk)),
            ("errors"@, strings(errors)),
            ("left_text"@, JsonV::Str(left)),
            ("ok"@, JsonV::Bool(true)),
            ("quota"@, count_doc(small(left_numbers(left).1))),
            ("remaining"@, count_doc(small(left_numbers(left).0))),
        ],
    )
}

/// The answer to a question about a CDK, or why there is none. `left` and `err` are the texts of
/// the page's answer and of its error.
pub fn check_result(cdk: &str, left: &str, err: &str, errors: &Vec<String>) -> (r: Result<
    Json,
    String,
>)
    ensures
        if err@.len() > 0 {
            r matches Err(e) && e@ == "查询失败："@ + err@
        } else if left@.len() == 0 {
            r matches Err(e) && e@ == "查询超时，未拿到剩余次数"@
        } else {
            r matches Ok(d) && d@ == check_doc(cdk@, left@, texts(errors@))
        },
{
    if !err.is_empty() {
        return Err(text2("查询失败：", err));
    }
    if left.is_empty() {
        return Err("查询超时，未拿到剩余次数".to_owned());
    }
    let (remaining, quota) = parse_nums(left);
    let mut o: Vec<(String, Json)> = Vec::new();
    o.push(("cdk".to_owned(), string_doc(cdk)));
    o.push(("errors".to_owned(), strings_doc(errors)));
    o.push(("left_text".to_owned(), string_doc(left)));
    o.push(("ok".to_owned(), bool_doc(true)));
    o.push(("quota".to_owned(), count_json(quota)));
    o.push(("remaining".to_owned(), count_json(remaining)));
    assert(small(left_numbers(left@).0) == remaining);
    assert(small(left_numbers(left@).1) == quota);
    assert(entries(o@) =~= check_doc(cdk@, left@, texts(errors@))->Obj_0);
    Ok(object_doc(o))
}

// ---------------------------------------------------------------------------
// Merging
// ---------------------------------------------------------------------------

/// Why CDKs cannot be merged.
pub fn merge_refused(codes: &Vec<String>, cancelled: bool) -> (r: Option<String>)
    ensures
        opt_text(r) == (if codes@.len() < 2 {
            Some("至少需要两张 CDK 才能合并"@)
        } else if cancelled {
            Some("已取消"@)
        } else {
            None
        }),
{
    if codes.len() < 2 {
        Some("至少需要两张 CDK 才能合并".to_owned())
    } else if cancelled {
        Some("已取消".to_owned())
    } else {
        None
    }
}

/// The CDK with which the entry page is passed, and the text of the others, one on a line; blank
/// ones are left out.
pub fn merge_inputs(codes: &Vec<String>) -> (r: (String, String))
    requires
        codes@.len() >= 2,
    ensures
        r.0@ == trim(codes@[0]@),
        r.1@ == join(filled(texts(codes@).skip(1)), "\n"@),
{
    let other = keep_filled(codes, 1);
    (trimmed(codes[0].as_str()), joined(&other, "\n"))
}

/// The line that announces the merging of `n` CDKs.
pub fn merge_line(n: usize, input: &str) -> (r: String)
    ensures
        r@ == "填入合并 CDK（共 "@ + decimal(n as nat) + " 张）：\\n"@ + replace_all(
            input@,
            "\n"@,
            ", "@,
        ),
{
    proof {
        reveal_strlit("\n");
    }
    let k = number_text(n as u64);
    let list = replaced(input, "\n", ", ");
    text4("填入合并 CDK（共 ", k.as_str(), " 张）：\\n", list.as_str())
}

/// What a look at the page means while CDKs are merged.
#[derive(Debug)]
pub enum MergeStep {
    /// The merging is not over.
    Wait,
    /// There is a new CDK.
    Done,
    Failed(String),
}

/// Decides what a look at the page means.
pub fn merge_step(new_cdk: &str, banner_visible: bool, error: &str) -> (r: MergeStep)
    ensures
        if banner_visible && new_cdk@.len() > 0 {
            r is Done
        } else if error@.len() > 0 {
            r matches MergeStep::Failed(e) && e@ == "合并失败："@ + error@
        } else {
            r is Wait
        },
{
    if banner_visible && !new_cdk.is_empty() {
        MergeStep::Done
    } else if !error.is_empty() {
        MergeStep::Failed(text2("合并失败：", error))
    } else {
        MergeStep::Wait
    }
}

/// How long a merging is waited for, in milliseconds.
pub const MERGE_MS: u128 = 60000;

/// What to do before another look at the merging. `last` is what the last look meant.
pub fn merge_next(last: &MergeStep, now: u128, cancelled: bool) -> (r: PollStep)
    ensures
        r == due(!(last is Wait), now, MERGE_MS, cancelled),
{
    let over = match last {
        MergeStep::Wait => false,
        _ => true,
    };
    poll_step(over, now, MERGE_MS, cancelled)
}

/// What is reported of a merging, or that there was no new CDK in time.
pub fn merge_result(new_cdk: &str, new_left: &str, errors: &Vec<String>) -> (r: Result<
    Json,
    String,
>)
    ensures
        match r {
            Ok(d) => new_cdk@.len() > 0 && d@ == JsonV::Obj(
                seq![
                    ("errors"@, strings(texts(errors@))),
                    ("new_cdk"@, JsonV::Str(new_cdk@)),
                    ("new_left"@, JsonV::Str(new_left@)),
                    ("ok"@, JsonV::Bool(true)),
                ],
            ),
            Err(e) => new_cdk@.len() == 0 && e@ == "合并超时，未拿到新 CDK"@,
        },
{
    if new_cdk.is_empty() {
        return Err("合并超时，未拿到新 CDK".to_owned());
    }
    let mut o: Vec<(String, Json)> = Vec::new();
    o.push(("errors".to_owned(), strings_doc(errors)));
    o.push(("new_cdk".to_owned(), string_doc(new_cdk)));
    o.push(("new_left".to_owned(), string_doc(new_left)));
    o.push(("ok".to_owned(), bool_doc(true)));
    assert(entries(o@) =~= seq![
        ("errors"@, strings(texts(errors@))),
        ("new_cdk"@, JsonV::Str(new_cdk@)),
        ("new_left"@, JsonV::Str(new_left@)),
        ("ok"@, JsonV::Bool(true)),
    ]);
    Ok(object_doc(o))
}

// ---------------------------------------------------------------------------
// Laws
// ---------------------------------------------------------------------------

proof fn lemma_core_of_rest(x: Seq<char>, a: int)
    requires
        0 <= a <= x.len(),
        forall|i: int| 0 <= i < a ==> is_space(#[trigger] x[i]),
    ensures
        trim(x.skip(a)) == trim(x),
{
    let t = x.skip(a);
    law_trim(t);
    let (c, d) = choose|c: int, d: int| #[trigger] core_at(t, trim(t), c, d);
    assert(t.subrange(c, d) =~= x.subrange(a + c, a + d));
    assert forall|i: int| 0 <= i < a + c || a + d <= i < x.len() implies is_space(#[trigger] x[i]) by {
        if i >= a {
            assert(x[i] == t[i - a]);
        }
    }
    assert(core_at(x, trim(t), a + c, a + d));
    law_core_is_unique(x, trim(t));
}

proof fn lemma_core_of_head(y: Seq<char>, m: int)
    requires
        0 <= m <= y.len(),
        forall|i: int| m <= i < y.len() ==> is_space(#[trigger] y[i]),
    ensures
        trim(y.take(m)) == trim(y),
{
    let t = y.take(m);
    law_trim(t);
    let (c, d) = choose|c: int, d: int| #[trigger] core_at(t, trim(t), c, d);
    assert(t.subrange(c, d) =~= y.subrange(c, d));
    assert forall|i: int| 0 <= i < c || d <= i < y.len() implies is_space(#[trigger] y[i]) by {
        if i < m {
            assert(y[i] == t[i]);
        }
    }
    assert(core_at(y, trim(t), c, d));
    law_core_is_unique(y, trim(t));
}

proof fn lemma_no_space_around(s: Seq<char>)
    requires
        s.len() > 0 ==> !is_space(s[0]) && !is_space(s.last()),
    ensures
        trim(s) == s,
{
    law_trim(s);
    let t = trim(s);
    let (a, b) = choose|a: int, b: int| #[trigger] core_at(s, t, a, b);
    if s.len() > 0 {
        assert(a == 0) by {
            if a > 0 {
                assert(is_space(s[0]));
            }
        }
        assert(b == s.len()) by {
            if b < s.len() {
                assert(is_space(s[s.len() - 1]));
            }
        }
    }
    assert(t =~= s);
}

proof fn lemma_without_first_word(body: Seq<char>)
    ensures
        ({
            let s = "剩余"@ + body + "次"@;
            &&& trim(s) == s
            &&& begins(s, "剩余"@)
            &&& without_prefix(s, "剩余"@) == body + "次"@
        }),
{
    reveal_strlit("剩余");
    reveal_strlit("次");
    let s = "剩余"@ + body + "次"@;
    let u = body + "次"@;
    assert(s[0] == '剩' && s.last() == '次');
    lemma_no_space_around(s);
    assert(s =~= "剩余"@ + u);
    law_dropped_ends(u, "剩余"@);
    assert(s.subrange(0, 2) =~= "剩余"@);
}

proof fn lemma_without_last_word(body: Seq<char>)
    ensures
        trim(without_suffix(trim(body + "次"@), "次"@)) == trim(body),
{
    reveal_strlit("次");
    let u = body + "次"@;
    let rest = trim(u);
    law_trim(u);
    let (a, b) = choose|a: int, b: int| #[trigger] core_at(u, rest, a, b);
    let n = body.len() as int;
    assert(u[n] == '次');
    assert(a <= n < b) by {
        if !(a <= n < b) {
            assert(is_space(u[n]));
        }
    }
    assert(rest =~= body.skip(a) + "次"@);
    law_dropped_ends(body.skip(a), "次"@);
    assert forall|i: int| 0 <= i < a implies is_space(#[trigger] body[i]) by {
        assert(u[i] == body[i]);
    }
    lemma_core_of_rest(body, a);
}

/// What is left between the two words of a text such as `剩余 3 / 10 次`, in which `body` stands
/// between them: `body` without the spaces around it.
proof fn lemma_between_the_words(body: Seq<char>)
    ensures
        left_parts("剩余"@ + body + "次"@) == split(trim(body), '/'),
{
    lemma_without_first_word(body);
    lemma_without_last_word(body);
}

/// In a text such as `剩余 3 / 10 次` the first number is how often the CDK can still be used, and
/// the second how often it could be in all; spaces around them do not matter.
pub proof fn law_numbers_of_a_cdk(x: Seq<char>, y: Seq<char>)
    requires
        !x.contains('/'),
        !y.contains('/'),
    ensures
        left_numbers("剩余"@ + (x + seq!['/'] + y) + "次"@) == (unsigned(trim(x)), unsigned(trim(y))),
{
    let body = x + seq!['/'] + y;
    lemma_between_the_words(body);
    let t = trim(body);
    law_trim(body);
    let (a, b) = choose|a: int, b: int| #[trigger] core_at(body, t, a, b);
    let n = x.len() as int;
    assert(body[n] == '/');
    assert(a <= n < b) by {
        if !(a <= n < b) {
            assert(is_space(body[n]));
        }
    }
    let m = b - n - 1;
    let p = x.skip(a);
    let q = y.take(m);
    assert(t =~= p + seq!['/'] + q);
    assert(!p.contains('/')) by {
        if p.contains('/') {
            let i = choose|i: int| 0 <= i < p.len() && p[i] == '/';
            assert(x[i + a] == '/');
        }
    }
    assert(!q.contains('/')) by {
        if q.contains('/') {
            let i = choose|i: int| 0 <= i < q.len() && q[i] == '/';
            assert(y[i] == '/');
        }
    }
    law_split(p, q, '/');
    law_split(q, q, '/');
    assert(split(t, '/') == seq![p] + seq![q]);
    assert forall|i: int| 0 <= i < a implies is_space(#[trigger] x[i]) by {
        assert(body[i] == x[i]);
    }
    assert forall|i: int| m <= i < y.len() implies is_space(#[trigger] y[i]) by {
        assert(body[n + 1 + i] == y[i]);
    }
    lemma_core_of_rest(x, a);
    lemma_core_of_head(y, m);
}

/// A text such as `剩余 3 次` tells how often the CDK can still be used, and nothing more.
pub proof fn law_number_of_a_cdk(x: Seq<char>)
    requires
        !x.contains('/'),
    ensures
        left_numbers("剩余"@ + x + "次"@) == (unsigned(trim(x)), None::<nat>),
{
    lemma_between_the_words(x);
    let t = trim(x);
    law_trim(x);
    let (a, b) = choose|a: int, b: int| #[trigger] core_at(x, t, a, b);
    assert(!t.contains('/')) by {
        if t.contains('/') {
            let i = choose|i: int| 0 <= i < t.len() && t[i] == '/';
            assert(x[i + a] == '/');
        }
    }
    law_split(t, t, '/');
    if t.len() > 0 {
        assert(t[0] == x[a] && t[t.len() - 1] == x[b - 1]);
    }
    lemma_no_space_around(t);
}

/// What is reported of a CDK holds the two numbers that the page tells, each in its place.
pub proof fn law_cdk_report(cdk: Seq<char>, left: Seq<char>, errors: Seq<Seq<char>>)
    ensures
        check_doc(cdk, left, errors) matches JsonV::Obj(o) && o.len() == 6 && o[0] == (
            "cdk"@,
            JsonV::Str(cdk),
        ) && o[1] == ("errors"@, strings(errors)) && o[2] == ("left_text"@, JsonV::Str(left))
            && o[3] == ("ok"@, JsonV::Bool(true)) && o[4] == (
            "quota"@,
            count_doc(small(left_numbers(left).1)),
        ) && o[5] == ("remaining"@, count_doc(small(left_numbers(left).0))),
{
}

/// An answer about a CDK is waited for half a minute, and a merging a whole one.
pub proof fn law_waiting_times(now: u128)
    ensures
        due(false, now, CHECK_MS, false) == (if now >= 30000 {
            PollStep::TimedOut
        } else {
            PollStep::Look
        }),
        due(false, now, MERGE_MS, false) == (if now >= 60000 {
            PollStep::TimedOut
        } else {
            PollStep::Look
        }),
{
}

// ---------------------------------------------------------------------------
// Laws on what a call gives
// ---------------------------------------------------------------------------

/// The numbers that are read from a text such as `剩余 3 / 10 次` are the two in it, in their order.
pub proof fn law_read_numbers(
    s: &str,
    r: (Option<u64>, Option<u64>),
    x: Seq<char>,
    y: Seq<char>,
)
    requires
        call_ensures(parse_nums, (s,), r),
        s@ == "剩余"@ + (x + seq!['/'] + y) + "次"@,
        !x.contains('/'),
        !y.contains('/'),
    ensures
        opt_nat(r.0) == unsigned(trim(x)),
        opt_nat(r.1) == unsigned(trim(y)),
{
    law_numbers_of_a_cdk(x, y);
}

/// A question about a CDK is answered exactly where the page tells how often it can be used and no
/// error.
pub proof fn law_answered_question(
    cdk: &str,
    left: &str,
    err: &str,
    errors: &Vec<String>,
    r: Result<Json, String>,
)
    requires
        call_ensures(check_result, (cdk, left, err, errors), r),
    ensures
        r is Ok <==> err@.len() == 0 && left@.len() > 0,
{
}

/// A merging is over where there is a new CDK and the page says so, or an error.
pub proof fn law_merging(new_cdk: &str, banner: bool, error: &str, r: MergeStep)
    requires
        call_ensures(merge_step, (new_cdk, banner, error), r),
    ensures
        r is Done <==> banner && new_cdk@.len() > 0,
        r is Failed <==> !(banner && new_cdk@.len() > 0) && error@.len() > 0,
{
}

/// The first CDK passes the entry page, and the others are merged into it, one on a line, without
/// blank ones.
pub proof fn law_merged_cdks(codes: &Vec<String>, r: (String, String))
    requires
        call_ensures(merge_inputs, (codes,), r),
        codes@.len() >= 2,
    ensures
        is_core(codes@[0]@, r.0@),
        codes@.len() == 2 && !only_spaces(codes@[1]@) ==> is_core(codes@[1]@, r.1@),
        r.1@ == join(filled(texts(codes@).skip(1)), seq!['\n']),
{
    law_trim(codes@[0]@);
    law_trim(codes@[1]@);
    reveal_strlit("\n");
    assert("\n"@ =~= seq!['\n']);
    if codes@.len() == 2 {
        let rest = texts(codes@).skip(1);
        assert(rest =~= seq![codes@[1]@]);
        law_filled(rest, Seq::empty());
        law_join(filled(rest), Seq::empty(), "\n"@);
    }
}

/// There is a result of a merging exactly where there is a new CDK.
pub proof fn law_merging_result(
    new_cdk: &str,
    new_left: &str,
    errors: &Vec<String>,
    r: Result<Json, String>,
)
    requires
        call_ensures(merge_result, (new_cdk, new_left, errors), r),
    ensures
        r is Ok <==> new_cdk@.len() > 0,
        r matches Ok(d) ==> (d@ matches JsonV::Obj(o) && o.len() == 4 && o[1] == (
            "new_cdk"@,
            JsonV::Str(new_cdk@),
        ) && o[2] == ("new_left"@, JsonV::Str(new_left@))),
{
}

/// A CDK is asked about where it is not blank and the user did not give up; CDKs are merged where
/// there are two of them.
pub proof fn law_refusals(
    cdk: &str,
    codes: &Vec<String>,
    cancelled: bool,
    r: Option<String>,
    s: Option<String>,
)
    requires
        call_ensures(check_refused, (cdk, cancelled), r),
        call_ensures(merge_refused, (codes, cancelled), s),
    ensures
        r is None <==> !only_spaces(cdk@) && !cancelled,
        s is None <==> codes@.len() >= 2 && !cancelled,
{
    law_trim(cdk@);
}

/// The two words around the numbers may be missing.
pub proof fn law_words_do_not_matter(body: Seq<char>)
    requires
        !spelled(trim(body), "剩余"@, 0),
        !spelled(trim(body), "次"@, trim(body).len() - 1),
    ensures
        left_numbers(body) == left_numbers("剩余"@ + body + "次"@),
{
    reveal_strlit("次");
    lemma_between_the_words(body);
    let t = trim(body);
    law_substring(t, "剩余"@);
    law_dropped_ends(t, "次"@);
    law_trim(body);
    let (a, b) = choose|a: int, b: int| #[trigger] core_at(body, t, a, b);
    if t.len() > 0 {
        assert(t[0] == body[a] && t[t.len() - 1] == body[b - 1]);
    }
    lemma_no_space_around(t);
}

/// A question that is not answered tells the page's error, or that there was no answer in time.
pub proof fn law_unanswered_question(
    cdk: &str,
    left: &str,
    err: &str,
    errors: &Vec<String>,
    e: String,
)
    requires
        call_ensures(check_result, (cdk, left, err, errors), Err::<Json, String>(e)),
    ensures
        err@.len() > 0 ==> e@ == "查询失败："@ + err@,
        err@.len() == 0 ==> left@.len() == 0 && e@ == "查询超时，未拿到剩余次数"@,
{
}

} // verus!
