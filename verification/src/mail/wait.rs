//! Waiting for a new verification code.
//!
//! The service fetches mail only when it is told to, so the waiting alternates between telling it
//! to and reading the records. What to do next, and what a reading means, is decided here.
use crate::mail::code::mail_code;
use crate::mail::record::{
    law_latest_code_is_picked, law_marked_mail_is_old, law_picked_code_is_of_a_mail, marks,
    offers_code, openai_code, pick_code, picked, MailBaseline, MailRecord,
};
use crate::text::basic::{opt_text, text2, text3, text4, text5, texts};
use crate::text::numeral::{decimal, decimal_int, integer_text, number_text};
use vstd::prelude::*;

verus! {

/// The least time between two fetches, in nanoseconds.
pub const CHECK_EVERY: u128 = 15_000_000_000;

/// What to do next while waiting.
#[derive(Debug, Clone, Copy, PartialEq, Eq, Structural)]
pub enum WaitStep {
    /// The time is over.
    TimedOut,
    /// The user gave up.
    Cancelled,
    /// Tell the service to fetch mail, then read the records.
    CheckAndRead,
    /// Read the records.
    Read,
}

/// The state of the waiting for a code.
#[derive(Debug, Clone)]
pub struct CodeWait {
    pub base: MailBaseline,
    /// When the service was last told to fetch mail, counted from the start.
    pub last_check: Option<u128>,
    pub told_checking: bool,
    pub told_waiting: bool,
    /// The numbers of the new mails that were reported.
    pub seen: Vec<i64>,
}

/// The mails that came after the water mark.
pub open spec fn fresh(base: MailBaseline, recs: Seq<MailRecord>) -> Seq<MailRecord>
    decreases recs.len(),
{
    if recs.len() == 0 {
        Seq::empty()
    } else if base.precedes(recs.last()) {
        fresh(base, recs.drop_last()).push(recs.last())
    } else {
        fresh(base, recs.drop_last())
    }
}

/// The line that reports a new mail.
pub open spec fn new_mail_line(r: MailRecord) -> Seq<char> {
    "新邮件："@ + r.sender@ + " | "@ + r.subject@
}

/// The lines that report the mails whose number is not in `seen`, each number once.
pub open spec fn new_mail_lines(recs: Seq<MailRecord>, seen: Set<i64>) -> Seq<Seq<char>>
    decreases recs.len(),
{
    if recs.len() == 0 {
        Seq::empty()
    } else if seen.contains(recs[0].id) {
        new_mail_lines(recs.drop_first(), seen)
    } else {
        seq![new_mail_line(recs[0])] + new_mail_lines(
            recs.drop_first(),
            seen.insert(recs[0].id),
        )
    }
}

/// The numbers of the mails.
pub open spec fn ids_of(recs: Seq<MailRecord>) -> Set<i64> {
    Set::new(|id: i64| exists|i: int| 0 <= i < recs.len() && (#[trigger] recs[i]).id == id)
}

/// What follows the report of new mails, or takes its place where there is none: the code that
/// was found, or once that there is none yet.
pub open spec fn outcome_lines(
    all: nat,
    new: Seq<MailRecord>,
    told_waiting: bool,
) -> Seq<Seq<char>> {
    match picked(new) {
        Some((code, subject)) => seq!["从「"@ + subject + "」取到验证码："@ + code],
        None => if told_waiting {
            Seq::empty()
        } else if new.len() == 0 {
            seq!["已触发收信，等待新邮件…（当前 "@ + decimal(all) + " 封，暂无新件）"@]
        } else {
            seq!["收到 "@ + decimal(new.len()) + " 封新邮件，但还没解析出验证码"@]
        },
    }
}

/// The code alone.
pub open spec fn code_of(p: Option<(Seq<char>, Seq<char>)>) -> Option<Seq<char>> {
    match p {
        Some((code, _)) => Some(code),
        None => None,
    }
}

/// Collects the mails that came after the water mark.
pub fn fresh_records<'a>(base: &MailBaseline, recs: &'a Vec<MailRecord>) -> (r: Vec<&'a MailRecord>)
    ensures
        r@.unref() == fresh(*base, recs@),
{
    let mut out: Vec<&'a MailRecord> = Vec::new();
    let mut i: usize = 0;
    while i < recs.len()
        invariant
            i <= recs@.len(),
            out@.unref() == fresh(*base, recs@.take(i as int)),
        decreases recs@.len() - i,
    {
        assert(recs@.take(i + 1).drop_last() == recs@.take(i as int));
        if base.is_new(&recs[i]) {
            let ghost was = out@.unref();
            out.push(&recs[i]);
            assert(out@.unref() =~= was.push(recs@[i as int]));
        }
        i += 1;
    }
    assert(recs@.take(recs@.len() as int) == recs@);
    out
}

fn id_in(ids: &Vec<i64>, id: i64) -> (r: bool)
    ensures
        r == ids@.to_set().contains(id),
{
    let mut i: usize = 0;
    while i < ids.len()
        invariant
            i <= ids@.len(),
            forall|j: int| 0 <= j < i ==> ids@[j] != id,
        decreases ids@.len() - i,
    {
        if ids[i] == id {
            assert(ids@.contains(ids@[i as int]));
            return true;
        }
        i += 1;
    }
    false
}

impl CodeWait {
    /// The start of the waiting for mail that comes after `base`.
    pub fn begin(base: MailBaseline) -> (r: CodeWait)
        ensures
            r.base == base,
            r.last_check is None,
            !r.told_checking,
            !r.told_waiting,
            r.seen@.to_set() == Set::<i64>::empty(),
    {
        let seen: Vec<i64> = Vec::new();
        assert(seen@.to_set() =~= Set::<i64>::empty());
        CodeWait { base, last_check: None, told_checking: false, told_waiting: false, seen }
    }

    /// The line that opens the waiting.
    pub fn opening(&self) -> (r: String)
        ensures
            r@ == "收码站 mailbox_id="@ + decimal_int(self.base.email_id as int) + "，历史邮件 "@
                + decimal(self.base.existing as nat) + " 封，只认之后到达的新邮件"@,
    {
        let id = integer_text(self.base.email_id);
        let n = number_text(self.base.existing as u64);
        text5(
            "收码站 mailbox_id=",
            id.as_str(),
            "，历史邮件 ",
            n.as_str(),
            " 封，只认之后到达的新邮件",
        )
    }

    /// Decides what to do at `now`, counted from the start. The first fetch comes at once, and
    /// every later one no sooner than [`CHECK_EVERY`] after the one before.
    pub fn next(&self, now: u128, timeout: u128, cancelled: bool) -> (r: WaitStep)
        ensures
            r == (if now >= timeout {
                WaitStep::TimedOut
            } else if cancelled {
                WaitStep::Cancelled
            } else if self.last_check matches Some(t) && now - t < CHECK_EVERY {
                WaitStep::Read
            } else {
                WaitStep::CheckAndRead
            }),
    {
        if now >= timeout {
            return WaitStep::TimedOut;
        }
        if cancelled {
            return WaitStep::Cancelled;
        }
        match self.last_check {
            Some(t) => if now < t || now - t < CHECK_EVERY {
                WaitStep::Read
            } else {
                WaitStep::CheckAndRead
            },
            None => WaitStep::CheckAndRead,
        }
    }

    /// Notes that the service was told to fetch mail, and gives the line to report: that it
    /// began, the first time, or why it failed.
    pub fn checked(&mut self, now: u128, outcome: &Result<bool, String>) -> (line: Option<String>)
        ensures
            final(self).last_check == Some(now),
            final(self).base == old(self).base,
            final(self).told_waiting == old(self).told_waiting,
            final(self).seen == old(self).seen,
            final(self).told_checking == (old(self).told_checking || *outcome == Ok::<bool, String>(
                true,
            )),
            opt_text(line) == (match outcome {
                Ok(true) => if old(self).told_checking {
                    None
                } else {
                    Some("已触发收信（收码站只在被触发时才去拉邮件）"@)
                },
                Ok(false) => None,
                Err(e) => Some("触发收信失败："@ + e@),
            }),
    {
        self.last_check = Some(now);
        match outcome {
            Ok(true) => {
                if self.told_checking {
                    None
                } else {
                    self.told_checking = true;
                    Some("已触发收信（收码站只在被触发时才去拉邮件）".to_owned())
                }
            },
            Ok(false) => None,
            Err(e) => Some(text2("触发收信失败：", e.as_str())),
        }
    }

    /// Reads the records: the lines to report, and the code where a new mail holds one.
    pub fn read(&mut self, recs: &Vec<MailRecord>) -> (r: (Vec<String>, Option<String>))
        ensures
            opt_text(r.1) == code_of(picked(fresh(old(self).base, recs@))),
            texts(r.0@) == new_mail_lines(
                fresh(old(self).base, recs@),
                old(self).seen@.to_set(),
            ) + outcome_lines(recs@.len(), fresh(old(self).base, recs@), old(self).told_waiting),
            final(self).base == old(self).base,
            final(self).last_check == old(self).last_check,
            final(self).told_checking == old(self).told_checking,
            final(self).told_waiting == (old(self).told_waiting || r.1 is None),
            final(self).seen@.to_set() == old(self).seen@.to_set().union(
                ids_of(fresh(old(self).base, recs@)),
            ),
    {
        let new = fresh_records(&self.base, recs);
        let ghost all = new@.unref();
        let ghost start = self.seen@.to_set();
        let ghost told = self.told_waiting;
        let mut lines: Vec<String> = Vec::new();
        let mut i: usize = 0;
        assert(all.skip(0) == all);
        assert(texts(lines@) + new_mail_lines(all, start) =~= new_mail_lines(all, start));
        assert(start.union(ids_of(all.take(0))) =~= start);
        while i < new.len()
            invariant
                i <= new@.len(),
                all == new@.unref(),
                self.base == old(self).base,
                self.last_check == old(self).last_check,
                self.told_checking == old(self).told_checking,
                self.told_waiting == old(self).told_waiting,
                texts(lines@) + new_mail_lines(all.skip(i as int), self.seen@.to_set())
                    == new_mail_lines(all, start),
                self.seen@.to_set() == start.union(ids_of(all.take(i as int))),
            decreases new@.len() - i,
        {
            let r = new[i];
            let ghost rest = all.skip(i as int);
            let ghost set = self.seen@.to_set();
            let ghost was = texts(lines@);
            assert(rest.drop_first() == all.skip(i + 1));
            if !id_in(&self.seen, r.id) {
                let ghost ids = self.seen@;
                self.seen.push(r.id);
                assert(self.seen@.to_set() =~= set.insert(r.id)) by {
                    assert(self.seen@ == ids.push(r.id));
                    assert forall|k: i64| self.seen@.to_set().contains(k) == set.insert(
                        r.id,
                    ).contains(k) by {
                        if ids.contains(k) {
                            let j = choose|j: int| 0 <= j < ids.len() && ids[j] == k;
                            assert(self.seen@[j] == k);
                        }
                        if k == r.id {
                            assert(self.seen@[ids.len() as int] == k);
                        }
                    }
                }
                lines.push(
                    text4("新邮件：", r.sender.as_str(), " | ", r.subject.as_str()),
                );
                assert(texts(lines@) =~= was.push(new_mail_line(*r)));
                assert(texts(lines@) + new_mail_lines(all.skip(i + 1), set.insert(r.id)) =~= was
                    + new_mail_lines(rest, set));
            }
            proof {
                lemma_ids(all, i as int);
                assert(self.seen@.to_set() =~= set.insert(r.id));
                assert(start.union(ids_of(all.take(i + 1))) =~= set.insert(r.id));
            }
            i += 1;
        }
        assert(all.take(all.len() as int) == all);
        assert(texts(lines@) =~= new_mail_lines(all, start)) by {
            assert(new_mail_lines(all.skip(all.len() as int), self.seen@.to_set()) =~= Seq::<
                Seq<char>,
            >::empty());
        }
        let ghost said = texts(lines@);
        match pick_code(new.as_slice()) {
            Some((code, subject)) => {
                let line = text4("从「", subject.as_str(), "」取到验证码：", code.as_str());
                lines.push(line);
                assert(texts(lines@) =~= said + outcome_lines(recs@.len(), all, told));
                (lines, Some(code))
            },
            None => {
                if !self.told_waiting {
                    let line = if new.len() == 0 {
                        let n = number_text(recs.len() as u64);
                        text3("已触发收信，等待新邮件…（当前 ", n.as_str(), " 封，暂无新件）")
                    } else {
                        let n = number_text(new.len() as u64);
                        text3("收到 ", n.as_str(), " 封新邮件，但还没解析出验证码")
                    };
                    lines.push(line);
                    self.told_waiting = true;
                }
                assert(texts(lines@) =~= said + outcome_lines(recs@.len(), all, told));
                (lines, None)
            },
        }
    }
}

proof fn lemma_ids(recs: Seq<MailRecord>, i: int)
    requires
        0 <= i < recs.len(),
    ensures
        ids_of(recs.take(i + 1)) == ids_of(recs.take(i)).insert(recs[i].id),
{
    let a = recs.take(i + 1);
    let b = recs.take(i);
    assert forall|id: i64| ids_of(a).contains(id) == ids_of(b).insert(recs[i].id).contains(id) by {
        if ids_of(a).contains(id) {
            let k = choose|k: int| 0 <= k < a.len() && (#[trigger] a[k]).id == id;
            if k < i {
                assert(b[k].id == id);
            }
        }
        if ids_of(b).contains(id) {
            let k = choose|k: int| 0 <= k < b.len() && (#[trigger] b[k]).id == id;
            assert(a[k].id == id);
        }
        if id == recs[i].id {
            assert(a[i].id == id);
        }
    }
    assert(ids_of(a) =~= ids_of(b).insert(recs[i].id));
}

/// Which water mark counts: the given one where it is that of the mailbox `id`, and otherwise one
/// that is to be taken now.
pub fn usable_baseline(baseline: &Option<MailBaseline>, id: i64) -> (r: bool)
    ensures
        r == (baseline matches Some(b) && b.email_id == id),
{
    match baseline {
        Some(b) => b.email_id == id,
        None => false,
    }
}

/// What is reported where the service has no mailbox for `email`.
pub fn no_mailbox_line(email: &str) -> (r: String)
    ensures
        r@ == "收码站里没有邮箱 "@ + email@ + "（请先在账号列表执行「导入邮箱」）"@,
{
    text3("收码站里没有邮箱 ", email, "（请先在账号列表执行「导入邮箱」）")
}

/// What is reported where the time is over, in whole seconds.
pub fn timed_out_line(seconds: u64) -> (r: String)
    ensures
        r@ == "等待验证码超时（"@ + decimal(seconds as nat) + "s）"@,
{
    let n = number_text(seconds);
    text3("等待验证码超时（", n.as_str(), "s）")
}

// ---------------------------------------------------------------------------
// Laws
// ---------------------------------------------------------------------------

/// What counts as fresh is one of the records and came after the water mark.
pub proof fn law_fresh_mail_is_new(base: MailBaseline, recs: Seq<MailRecord>)
    ensures
        forall|i: int|
            0 <= i < fresh(base, recs).len() ==> base.precedes(#[trigger] fresh(base, recs)[i])
                && recs.contains(fresh(base, recs)[i]),
        forall|k: int|
            0 <= k < recs.len() && base.precedes(#[trigger] recs[k]) ==> fresh(base, recs).contains(
                recs[k],
            ),
    decreases recs.len(),
{
    if recs.len() > 0 {
        let less = recs.drop_last();
        law_fresh_mail_is_new(base, less);
        let f = fresh(base, recs);
        let g = fresh(base, less);
        assert forall|i: int| 0 <= i < f.len() implies base.precedes(#[trigger] f[i])
            && recs.contains(f[i]) by {
            if i < g.len() {
                assert(f[i] == g[i]);
                let k = choose|k: int| 0 <= k < less.len() && less[k] == g[i];
                assert(recs[k] == less[k]);
            } else {
                assert(recs[recs.len() - 1] == f[i]);
            }
        }
        assert forall|k: int| 0 <= k < recs.len() && base.precedes(
            #[trigger] recs[k],
        ) implies f.contains(recs[k]) by {
            if k < less.len() {
                assert(less[k] == recs[k]);
                assert(g.contains(less[k]));
                let i = choose|i: int| 0 <= i < g.len() && g[i] == less[k];
                assert(f[i] == g[i]);
            } else {
                assert(f[f.len() - 1] == recs[k]);
            }
        }
    }
}

/// An old code is never taken: the code that a reading gives is that of a mail that came after
/// the water mark.
pub proof fn law_code_is_of_new_mail(base: MailBaseline, recs: Seq<MailRecord>)
    ensures
        code_of(picked(fresh(base, recs))) matches Some(c) ==> exists|k: int|
            0 <= k < recs.len() && base.precedes(#[trigger] recs[k]) && recs[k].code() == Some(c),
{
    law_fresh_mail_is_new(base, recs);
    law_picked_code_is_of_a_mail(fresh(base, recs));
    if let Some((c, subject)) = picked(fresh(base, recs)) {
        let f = fresh(base, recs);
        let i = choose|i: int|
            0 <= i < f.len() && (#[trigger] f[i]).code() == Some(c) && f[i].subject@ == subject;
        assert(base.precedes(f[i]));
        let k = choose|k: int| 0 <= k < recs.len() && recs[k] == f[i];
        assert(base.precedes(recs[k]));
    }
}

/// Nothing that was in the mailbox when the water mark was taken yields a code.
pub proof fn law_marked_mail_yields_no_code(
    base: MailBaseline,
    email_id: i64,
    recs: Seq<MailRecord>,
)
    requires
        marks(base, email_id, recs),
    ensures
        fresh(base, recs).len() == 0,
        picked(fresh(base, recs)) is None,
{
    law_fresh_mail_is_new(base, recs);
    if fresh(base, recs).len() > 0 {
        let r = fresh(base, recs)[0];
        let k = choose|k: int| 0 <= k < recs.len() && recs[k] == r;
        law_marked_mail_is_old(base, email_id, recs, k);
    }
}

/// New mails are reported in order, each number once, and those of `seen` not at all.
pub proof fn law_new_mail_is_reported_once(r: MailRecord, rest: Seq<MailRecord>, seen: Set<i64>)
    ensures
        new_mail_lines(Seq::empty(), seen).len() == 0,
        seen.contains(r.id) ==> new_mail_lines(seq![r] + rest, seen) == new_mail_lines(rest, seen),
        !seen.contains(r.id) ==> new_mail_lines(seq![r] + rest, seen) == seq![
            "新邮件："@ + r.sender@ + " | "@ + r.subject@,
        ] + new_mail_lines(rest, seen.insert(r.id)),
{
    assert((seq![r] + rest).drop_first() =~= rest);
}

/// A code that was found is told with the subject of its mail.
pub proof fn law_found_code_is_told(all: nat, new: Seq<MailRecord>, told: bool)
    ensures
        picked(new) matches Some((c, subject)) ==> outcome_lines(all, new, told) == seq![
            "从「"@ + subject + "」取到验证码："@ + c,
        ] && code_of(picked(new)) == Some(c),
        picked(new) is None ==> code_of(picked(new)) is None && outcome_lines(all, new, true).len()
            == 0 && outcome_lines(all, new, false).len() == 1,
{
}

/// Mail that came after the water mark stays in its order, and nothing else does.
pub proof fn law_fresh_in_order(base: MailBaseline, recs: Seq<MailRecord>, r: MailRecord)
    ensures
        fresh(base, Seq::empty()).len() == 0,
        base.precedes(r) ==> fresh(base, recs.push(r)) == fresh(base, recs).push(r),
        !base.precedes(r) ==> fresh(base, recs.push(r)) == fresh(base, recs),
{
    assert(recs.push(r).drop_last() =~= recs);
}

// ---------------------------------------------------------------------------
// Laws on what a call gives
// ---------------------------------------------------------------------------

/// The waiting ends with the time or when the user gives up; until then the mailbox is read, and
/// the service is made to fetch its mail where that was not done within the last fifteen seconds.
pub proof fn law_next_of_the_waiting(
    w: &CodeWait,
    now: u128,
    timeout: u128,
    cancelled: bool,
    r: WaitStep,
)
    requires
        call_ensures(CodeWait::next, (w, now, timeout, cancelled), r),
    ensures
        r is TimedOut <==> now >= timeout,
        r is Cancelled <==> now < timeout && cancelled,
        now < timeout && !cancelled && w.last_check is None ==> r is CheckAndRead,
        now < timeout && !cancelled ==> (w.last_check matches Some(t) ==> (r is Read <==> now - t
            < 15_000_000_000)),
{
}

/// A code is that of the latest mail that came after the water mark and has one; old mail gives
/// none.
pub proof fn law_code_of_new_mail(
    w: &mut CodeWait,
    recs: &Vec<MailRecord>,
    r: (Vec<String>, Option<String>),
)
    requires
        call_ensures(CodeWait::read, (w, recs), r),
    ensures
        match r.1 {
            Some(c) => exists|i: int|
                0 <= i < recs@.len() && old(w).base.precedes(#[trigger] recs@[i]) && mail_code(
                    recs@[i].subject@,
                    recs@[i].content@,
                ) == Some(c@),
            None => forall|i: int|
                0 <= i < recs@.len() && old(w).base.precedes(#[trigger] recs@[i]) ==> !offers_code(
                    recs@[i],
                ) && !openai_code(recs@[i]),
        },
        final(w).base == old(w).base,
        final(w).last_check == old(w).last_check,
{
    let new = fresh(old(w).base, recs@);
    law_latest_code_is_picked(new);
    law_fresh_mail_is_new(old(w).base, recs@);
    if r.1 is Some {
        let i = choose|i: int|
            0 <= i < new.len() && mail_code((#[trigger] new[i]).subject@, new[i].content@) == Some(
                (r.1->0)@,
            );
        assert(old(w).base.precedes(new[i]));
        let k = choose|k: int| 0 <= k < recs@.len() && recs@[k] == new[i];
        assert(old(w).base.precedes(recs@[k]));
    } else {
        assert forall|i: int|
            0 <= i < recs@.len() && old(w).base.precedes(#[trigger] recs@[i]) implies !offers_code(
            recs@[i],
        ) && !openai_code(recs@[i]) by {
            assert(new.contains(recs@[i]));
            let k = choose|k: int| 0 <= k < new.len() && new[k] == recs@[i];
            assert(!offers_code(new[k]));
        }
    }
}

/// A water mark is used for the mailbox that it was taken of, and for no other.
pub proof fn law_mark_is_of_its_mailbox(b: &Option<MailBaseline>, id: i64, r: bool)
    requires
        call_ensures(usable_baseline, (b, id), r),
    ensures
        r <==> b is Some && (b->0).email_id == id,
{
}

/// That a check could not be begun is reported every time; that it was is reported once.
pub proof fn law_check_is_reported(
    w: &mut CodeWait,
    now: u128,
    outcome: &Result<bool, String>,
    line: Option<String>,
)
    requires
        call_ensures(CodeWait::checked, (w, now, outcome), line),
    ensures
        final(w).last_check == Some(now),
        outcome is Err ==> line is Some,
        outcome matches Ok(started) ==> (line is Some <==> *started && !old(w).told_checking),
        final(w).seen == old(w).seen,
{
}

/// Where no code is found, it is told once whether there is new mail at all.
pub proof fn law_vain_reading_is_told_once(all: nat, new: Seq<MailRecord>)
    requires
        picked(new) is None,
    ensures
        outcome_lines(all, new, true).len() == 0,
        new.len() == 0 ==> outcome_lines(all, new, false) == seq![
            "已触发收信，等待新邮件…（当前 "@ + decimal(all) + " 封，暂无新件）"@,
        ],
        new.len() > 0 ==> outcome_lines(all, new, false) == seq![
            "收到 "@ + decimal(new.len()) + " 封新邮件，但还没解析出验证码"@,
        ],
{
}

/// What is told of a waiting that comes to nothing names the mailbox, or how long it took.
pub proof fn law_vain_waiting_is_told(email: &str, seconds: u64, none: String, late: String)
    requires
        call_ensures(no_mailbox_line, (email,), none),
        call_ensures(timed_out_line, (seconds,), late),
    ensures
        none@ == "收码站里没有邮箱 "@ + email@ + "（请先在账号列表执行「导入邮箱」）"@,
        late@ == "等待验证码超时（"@ + decimal(seconds as nat) + "s）"@,
{
}

} // verus!
