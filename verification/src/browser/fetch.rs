//! Fetching results from the page behind the entry page: when the batch is over, and what is
//! reported.
use crate::json::{
    array_doc, bool_doc, copy_docs, docs, entries, null_doc, number_doc, object2, object_doc,
    opt_doc, string_doc, strings, strings_doc, Json, JsonV,
};
use crate::mail::code::digit_run;
use crate::text::basic::{
    blank, chars_of, digit, first_chars, is_blank, lowercase, opt_text, same, take_chars, text2,
    text3, text4, texts, trim_start, trimmed_start,
};
use crate::text::charwise::{
    is_numeral, is_space, law_filled, law_first_occurrence, law_split, law_substring, law_trim,
    only_spaces, somewhere, spelled,
};
use crate::text::numeral::{at_most, decimal, number_text, numeral, opt_nat, read_number};
use crate::text::search::{after_first, contains, holds, text_after};
use crate::text::split::{filled, keep_filled, split, split_at_char};
use vstd::prelude::*;

verus! {

// ---------------------------------------------------------------------------
// The list of addresses
// ---------------------------------------------------------------------------

/// `s` with a line break for every separator of addresses.
pub open spec fn lines_of(s: Seq<char>) -> Seq<char> {
    s.map_values(
        |c: char|
            if c == '\r' || c == ',' {
                '\n'
            } else {
                c
            },
    )
}

/// The addresses in a text, separated by line breaks or commas.
pub fn parse_emails(raw: &str) -> (r: Vec<String>)
    ensures
        texts(r@) == filled(split(lines_of(raw@), '\n')),
{
    let cs = chars_of(raw);
    let mut text = String::new();
    let mut i: usize = 0;
    while i < cs.len()
        invariant
            i <= cs@.len(),
            cs@ == raw@,
            text@ == lines_of(raw@).take(i as int),
        decreases cs@.len() - i,
    {
        let c = if cs[i] == '\r' || cs[i] == ',' {
            '\n'
        } else {
            cs[i]
        };
        text.push(c);
        assert(text@ =~= lines_of(raw@).take(i + 1));
        i += 1;
    }
    assert(text@ =~= lines_of(raw@));
    let parts = split_at_char(text.as_str(), '\n');
    assert(texts(parts@).skip(0) == texts(parts@));
    keep_filled(&parts, 0)
}

// ---------------------------------------------------------------------------
// Reading the state of the batch
// ---------------------------------------------------------------------------

/// The number that follows the first `key` in `stat`, with white space between them at most.
pub open spec fn num_after(stat: Seq<char>, key: Seq<char>) -> Option<nat> {
    match after_first(stat, key) {
        Some(rest) => {
            let t = trim_start(rest);
            at_most(numeral(t.take(digit_run(t) as int), 10), u64::MAX as nat)
        },
        None => None,
    }
}

/// The number that follows the first `key` in `stat`.
pub fn number_after(stat: &str, key: &str) -> (r: Option<u64>)
    ensures
        opt_nat(r) == num_after(stat@, key@),
{
    match text_after(stat, key) {
        Some(rest) => {
            let t = trimmed_start(rest.as_str());
            let cs = chars_of(t.as_str());
            let mut n: usize = 0;
            assert(cs@.skip(0) == cs@);
            while n < cs.len() && digit(cs[n])
                invariant
                    n <= cs@.len(),
                    digit_run(cs@) == n + digit_run(cs@.skip(n as int)),
                decreases cs@.len() - n,
            {
                assert(cs@.skip(n as int).drop_first() == cs@.skip(n + 1));
                n += 1;
            }
            assert(digit_run(cs@) == n);
            assert(cs@.subrange(0, n as int) == cs@.take(n as int));
            read_number(&cs, 0, n, 10, u64::MAX)
        },
        None => None,
    }
}

/// What was read of the page at one moment.
#[derive(Debug, Clone)]
pub struct PollReading {
    /// The text of the status line, without the white space around it.
    pub stat: String,
    /// The text of the error line, without the white space around it.
    pub err: String,
    /// The number of characters in the field of addresses.
    pub emails_len: usize,
    pub dl_all: bool,
    pub copy_all: bool,
    pub copy_visible: bool,
    /// How long the batch has run, in seconds.
    pub elapsed: u64,
}

/// What the status line says: how many there are in all, how many succeeded and failed, and how
/// many are under way.
#[derive(Debug, Clone, Copy)]
pub struct Counts {
    pub total: Option<u64>,
    pub ok: Option<u64>,
    pub fail: Option<u64>,
    pub live: Option<u64>,
}

/// A count as a machine number.
pub open spec fn small(n: Option<nat>) -> Option<u64> {
    match n {
        Some(v) => Some(v as u64),
        None => None,
    }
}

/// What a status line says.
pub open spec fn counts_of(stat: Seq<char>) -> Counts {
    Counts {
        total: small(num_after(stat, "共"@)),
        ok: small(num_after(stat, "成功"@)),
        fail: small(num_after(stat, "失败"@)),
        live: small(num_after(stat, "进行中"@)),
    }
}

impl Counts {
    /// Whether the batch has begun.
    pub open spec fn begun(self) -> bool {
        self.total matches Some(n) && n > 0
    }

    /// Reads a status line.
    pub fn read(stat: &str) -> (r: Counts)
        ensures
            r == counts_of(stat@),
    {
        Counts {
            total: number_after(stat, "共"),
            ok: number_after(stat, "成功"),
            fail: number_after(stat, "失败"),
            live: number_after(stat, "进行中"),
        }
    }
}

/// A count, zero where it is not known.
pub open spec fn or_zero(n: Option<u64>) -> u64 {
    match n {
        Some(v) => v,
        None => 0,
    }
}

fn zero_if_none(n: Option<u64>) -> (r: u64)
    ensures
        r == or_zero(n),
{
    match n {
        Some(v) => v,
        None => 0,
    }
}

/// A count as a document.
pub open spec fn count_doc(n: Option<u64>) -> JsonV {
    match n {
        Some(v) => JsonV::Num(decimal(v as nat)),
        None => JsonV::Null,
    }
}

/// A count as a document.
pub fn count_json(n: Option<u64>) -> (r: Json)
    ensures
        r@ == count_doc(n),
{
    match n {
        Some(v) => number_doc(v),
        None => null_doc(),
    }
}

/// What is noted of a reading.
pub open spec fn snapshot(p: PollReading, c: Counts) -> JsonV {
    JsonV::Obj(
        seq![
            ("copyAll"@, JsonV::Bool(p.copy_all)),
            ("copyAllVisible"@, JsonV::Bool(p.copy_visible)),
            ("dlAll"@, JsonV::Bool(p.dl_all)),
            ("emailsLen"@, JsonV::Num(decimal(p.emails_len as nat))),
            ("err"@, JsonV::Str(first_chars(p.err@, 200))),
            ("fail"@, count_doc(c.fail)),
            ("live"@, count_doc(c.live)),
            ("ok"@, count_doc(c.ok)),
            ("stat"@, JsonV::Str(first_chars(p.stat@, 200))),
            ("t"@, JsonV::Str(decimal(p.elapsed as nat) + "s"@)),
            ("total"@, count_doc(c.total)),
        ],
    )
}

fn snapshot_json(p: &PollReading, c: &Counts) -> (r: Json)
    ensures
        r@ == snapshot(*p, *c),
{
    let secs = number_text(p.elapsed);
    let t = text2(secs.as_str(), "s");
    let err = take_chars(p.err.as_str(), 200);
    let stat = take_chars(p.stat.as_str(), 200);
    let mut o: Vec<(String, Json)> = Vec::new();
    o.push(("copyAll".to_owned(), bool_doc(p.copy_all)));
    o.push(("copyAllVisible".to_owned(), bool_doc(p.copy_visible)));
    o.push(("dlAll".to_owned(), bool_doc(p.dl_all)));
    o.push(("emailsLen".to_owned(), number_doc(p.emails_len as u64)));
    o.push(("err".to_owned(), string_doc(err.as_str())));
    o.push(("fail".to_owned(), count_json(c.fail)));
    o.push(("live".to_owned(), count_json(c.live)));
    o.push(("ok".to_owned(), count_json(c.ok)));
    o.push(("stat".to_owned(), string_doc(stat.as_str())));
    o.push(("t".to_owned(), string_doc(t.as_str())));
    o.push(("total".to_owned(), count_json(c.total)));
    assert(entries(o@) =~= snapshot(*p, *c)->Obj_0);
    object_doc(o)
}

/// A truth value in words.
pub open spec fn truth_text(b: bool) -> Seq<char> {
    if b {
        "true"@
    } else {
        "false"@
    }
}

fn truth(b: bool) -> (r: &'static str)
    ensures
        r@ == truth_text(b),
{
    if b {
        "true"
    } else {
        "false"
    }
}

/// A count in Rust's notation of an option.
pub open spec fn option_text(n: Option<u64>) -> Seq<char> {
    match n {
        Some(v) => "Some("@ + decimal(v as nat) + ")"@,
        None => "None"@,
    }
}

/// The line that reports a reading.
pub open spec fn poll_line(p: PollReading, live: Option<u64>) -> Seq<char> {
    "[poll "@ + decimal(p.elapsed as nat) + "s] stat="@ + first_chars(p.stat@, 120)
        + " copyAllVisible="@ + truth_text(p.copy_visible) + " live="@ + option_text(live)
}

fn poll_text(p: &PollReading, live: Option<u64>) -> (r: String)
    ensures
        r@ == poll_line(*p, live),
{
    let secs = number_text(p.elapsed);
    let stat = take_chars(p.stat.as_str(), 120);
    let shown = match live {
        Some(v) => {
            let n = number_text(v);
            text3("Some(", n.as_str(), ")")
        },
        None => "None".to_owned(),
    };
    let mut s = text4("[poll ", secs.as_str(), "s] stat=", stat.as_str());
    s.append(" copyAllVisible=");
    s.append(truth(p.copy_visible));
    s.append(" live=");
    s.append(shown.as_str());
    s
}

/// The line that reports the end of a batch.
pub open spec fn over_line(c: Counts, copy_visible: bool) -> Seq<char> {
    "批次结束：成功 "@ + decimal(or_zero(c.ok) as nat) + " / 失败 "@ + decimal(
        or_zero(c.fail) as nat,
    ) + " / 共 "@ + decimal(or_zero(c.total) as nat) + "（copyAll 可见="@ + truth_text(copy_visible)
        + "）"@
}

fn over_text(c: &Counts, copy_visible: bool) -> (r: String)
    ensures
        r@ == over_line(*c, copy_visible),
{
    let mut s = "批次结束：成功 ".to_owned();
    s.append(number_text(zero_if_none(c.ok)).as_str());
    s.append(" / 失败 ");
    s.append(number_text(zero_if_none(c.fail)).as_str());
    s.append(" / 共 ");
    s.append(number_text(zero_if_none(c.total)).as_str());
    s.append("（copyAll 可见=");
    s.append(truth(copy_visible));
    s.append("）");
    s
}

// ---------------------------------------------------------------------------
// How long a page is looked at
// ---------------------------------------------------------------------------

/// What to do before another look at a page.
#[derive(Debug, Clone, Copy, PartialEq, Eq, Structural)]
pub enum PollStep {
    /// What was waited for is there.
    Over,
    /// The time is over.
    TimedOut,
    /// The user gave up.
    Cancelled,
    /// Look again.
    Look,
}

/// What to do before another look, `now` milliseconds after the first: nothing more once `over`,
/// or when `max` milliseconds have passed, or when the user gave up.
pub open spec fn due(over: bool, now: u128, max: u128, cancelled: bool) -> PollStep {
    if over {
        PollStep::Over
    } else if now >= max {
        PollStep::TimedOut
    } else if cancelled {
        PollStep::Cancelled
    } else {
        PollStep::Look
    }
}

/// What to do before another look.
pub fn poll_step(over: bool, now: u128, max: u128, cancelled: bool) -> (r: PollStep)
    ensures
        r == due(over, now, max, cancelled),
{
    if over {
        PollStep::Over
    } else if now >= max {
        PollStep::TimedOut
    } else if cancelled {
        PollStep::Cancelled
    } else {
        PollStep::Look
    }
}

/// A page is looked at only while the time lasts, the user has not given up, and what is waited
/// for is not there.
pub proof fn law_polling_is_bounded(over: bool, now: u128, max: u128, cancelled: bool)
    ensures
        due(over, now, max, cancelled) is Look <==> !over && now < max && !cancelled,
{
}

// ---------------------------------------------------------------------------
// When the batch is over
// ---------------------------------------------------------------------------

/// How often the status line must stay the same before a batch counts as over.
pub const STABLE: usize = 3;

/// The readings so far.
#[derive(Debug)]
pub struct Poll {
    pub last_stat: String,
    /// How often in a row the status line was the same as before, counted up to [`STABLE`].
    pub stable: usize,
    pub log: Vec<Json>,
    /// What was noted of the reading that ended the batch.
    pub ended: Option<Json>,
}

/// How often in a row the status line was the same as before, after another reading.
pub open spec fn stable_after(last: Seq<char>, stable: usize, stat: Seq<char>) -> usize {
    if stat.len() > 0 && stat == last {
        if stable < STABLE {
            (stable + 1) as usize
        } else {
            stable
        }
    } else {
        0
    }
}

/// Whether the batch is over by its counts: it has begun, and none is under way.
pub open spec fn over(c: Counts) -> bool {
    c.begun() && c.live == Some(0u64)
}

/// Whether the batch counts as over because its status line stays the same: it has begun, and none
/// is known to be under way.
pub open spec fn settled(c: Counts, stable: usize) -> bool {
    stable >= STABLE && c.begun() && (c.live is None || c.live == Some(0u64))
}

impl Poll {
    /// Before the first reading.
    pub fn begin() -> (r: Poll)
        ensures
            r.last_stat@.len() == 0,
            r.stable == 0,
            r.log@.len() == 0,
            r.ended is None,
    {
        Poll { last_stat: String::new(), stable: 0, log: Vec::new(), ended: None }
    }

    /// What to do before another reading, `now` milliseconds after the start.
    pub fn next(&self, now: u128, max: u128, cancelled: bool) -> (r: PollStep)
        ensures
            r == due(self.ended is Some, now, max, cancelled),
    {
        poll_step(self.ended.is_some(), now, max, cancelled)
    }

    /// The line that reports how the readings ended.
    pub fn closing(&self) -> (r: &'static str)
        ensures
            r@ == (if self.ended is Some {
                "检测到完成信号"@
            } else {
                "超时结束"@
            }),
    {
        if self.ended.is_some() {
            "检测到完成信号"
        } else {
            "超时结束"
        }
    }

    /// Takes a reading: the lines to report, and whether the batch is over.
    pub fn take(&mut self, p: &PollReading) -> (r: (Vec<String>, bool))
        ensures
            ({
                let c = counts_of(p.stat@);
                let now = stable_after(old(self).last_stat@, old(self).stable, p.stat@);
                &&& docs(final(self).log@) == docs(old(self).log@).push(snapshot(*p, c))
                &&& r.1 == (over(c) || settled(c, now))
                &&& opt_doc(final(self).ended) == (if r.1 {
                    Some(snapshot(*p, c))
                } else {
                    opt_doc(old(self).ended)
                })
                &&& final(self).stable == (if over(c) {
                    old(self).stable
                } else {
                    now
                })
                &&& final(self).last_stat@ == (if over(c) {
                    old(self).last_stat@
                } else {
                    p.stat@
                })
                &&& texts(r.0@) == seq![poll_line(*p, c.live)] + (if over(c) {
                    seq![over_line(c, p.copy_visible)]
                } else if settled(c, now) {
                    seq!["#stat 连续 3 次不变且已无进行中任务，视为完成"@]
                } else {
                    Seq::empty()
                })
            }),
            num_after(p.stat@, "共"@) matches Some(n) && n > 0 && num_after(p.stat@, "进行中"@) == Some(
                0nat,
            ) ==> r.1,
            num_after(p.stat@, "共"@) matches Some(n) && n > 0 && num_after(p.stat@, "进行中"@) is None
                && p.stat@.len() > 0 && p.stat@ == old(self).last_stat@ && old(self).stable >= 2
                ==> r.1,
            r.1 ==> (num_after(p.stat@, "共"@) matches Some(n) && n > 0) && (num_after(
                p.stat@,
                "进行中"@,
            ) matches Some(n) ==> n == 0),
            r.1 ==> opt_doc(final(self).ended) is Some,
            !r.1 ==> final(self).last_stat@ == p.stat@ && final(self).stable == (if p.stat@.len() > 0
                && p.stat@ == old(self).last_stat@ {
                if old(self).stable < 3 {
                    old(self).stable + 1
                } else {
                    old(self).stable as int
                }
            } else {
                0
            }),
    {
        proof {
            lemma_counts(p.stat@);
        }
        let c = Counts::read(p.stat.as_str());
        let snap = snapshot_json(p, &c);
        let again = snap.copy();
        let ghost was = docs(self.log@);
        self.log.push(again);
        assert(docs(self.log@) =~= was.push(snapshot(*p, c)));
        let mut lines: Vec<String> = Vec::new();
        lines.push(poll_text(p, c.live));
        let begun = match c.total {
            Some(n) => n > 0,
            None => false,
        };
        let none_live = match c.live {
            Some(n) => n == 0,
            None => false,
        };
        if begun && none_live {
            lines.push(over_text(&c, p.copy_visible));
            self.ended = Some(snap);
            assert(texts(lines@) =~= seq![poll_line(*p, c.live)] + seq![
                over_line(c, p.copy_visible),
            ]);
            return (lines, true);
        }
        if !p.stat.as_str().is_empty() && same(p.stat.as_str(), self.last_stat.as_str()) {
            if self.stable < STABLE {
                self.stable = self.stable + 1;
            }
        } else {
            self.stable = 0;
        }
        self.last_stat = p.stat.clone();
        let no_live = none_live || c.live.is_none();
        if self.stable >= STABLE && begun && no_live {
            lines.push("#stat 连续 3 次不变且已无进行中任务，视为完成".to_owned());
            self.ended = Some(snap);
            assert(texts(lines@) =~= seq![poll_line(*p, c.live)] + seq![
                "#stat 连续 3 次不变且已无进行中任务，视为完成"@,
            ]);
            return (lines, true);
        }
        assert(texts(lines@) =~= seq![poll_line(*p, c.live)] + Seq::<Seq<char>>::empty());
        (lines, false)
    }

    /// What is reported of the end: what was noted of the reading that ended the batch, or that
    /// the time was over.
    pub fn final_state(&self, elapsed: u64) -> (r: Json)
        ensures
            r@ == (match self.ended {
                Some(d) => d@,
                None => JsonV::Obj(
                    seq![
                        ("elapsed"@, JsonV::Str(decimal(elapsed as nat) + "s"@)),
                        ("note"@, JsonV::Str("超时未检测到完成信号"@)),
                    ],
                ),
            }),
    {
        match &self.ended {
            Some(d) => d.copy(),
            None => {
                let secs = number_text(elapsed);
                let t = text2(secs.as_str(), "s");
                object2(
                    "elapsed",
                    string_doc(t.as_str()),
                    "note",
                    string_doc("超时未检测到完成信号"),
                )
            },
        }
    }
}

/// A batch never counts as over while the status line tells of an account under way.
pub proof fn law_never_over_while_live(c: Counts, stable: usize)
    requires
        c.live matches Some(n) && n > 0,
    ensures
        !over(c),
        !settled(c, stable),
{
}

// ---------------------------------------------------------------------------
// What was fetched
// ---------------------------------------------------------------------------

/// The text that was fetched: that of the page's clipboard, or else of the system's, or else of
/// the field of addresses. The second value tells whether it is the last.
pub open spec fn clip(page: Seq<char>, system: Seq<char>, field: Seq<char>) -> (Seq<char>, bool) {
    if !blank(page) {
        (page, false)
    } else if !blank(system) {
        (system, false)
    } else {
        (field, !blank(field))
    }
}

/// The text that was fetched, and whether it is that of the field of addresses.
pub fn pick_clipboard(page: &str, system: &str, field: &str) -> (r: (String, bool))
    ensures
        (r.0@, r.1) == clip(page@, system@, field@),
{
    if !is_blank(page) {
        (page.to_owned(), false)
    } else if !is_blank(system) {
        (system.to_owned(), false)
    } else {
        (field.to_owned(), !is_blank(field))
    }
}

/// Whether a text in lower case holds a refresh token.
pub open spec fn has_token(low: Seq<char>) -> bool {
    holds(low, "refresh_token"@) || holds(low, "rt-"@)
}

/// Whether a text in lower case holds a refresh token.
pub fn holds_token(low: &str) -> (r: bool)
    ensures
        r == has_token(low@),
{
    contains(low, "refresh_token") || contains(low, "rt-")
}

/// Whether the conversion is complete: its output holds a refresh token.
pub fn converted(out: &str) -> (r: bool)
    ensures
        r == has_token(lowercase(out@)),
{
    let low = out.to_lowercase();
    holds_token(low.as_str())
}

/// How long the output of the conversion is waited for, in milliseconds.
pub const CONVERT_MS: u128 = 15000;

/// What to do before another look at the output of the conversion, which was `out`.
pub fn convert_next(out: &str, now: u128) -> (r: PollStep)
    ensures
        r == due(has_token(lowercase(out@)), now, CONVERT_MS, false),
{
    poll_step(converted(out), now, CONVERT_MS, false)
}

/// Why a fetch cannot begin.
pub fn fetch_refused(cancelled: bool, emails: &Vec<String>) -> (r: Option<String>)
    ensures
        opt_text(r) == (if cancelled {
            Some("已取消"@)
        } else if emails@.len() == 0 {
            Some("邮箱列表为空，无法执行获取流程"@)
        } else {
            None
        }),
{
    if cancelled {
        Some("已取消".to_owned())
    } else if emails.len() == 0 {
        Some("邮箱列表为空，无法执行获取流程".to_owned())
    } else {
        None
    }
}

/// What a fetch brought.
#[derive(Debug)]
pub struct Fetched {
    pub url: String,
    pub pre_entry: bool,
    pub post_entry: bool,
    pub emails_count: usize,
    pub done: bool,
    pub final_state: Json,
    pub copy_clicked: bool,
    pub clipboard: String,
    pub cpa_page: Json,
    pub banned_emails: Vec<String>,
    pub poll_log: Vec<Json>,
    pub errors: Vec<String>,
}

/// What is reported of a fetch.
pub open spec fn fetched_doc(f: Fetched) -> JsonV {
    JsonV::Obj(
        seq![
            ("bannedEmails"@, strings(texts(f.banned_emails@))),
            ("clipboard"@, JsonV::Str(f.clipboard@)),
            ("copyClicked"@, JsonV::Bool(f.copy_clicked)),
            ("cpaPage"@, f.cpa_page@),
            ("done"@, JsonV::Bool(f.done)),
            ("emailsCount"@, JsonV::Num(decimal(f.emails_count as nat))),
            (
                "entered"@,
                JsonV::Obj(
                    seq![
                        ("postEntry"@, JsonV::Bool(f.post_entry)),
                        ("preEntry"@, JsonV::Bool(f.pre_entry)),
                    ],
                ),
            ),
            ("errors"@, strings(texts(f.errors@))),
            ("finalState"@, f.final_state@),
            ("ok"@, JsonV::Bool(true)),
            ("pollLog"@, JsonV::Arr(docs(f.poll_log@))),
            ("url"@, JsonV::Str(f.url@)),
        ],
    )
}

/// What is reported of a fetch.
pub fn fetch_report(f: &Fetched) -> (r: Json)
    ensures
        r@ == fetched_doc(*f),
{
    let mut o: Vec<(String, Json)> = Vec::new();
    o.push(("bannedEmails".to_owned(), strings_doc(&f.banned_emails)));
    o.push(("clipboard".to_owned(), string_doc(f.clipboard.as_str())));
    o.push(("copyClicked".to_owned(), bool_doc(f.copy_clicked)));
    o.push(("cpaPage".to_owned(), f.cpa_page.copy()));
    o.push(("done".to_owned(), bool_doc(f.done)));
    o.push(("emailsCount".to_owned(), number_doc(f.emails_count as u64)));
    o.push(
        (
            "entered".to_owned(),
            object2(
                "postEntry",
                bool_doc(f.post_entry),
                "preEntry",
                bool_doc(f.pre_entry),
            ),
        ),
    );
    o.push(("errors".to_owned(), strings_doc(&f.errors)));
    o.push(("finalState".to_owned(), f.final_state.copy()));
    o.push(("ok".to_owned(), bool_doc(true)));
    o.push(("pollLog".to_owned(), array_doc(copy_docs(&f.poll_log))));
    o.push(("url".to_owned(), string_doc(f.url.as_str())));
    assert(entries(o@) =~= fetched_doc(*f)->Obj_0);
    object_doc(o)
}

// ---------------------------------------------------------------------------
// Laws on status lines
// ---------------------------------------------------------------------------

/// The number of leading digits.
proof fn lemma_digits_first(ds: Seq<char>, rest: Seq<char>)
    requires
        forall|i: int| 0 <= i < ds.len() ==> is_numeral(#[trigger] ds[i]),
        rest.len() > 0 ==> !is_numeral(rest[0]),
    ensures
        digit_run(ds + rest) == ds.len(),
    decreases ds.len(),
{
    let s = ds + rest;
    if ds.len() > 0 {
        assert(s[0] == ds[0] && is_numeral(ds[0]));
        assert(s.drop_first() =~= ds.drop_first() + rest);
        lemma_digits_first(ds.drop_first(), rest);
    } else {
        assert(s =~= rest);
    }
}

proof fn lemma_spaces_first(sp: Seq<char>, rest: Seq<char>)
    requires
        only_spaces(sp),
        rest.len() > 0 ==> !is_space(rest[0]),
    ensures
        trim_start(sp + rest) == rest,
    decreases sp.len(),
{
    let s = sp + rest;
    if sp.len() > 0 {
        assert(s[0] == sp[0] && is_space(sp[0]));
        assert(s.drop_first() =~= sp.drop_first() + rest);
        assert(only_spaces(sp.drop_first())) by {
            assert forall|i: int| 0 <= i < sp.drop_first().len() implies is_space(
                #[trigger] sp.drop_first()[i],
            ) by {
                assert(is_space(sp[i + 1]));
            }
        }
        lemma_spaces_first(sp.drop_first(), rest);
    } else {
        assert(s =~= rest);
    }
}

/// A count of a status line is the number that follows its name: `before` is what stands before the
/// first occurrence of the name, `sp` the spaces after it, `ds` the digits and `rest` what is left.
pub proof fn law_count(
    before: Seq<char>,
    key: Seq<char>,
    sp: Seq<char>,
    ds: Seq<char>,
    rest: Seq<char>,
)
    requires
        forall|j: int|
            0 <= j < before.len() ==> !#[trigger] spelled(before + key + sp + ds + rest, key, j),
        only_spaces(sp),
        forall|i: int| 0 <= i < ds.len() ==> is_numeral(#[trigger] ds[i]),
        rest.len() > 0 ==> !is_numeral(rest[0]),
        ds.len() == 0 && rest.len() > 0 ==> !is_space(rest[0]),
    ensures
        num_after(before + key + sp + ds + rest, key) == (match numeral(ds, 10) {
            Some(n) => if n <= 18446744073709551615 {
                Some(n)
            } else {
                None
            },
            None => None,
        }),
{
    let s = before + key + sp + ds + rest;
    let i = before.len() as int;
    let tail = sp + (ds + rest);
    assert(spelled(s, key, i)) by {
        assert forall|k: int| 0 <= k < key.len() implies s[i + k] == #[trigger] key[k] by {}
    }
    law_first_occurrence(s, key);
    let j = choose|j: int| #[trigger]
        spelled(s, key, j) && (forall|m: int| 0 <= m < j ==> !#[trigger] spelled(s, key, m))
            && after_first(s, key) == Some(s.skip(j + key.len()));
    assert(j == i) by {
        if j < i {
            assert(!spelled(s, key, j));
        }
        if i < j {
            assert(!spelled(s, key, i));
        }
    }
    assert(s.skip(i + key.len()) =~= tail);
    let d = ds + rest;
    if d.len() > 0 && ds.len() > 0 {
        assert(d[0] == ds[0] && is_numeral(ds[0]));
    }
    lemma_spaces_first(sp, d);
    lemma_digits_first(ds, rest);
    assert(d.take(ds.len() as int) =~= ds);
}

/// A name that does not stand in a status line has no count.
pub proof fn law_no_count(stat: Seq<char>, key: Seq<char>)
    requires
        !somewhere(stat, key),
    ensures
        num_after(stat, key) is None,
{
    law_first_occurrence(stat, key);
}

proof fn lemma_counts(stat: Seq<char>)
    ensures
        ({
            let c = counts_of(stat);
            &&& opt_nat(c.total) == num_after(stat, "共"@)
            &&& opt_nat(c.ok) == num_after(stat, "成功"@)
            &&& opt_nat(c.fail) == num_after(stat, "失败"@)
            &&& opt_nat(c.live) == num_after(stat, "进行中"@)
        }),
{
}

/// A batch is over as soon as its status line tells that it has begun and that none is under way,
/// whether its addresses succeeded or failed; and with an unknown number under way after the line
/// stayed the same three times.
pub proof fn law_batch_ends(stat: Seq<char>, stable: usize)
    ensures
        over(counts_of(stat)) == ((num_after(stat, "共"@) matches Some(n) && n > 0) && num_after(
            stat,
            "进行中"@,
        ) == Some(0nat)),
        settled(counts_of(stat), stable) == (stable >= 3 && (num_after(stat, "共"@) matches Some(n)
            && n > 0) && (num_after(stat, "进行中"@) is None || num_after(stat, "进行中"@) == Some(
            0nat,
        ))),
{
    lemma_counts(stat);
}

/// How a batch went is told by its own numbers.
pub proof fn law_over_line(stat: Seq<char>, visible: bool)
    ensures
        over_line(counts_of(stat), visible) == "批次结束：成功 "@ + decimal(
            num_after(stat, "成功"@).unwrap_or(0),
        ) + " / 失败 "@ + decimal(num_after(stat, "失败"@).unwrap_or(0)) + " / 共 "@ + decimal(
            num_after(stat, "共"@).unwrap_or(0),
        ) + "（copyAll 可见="@ + (if visible {
            "true"@
        } else {
            "false"@
        }) + "）"@,
{
    lemma_counts(stat);
}

/// The text that was fetched is the first of the three that is not blank.
pub proof fn law_fetched_text(page: Seq<char>, system: Seq<char>, field: Seq<char>)
    ensures
        !only_spaces(page) ==> clip(page, system, field) == (page, false),
        only_spaces(page) && !only_spaces(system) ==> clip(page, system, field) == (system, false),
        only_spaces(page) && only_spaces(system) ==> clip(page, system, field) == (
            field,
            !only_spaces(field),
        ),
{
    law_trim(page);
    law_trim(system);
    law_trim(field);
}

/// A conversion is complete where its output, in lower case, holds one of two marks of a token.
pub proof fn law_token(low: Seq<char>)
    ensures
        has_token(low) == (somewhere(low, "refresh_token"@) || somewhere(low, "rt-"@)),
{
    law_substring(low, "refresh_token"@);
    law_substring(low, "rt-"@);
}

/// Addresses are parted by the ends of lines and by commas, and blank ones do not count.
pub proof fn law_address_list(s: Seq<char>)
    ensures
        lines_of(s).len() == s.len(),
        forall|i: int|
            0 <= i < s.len() ==> #[trigger] lines_of(s)[i] == (if s[i] as int == 13 || s[i] == ',' {
                '\n'
            } else {
                s[i]
            }),
{
}

/// The waiting goes on exactly where what is waited for is not there, time is left, and the user
/// did not give up.
pub proof fn law_waiting(over: bool, now: u128, max: u128, cancelled: bool)
    ensures
        due(over, now, max, cancelled) is Look <==> !over && now < max && !cancelled,
        due(over, now, max, cancelled) is Over <==> over,
        due(over, now, max, cancelled) is TimedOut <==> !over && now >= max,
        due(over, now, max, cancelled) is Cancelled <==> !over && now < max && cancelled,
{
}

// ---------------------------------------------------------------------------
// Laws on what a call gives
// ---------------------------------------------------------------------------

/// A batch is over as soon as its status line tells of some addresses and of none under way,
/// however many of them succeeded; where the line does not tell how many are under way, once it
/// stayed the same three times.
pub proof fn law_end_of_a_batch(poll: &mut Poll, p: &PollReading, r: (Vec<String>, bool))
    requires
        call_ensures(Poll::take, (poll, p), r),
    ensures
        ({
            let begun = num_after(p.stat@, "共"@) matches Some(n) && n > 0;
            let live = num_after(p.stat@, "进行中"@);
            &&& begun && live == Some(0nat) ==> r.1
            &&& !begun ==> !r.1
            &&& (live matches Some(n) && n > 0) ==> !r.1
            &&& begun && live is None ==> (r.1 <==> p.stat@.len() > 0 && p.stat@ == old(
                poll,
            ).last_stat@ && old(poll).stable >= 2)
        }),
        final(poll).log@.len() == old(poll).log@.len() + 1,
{
    law_batch_ends(
        p.stat@,
        stable_after(old(poll).last_stat@, old(poll).stable, p.stat@),
    );
    assert(docs(final(poll).log@).len() == final(poll).log@.len());
    assert(docs(old(poll).log@).len() == old(poll).log@.len());
}

/// The polling goes on exactly where the batch is not over, time is left and the user did not give
/// up.
pub proof fn law_polling_goes_on(poll: &Poll, now: u128, max: u128, cancelled: bool, r: PollStep)
    requires
        call_ensures(Poll::next, (poll, now, max, cancelled), r),
    ensures
        r is Look <==> poll.ended is None && now < max && !cancelled,
        r is Over <==> poll.ended is Some,
{
}

/// The text that is taken is the first of the three that is not blank.
pub proof fn law_taken_text(page: &str, system: &str, field: &str, r: (String, bool))
    requires
        call_ensures(pick_clipboard, (page, system, field), r),
    ensures
        !only_spaces(page@) ==> r.0@ == page@ && !r.1,
        only_spaces(page@) && !only_spaces(system@) ==> r.0@ == system@ && !r.1,
        only_spaces(page@) && only_spaces(system@) ==> r.0@ == field@ && r.1 == !only_spaces(field@),
{
    law_fetched_text(page@, system@, field@);
}

/// A conversion is complete where its output has one of two marks of a token, in whatever case; it
/// is waited for fifteen seconds.
pub proof fn law_conversion(out: &str, now: u128, r: bool, s: PollStep)
    requires
        call_ensures(converted, (out,), r),
        call_ensures(convert_next, (out, now), s),
    ensures
        r == (somewhere(lowercase(out@), "refresh_token"@) || somewhere(lowercase(out@), "rt-"@)),
        s is Over <==> r,
        s is Look <==> !r && now < 15000,
{
    law_token(lowercase(out@));
}

/// A batch is refused where the user gave up or there is no address.
pub proof fn law_refused_batch(cancelled: bool, emails: &Vec<String>, r: Option<String>)
    requires
        call_ensures(fetch_refused, (cancelled, emails), r),
    ensures
        r is Some <==> cancelled || emails@.len() == 0,
{
}

/// What is reported of a batch holds what was read, each under its name.
pub proof fn law_batch_report(f: &Fetched, r: Json)
    requires
        call_ensures(fetch_report, (f,), r),
    ensures
        r@ matches JsonV::Obj(o) && o.len() == 12 && o[0] == ("bannedEmails"@, strings(
            texts(f.banned_emails@),
        )) && o[1] == ("clipboard"@, JsonV::Str(f.clipboard@)) && o[2] == (
            "copyClicked"@,
            JsonV::Bool(f.copy_clicked),
        ) && o[3] == ("cpaPage"@, f.cpa_page@) && o[4] == ("done"@, JsonV::Bool(f.done)) && o[5] == (
            "emailsCount"@,
            JsonV::Num(decimal(f.emails_count as nat)),
        ) && o[7] == ("errors"@, strings(texts(f.errors@))) && o[8] == (
            "finalState"@,
            f.final_state@,
        ) && o[10] == ("pollLog"@, JsonV::Arr(docs(f.poll_log@))) && o[11] == (
            "url"@,
            JsonV::Str(f.url@),
        ),
{
}

/// Addresses are read from both sides of a comma or of the end of a line.
pub proof fn law_read_addresses(
    a: &str,
    b: &str,
    both: &str,
    c: char,
    r: Vec<String>,
    s: Vec<String>,
    t: Vec<String>,
)
    requires
        call_ensures(parse_emails, (a,), r),
        call_ensures(parse_emails, (b,), s),
        call_ensures(parse_emails, (both,), t),
        c == ',' || c as int == 13 || c == '\n',
        both@ == a@ + seq![c] + b@,
    ensures
        texts(t@) == texts(r@) + texts(s@),
{
    law_address_list(a@);
    law_address_list(b@);
    law_address_list(both@);
    let x = lines_of(a@);
    let y = lines_of(b@);
    assert(lines_of(both@) =~= x + seq!['\n'] + y);
    lemma_split_apart(x, y, '\n');
    law_filled(split(x, '\n'), split(y, '\n'));
}

proof fn lemma_split_apart(a: Seq<char>, b: Seq<char>, c: char)
    ensures
        split(a + seq![c] + b, c) == split(a, c) + split(b, c),
    decreases a.len(),
{
    if a.contains(c) {
        let i = a.index_of_first(c)->0;
        a.index_of_first_ensures(c);
        let x = a.take(i);
        let y = a.skip(i + 1);
        assert(!x.contains(c)) by {
            if x.contains(c) {
                let k = choose|k: int| 0 <= k < x.len() && x[k] == c;
                assert(a[k] == c);
            }
        }
        assert(a =~= x + seq![c] + y);
        law_split(x, y, c);
        assert(a + seq![c] + b =~= x + seq![c] + (y + seq![c] + b));
        law_split(x, y + seq![c] + b, c);
        lemma_split_apart(y, b, c);
        assert(seq![x] + (split(y, c) + split(b, c)) =~= seq![x] + split(y, c) + split(b, c));
    } else {
        law_split(a, b, c);
    }
}

/// The final state is that of the reading which ended the batch, and otherwise tells that none
/// did.
pub proof fn law_final_state(poll: &Poll, elapsed: u64, r: Json)
    requires
        call_ensures(Poll::final_state, (poll, elapsed), r),
    ensures
        poll.ended matches Some(d) ==> r@ == d@,
        poll.ended is None ==> (r@ matches JsonV::Obj(o) && o.len() == 2 && o[0] == (
            "elapsed"@,
            JsonV::Str(decimal(elapsed as nat) + "s"@),
        ) && o[1] == ("note"@, JsonV::Str("超时未检测到完成信号"@))),
{
}

/// A reading is kept with the counts of its status line, and a line tells of it.
pub proof fn law_reading_is_kept(p: PollReading, c: Counts)
    ensures
        snapshot(p, c) matches JsonV::Obj(o) && o.len() == 11 && o[0] == ("copyAll"@, JsonV::Bool(
            p.copy_all,
        )) && o[1] == ("copyAllVisible"@, JsonV::Bool(p.copy_visible)) && o[5] == (
            "fail"@,
            count_doc(c.fail),
        ) && o[6] == ("live"@, count_doc(c.live)) && o[7] == ("ok"@, count_doc(c.ok)) && o[8] == (
            "stat"@,
            JsonV::Str(first_chars(p.stat@, 200)),
        ) && o[10] == ("total"@, count_doc(c.total)),
        poll_line(p, None) == "[poll "@ + decimal(p.elapsed as nat) + "s] stat="@ + first_chars(
            p.stat@,
            120,
        ) + " copyAllVisible="@ + (if p.copy_visible {
            "true"@
        } else {
            "false"@
        }) + " live="@ + "None"@,
        c.live matches Some(n) ==> poll_line(p, c.live) == "[poll "@ + decimal(p.elapsed as nat)
            + "s] stat="@ + first_chars(p.stat@, 120) + " copyAllVisible="@ + (if p.copy_visible {
            "true"@
        } else {
            "false"@
        }) + " live="@ + ("Some("@ + decimal(n as nat) + ")"@),
        count_doc(None) is Null,
        c.live matches Some(n) ==> count_doc(c.live) == JsonV::Num(decimal(n as nat)),
{
}

/// The end of the polling tells whether the batch was over or the time.
pub proof fn law_end_is_told(poll: &Poll, r: &'static str)
    requires
        call_ensures(Poll::closing, (poll,), r),
    ensures
        poll.ended is Some ==> r@ == "检测到完成信号"@,
        poll.ended is None ==> r@ == "超时结束"@,
{
}

/// The polling begins with nothing read.
pub proof fn law_polling_begins(poll: Poll)
    requires
        call_ensures(Poll::begin, (), poll),
    ensures
        poll.ended is None,
        poll.stable == 0,
        poll.last_stat@.len() == 0,
        poll.log@.len() == 0,
{
}

} // verus!
