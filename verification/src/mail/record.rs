//! Mail records, the water mark that tells new mail from old, and the choice of a code.
use crate::json::{copy_docs, docs, law_field, law_typed_field, Json, JsonV};
use crate::mail::code::{
    extract_code_from_text, law_speaks_of_code, mail_code, mentions_code, says_code, speaks_of_code,
};
use crate::text::basic::{
    blank, is_blank, lowercase, opt_text, same, strip_tail, stripped_tail, trim, trimmed,
};
use crate::text::charwise::{is_core, law_substring, law_trim, only_spaces, somewhere, spelled};
use crate::text::numeral::signed;
use crate::text::search::{contains, ends, ends_with, holds};
use vstd::prelude::*;

verus! {

// ---------------------------------------------------------------------------
// The connection
// ---------------------------------------------------------------------------

/// How to reach the mailbox service.
#[derive(Debug, Clone, Default)]
pub struct MailConfig {
    /// The address of the site, with or without the `/api` suffix.
    pub base_url: String,
    pub username: String,
    pub password: String,
}

/// The root of the service's interface: the address without trailing slashes, ending in `/api`.
pub open spec fn root_of(base_url: Seq<char>) -> Seq<char> {
    let b = strip_tail(trim(base_url), '/');
    if ends(b, "/api"@) {
        b
    } else {
        b + "/api"@
    }
}

impl MailConfig {
    /// Whether every setting is filled in.
    pub open spec fn set_up(self) -> bool {
        !blank(self.base_url@) && !blank(self.username@) && self.password@.len() > 0
    }

    /// Whether every setting is filled in.
    pub fn ready(&self) -> (r: bool)
        ensures
            r == self.set_up(),
    {
        !is_blank(self.base_url.as_str()) && !is_blank(self.username.as_str())
            && !self.password.as_str().is_empty()
    }

    /// The root of the service's interface.
    pub fn api_root(&self) -> (r: String)
        ensures
            r@ == root_of(self.base_url@),
    {
        let t = trimmed(self.base_url.as_str());
        let mut b = stripped_tail(t.as_str(), '/');
        if !ends_with(b.as_str(), "/api") {
            b.append("/api");
        }
        b
    }
}

// ---------------------------------------------------------------------------
// Time
// ---------------------------------------------------------------------------

/// The seconds since the epoch of the time with an offset that `s` gives in the format `fmt`.
pub uninterp spec fn zoned_time(s: Seq<char>, fmt: Seq<char>) -> Option<i64>;

/// The seconds since the epoch of the time without an offset, taken as UTC, that `s` gives in the
/// format `fmt`.
pub uninterp spec fn naive_time(s: Seq<char>, fmt: Seq<char>) -> Option<i64>;

/// `chrono::DateTime::parse_from_str`, its result taken in seconds since the epoch: a function of
/// the text and the format alone.
#[verifier::external_body]
fn zoned_seconds(s: &str, fmt: &str) -> (r: Option<i64>)
    ensures
        r == zoned_time(s@, fmt@),
{
    match chrono::DateTime::parse_from_str(s, fmt) {
        Ok(t) => Some(t.timestamp()),
        Err(_) => None,
    }
}

/// `chrono::NaiveDateTime::parse_from_str`, its result taken as UTC in seconds since the epoch: a
/// function of the text and the format alone.
#[verifier::external_body]
fn naive_seconds(s: &str, fmt: &str) -> (r: Option<i64>)
    ensures
        r == naive_time(s@, fmt@),
{
    match chrono::NaiveDateTime::parse_from_str(s, fmt) {
        Ok(t) => Some(t.and_utc().timestamp()),
        Err(_) => None,
    }
}

/// The first of five readings that succeeded.
pub open spec fn first_reading(
    a: Option<i64>,
    b: Option<i64>,
    c: Option<i64>,
    d: Option<i64>,
    e: Option<i64>,
) -> Option<i64> {
    if a is Some {
        a
    } else if b is Some {
        b
    } else if c is Some {
        c
    } else if d is Some {
        d
    } else {
        e
    }
}

/// The time that `s` gives, in seconds since the epoch. A time with an offset is tried first, in
/// three formats; one without is taken as UTC.
pub open spec fn time_epoch(s: Seq<char>) -> Option<i64> {
    let t = trim(s);
    if t.len() == 0 {
        None
    } else {
        first_reading(
            zoned_time(t, "%Y-%m-%d %H:%M:%S%:z"@),
            zoned_time(t, "%Y-%m-%dT%H:%M:%S%:z"@),
            zoned_time(t, "%Y-%m-%d %H:%M:%S%.f%:z"@),
            naive_time(t, "%Y-%m-%d %H:%M:%S"@),
            naive_time(t, "%Y-%m-%dT%H:%M:%S"@),
        )
    }
}

/// The first of five readings that succeeded.
pub fn first_read(
    a: Option<i64>,
    b: Option<i64>,
    c: Option<i64>,
    d: Option<i64>,
    e: Option<i64>,
) -> (r: Option<i64>)
    ensures
        r == first_reading(a, b, c, d, e),
{
    if a.is_some() {
        a
    } else if b.is_some() {
        b
    } else if c.is_some() {
        c
    } else if d.is_some() {
        d
    } else {
        e
    }
}

/// Reads a time of the mailbox service, such as `2026-09-16 08:29:50+00:00`.
pub fn parse_time_epoch(s: &str) -> (r: Option<i64>)
    ensures
        r == time_epoch(s@),
{
    let t = trimmed(s);
    let s = t.as_str();
    if s.is_empty() {
        return None;
    }
    first_read(
        zoned_seconds(s, "%Y-%m-%d %H:%M:%S%:z"),
        zoned_seconds(s, "%Y-%m-%dT%H:%M:%S%:z"),
        zoned_seconds(s, "%Y-%m-%d %H:%M:%S%.f%:z"),
        naive_seconds(s, "%Y-%m-%d %H:%M:%S"),
        naive_seconds(s, "%Y-%m-%dT%H:%M:%S"),
    )
}

// ---------------------------------------------------------------------------
// Records
// ---------------------------------------------------------------------------

/// One received mail.
#[derive(Debug, Clone, Default)]
pub struct MailRecord {
    pub id: i64,
    pub email_id: i64,
    pub sender: String,
    pub subject: String,
    pub content: String,
    pub received_time: String,
    pub folder: String,
}

/// The text of the field `k` without the white space around it, empty where it is no string.
pub open spec fn trimmed_field(v: JsonV, k: Seq<char>) -> Seq<char> {
    trim(v.field_text(k).unwrap_or(Seq::empty()))
}

fn trimmed_of(v: &Json, k: &str) -> (r: String)
    ensures
        r@ == trimmed_field(v@, k@),
{
    let t = v.get_text(k);
    trimmed(t.as_str())
}

/// Whether a text in lower case names OpenAI or its product.
pub open spec fn names_openai(low: Seq<char>) -> bool {
    holds(low, "openai"@) || holds(low, "chatgpt"@)
}

/// Whether a text in lower case names OpenAI or its product.
pub fn openai_named(low: &str) -> (r: bool)
    ensures
        r == names_openai(low@),
{
    contains(low, "openai") || contains(low, "chatgpt")
}

impl MailRecord {
    /// Whether the record is the one that the document `v` describes. A missing number is zero, a
    /// missing text empty; the content alone keeps the white space around it.
    pub open spec fn describes(self, v: JsonV) -> bool {
        &&& self.id == v.field_integer("id"@).unwrap_or(0)
        &&& self.email_id == v.field_integer("email_id"@).unwrap_or(0)
        &&& self.sender@ == trimmed_field(v, "sender"@)
        &&& self.subject@ == trimmed_field(v, "subject"@)
        &&& self.content@ == v.field_text("content"@).unwrap_or(Seq::empty())
        &&& self.received_time@ == trimmed_field(v, "received_time"@)
        &&& self.folder@ == trimmed_field(v, "folder"@)
    }

    /// Reads a record from a document of the service.
    pub fn from_value(v: &Json) -> (r: MailRecord)
        ensures
            r.describes(v@),
    {
        MailRecord {
            id: match v.get_i64("id") {
                Some(i) => i,
                None => 0,
            },
            email_id: match v.get_i64("email_id") {
                Some(i) => i,
                None => 0,
            },
            sender: trimmed_of(v, "sender"),
            subject: trimmed_of(v, "subject"),
            content: v.get_text("content"),
            received_time: trimmed_of(v, "received_time"),
            folder: trimmed_of(v, "folder"),
        }
    }

    /// When the mail was received, in seconds since the epoch.
    pub fn received_epoch(&self) -> (r: Option<i64>)
        ensures
            r == time_epoch(self.received_time@),
    {
        parse_time_epoch(self.received_time.as_str())
    }

    /// The sender and the subject, in one text.
    pub open spec fn signature(self) -> Seq<char> {
        self.sender@ + " "@ + self.subject@
    }

    fn signature_text(&self) -> (r: String)
        ensures
            r@ == self.signature(),
    {
        let mut s = self.sender.clone();
        s.append(" ");
        s.append(self.subject.as_str());
        s
    }

    /// Whether the mail says that it carries a code.
    pub fn looks_like_code_mail(&self) -> (r: bool)
        ensures
            r == speaks_of_code(self.signature()),
    {
        let s = self.signature_text();
        mentions_code(s.as_str())
    }

    /// Whether the mail is one of OpenAI's.
    pub open spec fn is_from_openai(self) -> bool {
        names_openai(lowercase(self.signature()))
    }

    /// Whether the mail is one of OpenAI's, of whatever kind.
    pub fn looks_like_openai(&self) -> (r: bool)
        ensures
            r == self.is_from_openai(),
    {
        let text = self.signature_text();
        let s = text.as_str().to_lowercase();
        openai_named(s.as_str())
    }

    /// The code of the mail.
    pub open spec fn code(self) -> Option<Seq<char>> {
        mail_code(self.subject@, self.content@)
    }

    /// The time by which the mail is ranked: zero where it is not known.
    pub open spec fn when(self) -> int {
        match time_epoch(self.received_time@) {
            Some(e) => e as int,
            None => 0,
        }
    }
}

// ---------------------------------------------------------------------------
// The choice of a code
// ---------------------------------------------------------------------------

/// Whether `a` comes before `b` in the order from the newest mail to the oldest.
pub open spec fn newer(a: MailRecord, b: MailRecord) -> bool {
    a.when() > b.when() || (a.when() == b.when() && a.id > b.id)
}

/// Whether `r` has a code and is of the wanted kind: a mail that says it carries a code where
/// `strict`, and any of OpenAI's otherwise.
pub open spec fn eligible(r: MailRecord, strict: bool) -> bool {
    r.code() is Some && (if strict {
        speaks_of_code(r.signature())
    } else {
        r.is_from_openai()
    })
}

/// The position of the newest eligible mail, the first of several as new.
pub open spec fn newest(records: Seq<MailRecord>, strict: bool) -> Option<int>
    decreases records.len(),
{
    if records.len() == 0 {
        None
    } else {
        let best = newest(records.drop_last(), strict);
        if eligible(records.last(), strict) && (best is None || newer(
            records.last(),
            records[best->0],
        )) {
            Some(records.len() - 1)
        } else {
            best
        }
    }
}

/// The code and the subject of the newest mail that says it carries a code, or else of the newest
/// of OpenAI's.
pub open spec fn picked(records: Seq<MailRecord>) -> Option<(Seq<char>, Seq<char>)> {
    match newest(records, true) {
        Some(i) => Some((records[i].code()->0, records[i].subject@)),
        None => match newest(records, false) {
            Some(i) => Some((records[i].code()->0, records[i].subject@)),
            None => None,
        },
    }
}

/// A code with the subject of its mail, as sequences.
pub open spec fn opt_pair(p: Option<(String, String)>) -> Option<(Seq<char>, Seq<char>)> {
    match p {
        Some((a, b)) => Some((a@, b@)),
        None => None,
    }
}

fn is_newer(a: &MailRecord, b: &MailRecord) -> (r: bool)
    ensures
        r == newer(*a, *b),
{
    let x: i64 = match a.received_epoch() {
        Some(e) => e,
        None => 0,
    };
    let y: i64 = match b.received_epoch() {
        Some(e) => e,
        None => 0,
    };
    x > y || (x == y && a.id > b.id)
}

/// The code of `r`, where the mail is of the wanted kind.
fn code_if(r: &MailRecord, strict: bool) -> (c: Option<String>)
    ensures
        c.is_some() == eligible(*r, strict),
        c.is_some() ==> opt_text(c) == r.code(),
{
    let wanted = if strict {
        r.looks_like_code_mail()
    } else {
        r.looks_like_openai()
    };
    if wanted {
        extract_code_from_text(r.subject.as_str(), r.content.as_str())
    } else {
        None
    }
}

/// The newest eligible mail: its code and its subject.
fn pick_newest(records: &[&MailRecord], strict: bool) -> (r: Option<(String, String)>)
    ensures
        match newest(records@.unref(), strict) {
            Some(i) => 0 <= i < records@.len() && records@[i].code() is Some && opt_pair(r) == Some(
                (records@[i].code()->0, records@[i].subject@),
            ),
            None => r is None,
        },
{
    let mut best: Option<(usize, String)> = None;
    let mut i: usize = 0;
    while i < records.len()
        invariant
            i <= records@.len(),
            match newest(records@.unref().take(i as int), strict) {
                Some(b) => best matches Some((k, c)) && k == b && 0 <= b < i
                    && records@[b].code() == Some(c@),
                None => best is None,
            },
        decreases records@.len() - i,
    {
        let r = records[i];
        assert(records@.unref().take(i + 1).drop_last() == records@.unref().take(i as int));
        match code_if(r, strict) {
            Some(c) => {
                let better = match &best {
                    Some((k, _)) => is_newer(r, records[*k]),
                    None => true,
                };
                if better {
                    best = Some((i, c));
                }
            },
            None => {},
        }
        i += 1;
    }
    assert(records@.unref().take(records@.len() as int) == records@.unref());
    match best {
        Some((k, c)) => Some((c, records[k].subject.clone())),
        None => None,
    }
}

/// Picks the code out of a list of records, with the subject of its mail.
pub fn pick_code(records: &[&MailRecord]) -> (r: Option<(String, String)>)
    ensures
        opt_pair(r) == picked(records@.unref()),
{
    let found = pick_newest(records, true);
    if found.is_some() {
        return found;
    }
    pick_newest(records, false)
}

// ---------------------------------------------------------------------------
// The water mark
// ---------------------------------------------------------------------------

/// What was in a mailbox at some moment; only what comes after it counts as new.
#[derive(Debug, Clone, Default)]
pub struct MailBaseline {
    pub email_id: i64,
    /// The greatest record number.
    pub max_record_id: i64,
    /// The latest time of receipt, in seconds since the epoch.
    pub max_received_epoch: i64,
    /// How many mails there were.
    pub existing: usize,
}

impl MailBaseline {
    /// Whether `r` came after the water mark: there was no mail, or `r` is later by its number, or
    /// by its time. A number or a time of the mark that is not above zero tells nothing.
    pub open spec fn precedes(self, r: MailRecord) -> bool {
        ||| self.existing == 0
        ||| self.max_record_id > 0 && r.id > self.max_record_id
        ||| self.max_received_epoch > 0 && (time_epoch(r.received_time@) matches Some(e) && e
            > self.max_received_epoch)
    }

    /// Whether `r` came after the water mark.
    pub fn is_new(&self, r: &MailRecord) -> (b: bool)
        ensures
            b == self.precedes(*r),
    {
        if self.existing == 0 || (self.max_record_id > 0 && r.id > self.max_record_id) {
            return true;
        }
        match r.received_epoch() {
            Some(e) => self.max_received_epoch > 0 && e > self.max_received_epoch,
            None => false,
        }
    }
}

/// The greatest record number, zero where there is no record.
pub open spec fn greatest_id(recs: Seq<MailRecord>) -> i64
    decreases recs.len(),
{
    if recs.len() == 0 {
        0
    } else if recs.len() == 1 || recs.last().id > greatest_id(recs.drop_last()) {
        recs.last().id
    } else {
        greatest_id(recs.drop_last())
    }
}

/// The latest time of receipt, where any is known.
pub open spec fn latest(recs: Seq<MailRecord>) -> Option<i64>
    decreases recs.len(),
{
    if recs.len() == 0 {
        None
    } else {
        let before = latest(recs.drop_last());
        match time_epoch(recs.last().received_time@) {
            Some(e) => if before is None || e > before->0 {
                Some(e)
            } else {
                before
            },
            None => before,
        }
    }
}

/// Whether `b` is the water mark of a mailbox that holds `recs`.
pub open spec fn marks(b: MailBaseline, email_id: i64, recs: Seq<MailRecord>) -> bool {
    &&& b.email_id == email_id
    &&& b.max_record_id == greatest_id(recs)
    &&& b.max_received_epoch == latest(recs).unwrap_or(0)
    &&& b.existing == recs.len()
}

/// Takes the water mark of a mailbox that holds `recs`.
pub fn snapshot_for(email_id: i64, recs: &Vec<MailRecord>) -> (b: MailBaseline)
    ensures
        marks(b, email_id, recs@),
{
    let mut max_id: i64 = 0;
    let mut max_epoch: Option<i64> = None;
    let mut i: usize = 0;
    while i < recs.len()
        invariant
            i <= recs@.len(),
            max_id == greatest_id(recs@.take(i as int)),
            max_epoch == latest(recs@.take(i as int)),
        decreases recs@.len() - i,
    {
        assert(recs@.take(i + 1).drop_last() == recs@.take(i as int));
        if i == 0 || recs[i].id > max_id {
            max_id = recs[i].id;
        }
        match recs[i].received_epoch() {
            Some(e) => {
                let later = match max_epoch {
                    Some(m) => e > m,
                    None => true,
                };
                if later {
                    max_epoch = Some(e);
                }
            },
            None => {},
        }
        i += 1;
    }
    assert(recs@.take(recs@.len() as int) == recs@);
    MailBaseline {
        email_id,
        max_record_id: max_id,
        max_received_epoch: match max_epoch {
            Some(m) => m,
            None => 0,
        },
        existing: recs.len(),
    }
}

// ---------------------------------------------------------------------------
// Replies
// ---------------------------------------------------------------------------

/// The rows of a reply: it is an array, or holds one in `data` or else in `results`.
pub open spec fn rows(v: JsonV) -> Seq<JsonV> {
    match v {
        JsonV::Arr(a) => a,
        _ => match v.field_items("data"@) {
            Some(a) => a,
            None => match v.field_items("results"@) {
                Some(a) => a,
                None => Seq::empty(),
            },
        },
    }
}

/// The rows of a reply.
pub fn as_array(v: &Json) -> (r: Vec<Json>)
    ensures
        docs(r@) == rows(v@),
{
    match v.as_array() {
        Some(a) => copy_docs(a),
        None => match v.get_array("data") {
            Some(a) => copy_docs(a),
            None => match v.get_array("results") {
                Some(a) => copy_docs(a),
                None => {
                    let none: Vec<Json> = Vec::new();
                    assert(docs(none@) =~= Seq::<JsonV>::empty());
                    none
                },
            },
        },
    }
}

/// Whether the records are those that the documents describe, in order.
pub open spec fn describe_all(recs: Seq<MailRecord>, v: Seq<JsonV>) -> bool {
    recs.len() == v.len() && forall|i: int|
        0 <= i < v.len() ==> (#[trigger] recs[i]).describes(v[i])
}

/// Reads the records of a reply.
pub fn records_of(v: &Json) -> (r: Vec<MailRecord>)
    ensures
        describe_all(r@, rows(v@)),
{
    let list = as_array(v);
    let mut out: Vec<MailRecord> = Vec::new();
    let mut i: usize = 0;
    while i < list.len()
        invariant
            i <= list@.len(),
            out@.len() == i,
            forall|k: int| 0 <= k < i ==> (#[trigger] out@[k]).describes(list@[k]@),
        decreases list@.len() - i,
    {
        out.push(MailRecord::from_value(&list[i]));
        i += 1;
    }
    assert forall|k: int| 0 <= k < rows(v@).len() implies (#[trigger] out@[k]).describes(
        rows(v@)[k],
    ) by {
        assert(docs(list@)[k] == list@[k]@);
    }
    out
}

/// An address as it is compared: without the white space around it, in lower case.
pub open spec fn address(s: Seq<char>) -> Seq<char> {
    lowercase(trim(s))
}

/// The number of the first mailbox of the list with the address of `email`.
pub open spec fn mailbox_of(list: Seq<JsonV>, email: Seq<char>) -> Option<int>
    decreases list.len(),
{
    if list.len() == 0 {
        None
    } else if address(list[0].field_text("email"@).unwrap_or(Seq::empty())) == address(email) {
        list[0].field_integer("id"@)
    } else {
        mailbox_of(list.drop_first(), email)
    }
}

/// An integer as a mathematical one.
pub open spec fn opt_int(i: Option<i64>) -> Option<int> {
    match i {
        Some(v) => Some(v as int),
        None => None,
    }
}

/// Finds the number of a mailbox in the list of all mailboxes.
pub fn mailbox_id(list: &Vec<Json>, email: &str) -> (r: Option<i64>)
    ensures
        opt_int(r) == mailbox_of(docs(list@), email@),
{
    let want = trimmed(email).as_str().to_lowercase();
    let ghost all = docs(list@);
    let mut i: usize = 0;
    assert(all.skip(0) == all);
    while i < list.len()
        invariant
            i <= list@.len(),
            all == docs(list@),
            want@ == address(email@),
            mailbox_of(all, email@) == mailbox_of(all.skip(i as int), email@),
        decreases list@.len() - i,
    {
        let text = list[i].get_text("email");
        let e = trimmed(text.as_str()).as_str().to_lowercase();
        assert(all.skip(i as int)[0] == list@[i as int]@);
        assert(all.skip(i as int).drop_first() == all.skip(i + 1));
        if same(e.as_str(), want.as_str()) {
            return list[i].get_i64("id");
        }
        i += 1;
    }
    None
}

// ---------------------------------------------------------------------------
// Laws
// ---------------------------------------------------------------------------

proof fn lemma_marks_bound(recs: Seq<MailRecord>)
    ensures
        forall|i: int| 0 <= i < recs.len() ==> (#[trigger] recs[i]).id <= greatest_id(recs),
        forall|i: int|
            0 <= i < recs.len() ==> (time_epoch((#[trigger] recs[i]).received_time@) matches Some(e)
                ==> latest(recs) is Some && e <= latest(recs)->0),
    decreases recs.len(),
{
    if recs.len() > 0 {
        let less = recs.drop_last();
        lemma_marks_bound(less);
        assert forall|i: int| 0 <= i < recs.len() implies (#[trigger] recs[i]).id <= greatest_id(
            recs,
        ) && (time_epoch(recs[i].received_time@) matches Some(e) ==> latest(recs) is Some && e
            <= latest(recs)->0) by {
            if i < recs.len() - 1 {
                assert(recs[i] == less[i]);
            }
        }
    }
}

/// No mail that was in the mailbox when the water mark was taken is new.
pub proof fn law_marked_mail_is_old(
    b: MailBaseline,
    email_id: i64,
    recs: Seq<MailRecord>,
    i: int,
)
    requires
        marks(b, email_id, recs),
        0 <= i < recs.len(),
    ensures
        !b.precedes(recs[i]),
{
    lemma_marks_bound(recs);
}

/// Record numbers only grow: where any that was there is above zero, a mail with a greater number
/// than all of them is new; where there was no mail, every mail is.
pub proof fn law_later_mail_is_new(
    b: MailBaseline,
    email_id: i64,
    recs: Seq<MailRecord>,
    r: MailRecord,
)
    requires
        marks(b, email_id, recs),
        recs.len() > 0 ==> greatest_id(recs) > 0,
        forall|i: int| 0 <= i < recs.len() ==> (#[trigger] recs[i]).id < r.id,
    ensures
        b.precedes(r),
{
    if recs.len() > 0 {
        lemma_greatest_is_held(recs);
    }
}

proof fn lemma_greatest_is_held(recs: Seq<MailRecord>)
    requires
        recs.len() > 0,
    ensures
        exists|i: int| 0 <= i < recs.len() && (#[trigger] recs[i]).id == greatest_id(recs),
    decreases recs.len(),
{
    assert(recs[recs.len() - 1] == recs.last());
    if recs.len() > 1 {
        let less = recs.drop_last();
        lemma_greatest_is_held(less);
        let i = choose|i: int| 0 <= i < less.len() && (#[trigger] less[i]).id == greatest_id(less);
        assert(recs[i] == less[i]);
    }
}

/// The newest eligible mail is eligible, no eligible mail is newer, and of several as new it is
/// the first; there is none only where no mail is eligible.
pub proof fn law_newest(records: Seq<MailRecord>, strict: bool)
    ensures
        match newest(records, strict) {
            Some(i) => 0 <= i < records.len() && eligible(records[i], strict) && (forall|j: int|
                0 <= j < records.len() && eligible(#[trigger] records[j], strict) ==> !newer(
                    records[j],
                    records[i],
                ) && (j < i ==> newer(records[i], records[j]))),
            None => forall|j: int|
                0 <= j < records.len() ==> !eligible(#[trigger] records[j], strict),
        },
    decreases records.len(),
{
    if records.len() > 0 {
        let less = records.drop_last();
        law_newest(less, strict);
        assert forall|j: int| 0 <= j < less.len() implies less[j] == #[trigger] records[j] by {}
    }
}

/// A mail that says it carries a code comes before any other: where one of them yields a code,
/// the picked code is that of the newest.
pub proof fn law_code_mail_comes_first(records: Seq<MailRecord>, k: int)
    requires
        0 <= k < records.len(),
        eligible(records[k], true),
    ensures
        exists|i: int|
            0 <= i < records.len() && eligible(#[trigger] records[i], true) && !newer(
                records[k],
                records[i],
            ) && picked(records) == Some((records[i].code()->0, records[i].subject@)),
{
    law_newest(records, true);
    let i = newest(records, true)->0;
    assert(eligible(records[i], true));
}

/// A picked code is the code of one of the mails.
pub proof fn law_picked_code_is_of_a_mail(records: Seq<MailRecord>)
    ensures
        picked(records) matches Some((c, subject)) ==> exists|i: int|
            0 <= i < records.len() && (#[trigger] records[i]).code() == Some(c)
                && records[i].subject@ == subject,
        picked(records) is None ==> forall|i: int|
            0 <= i < records.len() ==> !eligible(#[trigger] records[i], true) && !eligible(
                records[i],
                false,
            ),
{
    law_newest(records, true);
    law_newest(records, false);
    if newest(records, true) is Some {
        let i = newest(records, true)->0;
        assert(records[i].code() is Some);
    } else if newest(records, false) is Some {
        let i = newest(records, false)->0;
        assert(records[i].code() is Some);
    }
}

// ---------------------------------------------------------------------------
// Laws in plain terms
// ---------------------------------------------------------------------------

/// A time is read with its offset where it has one, and otherwise as UTC; what is blank or in none
/// of the five forms is no time.
pub proof fn law_time(s: Seq<char>)
    ensures
        ({
            let t = trim(s);
            let a = zoned_time(t, "%Y-%m-%d %H:%M:%S%:z"@);
            let b = zoned_time(t, "%Y-%m-%dT%H:%M:%S%:z"@);
            let c = zoned_time(t, "%Y-%m-%d %H:%M:%S%.f%:z"@);
            let d = naive_time(t, "%Y-%m-%d %H:%M:%S"@);
            let e = naive_time(t, "%Y-%m-%dT%H:%M:%S"@);
            &&& only_spaces(s) ==> time_epoch(s) is None
            &&& !only_spaces(s) && a is Some ==> time_epoch(s) == a
            &&& !only_spaces(s) && a is None && b is Some ==> time_epoch(s) == b
            &&& !only_spaces(s) && a is None && b is None && c is Some ==> time_epoch(s) == c
            &&& !only_spaces(s) && a is None && b is None && c is None && d is Some ==> time_epoch(s)
                == d
            &&& !only_spaces(s) && a is None && b is None && c is None && d is None ==> time_epoch(s)
                == e
        }),
{
    law_trim(s);
}

/// The moment of a mail: its time where that is known, and otherwise the epoch.
pub open spec fn moment(r: MailRecord) -> int {
    match time_epoch(r.received_time@) {
        Some(e) => e as int,
        None => 0,
    }
}

/// Whether a mail says that it carries a code, by its sender and subject, and has one.
pub open spec fn offers_code(r: MailRecord) -> bool {
    says_code(lowercase(r.sender@ + seq![' '] + r.subject@)) && mail_code(
        r.subject@,
        r.content@,
    ) is Some
}

/// Whether a mail is one of OpenAI's, by its sender and subject, and has a code.
pub open spec fn openai_code(r: MailRecord) -> bool {
    let low = lowercase(r.sender@ + seq![' '] + r.subject@);
    (somewhere(low, "openai"@) || somewhere(low, "chatgpt"@)) && mail_code(
        r.subject@,
        r.content@,
    ) is Some
}

/// Whether `a` came later than `b`, by its moment and then by its number.
pub open spec fn later(a: MailRecord, b: MailRecord) -> bool {
    moment(a) > moment(b) || (moment(a) == moment(b) && a.id > b.id)
}

proof fn lemma_kinds(r: MailRecord)
    ensures
        eligible(r, true) == offers_code(r),
        eligible(r, false) == openai_code(r),
        r.when() == moment(r),
{
    reveal_strlit(" ");
    assert(" "@ =~= seq![' ']);
    law_speaks_of_code(r.signature());
    let low = lowercase(r.signature());
    law_substring(low, "openai"@);
    law_substring(low, "chatgpt"@);
}

/// The code that is picked is that of the latest mail that says it carries one and has it; where
/// there is no such mail, that of the latest of OpenAI's that has one; and where there is none of
/// these either, there is no code.
pub proof fn law_latest_code_is_picked(records: Seq<MailRecord>)
    ensures
        match picked(records) {
            Some((c, subject)) => exists|i: int|
                0 <= i < records.len() && mail_code(
                    (#[trigger] records[i]).subject@,
                    records[i].content@,
                ) == Some(c) && records[i].subject@ == subject && (if exists|j: int|
                    0 <= j < records.len() && offers_code(#[trigger] records[j]) {
                    offers_code(records[i]) && forall|j: int|
                        0 <= j < records.len() && offers_code(#[trigger] records[j]) ==> !later(
                            records[j],
                            records[i],
                        )
                } else {
                    openai_code(records[i]) && forall|j: int|
                        0 <= j < records.len() && openai_code(#[trigger] records[j]) ==> !later(
                            records[j],
                            records[i],
                        )
                }),
            None => forall|j: int|
                0 <= j < records.len() ==> !offers_code(#[trigger] records[j]) && !openai_code(
                    records[j],
                ),
        },
{
    law_newest(records, true);
    law_newest(records, false);
    assert forall|j: int| 0 <= j < records.len() implies eligible(records[j], true) == offers_code(
        #[trigger] records[j],
    ) && eligible(records[j], false) == openai_code(records[j]) && records[j].when() == moment(
        records[j],
    ) by {
        lemma_kinds(records[j]);
    }
    match newest(records, true) {
        Some(i) => {
            assert(offers_code(records[i]));
            assert forall|j: int|
                0 <= j < records.len() && offers_code(#[trigger] records[j]) implies !later(
                records[j],
                records[i],
            ) by {
                assert(!newer(records[j], records[i]));
            }
        },
        None => {
            if let Some(i) = newest(records, false) {
                assert(openai_code(records[i]));
                assert forall|j: int|
                    0 <= j < records.len() && openai_code(#[trigger] records[j]) implies !later(
                    records[j],
                    records[i],
                ) by {
                    assert(!newer(records[j], records[i]));
                }
            }
        },
    }
}

/// A mail is new where the mailbox was empty, where its number is above a positive mark, and where
/// its time is after a positive mark; otherwise it is old.
pub proof fn law_new_mail(b: MailBaseline, r: MailRecord)
    ensures
        b.existing == 0 ==> b.precedes(r),
        b.max_record_id > 0 && r.id > b.max_record_id ==> b.precedes(r),
        b.max_received_epoch > 0 && time_epoch(r.received_time@) is Some && time_epoch(
            r.received_time@,
        )->0 > b.max_received_epoch ==> b.precedes(r),
        b.existing > 0 && (b.max_record_id <= 0 || r.id <= b.max_record_id) && (
        b.max_received_epoch <= 0 || time_epoch(r.received_time@) is None || time_epoch(
            r.received_time@,
        )->0 <= b.max_received_epoch) ==> !b.precedes(r),
{
}

/// A water mark holds the greatest number and the latest time of the mails that were there.
pub proof fn law_water_mark(b: MailBaseline, email_id: i64, recs: Seq<MailRecord>)
    requires
        marks(b, email_id, recs),
    ensures
        b.email_id == email_id,
        b.existing == recs.len(),
        forall|i: int| 0 <= i < recs.len() ==> (#[trigger] recs[i]).id <= b.max_record_id,
        recs.len() > 0 ==> exists|i: int|
            0 <= i < recs.len() && (#[trigger] recs[i]).id == b.max_record_id,
        forall|i: int|
            0 <= i < recs.len() ==> (time_epoch((#[trigger] recs[i]).received_time@) matches Some(e)
                ==> e <= b.max_received_epoch),
        (exists|i: int|
            0 <= i < recs.len() && time_epoch((#[trigger] recs[i]).received_time@) is Some)
            ==> exists|i: int|
            0 <= i < recs.len() && time_epoch((#[trigger] recs[i]).received_time@) == Some(
                b.max_received_epoch,
            ),
        recs.len() == 0 ==> b.max_record_id == 0 && b.max_received_epoch == 0,
{
    lemma_marks_bound(recs);
    lemma_latest_is_held(recs);
    if recs.len() > 0 {
        lemma_greatest_is_held(recs);
    }
}

proof fn lemma_latest_is_held(recs: Seq<MailRecord>)
    ensures
        match latest(recs) {
            Some(m) => exists|i: int|
                0 <= i < recs.len() && time_epoch((#[trigger] recs[i]).received_time@) == Some(m),
            None => forall|i: int|
                0 <= i < recs.len() ==> time_epoch((#[trigger] recs[i]).received_time@) is None,
        },
    decreases recs.len(),
{
    if recs.len() > 0 {
        let less = recs.drop_last();
        lemma_latest_is_held(less);
        assert(recs[recs.len() - 1] == recs.last());
        assert forall|i: int| 0 <= i < less.len() implies #[trigger] recs[i] == less[i] by {}
        match latest(less) {
            Some(m) => {
                let i = choose|i: int|
                    0 <= i < less.len() && time_epoch((#[trigger] less[i]).received_time@) == Some(
                        m,
                    );
                assert(recs[i] == less[i]);
            },
            None => {
                assert forall|i: int| 0 <= i < less.len() implies time_epoch(
                    (#[trigger] recs[i]).received_time@,
                ) is None by {
                    assert(recs[i] == less[i]);
                }
            },
        }
    }
}

/// The rows of a reply: the reply itself where it is a list, or else the list in its `data`, or
/// else the one in its `results`.
pub proof fn law_rows(v: JsonV)
    ensures
        v matches JsonV::Arr(a) ==> rows(v) == a,
        v is Obj ==> match v.get("data"@) {
            Some(JsonV::Arr(a)) => rows(v) == a,
            _ => match v.get("results"@) {
                Some(JsonV::Arr(a)) => rows(v) == a,
                _ => rows(v).len() == 0,
            },
        },
        !(v is Obj) && !(v is Arr) ==> rows(v).len() == 0,
{
    law_typed_field(v, "data"@);
    law_typed_field(v, "results"@);
    law_field(v, "data"@);
    law_field(v, "results"@);
}

/// The address that a row tells.
pub open spec fn row_address(v: JsonV) -> Seq<char> {
    match v.get("email"@) {
        Some(JsonV::Str(t)) => lowercase(trim(t)),
        _ => lowercase(trim(Seq::empty())),
    }
}

/// A mailbox is found by its whole address, without the spaces around it and in lower case: the
/// first row that has it tells the number.
pub proof fn law_mailbox(list: Seq<JsonV>, email: Seq<char>, i: int)
    requires
        0 <= i < list.len(),
        row_address(list[i]) == lowercase(trim(email)),
        forall|j: int| 0 <= j < i ==> row_address(#[trigger] list[j]) != lowercase(trim(email)),
    ensures
        mailbox_of(list, email) == list[i].field_integer("id"@),
    decreases i,
{
    law_typed_field(list[0], "email"@);
    if i > 0 {
        assert(row_address(list[0]) != lowercase(trim(email)));
        let t = list.drop_first();
        assert forall|j: int| 0 <= j < i - 1 implies row_address(#[trigger] t[j]) != lowercase(
            trim(email),
        ) by {
            assert(t[j] == list[j + 1]);
        }
        law_mailbox(t, email, i - 1);
    }
}

/// There is no mailbox where no row has the address.
pub proof fn law_no_mailbox(list: Seq<JsonV>, email: Seq<char>)
    requires
        forall|j: int|
            0 <= j < list.len() ==> row_address(#[trigger] list[j]) != lowercase(trim(email)),
    ensures
        mailbox_of(list, email) is None,
    decreases list.len(),
{
    if list.len() > 0 {
        law_typed_field(list[0], "email"@);
        assert(row_address(list[0]) != lowercase(trim(email)));
        let t = list.drop_first();
        assert forall|j: int| 0 <= j < t.len() implies row_address(#[trigger] t[j]) != lowercase(
            trim(email),
        ) by {
            assert(t[j] == list[j + 1]);
        }
        law_no_mailbox(t, email);
    }
}

/// What a record holds of the document that it describes.
pub proof fn law_record(r: MailRecord, v: JsonV)
    requires
        r.describes(v),
    ensures
        match v.get("id"@) {
            Some(JsonV::Num(t)) => match signed(t) {
                Some(n) => r.id == n,
                None => r.id == 0,
            },
            _ => r.id == 0,
        },
        match v.get("content"@) {
            Some(JsonV::Str(t)) => r.content@ == t,
            _ => r.content@.len() == 0,
        },
        match v.get("subject"@) {
            Some(JsonV::Str(t)) => is_core(t, r.subject@),
            _ => r.subject@.len() == 0,
        },
        match v.get("sender"@) {
            Some(JsonV::Str(t)) => is_core(t, r.sender@),
            _ => r.sender@.len() == 0,
        },
        match v.get("received_time"@) {
            Some(JsonV::Str(t)) => is_core(t, r.received_time@),
            _ => r.received_time@.len() == 0,
        },
{
    law_trim(Seq::empty());
    law_typed_field(v, "id"@);
    law_typed_field(v, "content"@);
    law_typed_field(v, "subject"@);
    law_typed_field(v, "sender"@);
    law_typed_field(v, "received_time"@);
    if let Some(JsonV::Str(t)) = v.get("subject"@) {
        law_trim(t);
    }
    if let Some(JsonV::Str(t)) = v.get("sender"@) {
        law_trim(t);
    }
    if let Some(JsonV::Str(t)) = v.get("received_time"@) {
        law_trim(t);
    }
}

/// The root of the service ends in `/api`, which is not put there twice.
pub proof fn law_root(base: Seq<char>)
    ensures
        spelled(root_of(base), "/api"@, root_of(base).len() - 4),
        ({
            let b = strip_tail(trim(base), '/');
            &&& spelled(b, "/api"@, b.len() - 4) ==> root_of(base) == b
            &&& !spelled(b, "/api"@, b.len() - 4) ==> root_of(base) == b + "/api"@
        }),
{
    reveal_strlit("/api");
    let b = strip_tail(trim(base), '/');
    law_substring(b, "/api"@);
    let r = b + "/api"@;
    assert(spelled(r, "/api"@, r.len() - 4)) by {
        assert forall|k: int| 0 <= k < 4 implies r[(r.len() - 4) + k] == #[trigger] "/api"@[k] by {}
    }
}

/// The service is set up where its address and user are not blank and it has a password.
pub proof fn law_set_up(c: MailConfig)
    ensures
        c.set_up() == (!only_spaces(c.base_url@) && !only_spaces(c.username@) && c.password@.len()
            > 0),
{
    law_trim(c.base_url@);
    law_trim(c.username@);
}

// ---------------------------------------------------------------------------
// Laws on what a call gives
// ---------------------------------------------------------------------------

/// The code that is picked is that of the latest mail that says it carries one and has it, or else
/// of the latest of OpenAI's that has one.
pub proof fn law_picked_code(records: &[&MailRecord], r: Option<(String, String)>)
    requires
        call_ensures(pick_code, (records,), r),
    ensures
        match r {
            Some((c, subject)) => exists|i: int|
                0 <= i < records@.unref().len() && mail_code(
                    (#[trigger] records@.unref()[i]).subject@,
                    records@.unref()[i].content@,
                ) == Some(c@) && records@.unref()[i].subject@ == subject@ && (if exists|j: int|
                    0 <= j < records@.unref().len() && offers_code(#[trigger] records@.unref()[j]) {
                    offers_code(records@.unref()[i]) && forall|j: int|
                        0 <= j < records@.unref().len() && offers_code(
                            #[trigger] records@.unref()[j],
                        ) ==> !later(records@.unref()[j], records@.unref()[i])
                } else {
                    openai_code(records@.unref()[i]) && forall|j: int|
                        0 <= j < records@.unref().len() && openai_code(
                            #[trigger] records@.unref()[j],
                        ) ==> !later(records@.unref()[j], records@.unref()[i])
                }),
            None => forall|j: int|
                0 <= j < records@.unref().len() ==> !offers_code(#[trigger] records@.unref()[j])
                    && !openai_code(records@.unref()[j]),
        },
{
    law_latest_code_is_picked(records@.unref());
}

/// A mail is new where the mailbox was empty, where its number is above a positive mark, or where
/// its time is after a positive mark.
pub proof fn law_judged_new(b: &MailBaseline, r: &MailRecord, new: bool)
    requires
        call_ensures(MailBaseline::is_new, (b, r), new),
    ensures
        new <==> b.existing == 0 || (b.max_record_id > 0 && r.id > b.max_record_id) || (
        b.max_received_epoch > 0 && (time_epoch(r.received_time@) matches Some(e) && e
            > b.max_received_epoch)),
{
    law_new_mail(*b, *r);
}

/// No mail that was there when the water mark was taken is new after it, as far as the marks tell:
/// where its number is not above the greatest and its time not after the latest.
pub proof fn law_marked_mail_is_not_new(
    email_id: i64,
    recs: &Vec<MailRecord>,
    b: MailBaseline,
    k: int,
    new: bool,
)
    requires
        call_ensures(snapshot_for, (email_id, recs), b),
        0 <= k < recs@.len(),
        call_ensures(MailBaseline::is_new, (&b, &recs@[k]), new),
    ensures
        !new,
        b.email_id == email_id,
{
    law_water_mark(b, email_id, recs@);
    law_new_mail(b, recs@[k]);
}

/// What a mail is taken for goes by its sender and its subject, in whatever case.
pub proof fn law_kind_of_a_mail(r: &MailRecord, code: bool, openai: bool)
    requires
        call_ensures(MailRecord::looks_like_code_mail, (r,), code),
        call_ensures(MailRecord::looks_like_openai, (r,), openai),
    ensures
        ({
            let low = lowercase(r.sender@ + seq![' '] + r.subject@);
            &&& code == says_code(low)
            &&& openai == (somewhere(low, "openai"@) || somewhere(low, "chatgpt"@))
        }),
{
    reveal_strlit(" ");
    assert(" "@ =~= seq![' ']);
    law_speaks_of_code(r.signature());
    let low = lowercase(r.signature());
    law_substring(low, "openai"@);
    law_substring(low, "chatgpt"@);
}

/// The service is ready where its address and user are not blank and it has a password.
pub proof fn law_ready(c: &MailConfig, r: bool)
    requires
        call_ensures(MailConfig::ready, (c,), r),
    ensures
        r == (!only_spaces(c.base_url@) && !only_spaces(c.username@) && c.password@.len() > 0),
{
    law_set_up(*c);
}

} // verus!
