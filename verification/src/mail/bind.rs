//! Binding addresses to the mailbox service.
use crate::chunks::{
    chunk_texts, chunked, flat, law_chunk_sizes, law_chunks_make_up_the_list, text_lists,
};
use crate::json::{object1, strings, strings_doc, Json, JsonV};
use crate::mail::record::address;
use crate::text::basic::{list_has, lowercase, same, texts, trim, trimmed};
use crate::text::order::{before, is_before, law_order_is_strict_and_total};
use vstd::prelude::*;

verus! {

/// The number of addresses that one request may carry.
pub const BATCH: usize = 100;

// ---------------------------------------------------------------------------
// What is sent
// ---------------------------------------------------------------------------

/// The texts of a list, each once, in the order in which they first occur; empty ones are left
/// out.
pub open spec fn firsts(list: Seq<Seq<char>>) -> Seq<Seq<char>>
    decreases list.len(),
{
    if list.len() == 0 {
        Seq::empty()
    } else {
        let done = firsts(list.drop_last());
        if list.last().len() == 0 || done.contains(list.last()) {
            done
        } else {
            done.push(list.last())
        }
    }
}

/// The addresses of a list, each once, in the order in which they first occur; blank ones are
/// left out.
pub open spec fn distinct(emails: Seq<Seq<char>>) -> Seq<Seq<char>> {
    firsts(emails.map_values(|e: Seq<char>| address(e)))
}

/// The texts of a list, each once.
pub fn each_once(list: Vec<String>) -> (r: Vec<String>)
    ensures
        texts(r@) == firsts(texts(list@)),
{
    let mut out: Vec<String> = Vec::new();
    let mut i: usize = 0;
    assert(texts(out@) =~= firsts(texts(list@).take(0)));
    while i < list.len()
        invariant
            i <= list@.len(),
            texts(out@) == firsts(texts(list@).take(i as int)),
        decreases list@.len() - i,
    {
        assert(texts(list@).take(i + 1).drop_last() == texts(list@).take(i as int));
        if !list[i].as_str().is_empty() && !list_has(&out, list[i].as_str()) {
            let ghost was = texts(out@);
            out.push(list[i].clone());
            assert(texts(out@) =~= was.push(list@[i as int]@));
        }
        i += 1;
    }
    assert(texts(list@).take(list@.len() as int) == texts(list@));
    out
}

/// The addresses of a list, each once.
pub fn unique_emails(emails: &Vec<String>) -> (r: Vec<String>)
    ensures
        texts(r@) == distinct(texts(emails@)),
{
    let mut list: Vec<String> = Vec::new();
    let mut i: usize = 0;
    while i < emails.len()
        invariant
            i <= emails@.len(),
            list@.len() == i,
            forall|k: int| 0 <= k < i ==> (#[trigger] list@[k])@ == address(emails@[k]@),
        decreases emails@.len() - i,
    {
        list.push(trimmed(emails[i].as_str()).as_str().to_lowercase());
        i += 1;
    }
    assert(texts(list@) =~= texts(emails@).map_values(|e: Seq<char>| address(e)));
    each_once(list)
}

/// The batches in which the addresses are sent.
pub fn bind_batches(uniq: &Vec<String>) -> (r: Vec<Vec<String>>)
    ensures
        text_lists(r@) == chunked(texts(uniq@), BATCH as nat),
{
    chunk_texts(uniq, BATCH)
}

/// The body of the request that binds a batch.
pub fn bind_body(batch: &Vec<String>) -> (r: Json)
    ensures
        r@ == JsonV::Obj(seq![("emails"@, strings(texts(batch@)))]),
{
    object1("emails", strings_doc(batch))
}

// ---------------------------------------------------------------------------
// What comes back
// ---------------------------------------------------------------------------

/// What became of one address.
#[derive(Debug, Clone)]
pub struct BindItem {
    pub email: String,
    pub email_id: Option<i64>,
    pub line: Option<i64>,
    pub message: String,
    /// `bound`, `already_bound` or `not_found`.
    pub status: String,
}

/// How many addresses of a batch came to what.
#[derive(Debug, Clone, Default)]
pub struct BindSummary {
    pub bound: i64,
    pub already_bound: i64,
    pub not_found: i64,
}

/// What became of all the addresses.
#[derive(Debug, Clone)]
pub struct BindReport {
    /// How many different addresses were sent.
    pub total: usize,
    pub bound: i64,
    pub already_bound: i64,
    pub not_found: i64,
    /// The addresses that were bound now.
    pub newly_bound: Vec<String>,
    /// The addresses that the service does not know.
    pub missing: Vec<String>,
    pub batches: usize,
    /// The mailbox numbers of the addresses, in increasing order of the addresses.
    pub email_ids: Vec<(String, i64)>,
}

/// The model of a report.
#[verifier::ext_equal]
pub struct BindReportV {
    pub total: nat,
    pub bound: int,
    pub already_bound: int,
    pub not_found: int,
    pub newly_bound: Seq<Seq<char>>,
    pub missing: Seq<Seq<char>>,
    pub batches: nat,
    pub email_ids: Map<Seq<char>, i64>,
}

/// A position of the address `a`.
pub open spec fn place(ids: Seq<(String, i64)>, a: Seq<char>) -> int {
    choose|i: int| 0 <= i < ids.len() && (#[trigger] ids[i]).0@ == a
}

/// The numbers by address.
pub open spec fn numbers(ids: Seq<(String, i64)>) -> Map<Seq<char>, i64> {
    Map::new(
        |a: Seq<char>| exists|i: int| 0 <= i < ids.len() && (#[trigger] ids[i]).0@ == a,
        |a: Seq<char>| ids[place(ids, a)].1,
    )
}

/// Whether the addresses stand in strictly increasing order.
pub open spec fn sorted(ids: Seq<(String, i64)>) -> bool {
    forall|i: int, j: int|
        0 <= i < j < ids.len() ==> before((#[trigger] ids[i]).0@, (#[trigger] ids[j]).0@)
}

impl View for BindReport {
    type V = BindReportV;

    open spec fn view(&self) -> BindReportV {
        BindReportV {
            total: self.total as nat,
            bound: self.bound as int,
            already_bound: self.already_bound as int,
            not_found: self.not_found as int,
            newly_bound: texts(self.newly_bound@),
            missing: texts(self.missing@),
            batches: self.batches as nat,
            email_ids: numbers(self.email_ids@),
        }
    }
}

/// The report before any answer, for `total` different addresses.
pub open spec fn nothing_bound(total: nat) -> BindReportV {
    BindReportV {
        total,
        bound: 0,
        already_bound: 0,
        not_found: 0,
        newly_bound: Seq::empty(),
        missing: Seq::empty(),
        batches: 0,
        email_ids: Map::empty(),
    }
}

/// A report to which one address is added.
pub open spec fn counted(v: BindReportV, item: BindItem) -> BindReportV {
    let v = match item.email_id {
        Some(id) => BindReportV { email_ids: v.email_ids.insert(address(item.email@), id), ..v },
        None => v,
    };
    if item.status@ == "bound"@ {
        BindReportV { bound: v.bound + 1, newly_bound: v.newly_bound.push(item.email@), ..v }
    } else if item.status@ == "already_bound"@ {
        BindReportV { already_bound: v.already_bound + 1, ..v }
    } else {
        BindReportV { not_found: v.not_found + 1, missing: v.missing.push(item.email@), ..v }
    }
}

/// A report to which addresses are added, one after the other.
pub open spec fn counted_all(v: BindReportV, items: Seq<BindItem>) -> BindReportV
    decreases items.len(),
{
    if items.len() == 0 {
        v
    } else {
        counted(counted_all(v, items.drop_last()), items.last())
    }
}

/// A report to which the answer to a batch is added. Where the answer tells of no single address,
/// the counts of its summary are added instead.
pub open spec fn batch_added(
    v: BindReportV,
    items: Seq<BindItem>,
    summary: Option<BindSummary>,
) -> BindReportV {
    let v = BindReportV { batches: v.batches + 1, ..v };
    match summary {
        Some(s) if items.len() == 0 => BindReportV {
            bound: v.bound + s.bound,
            already_bound: v.already_bound + s.already_bound,
            not_found: v.not_found + s.not_found,
            ..v
        },
        _ => counted_all(v, items),
    }
}

/// What can become of an address.
pub enum Found {
    Bound,
    AlreadyBound,
    Missing,
}

/// What became of the address of an item: every status but the two that are known counts as not
/// found.
pub open spec fn found(item: BindItem) -> Found {
    if item.status@ == "bound"@ {
        Found::Bound
    } else if item.status@ == "already_bound"@ {
        Found::AlreadyBound
    } else {
        Found::Missing
    }
}

/// The addresses of the items of which `f` became, in order.
pub open spec fn emails_of(items: Seq<BindItem>, f: Found) -> Seq<Seq<char>>
    decreases items.len(),
{
    if items.len() == 0 {
        Seq::empty()
    } else {
        let before = emails_of(items.drop_last(), f);
        if found(items.last()) == f {
            before.push(items.last().email@)
        } else {
            before
        }
    }
}

/// The answer to one batch.
pub struct BatchV {
    pub items: Seq<BindItem>,
    pub summary: Option<BindSummary>,
}

impl BatchV {
    /// Of how many addresses `f` became: as many as the items tell, or the count of the summary
    /// where there is no item.
    pub open spec fn share(self, f: Found) -> int {
        match self.summary {
            Some(s) if self.items.len() == 0 => match f {
                Found::Bound => s.bound as int,
                Found::AlreadyBound => s.already_bound as int,
                Found::Missing => s.not_found as int,
            },
            _ => emails_of(self.items, f).len() as int,
        }
    }
}

/// A report to which the answers to several batches are added, one after the other.
pub open spec fn batches_added(v: BindReportV, batches: Seq<BatchV>) -> BindReportV
    decreases batches.len(),
{
    if batches.len() == 0 {
        v
    } else {
        let last = batches.last();
        batch_added(batches_added(v, batches.drop_last()), last.items, last.summary)
    }
}

/// Of how many addresses `f` became, over all batches.
pub open spec fn shares(batches: Seq<BatchV>, f: Found) -> int
    decreases batches.len(),
{
    if batches.len() == 0 {
        0
    } else {
        shares(batches.drop_last(), f) + batches.last().share(f)
    }
}

/// The addresses of the items of which `f` became, over all batches, in order.
pub open spec fn all_emails_of(batches: Seq<BatchV>, f: Found) -> Seq<Seq<char>>
    decreases batches.len(),
{
    if batches.len() == 0 {
        Seq::empty()
    } else {
        all_emails_of(batches.drop_last(), f) + emails_of(batches.last().items, f)
    }
}

proof fn lemma_number(ids: Seq<(String, i64)>, i: int)
    requires
        sorted(ids),
        0 <= i < ids.len(),
    ensures
        numbers(ids).dom().contains(ids[i].0@),
        numbers(ids)[ids[i].0@] == ids[i].1,
{
    let a = ids[i].0@;
    let k = place(ids, a);
    assert(0 <= k < ids.len() && ids[k].0@ == a);
    if k < i {
        assert(before(ids[k].0@, ids[i].0@));
        law_order_is_strict_and_total(a, a, a);
    }
    if i < k {
        assert(before(ids[i].0@, ids[k].0@));
        law_order_is_strict_and_total(a, a, a);
    }
}

/// Notes the number of an address, replacing the one it had.
fn note_number(ids: &mut Vec<(String, i64)>, a: String, id: i64)
    requires
        sorted(old(ids)@),
    ensures
        sorted(final(ids)@),
        numbers(final(ids)@) == numbers(old(ids)@).insert(a@, id),
{
    let ghost was = ids@;
    let mut p: usize = 0;
    while p < ids.len() && is_before(ids[p].0.as_str(), a.as_str())
        invariant
            p <= ids@.len(),
            ids@ == was,
            forall|j: int| 0 <= j < p ==> before((#[trigger] was[j]).0@, a@),
        decreases ids@.len() - p,
    {
        p += 1;
    }
    proof {
        if p < was.len() {
            law_order_is_strict_and_total(was[p as int].0@, a@, a@);
        }
    }
    if p < ids.len() && same(ids[p].0.as_str(), a.as_str()) {
        ids.set(p, (a, id));
        assert forall|i: int, j: int| 0 <= i < j < ids@.len() implies before(
            (#[trigger] ids@[i]).0@,
            (#[trigger] ids@[j]).0@,
        ) by {
            assert(before(was[i].0@, was[j].0@));
        }
        proof {
            lemma_replaced(was, ids@, p as int, a@, id);
        }
    } else {
        proof {
            assert forall|j: int| p <= j < was.len() implies before(a@, (#[trigger] was[j]).0@) by {
                assert(before(a@, was[p as int].0@));
                if j > p {
                    assert(before(was[p as int].0@, was[j].0@));
                    law_order_is_strict_and_total(a@, was[p as int].0@, was[j].0@);
                }
            }
        }
        ids.insert(p, (a, id));
        let ghost now = ids@;
        assert forall|i: int, j: int| 0 <= i < j < now.len() implies before(
            (#[trigger] now[i]).0@,
            (#[trigger] now[j]).0@,
        ) by {
            if i < p && j < p {
                assert(before(was[i].0@, was[j].0@));
            } else if i < p && j > p {
                assert(before(was[i].0@, was[j - 1].0@));
            } else if i > p {
                assert(before(was[i - 1].0@, was[j - 1].0@));
            } else if i == p {
                assert(before(a@, was[j - 1].0@));
            }
        }
        proof {
            lemma_inserted(was, now, p as int, a@, id);
        }
    }
}

proof fn lemma_replaced(
    was: Seq<(String, i64)>,
    now: Seq<(String, i64)>,
    p: int,
    a: Seq<char>,
    id: i64,
)
    requires
        sorted(was),
        sorted(now),
        0 <= p < was.len(),
        now.len() == was.len(),
        was[p].0@ == a,
        now[p].0@ == a && now[p].1 == id,
        forall|i: int| 0 <= i < was.len() && i != p ==> #[trigger] now[i] == was[i],
    ensures
        numbers(now) == numbers(was).insert(a, id),
{
    let m = numbers(was).insert(a, id);
    assert forall|k: Seq<char>| #[trigger] numbers(now).dom().contains(k) == m.dom().contains(
        k,
    ) by {
        if numbers(now).dom().contains(k) {
            let i = choose|i: int| 0 <= i < now.len() && (#[trigger] now[i]).0@ == k;
            assert(was[i].0@ == k);
        }
        if m.dom().contains(k) && k != a {
            let i = choose|i: int| 0 <= i < was.len() && (#[trigger] was[i]).0@ == k;
            assert(now[i].0@ == k);
        }
        if k == a {
            assert(now[p].0@ == a);
        }
    }
    assert forall|k: Seq<char>| #[trigger] numbers(now).dom().contains(k) implies numbers(now)[k]
        == m[k] by {
        let i = choose|i: int| 0 <= i < now.len() && (#[trigger] now[i]).0@ == k;
        lemma_number(now, i);
        if i == p {
        } else {
            lemma_number(was, i);
            if k == a {
                if i < p {
                    assert(before(now[i].0@, now[p].0@));
                } else {
                    assert(before(now[p].0@, now[i].0@));
                }
                law_order_is_strict_and_total(a, a, a);
            }
        }
    }
    assert(numbers(now) =~= m);
}

proof fn lemma_inserted(
    was: Seq<(String, i64)>,
    now: Seq<(String, i64)>,
    p: int,
    a: Seq<char>,
    id: i64,
)
    requires
        sorted(was),
        sorted(now),
        0 <= p <= was.len(),
        now.len() == was.len() + 1,
        now[p].0@ == a && now[p].1 == id,
        forall|i: int| 0 <= i < p ==> #[trigger] now[i] == was[i],
        forall|i: int| p < i < now.len() ==> #[trigger] now[i] == was[i - 1],
    ensures
        numbers(now) == numbers(was).insert(a, id),
{
    let m = numbers(was).insert(a, id);
    assert forall|k: Seq<char>| #[trigger] numbers(now).dom().contains(k) == m.dom().contains(
        k,
    ) by {
        if numbers(now).dom().contains(k) && k != a {
            let i = choose|i: int| 0 <= i < now.len() && (#[trigger] now[i]).0@ == k;
            let j = if i < p {
                i
            } else {
                i - 1
            };
            assert(was[j].0@ == k);
        }
        if m.dom().contains(k) && k != a {
            let i = choose|i: int| 0 <= i < was.len() && (#[trigger] was[i]).0@ == k;
            let j = if i < p {
                i
            } else {
                i + 1
            };
            assert(now[j].0@ == k);
        }
        if k == a {
            assert(now[p].0@ == a);
        }
    }
    assert forall|k: Seq<char>| #[trigger] numbers(now).dom().contains(k) implies numbers(now)[k]
        == m[k] by {
        let i = choose|i: int| 0 <= i < now.len() && (#[trigger] now[i]).0@ == k;
        lemma_number(now, i);
        if i != p {
            let j = if i < p {
                i
            } else {
                i - 1
            };
            lemma_number(was, j);
            if k == a {
                if i < p {
                    assert(before(now[i].0@, now[p].0@));
                } else {
                    assert(before(now[p].0@, now[i].0@));
                }
                law_order_is_strict_and_total(a, a, a);
            }
        }
    }
    assert(numbers(now) =~= m);
}

/// Whether a count to which `more` is added stays a count.
fn fits(count: i64, more: i128) -> (r: bool)
    requires
        i64::MIN <= more <= u64::MAX,
    ensures
        r == (i64::MIN <= count + more <= i64::MAX),
{
    let sum: i128 = count as i128 + more;
    i64::MIN as i128 <= sum && sum <= i64::MAX as i128
}

impl BindReport {
    /// The report is well formed: the addresses of the numbers stand in increasing order.
    pub open spec fn wf(self) -> bool {
        sorted(self.email_ids@)
    }

    /// Whether the answer to one more batch can be counted.
    pub open spec fn room_for(self, items: Seq<BindItem>, summary: Option<BindSummary>) -> bool {
        &&& self.batches < usize::MAX
        &&& match summary {
            Some(s) if items.len() == 0 => {
                &&& i64::MIN <= self.bound + s.bound <= i64::MAX
                &&& i64::MIN <= self.already_bound + s.already_bound <= i64::MAX
                &&& i64::MIN <= self.not_found + s.not_found <= i64::MAX
            },
            _ => {
                &&& self.bound + items.len() <= i64::MAX
                &&& self.already_bound + items.len() <= i64::MAX
                &&& self.not_found + items.len() <= i64::MAX
            },
        }
    }

    /// The report before any answer, for `total` different addresses.
    pub fn begin(total: usize) -> (r: BindReport)
        ensures
            r.wf(),
            r@ == nothing_bound(total as nat),
    {
        let r = BindReport {
            total,
            bound: 0,
            already_bound: 0,
            not_found: 0,
            newly_bound: Vec::new(),
            missing: Vec::new(),
            batches: 0,
            email_ids: Vec::new(),
        };
        assert(numbers(r.email_ids@) =~= Map::<Seq<char>, i64>::empty());
        assert(texts(r.missing@) =~= Seq::<Seq<char>>::empty());
        r
    }

    /// Whether the answer to one more batch can be counted.
    pub fn has_room(&self, items: &Vec<BindItem>, summary: &Option<BindSummary>) -> (r: bool)
        ensures
            r == self.room_for(items@, *summary),
    {
        if self.batches == usize::MAX {
            return false;
        }
        match summary {
            Some(s) if items.len() == 0 => fits(self.bound, s.bound as i128) && fits(
                self.already_bound,
                s.already_bound as i128,
            ) && fits(self.not_found, s.not_found as i128),
            _ => {
                let k: i128 = items.len() as i128;
                fits(self.bound, k) && fits(self.already_bound, k) && fits(self.not_found, k)
            },
        }
    }

    /// Adds one address.
    fn count(&mut self, item: &BindItem)
        requires
            old(self).wf(),
            old(self).bound < i64::MAX,
            old(self).already_bound < i64::MAX,
            old(self).not_found < i64::MAX,
        ensures
            final(self).wf(),
            final(self)@ == counted(old(self)@, *item),
    {
        let key = trimmed(item.email.as_str()).as_str().to_lowercase();
        match item.email_id {
            Some(id) => {
                note_number(&mut self.email_ids, key, id);
            },
            None => {},
        }
        if same(item.status.as_str(), "bound") {
            self.bound = self.bound + 1;
            self.newly_bound.push(item.email.clone());
            assert(texts(self.newly_bound@) =~= texts(old(self).newly_bound@).push(item.email@));
        } else if same(item.status.as_str(), "already_bound") {
            self.already_bound = self.already_bound + 1;
        } else {
            self.not_found = self.not_found + 1;
            self.missing.push(item.email.clone());
            assert(texts(self.missing@) =~= texts(old(self).missing@).push(item.email@));
        }
    }

    /// Adds the answer to one batch.
    pub fn add_batch(&mut self, items: &Vec<BindItem>, summary: &Option<BindSummary>)
        requires
            old(self).wf(),
            old(self).room_for(items@, *summary),
        ensures
            final(self).wf(),
            final(self)@ == batch_added(old(self)@, items@, *summary),
    {
        self.batches = self.batches + 1;
        if items.len() == 0 {
            if let Some(s) = summary {
                self.bound = self.bound + s.bound;
                self.already_bound = self.already_bound + s.already_bound;
                self.not_found = self.not_found + s.not_found;
                return;
            }
        }
        let ghost start = self@;
        let ghost first = *self;
        assert(start == (BindReportV { batches: old(self)@.batches + 1, ..old(self)@ }));
        let mut i: usize = 0;
        assert(items@.take(0) =~= Seq::<BindItem>::empty());
        while i < items.len()
            invariant
                i <= items@.len(),
                self.wf(),
                self@ == counted_all(start, items@.take(i as int)),
                self.bound <= first.bound + i,
                self.already_bound <= first.already_bound + i,
                self.not_found <= first.not_found + i,
                first.bound + items@.len() <= i64::MAX,
                first.already_bound + items@.len() <= i64::MAX,
                first.not_found + items@.len() <= i64::MAX,
            decreases items@.len() - i,
        {
            assert(items@.take(i + 1).drop_last() == items@.take(i as int));
            let ghost was = *self;
            self.count(&items[i]);
            assert(self@.bound <= was@.bound + 1);
            assert(self@.already_bound <= was@.already_bound + 1);
            assert(self@.not_found <= was@.not_found + 1);
            i += 1;
        }
        assert(items@.take(items@.len() as int) == items@);
    }
}

/// How far the addresses are bound.
#[derive(Debug)]
pub struct BindRun {
    pub batches: Vec<Vec<String>>,
    pub report: BindReport,
}

impl BindRun {
    /// The report tells of as many batches as were sent, and of no more than there are.
    pub open spec fn wf(self) -> bool {
        self.report.wf() && self.report.batches <= self.batches@.len()
    }

    /// Before the first batch.
    pub fn begin(emails: &Vec<String>) -> (r: BindRun)
        ensures
            r.wf(),
            r.report@ == nothing_bound(distinct(texts(emails@)).len()),
            text_lists(r.batches@) == chunked(distinct(texts(emails@)), BATCH as nat),
    {
        let uniq = unique_emails(emails);
        assert(texts(uniq@).len() == uniq@.len());
        BindRun { batches: bind_batches(&uniq), report: BindReport::begin(uniq.len()) }
    }

    /// The batch to send next.
    pub fn next(&self) -> (r: Option<&Vec<String>>)
        ensures
            match r {
                Some(b) => self.report.batches < self.batches@.len() && *b
                    == self.batches@[self.report.batches as int],
                None => self.report.batches >= self.batches@.len(),
            },
    {
        if self.report.batches < self.batches.len() {
            Some(&self.batches[self.report.batches])
        } else {
            None
        }
    }

    /// Takes the answer to that batch. The counts must have room for it, which
    /// [`BindReport::has_room`] tells.
    pub fn took(&mut self, items: &Vec<BindItem>, summary: &Option<BindSummary>)
        requires
            old(self).wf(),
            old(self).report.batches < old(self).batches@.len(),
            old(self).report.room_for(items@, *summary),
        ensures
            final(self).wf(),
            final(self).batches == old(self).batches,
            final(self).report@ == batch_added(old(self).report@, items@, *summary),
    {
        proof {
            law_every_address_is_counted(
                BindReportV { batches: self.report@.batches + 1, ..self.report@ },
                items@,
            );
        }
        self.report.add_batch(items, summary);
    }
}

// ---------------------------------------------------------------------------
// Laws
// ---------------------------------------------------------------------------

/// The texts that are left are those of the list, none empty and none twice.
pub proof fn lemma_firsts(list: Seq<Seq<char>>)
    ensures
        firsts(list).no_duplicates(),
        forall|i: int| 0 <= i < firsts(list).len() ==> (#[trigger] firsts(list)[i]).len() > 0,
        forall|a: Seq<char>| #[trigger]
            firsts(list).contains(a) <==> a.len() > 0 && list.contains(a),
    decreases list.len(),
{
    if list.len() > 0 {
        let less = list.drop_last();
        lemma_firsts(less);
        let done = firsts(less);
        let last = list.last();
        let all = firsts(list);
        assert forall|a: Seq<char>| #[trigger] all.contains(a) <==> a.len() > 0 && list.contains(
            a,
        ) by {
            if all.contains(a) {
                if done.contains(a) {
                    let i = choose|i: int| 0 <= i < less.len() && less[i] == a;
                    assert(list[i] == a);
                } else {
                    assert(a == last);
                    assert(list[list.len() - 1] == a);
                }
            }
            if a.len() > 0 && list.contains(a) {
                let i = choose|i: int| 0 <= i < list.len() && list[i] == a;
                if i < less.len() {
                    assert(less[i] == a);
                    assert(done.contains(a));
                }
                if done.contains(a) {
                    let k = choose|k: int| 0 <= k < done.len() && done[k] == a;
                    assert(all[k] == a);
                } else {
                    assert(all[done.len() as int] == a);
                }
            }
        }
    }
}

/// The addresses that are sent are those of the list, none blank and none twice.
pub proof fn law_distinct_addresses(emails: Seq<Seq<char>>)
    ensures
        distinct(emails).no_duplicates(),
        forall|i: int|
            0 <= i < distinct(emails).len() ==> (#[trigger] distinct(emails)[i]).len() > 0,
        forall|a: Seq<char>| #[trigger]
            distinct(emails).contains(a) <==> a.len() > 0 && exists|i: int|
                0 <= i < emails.len() && address(#[trigger] emails[i]) == a,
{
    let list = emails.map_values(|e: Seq<char>| address(e));
    lemma_firsts(list);
    assert forall|a: Seq<char>| #[trigger] distinct(emails).contains(a) <==> a.len() > 0 && exists|
        i: int,
    |
        0 <= i < emails.len() && address(#[trigger] emails[i]) == a by {
        if list.contains(a) {
            let i = choose|i: int| 0 <= i < list.len() && list[i] == a;
            assert(address(emails[i]) == a);
        }
        if exists|i: int| 0 <= i < emails.len() && address(#[trigger] emails[i]) == a {
            let i = choose|i: int| 0 <= i < emails.len() && address(#[trigger] emails[i]) == a;
            assert(list[i] == a);
        }
    }
}

/// Every address of an answer is counted once: as bound, as already bound or as not found.
pub proof fn law_every_address_is_counted(v: BindReportV, items: Seq<BindItem>)
    ensures
        ({
            let w = counted_all(v, items);
            &&& w.bound + w.already_bound + w.not_found == v.bound + v.already_bound + v.not_found
                + items.len()
            &&& w.newly_bound.len() == v.newly_bound.len() + (w.bound - v.bound)
            &&& w.missing.len() == v.missing.len() + (w.not_found - v.not_found)
            &&& w.total == v.total && w.batches == v.batches
        }),
    decreases items.len(),
{
    if items.len() > 0 {
        law_every_address_is_counted(v, items.drop_last());
    }
}

proof fn lemma_items_are_counted(v: BindReportV, items: Seq<BindItem>)
    ensures
        ({
            let w = counted_all(v, items);
            &&& w.bound == v.bound + emails_of(items, Found::Bound).len()
            &&& w.already_bound == v.already_bound + emails_of(items, Found::AlreadyBound).len()
            &&& w.not_found == v.not_found + emails_of(items, Found::Missing).len()
            &&& w.newly_bound == v.newly_bound + emails_of(items, Found::Bound)
            &&& w.missing == v.missing + emails_of(items, Found::Missing)
            &&& w.total == v.total && w.batches == v.batches
        }),
    decreases items.len(),
{
    if items.len() > 0 {
        lemma_items_are_counted(v, items.drop_last());
    }
}

/// The counts of a report are totals over all batches: of the items by their status, and of the
/// summaries of answers without items. The addresses that are listed as bound and as missing are
/// those of the items, in order.
pub proof fn law_counts_add_up(total: nat, batches: Seq<BatchV>)
    ensures
        ({
            let v = batches_added(nothing_bound(total), batches);
            &&& v.total == total && v.batches == batches.len()
            &&& v.bound == shares(batches, Found::Bound)
            &&& v.already_bound == shares(batches, Found::AlreadyBound)
            &&& v.not_found == shares(batches, Found::Missing)
            &&& v.newly_bound == all_emails_of(batches, Found::Bound)
            &&& v.missing == all_emails_of(batches, Found::Missing)
        }),
    decreases batches.len(),
{
    if batches.len() > 0 {
        let less = batches.drop_last();
        law_counts_add_up(total, less);
        let v = batches_added(nothing_bound(total), less);
        lemma_items_are_counted(
            BindReportV { batches: v.batches + 1, ..v },
            batches.last().items,
        );
    }
}

/// Addresses are sent a hundred at a time, in order, none left out.
pub proof fn law_batches(list: Seq<Seq<char>>)
    ensures
        flat(chunked(list, BATCH as nat)) == list,
        forall|i: int|
            0 <= i < chunked(list, BATCH as nat).len() ==> 0 < (#[trigger] chunked(
                list,
                BATCH as nat,
            )[i]).len() <= 100,
        forall|i: int|
            0 <= i < chunked(list, BATCH as nat).len() - 1 ==> (#[trigger] chunked(
                list,
                BATCH as nat,
            )[i]).len() == 100,
{
    law_chunks_make_up_the_list(list, BATCH as nat);
    law_chunk_sizes(list, BATCH as nat);
}

/// An address is sent in the place where it first occurs.
pub proof fn law_first_place_counts(emails: Seq<Seq<char>>, e: Seq<char>)
    ensures
        ({
            let a = lowercase(trim(e));
            if a.len() == 0 || distinct(emails).contains(a) {
                distinct(emails.push(e)) == distinct(emails)
            } else {
                distinct(emails.push(e)) == distinct(emails).push(a)
            }
        }),
{
    let list = emails.map_values(|x: Seq<char>| address(x));
    let more = emails.push(e).map_values(|x: Seq<char>| address(x));
    assert(more.drop_last() =~= list);
    assert(more.last() == address(e));
}

/// The number of a mailbox is kept under its whole address; an item without one changes none.
pub proof fn law_mailbox_numbers(v: BindReportV, item: BindItem)
    ensures
        ({
            let w = counted(v, item);
            match item.email_id {
                Some(id) => w.email_ids == v.email_ids.insert(lowercase(trim(item.email@)), id),
                None => w.email_ids == v.email_ids,
            }
        }),
{
}

// ---------------------------------------------------------------------------
// Laws on what a call gives
// ---------------------------------------------------------------------------

/// A batch is counted item by item by what became of each; only where there are no items does the
/// summary count.
pub proof fn law_counted_batch(
    run: &mut BindRun,
    items: &Vec<BindItem>,
    summary: &Option<BindSummary>,
)
    requires
        call_ensures(BindRun::took, (run, items, summary), ()),
    ensures
        final(run).report.batches == old(run).report.batches + 1,
        final(run).batches == old(run).batches,
        items@.len() == 0 ==> (summary matches Some(s) ==> final(run).report.bound
            == old(run).report.bound + s.bound && final(run).report.already_bound
            == old(run).report.already_bound + s.already_bound && final(run).report.not_found
            == old(run).report.not_found + s.not_found),
        items@.len() == 1 ==> final(run).report.bound == old(run).report.bound + (if items@[0].status@
            == "bound"@ {
            1int
        } else {
            0
        }),
        items@.len() == 1 ==> final(run).report.already_bound == old(run).report.already_bound + (
        if items@[0].status@ == "already_bound"@ {
            1int
        } else {
            0
        }),
        items@.len() == 1 ==> final(run).report.not_found == old(run).report.not_found + (
        if items@[0].status@ != "bound"@ && items@[0].status@ != "already_bound"@ {
            1int
        } else {
            0
        }),
{
    reveal_strlit("bound");
    reveal_strlit("already_bound");
    assert("bound"@.len() != "already_bound"@.len());
    if items@.len() == 1 {
        let one = items@;
        let start = BindReportV { batches: old(run).report@.batches + 1, ..old(run).report@ };
        assert(one.drop_last() =~= Seq::<BindItem>::empty());
        assert(counted_all(start, one.drop_last()) == start);
        assert(one.last() == items@[0]);
    }
    lemma_batches_stay(
        BindReportV { batches: old(run).report@.batches + 1, ..old(run).report@ },
        items@,
    );
    assert(final(run).report@.batches == final(run).report.batches);
    assert(old(run).report@.batches == old(run).report.batches);
    assert(final(run).report@.bound == final(run).report.bound);
    assert(final(run).report@.already_bound == final(run).report.already_bound);
    assert(final(run).report@.not_found == final(run).report.not_found);
}

proof fn lemma_batches_stay(v: BindReportV, items: Seq<BindItem>)
    ensures
        counted_all(v, items).batches == v.batches,
    decreases items.len(),
{
    if items.len() > 0 {
        lemma_batches_stay(v, items.drop_last());
    }
}

/// Each address is sent once, without the spaces around it and in lower case, at most a hundred in
/// a request.
pub proof fn law_sent_batches(emails: &Vec<String>, r: BindRun, i: int)
    requires
        call_ensures(BindRun::begin, (emails,), r),
        0 <= i < r.batches@.len(),
    ensures
        flat(text_lists(r.batches@)) == distinct(texts(emails@)),
        0 < r.batches@[i]@.len() <= 100,
        r.report.batches == 0,
        r.report.bound == 0 && r.report.already_bound == 0 && r.report.not_found == 0,
{
    let list = distinct(texts(emails@));
    law_batches(list);
    assert(text_lists(r.batches@).len() == r.batches@.len());
    assert(text_lists(r.batches@)[i] == texts(r.batches@[i]@));
    assert(texts(r.batches@[i]@).len() == r.batches@[i]@.len());
    assert(r.report@.batches == r.report.batches);
    assert(r.report@.bound == r.report.bound);
    assert(r.report@.already_bound == r.report.already_bound);
    assert(r.report@.not_found == r.report.not_found);
}

/// The batches are sent in order, until none is left.
pub proof fn law_next_batch(run: BindRun, r: Option<&Vec<String>>)
    requires
        call_ensures(BindRun::next, (&run,), r),
    ensures
        r is None <==> run.report.batches >= run.batches@.len(),
        r matches Some(b) ==> *b == run.batches@[run.report.batches as int],
{
}

} // verus!
