//! Grouping accounts: in increasing order of their numbers they are cut into pages of one size,
//! and the accounts of a page get the page's number as their priority.
use crate::chunks::{
    chunk_ids, chunked, flat, id_lists, law_chunk_sizes, law_chunks_make_up_the_list,
};
use crate::json::{law_typed_field, shown, Json, JsonV};
use crate::models::Account;
use crate::text::basic::{join, joined, text4, text5, texts};
use crate::text::numeral::{decimal, decimal_int, integer_text, number_text, signed};
use vstd::prelude::*;

verus! {

/// The smallest page.
pub const MIN_PAGE_SIZE: usize = 1;

/// The largest page.
pub const MAX_PAGE_SIZE: usize = 20;

/// What became of one page.
#[derive(Debug, Clone)]
pub struct GroupOutcome {
    /// The number of the page, from one on.
    pub page: i64,
    /// The priority of its accounts: the number of the page.
    pub priority: i64,
    pub account_ids: Vec<i64>,
    pub ok: bool,
    pub message: String,
}

/// What became of all the pages.
#[derive(Debug, Clone)]
pub struct GroupResult {
    pub page_size: usize,
    pub total: usize,
    pub pages: usize,
    pub outcomes: Vec<GroupOutcome>,
}

// ---------------------------------------------------------------------------
// Pages
// ---------------------------------------------------------------------------

/// The numbers of accounts.
pub open spec fn account_ids(accounts: Seq<Account>) -> Seq<i64> {
    accounts.map_values(|a: Account| a.id)
}

/// Whether numbers stand in increasing order.
pub open spec fn ascending(ids: Seq<i64>) -> bool {
    forall|i: int, j: int| 0 <= i <= j < ids.len() ==> ids[i] <= ids[j]
}

/// Whether `r` is `ids` in increasing order.
pub open spec fn is_sorting(r: Seq<i64>, ids: Seq<i64>) -> bool {
    ascending(r) && r.to_multiset() == ids.to_multiset()
}

/// Puts a number into an increasing list.
fn insert_id(list: &mut Vec<i64>, id: i64)
    requires
        ascending(old(list)@),
    ensures
        ascending(final(list)@),
        final(list)@.to_multiset() == old(list)@.to_multiset().insert(id),
{
    let ghost was = list@;
    let mut p: usize = 0;
    while p < list.len() && list[p] <= id
        invariant
            p <= list@.len(),
            list@ == was,
            forall|j: int| 0 <= j < p ==> was[j] <= id,
        decreases list@.len() - p,
    {
        p += 1;
    }
    list.insert(p, id);
    proof {
        let now = list@;
        assert forall|i: int, j: int| 0 <= i <= j < now.len() implies now[i] <= now[j] by {
            let a = if i < p {
                was[i]
            } else if i == p {
                id
            } else {
                was[i - 1]
            };
            let b = if j < p {
                was[j]
            } else if j == p {
                id
            } else {
                was[j - 1]
            };
            assert(now[i] == a && now[j] == b);
            if j > p && i <= p {
                assert(was[p as int] <= was[j - 1]);
            }
        }
        was.to_multiset_ensures();
        assert(now =~= was.insert(p as int, id));
        vstd::seq_lib::to_multiset_insert(was, p as int, id);
    }
}

/// The numbers of accounts in increasing order.
pub fn sorted_ids(accounts: &[Account]) -> (r: Vec<i64>)
    ensures
        is_sorting(r@, account_ids(accounts@)),
{
    let ghost all = account_ids(accounts@);
    let mut out: Vec<i64> = Vec::new();
    let mut i: usize = 0;
    proof {
        assert(all.take(0) =~= out@);
    }
    while i < accounts.len()
        invariant
            i <= accounts@.len(),
            all == account_ids(accounts@),
            is_sorting(out@, all.take(i as int)),
        decreases accounts@.len() - i,
    {
        insert_id(&mut out, accounts[i].id);
        proof {
            let t = all.take(i as int);
            assert(all.take(i + 1) =~= t.push(all[i as int]));
            t.to_multiset_ensures();
        }
        i += 1;
    }
    assert(all.take(all.len() as int) == all);
    out
}

/// Whether a page may have this size.
pub open spec fn size_allowed(page_size: usize) -> bool {
    MIN_PAGE_SIZE <= page_size <= MAX_PAGE_SIZE
}

/// Cuts the accounts into pages, or refuses the size of a page.
pub fn group_pages(accounts: &[Account], page_size: usize) -> (r: Result<Vec<Vec<i64>>, String>)
    ensures
        match r {
            Ok(pages) => size_allowed(page_size) && exists|ids: Seq<i64>| #[trigger]
                is_sorting(ids, account_ids(accounts@)) && id_lists(pages@) == chunked(
                    ids,
                    page_size as nat,
                ),
            Err(e) => !size_allowed(page_size) && e@ == "每页大小必须在 1 到 20 之间"@,
        },
{
    if page_size < MIN_PAGE_SIZE || page_size > MAX_PAGE_SIZE {
        return Err("每页大小必须在 1 到 20 之间".to_owned());
    }
    let ids = sorted_ids(accounts);
    let pages = chunk_ids(&ids, page_size);
    assert(is_sorting(ids@, account_ids(accounts@)));
    Ok(pages)
}

// ---------------------------------------------------------------------------
// Outcomes
// ---------------------------------------------------------------------------

/// How many accounts of a page failed, by the gateway's word.
pub open spec fn failures(v: JsonV) -> int {
    v.field_integer("failed"@).unwrap_or(0)
}

/// What is reported of a page that was set.
pub open spec fn page_set(page: i64, len: nat) -> Seq<char> {
    "第 "@ + decimal_int(page as int) + " 页（"@ + decimal(len) + " 个账号）优先级已设为 "@
        + decimal_int(page as int)
}

/// What is reported of a page of which `n` accounts failed.
pub open spec fn page_failed(page: i64, n: Seq<char>, details: Seq<char>) -> Seq<char> {
    "第 "@ + decimal_int(page as int) + " 页有 "@ + n + " 个账号设置失败："@ + details
}

/// What is reported of a page by the gateway's answer to its setting.
pub open spec fn reply_message(page: i64, len: nat, v: JsonV) -> Seq<char> {
    if failures(v) == 0 {
        page_set(page, len)
    } else {
        page_failed(
            page,
            decimal_int(failures(v)),
            match v.get("results"@) {
                Some(d) => shown(d),
                None => "无明细"@,
            },
        )
    }
}

/// What is reported of a page whose accounts were set one by one because of `error`.
pub open spec fn single_message(
    page: i64,
    len: nat,
    details: Seq<Seq<char>>,
    error: Seq<char>,
) -> Seq<char> {
    if details.len() == 0 {
        page_set(page, len) + "（批量端点不可用，已逐个写回）"@
    } else {
        page_failed(page, decimal(details.len()), join(details, "；"@)) + "（批量原因："@ + error
            + "）"@
    }
}

fn page_set_text(page: i64, len: usize) -> (r: String)
    ensures
        r@ == page_set(page, len as nat),
{
    let p = integer_text(page);
    let n = number_text(len as u64);
    let mut s = text5("第 ", p.as_str(), " 页（", n.as_str(), " 个账号）优先级已设为 ");
    s.append(p.as_str());
    s
}

fn page_failed_text(page: i64, n: &str, details: &str) -> (r: String)
    ensures
        r@ == page_failed(page, n@, details@),
{
    let p = integer_text(page);
    let mut s = text5("第 ", p.as_str(), " 页有 ", n, " 个账号设置失败：");
    s.append(details);
    s
}

impl GroupOutcome {
    /// What the gateway's answer to the setting of a whole page means: the page is set where no
    /// account failed.
    pub fn of_reply(page: i64, ids: &Vec<i64>, v: &Json) -> (r: GroupOutcome)
        ensures
            r.page == page,
            r.priority == page,
            r.account_ids@ == ids@,
            r.ok == (failures(v@) == 0),
            r.message@ == reply_message(page, ids@.len(), v@),
    {
        let failed: i64 = match v.get_i64("failed") {
            Some(n) => n,
            None => 0,
        };
        let message = if failed == 0 {
            page_set_text(page, ids.len())
        } else {
            let n = integer_text(failed);
            let details = match v.get("results") {
                Some(d) => d.show(),
                None => "无明细".to_owned(),
            };
            page_failed_text(page, n.as_str(), details.as_str())
        };
        GroupOutcome {
            page,
            priority: page,
            account_ids: copy_ids(ids),
            ok: failed == 0,
            message,
        }
    }

    /// What the setting of a page's accounts one by one means, where the page could not be set as
    /// a whole because of `error`; `details` tells of each account that failed.
    pub fn one_by_one(page: i64, ids: &Vec<i64>, details: &Vec<String>, error: &str) -> (r:
        GroupOutcome)
        ensures
            r.page == page,
            r.priority == page,
            r.account_ids@ == ids@,
            r.ok == (details@.len() == 0),
            r.message@ == single_message(page, ids@.len(), texts(details@), error@),
    {
        let message = if details.len() == 0 {
            let mut s = page_set_text(page, ids.len());
            s.append("（批量端点不可用，已逐个写回）");
            s
        } else {
            let n = number_text(details.len() as u64);
            let list = joined(details, "；");
            let s = page_failed_text(page, n.as_str(), list.as_str());
            text4(s.as_str(), "（批量原因：", error, "）")
        };
        GroupOutcome {
            page,
            priority: page,
            account_ids: copy_ids(ids),
            ok: details.len() == 0,
            message,
        }
    }
}

fn copy_ids(ids: &Vec<i64>) -> (r: Vec<i64>)
    ensures
        r@ == ids@,
{
    let mut out: Vec<i64> = Vec::new();
    let mut i: usize = 0;
    while i < ids.len()
        invariant
            i <= ids@.len(),
            out@ == ids@.take(i as int),
        decreases ids@.len() - i,
    {
        out.push(ids[i]);
        i += 1;
    }
    assert(ids@.take(ids@.len() as int) == ids@);
    out
}

/// What is reported of one account that failed.
pub fn account_failed(id: i64, error: &str) -> (r: String)
    ensures
        r@ == "#"@ + decimal_int(id as int) + ": "@ + error@,
{
    let n = integer_text(id);
    text4("#", n.as_str(), ": ", error)
}

/// The result for all the pages.
pub fn group_result(page_size: usize, total: usize, outcomes: Vec<GroupOutcome>) -> (r: GroupResult)
    ensures
        r == (GroupResult { page_size, total, pages: outcomes@.len() as usize, outcomes }),
        r.pages == outcomes@.len(),
{
    let pages = outcomes.len();
    GroupResult { page_size, total, pages, outcomes }
}

// ---------------------------------------------------------------------------
// The order of the requests
// ---------------------------------------------------------------------------

/// What is to be done next.
#[derive(Debug, Clone, Copy, PartialEq, Eq, Structural)]
pub enum GroupAction {
    /// Set the priority of the accounts of the page at this position to this number.
    Page(usize, i64),
    /// Set the priority of this account to this number.
    Account(i64, i64),
    /// Everything is done.
    Done,
}

/// How far the pages are set. A page that cannot be set as a whole is set account by account.
#[derive(Debug)]
pub struct GroupRun {
    pub pages: Vec<Vec<i64>>,
    /// The position of the page that is under way.
    pub at: usize,
    /// Why that page could not be set as a whole, and the position of its next account.
    pub single: Option<(String, usize)>,
    /// What is reported of the accounts of that page that failed.
    pub details: Vec<String>,
    /// What became of the pages before it.
    pub outcomes: Vec<GroupOutcome>,
}

impl GroupRun {
    /// Every page before the present one has its outcome: its number, the same number as
    /// priority, and its accounts.
    pub open spec fn wf(self) -> bool {
        &&& self.at <= self.pages@.len() <= i64::MAX
        &&& self.outcomes@.len() == self.at
        &&& forall|k: int|
            0 <= k < self.at ==> (#[trigger] self.outcomes@[k]).page == k + 1
                && self.outcomes@[k].priority == k + 1 && self.outcomes@[k].account_ids@
                == self.pages@[k]@
        &&& self.single matches Some((_, k)) ==> self.at < self.pages@.len() && k
            < self.pages@[self.at as int]@.len()
        &&& self.single is None ==> self.details@.len() == 0
        &&& forall|k: int| 0 <= k < self.pages@.len() ==> (#[trigger] self.pages@[k])@.len() > 0
    }

    /// What is to be done next.
    pub open spec fn action(self) -> GroupAction {
        if self.at >= self.pages@.len() {
            GroupAction::Done
        } else {
            match self.single {
                Some((_, k)) => GroupAction::Account(
                    self.pages@[self.at as int]@[k as int],
                    (self.at + 1) as i64,
                ),
                None => GroupAction::Page(self.at, (self.at + 1) as i64),
            }
        }
    }

    /// Before the first page.
    pub fn begin(pages: Vec<Vec<i64>>) -> (r: GroupRun)
        requires
            pages@.len() <= i64::MAX,
            forall|k: int| 0 <= k < pages@.len() ==> (#[trigger] pages@[k])@.len() > 0,
        ensures
            r.wf(),
            r.pages == pages,
            r.at == 0,
            r.single is None,
    {
        GroupRun { pages, at: 0, single: None, details: Vec::new(), outcomes: Vec::new() }
    }

    /// What is to be done next.
    pub fn next(&self) -> (r: GroupAction)
        requires
            self.wf(),
        ensures
            r == self.action(),
    {
        if self.at >= self.pages.len() {
            return GroupAction::Done;
        }
        let page = self.at as i64 + 1;
        match &self.single {
            Some((_, k)) => GroupAction::Account(self.pages[self.at][*k], page),
            None => GroupAction::Page(self.at, page),
        }
    }

    /// Notes how the setting of a whole page went.
    pub fn page_took(&mut self, result: &Result<Json, String>)
        requires
            old(self).wf(),
            old(self).action() is Page,
        ensures
            final(self).wf(),
            final(self).pages == old(self).pages,
            match result {
                Ok(v) => final(self).at == old(self).at + 1 && final(self).single is None
                    && final(self).outcomes@.drop_last() == old(self).outcomes@
                    && final(self).outcomes@.last().ok == (failures(v@) == 0)
                    && final(self).outcomes@.last().message@ == reply_message(
                    (old(self).at + 1) as i64,
                    old(self).pages@[old(self).at as int]@.len(),
                    v@,
                ),
                Err(e) => final(self).at == old(self).at && final(self).outcomes
                    == old(self).outcomes && (final(self).single matches Some((w, k)) && w@ == e@
                    && k == 0) && final(self).details@.len() == 0,
            },
    {
        let n = self.pages.len();
        assert(self.at < n);
        let page = self.at as i64 + 1;
        let ghost was = self.outcomes@;
        match result {
            Ok(v) => {
                let o = GroupOutcome::of_reply(page, &self.pages[self.at], v);
                self.outcomes.push(o);
                self.at = self.at + 1;
                assert(self.outcomes@.drop_last() =~= was);
            },
            Err(e) => {
                assert(self.pages@[self.at as int]@.len() > 0);
                self.single = Some((e.clone(), 0));
            },
        }
    }

    /// Notes how the setting of one account went.
    pub fn account_took(&mut self, result: &Result<(), String>)
        requires
            old(self).wf(),
            old(self).action() is Account,
        ensures
            final(self).wf(),
            final(self).pages == old(self).pages,
            ({
                let k = (old(self).single->0).1;
                let ids = old(self).pages@[old(self).at as int]@;
                let details = match result {
                    Ok(_) => texts(old(self).details@),
                    Err(e) => texts(old(self).details@).push(
                        "#"@ + decimal_int(ids[k as int] as int) + ": "@ + e@,
                    ),
                };
                if k + 1 < ids.len() {
                    &&& final(self).at == old(self).at
                    &&& final(self).outcomes == old(self).outcomes
                    &&& texts(final(self).details@) == details
                    &&& final(self).single matches Some((w, j)) && w == (old(self).single->0).0
                        && j == k + 1
                } else {
                    &&& final(self).at == old(self).at + 1
                    &&& final(self).single is None
                    &&& final(self).outcomes@.drop_last() == old(self).outcomes@
                    &&& final(self).outcomes@.last().ok == (details.len() == 0)
                    &&& final(self).outcomes@.last().message@ == single_message(
                        (old(self).at + 1) as i64,
                        ids.len(),
                        details,
                        (old(self).single->0).0@,
                    )
                }
            }),
    {
        let n = self.pages.len();
        assert(self.at < n);
        let page = self.at as i64 + 1;
        let ghost was = self.outcomes@;
        let ghost seen = texts(self.details@);
        let mut single: Option<(String, usize)> = None;
        std::mem::swap(&mut single, &mut self.single);
        if let Some((why, k)) = single {
            let id = self.pages[self.at][k];
            if let Err(e) = result {
                let line = account_failed(id, e.as_str());
                self.details.push(line);
                assert(texts(self.details@) =~= seen.push(line@));
            }
            let m = self.pages[self.at].len();
            assert(k < m);
            if k + 1 < m {
                self.single = Some((why, k + 1));
            } else {
                assert(texts(self.details@).len() == self.details@.len());
                let o = GroupOutcome::one_by_one(
                    page,
                    &self.pages[self.at],
                    &self.details,
                    why.as_str(),
                );
                self.outcomes.push(o);
                self.details = Vec::new();
                self.at = self.at + 1;
                assert(self.outcomes@.drop_last() =~= was);
            }
        }
    }
}

/// Begins to group the accounts, or refuses the size of a page.
pub fn group_accounts(accounts: &[Account], page_size: usize) -> (r: Result<GroupRun, String>)
    requires
        accounts@.len() <= i64::MAX,
    ensures
        match r {
            Ok(run) => size_allowed(page_size) && run.wf() && run.at == 0 && run.single is None
                && exists|ids: Seq<i64>| #[trigger]
                is_sorting(ids, account_ids(accounts@)) && id_lists(run.pages@) == chunked(
                    ids,
                    page_size as nat,
                ),
            Err(e) => !size_allowed(page_size) && e@ == "每页大小必须在 1 到 20 之间"@,
        },
{
    match group_pages(accounts, page_size) {
        Ok(pages) => {
            proof {
                let ids = choose|ids: Seq<i64>| #[trigger]
                    is_sorting(ids, account_ids(accounts@)) && id_lists(pages@) == chunked(
                        ids,
                        page_size as nat,
                    );
                law_chunk_sizes(ids, page_size as nat);
                lemma_chunk_count(ids, page_size as nat);
                ids.to_multiset_ensures();
                account_ids(accounts@).to_multiset_ensures();
                assert(ids.len() == ids.to_multiset().len());
                assert(id_lists(pages@).len() == pages@.len());
                assert forall|k: int| 0 <= k < pages@.len() implies (#[trigger] pages@[k])@.len()
                    > 0 by {
                    assert(id_lists(pages@)[k] == pages@[k]@);
                }
            }
            Ok(GroupRun::begin(pages))
        },
        Err(e) => Err(e),
    }
}

proof fn lemma_chunk_count(ids: Seq<i64>, n: nat)
    requires
        n > 0,
    ensures
        chunked(ids, n).len() <= ids.len(),
    decreases ids.len(),
{
    if ids.len() > n {
        lemma_chunk_count(ids.skip(n as int), n);
    }
}

/// When everything is done, every page has its outcome, and the priority of its accounts is its
/// number.
pub proof fn law_priority_is_the_page_number(r: GroupRun, k: int)
    requires
        r.wf(),
        r.action() is Done,
        0 <= k < r.pages@.len(),
    ensures
        r.outcomes@.len() == r.pages@.len(),
        r.outcomes@[k].page == k + 1,
        r.outcomes@[k].priority == k + 1,
        r.outcomes@[k].account_ids@ == r.pages@[k]@,
{
}

// ---------------------------------------------------------------------------
// Laws
// ---------------------------------------------------------------------------

/// Every account is in exactly one page, none of which is empty or too large; only the last may
/// be smaller than the others.
pub proof fn law_pages_hold_every_account(ids: Seq<i64>, all: Seq<i64>, page_size: nat)
    requires
        is_sorting(ids, all),
        page_size > 0,
    ensures
        flat(chunked(ids, page_size)).to_multiset() == all.to_multiset(),
        forall|i: int|
            0 <= i < chunked(ids, page_size).len() ==> 0 < (#[trigger] chunked(ids, page_size)[i]).len()
                <= page_size,
        forall|i: int|
            0 <= i < chunked(ids, page_size).len() - 1 ==> (#[trigger] chunked(
                ids,
                page_size,
            )[i]).len() == page_size,
{
    law_chunks_make_up_the_list(ids, page_size);
    law_chunk_sizes(ids, page_size);
}

proof fn lemma_chunk_is_part(ids: Seq<i64>, n: nat, i: int, x: int)
    requires
        n > 0,
        0 <= i < chunked(ids, n).len(),
        0 <= x < chunked(ids, n)[i].len(),
    ensures
        i * n + x < ids.len(),
        chunked(ids, n)[i][x] == ids[i * n + x],
    decreases ids.len(),
{
    if ids.len() <= n {
        assert(i == 0);
        assert(0 * n == 0) by (nonlinear_arith);
    } else if i > 0 {
        let rest = ids.skip(n as int);
        assert(chunked(ids, n)[i] == chunked(rest, n)[i - 1]);
        lemma_chunk_is_part(rest, n, i - 1, x);
        assert(i * n == (i - 1) * n + n) by (nonlinear_arith);
    } else {
        assert(0 * n == 0) by (nonlinear_arith);
    }
}

/// An account of an earlier page, which comes first in scheduling, has no greater number than one
/// of a later page.
pub proof fn law_earlier_pages_hold_smaller_numbers(
    ids: Seq<i64>,
    all: Seq<i64>,
    page_size: nat,
    i: int,
    j: int,
    x: int,
    y: int,
)
    requires
        is_sorting(ids, all),
        page_size > 0,
        0 <= i < j < chunked(ids, page_size).len(),
        0 <= x < chunked(ids, page_size)[i].len(),
        0 <= y < chunked(ids, page_size)[j].len(),
    ensures
        chunked(ids, page_size)[i][x] <= chunked(ids, page_size)[j][y],
{
    lemma_chunk_is_part(ids, page_size, i, x);
    lemma_chunk_is_part(ids, page_size, j, y);
    law_chunk_sizes(ids, page_size);
    assert(i * page_size + x <= j * page_size + y) by (nonlinear_arith)
        requires
            i < j,
            0 <= x < page_size,
            0 <= y,
    ;
    assert(0 <= i * page_size) by (nonlinear_arith)
        requires
            0 <= i,
            page_size > 0,
    ;
}

/// The account at position `x` of page `i` is the one with as many before it as `i` full pages and
/// `x` accounts hold.
pub proof fn law_place_of_an_account(ids: Seq<i64>, page_size: nat, i: int, x: int)
    requires
        page_size > 0,
        0 <= i < chunked(ids, page_size).len(),
        0 <= x < chunked(ids, page_size)[i].len(),
    ensures
        i * page_size + x < ids.len(),
        chunked(ids, page_size)[i][x] == ids[i * page_size + x],
{
    lemma_chunk_is_part(ids, page_size, i, x);
}

/// A page holds from one to twenty accounts.
pub proof fn law_page_size(page_size: usize)
    ensures
        size_allowed(page_size) == (1 <= page_size <= 20),
{
}

/// Accounts failed where the gateway tells a number of them that is not zero; a gateway that tells
/// none says that all went well.
pub proof fn law_failures(v: JsonV)
    ensures
        match v.get("failed"@) {
            Some(JsonV::Num(t)) => match signed(t) {
                Some(n) => failures(v) == n,
                None => failures(v) == 0,
            },
            _ => failures(v) == 0,
        },
{
    law_typed_field(v, "failed"@);
}

/// What is reported of a page tells its number, how many accounts it holds where all were set, and
/// otherwise how many failed.
pub proof fn law_page_is_reported(page: i64, len: nat, v: JsonV)
    ensures
        failures(v) == 0 ==> reply_message(page, len, v) == "第 "@ + decimal_int(page as int)
            + " 页（"@ + decimal(len) + " 个账号）优先级已设为 "@ + decimal_int(page as int),
        failures(v) != 0 && v.get("results"@) is Some ==> reply_message(page, len, v) == "第 "@
            + decimal_int(page as int) + " 页有 "@ + decimal_int(failures(v))
            + " 个账号设置失败："@ + shown(v.get("results"@)->0),
        failures(v) != 0 && v.get("results"@) is None ==> reply_message(page, len, v) == "第 "@
            + decimal_int(page as int) + " 页有 "@ + decimal_int(failures(v))
            + " 个账号设置失败："@ + "无明细"@,
{
}

/// What is reported of a page that was set account by account tells why, and of each account that
/// failed.
pub proof fn law_single_accounts_are_reported(
    page: i64,
    len: nat,
    details: Seq<Seq<char>>,
    error: Seq<char>,
)
    ensures
        details.len() == 0 ==> single_message(page, len, details, error) == "第 "@
            + decimal_int(page as int) + " 页（"@ + decimal(len) + " 个账号）优先级已设为 "@
            + decimal_int(page as int) + "（批量端点不可用，已逐个写回）"@,
        details.len() > 0 ==> single_message(page, len, details, error) == "第 "@
            + decimal_int(page as int) + " 页有 "@ + decimal(details.len())
            + " 个账号设置失败："@ + join(details, "；"@) + "（批量原因："@ + error + "）"@,
{
}

/// The next request is for the page that is under way, or for one of its accounts, and asks for
/// the page's number as the priority; there is none when every page has its outcome.
pub proof fn law_next_request(r: GroupRun)
    requires
        r.wf(),
    ensures
        match r.action() {
            GroupAction::Page(p, n) => p == r.outcomes@.len() && n == r.outcomes@.len() + 1 && p
                < r.pages@.len() && r.single is None,
            GroupAction::Account(id, n) => r.outcomes@.len() < r.pages@.len() && n
                == r.outcomes@.len() + 1 && (r.single matches Some((_, k)) && id
                == r.pages@[r.outcomes@.len() as int]@[k as int]),
            GroupAction::Done => r.outcomes@.len() == r.pages@.len(),
        },
{
}

// ---------------------------------------------------------------------------
// Laws on what a call gives
// ---------------------------------------------------------------------------

/// A size is refused exactly where it is not one to twenty; otherwise the pages hold every account
/// once, each page but the last is full, and no number of a page is above one of a later page.
pub proof fn law_pages(
    accounts: &[Account],
    page_size: usize,
    r: Result<Vec<Vec<i64>>, String>,
    i: int,
    j: int,
    x: int,
    y: int,
)
    requires
        call_ensures(group_pages, (accounts, page_size), r),
    ensures
        r is Ok <==> 1 <= page_size <= 20,
        r matches Ok(pages) ==> flat(id_lists(pages@)).to_multiset() == account_ids(
            accounts@,
        ).to_multiset(),
        r matches Ok(pages) ==> (0 <= i < pages@.len() ==> 0 < pages@[i]@.len() <= page_size),
        r matches Ok(pages) ==> (0 <= i < pages@.len() - 1 ==> pages@[i]@.len() == page_size),
        r matches Ok(pages) ==> (0 <= i < j < pages@.len() && 0 <= x < pages@[i]@.len() && 0 <= y
            < pages@[j]@.len() ==> pages@[i]@[x] <= pages@[j]@[y]),
{
    if let Ok(pages) = r {
        let all = account_ids(accounts@);
        let n = page_size as nat;
        let ids = choose|ids: Seq<i64>| #[trigger]
            is_sorting(ids, all) && id_lists(pages@) == chunked(ids, n);
        law_pages_hold_every_account(ids, all, n);
        assert(id_lists(pages@).len() == pages@.len());
        if 0 <= i < pages@.len() {
            assert(id_lists(pages@)[i] == pages@[i]@);
        }
        if 0 <= j < pages@.len() {
            assert(id_lists(pages@)[j] == pages@[j]@);
        }
        if 0 <= i < j < pages@.len() && 0 <= x < pages@[i]@.len() && 0 <= y < pages@[j]@.len() {
            law_earlier_pages_hold_smaller_numbers(ids, all, n, i, j, x, y);
        }
    }
}

/// A page is set exactly where the gateway tells of no failure; its accounts have its number as
/// their priority.
pub proof fn law_outcome_of_a_page(page: i64, ids: &Vec<i64>, v: &Json, r: GroupOutcome)
    requires
        call_ensures(GroupOutcome::of_reply, (page, ids, v), r),
    ensures
        r.page == page && r.priority == page && r.account_ids@ == ids@,
        v@.get("failed"@) matches Some(JsonV::Num(t)) ==> (signed(t) matches Some(n) ==> r.ok == (n
            == 0)),
        !(v@.get("failed"@) matches Some(JsonV::Num(_))) ==> r.ok,
{
    law_failures(v@);
}

/// A page that was set account by account is set exactly where none of them failed.
pub proof fn law_outcome_of_single_accounts(
    page: i64,
    ids: &Vec<i64>,
    details: &Vec<String>,
    error: &str,
    r: GroupOutcome,
)
    requires
        call_ensures(GroupOutcome::one_by_one, (page, ids, details, error), r),
    ensures
        r.page == page && r.priority == page && r.account_ids@ == ids@,
        r.ok == (details@.len() == 0),
{
}

/// A page that cannot be set as a whole is set account by account, from its first account on; one
/// that can has its outcome, and the next page follows.
pub proof fn law_page_took(run: &mut GroupRun, result: &Result<Json, String>)
    requires
        call_ensures(GroupRun::page_took, (run, result), ()),
    ensures
        result is Err ==> final(run).at == old(run).at && (final(run).single matches Some((_, k))
            && k == 0) && final(run).outcomes == old(run).outcomes,
        result is Ok ==> final(run).at == old(run).at + 1 && final(run).single is None
            && final(run).outcomes@.drop_last() == old(run).outcomes@,
        final(run).pages == old(run).pages,
{
}

/// An account that failed is noted and stops nothing: the next account of the page follows, and
/// after the last the page has its outcome.
pub proof fn law_account_took(run: &mut GroupRun, result: &Result<(), String>)
    requires
        call_ensures(GroupRun::account_took, (run, result), ()),
        old(run).single is Some,
    ensures
        ({
            let k = (old(run).single->0).1;
            let ids = old(run).pages@[old(run).at as int]@;
            let failed = old(run).details@.len() + (if result is Err {
                1int
            } else {
                0
            });
            if k + 1 < ids.len() {
                &&& final(run).at == old(run).at
                &&& final(run).single matches Some((_, j)) && j == k + 1
                &&& final(run).details@.len() == failed
                &&& final(run).outcomes == old(run).outcomes
            } else {
                &&& final(run).at == old(run).at + 1
                &&& final(run).single is None
                &&& final(run).outcomes@.drop_last() == old(run).outcomes@
                &&& final(run).outcomes@.last().ok == (failed == 0)
            }
        }),
{
    assert(texts(final(run).details@).len() == final(run).details@.len());
    assert(texts(old(run).details@).len() == old(run).details@.len());
}

/// The result counts the pages that have their outcome.
pub proof fn law_result(page_size: usize, total: usize, outcomes: Vec<GroupOutcome>, r: GroupResult)
    requires
        call_ensures(group_result, (page_size, total, outcomes), r),
    ensures
        r.page_size == page_size && r.total == total,
        r.pages == r.outcomes@.len(),
        r.outcomes == outcomes,
{
}

/// A run begins with the first of the pages that hold every account.
pub proof fn law_grouping_begins(
    accounts: &[Account],
    page_size: usize,
    r: Result<GroupRun, String>,
)
    requires
        call_ensures(group_accounts, (accounts, page_size), r),
    ensures
        r is Ok <==> 1 <= page_size <= 20,
        r matches Ok(run) ==> run.at == 0 && run.outcomes@.len() == 0 && run.single is None && flat(
            id_lists(run.pages@),
        ).to_multiset() == account_ids(accounts@).to_multiset(),
{
    if let Ok(run) = r {
        let all = account_ids(accounts@);
        let ids = choose|ids: Seq<i64>| #[trigger]
            is_sorting(ids, all) && id_lists(run.pages@) == chunked(ids, page_size as nat);
        law_pages_hold_every_account(ids, all, page_size as nat);
    }
}

/// The next request is for the page that is under way, or for its next account, with the page's
/// number as the priority.
pub proof fn law_requested_next(run: GroupRun, r: GroupAction)
    requires
        call_ensures(GroupRun::next, (&run,), r),
        run.wf(),
    ensures
        r is Done <==> run.at == run.pages@.len(),
        r is Page <==> run.at < run.pages@.len() && run.single is None,
        r matches GroupAction::Page(p, n) ==> p == run.at && n == run.at + 1,
        r matches GroupAction::Account(id, n) ==> n == run.at + 1 && (run.single matches Some((_, k))
            && id == run.pages@[run.at as int]@[k as int]),
{
    law_next_request(run);
}

/// A refusal tells which sizes are allowed.
pub proof fn law_refused_size(accounts: &[Account], page_size: usize, e: String)
    requires
        call_ensures(group_pages, (accounts, page_size), Err::<Vec<Vec<i64>>, String>(e)),
    ensures
        page_size == 0 || page_size > 20,
        e@ == "每页大小必须在 1 到 20 之间"@,
{
}

} // verus!
