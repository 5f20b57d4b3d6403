//! Finding the accounts that need new credentials, and writing what the browser brought.
use crate::commands::reauth::apply::{
    apply_value, carries_out, concluded, delete_banned_accounts, delete_outcome, disposes,
    goes_ahead, law_banned_address_is_disposed_of, law_only_matching_accounts_are_deleted,
    nothing_matched, outcome_lines, push_outcomes, tally, tally_text, DeleteOutcome, DeleteStep,
};
use crate::commands::reauth::plan::{
    bears, find_account, first_bearer, items_of, law_target_has_the_address, matches_email,
    no_items, plan_views, planned, skips, target, ApplyOutcome, ApplyReport, PlanItem, PlanItemV,
};
use crate::json::{docs, json_parse, law_typed_field, Json, JsonV};
use crate::mail::record::address;
use crate::models::{law_account_state, Account};
use crate::text::basic::{
    blank, chars_of, is_blank, join, joined, lowercase, opt_str, pad, padded, text2, text3, text4,
    texts, trim, trimmed,
};
use crate::text::charwise::{alike, is_core, law_core_is_unique, law_trim, only_spaces};
use crate::text::numeral::{decimal, decimal_int, integer_text, number_text};
use vstd::prelude::*;

verus! {

/// How accounts are given new credentials in one go.
#[derive(Debug, Clone)]
pub struct OnceOpts<'a> {
    pub gate_url: &'a str,
    pub cpa_url: &'a str,
    /// The longest time that the browser waits, in milliseconds.
    pub max_ms: u64,
    pub engine: Option<&'a str>,
    /// The CDK; by default the stored one.
    pub cdk: Option<String>,
    /// Whether anything is written.
    pub yes: bool,
    /// The only address that is handled, ignoring case.
    pub only_email: Option<&'a str>,
}

/// What came of it.
#[derive(Debug)]
pub struct OnceResult {
    pub emails: Vec<String>,
    /// The length of the results in characters.
    pub raw_len: usize,
    pub report: ApplyReport,
    /// The addresses that turned out to be banned.
    pub banned_emails: Vec<String>,
    pub deleted: Vec<DeleteOutcome>,
}

// ---------------------------------------------------------------------------
// Detecting
// ---------------------------------------------------------------------------

/// Whether an account needs new credentials.
pub open spec fn needy(a: Account) -> bool {
    a.oauth() && a.failed()
}

/// The accounts that need new credentials, in their order.
pub open spec fn all_needy(accounts: Seq<Account>) -> Seq<Account>
    decreases accounts.len(),
{
    if accounts.len() == 0 {
        Seq::empty()
    } else if needy(accounts.last()) {
        all_needy(accounts.drop_last()).push(accounts.last())
    } else {
        all_needy(accounts.drop_last())
    }
}

fn needing<'a>(accounts: &'a [Account]) -> (r: Vec<&'a Account>)
    ensures
        r@.unref() == all_needy(accounts@),
{
    let mut out: Vec<&'a Account> = Vec::new();
    let mut i: usize = 0;
    while i < accounts.len()
        invariant
            i <= accounts@.len(),
            out@.unref() == all_needy(accounts@.take(i as int)),
        decreases accounts@.len() - i,
    {
        assert(accounts@.take(i + 1).drop_last() == accounts@.take(i as int));
        if accounts[i].needs_reauth() {
            let ghost was = out@.unref();
            out.push(&accounts[i]);
            assert(out@.unref() =~= was.push(accounts@[i as int]));
        }
        i += 1;
    }
    assert(accounts@.take(accounts@.len() as int) == accounts@);
    out
}

/// The line that shows an account that needs new credentials.
pub open spec fn needy_line(a: Account) -> Seq<char> {
    "  #"@ + pad(decimal_int(a.id as int), 5) + " name="@ + pad(a.name@, 32) + " platform="@ + pad(
        a.platform@,
        12,
    ) + " status="@ + pad(a.status@, 9) + " error="@ + a.error_message@
}

/// What is printed of the accounts that need new credentials.
pub open spec fn detected(accounts: Seq<Account>) -> Seq<Seq<char>> {
    let list = all_needy(accounts);
    if list.len() == 0 {
        seq!["✅ 当前没有检测到需要重授权的 OAuth 账号。"@]
    } else {
        seq!["⚠️  检测到 "@ + decimal(list.len()) + " 个 OAuth 账号可能需要重授权：\n"@]
            + list.map_values(|a: Account| needy_line(a))
    }
}

fn needy_text(a: &Account) -> (r: String)
    ensures
        r@ == needy_line(*a),
{
    let id = integer_text(a.id);
    let mut s = "  #".to_owned();
    s.append(padded(id.as_str(), 5).as_str());
    s.append(" name=");
    s.append(padded(a.name.as_str(), 32).as_str());
    s.append(" platform=");
    s.append(padded(a.platform.as_str(), 12).as_str());
    s.append(" status=");
    s.append(padded(a.status.as_str(), 9).as_str());
    s.append(" error=");
    s.append(a.error_message.as_str());
    s
}

/// What is printed of the accounts that need new credentials.
pub fn detect(accounts: &[Account]) -> (r: Vec<String>)
    ensures
        texts(r@) == detected(accounts@),
{
    let list = needing(accounts);
    let ghost all = list@.unref();
    let mut lines: Vec<String> = Vec::new();
    if list.len() == 0 {
        lines.push("✅ 当前没有检测到需要重授权的 OAuth 账号。".to_owned());
        assert(texts(lines@) =~= seq!["✅ 当前没有检测到需要重授权的 OAuth 账号。"@]);
        return lines;
    }
    let n = number_text(list.len() as u64);
    lines.push(text3("⚠️  检测到 ", n.as_str(), " 个 OAuth 账号可能需要重授权：\n"));
    let ghost head = texts(lines@);
    let ghost more = all.map_values(|a: Account| needy_line(a));
    assert(head =~= seq![
        "⚠️  检测到 "@ + decimal(all.len()) + " 个 OAuth 账号可能需要重授权：\n"@,
    ]);
    let mut i: usize = 0;
    assert(head + more.take(0) =~= head);
    while i < list.len()
        invariant
            i <= list@.len(),
            all == list@.unref(),
            more == all.map_values(|a: Account| needy_line(a)),
            texts(lines@) == head + more.take(i as int),
        decreases list@.len() - i,
    {
        let ghost was = texts(lines@);
        assert(all[i as int] == *list@[i as int]);
        lines.push(needy_text(list[i]));
        assert(texts(lines@) =~= was.push(more[i as int]));
        assert(head + more.take(i + 1) =~= (head + more.take(i as int)).push(more[i as int]));
        i += 1;
    }
    assert(more.take(more.len() as int) == more);
    lines
}

// ---------------------------------------------------------------------------
// Choosing
// ---------------------------------------------------------------------------

/// The names of accounts.
pub open spec fn names(accounts: Seq<Account>) -> Seq<Seq<char>> {
    accounts.map_values(|a: Account| a.name@)
}

/// The addresses that are handled: that of the account that `only_email` matches, or those of all
/// the accounts that need new credentials.
pub fn once_emails(accounts: &[Account], only_email: Option<&str>) -> (r: Result<
    Vec<String>,
    String,
>)
    ensures
        match opt_str(only_email) {
            Some(e) => match (target(accounts@, e), r) {
                (Some(i), Ok(v)) => texts(v@) == seq![accounts@[i].name@],
                (None, Err(m)) => m@ == "sub2api 里没有邮箱为 "@ + e + " 的账号"@,
                _ => false,
            },
            None => match r {
                Ok(v) => v@.len() > 0 && texts(v@) == names(all_needy(accounts@)),
                Err(m) => all_needy(accounts@).len() == 0 && m@
                    == "当前没有需要重授权的账号（都没报 401），无需操作"@,
            },
        },
{
    match only_email {
        Some(e) => match find_account(accounts, e) {
            Some(i) => {
                let mut v: Vec<String> = Vec::new();
                v.push(accounts[i].name.clone());
                assert(texts(v@) =~= seq![accounts@[i as int].name@]);
                Ok(v)
            },
            None => Err(text3("sub2api 里没有邮箱为 ", e, " 的账号")),
        },
        None => {
            let list = needing(accounts);
            let ghost all = list@.unref();
            if list.len() == 0 {
                return Err("当前没有需要重授权的账号（都没报 401），无需操作".to_owned());
            }
            let mut v: Vec<String> = Vec::new();
            let mut i: usize = 0;
            while i < list.len()
                invariant
                    i <= list@.len(),
                    all == list@.unref(),
                    v@.len() == i,
                    forall|k: int| 0 <= k < i ==> (#[trigger] v@[k])@ == all[k].name@,
                decreases list@.len() - i,
            {
                assert(all[i as int] == *list@[i as int]);
                v.push(list[i].name.clone());
                i += 1;
            }
            assert(texts(v@) =~= names(all));
            Ok(v)
        },
    }
}

/// The line that lists the addresses.
pub fn once_opening(emails: &Vec<String>) -> (r: String)
    ensures
        r@ == "待重授权 "@ + decimal(emails@.len()) + " 个账号："@ + join(texts(emails@), ", "@),
{
    let n = number_text(emails.len() as u64);
    let list = joined(emails, ", ");
    text4("待重授权 ", n.as_str(), " 个账号：", list.as_str())
}

/// The line that announces the browser.
pub fn once_starting(max_ms: u64) -> (r: String)
    ensures
        r@ == "启动无头浏览器：门页 → 填邮箱 → 获取令牌（最长等待 "@ + decimal(
            (max_ms / 1000) as nat,
        ) + "s）"@,
{
    let n = number_text(max_ms / 1000);
    text3("启动无头浏览器：门页 → 填邮箱 → 获取令牌（最长等待 ", n.as_str(), "s）")
}

/// A CDK that is not blank.
pub fn usable_cdk(cdk: Option<String>) -> (r: Option<String>)
    ensures
        match cdk {
            Some(c) => r == (if blank(c@) {
                None
            } else {
                Some(c)
            }),
            None => r is None,
        },
{
    match cdk {
        Some(c) => if is_blank(c.as_str()) {
            None
        } else {
            Some(c)
        },
        None => None,
    }
}

/// The stored CDK, or that there is none.
pub fn stored_cdk(stored: Option<String>) -> (r: Result<String, String>)
    ensures
        match r {
            Ok(c) => stored == Some(c) && !blank(c@),
            Err(e) => (stored matches Some(c) ==> blank(c@)) && e@
                == "credentials.db 里没有 CDK，请先在页面保存 CDK 再执行"@,
        },
{
    match usable_cdk(stored) {
        Some(c) => Ok(c),
        None => Err("credentials.db 里没有 CDK，请先在页面保存 CDK 再执行".to_owned()),
    }
}

// ---------------------------------------------------------------------------
// What the browser brought
// ---------------------------------------------------------------------------

/// The converted results of the browser.
pub open spec fn converted(out: JsonV) -> Seq<char> {
    match out.get("cpaPage"@) {
        Some(c) => trim(c.field_text("output"@).unwrap_or(Seq::empty())),
        None => trim(Seq::empty()),
    }
}

/// The results that the browser brought: the converted ones, or else those of the clipboard.
pub open spec fn brought(out: JsonV) -> Seq<char> {
    if converted(out).len() > 0 {
        converted(out)
    } else {
        trim(out.field_text("clipboard"@).unwrap_or(Seq::empty()))
    }
}

/// The results that the browser brought.
pub fn once_raw(out: &Json) -> (r: Result<String, String>)
    ensures
        match r {
            Ok(s) => s@ == brought(out@) && s@.len() > 0,
            Err(e) => brought(out@).len() == 0 && e@
                == "浏览器流程没有拿到结果（CPA 输出与剪切板都为空）"@,
        },
{
    let text = match out.get("cpaPage") {
        Some(c) => c.get_text("output"),
        None => String::new(),
    };
    assert(out@.get("cpaPage"@) is None ==> text@ =~= Seq::<char>::empty());
    let cpa = trimmed(text.as_str());
    let clip_text = out.get_text("clipboard");
    let clip = trimmed(clip_text.as_str());
    let raw = if !cpa.as_str().is_empty() {
        cpa
    } else {
        clip
    };
    if raw.as_str().is_empty() {
        Err("浏览器流程没有拿到结果（CPA 输出与剪切板都为空）".to_owned())
    } else {
        Ok(raw)
    }
}

/// The length of a text in characters.
pub fn char_len(raw: &str) -> (n: usize)
    ensures
        n == raw@.len(),
{
    chars_of(raw).len()
}

/// The line that reports the length of the results.
pub fn once_received(raw: &str) -> (r: String)
    ensures
        r@ == "拿到结果（"@ + decimal(raw@.len()) + " 字符），开始按邮箱匹配写回"@,
{
    let n = number_text(char_len(raw) as u64);
    text3("拿到结果（", n.as_str(), " 字符），开始按邮箱匹配写回")
}

/// The addresses in a list of documents; what is no text, or blank, is left out.
pub open spec fn addresses(list: Seq<JsonV>) -> Seq<Seq<char>>
    decreases list.len(),
{
    if list.len() == 0 {
        Seq::empty()
    } else {
        let done = addresses(list.drop_last());
        match list.last().text() {
            Some(s) => if address(s).len() == 0 {
                done
            } else {
                done.push(address(s))
            },
            None => done,
        }
    }
}

/// The addresses in a document that is a list.
pub fn addresses_of(list: &Json) -> (r: Vec<String>)
    ensures
        texts(r@) == addresses(list@.items().unwrap_or(Seq::empty())),
{
    let mut v: Vec<String> = Vec::new();
    assert(texts(v@) =~= addresses(Seq::empty()));
    if let Some(list) = list.as_array() {
        let ghost all = docs(list@);
        let mut i: usize = 0;
        assert(all.take(0) =~= Seq::<JsonV>::empty());
        while i < list.len()
            invariant
                i <= list@.len(),
                all == docs(list@),
                texts(v@) == addresses(all.take(i as int)),
            decreases list@.len() - i,
        {
            assert(all.take(i + 1).drop_last() == all.take(i as int));
            assert(all.take(i + 1).last() == list@[i as int]@);
            if let Some(s) = list[i].as_str() {
                let a = trimmed(s).as_str().to_lowercase();
                if !a.as_str().is_empty() {
                    let ghost was = texts(v@);
                    v.push(a);
                    assert(texts(v@) =~= was.push(a@));
                }
            }
            i += 1;
        }
        assert(all.take(all.len() as int) == all);
    }
    v
}

/// The banned addresses that the browser saw.
pub fn banned_of(out: &Json) -> (r: Vec<String>)
    ensures
        texts(r@) == addresses(out@.field_items("bannedEmails"@).unwrap_or(Seq::empty())),
{
    match out.get("bannedEmails") {
        Some(list) => addresses_of(list),
        None => {
            let none: Vec<String> = Vec::new();
            assert(texts(none@) =~= addresses(Seq::empty()));
            none
        },
    }
}

/// What is to be done about every banned address that the browser saw. Without `yes` nothing is
/// changed, so that no account is deleted either.
pub fn once_deletions(accounts: &[Account], banned: &Vec<String>, yes: bool) -> (r: Vec<DeleteStep>)
    ensures
        if yes {
            r@.len() == banned@.len() && forall|i: int|
                0 <= i < banned@.len() ==> disposes(#[trigger] r@[i], accounts@, banned@[i]@)
        } else {
            r@.len() == 0
        },
{
    if yes {
        delete_banned_accounts(accounts, banned)
    } else {
        Vec::new()
    }
}

/// What is reported at the end.
pub open spec fn closing(report: ApplyReport, yes: bool) -> Seq<Seq<char>> {
    (if yes {
        outcome_lines(report.outcomes@) + seq![tally(report.outcomes@)]
    } else {
        seq![
            "（预览）匹配到 "@ + decimal(report.plans@.len())
                + " 个账号，未真正写回。勾选「真正写回」再执行一次。"@,
        ]
    }) + texts(report.skipped@).map_values(|s: Seq<char>| "跳过："@ + s)
}

/// What is reported at the end.
pub fn once_closing(report: &ApplyReport, yes: bool) -> (r: Vec<String>)
    ensures
        texts(r@) == closing(*report, yes),
{
    let mut lines: Vec<String> = Vec::new();
    if yes {
        push_outcomes(&mut lines, &report.outcomes);
        let ghost was = texts(lines@);
        lines.push(tally_text(&report.outcomes));
        assert(texts(lines@) =~= was.push(tally(report.outcomes@)));
        assert(texts(lines@) =~= outcome_lines(report.outcomes@) + seq![tally(report.outcomes@)]);
    } else {
        let n = number_text(report.plans.len() as u64);
        lines.push(
            text3(
                "（预览）匹配到 ",
                n.as_str(),
                " 个账号，未真正写回。勾选「真正写回」再执行一次。",
            ),
        );
        assert(texts(lines@) =~= seq![
            "（预览）匹配到 "@ + decimal(report.plans@.len())
                + " 个账号，未真正写回。勾选「真正写回」再执行一次。"@,
        ]);
    }
    let ghost head = texts(lines@);
    let ghost more = texts(report.skipped@).map_values(|s: Seq<char>| "跳过："@ + s);
    let mut i: usize = 0;
    assert(head + more.take(0) =~= head);
    while i < report.skipped.len()
        invariant
            i <= report.skipped@.len(),
            more == texts(report.skipped@).map_values(|s: Seq<char>| "跳过："@ + s),
            texts(lines@) == head + more.take(i as int),
        decreases report.skipped@.len() - i,
    {
        let ghost was = texts(lines@);
        lines.push(text2("跳过：", report.skipped[i].as_str()));
        assert(texts(lines@) =~= was.push(more[i as int]));
        assert(head + more.take(i + 1) =~= (head + more.take(i as int)).push(more[i as int]));
        i += 1;
    }
    assert(more.take(more.len() as int) == more);
    lines
}

// ---------------------------------------------------------------------------
// The order of the steps
// ---------------------------------------------------------------------------

/// What is to be done next.
#[derive(Debug)]
pub enum OnceAction {
    /// Let the browser fetch results for the addresses.
    Fetch,
    /// Report this line.
    Note(String),
    /// Delete the account with this number, which has this banned address.
    Delete(i64, String),
    /// List the accounts anew, and plan what is written to them.
    Plan,
    /// Carry out the plan.
    Write,
    /// Everything is done.
    Done,
}

/// How far the run is.
#[derive(Debug)]
pub enum OncePhase {
    /// There are no results yet.
    Fetching,
    /// The accounts of banned addresses are being deleted.
    Deleting,
    /// All of them are dealt with.
    Planning,
    /// This plan is to be carried out.
    Writing(ApplyReport),
    /// This is what came of it.
    Over(ApplyReport),
}

/// How far accounts are given new credentials in one go.
#[derive(Debug)]
pub struct OnceRun<'a> {
    pub accounts: &'a [Account],
    pub only_email: Option<&'a str>,
    /// Whether anything is deleted or written.
    pub yes: bool,
    /// The addresses that are handled.
    pub emails: Vec<String>,
    pub phase: OncePhase,
    /// The results that the browser brought.
    pub raw: String,
    /// The banned addresses that the browser saw.
    pub banned: Vec<String>,
    /// What is to be done about them.
    pub steps: Vec<DeleteStep>,
    /// How many of these steps are done.
    pub at: usize,
    /// What became of the deletions among them.
    pub deleted: Vec<DeleteOutcome>,
}

/// The numbers of the accounts that the steps delete, in order.
pub open spec fn deletions(steps: Seq<DeleteStep>) -> Seq<i64>
    decreases steps.len(),
{
    if steps.len() == 0 {
        Seq::empty()
    } else {
        let done = deletions(steps.drop_last());
        match steps.last() {
            DeleteStep::Delete(id) => done.push(id),
            DeleteStep::Skip(_) => done,
        }
    }
}

/// The numbers of the accounts that outcomes tell of, in order.
pub open spec fn deleted_ids(outcomes: Seq<DeleteOutcome>) -> Seq<i64> {
    outcomes.map_values(|o: DeleteOutcome| o.account_id)
}

/// What is written for the results of a text to accounts.
pub open spec fn writes_of(
    raw: Seq<char>,
    accounts: Seq<Account>,
    only_email: Option<Seq<char>>,
) -> Seq<PlanItemV> {
    planned(items_of(json_parse(trim(raw))->0)->0, accounts, None, only_email)
}

/// Whether the plan of a report is that for the results of a text, to some list of accounts.
pub open spec fn is_plan_of(
    report: ApplyReport,
    raw: Seq<char>,
    only_email: Option<Seq<char>>,
) -> bool {
    exists|accounts: Seq<Account>|
        plan_views(report.plans@) == #[trigger] writes_of(raw, accounts, only_email)
}

impl<'a> OnceRun<'a> {
    /// Whether every step about a banned address is done, in order, with its outcome noted.
    pub open spec fn noted(self) -> bool {
        &&& self.at <= self.steps@.len()
        &&& deleted_ids(self.deleted@) == deletions(self.steps@.take(self.at as int))
    }

    /// The steps are those for the banned addresses, and there are none without `yes`; the plan is
    /// made only after the last of them, for the results that the browser brought, and carried out
    /// only with `yes`.
    pub open spec fn wf(self) -> bool {
        &&& self.noted()
        &&& !self.yes ==> self.steps@.len() == 0
        &&& self.steps@.len() <= self.banned@.len()
        &&& forall|i: int|
            0 <= i < self.steps@.len() ==> disposes(
                #[trigger] self.steps@[i],
                self.accounts@,
                self.banned@[i]@,
            )
        &&& match self.phase {
            OncePhase::Fetching => self.steps@.len() == 0,
            OncePhase::Deleting => self.at < self.steps@.len(),
            OncePhase::Planning => self.at == self.steps@.len(),
            OncePhase::Writing(report) => self.at == self.steps@.len() && goes_ahead(
                self.yes,
                report,
            ) && is_plan_of(report, self.raw@, opt_str(self.only_email)),
            OncePhase::Over(report) => self.at == self.steps@.len() && is_plan_of(
                report,
                self.raw@,
                opt_str(self.only_email),
            ) && (!self.yes ==> report.dry_run && report.outcomes@.len() == 0),
        }
    }

    /// Whether the settings of the run are those of `before`.
    pub open spec fn goes_on(self, before: OnceRun) -> bool {
        &&& self.accounts == before.accounts
        &&& self.only_email == before.only_email
        &&& self.yes == before.yes
        &&& self.emails == before.emails
    }

    /// Whether the run also kept what the browser brought, and what is to be done about it.
    pub open spec fn keeps(self, before: OnceRun) -> bool {
        &&& self.goes_on(before)
        &&& self.raw == before.raw
        &&& self.banned == before.banned
        &&& self.steps == before.steps
    }

    /// Begins for the addresses that are handled, or tells that there are none.
    pub fn begin(accounts: &'a [Account], only_email: Option<&'a str>, yes: bool) -> (r: Result<
        OnceRun<'a>,
        String,
    >)
        ensures
            match r {
                Ok(run) => run.wf() && run.phase is Fetching && run.accounts == accounts
                    && run.only_email == only_email && run.yes == yes && match opt_str(only_email) {
                    Some(e) => target(accounts@, e) matches Some(i) && texts(run.emails@)
                        == seq![accounts@[i].name@],
                    None => run.emails@.len() > 0 && texts(run.emails@) == names(
                        all_needy(accounts@),
                    ),
                },
                Err(m) => match opt_str(only_email) {
                    Some(e) => target(accounts@, e) is None && m@ == "sub2api 里没有邮箱为 "@ + e
                        + " 的账号"@,
                    None => all_needy(accounts@).len() == 0 && m@
                        == "当前没有需要重授权的账号（都没报 401），无需操作"@,
                },
            },
    {
        match once_emails(accounts, only_email) {
            Ok(emails) => {
                let run = OnceRun {
                    accounts,
                    only_email,
                    yes,
                    emails,
                    phase: OncePhase::Fetching,
                    raw: String::new(),
                    banned: Vec::new(),
                    steps: Vec::new(),
                    at: 0,
                    deleted: Vec::new(),
                };
                assert(run.steps@.take(0) =~= run.steps@);
                assert(deleted_ids(run.deleted@) =~= Seq::<i64>::empty());
                Ok(run)
            },
            Err(m) => Err(m),
        }
    }

    /// What is to be done next.
    pub fn next(&self) -> (r: OnceAction)
        requires
            self.wf(),
        ensures
            match self.phase {
                OncePhase::Fetching => r is Fetch,
                OncePhase::Deleting => match self.steps@[self.at as int] {
                    DeleteStep::Skip(s) => r matches OnceAction::Note(t) && t@ == s@,
                    DeleteStep::Delete(id) => r matches OnceAction::Delete(k, e) && k == id && e@
                        == self.banned@[self.at as int]@,
                },
                OncePhase::Planning => r is Plan,
                OncePhase::Writing(_) => r is Write,
                OncePhase::Over(_) => r is Done,
            },
    {
        match &self.phase {
            OncePhase::Fetching => OnceAction::Fetch,
            OncePhase::Deleting => match &self.steps[self.at] {
                DeleteStep::Skip(s) => OnceAction::Note(s.clone()),
                DeleteStep::Delete(id) => OnceAction::Delete(*id, self.banned[self.at].clone()),
            },
            OncePhase::Planning => OnceAction::Plan,
            OncePhase::Writing(_) => OnceAction::Write,
            OncePhase::Over(_) => OnceAction::Done,
        }
    }

    /// Takes what the browser brought, or tells that it brought no results.
    pub fn fetched(&mut self, out: &Json) -> (r: Result<(), String>)
        requires
            old(self).wf(),
            old(self).phase is Fetching,
        ensures
            final(self).wf(),
            match r {
                Ok(_) => brought(out@).len() > 0 && final(self).goes_on(*old(self))
                    && final(self).raw@ == brought(out@) && texts(final(self).banned@) == addresses(
                    out@.field_items("bannedEmails"@).unwrap_or(Seq::empty()),
                ) && final(self).at == 0 && final(self).deleted@.len() == 0
                    && final(self).steps@.len() == (if old(self).yes {
                    final(self).banned@.len()
                } else {
                    0
                }) && (if final(self).steps@.len() == 0 {
                    final(self).phase is Planning
                } else {
                    final(self).phase is Deleting
                }),
                Err(e) => brought(out@).len() == 0 && *final(self) == *old(self) && e@
                    == "浏览器流程没有拿到结果（CPA 输出与剪切板都为空）"@,
            },
    {
        match once_raw(out) {
            Ok(raw) => {
                self.raw = raw;
                self.banned = banned_of(out);
                self.steps = once_deletions(self.accounts, &self.banned, self.yes);
                self.at = 0;
                self.deleted = Vec::new();
                self.phase = if self.steps.len() == 0 {
                    OncePhase::Planning
                } else {
                    OncePhase::Deleting
                };
                assert(self.steps@.take(0) =~= Seq::<DeleteStep>::empty());
                assert(deleted_ids(self.deleted@) =~= Seq::<i64>::empty());
                Ok(())
            },
            Err(e) => Err(e),
        }
    }

    fn step_done(&mut self)
        requires
            old(self).at < old(self).steps@.len(),
        ensures
            final(self).keeps(*old(self)),
            final(self).deleted == old(self).deleted,
            final(self).at == old(self).at + 1,
            if final(self).at < final(self).steps@.len() {
                final(self).phase is Deleting
            } else {
                final(self).phase is Planning
            },
    {
        let n = self.steps.len();
        assert(self.at < n);
        self.at = self.at + 1;
        self.phase = if self.at < self.steps.len() {
            OncePhase::Deleting
        } else {
            OncePhase::Planning
        };
    }

    /// Notes that the line was reported.
    pub fn reported(&mut self)
        requires
            old(self).wf(),
            old(self).phase is Deleting,
            old(self).steps@[old(self).at as int] is Skip,
        ensures
            final(self).wf(),
            final(self).keeps(*old(self)),
            final(self).at == old(self).at + 1,
            final(self).deleted == old(self).deleted,
    {
        proof {
            let k = self.at as int;
            assert(self.steps@.take(k + 1).drop_last() =~= self.steps@.take(k));
            assert(self.steps@.take(k + 1).last() == self.steps@[k]);
        }
        self.step_done();
    }

    /// Notes how a deletion went, and gives the line that reports it. A deletion that fails stops
    /// nothing.
    pub fn deletion_took(&mut self, done: &Result<(), String>) -> (line: String)
        requires
            old(self).wf(),
            old(self).phase is Deleting,
            old(self).steps@[old(self).at as int] is Delete,
        ensures
            final(self).wf(),
            final(self).keeps(*old(self)),
            final(self).at == old(self).at + 1,
            final(self).deleted@.drop_last() == old(self).deleted@,
            ({
                let id = old(self).steps@[old(self).at as int]->Delete_0;
                let email = old(self).banned@[old(self).at as int]@;
                let o = final(self).deleted@.last();
                &&& o.account_id == id && o.email@ == email && o.ok == (done is Ok)
                &&& match done {
                    Ok(_) => o.message@ == "已删除"@ && line@ == "已删除被封禁账号 #"@ + decimal_int(
                        id as int,
                    ) + " "@ + email,
                    Err(e) => o.message@ == e@ && line@ == "删除账号 #"@ + decimal_int(id as int)
                        + " "@ + email + (" 失败："@ + e@),
                }
            }),
    {
        let id: i64 = match &self.steps[self.at] {
            DeleteStep::Delete(id) => *id,
            DeleteStep::Skip(_) => 0,
        };
        let (line, o) = delete_outcome(id, self.banned[self.at].as_str(), done);
        let ghost was = self.deleted@;
        proof {
            let k = self.at as int;
            assert(self.steps@.take(k + 1).drop_last() =~= self.steps@.take(k));
            assert(self.steps@.take(k + 1).last() == self.steps@[k]);
        }
        self.deleted.push(o);
        assert(deleted_ids(self.deleted@) =~= deleted_ids(was).push(id));
        self.step_done();
        assert(self.deleted@.drop_last() =~= was);
        line
    }

    /// Plans what is written to the accounts as they are now, or tells that it is nothing. Without
    /// `yes` that is the end of it.
    pub fn plan(&mut self, accounts: &[Account]) -> (r: Result<(), String>)
        requires
            old(self).wf(),
            old(self).phase is Planning,
        ensures
            final(self).wf(),
            final(self).keeps(*old(self)),
            final(self).at == old(self).at,
            final(self).deleted == old(self).deleted,
            match no_items(old(self).raw@) {
                Some(why) => final(self).phase is Planning && (r matches Err(e) && e@ == why),
                None => {
                    let items = items_of(json_parse(trim(old(self).raw@))->0)->0;
                    let only = opt_str(old(self).only_email);
                    let plans = writes_of(old(self).raw@, accounts@, only);
                    let skipped = skips(items, accounts@, None, only);
                    match r {
                        Ok(_) => {
                            &&& plans.len() > 0
                            &&& match final(self).phase {
                                OncePhase::Writing(report) => old(self).yes && plan_views(
                                    report.plans@,
                                ) == plans && texts(report.skipped@) == skipped,
                                OncePhase::Over(report) => !old(self).yes && plan_views(
                                    report.plans@,
                                ) == plans && texts(report.skipped@) == skipped,
                                _ => false,
                            }
                        },
                        Err(e) => plans.len() == 0 && final(self).phase is Planning && e@
                            == nothing_matched(skipped),
                    }
                },
            },
    {
        match apply_value(accounts, self.raw.as_str(), None, self.only_email) {
            Ok(report) => {
                assert(plan_views(report.plans@) == writes_of(
                    self.raw@,
                    accounts@,
                    opt_str(self.only_email),
                ));
                assert(plan_views(report.plans@).len() == report.plans@.len());
                self.phase = if carries_out(self.yes, &report) {
                    OncePhase::Writing(report)
                } else {
                    OncePhase::Over(concluded(report, false, Vec::new()))
                };
                Ok(())
            },
            Err(e) => Err(e),
        }
    }

    /// The plan that is to be carried out.
    pub fn plans(&self) -> (r: &Vec<PlanItem>)
        requires
            self.phase is Writing,
        ensures
            *r == (self.phase->Writing_0).plans,
    {
        match &self.phase {
            OncePhase::Writing(report) => &report.plans,
            _ => vstd::pervasive::unreached(),
        }
    }

    /// Notes what became of the plan.
    pub fn wrote(&mut self, outcomes: Vec<ApplyOutcome>)
        requires
            old(self).wf(),
            old(self).phase is Writing,
        ensures
            final(self).wf(),
            final(self).keeps(*old(self)),
            final(self).at == old(self).at,
            final(self).deleted == old(self).deleted,
            final(self).phase matches OncePhase::Over(report) && !report.dry_run && report.outcomes
                == outcomes && report.plans == (old(self).phase->Writing_0).plans && report.skipped
                == (old(self).phase->Writing_0).skipped,
    {
        let mut phase = OncePhase::Planning;
        std::mem::swap(&mut phase, &mut self.phase);
        if let OncePhase::Writing(report) = phase {
            self.phase = OncePhase::Over(concluded(report, true, outcomes));
        }
    }

    /// What came of a run that is over.
    pub fn result(self) -> (r: OnceResult)
        requires
            self.wf(),
            self.phase is Over,
        ensures
            r.emails == self.emails,
            r.raw_len == self.raw@.len(),
            r.report == self.phase->Over_0,
            r.banned_emails == self.banned,
            r.deleted == self.deleted,
    {
        let raw_len = char_len(self.raw.as_str());
        match self.phase {
            OncePhase::Over(report) => OnceResult {
                emails: self.emails,
                raw_len,
                report,
                banned_emails: self.banned,
                deleted: self.deleted,
            },
            _ => vstd::pervasive::unreached(),
        }
    }
}

// ---------------------------------------------------------------------------
// Laws
// ---------------------------------------------------------------------------

/// A dry run deletes and writes nothing: no deletion and no writing is ever due, and its report
/// tells of none.
pub proof fn law_dry_run_leaves_everything(r: OnceRun)
    requires
        r.wf(),
        !r.yes,
    ensures
        !(r.phase is Deleting),
        !(r.phase is Writing),
        r.deleted@.len() == 0,
        r.phase matches OncePhase::Over(report) ==> report.dry_run && report.outcomes@.len() == 0,
{
    assert(r.steps@.take(r.at as int) =~= Seq::<DeleteStep>::empty());
    assert(deleted_ids(r.deleted@).len() == r.deleted@.len());
}

/// Deleting comes before writing: where a plan is due or carried out, every step about a banned
/// address is done.
pub proof fn law_deletes_before_it_writes(r: OnceRun)
    requires
        r.wf(),
        r.phase is Planning || r.phase is Writing || r.phase is Over,
    ensures
        deleted_ids(r.deleted@) == deletions(r.steps@),
{
    assert(r.steps@.take(r.steps@.len() as int) == r.steps@);
}

/// What is written is what the results of the browser hold, and nothing else.
pub proof fn law_writes_what_was_brought(r: OnceRun)
    requires
        r.wf(),
        r.phase is Writing,
    ensures
        is_plan_of(r.phase->Writing_0, r.raw@, opt_str(r.only_email)),
        (r.phase->Writing_0).plans@.len() > 0,
{
}

/// An account is deleted only where it has an address that the browser saw as banned.
pub proof fn law_only_banned_accounts_are_deleted(r: OnceRun)
    requires
        r.wf(),
        r.phase is Deleting,
        r.steps@[r.at as int] is Delete,
    ensures
        exists|i: int|
            0 <= i < r.accounts@.len() && #[trigger] r.accounts@[i].id
                == r.steps@[r.at as int]->Delete_0 && matches_email(
                r.accounts@[i],
                r.banned@[r.at as int]@,
            ),
{
    let step = r.steps@[r.at as int];
    law_only_matching_accounts_are_deleted(
        step,
        r.accounts@,
        r.banned@[r.at as int]@,
        step->Delete_0,
    );
}

/// The accounts that are chosen are accounts of the list that need new credentials, and every
/// such account is chosen.
pub proof fn law_chosen_accounts_need_it(accounts: Seq<Account>)
    ensures
        forall|i: int|
            0 <= i < all_needy(accounts).len() ==> needy(#[trigger] all_needy(accounts)[i])
                && accounts.contains(all_needy(accounts)[i]),
        forall|k: int|
            0 <= k < accounts.len() && needy(#[trigger] accounts[k]) ==> all_needy(
                accounts,
            ).contains(accounts[k]),
    decreases accounts.len(),
{
    if accounts.len() > 0 {
        let less = accounts.drop_last();
        law_chosen_accounts_need_it(less);
        let all = all_needy(accounts);
        let done = all_needy(less);
        assert forall|i: int| 0 <= i < all.len() implies needy(#[trigger] all[i])
            && accounts.contains(all[i]) by {
            if i < done.len() {
                assert(all[i] == done[i]);
                let k = choose|k: int| 0 <= k < less.len() && less[k] == done[i];
                assert(accounts[k] == less[k]);
            } else {
                assert(accounts[accounts.len() - 1] == all[i]);
            }
        }
        assert forall|k: int| 0 <= k < accounts.len() && needy(
            #[trigger] accounts[k],
        ) implies all.contains(accounts[k]) by {
            if k < less.len() {
                assert(less[k] == accounts[k]);
                assert(done.contains(less[k]));
                let i = choose|i: int| 0 <= i < done.len() && done[i] == less[k];
                assert(all[i] == done[i]);
            } else {
                assert(all[all.len() - 1] == accounts[k]);
            }
        }
    }
}

/// Exactly the accounts that are authorised by OAuth and have an error are chosen, in their order.
pub proof fn law_accounts_in_need(accounts: Seq<Account>, a: Account)
    ensures
        all_needy(Seq::empty()).len() == 0,
        alike(a.account_type@, seq!['o', 'a', 'u', 't', 'h']) && !only_spaces(a.error_message@)
            ==> all_needy(accounts.push(a)) == all_needy(accounts).push(a),
        !alike(a.account_type@, seq!['o', 'a', 'u', 't', 'h']) || only_spaces(a.error_message@)
            ==> all_needy(accounts.push(a)) == all_needy(accounts),
        names(accounts).len() == accounts.len(),
        names(accounts.push(a)) == names(accounts).push(a.name@),
{
    law_account_state(a);
    assert(accounts.push(a).drop_last() =~= accounts);
    assert(names(accounts.push(a)) =~= names(accounts).push(a.name@));
}

/// What is printed tells how many accounts need new credentials and has a line for each, or tells
/// that there are none.
pub proof fn law_detected(accounts: Seq<Account>)
    ensures
        ({
            let l = detected(accounts);
            let v = all_needy(accounts);
            &&& v.len() == 0 ==> l.len() == 1 && l[0]
                == "✅ 当前没有检测到需要重授权的 OAuth 账号。"@
            &&& v.len() > 0 ==> l.len() == v.len() + 1 && l[0] == "⚠️  检测到 "@ + decimal(v.len())
                + " 个 OAuth 账号可能需要重授权：\n"@
            &&& v.len() > 0 ==> forall|i: int|
                1 <= i <= v.len() ==> #[trigger] l[i] == "  #"@ + pad(
                    decimal_int(v[i - 1].id as int),
                    5,
                ) + " name="@ + pad(v[i - 1].name@, 32) + " platform="@ + pad(
                    v[i - 1].platform@,
                    12,
                ) + " status="@ + pad(v[i - 1].status@, 9) + " error="@ + v[i - 1].error_message@
        }),
{
}

/// The text that the browser's page of conversions gave.
pub open spec fn page_output(out: JsonV) -> Seq<char> {
    match out.get("cpaPage"@) {
        Some(c) => match c.get("output"@) {
            Some(JsonV::Str(t)) => t,
            _ => Seq::empty(),
        },
        None => Seq::empty(),
    }
}

/// The results are what the page gave, without the spaces around it; only where that is blank are
/// they what is in the clipboard.
pub proof fn law_results_of_the_browser(out: JsonV)
    ensures
        !only_spaces(page_output(out)) ==> is_core(page_output(out), brought(out)),
        only_spaces(page_output(out)) ==> match out.get("clipboard"@) {
            Some(JsonV::Str(t)) => is_core(t, brought(out)),
            _ => brought(out).len() == 0,
        },
{
    law_trim(page_output(out));
    law_typed_field(out, "clipboard"@);
    if let Some(c) = out.get("cpaPage"@) {
        law_typed_field(c, "output"@);
    }
    let none = Seq::<char>::empty();
    law_trim(none);
    assert(only_spaces(none));
    if let Some(JsonV::Str(t)) = out.get("clipboard"@) {
        law_trim(t);
    }
}

/// A banned address is taken down without the spaces around it and in lower case; what is no text,
/// and what is blank, is left out.
pub proof fn law_banned_addresses(list: Seq<JsonV>, v: JsonV)
    ensures
        addresses(Seq::empty()).len() == 0,
        match v {
            JsonV::Str(s) => addresses(list.push(v)) == (if lowercase(trim(s)).len() == 0 {
                addresses(list)
            } else {
                addresses(list).push(lowercase(trim(s)))
            }),
            _ => addresses(list.push(v)) == addresses(list),
        },
{
    assert(list.push(v).drop_last() =~= list);
}

/// The end of a run that writes reports every outcome and their count; that of a preview tells how
/// many accounts matched, and that nothing was written. What was left alone comes last.
pub proof fn law_closing(report: ApplyReport)
    ensures
        ({
            let skipped = texts(report.skipped@);
            let n = report.outcomes@.len() as int;
            let done = closing(report, true);
            let seen = closing(report, false);
            &&& done.len() == n + 1 + skipped.len()
            &&& done.take(n) == outcome_lines(report.outcomes@)
            &&& done[n] == tally(report.outcomes@)
            &&& forall|i: int|
                0 <= i < skipped.len() ==> done[n + 1 + i] == "跳过："@ + #[trigger] skipped[i]
            &&& seen.len() == 1 + skipped.len()
            &&& seen[0] == "（预览）匹配到 "@ + decimal(report.plans@.len())
                + " 个账号，未真正写回。勾选「真正写回」再执行一次。"@
            &&& forall|i: int|
                0 <= i < skipped.len() ==> seen[1 + i] == "跳过："@ + #[trigger] skipped[i]
        }),
{
    let n = report.outcomes@.len() as int;
    assert(outcome_lines(report.outcomes@).len() == n);
    assert(closing(report, true).take(n) =~= outcome_lines(report.outcomes@));
}

/// Only deletions have an outcome, and each has it.
pub proof fn law_deletions(steps: Seq<DeleteStep>, s: DeleteStep)
    ensures
        deletions(Seq::empty()).len() == 0,
        match s {
            DeleteStep::Delete(id) => deletions(steps.push(s)) == deletions(steps).push(id),
            DeleteStep::Skip(_) => deletions(steps.push(s)) == deletions(steps),
        },
{
    assert(steps.push(s).drop_last() =~= steps);
}

/// The account that is deleted next is the first one with the whole of the banned address.
pub proof fn law_deleted_account_has_the_banned_address(r: OnceRun)
    requires
        r.wf(),
        r.phase is Deleting,
        r.steps@[r.at as int] is Delete,
    ensures
        r.yes,
        exists|i: int| #[trigger]
            first_bearer(r.accounts@, r.banned@[r.at as int]@, i) && r.accounts@[i].id
                == r.steps@[r.at as int]->Delete_0,
{
    law_banned_address_is_disposed_of(
        r.steps@[r.at as int],
        r.accounts@,
        r.banned@[r.at as int]@,
    );
}

// ---------------------------------------------------------------------------
// Laws on what a call gives
// ---------------------------------------------------------------------------

/// Whether an account is authorised by OAuth and has an error.
pub open spec fn in_need(a: Account) -> bool {
    alike(a.account_type@, seq!['o', 'a', 'u', 't', 'h']) && !only_spaces(a.error_message@)
}

/// Where an address is singled out, the one that is handled is the name of the first account that
/// has the whole of it; there is an error exactly where no account has it.
pub proof fn law_singled_out_address(
    accounts: &[Account],
    e: &str,
    r: Result<Vec<String>, String>,
)
    requires
        call_ensures(once_emails, (accounts, Some(e)), r),
    ensures
        match r {
            Ok(v) => v@.len() == 1 && exists|i: int| #[trigger]
                first_bearer(accounts@, e@, i) && v@[0]@ == accounts@[i].name@,
            Err(_) => forall|i: int| 0 <= i < accounts@.len() ==> !bears(#[trigger] accounts@[i], e@),
        },
{
    law_target_has_the_address(accounts@, e@);
    if let Ok(v) = r {
        assert(texts(v@).len() == v@.len());
        assert(texts(v@)[0] == v@[0]@);
    }
}

/// Where none is singled out, the addresses that are handled are the names of accounts in need, and
/// every account in need has its name among them.
pub proof fn law_handled_addresses(accounts: &[Account], v: Vec<String>, k: int, j: int)
    requires
        call_ensures(
            once_emails,
            (accounts, None::<&str>),
            Ok::<Vec<String>, String>(v),
        ),
        0 <= k < v@.len(),
        0 <= j < accounts@.len(),
    ensures
        exists|i: int|
            0 <= i < accounts@.len() && in_need(#[trigger] accounts@[i]) && v@[k]@
                == accounts@[i].name@,
        in_need(accounts@[j]) ==> exists|i: int|
            0 <= i < v@.len() && (#[trigger] v@[i])@ == accounts@[j].name@,
{
    let list = all_needy(accounts@);
    law_chosen_accounts_need_it(accounts@);
    assert(texts(v@) == names(list));
    assert(texts(v@)[k] == v@[k]@);
    assert(names(list)[k] == list[k].name@);
    assert(needy(list[k]));
    let i = choose|i: int| 0 <= i < accounts@.len() && accounts@[i] == list[k];
    law_account_state(accounts@[i]);
    assert(in_need(accounts@[i]));
    law_account_state(accounts@[j]);
    if in_need(accounts@[j]) {
        assert(needy(accounts@[j]));
        assert(list.contains(accounts@[j]));
        let i = choose|i: int| 0 <= i < list.len() && list[i] == accounts@[j];
        assert(texts(v@)[i] == v@[i]@);
        assert(names(list)[i] == list[i].name@);
    }
}

/// There is nothing to do exactly where no account is in need.
pub proof fn law_nobody_in_need(accounts: &[Account], r: Result<Vec<String>, String>)
    requires
        call_ensures(once_emails, (accounts, None::<&str>), r),
    ensures
        r is Err <==> forall|i: int|
            0 <= i < accounts@.len() ==> !in_need(#[trigger] accounts@[i]),
{
    let list = all_needy(accounts@);
    law_chosen_accounts_need_it(accounts@);
    assert forall|i: int| 0 <= i < accounts@.len() implies needy(accounts@[i]) == in_need(
        #[trigger] accounts@[i],
    ) by {
        law_account_state(accounts@[i]);
    }
    if let Ok(v) = r {
        assert(texts(v@).len() == v@.len());
        assert(names(list).len() == list.len());
        assert(needy(list[0]));
        let i = choose|i: int| 0 <= i < accounts@.len() && accounts@[i] == list[0];
        assert(in_need(accounts@[i]));
    } else {
        assert forall|i: int| 0 <= i < accounts@.len() implies !in_need(#[trigger] accounts@[i]) by {
            if in_need(accounts@[i]) {
                assert(list.contains(accounts@[i]));
            }
        }
    }
}

/// A CDK is used exactly where it is not blank, and as it is.
pub proof fn law_usable_cdk(cdk: Option<String>, r: Option<String>)
    requires
        call_ensures(usable_cdk, (cdk,), r),
    ensures
        match cdk {
            Some(c) => r == (if only_spaces(c@) {
                None
            } else {
                Some(c)
            }),
            None => r is None,
        },
{
    if let Some(c) = cdk {
        law_trim(c@);
    }
}

/// What the page of conversions gave is taken, and what is in the clipboard only where that is
/// blank.
pub proof fn law_taken_results(out: &Json, r: Result<String, String>)
    requires
        call_ensures(once_raw, (out,), r),
    ensures
        !only_spaces(page_output(out@)) ==> (r matches Ok(s) && is_core(page_output(out@), s@)),
        only_spaces(page_output(out@)) ==> match out@.get("clipboard"@) {
            Some(JsonV::Str(t)) => if only_spaces(t) {
                r is Err
            } else {
                r matches Ok(s) && is_core(t, s@)
            },
            _ => r is Err,
        },
{
    law_results_of_the_browser(out@);
    law_trim(page_output(out@));
    law_core_is_unique(page_output(out@), brought(out@));
    if let Some(JsonV::Str(t)) = out@.get("clipboard"@) {
        law_trim(t);
        law_core_is_unique(t, brought(out@));
    }
}

/// Without `yes` no account is deleted, whatever the browser saw; with it each banned address is
/// dealt with.
pub proof fn law_dry_run_deletes_nothing(
    accounts: &[Account],
    banned: &Vec<String>,
    yes: bool,
    r: Vec<DeleteStep>,
)
    requires
        call_ensures(once_deletions, (accounts, banned, yes), r),
    ensures
        !yes ==> r@.len() == 0,
        yes ==> r@.len() == banned@.len(),
        forall|k: int|
            0 <= k < r@.len() ==> match #[trigger] r@[k] {
                DeleteStep::Delete(id) => exists|i: int| #[trigger]
                    first_bearer(accounts@, banned@[k]@, i) && accounts@[i].id == id,
                DeleteStep::Skip(_) => forall|i: int|
                    0 <= i < accounts@.len() ==> !bears(#[trigger] accounts@[i], banned@[k]@),
            },
{
    assert forall|k: int| 0 <= k < r@.len() implies match #[trigger] r@[k] {
        DeleteStep::Delete(id) => exists|i: int| #[trigger]
            first_bearer(accounts@, banned@[k]@, i) && accounts@[i].id == id,
        DeleteStep::Skip(_) => forall|i: int|
            0 <= i < accounts@.len() ==> !bears(#[trigger] accounts@[i], banned@[k]@),
    } by {
        assert(disposes(r@[k], accounts@, banned@[k]@));
        law_banned_address_is_disposed_of(r@[k], accounts@, banned@[k]@);
    }
}

/// A run fetches first, then deals with the banned addresses one by one, then plans, and writes
/// only after that.
pub proof fn law_next_of_a_run<'a>(run: OnceRun<'a>, r: OnceAction)
    requires
        call_ensures(OnceRun::<'a>::next, (&run,), r),
        run.wf(),
    ensures
        r is Fetch <==> run.phase is Fetching,
        r is Note || r is Delete <==> run.phase is Deleting,
        r is Plan <==> run.phase is Planning,
        r is Write <==> run.phase is Writing,
        r is Done <==> run.phase is Over,
        r is Delete || r is Write ==> run.yes,
        r matches OnceAction::Delete(id, e) ==> exists|i: int| #[trigger]
            first_bearer(run.accounts@, e@, i) && run.accounts@[i].id == id,
{
    if run.phase is Deleting {
        let step = run.steps@[run.at as int];
        law_banned_address_is_disposed_of(step, run.accounts@, run.banned@[run.at as int]@);
    }
}

/// What the browser brought is kept as it is, and without `yes` no banned address is dealt with.
pub proof fn law_fetched_results_are_kept<'a>(
    run: &mut OnceRun<'a>,
    out: &Json,
    r: Result<(), String>,
)
    requires
        call_ensures(OnceRun::<'a>::fetched, (run, out), r),
    ensures
        r is Ok ==> final(run).raw@ == brought(out@) && final(run).raw@.len() > 0
            && final(run).steps@.len() == (if old(run).yes {
            final(run).banned@.len()
        } else {
            0
        }) && final(run).yes == old(run).yes && final(run).emails == old(run).emails,
        r is Err ==> *final(run) == *old(run) && brought(out@).len() == 0,
{
}

/// A plan is carried out where `yes` was said, and otherwise it is the end of the run.
pub proof fn law_planned_run<'a>(run: &mut OnceRun<'a>, accounts: &[Account], r: Result<(), String>)
    requires
        call_ensures(OnceRun::<'a>::plan, (run, accounts), r),
    ensures
        r is Ok ==> (if old(run).yes {
            final(run).phase is Writing
        } else {
            final(run).phase is Over
        }),
        r is Err ==> final(run).phase is Planning,
        final(run).deleted == old(run).deleted,
        final(run).raw == old(run).raw,
{
}

/// What became of the plan is what is reported of it.
pub proof fn law_written_run<'a>(run: &mut OnceRun<'a>, outcomes: Vec<ApplyOutcome>)
    requires
        call_ensures(OnceRun::<'a>::wrote, (run, outcomes), ()),
    ensures
        final(run).phase matches OncePhase::Over(report) && report.outcomes == outcomes
            && !report.dry_run,
        final(run).deleted == old(run).deleted,
{
}

/// A deletion that failed is noted as such, and the run goes on with the next address.
pub proof fn law_failed_deletion_stops_nothing<'a>(
    run: &mut OnceRun<'a>,
    done: &Result<(), String>,
    line: String,
)
    requires
        call_ensures(OnceRun::<'a>::deletion_took, (run, done), line),
    ensures
        final(run).at == old(run).at + 1,
        final(run).steps == old(run).steps,
        final(run).deleted@.drop_last() == old(run).deleted@,
        final(run).deleted@.last().ok == (done is Ok),
        final(run).deleted@.last().email@ == old(run).banned@[old(run).at as int]@,
{
}

/// A run begins by fetching, for the addresses that are handled, with nothing deleted or written.
pub proof fn law_once_begins<'a>(
    accounts: &'a [Account],
    only_email: Option<&'a str>,
    yes: bool,
    r: Result<OnceRun<'a>, String>,
)
    requires
        call_ensures(OnceRun::<'a>::begin, (accounts, only_email, yes), r),
    ensures
        r matches Ok(run) ==> run.phase is Fetching && run.yes == yes && run.deleted@.len() == 0
            && run.steps@.len() == 0,
        only_email matches Some(e) ==> (r is Ok <==> exists|i: int| #[trigger]
            first_bearer(accounts@, e@, i)),
{
    if let Ok(run) = r {
        assert(run.steps@.take(run.at as int) =~= Seq::<DeleteStep>::empty());
        assert(deleted_ids(run.deleted@).len() == run.deleted@.len());
    }
    if let Some(e) = only_email {
        law_target_has_the_address(accounts@, e@);
        if exists|i: int| #[trigger] first_bearer(accounts@, e@, i) {
            let i = choose|i: int| #[trigger] first_bearer(accounts@, e@, i);
            assert(bears(accounts@[i], e@));
        }
    }
}

/// The result of a run tells what was handled, brought, seen, deleted and written.
pub proof fn law_result_of_a_run<'a>(run: OnceRun<'a>, r: OnceResult)
    requires
        call_ensures(OnceRun::<'a>::result, (run,), r),
        run.phase is Over,
    ensures
        r.emails == run.emails,
        r.raw_len == run.raw@.len(),
        r.banned_emails == run.banned,
        r.deleted == run.deleted,
        r.report == run.phase->Over_0,
{
}

/// What is told in between names the addresses, the time that is allowed in seconds, and the length
/// of what was brought.
pub proof fn law_lines_in_between(
    emails: &Vec<String>,
    max_ms: u64,
    raw: &str,
    first: String,
    second: String,
    third: String,
)
    requires
        call_ensures(once_opening, (emails,), first),
        call_ensures(once_starting, (max_ms,), second),
        call_ensures(once_received, (raw,), third),
    ensures
        first@ == "待重授权 "@ + decimal(emails@.len()) + " 个账号："@ + join(
            texts(emails@),
            ", "@,
        ),
        second@ == "启动无头浏览器：门页 → 填邮箱 → 获取令牌（最长等待 "@ + decimal(
            (max_ms / 1000) as nat,
        ) + "s）"@,
        third@ == "拿到结果（"@ + decimal(raw@.len()) + " 字符），开始按邮箱匹配写回"@,
{
}

/// A stored CDK is used as it is, and there is an error exactly where there is none but a blank one.
pub proof fn law_stored_cdk(stored: Option<String>, r: Result<String, String>)
    requires
        call_ensures(stored_cdk, (stored,), r),
    ensures
        r is Ok <==> (stored matches Some(c) && !only_spaces(c@)),
        r matches Ok(c) ==> stored == Some(c),
{
    if let Some(c) = stored {
        law_trim(c@);
    }
}

/// The banned addresses are those in the list that the browser brought.
pub proof fn law_seen_as_banned(out: &Json, r: Vec<String>)
    requires
        call_ensures(banned_of, (out,), r),
    ensures
        match out@.get("bannedEmails"@) {
            Some(JsonV::Arr(a)) => texts(r@) == addresses(a),
            _ => r@.len() == 0,
        },
{
    law_typed_field(out@, "bannedEmails"@);
    assert(addresses(Seq::empty()).len() == 0);
    assert(texts(r@).len() == r@.len());
}

} // verus!
