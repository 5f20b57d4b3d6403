//! Carrying out a plan, and what is reported of it.
use crate::commands::reauth::plan::{
    bears, build_plan, find_account, first_bearer, items_of, law_target, law_target_has_the_address,
    matches_email, no_items, planned, plan_views, skips, target, ApplyOutcome, ApplyReport,
    FieldPreview, FieldPreviewV, PlanItem, PlanItemV,
};
use crate::json::{json_parse, string_doc, Json, JsonV};
use crate::models::Account;
use crate::text::basic::{
    blank, is_blank, join, joined, opt_str, opt_text, pad, padded, text2, text3, text4, text5,
    texts, trim,
};
use crate::text::charwise::{law_trim, only_spaces};
use crate::text::numeral::{decimal, decimal_int, integer_text, number_text};
use vstd::prelude::*;

verus! {

/// How results are to be written.
#[derive(Debug, Clone)]
pub struct ApplyOpts<'a> {
    /// Whether anything is written; otherwise the plan is only shown.
    pub yes: bool,
    /// The file that holds the results; by default they are in the clipboard.
    pub from: Option<&'a str>,
    /// The only account that is written.
    pub only_account: Option<i64>,
    /// The only address that is written, ignoring case.
    pub only_email: Option<&'a str>,
}

/// What became of the deletion of one account.
#[derive(Debug, Clone)]
pub struct DeleteOutcome {
    pub account_id: i64,
    pub email: String,
    pub ok: bool,
    pub message: String,
}

// ---------------------------------------------------------------------------
// Writing
// ---------------------------------------------------------------------------

/// The body that gives an account its new credentials.
pub fn apply_body(p: &PlanItem) -> (r: Json)
    ensures
        r@ == JsonV::Obj(
            seq![
                ("credentials"@, p.credentials@),
                ("extra"@, p.extra@),
                ("type"@, JsonV::Str(p.account_type@)),
            ],
        ),
{
    let mut o: Vec<(String, Json)> = Vec::new();
    o.push(("credentials".to_owned(), p.credentials.copy()));
    o.push(("extra".to_owned(), p.extra.copy()));
    o.push(("type".to_owned(), string_doc(p.account_type.as_str())));
    let r = Json::Obj(o);
    assert(r@->Obj_0 =~= seq![
        ("credentials"@, p.credentials@),
        ("extra"@, p.extra@),
        ("type"@, JsonV::Str(p.account_type@)),
    ]);
    r
}

/// What is reported of an account that was written. The gateway takes an account with an error
/// out of scheduling, so it has to be put back; that this failed is reported, and is no failure
/// to write.
pub open spec fn applied_message(scheduled: Result<(), String>) -> Seq<char> {
    match scheduled {
        Ok(_) => "写回成功，"@ + "调度已恢复"@,
        Err(e) => "写回成功，"@ + ("⚠️ 调度开关恢复失败（"@ + e@ + "），请到后台手动打开"@),
    }
}

impl ApplyOutcome {
    /// An account that was written, and whether it was put back into scheduling.
    pub fn applied(p: &PlanItem, scheduled: &Result<(), String>) -> (r: ApplyOutcome)
        ensures
            r.account_id == p.account_id,
            r.email@ == p.email@,
            r.ok,
            r.message@ == applied_message(*scheduled),
    {
        let tail = match scheduled {
            Ok(_) => "调度已恢复".to_owned(),
            Err(e) => text3("⚠️ 调度开关恢复失败（", e.as_str(), "），请到后台手动打开"),
        };
        ApplyOutcome {
            account_id: p.account_id,
            email: p.email.clone(),
            ok: true,
            message: text2("写回成功，", tail.as_str()),
        }
    }

    /// An account that could not be written.
    pub fn failed(p: &PlanItem, error: &str) -> (r: ApplyOutcome)
        ensures
            r.account_id == p.account_id,
            r.email@ == p.email@,
            !r.ok,
            r.message@ == error@,
    {
        ApplyOutcome {
            account_id: p.account_id,
            email: p.email.clone(),
            ok: false,
            message: error.to_owned(),
        }
    }
}

/// What is reported where there is nothing to write.
pub open spec fn nothing_matched(skipped: Seq<Seq<char>>) -> Seq<char> {
    "没有匹配到任何可写回的账号。"@ + (if skipped.len() == 0 {
        Seq::empty()
    } else {
        "（跳过 "@ + decimal(skipped.len()) + " 项："@ + join(skipped, "；"@) + "）"@
    })
}

/// Refuses a plan that is empty.
pub fn matched(report: ApplyReport) -> (r: Result<ApplyReport, String>)
    ensures
        match r {
            Ok(o) => report.plans@.len() > 0 && o == report,
            Err(e) => report.plans@.len() == 0 && e@ == nothing_matched(texts(report.skipped@)),
        },
{
    if report.plans.len() > 0 {
        return Ok(report);
    }
    let tail = if report.skipped.len() == 0 {
        String::new()
    } else {
        let n = number_text(report.skipped.len() as u64);
        let list = joined(&report.skipped, "；");
        text5("（跳过 ", n.as_str(), " 项：", list.as_str(), "）")
    };
    assert(report.skipped@.len() == 0 ==> tail@ =~= Seq::<char>::empty());
    Err(text2("没有匹配到任何可写回的账号。", tail.as_str()))
}

/// What is reported where there are no results.
pub open spec fn no_results() -> Seq<char> {
    "没有可写回的结果（剪切板为空）。请先：401 页「复制全部」→ CPA 页贴入左侧 → 点「复制输出」，再跑本命令；或用 --from 指定 JSON 文件。"@
}

/// Refuses a text without results.
pub fn given(raw: String) -> (r: Result<String, String>)
    ensures
        match r {
            Ok(s) => !blank(raw@) && s == raw,
            Err(e) => blank(raw@) && e@ == no_results(),
        },
{
    if is_blank(raw.as_str()) {
        Err(
            "没有可写回的结果（剪切板为空）。请先：401 页「复制全部」→ CPA 页贴入左侧 → 点「复制输出」，再跑本命令；或用 --from 指定 JSON 文件。".to_owned(),
        )
    } else {
        Ok(raw)
    }
}

/// Plans what is written for the results of a text, and refuses a plan that is empty.
pub fn apply_value(
    accounts: &[Account],
    raw: &str,
    only_account: Option<i64>,
    only_email: Option<&str>,
) -> (r: Result<ApplyReport, String>)
    ensures
        match no_items(raw@) {
            Some(why) => r matches Err(e) && e@ == why,
            None => {
                let items = items_of(json_parse(trim(raw@))->0)->0;
                let plans = planned(items, accounts@, only_account, opt_str(only_email));
                let skipped = skips(items, accounts@, only_account, opt_str(only_email));
                match r {
                    Ok(report) => plans.len() > 0 && report.dry_run && report.outcomes@.len() == 0
                        && plan_views(report.plans@) == plans && texts(report.skipped@) == skipped,
                    Err(e) => plans.len() == 0 && e@ == nothing_matched(skipped),
                }
            },
        },
{
    match build_plan(accounts, raw, only_account, only_email) {
        Ok(report) => {
            assert(plan_views(report.plans@).len() == report.plans@.len());
            matched(report)
        },
        Err(e) => Err(e),
    }
}

/// Whether a plan is carried out: only where that is asked for, and there is something to write.
pub open spec fn goes_ahead(yes: bool, report: ApplyReport) -> bool {
    yes && report.plans@.len() > 0
}

/// Whether a plan is carried out: only where that is asked for, and there is something to write.
pub fn carries_out(yes: bool, report: &ApplyReport) -> (r: bool)
    ensures
        r == goes_ahead(yes, *report),
{
    yes && report.plans.len() > 0
}

/// A dry run writes nothing; a run that is meant writes whatever is planned.
pub proof fn law_dry_run_writes_nothing(report: ApplyReport)
    ensures
        !goes_ahead(false, report),
        goes_ahead(true, report) == (report.plans@.len() > 0),
{
}

/// Notes what became of a plan. Without `yes` nothing was carried out: the report stays that of a
/// dry run.
pub fn concluded(report: ApplyReport, yes: bool, outcomes: Vec<ApplyOutcome>) -> (r: ApplyReport)
    ensures
        r.plans == report.plans,
        r.skipped == report.skipped,
        if yes {
            !r.dry_run && r.outcomes == outcomes
        } else {
            r.dry_run == report.dry_run && r.outcomes == report.outcomes
        },
{
    if yes {
        ApplyReport { dry_run: false, plans: report.plans, skipped: report.skipped, outcomes }
    } else {
        report
    }
}

// ---------------------------------------------------------------------------
// Reporting
// ---------------------------------------------------------------------------

/// How many outcomes are good.
pub open spec fn good(outcomes: Seq<ApplyOutcome>) -> nat
    decreases outcomes.len(),
{
    if outcomes.len() == 0 {
        0
    } else {
        good(outcomes.drop_last()) + if outcomes.last().ok {
            1nat
        } else {
            0
        }
    }
}

/// The good outcomes and the others together are all of them.
pub proof fn lemma_good(outcomes: Seq<ApplyOutcome>)
    ensures
        good(outcomes) <= outcomes.len(),
    decreases outcomes.len(),
{
    if outcomes.len() > 0 {
        lemma_good(outcomes.drop_last());
    }
}

/// Counts the good outcomes.
pub fn count_ok(outcomes: &Vec<ApplyOutcome>) -> (n: usize)
    ensures
        n == good(outcomes@),
        n <= outcomes@.len(),
{
    let mut n: usize = 0;
    let mut i: usize = 0;
    while i < outcomes.len()
        invariant
            i <= outcomes@.len(),
            n <= i,
            n == good(outcomes@.take(i as int)),
        decreases outcomes@.len() - i,
    {
        assert(outcomes@.take(i + 1).drop_last() == outcomes@.take(i as int));
        if outcomes[i].ok {
            n += 1;
        }
        i += 1;
    }
    assert(outcomes@.take(outcomes@.len() as int) == outcomes@);
    n
}

/// The line that reports an outcome.
pub open spec fn outcome_line(o: ApplyOutcome) -> Seq<char> {
    if o.ok {
        "✅ #"@ + decimal_int(o.account_id as int) + " "@ + o.email@ + " 写回成功"@
    } else {
        "❌ #"@ + decimal_int(o.account_id as int) + " "@ + o.email@ + (" 写回失败："@ + o.message@)
    }
}

/// The lines that report outcomes.
pub open spec fn outcome_lines(outcomes: Seq<ApplyOutcome>) -> Seq<Seq<char>> {
    outcomes.map_values(|o: ApplyOutcome| outcome_line(o))
}

/// The line that counts the outcomes.
pub open spec fn tally(outcomes: Seq<ApplyOutcome>) -> Seq<char> {
    "完成：成功 "@ + decimal(good(outcomes)) + " / 失败 "@ + decimal(
        (outcomes.len() - good(outcomes)) as nat,
    )
}

/// The line that reports an outcome.
pub fn outcome_text(o: &ApplyOutcome) -> (r: String)
    ensures
        r@ == outcome_line(*o),
{
    let id = integer_text(o.account_id);
    if o.ok {
        text5("✅ #", id.as_str(), " ", o.email.as_str(), " 写回成功")
    } else {
        let tail = text2(" 写回失败：", o.message.as_str());
        text5("❌ #", id.as_str(), " ", o.email.as_str(), tail.as_str())
    }
}

/// Adds the lines that report outcomes.
pub fn push_outcomes(lines: &mut Vec<String>, outcomes: &Vec<ApplyOutcome>)
    ensures
        texts(final(lines)@) == texts(old(lines)@) + outcome_lines(outcomes@),
{
    let ghost start = texts(lines@);
    let ghost all = outcome_lines(outcomes@);
    let mut i: usize = 0;
    assert(start + all.take(0) =~= start);
    while i < outcomes.len()
        invariant
            i <= outcomes@.len(),
            all == outcome_lines(outcomes@),
            texts(lines@) == start + all.take(i as int),
        decreases outcomes@.len() - i,
    {
        let ghost was = texts(lines@);
        lines.push(outcome_text(&outcomes[i]));
        assert(texts(lines@) =~= was.push(all[i as int]));
        assert(start + all.take(i + 1) =~= (start + all.take(i as int)).push(all[i as int]));
        i += 1;
    }
    assert(all.take(all.len() as int) == all);
}

/// The line that counts the outcomes.
pub fn tally_text(outcomes: &Vec<ApplyOutcome>) -> (r: String)
    ensures
        r@ == tally(outcomes@),
{
    let ok = count_ok(outcomes);
    let fail = outcomes.len() - ok;
    let a = number_text(ok as u64);
    let b = number_text(fail as u64);
    text4("完成：成功 ", a.as_str(), " / 失败 ", b.as_str())
}

/// The line that shows one field.
pub open spec fn field_line(f: FieldPreviewV) -> Seq<char> {
    "    - "@ + pad(f.key, 22) + " "@ + (if f.hidden {
        f.value + "，已隐藏"@
    } else {
        f.value
    })
}

/// The lines that show what is written to one account, with an empty line after them.
pub open spec fn plan_lines(p: PlanItemV) -> Seq<Seq<char>> {
    seq!["▶ 账号 #"@ + decimal_int(p.account_id as int) + "  ← 结果邮箱 "@ + p.email]
        + p.preview.map_values(|f: FieldPreviewV| field_line(f)) + seq![Seq::<char>::empty()]
}

/// The lines that show a plan.
pub open spec fn all_plan_lines(plans: Seq<PlanItemV>) -> Seq<Seq<char>>
    decreases plans.len(),
{
    if plans.len() == 0 {
        Seq::empty()
    } else {
        all_plan_lines(plans.drop_last()) + plan_lines(plans.last())
    }
}

fn field_text(f: &FieldPreview) -> (r: String)
    ensures
        r@ == field_line(f@),
{
    let key = padded(f.key.as_str(), 22);
    let value = if f.hidden {
        text2(f.value.as_str(), "，已隐藏")
    } else {
        f.value.clone()
    };
    text4("    - ", key.as_str(), " ", value.as_str())
}

fn push_plan(lines: &mut Vec<String>, p: &PlanItem)
    ensures
        texts(final(lines)@) == texts(old(lines)@) + plan_lines(p@),
{
    let ghost start = texts(lines@);
    let id = integer_text(p.account_id);
    lines.push(text4("▶ 账号 #", id.as_str(), "  ← 结果邮箱 ", p.email.as_str()));
    let ghost head = texts(lines@);
    let ghost fields = p@.preview.map_values(|f: FieldPreviewV| field_line(f));
    let mut i: usize = 0;
    assert(head + fields.take(0) =~= head);
    while i < p.preview.len()
        invariant
            i <= p.preview@.len(),
            fields == p@.preview.map_values(|f: FieldPreviewV| field_line(f)),
            texts(lines@) == head + fields.take(i as int),
        decreases p.preview@.len() - i,
    {
        let ghost was = texts(lines@);
        assert(p@.preview[i as int] == p.preview@[i as int]@);
        lines.push(field_text(&p.preview[i]));
        assert(texts(lines@) =~= was.push(fields[i as int]));
        assert(head + fields.take(i + 1) =~= (head + fields.take(i as int)).push(fields[i as int]));
        i += 1;
    }
    let ghost was = texts(lines@);
    lines.push(String::new());
    assert(texts(lines@) =~= was.push(Seq::<char>::empty()));
    assert(texts(lines@) =~= start + plan_lines(p@));
}

/// What is printed of a report: the plan, what was skipped, and what became of it.
pub open spec fn report_lines(report: ApplyReport) -> Seq<Seq<char>> {
    let skipped = texts(report.skipped@);
    seq!["共匹配到 "@ + decimal(report.plans@.len()) + " 个账号待写回：\n"@] + all_plan_lines(
        plan_views(report.plans@),
    ) + (if skipped.len() == 0 {
        Seq::empty()
    } else {
        seq!["（跳过 "@ + decimal(skipped.len()) + " 项："@ + join(skipped, "；"@) + "）\n"@]
    }) + (if report.dry_run {
        seq!["（dry-run）未发送。核对无误后加 `--yes` 真正写回。"@]
    } else {
        outcome_lines(report.outcomes@) + seq!["\n"@ + tally(report.outcomes@)]
    })
}

/// What is printed of a report.
pub fn apply_lines(report: &ApplyReport) -> (r: Vec<String>)
    ensures
        texts(r@) == report_lines(*report),
{
    let mut lines: Vec<String> = Vec::new();
    let n = number_text(report.plans.len() as u64);
    lines.push(text3("共匹配到 ", n.as_str(), " 个账号待写回：\n"));
    let ghost plans = plan_views(report.plans@);
    let ghost head = texts(lines@);
    assert(head =~= seq!["共匹配到 "@ + decimal(report.plans@.len()) + " 个账号待写回：\n"@]);
    let mut i: usize = 0;
    assert(head + all_plan_lines(plans.take(0)) =~= head);
    while i < report.plans.len()
        invariant
            i <= report.plans@.len(),
            plans == plan_views(report.plans@),
            texts(lines@) == head + all_plan_lines(plans.take(i as int)),
        decreases report.plans@.len() - i,
    {
        assert(plans.take(i + 1).drop_last() == plans.take(i as int));
        assert(plans.take(i + 1).last() == report.plans@[i as int]@);
        push_plan(&mut lines, &report.plans[i]);
        assert(texts(lines@) =~= head + all_plan_lines(plans.take(i + 1)));
        i += 1;
    }
    assert(plans.take(plans.len() as int) == plans);
    let ghost shown = texts(lines@);
    if report.skipped.len() > 0 {
        let k = number_text(report.skipped.len() as u64);
        let list = joined(&report.skipped, "；");
        lines.push(text5("（跳过 ", k.as_str(), " 项：", list.as_str(), "）\n"));
    }
    let ghost middle = texts(lines@);
    assert(middle =~= shown + (if report.skipped@.len() == 0 {
        Seq::empty()
    } else {
        seq![
            "（跳过 "@ + decimal(report.skipped@.len()) + " 项："@ + join(
                texts(report.skipped@),
                "；"@,
            ) + "）\n"@,
        ]
    }));
    if report.dry_run {
        lines.push("（dry-run）未发送。核对无误后加 `--yes` 真正写回。".to_owned());
        assert(texts(lines@) =~= middle.push("（dry-run）未发送。核对无误后加 `--yes` 真正写回。"@));
    } else {
        push_outcomes(&mut lines, &report.outcomes);
        let ghost before = texts(lines@);
        let t = tally_text(&report.outcomes);
        lines.push(text2("\n", t.as_str()));
        assert(texts(lines@) =~= before.push("\n"@ + tally(report.outcomes@)));
    }
    assert(texts(lines@) =~= report_lines(*report));
    lines
}

/// The error with which an operation ends where an account could not be written.
pub fn apply_error(report: &ApplyReport) -> (r: Option<String>)
    ensures
        opt_text(r) == (if !report.dry_run && good(report.outcomes@) < report.outcomes@.len() {
            Some(
                "有 "@ + decimal((report.outcomes@.len() - good(report.outcomes@)) as nat)
                    + " 个账号写回失败"@,
            )
        } else {
            None
        }),
{
    if report.dry_run {
        return None;
    }
    let fail = report.outcomes.len() - count_ok(&report.outcomes);
    if fail > 0 {
        let n = number_text(fail as u64);
        Some(text3("有 ", n.as_str(), " 个账号写回失败"))
    } else {
        None
    }
}

// ---------------------------------------------------------------------------
// Deleting banned accounts
// ---------------------------------------------------------------------------

/// What is to be done about one banned address.
#[derive(Debug)]
pub enum DeleteStep {
    /// No account has the address; this is reported.
    Skip(String),
    /// The account with this number is to be deleted.
    Delete(i64),
}

/// Whether `r` is what is to be done about a banned address: the first account that it matches is
/// deleted, and where there is none this is reported.
pub open spec fn disposes(r: DeleteStep, accounts: Seq<Account>, email: Seq<char>) -> bool {
    match target(accounts, email) {
        Some(i) => r == DeleteStep::Delete(accounts[i].id),
        None => r matches DeleteStep::Skip(s) && s@ == "未找到对应 sub2api 账号，跳过删除："@ + email,
    }
}

/// What is to be done about every banned address.
pub fn delete_banned_accounts(accounts: &[Account], banned: &Vec<String>) -> (r: Vec<DeleteStep>)
    ensures
        r@.len() == banned@.len(),
        forall|i: int|
            0 <= i < banned@.len() ==> disposes(#[trigger] r@[i], accounts@, banned@[i]@),
{
    let mut out: Vec<DeleteStep> = Vec::new();
    let mut i: usize = 0;
    while i < banned.len()
        invariant
            i <= banned@.len(),
            out@.len() == i,
            forall|k: int| 0 <= k < i ==> disposes(#[trigger] out@[k], accounts@, banned@[k]@),
        decreases banned@.len() - i,
    {
        out.push(delete_step(accounts, banned[i].as_str()));
        i += 1;
    }
    out
}

/// What is to be done about a banned address.
pub fn delete_step(accounts: &[Account], email: &str) -> (r: DeleteStep)
    ensures
        disposes(r, accounts@, email@),
{
    match find_account(accounts, email) {
        Some(i) => DeleteStep::Delete(accounts[i].id),
        None => DeleteStep::Skip(text2("未找到对应 sub2api 账号，跳过删除：", email)),
    }
}

/// What is reported of a deletion: a line, and the outcome.
pub fn delete_outcome(account_id: i64, email: &str, done: &Result<(), String>) -> (r: (
    String,
    DeleteOutcome,
))
    ensures
        r.1.account_id == account_id,
        r.1.email@ == email@,
        r.1.ok == (done is Ok),
        match done {
            Ok(_) => r.1.message@ == "已删除"@ && r.0@ == "已删除被封禁账号 #"@ + decimal_int(
                account_id as int,
            ) + " "@ + email@,
            Err(e) => r.1.message@ == e@ && r.0@ == "删除账号 #"@ + decimal_int(account_id as int)
                + " "@ + email@ + (" 失败："@ + e@),
        },
{
    let id = integer_text(account_id);
    match done {
        Ok(_) => (
            text4("已删除被封禁账号 #", id.as_str(), " ", email),
            DeleteOutcome {
                account_id,
                email: email.to_owned(),
                ok: true,
                message: "已删除".to_owned(),
            },
        ),
        Err(e) => {
            let tail = text2(" 失败：", e.as_str());
            (
                text5("删除账号 #", id.as_str(), " ", email, tail.as_str()),
                DeleteOutcome {
                    account_id,
                    email: email.to_owned(),
                    ok: false,
                    message: e.clone(),
                },
            )
        },
    }
}

/// No account is deleted for an address that does not match it.
pub proof fn law_only_matching_accounts_are_deleted(
    r: DeleteStep,
    accounts: Seq<Account>,
    email: Seq<char>,
    id: i64,
)
    requires
        disposes(r, accounts, email),
        r == DeleteStep::Delete(id),
    ensures
        exists|i: int|
            0 <= i < accounts.len() && #[trigger] accounts[i].id == id && matches_email(
                accounts[i],
                email,
            ),
{
    law_target(accounts, email);
    let i = target(accounts, email)->0;
    assert(accounts[i].id == id);
}

/// For a banned address the first account that has the whole of it is deleted, and no other; where
/// no account has it, none is, and this is reported.
pub proof fn law_banned_address_is_disposed_of(
    r: DeleteStep,
    accounts: Seq<Account>,
    email: Seq<char>,
)
    requires
        disposes(r, accounts, email),
    ensures
        match r {
            DeleteStep::Delete(id) => exists|i: int| #[trigger]
                first_bearer(accounts, email, i) && accounts[i].id == id,
            DeleteStep::Skip(s) => (forall|i: int|
                0 <= i < accounts.len() ==> !bears(#[trigger] accounts[i], email)) && s@
                == "未找到对应 sub2api 账号，跳过删除："@ + email,
        },
{
    law_target_has_the_address(accounts, email);
}

/// Each outcome counts once, as a success or as a failure.
pub proof fn law_outcomes_are_counted(outcomes: Seq<ApplyOutcome>, o: ApplyOutcome)
    ensures
        good(Seq::empty()) == 0,
        good(outcomes.push(o)) == good(outcomes) + if o.ok {
            1int
        } else {
            0
        },
        good(outcomes) <= outcomes.len(),
        tally(outcomes) == "完成：成功 "@ + decimal(good(outcomes)) + " / 失败 "@ + decimal(
            (outcomes.len() - good(outcomes)) as nat,
        ),
{
    assert(outcomes.push(o).drop_last() =~= outcomes);
    lemma_good(outcomes);
}

/// Each outcome has its line, which tells the account, its address and, of a failure, why.
pub proof fn law_outcomes_are_reported(outcomes: Seq<ApplyOutcome>, i: int)
    requires
        0 <= i < outcomes.len(),
    ensures
        outcome_lines(outcomes).len() == outcomes.len(),
        outcomes[i].ok ==> outcome_lines(outcomes)[i] == "✅ #"@ + decimal_int(
            outcomes[i].account_id as int,
        ) + " "@ + outcomes[i].email@ + " 写回成功"@,
        !outcomes[i].ok ==> outcome_lines(outcomes)[i] == "❌ #"@ + decimal_int(
            outcomes[i].account_id as int,
        ) + " "@ + outcomes[i].email@ + (" 写回失败："@ + outcomes[i].message@),
{
}

/// What is reported of a written account tells whether it was put back into scheduling.
pub proof fn law_scheduling_is_reported(e: String)
    ensures
        applied_message(Ok(())) == "写回成功，"@ + "调度已恢复"@,
        applied_message(Err(e)) == "写回成功，"@ + ("⚠️ 调度开关恢复失败（"@ + e@
            + "），请到后台手动打开"@),
{
}

/// That nothing matched is reported with whatever was left alone, and why.
pub proof fn law_nothing_matched(skipped: Seq<Seq<char>>)
    ensures
        skipped.len() == 0 ==> nothing_matched(skipped) == "没有匹配到任何可写回的账号。"@,
        skipped.len() > 0 ==> nothing_matched(skipped) == "没有匹配到任何可写回的账号。"@ + (
        "（跳过 "@ + decimal(skipped.len()) + " 项："@ + join(skipped, "；"@) + "）"@),
{
    assert("没有匹配到任何可写回的账号。"@ + Seq::<char>::empty() =~= "没有匹配到任何可写回的账号。"@);
}

/// A plan is shown account by account, in order: its number and address, then its fields, of which
/// the value of a secret one is marked as hidden, then an empty line.
pub proof fn law_plans_are_shown(plans: Seq<PlanItemV>, p: PlanItemV)
    ensures
        all_plan_lines(Seq::empty()).len() == 0,
        all_plan_lines(plans.push(p)) == all_plan_lines(plans) + plan_lines(p),
        plan_lines(p).len() == p.preview.len() + 2,
        plan_lines(p)[0] == "▶ 账号 #"@ + decimal_int(p.account_id as int) + "  ← 结果邮箱 "@
            + p.email,
        plan_lines(p).last().len() == 0,
        forall|i: int|
            1 <= i <= p.preview.len() ==> #[trigger] plan_lines(p)[i] == "    - "@ + pad(
                p.preview[i - 1].key,
                22,
            ) + " "@ + (if p.preview[i - 1].hidden {
                p.preview[i - 1].value + "，已隐藏"@
            } else {
                p.preview[i - 1].value
            }),
{
    assert(plans.push(p).drop_last() =~= plans);
}

/// A report begins with the count of the accounts, and shows the plan; that of a dry run ends by
/// telling that nothing was sent, and any other with the outcomes and their count.
pub proof fn law_report(report: ApplyReport)
    ensures
        ({
            let l = report_lines(report);
            let plans = all_plan_lines(plan_views(report.plans@));
            let skipped = texts(report.skipped@);
            let n: int = 1 + plans.len() + (if skipped.len() == 0 {
                0int
            } else {
                1
            });
            &&& l[0] == "共匹配到 "@ + decimal(report.plans@.len()) + " 个账号待写回：\n"@
            &&& l.subrange(1, 1 + plans.len() as int) == plans
            &&& skipped.len() > 0 ==> l[1 + plans.len() as int] == "（跳过 "@ + decimal(
                skipped.len(),
            ) + " 项："@ + join(skipped, "；"@) + "）\n"@
            &&& report.dry_run ==> l.len() == n + 1 && l.last()
                == "（dry-run）未发送。核对无误后加 `--yes` 真正写回。"@
            &&& !report.dry_run ==> l.len() == n + report.outcomes@.len() + 1 && l.subrange(
                n,
                n + report.outcomes@.len(),
            ) == outcome_lines(report.outcomes@) && l.last() == "\n"@ + tally(report.outcomes@)
        }),
{
    let l = report_lines(report);
    let plans = all_plan_lines(plan_views(report.plans@));
    let skipped = texts(report.skipped@);
    let n: int = 1 + plans.len() + (if skipped.len() == 0 {
        0int
    } else {
        1
    });
    assert(l.subrange(1, 1 + plans.len() as int) =~= plans);
    if !report.dry_run {
        assert(l.subrange(n, n + report.outcomes@.len()) =~= outcome_lines(report.outcomes@));
    }
}

// ---------------------------------------------------------------------------
// Laws on what a call gives
// ---------------------------------------------------------------------------

/// Without `yes` a plan is never carried out.
pub proof fn law_only_yes_carries_out(yes: bool, report: &ApplyReport, r: bool)
    requires
        call_ensures(carries_out, (yes, report), r),
    ensures
        r == (yes && report.plans@.len() > 0),
{
}

/// The end of a dry run has no outcome; that of any other has those that it is given. The plan
/// stays.
pub proof fn law_end_of_a_run(
    report: ApplyReport,
    yes: bool,
    outcomes: Vec<ApplyOutcome>,
    r: ApplyReport,
)
    requires
        call_ensures(concluded, (report, yes, outcomes), r),
        report.dry_run,
        report.outcomes@.len() == 0,
    ensures
        r.dry_run == !yes,
        r.outcomes@ == (if yes {
            outcomes@
        } else {
            Seq::empty()
        }),
        r.plans == report.plans,
        r.skipped == report.skipped,
{
}

/// A plan is refused exactly where it is empty.
pub proof fn law_empty_plan_is_refused(report: ApplyReport, r: Result<ApplyReport, String>)
    requires
        call_ensures(matched, (report,), r),
    ensures
        r is Ok <==> report.plans@.len() > 0,
        r matches Ok(o) ==> o == report,
{
}

/// A text is refused exactly where it is blank.
pub proof fn law_blank_results_are_refused(raw: String, r: Result<String, String>)
    requires
        call_ensures(given, (raw,), r),
    ensures
        r is Err <==> only_spaces(raw@),
        r matches Ok(s) ==> s == raw,
{
    law_trim(raw@);
}

/// The body that is sent for an account holds its new credentials, its other settings and its kind.
pub proof fn law_sent_credentials(p: &PlanItem, r: Json)
    requires
        call_ensures(apply_body, (p,), r),
    ensures
        r@ matches JsonV::Obj(o) && o.len() == 3 && o[0] == ("credentials"@, p.credentials@) && o[1]
            == ("extra"@, p.extra@) && o[2] == ("type"@, JsonV::Str(p.account_type@)),
{
}

/// An operation ends with an error exactly where it wrote and an account could not be written.
pub proof fn law_failure_is_an_error(report: &ApplyReport, r: Option<String>)
    requires
        call_ensures(apply_error, (report,), r),
    ensures
        report.dry_run ==> r is None,
        !report.dry_run ==> (r is Some <==> exists|i: int|
            0 <= i < report.outcomes@.len() && !(#[trigger] report.outcomes@[i]).ok),
{
    lemma_all_good(report.outcomes@);
}

proof fn lemma_all_good(outcomes: Seq<ApplyOutcome>)
    ensures
        (good(outcomes) < outcomes.len()) == exists|i: int|
            0 <= i < outcomes.len() && !(#[trigger] outcomes[i]).ok,
    decreases outcomes.len(),
{
    if outcomes.len() > 0 {
        let less = outcomes.drop_last();
        lemma_all_good(less);
        lemma_good(less);
        let n = outcomes.len() - 1;
        assert(outcomes[n] == outcomes.last());
        if exists|i: int| 0 <= i < less.len() && !(#[trigger] less[i]).ok {
            let i = choose|i: int| 0 <= i < less.len() && !(#[trigger] less[i]).ok;
            assert(!outcomes[i].ok);
        }
        if exists|i: int| 0 <= i < outcomes.len() && !(#[trigger] outcomes[i]).ok {
            let i = choose|i: int| 0 <= i < outcomes.len() && !(#[trigger] outcomes[i]).ok;
            if i < n {
                assert(!less[i].ok);
            }
        }
    }
}

/// For a banned address the first account that has the whole of it is deleted, and where there is
/// none, none is.
pub proof fn law_deletion_for_an_address(accounts: &[Account], email: &str, r: DeleteStep)
    requires
        call_ensures(delete_step, (accounts, email), r),
    ensures
        match r {
            DeleteStep::Delete(id) => exists|i: int| #[trigger]
                first_bearer(accounts@, email@, i) && accounts@[i].id == id,
            DeleteStep::Skip(_) => forall|i: int|
                0 <= i < accounts@.len() ==> !bears(#[trigger] accounts@[i], email@),
        },
{
    law_banned_address_is_disposed_of(r, accounts@, email@);
}

/// Each banned address is dealt with, in order.
pub proof fn law_every_banned_address_is_dealt_with(
    accounts: &[Account],
    banned: &Vec<String>,
    r: Vec<DeleteStep>,
    k: int,
)
    requires
        call_ensures(delete_banned_accounts, (accounts, banned), r),
        0 <= k < banned@.len(),
    ensures
        r@.len() == banned@.len(),
        match r@[k] {
            DeleteStep::Delete(id) => exists|i: int| #[trigger]
                first_bearer(accounts@, banned@[k]@, i) && accounts@[i].id == id,
            DeleteStep::Skip(_) => forall|i: int|
                0 <= i < accounts@.len() ==> !bears(#[trigger] accounts@[i], banned@[k]@),
        },
{
    law_banned_address_is_disposed_of(r@[k], accounts@, banned@[k]@);
}

/// A deletion is good exactly where the gateway took it.
pub proof fn law_deletion_is_reported(
    account_id: i64,
    email: &str,
    done: &Result<(), String>,
    r: (String, DeleteOutcome),
)
    requires
        call_ensures(delete_outcome, (account_id, email, done), r),
    ensures
        r.1.ok == (done is Ok),
        r.1.account_id == account_id,
        r.1.email@ == email@,
        done matches Err(e) ==> r.1.message@ == e@,
{
}

/// An account that was written is good, one that could not be is not, and both tell of their item.
pub proof fn law_outcome_of_an_item(
    p: &PlanItem,
    scheduled: &Result<(), String>,
    error: &str,
    good: ApplyOutcome,
    bad: ApplyOutcome,
)
    requires
        call_ensures(ApplyOutcome::applied, (p, scheduled), good),
        call_ensures(ApplyOutcome::failed, (p, error), bad),
    ensures
        good.ok && !bad.ok,
        good.account_id == p.account_id && bad.account_id == p.account_id,
        good.email@ == p.email@ && bad.email@ == p.email@,
        bad.message@ == error@,
{
}

/// What is reported of a deletion names the account.
pub proof fn law_deletion_line(
    id: i64,
    email: &str,
    done: &Result<(), String>,
    r: (String, DeleteOutcome),
)
    requires
        call_ensures(delete_outcome, (id, email, done), r),
    ensures
        done is Ok ==> r.0@ == "已删除被封禁账号 #"@ + decimal_int(id as int) + " "@ + email@,
        done matches Err(e) ==> r.0@ == "删除账号 #"@ + decimal_int(id as int) + " "@ + email@ + (
        " 失败："@ + e@),
{
}

} // verus!
