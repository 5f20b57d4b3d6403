use sub2api_operator::commands::reauth::apply::{
    apply_body, apply_error, apply_lines, apply_value, carries_out, concluded, count_ok,
    delete_banned_accounts, delete_outcome, delete_step, given, matched, tally_text, DeleteStep,
};
use sub2api_operator::commands::reauth::once::{
    banned_of, char_len, detect, once_closing, once_deletions, once_emails, once_opening,
    once_raw, once_received, once_starting, stored_cdk, usable_cdk, OnceAction, OncePhase, OnceRun,
};
use sub2api_operator::commands::reauth::plan::{
    account_email, build_plan, build_preview, find_account, merge_credentials, parse_items,
    ApplyOutcome, ApplyReport, PlanItem,
};
use sub2api_operator::commands::reauth::run::{execute_plan, PlanAction};
use sub2api_operator::json::{parse, Json};
use sub2api_operator::models::Account;

fn account(id: i64, name: &str, credentials: &str, error: &str) -> Account {
    Account {
        id,
        name: name.into(),
        platform: "openai".into(),
        account_type: if id == 2 { "".into() } else { "oauth".into() },
        status: "error".into(),
        error_message: error.into(),
        expires_at: None,
        schedulable: false,
        priority: None,
        credentials: parse(credentials).ok(),
        extra: if id == 1 { parse(r#"{"k":1}"#).ok() } else { None },
    }
}

fn accounts() -> Vec<Account> {
    vec![
        account(1, "One@x.com", r#"{"refresh_token":"old","email":"mail1@x.com","plan":"p"}"#, "HTTP 401"),
        account(2, "two", r#"{"email":"Two@x.com"}"#, ""),
        account(3, "two@X.com", "", "timeout"),
    ]
}

fn plan(raw: &str) -> ApplyReport {
    build_plan(&accounts(), raw, None, None).unwrap()
}

fn outcome(id: i64, ok: bool, message: &str) -> ApplyOutcome {
    ApplyOutcome { account_id: id, email: "e".into(), ok, message: message.into() }
}

fn item(id: i64) -> PlanItem {
    PlanItem {
        account_id: id,
        account_type: "oauth".into(),
        email: "e".into(),
        preview: vec![],
        credentials: Json::Null,
        extra: Json::Null,
    }
}

#[test]
fn addresses_of_results_have_three_sources() {
    let of = |s: &str| account_email(&parse(s).unwrap());
    assert_eq!(of(r#"{"email":" a@b ","name":"n"}"#).as_deref(), Some("a@b"));
    assert_eq!(of(r#"{"credentials":{"email":"c@d"},"name":"n"}"#).as_deref(), Some("c@d"));
    assert_eq!(of(r#"{"email":3,"name":"n"}"#).as_deref(), Some("n"));
    assert_eq!(of(r#"{"email":"  ","name":"n"}"#), None);
    assert_eq!(of("{}"), None);
}

#[test]
fn accounts_are_matched_ignoring_case() {
    let list = accounts();
    assert_eq!(find_account(&list, "ONE@X.COM"), Some(0));
    assert_eq!(find_account(&list, "MAIL1@x.com"), Some(0));
    assert_eq!(find_account(&list, "two@x.com"), Some(1));
    assert_eq!(find_account(&list, "none@x.com"), None);
}

#[test]
fn results_override_stored_credentials() {
    let a = parse(r#"{"b":2,"c":{"x":1}}"#).unwrap();
    let b = parse(r#"{"a":1,"b":1}"#).unwrap();
    assert_eq!(merge_credentials(&a, &b).show(), r#"{"a":1,"b":2,"c":{"x":1}}"#);
    assert_eq!(merge_credentials(&a, &Json::Null).show(), r#"{"b":2,"c":{"x":1}}"#);
}

#[test]
fn previews_hide_secrets() {
    let p = build_preview(&parse(r#"{"Access_TOKEN":"验证","client_secret":7,"n":null,"o":[1],"s":"t"}"#).unwrap());
    let rows: Vec<(&str, &str, bool)> =
        p.iter().map(|f| (f.key.as_str(), f.value.as_str(), f.hidden)).collect();
    assert_eq!(
        rows,
        vec![
            ("Access_TOKEN", "<6 字符>", true),
            ("client_secret", "<0 字符>", true),
            ("n", "null", false),
            ("o", "[1]", false),
            ("s", "t", false),
        ]
    );
    assert!(build_preview(&Json::Null).is_empty());
}

#[test]
fn results_come_in_three_shapes() {
    assert_eq!(parse_items(r#" {"accounts":[1,2]} "#).unwrap().len(), 2);
    assert_eq!(parse_items("[1]").unwrap().len(), 1);
    assert_eq!(parse_items(r#"{"credentials":null}"#).unwrap().len(), 1);
    assert_eq!(parse_items("[]").unwrap_err(), "结果里的账号列表为空，没有可写回的内容");
    assert_eq!(
        parse_items("{}").unwrap_err(),
        "无法识别的结果结构：既没有 accounts[]，也不是单条含 credentials 的对象"
    );
    assert_eq!(parse_items("x").unwrap_err(), "结果不是合法 JSON（期望 CPA 输出的 accounts[] 结构）");
}

#[test]
fn a_plan_names_the_right_accounts() {
    let r = plan(
        r#"{"accounts":[
            {"name":"one@X.com","credentials":{"refresh_token":"new"}},
            {"name":"nobody@x.com","credentials":{}},
            {"credentials":{}},
            {"email":"two@x.com","credentials":{"a":1}},
            {"email":"mail1@x.com"}
        ]}"#,
    );
    assert!(r.dry_run && r.outcomes.is_empty());
    assert_eq!(r.plans.len(), 2);
    assert_eq!((r.plans[0].account_id, r.plans[0].email.as_str()), (1, "one@X.com"));
    assert_eq!(
        r.plans[0].credentials.show(),
        r#"{"email":"mail1@x.com","plan":"p","refresh_token":"new"}"#
    );
    assert_eq!(r.plans[0].extra.show(), r#"{"k":1}"#);
    assert_eq!((r.plans[1].account_id, r.plans[1].account_type.as_str()), (2, "oauth"));
    assert_eq!(r.plans[1].extra.show(), "{}");
    assert_eq!(
        r.skipped,
        vec![
            "nobody@x.com（sub2api 里没有这个邮箱的账号）",
            "(某项缺 email/name，无法匹配)",
            "mail1@x.com（该项没有 credentials 对象）",
        ]
    );
}

#[test]
fn a_plan_can_be_restricted() {
    let raw = r#"[{"email":"one@x.com","credentials":{}},{"email":"two@x.com","credentials":{}}]"#;
    let by_id = build_plan(&accounts(), raw, Some(2), None).unwrap();
    assert_eq!(by_id.plans.iter().map(|p| p.account_id).collect::<Vec<_>>(), vec![2]);
    assert!(by_id.skipped.is_empty());
    let by_email = build_plan(&accounts(), raw, None, Some("ONE@x.com")).unwrap();
    assert_eq!(by_email.plans.iter().map(|p| p.account_id).collect::<Vec<_>>(), vec![1]);
    assert!(build_plan(&accounts(), "?", None, None).is_err());
}

#[test]
fn an_empty_plan_is_refused() {
    assert_eq!(
        matched(plan(r#"[{"name":"z@z","credentials":{}},{}]"#)).unwrap_err(),
        "没有匹配到任何可写回的账号。（跳过 2 项：z@z（sub2api 里没有这个邮箱的账号）；(某项缺 email/name，无法匹配)）"
    );
    let none = build_plan(&accounts(), r#"[{"name":"z@z"}]"#, None, Some("y@y")).unwrap();
    assert_eq!(matched(none).unwrap_err(), "没有匹配到任何可写回的账号。");
    assert!(matched(plan(r#"[{"name":"one@x.com","credentials":{}}]"#)).is_ok());
    let all = accounts();
    let some = apply_value(&all, r#"[{"name":"one@x.com","credentials":{}}]"#, None, None).unwrap();
    assert!(some.dry_run && some.plans.len() == 1);
    assert_eq!(
        apply_value(&all, r#"[{"name":"one@x.com"}]"#, Some(9), None).unwrap_err(),
        "没有匹配到任何可写回的账号。"
    );
    assert!(apply_value(&all, "[]", None, None).unwrap_err().starts_with("结果里的账号列表为空"));
}

#[test]
fn a_dry_run_has_no_outcomes() {
    let raw = r#"[{"name":"one@x.com","credentials":{}}]"#;
    let dry = concluded(plan(raw), false, vec![outcome(1, true, "")]);
    assert!(dry.dry_run && dry.outcomes.is_empty());
    let wet = concluded(plan(raw), true, vec![outcome(1, true, "")]);
    assert!(!wet.dry_run && wet.outcomes.len() == 1);
    assert!(carries_out(true, &plan(raw)) && !carries_out(false, &plan(raw)));
    assert!(!carries_out(true, &plan(r#"[{"name":"z@z","credentials":{}}]"#)));
}

#[test]
fn a_plan_is_carried_out_in_order() {
    let plans = vec![item(1), item(2), item(3)];
    let none: Vec<PlanItem> = vec![];
    assert_eq!(execute_plan(&none).next(), PlanAction::Done);
    let mut run = execute_plan(&plans);
    assert_eq!(run.plans.len(), 3);
    assert_eq!(run.next(), PlanAction::Apply(0));
    run.took(&Ok(()));
    assert_eq!(run.next(), PlanAction::Schedule(0));
    run.took(&Ok(()));
    assert_eq!(run.next(), PlanAction::Apply(1));
    run.took(&Err("no".into()));
    assert_eq!(run.next(), PlanAction::Apply(2));
    run.took(&Ok(()));
    run.took(&Err("busy".into()));
    assert_eq!(run.next(), PlanAction::Done);
    let rows: Vec<(i64, bool, &str)> =
        run.outcomes.iter().map(|o| (o.account_id, o.ok, o.message.as_str())).collect();
    assert_eq!(
        rows,
        vec![
            (1, true, "写回成功，调度已恢复"),
            (2, false, "no"),
            (3, true, "写回成功，⚠️ 调度开关恢复失败（busy），请到后台手动打开"),
        ]
    );
    assert_eq!(apply_body(&plans[0]).show(), r#"{"credentials":null,"extra":null,"type":"oauth"}"#);
}

#[test]
fn reports_are_printed() {
    let dry = plan(r#"[{"name":"one@x.com","credentials":{"t_token":"abc"}},{}]"#);
    assert_eq!(
        apply_lines(&dry),
        vec![
            "共匹配到 1 个账号待写回：\n",
            "▶ 账号 #1  ← 结果邮箱 one@x.com",
            "    - email                  mail1@x.com",
            "    - plan                   p",
            "    - refresh_token          <3 字符>，已隐藏",
            "    - t_token                <3 字符>，已隐藏",
            "",
            "（跳过 1 项：(某项缺 email/name，无法匹配)）\n",
            "（dry-run）未发送。核对无误后加 `--yes` 真正写回。",
        ]
    );
    assert_eq!(apply_error(&dry), None);
    let wet = concluded(
        plan(r#"[{"name":"one@x.com","credentials":{}}]"#),
        true,
        vec![outcome(1, true, ""), outcome(2, false, "x")],
    );
    let lines = apply_lines(&wet);
    assert_eq!(lines[lines.len() - 3..], ["✅ #1 e 写回成功", "❌ #2 e 写回失败：x", "\n完成：成功 1 / 失败 1"]);
    assert_eq!(apply_error(&wet).as_deref(), Some("有 1 个账号写回失败"));
    assert_eq!(count_ok(&wet.outcomes), 1);
    assert_eq!(tally_text(&vec![]), "完成：成功 0 / 失败 0");
}

#[test]
fn banned_accounts_are_deleted() {
    let list = accounts();
    assert!(matches!(delete_step(&list, "TWO@x.com"), DeleteStep::Delete(2)));
    match delete_step(&list, "z@z") {
        DeleteStep::Skip(s) => assert_eq!(s, "未找到对应 sub2api 账号，跳过删除：z@z"),
        _ => panic!("deleted"),
    }
    let banned: Vec<String> = vec!["z@z".into(), "one@x.com".into()];
    assert!(once_deletions(&list, &banned, false).is_empty());
    assert_eq!(once_deletions(&list, &banned, true).len(), 2);
    let steps = delete_banned_accounts(&list, &banned);
    assert!(matches!(steps[0], DeleteStep::Skip(_)) && matches!(steps[1], DeleteStep::Delete(1)));
    let (line, o) = delete_outcome(2, "a@b", &Ok(()));
    assert_eq!((line.as_str(), o.ok, o.message.as_str()), ("已删除被封禁账号 #2 a@b", true, "已删除"));
    let (line, o) = delete_outcome(2, "a@b", &Err("e".into()));
    assert_eq!((line.as_str(), o.ok, o.message.as_str()), ("删除账号 #2 a@b 失败：e", false, "e"));
    assert_eq!((o.account_id, o.email.as_str()), (2, "a@b"));
}

#[test]
fn accounts_in_need_are_detected() {
    assert_eq!(
        detect(&accounts()),
        vec![
            "⚠️  检测到 2 个 OAuth 账号可能需要重授权：\n".to_string(),
            format!("  #{:<5} name={:<32} platform={:<12} status={:<9} error={}", 1, "One@x.com", "openai", "error", "HTTP 401"),
            format!("  #{:<5} name={:<32} platform={:<12} status={:<9} error={}", 3, "two@X.com", "openai", "error", "timeout"),
        ]
    );
    assert_eq!(detect(&[]), vec!["✅ 当前没有检测到需要重授权的 OAuth 账号。"]);
}

#[test]
fn addresses_in_need_are_chosen() {
    let list = accounts();
    assert_eq!(once_emails(&list, None).unwrap(), vec!["One@x.com", "two@X.com"]);
    assert_eq!(once_emails(&list, Some("two@x.com")).unwrap(), vec!["two"]);
    assert_eq!(once_emails(&list, Some("z")).unwrap_err(), "sub2api 里没有邮箱为 z 的账号");
    assert_eq!(
        once_emails(&list[1..2], None).unwrap_err(),
        "当前没有需要重授权的账号（都没报 401），无需操作"
    );
    assert_eq!(once_opening(&vec!["a".into(), "b".into()]), "待重授权 2 个账号：a, b");
    assert_eq!(once_starting(150_999), "启动无头浏览器：门页 → 填邮箱 → 获取令牌（最长等待 150s）");
    assert_eq!(usable_cdk(Some(" ".into())), None);
    assert_eq!(usable_cdk(Some("c".into())).as_deref(), Some("c"));
    assert_eq!(usable_cdk(None), None);
    assert_eq!(stored_cdk(Some("c".into())).unwrap(), "c");
    let missing = "credentials.db 里没有 CDK，请先在页面保存 CDK 再执行";
    assert_eq!(stored_cdk(None).unwrap_err(), missing);
    assert_eq!(stored_cdk(Some("\n".into())).unwrap_err(), missing);
    assert_eq!(given(" x".into()).unwrap(), " x");
    assert!(given("  ".into()).unwrap_err().starts_with("没有可写回的结果（剪切板为空）。"));
}

#[test]
fn results_of_the_browser_are_taken() {
    let raw = |s: &str| once_raw(&parse(s).unwrap());
    assert_eq!(raw(r#"{"cpaPage":{"output":" x "},"clipboard":"y"}"#).unwrap(), "x");
    assert_eq!(raw(r#"{"cpaPage":{"output":"  "},"clipboard":" y "}"#).unwrap(), "y");
    assert_eq!(raw(r#"{"clipboard":"y"}"#).unwrap(), "y");
    assert_eq!(raw("{}").unwrap_err(), "浏览器流程没有拿到结果（CPA 输出与剪切板都为空）");
    assert_eq!(char_len("验a"), 2);
    assert_eq!(once_received("验a"), "拿到结果（2 字符），开始按邮箱匹配写回");
    let banned = banned_of(&parse(r#"{"bannedEmails":[" A@B ",3,"  ","c@d"]}"#).unwrap());
    assert_eq!(banned, vec!["a@b", "c@d"]);
    assert!(banned_of(&Json::Null).is_empty());
}

const BROUGHT: &str = r#"{
    "cpaPage": {"output": "[{\"name\":\"one@x.com\",\"credentials\":{\"refresh_token\":\"new\"}},{\"name\":\"q@q\"}]"},
    "bannedEmails": ["z@z", "two@x.com", "TWO@x.com "]
}"#;

#[test]
fn one_go_deletes_before_it_writes() {
    let list = accounts();
    let mut run = OnceRun::begin(&list, None, true).unwrap();
    assert_eq!(run.emails, vec!["One@x.com", "two@X.com"]);
    assert!(matches!(run.next(), OnceAction::Fetch));
    assert_eq!(
        run.fetched(&parse("{}").unwrap()).unwrap_err(),
        "浏览器流程没有拿到结果（CPA 输出与剪切板都为空）"
    );
    assert!(matches!(run.next(), OnceAction::Fetch));
    run.fetched(&parse(BROUGHT).unwrap()).unwrap();
    match run.next() {
        OnceAction::Note(line) => assert_eq!(line, "未找到对应 sub2api 账号，跳过删除：z@z"),
        _ => panic!("not reported"),
    }
    run.reported();
    match run.next() {
        OnceAction::Delete(id, email) => assert_eq!((id, email.as_str()), (2, "two@x.com")),
        _ => panic!("not deleted"),
    }
    assert_eq!(run.deletion_took(&Ok(())), "已删除被封禁账号 #2 two@x.com");
    assert!(matches!(run.next(), OnceAction::Delete(2, _)));
    assert_eq!(run.deletion_took(&Err("e".into())), "删除账号 #2 two@x.com 失败：e");
    assert!(matches!(run.next(), OnceAction::Plan));
    assert!(run.plan(&list[1..]).unwrap_err().starts_with("没有匹配到任何可写回的账号。（跳过 2 项："));
    assert!(matches!(run.next(), OnceAction::Plan));
    run.plan(&list).unwrap();
    assert!(matches!(run.next(), OnceAction::Write));
    assert_eq!(run.plans().iter().map(|p| p.account_id).collect::<Vec<_>>(), vec![1]);
    run.wrote(vec![outcome(1, true, "")]);
    assert!(matches!(run.next(), OnceAction::Done));
    let r = run.result();
    assert_eq!(r.emails.len(), 2);
    assert_eq!(r.raw_len, 75);
    assert_eq!(r.banned_emails, vec!["z@z", "two@x.com", "two@x.com"]);
    assert_eq!(r.deleted.iter().map(|o| o.ok).collect::<Vec<_>>(), vec![true, false]);
    assert!(!r.report.dry_run && r.report.outcomes.len() == 1 && r.report.skipped.len() == 1);
}

#[test]
fn one_go_without_consent_leaves_everything() {
    let list = accounts();
    let mut run = OnceRun::begin(&list, Some("one@x.com"), false).unwrap();
    run.fetched(&parse(BROUGHT).unwrap()).unwrap();
    assert!(matches!(run.next(), OnceAction::Plan));
    run.plan(&list).unwrap();
    assert!(matches!(run.phase, OncePhase::Over(_)) && matches!(run.next(), OnceAction::Done));
    let r = run.result();
    assert!(r.deleted.is_empty() && r.report.dry_run && r.report.outcomes.is_empty());
    assert_eq!((r.report.plans.len(), r.banned_emails.len()), (1, 3));
    assert_eq!(
        OnceRun::begin(&list, Some("z"), true).err().unwrap(),
        "sub2api 里没有邮箱为 z 的账号"
    );
    assert_eq!(
        OnceRun::begin(&list[1..2], None, true).err().unwrap(),
        "当前没有需要重授权的账号（都没报 401），无需操作"
    );
    let mut odd = OnceRun::begin(&list, None, false).unwrap();
    odd.fetched(&parse(r#"{"clipboard":"x"}"#).unwrap()).unwrap();
    assert_eq!(odd.plan(&list).unwrap_err(), "结果不是合法 JSON（期望 CPA 输出的 accounts[] 结构）");
}

#[test]
fn the_end_is_reported() {
    let r = plan(r#"[{"name":"one@x.com","credentials":{}},{}]"#);
    assert_eq!(
        once_closing(&r, false),
        vec![
            "（预览）匹配到 1 个账号，未真正写回。勾选「真正写回」再执行一次。",
            "跳过：(某项缺 email/name，无法匹配)",
        ]
    );
    let w = concluded(r, true, vec![outcome(1, true, "")]);
    assert_eq!(
        once_closing(&w, true),
        vec!["✅ #1 e 写回成功", "完成：成功 1 / 失败 0", "跳过：(某项缺 email/name，无法匹配)"]
    );
}
