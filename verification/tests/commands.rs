use sub2api_operator::browser::engine::BrowserMode;
use sub2api_operator::browser::oauth::{hard_timeout, OAuthFlow, OAuthOutcome};
use sub2api_operator::commands::accounts::{ellipsize, list};
use sub2api_operator::commands::group::{
    account_failed, group_accounts, group_pages, group_result, sorted_ids, GroupAction, GroupRun,
};
use sub2api_operator::commands::import::normalize_batch_body;
use sub2api_operator::commands::mail_ops::{
    collect_emails, import_closing, import_emails, import_opening, not_configured,
};
use sub2api_operator::commands::oauth_openai::{
    extra_of, opening, progress, reported, run_once, target_emails, targets, writes, OAuthAction,
    OAuthOptions, OAuthRun, Target,
};
use sub2api_operator::config::Config;
use sub2api_operator::json::parse;
use sub2api_operator::mail::bind::BindReport;
use sub2api_operator::mail::MailConfig;
use sub2api_operator::models::Account;

fn account(id: i64, name: &str, credentials: &str, error: &str) -> Account {
    Account {
        id,
        name: name.into(),
        platform: if id == 9 { "other".into() } else { "OpenAI".into() },
        account_type: "oauth".into(),
        status: "active".into(),
        error_message: error.into(),
        expires_at: None,
        schedulable: id % 2 == 0,
        priority: None,
        credentials: parse(credentials).ok(),
        extra: parse(r#"{"k":1}"#).ok(),
    }
}

#[test]
fn long_names_are_shortened() {
    assert_eq!(ellipsize("abc", 3), "abc");
    assert_eq!(ellipsize("abcd", 3), "ab…");
    assert_eq!(ellipsize("验证码啊", 3), "验证…");
}

#[test]
fn accounts_are_listed() {
    let mut a = account(2, "b@x", "", "401 gone");
    a.expires_at = Some(86_400 * 4);
    let mut b = account(1, "a@x", "", "");
    b.expires_at = Some(86_400);
    b.status = "paused".into();
    let all = vec![a, b];
    let line = |id: i64, name: &str, status: &str, sch: &str, exp: &str, err: &str| {
        format!(
            "#{:<5} {:<22} plat={:<10} type={:<8} status={:<9} sch={} exp={:<8} err={}",
            id, name, "OpenAI", "oauth", status, sch, exp, err
        )
    };
    let now = 86_400_000 * 2;
    assert_eq!(
        list(&all, false, false, now),
        vec![
            "共 2 个账号（已按 total 翻页拉全）：\n".to_string(),
            line(2, "b@x", "active", "Y", "in 2d", "401 gone"),
            line(1, "a@x", "paused", "N", "1d ago", ""),
            "\n--- 汇总: 总 2 | active 1 | 有 error 1 | 含 401 的 1 ---".to_string(),
            "提示: 用 `accounts list --401` 只看报 401 的账号。".to_string(),
        ]
    );
    assert_eq!(
        list(&all, true, false, now),
        vec![
            "共 2 个账号，其中 1 个报 401：\n".to_string(),
            line(2, "b@x", "active", "Y", "in 2d", "401 gone"),
        ]
    );
    assert_eq!(list(&all, false, true, now), vec!["b@x", "a@x"]);
    assert_eq!(list(&all, true, true, now), vec!["b@x"]);
    assert_eq!(list(&[], true, true, now), vec!["（没有账号）"]);
    let calm = vec![account(1, "a@x", "", "")];
    let lines = list(&calm, false, false, now);
    assert_eq!(lines.len(), 3);
    assert!(lines[1].contains("exp=-        err="));
}

#[test]
fn accounts_are_grouped_by_number() {
    let all: Vec<Account> = [5, 1, 4, 2, 3].iter().map(|i| account(*i, "n", "", "")).collect();
    assert_eq!(sorted_ids(&all), vec![1, 2, 3, 4, 5]);
    assert_eq!(group_pages(&all, 2).unwrap(), vec![vec![1, 2], vec![3, 4], vec![5]]);
    assert_eq!(group_pages(&[], 2).unwrap(), Vec::<Vec<i64>>::new());
    for bad in [0, 21] {
        assert_eq!(group_pages(&all, bad).unwrap_err(), "每页大小必须在 1 到 20 之间");
    }
    assert!(group_pages(&all, 20).is_ok() && group_pages(&all, 1).is_ok());
    assert_eq!(group_accounts(&all, 3).unwrap().pages, vec![vec![1, 2, 3], vec![4, 5]]);
    assert!(group_accounts(&all, 0).is_err());
}

#[test]
fn pages_are_set_in_order() {
    let mut run = GroupRun::begin(vec![vec![1, 2], vec![3, 4], vec![5]]);
    assert_eq!(run.next(), GroupAction::Page(0, 1));
    run.page_took(&Ok(parse(r#"{"failed":0}"#).unwrap()));
    assert_eq!(run.next(), GroupAction::Page(1, 2));
    run.page_took(&Err("404".into()));
    assert!(run.details.is_empty());
    assert_eq!(run.next(), GroupAction::Account(3, 2));
    run.account_took(&Err("x".into()));
    assert_eq!(run.next(), GroupAction::Account(4, 2));
    run.account_took(&Ok(()));
    assert_eq!(run.next(), GroupAction::Page(2, 3));
    run.page_took(&Err("404".into()));
    assert!(run.details.is_empty());
    run.account_took(&Ok(()));
    assert_eq!(run.next(), GroupAction::Done);
    let rows: Vec<(i64, i64, bool, &str)> = run
        .outcomes
        .iter()
        .map(|o| (o.page, o.priority, o.ok, o.message.as_str()))
        .collect();
    assert_eq!(
        rows,
        vec![
            (1, 1, true, "第 1 页（2 个账号）优先级已设为 1"),
            (2, 2, false, "第 2 页有 1 个账号设置失败：#3: x（批量原因：404）"),
            (3, 3, true, "第 3 页（1 个账号）优先级已设为 3（批量端点不可用，已逐个写回）"),
        ]
    );
    assert_eq!(run.outcomes[1].account_ids, vec![3, 4]);
    let r = group_result(2, 5, run.outcomes);
    assert_eq!((r.page_size, r.total, r.pages), (2, 5, 3));
    assert_eq!(account_failed(3, "x"), "#3: x");
}

#[test]
fn partly_failed_pages_are_reported() {
    let mut run = GroupRun::begin(vec![vec![1], vec![2]]);
    run.page_took(&Ok(parse(r#"{"failed":1,"results":[{"id":1}]}"#).unwrap()));
    run.page_took(&Ok(parse(r#"{"failed":2}"#).unwrap()));
    assert_eq!(run.outcomes[0].message, "第 1 页有 1 个账号设置失败：[{\"id\":1}]");
    assert_eq!(run.outcomes[1].message, "第 2 页有 2 个账号设置失败：无明细");
    assert!(!run.outcomes[0].ok && !run.outcomes[1].ok);
}

#[test]
fn pasted_accounts_are_put_into_groups() {
    let body = |s: &str| normalize_batch_body(s, &[3, 4]).map(|j| j.show());
    assert_eq!(
        body(r#"{"accounts":[{"name":"a","group_ids":[1]},null,7]}"#).unwrap(),
        r#"{"accounts":[{"group_ids":[3,4],"name":"a"},7]}"#
    );
    assert_eq!(body(r#"[{"a":1}]"#).unwrap(), r#"{"accounts":[{"a":1,"group_ids":[3,4]}]}"#);
    assert_eq!(body(r#"{"z":1}"#).unwrap(), r#"{"accounts":[{"group_ids":[3,4],"z":1}]}"#);
    assert_eq!(body("  ").unwrap_err(), "转换结果为空，无法导入");
    assert_eq!(
        body("{").unwrap_err(),
        "转换结果不是合法 JSON：EOF while parsing an object at line 1 column 1"
    );
    assert_eq!(body(r#"{"accounts":1}"#).unwrap_err(), "accounts 字段不是数组");
    assert_eq!(body("3").unwrap_err(), "转换结果不是账号数组或对象");
    assert_eq!(body("[null]").unwrap_err(), "没有可导入的账号（转换结果为空数组）");
}

#[test]
fn addresses_are_collected() {
    let all = vec![
        account(1, "z@x", "", ""),
        account(2, "n", r#"{"email":" a@x "}"#, ""),
        account(3, "a@x", r#"{"email":"  "}"#, ""),
        account(4, "nobody", "", ""),
        account(9, "c@x", "", ""),
    ];
    assert_eq!(collect_emails(&all, true), vec!["a@x", "z@x"]);
    assert_eq!(collect_emails(&all, false), vec!["a@x", "c@x", "z@x"]);
    let cfg = MailConfig { base_url: "u".into(), username: "n".into(), password: "p".into() };
    assert_eq!(import_emails(&all, &cfg, true).unwrap(), vec!["a@x", "z@x"]);
    assert_eq!(import_emails(&all[3..4], &cfg, true).unwrap_err(), "账号列表里没有可导入的邮箱");
    assert_eq!(import_emails(&all, &MailConfig::default(), true).unwrap_err(), not_configured());
    assert_eq!(not_configured(), "未配置收码站（请在左侧「收码站」里填地址、用户名、密码并保存）");
    assert_eq!(import_opening(3, 2), "共 3 个账号，提取出 2 个邮箱，开始绑定到收码站…");
}

#[test]
fn unknown_addresses_are_listed_in_part() {
    let mut r = BindReport::begin(12);
    r.bound = 1;
    r.already_bound = 2;
    assert_eq!(import_closing(&r), vec!["绑定完成：新增 1 · 已存在 2 · 总库未命中 0（共 12）"]);
    r.missing = (0..8).map(|i| i.to_string()).collect();
    assert_eq!(
        import_closing(&r)[1],
        "以下邮箱不在收码站总库里，需等总库更新：0、1、2、3、4、5、6、7"
    );
    r.missing.push("8".into());
    assert_eq!(
        import_closing(&r)[1],
        "以下邮箱不在收码站总库里，需等总库更新：0、1、2、3、4、5、6、7 …"
    );
}

fn config() -> Config {
    Config {
        base_url: "b".into(),
        email: "e".into(),
        password: "p".into(),
        totp_secret: None,
        verify_tls: true,
        gate_url: "".into(),
        cpa_url: "".into(),
        max_seconds: 1,
        mail_base_url: "".into(),
        mail_username: "".into(),
        mail_password: "".into(),
        openai_headed: true,
        openai_max_seconds: 99,
    }
}

#[test]
fn options_follow_the_settings() {
    let o = OAuthOptions::from_config(&config());
    assert!(o.yes && o.headed && o.max_seconds == 99 && o.only_emails.is_none() && o.engine.is_none());
    assert_eq!(o.mode(), BrowserMode::StealthHeaded);
    assert_eq!(OAuthOptions { headed: false, ..o }.mode(), BrowserMode::Stealth);
}

#[test]
fn targets_are_asked_for_or_refused() {
    let all = vec![
        account(1, "A@x", "", "401"),
        account(2, "n", r#"{"email":"B@x"}"#, ""),
        account(3, "no address", "", "401"),
    ];
    let ids = |only: Option<Vec<String>>| {
        targets(&all, &only).map(|v| v.iter().map(|t| t.account_id).collect::<Vec<_>>())
    };
    assert_eq!(ids(None).unwrap(), vec![1]);
    assert_eq!(ids(Some(vec![])).unwrap(), vec![1]);
    assert_eq!(ids(Some(vec![" b@X ".into()])).unwrap(), vec![2]);
    assert_eq!(
        ids(Some(vec!["z@x".into()])).unwrap_err(),
        "没有需要授权的账号（勾选的邮箱都没匹配到）。"
    );
    assert_eq!(
        targets(&all[1..2], &None).unwrap_err(),
        "没有需要授权的账号（当前没有 401/异常账号）。"
    );
    let t = targets(&all, &None).unwrap();
    assert_eq!(target_emails(&t), vec!["A@x"]);
    let mut o = OAuthOptions::from_config(&config());
    assert_eq!(run_once(&all, &o).unwrap().targets[0].account_id, 1);
    o.only_emails = Some(vec!["z@x".into()]);
    assert_eq!(run_once(&all, &o).err().unwrap(), "没有需要授权的账号（勾选的邮箱都没匹配到）。");
    assert_eq!(opening(&vec!["a".into(), "b".into()]), "本次需要授权的邮箱：a、b");
    assert_eq!(progress(0, 2, "a"), "—— [1/2] 处理 a ——");
    assert_eq!(extra_of(&all, 2).unwrap().show(), r#"{"k":1}"#);
    assert!(extra_of(&all, 7).is_none());
}

fn done(code: Option<&str>) -> OAuthOutcome {
    OAuthOutcome {
        code: code.map(|s| s.to_string()),
        status: if code.is_some() { "done".into() } else { "blocked".into() },
        needs_human: false,
        message: "m".into(),
        log: vec![],
    }
}

#[test]
fn sign_ins_run_in_order() {
    let t = |id: i64| Target { account_id: id, email: format!("{}@x", id), account_type: "oauth".into() };
    let mut run = OAuthRun::begin((1..=6).map(t).collect(), true);
    let link = || parse(r#"{"auth_url":"u","session_id":"s"}"#);
    assert!(matches!(run.next(false), OAuthAction::Generate(0)));
    assert!(matches!(run.next(true), OAuthAction::Done));
    run.generated(&Err("e".into()));
    run.generated(&parse("{}"));
    run.generated(&link());
    match run.next(true) {
        OAuthAction::Browse(2, u) => assert_eq!(u, "u"),
        _ => panic!("no browser"),
    }
    run.browsed(Err("b".into()));
    run.generated(&link());
    run.browsed(Ok(done(None)));
    run.generated(&link());
    run.browsed(Ok(done(Some("c"))));
    match run.next(false) {
        OAuthAction::Exchange(4, s, c) => assert_eq!((s.as_str(), c.as_str()), ("s", "c")),
        _ => panic!("no exchange"),
    }
    run.exchanged(Err("x".into()), &None);
    run.generated(&link());
    run.browsed(Ok(done(Some("c"))));
    run.exchanged(parse(r#"{"refresh_token":"r"}"#), &parse("7").ok());
    assert!(matches!(run.next(false), OAuthAction::Done));
    let rows: Vec<(i64, bool, &str, &str)> = run
        .outcomes
        .iter()
        .map(|o| (o.account_id, o.ok, o.stage.as_str(), o.message.as_str()))
        .collect();
    assert_eq!(
        rows,
        vec![
            (1, false, "error", "生成授权链接失败：e"),
            (2, false, "error", "授权链接响应异常：{}"),
            (3, false, "error", "浏览器流程失败：b"),
            (4, false, "blocked", "m"),
            (5, false, "error", "换取凭证失败：x"),
            (6, true, "done", "已换回凭证"),
        ]
    );
    assert_eq!(run.outcomes[5].line(), "6@x → ✓ 已换回凭证");
    assert_eq!(run.outcomes[3].line(), "4@x → ✗ m");
    assert_eq!(run.plans.len(), 1);
    assert_eq!(run.plans[0].account_id, 6);
    assert_eq!(run.plans[0].credentials.show(), r#"{"refresh_token":"r"}"#);
    assert_eq!(run.plans[0].extra.show(), "7");
    assert!(run.plans[0].preview.is_empty());
    assert!(writes(true, &run.plans) && !writes(false, &run.plans) && !writes(true, &vec![]));

    let mut dry = OAuthRun::begin((1..=2).map(t).collect(), false);
    dry.generated(&link());
    dry.browsed(Ok(done(Some("c"))));
    dry.generated(&link());
    dry.browsed(Ok(done(None)));
    assert!(matches!(dry.next(false), OAuthAction::Done));
    assert!(dry.plans.is_empty());
    let ends: Vec<(bool, &str)> = dry.outcomes.iter().map(|o| (o.ok, o.stage.as_str())).collect();
    assert_eq!(ends, vec![(true, "done"), (false, "blocked")]);

    let over = reported(dry, Err("未配置收码站".into()), vec![]);
    assert_eq!(over.emails, vec!["1@x", "2@x"]);
    assert!(over.imported.is_none() && over.applied.is_empty());
    assert_eq!(over.import_error.as_deref(), Some("未配置收码站"));
    assert_eq!(over.outcomes.len(), 2);
    let cut = reported(OAuthRun::begin((1..=2).map(t).collect(), true), Ok(BindReport::begin(2)), vec![]);
    assert_eq!(cut.imported.unwrap().total, 2);
    assert!(cut.import_error.is_none() && cut.outcomes.is_empty() && cut.emails.len() == 2);
}

#[test]
fn sign_ins_end_at_known_stages() {
    assert!(done(Some("c")).is_wf() && done(None).is_wf());
    for s in ["done", "need_code", "need_password", "blocked", "timeout", "cancelled"] {
        assert!(OAuthOutcome { status: s.into(), ..done(None) }.is_wf());
        assert_eq!(OAuthOutcome { status: s.into(), ..done(Some("c")) }.is_wf(), s == "done");
    }
    assert!(!OAuthOutcome { status: "error".into(), ..done(None) }.is_wf());
    assert!(OAuthFlow::begin().stopped(0, 1, true).unwrap().is_wf());
    assert!(hard_timeout(9).is_wf());
}
