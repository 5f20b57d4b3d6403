use sub2api_operator::commands::reauth::once::OnceResult;
use sub2api_operator::commands::reauth::plan::{build_plan, ApplyOutcome, ApplyReport};
use sub2api_operator::json::parse;
use sub2api_operator::models::Account;
use sub2api_operator::store::Credential;
use sub2api_operator::web::{
    accepted, creds_report, esc, only_email, page_html, refused, says_yes, summarize, Job, PORT,
};

#[test]
fn one_task_runs_at_a_time() {
    let mut j = Job::default();
    j.start().unwrap();
    j.note("a".into());
    assert_eq!(j.start().unwrap_err(), "已有任务在运行中，请等它结束");
    assert_eq!(j.log, vec!["a"]);
    assert_eq!(j.status().show(), r#"{"error":null,"log":["a"],"result":null,"running":true}"#);
    j.finish(Err("e".into()));
    assert_eq!(j.status().show(), r#"{"error":"e","log":["a"],"result":null,"running":false}"#);
    j.start().unwrap();
    assert_eq!(j.status().show(), r#"{"error":null,"log":[],"result":null,"running":true}"#);
    j.finish(Ok("r".into()));
    assert_eq!(j.status().show(), r#"{"error":null,"log":[],"result":"r","running":false}"#);
    j.start().unwrap();
    let why = j.no_config();
    assert!(why.starts_with("缺少可用的 config.toml（需含 base_url/email/password）。请在启动"));
    assert_eq!(j.error.as_deref(), Some(why.as_str()));
    assert!(!j.running);
}

#[test]
fn forms_are_read() {
    for yes in ["1", "on", "true", "yes"] {
        assert!(says_yes(yes));
    }
    assert!(!says_yes("") && !says_yes("Yes") && !says_yes("0"));
    assert_eq!(only_email("  "), None);
    assert_eq!(only_email(" a@b ").as_deref(), Some("a@b"));
}

#[test]
fn answers_are_documents() {
    assert_eq!(accepted().show(), r#"{"ok":true}"#);
    assert_eq!(refused("x").show(), r#"{"error":"x","ok":false}"#);
    let c = Credential { cdk: "c".into(), updated_at: "t".into() };
    assert_eq!(creds_report(&Ok(Some(c))).show(), r#"{"cdk":"c","updated_at":"t"}"#);
    assert_eq!(creds_report(&Ok(None)).show(), r#"{"cdk":"","updated_at":""}"#);
    assert_eq!(creds_report(&Err("e".into())).show(), r#"{"error":"e"}"#);
    assert_eq!(PORT, 7878);
}

#[test]
fn pages_escape_what_they_hold() {
    assert_eq!(esc("<a&b>&lt;"), "&lt;a&amp;b&gt;&amp;lt;");
    let p = page_html("<m>", "<c>", false);
    assert!(p.starts_with("<!doctype html>") && p.ends_with("</html>"));
    assert!(p.contains("<div class=\"banner\">&lt;m&gt;</div>"));
    assert!(p.contains("name=\"cdk\" value=\"&lt;c&gt;\" placeholder"));
    assert!(p.contains("<div class=\"banner warn\">⚠️ 未找到可用的 config.toml"));
    assert!(p.contains("async function poll() {"));
    let q = page_html("", "", true);
    assert!(!q.contains("<div class=\"banner\">") && !q.contains("<div class=\"banner warn\">"));
}

fn result(report: ApplyReport) -> OnceResult {
    OnceResult {
        emails: vec!["a@b".into(), "c@d".into()],
        raw_len: 12,
        report,
        banned_emails: vec![],
        deleted: vec![],
    }
}

#[test]
fn results_are_summarised() {
    let account = Account {
        id: 4,
        name: "a@b".into(),
        platform: "".into(),
        account_type: "oauth".into(),
        status: "".into(),
        error_message: "".into(),
        expires_at: None,
        schedulable: true,
        priority: None,
        credentials: parse("{}").ok(),
        extra: None,
    };
    let raw = r#"[{"email":"a@b","credentials":{}},{}]"#;
    let report = build_plan(&[account], raw, None, None).unwrap();
    let mut r = result(report);
    assert_eq!(
        summarize(&r, false),
        "重授权邮箱：a@b, c@d\n结果长度：12 字符\n（预览）匹配 1 个账号，未写回\n  #4 a@b\n跳过：(某项缺 email/name，无法匹配)\n"
    );
    r.report.skipped.clear();
    r.report.outcomes = vec![
        ApplyOutcome { account_id: 4, email: "a@b".into(), ok: true, message: "m".into() },
        ApplyOutcome { account_id: 5, email: "c@d".into(), ok: false, message: "why".into() },
    ];
    assert_eq!(
        summarize(&r, true),
        "重授权邮箱：a@b, c@d\n结果长度：12 字符\n写回结果：成功 1 / 失败 1\n  #4 a@b 成功\n  #5 c@d why\n"
    );
}
