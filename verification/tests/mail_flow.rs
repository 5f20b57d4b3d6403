use sub2api_operator::http::{Method, Reply};
use sub2api_operator::json::parse;
use sub2api_operator::mail::bind::{
    each_once, unique_emails, BindItem, BindReport, BindRun, BindSummary,
};
use sub2api_operator::mail::code::{
    code_mentioned, code_near_keyword, mentions_code, token_digits,
};
use sub2api_operator::mail::html::{decode_entities, html_to_text, tags_stripped};
use sub2api_operator::mail::record::{
    as_array, mailbox_id, openai_named, parse_time_epoch, records_of, snapshot_for, MailRecord,
};
use sub2api_operator::mail::service::{token_in, MailClient};
use sub2api_operator::mail::wait::{
    fresh_records, no_mailbox_line, timed_out_line, usable_baseline, CodeWait, WaitStep,
    CHECK_EVERY,
};
use sub2api_operator::mail::{extract_code_from_text, pick_code, MailBaseline, MailConfig};

fn mail(id: i64, subject: &str, content: &str, time: &str) -> MailRecord {
    MailRecord {
        id,
        email_id: 7,
        sender: "ChatGPT <otp@tm1.openai.com>".into(),
        subject: subject.into(),
        content: content.into(),
        received_time: time.into(),
        folder: "Inbox".into(),
    }
}

fn reply(status: u16, text: &str) -> Reply {
    Reply {
        status,
        status_line: format!("{} X", status),
        text: text.to_string(),
    }
}

fn client() -> MailClient {
    MailClient {
        root: "https://m.example/api".into(),
        token: "tok".into(),
    }
}

#[test]
fn tags_and_hidden_elements_are_stripped() {
    assert_eq!(tags_stripped("a<b>c</b>d"), "a c d");
    assert_eq!(tags_stripped("x<STYLE a=1>p{color:#202123}</Style >y"), "x y");
    assert_eq!(tags_stripped("x<script>1<2</scrip></script\n>y"), "x y");
    assert_eq!(tags_stripped("x<style>never closed"), "x ");
    assert_eq!(tags_stripped("x<b unclosed"), "x ");
    assert_eq!(tags_stripped("x</style>gone</style>y"), "x y");
    assert_eq!(tags_stripped("plain"), "plain");
    assert!(!tags_stripped("<<a>><b").contains('<'));
}

#[test]
fn entities_are_decoded() {
    assert_eq!(decode_entities("a&nbsp;b&amp;lt;&lt;&gt;&quot;&#39;&apos;"), "a b<<>\"''");
    assert_eq!(decode_entities("&rsquo;&lsquo;&hellip;&mdash;&ndash;&copy;"), "''…—–©");
    assert_eq!(decode_entities("&#65;&#x4e2d;&#X41;"), "A中A");
    assert_eq!(decode_entities("&#xD800;&#12a;&#99999999999;&#;&#65"), "&#xD800;&#12a;&#99999999999;&#;&#65");
    assert_eq!(decode_entities("&#1114112;&#1114111;"), "&#1114112;\u{10ffff}");
}

#[test]
fn plain_text_has_single_spaces() {
    assert_eq!(html_to_text("<p> a \n b</p>&nbsp;<p>c</p>"), "a b c");
    assert_eq!(html_to_text("<br>"), "");
}

#[test]
fn codes_stand_near_keywords() {
    assert_eq!(code_near_keyword("Your CODE: 123456").as_deref(), Some("123456"));
    assert_eq!(code_near_keyword("654321 is your 验证码").as_deref(), Some("654321"));
    assert_eq!(code_near_keyword("654321 alone"), None);
    assert_eq!(code_near_keyword("code 1234567"), None);
    let far = format!("code {} 123456", "x".repeat(150));
    assert_eq!(code_near_keyword(&far), None);
    let near = format!("code {} 123456", "x".repeat(100));
    assert_eq!(code_near_keyword(&near).as_deref(), Some("123456"));
    let first = "verification 111111 ... verification code 222222";
    assert_eq!(code_near_keyword(first).as_deref(), Some("111111"));
    assert_eq!(token_digits("12 345 6789", 3, 4).as_deref(), Some("345"));
}

#[test]
fn only_code_mail_yields_loose_codes() {
    assert!(mentions_code("Your LOGIN Code") && mentions_code("校验码") && !mentions_code("Access"));
    assert!(mentions_code("one-time code") && mentions_code("ONE-TIME CODE"));
    assert_eq!(
        extract_code_from_text("Your verification", "use 4821").as_deref(),
        Some("4821")
    );
    assert_eq!(extract_code_from_text("Deactivated", "order 12345678"), None);
    assert_eq!(extract_code_from_text("Your verification", "since 2026"), None);
}

#[test]
fn times_are_read_in_several_formats() {
    assert_eq!(parse_time_epoch(" 1970-01-01 00:01:00+00:00 "), Some(60));
    assert_eq!(parse_time_epoch("1970-01-01T01:00:00+01:00"), Some(0));
    assert_eq!(parse_time_epoch("1970-01-01 00:00:05.25+00:00"), Some(5));
    assert_eq!(parse_time_epoch("1970-01-01 00:00:07"), Some(7));
    assert_eq!(parse_time_epoch("1970-01-01T00:00:08"), Some(8));
    assert_eq!(parse_time_epoch("1970-01-01"), None);
}

#[test]
fn newest_code_mail_is_picked() {
    let a = mail(1, "verification code", "code 111111", "2026-01-01 00:00:00+00:00");
    let b = mail(2, "verification code", "code 222222", "2026-01-02 00:00:00+00:00");
    let c = mail(3, "verification code", "code 333333", "2026-01-02 00:00:00+00:00");
    let none = mail(4, "verification code", "soon", "2026-01-03 00:00:00+00:00");
    let undated = mail(9, "verification code", "code 999999", "");
    assert_eq!(pick_code(&[&a, &b, &undated]).unwrap().0, "222222");
    assert_eq!(pick_code(&[&b, &c, &none]).unwrap().0, "333333");
    let twin = mail(3, "verification code", "code 444444", "2026-01-02 00:00:00+00:00");
    assert_eq!(pick_code(&[&twin, &c]).unwrap().0, "444444");
    assert_eq!(pick_code(&[&none]), None);
    let mut news = mail(5, "ChatGPT news", "your code 555555", "2026-02-01 00:00:00+00:00");
    assert_eq!(pick_code(&[&news, &a]).unwrap().0, "111111");
    assert_eq!(pick_code(&[&news]).unwrap().1, "ChatGPT news");
    news.sender = "shop@example.com".into();
    news.subject = "news".into();
    assert_eq!(pick_code(&[&news]), None);
}

#[test]
fn marked_mail_is_never_new() {
    let recs = vec![
        mail(5, "verification code", "code 111111", "2026-01-01 00:00:00+00:00"),
        mail(9, "verification code", "code 222222", "2025-01-01 00:00:00+00:00"),
        mail(7, "verification code", "code 333333", "nonsense"),
    ];
    let base = snapshot_for(7, &recs);
    assert_eq!(base.max_record_id, 9);
    assert_eq!(base.max_received_epoch, 1767225600);
    assert_eq!(base.existing, 3);
    assert_eq!(base.email_id, 7);
    for r in &recs {
        assert!(!base.is_new(r));
    }
    assert!(fresh_records(&base, &recs).is_empty());
    assert!(base.is_new(&mail(10, "s", "c", "")));
    let text = r#"[{"id":3,"received_time":"1970-01-01 00:00:09+00:00"}]"#;
    let taken = MailClient::snapshot(5, &reply(200, text)).unwrap();
    assert_eq!((taken.email_id, taken.max_record_id, taken.max_received_epoch), (5, 3, 9));
    assert!(MailClient::snapshot(5, &reply(404, text)).is_err());
    let empty = snapshot_for(7, &vec![]);
    assert_eq!((empty.max_record_id, empty.max_received_epoch), (0, 0));
    assert!(empty.is_new(&mail(10, "s", "c", "2026-01-01 00:00:00+00:00")));
    assert!(empty.is_new(&mail(0, "s", "c", "")));
    assert_eq!(fresh_records(&empty, &recs).len(), 3);
    let unnumbered = snapshot_for(7, &vec![mail(0, "s", "c", ""), mail(-4, "s", "c", "")]);
    assert!(!unnumbered.is_new(&mail(0, "s", "c", "")));
    assert!(!unnumbered.is_new(&mail(1, "s", "c", "")));
    assert!(!unnumbered.is_new(&mail(0, "s", "c", "1970-01-01 00:00:09+00:00")));
    let untimed = MailBaseline { email_id: 7, max_record_id: 100, max_received_epoch: 0, existing: 1 };
    assert!(!untimed.is_new(&mail(100, "s", "c", "2026-01-01 00:00:00+00:00")));
    assert!(untimed.is_new(&mail(101, "s", "c", "")));
    let timed = MailBaseline { max_record_id: 0, max_received_epoch: 9, ..untimed };
    assert!(!timed.is_new(&mail(5, "s", "c", "1970-01-01 00:00:09+00:00")));
    assert!(timed.is_new(&mail(5, "s", "c", "1970-01-01 00:00:10+00:00")));
}

#[test]
fn rows_are_found_in_replies() {
    assert_eq!(as_array(&parse("[1,2]").unwrap()).len(), 2);
    assert_eq!(as_array(&parse(r#"{"data":[1],"results":[1,2]}"#).unwrap()).len(), 1);
    assert_eq!(as_array(&parse(r#"{"data":{},"results":[1,2]}"#).unwrap()).len(), 2);
    assert_eq!(as_array(&parse("3").unwrap()).len(), 0);
    let recs = records_of(&parse(r#"[{"id":3,"subject":" s ","content":" c "},{}]"#).unwrap());
    assert_eq!((recs[0].id, recs[0].subject.as_str(), recs[0].content.as_str()), (3, "s", " c "));
    assert_eq!((recs[1].id, recs[1].sender.as_str()), (0, ""));
}

#[test]
fn mailboxes_are_found_by_address() {
    let list = as_array(&parse(r#"[{"email":"X@y.z","id":1},{"email":" A@b.C ","id":2},{"email":"a@b.c","id":3},{"email":"n@o.id"}]"#).unwrap());
    assert_eq!(mailbox_id(&list, " a@B.c"), Some(2));
    assert_eq!(mailbox_id(&list, "n@o.id"), None);
    assert_eq!(mailbox_id(&list, "none@b.c"), None);
    let text = r#"{"data":[{"email":"a@b","id":4}]}"#;
    assert_eq!(MailClient::mailbox_id("A@b", &reply(200, text)), Ok(Some(4)));
    assert_eq!(MailClient::mailbox_id("c@b", &reply(200, text)), Ok(None));
    assert!(MailClient::mailbox_id("c@b", &reply(500, text)).is_err());
}

#[test]
fn mail_settings_must_be_filled_in() {
    let mut c = MailConfig {
        base_url: " https://m.example// ".into(),
        username: " u ".into(),
        password: "p".into(),
    };
    assert!(c.ready());
    assert_eq!(c.api_root(), "https://m.example/api");
    let q = MailClient::login_request(&c);
    assert_eq!(q.method, Method::Post);
    assert_eq!(q.url, "https://m.example/api/auth/login");
    assert_eq!(q.body.unwrap().show(), r#"{"password":"p","username":"u"}"#);
    c.password = "".into();
    assert!(!c.ready());
    c.password = " ".into();
    assert!(c.ready());
    c.username = " ".into();
    assert!(!c.ready());
}

#[test]
fn mail_login_takes_the_token() {
    let c = MailConfig { base_url: "https://m.example".into(), username: "u".into(), password: "p".into() };
    let a = MailClient::login(&c, &reply(200, r#"{"token":"t1"}"#)).unwrap();
    assert_eq!((a.root.as_str(), a.token.as_str()), ("https://m.example/api", "t1"));
    let b = MailClient::login(&c, &reply(201, r#"{"data":{"token":"t2"}}"#)).unwrap();
    assert_eq!(b.token, "t2");
    assert_eq!(
        MailClient::login(&c, &reply(200, "{}")).unwrap_err(),
        "收码站登录未返回 token（检查用户名/密码）"
    );
    assert_eq!(
        MailClient::login(&c, &reply(401, r#"{"e":1}"#)).unwrap_err(),
        "收码站登录失败 (401 X)：{\"e\":1}"
    );
}

#[test]
fn mail_requests_carry_the_token() {
    let c = client();
    let q = c.records_request(-3);
    assert_eq!(q.url, "https://m.example/api/emails/-3/mail_records");
    assert_eq!(q.bearer.as_deref(), Some("tok"));
    assert!(q.body.is_none());
    assert_eq!(c.check_request(5).body.unwrap().show(), "{}");
    assert_eq!(c.list_request().url, "https://m.example/api/emails");
    let b = c.bind_request(&vec!["a@b".into()]);
    assert_eq!(b.url, "https://m.example/api/mail-pool/batch-bind");
    assert_eq!(b.body.unwrap().show(), r#"{"emails":["a@b"]}"#);
    let many = c.batch_check_requests(&(0..101).collect());
    assert_eq!(many.len(), 2);
    assert_eq!(many[1].body.as_ref().unwrap().show(), r#"{"email_ids":[100]}"#);
    assert!(c.batch_check_requests(&vec![]).is_empty());
}

#[test]
fn busy_mailboxes_are_no_error() {
    assert_eq!(MailClient::check(5, &reply(202, "")), Ok(true));
    assert_eq!(MailClient::check(5, &reply(409, "")), Ok(false));
    assert_eq!(
        MailClient::check(5, &reply(500, "oops")),
        Err("/emails/5/check 返回 500 X：null".to_string())
    );
    assert_eq!(MailClient::batch_check(&reply(409, "")), Ok(()));
    assert_eq!(
        MailClient::batch_check(&reply(400, "{}")),
        Err("批量触发收信返回 400 X：{}".to_string())
    );
    assert_eq!(MailClient::accepted("/p", &reply(404, "1")).unwrap_err(), "/p 返回 404 X：1");
    assert!(MailClient::accepted("/p", &reply(204, "")).unwrap().is_null());
    assert_eq!(MailClient::records(1, &reply(200, r#"{"data":[{"id":4}]}"#)).unwrap()[0].id, 4);
    assert_eq!(MailClient::records(1, &reply(500, "")).unwrap_err(), "/emails/1/mail_records 返回 500 X：null");
    assert_eq!(MailClient::mail_records(1, &reply(200, "[{}]")).unwrap().len(), 1);
    assert!(MailClient::mail_records(1, &reply(300, "[{}]")).is_err());
    assert_eq!(MailClient::list_emails(&reply(200, "[1]")).unwrap().len(), 1);
    assert!(MailClient::list_emails(&reply(503, "[1]")).unwrap_err().starts_with("/emails 返回 503 X"));
}

#[test]
fn waiting_fetches_at_once_and_then_at_intervals() {
    let base = MailBaseline { email_id: 7, max_record_id: 9, max_received_epoch: 0, existing: 3 };
    let mut w = MailClient::wait_code(base);
    assert_eq!(w.opening(), "收码站 mailbox_id=7，历史邮件 3 封，只认之后到达的新邮件");
    assert_eq!(w.next(0, 100, false), WaitStep::CheckAndRead);
    assert_eq!(w.next(0, 100, true), WaitStep::Cancelled);
    assert_eq!(w.next(100, 100, true), WaitStep::TimedOut);
    let t = 10 * CHECK_EVERY;
    assert_eq!(
        w.checked(5, &Ok(true)).as_deref(),
        Some("已触发收信（收码站只在被触发时才去拉邮件）")
    );
    assert_eq!(w.checked(5, &Ok(true)), None);
    assert_eq!(w.checked(5, &Ok(false)), None);
    assert_eq!(w.checked(5, &Err("x".into())).as_deref(), Some("触发收信失败：x"));
    assert_eq!(w.next(4 + CHECK_EVERY, t, false), WaitStep::Read);
    assert_eq!(w.next(5 + CHECK_EVERY, t, false), WaitStep::CheckAndRead);
}

#[test]
fn waiting_takes_codes_of_new_mail_alone() {
    let base = MailBaseline { email_id: 7, max_record_id: 9, max_received_epoch: 0, existing: 3 };
    let mut w = MailClient::wait_code(base);
    let old = mail(9, "verification code", "code 111111", "");
    let (lines, code) = w.read(&vec![old.clone()]);
    assert_eq!(code, None);
    assert_eq!(lines, vec!["已触发收信，等待新邮件…（当前 1 封，暂无新件）"]);
    assert_eq!(w.read(&vec![old.clone()]).0, Vec::<String>::new());
    let soon = mail(10, "hello", "nothing", "");
    let (lines, code) = w.read(&vec![old.clone(), soon.clone()]);
    assert_eq!(code, None);
    assert_eq!(lines, vec!["新邮件：ChatGPT <otp@tm1.openai.com> | hello"]);
    let new = mail(11, "verification code", "code 222222", "");
    let (lines, code) = w.read(&vec![old, soon, new.clone()]);
    assert_eq!(code.as_deref(), Some("222222"));
    assert_eq!(
        lines,
        vec![
            "新邮件：ChatGPT <otp@tm1.openai.com> | verification code",
            "从「verification code」取到验证码：222222"
        ]
    );
    let mut fresh = CodeWait::begin(MailBaseline { max_record_id: 1, ..Default::default() });
    let (lines, _) = fresh.read(&vec![mail(10, "a", "b", ""), mail(10, "c", "d", "")]);
    assert_eq!(
        lines,
        vec!["新邮件：ChatGPT <otp@tm1.openai.com> | a", "收到 2 封新邮件，但还没解析出验证码"]
    );
}

#[test]
fn waiting_reports_its_end() {
    assert_eq!(timed_out_line(120), "等待验证码超时（120s）");
    assert_eq!(no_mailbox_line("a@b"), "收码站里没有邮箱 a@b（请先在账号列表执行「导入邮箱」）");
    let b = MailBaseline { email_id: 4, ..Default::default() };
    assert!(usable_baseline(&Some(b.clone()), 4));
    assert!(!usable_baseline(&Some(b), 5));
    assert!(!usable_baseline(&None, 4));
}

fn item(email: &str, id: Option<i64>, status: &str) -> BindItem {
    BindItem { email: email.into(), email_id: id, line: None, message: "".into(), status: status.into() }
}

#[test]
fn addresses_are_sent_once() {
    let list: Vec<String> = [" A@b ", "a@B", "", "  ", "c@d"].iter().map(|s| s.to_string()).collect();
    assert_eq!(unique_emails(&list), vec!["a@b", "c@d"]);
    let many: Vec<String> = (0..250).map(|i| format!("u{}@x", i)).collect();
    let run = MailClient::bind_emails(&many);
    assert_eq!(run.report.total, 250);
    assert_eq!(run.batches.iter().map(|b| b.len()).collect::<Vec<_>>(), vec![100, 100, 50]);
}

#[test]
fn bound_addresses_are_counted() {
    let mut run = BindRun::begin(&vec!["a@b".into()]);
    assert_eq!(run.next().unwrap(), &vec!["a@b".to_string()]);
    let items = vec![
        item("B@x", Some(2), "bound"),
        item("a@x", Some(1), "already_bound"),
        item("c@x", None, "whatever"),
        item(" b@X", Some(3), "bound"),
    ];
    let summary = BindSummary { bound: 9, already_bound: 9, not_found: 9 };
    assert!(run.report.has_room(&items, &Some(summary.clone())));
    run.took(&items, &Some(summary.clone()));
    assert!(run.next().is_none());
    let r = &run.report;
    assert_eq!((r.bound, r.already_bound, r.not_found, r.batches), (2, 1, 1, 1));
    assert_eq!(r.newly_bound, vec!["B@x", " b@X"]);
    assert_eq!(r.missing, vec!["c@x"]);
    assert_eq!(r.email_ids, vec![("a@x".to_string(), 1), ("b@x".to_string(), 3)]);

    let mut first = BindReport::begin(1);
    first.add_batch(&vec![item("a@x", None, "already_bound")], &Some(summary.clone()));
    assert_eq!((first.bound, first.already_bound, first.not_found), (0, 1, 0));
    first.add_batch(&vec![], &Some(summary.clone()));
    assert_eq!((first.bound, first.already_bound, first.not_found), (9, 10, 9));
    assert!(first.newly_bound.is_empty() && first.missing.is_empty());
    first.add_batch(&vec![], &None);
    assert_eq!((first.bound, first.already_bound, first.not_found, first.batches), (9, 10, 9, 3));
}

#[test]
fn summaries_of_several_batches_add_up() {
    let mut run = BindRun::begin(&(0..250).map(|i| format!("u{}@x", i)).collect());
    run.took(&vec![], &Some(BindSummary { bound: 90, already_bound: 7, not_found: 3 }));
    run.took(&vec![item("u100@x", Some(4), "bound")], &Some(BindSummary::default()));
    run.took(&vec![], &Some(BindSummary { bound: 40, already_bound: 6, not_found: 4 }));
    assert!(run.next().is_none());
    let r = &run.report;
    assert_eq!((r.bound, r.already_bound, r.not_found, r.batches), (131, 13, 7, 3));
    assert_eq!(r.newly_bound, vec!["u100@x"]);
    assert!(r.missing.is_empty());
}

#[test]
fn counts_that_do_not_fit_are_told() {
    let mut run = BindRun::begin(&(0..101).map(|i| format!("u{}@x", i)).collect());
    let full = BindSummary { bound: i64::MAX, already_bound: 0, not_found: 0 };
    run.took(&vec![], &Some(full));
    assert_eq!(run.report.batches, 1);
    let one = BindSummary { bound: 1, already_bound: 0, not_found: 0 };
    let less = BindSummary { bound: -1, already_bound: 0, not_found: i64::MIN };
    assert!(run.report.has_room(&vec![], &None));
    assert!(run.report.has_room(&vec![], &Some(BindSummary::default())));
    assert!(!run.report.has_room(&vec![], &Some(one.clone())));
    assert!(!run.report.has_room(&vec![item("u100@x", None, "bound")], &Some(one)));
    assert!(run.report.has_room(&vec![], &Some(less.clone())));
    run.took(&vec![], &Some(less));
    assert_eq!((run.report.bound, run.report.not_found), (i64::MAX - 1, i64::MIN));
}

#[test]
fn lower_case_texts_are_judged() {
    assert!(code_mentioned("your code") && !code_mentioned("Your Code"));
    assert!(openai_named("x chatgpt") && !openai_named("ChatGPT"));
    let list = ["b", "", "a", "b"].iter().map(|s| s.to_string()).collect();
    assert_eq!(each_once(list), vec!["b", "a"]);
    let token = |s: &str| token_in(&parse(s).unwrap());
    assert_eq!(token(r#"{"token":"t","data":{"token":"u"}}"#).as_deref(), Some("t"));
    assert_eq!(token(r#"{"token":1,"data":{"token":"u"}}"#).as_deref(), Some("u"));
    assert_eq!(token("[]"), None);
}
