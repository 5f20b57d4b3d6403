use sub2api_operator::browser::cdk::{
    check_next, check_refused, check_result, merge_inputs, merge_line, merge_next, merge_refused,
    merge_result, merge_step, parse_nums, MergeStep,
};
use sub2api_operator::browser::engine::{
    browser_candidates, check_engines, chrome_version, detect_executable, push_engine_paths,
    BrowserMode, Found,
};
use sub2api_operator::browser::fetch::{
    convert_next, converted, fetch_refused, fetch_report, holds_token, number_after, parse_emails,
    pick_clipboard, poll_step, Counts, Fetched, Poll, PollReading, PollStep,
};
use sub2api_operator::browser::gate::{
    entry_step, gate_report, is_entered, open_report, EntryStep, GateSide,
};
use sub2api_operator::browser::oauth::{
    callback_line, code_in_callback, hard_timeout, key_delay, settle_time, CodeStep, LookStep,
    OAuthFlow, MILLI, SECOND,
};
use sub2api_operator::browser::script::{
    first_selector, js_clear, js_click, js_click_text, js_enabled, js_fill, js_input_value,
    js_set_input, js_text, js_visible, JS_EXTRACT_BANNED, JS_MARKERS, JS_OAUTH_STATE,
};
use sub2api_operator::json::{parse, Json};

fn found(list: &[(&str, &str)]) -> Vec<Found> {
    list.iter()
        .map(|(n, p)| Found { name: n.to_string(), path: p.to_string() })
        .collect()
}

#[test]
fn candidates_follow_the_engine() {
    let f = found(&[("google-chrome", "/g"), ("chromium", "/c"), ("brave", "/b"), ("microsoft-edge", "/e")]);
    let chrome = vec![
        "/g",
        "/Applications/Google Chrome.app/Contents/MacOS/Google Chrome",
        "/usr/bin/google-chrome",
    ];
    let chromium = vec![
        "/c",
        "/usr/bin/chromium",
        "/usr/bin/chromium-browser",
        "/snap/bin/chromium",
        "/Applications/Chromium.app/Contents/MacOS/Chromium",
    ];
    assert_eq!(browser_candidates(Some("CHROME"), None, &f), chrome);
    let edge = vec!["/e", "/Applications/Microsoft Edge.app/Contents/MacOS/Microsoft Edge"];
    let all = [chromium.clone(), chrome.clone(), edge.clone()].concat();
    assert_eq!(browser_candidates(None, Some("  "), &f), all);
    assert_eq!(browser_candidates(Some(""), Some(" /x "), &f), [vec!["/x"], all].concat());
    assert_eq!(
        browser_candidates(Some("Chromium"), None, &f),
        [chromium.clone(), chrome.clone()].concat()
    );
    assert_eq!(browser_candidates(Some("edge"), None, &f), edge);
    assert_eq!(browser_candidates(Some("msedge"), None, &f), edge);
    assert_eq!(browser_candidates(Some("brave"), None, &f), [vec!["/b"], chromium, chrome].concat());
}

#[test]
fn the_first_existing_candidate_is_chosen() {
    let c: Vec<String> = vec!["/a".into(), "/b".into(), "/c".into()];
    assert_eq!(detect_executable(None, &c, &vec![false, true, true]).unwrap(), "/b");
    assert_eq!(
        detect_executable(Some("my\"e"), &c, &vec![false; 3]).unwrap_err(),
        "找不到可用的浏览器引擎（engine=\"my\\\"e\"）。已尝试：/a、/b、/c。可设置环境变量 SUB2OP_BROWSER=<浏览器可执行文件路径> 指定。"
    );
    assert!(detect_executable(None, &c, &vec![false; 3]).unwrap_err().contains("engine=\"\""));
    assert_eq!(
        check_engines(&Ok("/a".into()), &Err("no".into())).show(),
        r#"{"chrome":true,"chromeError":null,"chromePath":"/a","chromium":false,"chromiumError":"no","chromiumPath":null}"#
    );
}

#[test]
fn modes_differ_in_window_and_pace() {
    assert!(!BrowserMode::Headless.headed() && !BrowserMode::Headless.stealth());
    assert!(!BrowserMode::Stealth.headed() && BrowserMode::Stealth.stealth());
    assert!(BrowserMode::StealthHeaded.headed() && BrowserMode::StealthHeaded.organic());
    assert_eq!(BrowserMode::Headless.starting(), "启动浏览器（模式：无头）");
    assert_eq!(BrowserMode::Stealth.starting(), "启动浏览器（模式：有机隐身（无头））");
}

#[test]
fn versions_are_read() {
    assert_eq!(
        chrome_version("Google Chrome 152.0.7000.1 \n"),
        Some(("152".to_string(), "152.0.7000.1".to_string()))
    );
    assert_eq!(chrome_version("  "), None);
}

#[test]
fn scripts_hold_quoted_values() {
    assert_eq!(
        js_click("#go\""),
        r##"(() => { const el = document.querySelector("#go\""); if (!el) return false; el.click(); return true; })()"##
    );
    assert!(js_fill("#a", "x\ny").contains("(\"#a\"); if (!el) return false; el.value = \"x\\ny\"; el.dispatchEvent"));
    assert!(js_visible("#v").starts_with("(() => { const el = document.querySelector(\"#v\"); if (!el) return false; if (el.hasAttribute('hidden'))"));
    assert!(js_text("#t").ends_with("return el ? (el.textContent || '') : ''; })()"));
    assert!(js_input_value("#t").contains("(el.value || '')"));
    assert!(js_enabled("#t").contains("!el.disabled"));
    assert!(js_clear("#t").contains("el.value = ''"));
    assert!(js_set_input("#t", "v").contains("setter.call(el, \"v\")"));
    assert!(js_click_text("继续").starts_with("(() => { const want = \"继续\"; const els"));
    assert!(JS_MARKERS.contains("'newLeft'") && JS_OAUTH_STATE.contains("cfTitle"));
    assert!(JS_EXTRACT_BANNED.contains("own.length !== 1"));
    assert_eq!(first_selector(" , input[a] , b"), "input[a]");
    assert_eq!(first_selector(" , "), " , ");
}

#[test]
fn the_entry_is_detected() {
    let none = parse("{}").unwrap();
    let stat = parse(r#"{"stat":true}"#).unwrap();
    assert!(is_entered(&stat, true) && is_entered(&none, false) && !is_entered(&none, true));
    assert!(!is_entered(&parse(r#"{"stat":"true"}"#).unwrap(), true));
    assert_eq!(entry_step(&stat, true, None), EntryStep::Remembered);
    assert_eq!(entry_step(&none, true, Some("c")), EntryStep::Enter);
    assert_eq!(entry_step(&none, true, Some(" ")), EntryStep::NoCdk);
    assert_eq!(entry_step(&none, true, None), EntryStep::NoCdk);
}

#[test]
fn visits_are_reported() {
    let side = |m: &str| GateSide {
        title: "t".into(),
        screenshot: "s".into(),
        html_file: "h".into(),
        html_bytes: 3,
        fields: Json::Null,
        markers: parse(m).unwrap(),
    };
    let r = gate_report("u", &side("{}"), &side(r#"{"go":true}"#), true, true, true, &vec!["e".into()]);
    assert_eq!(
        r.show(),
        r#"{"detection":{"enteredWithCdk":true,"postEntry":true,"preEntry":true},"errors":["e"],"ok":true,"post":{"fields":null,"htmlBytes":3,"htmlFile":"h","markers":{"go":true},"screenshot":"s","title":"t"},"pre":{"fields":null,"htmlBytes":3,"htmlFile":"h","markers":{},"screenshot":"s","title":"t"},"url":"u"}"#
    );
    assert_eq!(
        open_report("u", "t", "s", 5, &Json::Null, &vec![]).show(),
        r#"{"errors":[],"formFields":null,"htmlBytes":5,"ok":true,"screenshot":"s","title":"t","url":"u"}"#
    );
}

#[test]
fn lists_of_addresses_are_read() {
    assert_eq!(parse_emails("a@b, c@d\r\n\n e@f ,"), vec!["a@b", "c@d", "e@f"]);
    assert!(parse_emails(" ,\n").is_empty());
    assert_eq!(fetch_refused(true, &vec![]).as_deref(), Some("已取消"));
    assert_eq!(fetch_refused(false, &vec![]).as_deref(), Some("邮箱列表为空，无法执行获取流程"));
    assert_eq!(fetch_refused(false, &vec!["a".into()]), None);
}

#[test]
fn status_lines_are_read() {
    assert_eq!(number_after("共 12 成功3", "共"), Some(12));
    assert_eq!(number_after("共 12 成功3", "成功"), Some(3));
    assert_eq!(number_after("共 12", "失败"), None);
    assert_eq!(number_after("共 x", "共"), None);
    assert_eq!(number_after("共99999999999999999999", "共"), None);
    let c = Counts::read("共 2 · 成功 1 · 失败 0 · 进行中 1");
    assert_eq!((c.total, c.ok, c.fail, c.live), (Some(2), Some(1), Some(0), Some(1)));
}

fn reading(stat: &str, elapsed: u64) -> PollReading {
    PollReading {
        stat: stat.into(),
        err: "".into(),
        emails_len: 4,
        dl_all: false,
        copy_all: true,
        copy_visible: false,
        elapsed,
    }
}

#[test]
fn a_batch_ends_when_none_is_under_way() {
    let mut p = Poll::begin();
    let (lines, done) = p.take(&reading("共 2 成功 1 失败 0 进行中 1", 5));
    assert!(!done);
    assert_eq!(
        lines,
        vec!["[poll 5s] stat=共 2 成功 1 失败 0 进行中 1 copyAllVisible=false live=Some(1)"]
    );
    let (lines, done) = p.take(&reading("共 2 成功 1 失败 1 进行中 0", 10));
    assert!(done);
    assert_eq!(lines[1], "批次结束：成功 1 / 失败 1 / 共 2（copyAll 可见=false）");
    assert_eq!(p.log.len(), 2);
    assert_eq!(
        p.final_state(11).show(),
        r#"{"copyAll":true,"copyAllVisible":false,"dlAll":false,"emailsLen":4,"err":"","fail":1,"live":0,"ok":1,"stat":"共 2 成功 1 失败 1 进行中 0","t":"10s","total":2}"#
    );
}

#[test]
fn pages_are_looked_at_for_a_while() {
    let mut p = Poll::begin();
    assert_eq!(p.next(0, 10, false), PollStep::Look);
    assert_eq!(p.next(9, 10, true), PollStep::Cancelled);
    assert_eq!(p.next(10, 10, true), PollStep::TimedOut);
    assert_eq!(p.next(0, 0, false), PollStep::TimedOut);
    assert_eq!(p.closing(), "超时结束");
    p.take(&reading("共 1 成功 1 失败 0 进行中 0", 5));
    assert_eq!(p.next(10, 10, true), PollStep::Over);
    assert_eq!(p.closing(), "检测到完成信号");
    assert_eq!(poll_step(false, 1, 2, false), PollStep::Look);

    assert_eq!(check_next("", "", 29999, false), PollStep::Look);
    assert_eq!(check_next("", "", 29999, true), PollStep::Cancelled);
    assert_eq!(check_next("", "", 30000, true), PollStep::TimedOut);
    assert_eq!(check_next("剩余 1 次", "", 30000, true), PollStep::Over);
    assert_eq!(check_next("", "e", 0, false), PollStep::Over);

    assert_eq!(merge_next(&MergeStep::Wait, 59999, false), PollStep::Look);
    assert_eq!(merge_next(&MergeStep::Wait, 59999, true), PollStep::Cancelled);
    assert_eq!(merge_next(&MergeStep::Wait, 60000, false), PollStep::TimedOut);
    assert_eq!(merge_next(&MergeStep::Done, 60000, true), PollStep::Over);
    assert_eq!(merge_next(&MergeStep::Failed("e".into()), 0, false), PollStep::Over);

    assert_eq!(convert_next("", 14999), PollStep::Look);
    assert_eq!(convert_next("token", 15000), PollStep::TimedOut);
    assert_eq!(convert_next("{\"Refresh_Token\":1}", 15000), PollStep::Over);
}

#[test]
fn a_still_batch_ends_after_three_repetitions() {
    let mut p = Poll::begin();
    for i in 0..3 {
        assert!(!p.take(&reading("共 2 成功 2", i)).1);
    }
    let (lines, done) = p.take(&reading("共 2 成功 2", 4));
    assert!(done);
    assert_eq!(
        lines,
        vec![
            "[poll 4s] stat=共 2 成功 2 copyAllVisible=false live=None",
            "#stat 连续 3 次不变且已无进行中任务，视为完成"
        ]
    );
    let mut live = Poll::begin();
    for i in 0..9 {
        assert!(!live.take(&reading("共 2 进行中 1", i)).1);
    }
    let mut idle = Poll::begin();
    for i in 0..9 {
        assert!(!idle.take(&reading("共 0 进行中 0", i)).1);
    }
    assert_eq!(idle.final_state(9).show(), r#"{"elapsed":"9s","note":"超时未检测到完成信号"}"#);
}

#[test]
fn the_fetched_text_has_three_sources() {
    assert_eq!(pick_clipboard("p", "s", "f"), ("p".to_string(), false));
    assert_eq!(pick_clipboard(" ", "s", "f"), ("s".to_string(), false));
    assert_eq!(pick_clipboard("", "", "f"), ("f".to_string(), true));
    assert_eq!(pick_clipboard("", "", " "), (" ".to_string(), false));
    assert!(converted("{\"REFRESH_TOKEN\":1}") && converted("RT-x") && !converted("token"));
    let f = Fetched {
        url: "u".into(),
        pre_entry: true,
        post_entry: true,
        emails_count: 2,
        done: false,
        final_state: Json::Null,
        copy_clicked: true,
        clipboard: "c".into(),
        cpa_page: Json::Null,
        banned_emails: vec!["b".into()],
        poll_log: vec![Json::Bool(true)],
        errors: vec![],
    };
    assert_eq!(
        fetch_report(&f).show(),
        r#"{"bannedEmails":["b"],"clipboard":"c","copyClicked":true,"cpaPage":null,"done":false,"emailsCount":2,"entered":{"postEntry":true,"preEntry":true},"errors":[],"finalState":null,"ok":true,"pollLog":[true],"url":"u"}"#
    );
}

#[test]
fn the_uses_of_a_cdk_are_read() {
    assert_eq!(parse_nums("剩余 3 / 10 次"), (Some(3), Some(10)));
    assert_eq!(parse_nums(" 剩余7次 "), (Some(7), None));
    assert_eq!(parse_nums("4/5"), (Some(4), Some(5)));
    assert_eq!(parse_nums("无"), (None, None));
    assert_eq!(check_refused(" ", true).as_deref(), Some("未保存 CDK，请先填写并保存 CDK"));
    assert_eq!(check_refused("c", true).as_deref(), Some("已取消"));
    assert_eq!(check_refused("c", false), None);
    assert_eq!(
        check_result("c", "剩余 3 次", "", &vec![]).unwrap().show(),
        r#"{"cdk":"c","errors":[],"left_text":"剩余 3 次","ok":true,"quota":null,"remaining":3}"#
    );
    assert_eq!(check_result("c", "x", "bad", &vec![]).unwrap_err(), "查询失败：bad");
    assert_eq!(check_result("c", "", "", &vec![]).unwrap_err(), "查询超时，未拿到剩余次数");
}

#[test]
fn cdks_are_merged() {
    let codes: Vec<String> = vec![" a ".into(), "b".into(), "  ".into(), " c".into()];
    assert_eq!(merge_inputs(&codes), ("a".to_string(), "b\nc".to_string()));
    assert_eq!(merge_line(4, "b\nc"), "填入合并 CDK（共 4 张）：\\nb, c");
    assert_eq!(merge_refused(&vec!["a".into()], false).as_deref(), Some("至少需要两张 CDK 才能合并"));
    assert_eq!(merge_refused(&codes, true).as_deref(), Some("已取消"));
    assert_eq!(merge_refused(&codes, false), None);
    assert!(matches!(merge_step("n", true, "e"), MergeStep::Done));
    assert!(matches!(merge_step("n", false, ""), MergeStep::Wait));
    match merge_step("", true, "e") {
        MergeStep::Failed(m) => assert_eq!(m, "合并失败：e"),
        _ => panic!("not failed"),
    }
    assert_eq!(
        merge_result("n", "l", &vec![]).unwrap().show(),
        r#"{"errors":[],"new_cdk":"n","new_left":"l","ok":true}"#
    );
    assert_eq!(merge_result("", "l", &vec![]).unwrap_err(), "合并超时，未拿到新 CDK");
}

#[test]
fn callbacks_hold_a_code() {
    assert_eq!(
        code_in_callback("http://localhost:1455/auth/callback?code=ab%20c&state=x").as_deref(),
        Some("ab%20c")
    );
    assert_eq!(code_in_callback("http://localhost:1455/?code=acode=b").as_deref(), Some("a"));
    assert_eq!(code_in_callback("http://localhost:1455/?error=x"), None);
    let mut o = hard_timeout(1);
    assert_eq!(callback_line(&o), "已拿到 OAuth 回调（无 code，可能被拒绝）");
    o.code = Some("a".into());
    assert_eq!(callback_line(&o), "已拿到 OAuth 回调（含 code）");
    assert_eq!(settle_time("a@b.c"), 1555);
    assert_eq!(settle_time(&"x".repeat(100)), 1500);
    assert_eq!(key_delay(0, 'a'), 38);
    assert_eq!(key_delay(2, '@'), 124);
}

#[test]
fn a_sign_in_types_the_address_once() {
    let mut f = OAuthFlow::begin();
    let page = parse(r#"{"u":"https://x","email":true}"#).unwrap();
    assert!(matches!(f.look(&page, 0, "a@b.c"), LookStep::Wait));
    assert!(matches!(f.look(&page, 1554 * MILLI, "a@b.c"), LookStep::Wait));
    assert!(matches!(f.look(&page, 1555 * MILLI, "a@b.c"), LookStep::TypeEmail));
    f.email_sent();
    assert!(matches!(f.look(&page, 2 * SECOND, "a@b.c"), LookStep::GoOn));
    let code = parse(r#"{"code":true}"#).unwrap();
    assert!(matches!(OAuthFlow::begin().code_step(&code, true), CodeStep::Nothing));
    assert!(matches!(f.code_step(&page, true), CodeStep::Nothing));
    assert!(matches!(f.code_step(&code, true), CodeStep::Fetch(true)));
    assert!(matches!(f.code_step(&code, true), CodeStep::Fetch(false)));
    match f.code_step(&code, false) {
        CodeStep::Finish(first, o) => {
            assert!(!first);
            assert_eq!((o.status.as_str(), o.needs_human), ("need_code", true));
            assert_eq!(o.message, "已到验证码输入页，但未配置收码站，请手动输入验证码");
        }
        _ => panic!("not finished"),
    }
    f.code_sent();
    assert!(matches!(f.code_step(&code, true), CodeStep::Nothing));
    let mut alone = OAuthFlow::begin();
    alone.email_sent();
    assert!(matches!(alone.code_step(&code, false), CodeStep::Finish(true, _)));
}

#[test]
fn a_challenge_is_given_time() {
    let mut f = OAuthFlow::begin();
    let held = parse(r#"{"challenge":true}"#).unwrap();
    let mut now = 0;
    for n in 1..=2 {
        assert!(matches!(f.look(&held, now, "e"), LookStep::Wait));
        assert!(matches!(f.look(&held, now + 13 * SECOND - 1, "e"), LookStep::Wait));
        match f.look(&held, now + 13 * SECOND, "e") {
            LookStep::Reload(s) => assert_eq!(s, format!("质询未过，第 {} 次重载授权链接", n)),
            _ => panic!("not loaded anew"),
        }
        now += 14 * SECOND;
    }
    assert!(matches!(f.look(&held, now, "e"), LookStep::Wait));
    assert!(matches!(f.look(&held, now + 40 * SECOND, "e"), LookStep::Wait));
    match f.look(&held, now + 41 * SECOND, "e") {
        LookStep::Finish(o) => assert_eq!((o.status.as_str(), o.code), ("blocked", None)),
        _ => panic!("not blocked"),
    }
}

#[test]
fn a_sign_in_ends() {
    let mut f = OAuthFlow::begin();
    let back = parse(r#"{"u":"http://localhost:1455/auth/callback?code=c1&x","challenge":true}"#).unwrap();
    match f.look(&back, 0, "e") {
        LookStep::Finish(o) => {
            assert_eq!(o.code.as_deref(), Some("c1"));
            assert_eq!((o.status.as_str(), o.message.as_str(), o.needs_human), ("done", "授权完成", false));
        }
        _ => panic!("not finished"),
    }
    match f.look(&parse(r#"{"pwd":true}"#).unwrap(), 0, "e") {
        LookStep::Finish(o) => assert_eq!(o.status, "need_password"),
        _ => panic!("not finished"),
    }
    assert!(f.stopped(10 * SECOND, 10, false).is_none());
    assert_eq!(f.stopped(10 * SECOND + 1, 10, false).unwrap().message, "等待授权超时（10s）");
    assert_eq!(f.stopped(99 * SECOND, 10, true).unwrap().status, "cancelled");
    assert_eq!(hard_timeout(420).message, "流程硬超时（420s）");
}

#[test]
fn engines_have_their_places() {
    let mut v = vec!["/own".to_string()];
    push_engine_paths(&mut v, "edge", &found(&[("microsoft-edge", "/e")]));
    assert_eq!(
        v,
        vec!["/own", "/e", "/Applications/Microsoft Edge.app/Contents/MacOS/Microsoft Edge"]
    );
    assert!(holds_token("rt-1") && !holds_token("RT-1"));
}
