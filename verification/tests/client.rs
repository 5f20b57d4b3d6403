use sub2api_operator::client::{
    client_of, extract_data, join_url, page_items, AccountPages, LoginStep, Sub2ApiClient, Verdict,
};
use sub2api_operator::config::{
    default_cpa_url, default_gate_url, default_max_seconds, default_openai_seconds,
    default_verify_tls, Config,
};
use sub2api_operator::http::{Method, Reply};
use sub2api_operator::json::{parse, Json};
use sub2api_operator::models::Account;
use sub2api_operator::store::{db_path, DB_FILE};
use sub2api_operator::totp::{generate_current, TotpError};

fn config() -> Config {
    Config {
        base_url: "https://g.example//".into(),
        email: "a@b".into(),
        password: "p".into(),
        totp_secret: None,
        verify_tls: default_verify_tls(),
        gate_url: default_gate_url(),
        cpa_url: default_cpa_url(),
        max_seconds: default_max_seconds(),
        mail_base_url: "https://m".into(),
        mail_username: "u".into(),
        mail_password: "w".into(),
        openai_headed: false,
        openai_max_seconds: default_openai_seconds(),
    }
}

fn reply(status: u16, text: &str) -> Reply {
    Reply { status, status_line: format!("{} X", status), text: text.to_string() }
}

fn account(id: i64) -> Account {
    Account {
        id,
        name: "n".into(),
        platform: "openai".into(),
        account_type: "OAuth".into(),
        status: "active".into(),
        error_message: "".into(),
        expires_at: None,
        schedulable: true,
        priority: None,
        credentials: None,
        extra: None,
    }
}

#[test]
fn data_is_taken_out_of_its_envelope() {
    assert_eq!(extract_data(parse(r#"{"data":{"a":1}}"#).unwrap()).show(), r#"{"a":1}"#);
    assert_eq!(extract_data(parse(r#"{"data":null}"#).unwrap()).show(), r#"{"data":null}"#);
    assert_eq!(extract_data(parse("[1]").unwrap()).show(), "[1]");
}

#[test]
fn addresses_are_joined() {
    assert_eq!(join_url("https://g/", "/admin/x"), "https://g/api/v1/admin/x");
    assert_eq!(join_url("https://g", "a"), "https://g/api/v1/a");
    let q = Sub2ApiClient::login_request(&config());
    assert_eq!(q.url, "https://g.example/api/v1/auth/login");
    assert_eq!(q.body.unwrap().show(), r#"{"email":"a@b","password":"p"}"#);
    let s = Sub2ApiClient::second_factor_request(&config(), "t", "123456");
    assert_eq!(s.url, "https://g.example/api/v1/auth/login/2fa");
    assert_eq!(s.body.unwrap().show(), r#"{"temp_token":"t","totp_code":"123456"}"#);
}

#[test]
fn login_leads_to_tokens() {
    let c = config();
    match Sub2ApiClient::login(&c, &reply(200, r#"{"data":{"access_token":"A","refresh_token":"R"}}"#)) {
        Ok(LoginStep::Done(k)) => {
            assert_eq!(k.access_token, "A");
            assert_eq!(k.refresh_token.as_deref(), Some("R"));
            assert_eq!(k.base_url, "https://g.example//");
        }
        _ => panic!("no client"),
    }
    let fail = |status, text: &str| Sub2ApiClient::login(&c, &reply(status, text)).err().unwrap();
    assert_eq!(fail(200, "no json"), "解析登录响应失败");
    assert_eq!(fail(403, r#"{"m":1}"#), "登录失败 (403 X): {\"m\":1}");
    assert_eq!(fail(200, "{}"), "登录未返回 access_token");
    assert_eq!(fail(200, r#"{"requires_2fa":true}"#), "服务端要求 2FA 但未返回 temp_token");
    assert_eq!(
        fail(200, r#"{"requires_2fa":true,"temp_token":"t"}"#),
        "后台已开启 2FA，但 config.toml 未填 totp_secret"
    );
}

#[test]
fn login_asks_for_the_second_factor() {
    let mut c = config();
    c.totp_secret = Some("S".into());
    match Sub2ApiClient::login(&c, &reply(200, r#"{"requires_2fa":true,"temp_token":"t"}"#)) {
        Ok(LoginStep::SecondFactor { temp_token, secret }) => {
            assert_eq!((temp_token.as_str(), secret.as_str()), ("t", "S"));
        }
        _ => panic!("no second factor"),
    }
    let k = Sub2ApiClient::second_factor_step(&c, &reply(500, r#"{"access_token":"A"}"#)).unwrap();
    assert_eq!((k.access_token.as_str(), k.refresh_token), ("A", None));
    assert_eq!(Sub2ApiClient::second_factor_step(&c, &reply(200, "{}")).unwrap_err(), "2FA 后未返回 access_token");
    assert_eq!(Sub2ApiClient::second_factor_step(&c, &reply(200, "x")).unwrap_err(), "解析 2FA 响应失败");
}

#[test]
fn codes_of_the_second_factor_have_six_digits() {
    let code = generate_current(" gezdgnbvgy3tqojqgezdgnbvgy3tqojq ").unwrap();
    assert_eq!(code.len(), 6);
    assert!(code.chars().all(|c| c.is_ascii_digit()));
    match generate_current("1!") {
        Err(e @ TotpError::Secret(_)) => assert_eq!(e.message(), "无效的 TOTP 密钥: ParseBase32"),
        _ => panic!("secret accepted"),
    }
    match generate_current("GEZDGNBV") {
        Err(e @ TotpError::Init(_)) => assert_eq!(
            e.message(),
            "初始化 TOTP 失败: The length of the shared secret MUST be at least 128 bits. 40 bits is not enough"
        ),
        _ => panic!("short secret accepted"),
    }
    assert_eq!(TotpError::Clock("late".into()).message(), "late");
}

#[test]
fn a_refused_token_is_refreshed_once() {
    let mut c = Sub2ApiClient::new("https://g/".into(), "A".into(), Some("R".into()));
    let q = c.request(Method::Get, "admin/x", &None);
    assert_eq!((q.url.as_str(), q.bearer.as_deref()), ("https://g/api/v1/admin/x", Some("A")));
    assert!(matches!(c.judge(0, "p", &reply(401, "")), Verdict::Refresh));
    match c.judge(1, "p", &reply(401, "no")) {
        Verdict::Failed(e) => assert_eq!(e, "HTTP 401 X p: no"),
        _ => panic!("not refused"),
    }
    match c.judge(0, "p", &reply(200, r#"{"data":[1]}"#)) {
        Verdict::Done(v) => assert_eq!(v.show(), "[1]"),
        _ => panic!("not done"),
    }
    match c.judge(0, "p", &reply(200, "text")) {
        Verdict::Done(v) => assert!(v.is_null()),
        _ => panic!("not done"),
    }
    let r = c.refresh_request().unwrap();
    assert_eq!(r.url, "https://g/api/v1/auth/refresh");
    assert_eq!(r.body.unwrap().show(), r#"{"refresh_token":"R"}"#);
    assert_eq!(r.bearer, None);
    assert_eq!(c.refresh(&reply(200, "x")).unwrap_err(), "解析刷新响应失败");
    assert_eq!(c.refresh(&reply(200, "{}")).unwrap_err(), "刷新后未返回 access_token");
    c.refresh(&reply(200, r#"{"access_token":"B"}"#)).unwrap();
    assert_eq!((c.access_token.as_str(), c.refresh_token.as_deref()), ("B", Some("R")));
    c.refresh(&reply(200, r#"{"data":{"access_token":"C","refresh_token":"S"}}"#)).unwrap();
    assert_eq!((c.access_token.as_str(), c.refresh_token.as_deref()), ("C", Some("S")));
    let bare = Sub2ApiClient::new("g".into(), "A".into(), None);
    assert_eq!(bare.refresh_request().err().unwrap(), "无 refresh_token 可刷新");
    assert!(matches!(bare.judge(0, "p", &reply(401, "")), Verdict::Failed(_)));
}

#[test]
fn the_token_is_shown_in_part() {
    let c = Sub2ApiClient::new("g".into(), "0123456789".into(), None);
    assert_eq!(c.token_prefix(), "01234567");
    let short = Sub2ApiClient::new("g".into(), "ab".into(), None);
    assert_eq!(short.token_prefix(), "ab");
}

#[test]
fn account_requests_name_the_account() {
    let c = Sub2ApiClient::new("https://g".into(), "A".into(), None);
    let a = c.apply_oauth_credentials(7, Json::Null);
    assert_eq!(a.url, "https://g/api/v1/admin/accounts/7/apply-oauth-credentials");
    let s = c.set_schedulable(7, true);
    assert_eq!(s.url, "https://g/api/v1/admin/accounts/7/schedulable");
    assert_eq!(s.body.unwrap().show(), r#"{"schedulable":true}"#);
    let d = c.delete_account(7);
    assert_eq!((d.method, d.url.as_str()), (Method::Delete, "https://g/api/v1/admin/accounts/7"));
    assert!(d.body.is_none());
    let b = c.set_priority_bulk(&[1, 2], 3);
    assert_eq!(b.body.unwrap().show(), r#"{"account_ids":[1,2],"priority":3}"#);
    let o = c.set_priority_one(1, 3);
    assert_eq!((o.method, o.body.unwrap().show().as_str()), (Method::Put, r#"{"priority":3}"#));
    assert_eq!(c.generate_openai_auth_url().url, "https://g/api/v1/admin/openai/generate-auth-url");
    let x = c.exchange_code("s", "c");
    assert_eq!(x.body.unwrap().show(), r#"{"code":"c","session_id":"s"}"#);
}

#[test]
fn accounts_are_read_page_by_page() {
    let mut p = AccountPages::begin();
    assert_eq!(p.path(), "admin/accounts?page=1&page_size=1000");
    let v = parse(r#"{"items":[{},{}],"total":3}"#).unwrap();
    assert_eq!(page_items(&v).unwrap().len(), 2);
    assert!(!p.take(&v, vec![account(1), account(2)]));
    assert_eq!(p.path(), "admin/accounts?page=2&page_size=1000");
    let c = Sub2ApiClient::new("https://g".into(), "A".into(), None);
    assert_eq!(c.list_accounts(&p).url, "https://g/api/v1/admin/accounts?page=2&page_size=1000");
    assert!(p.take(&parse(r#"{"items":[{}],"total":3}"#).unwrap(), vec![account(3)]));
    assert_eq!(p.accounts.len(), 3);
    let mut q = AccountPages::begin();
    assert!(q.take(&parse(r#"{"items":[],"total":9}"#).unwrap(), vec![]));
    let mut r = AccountPages::begin();
    assert!(!r.take(&parse(r#"{"items":[{}]}"#).unwrap(), vec![]));
    assert!(r.take(&parse(r#"{"items":[{}]}"#).unwrap(), vec![account(1)]));
    let mut last = AccountPages { page: 1000, accounts: vec![] };
    assert!(last.take(&parse(r#"{"items":[{}],"total":9}"#).unwrap(), vec![]));
    assert_eq!(last.page, 1000);
    assert_eq!(
        page_items(&parse(r#"{"x":1}"#).unwrap()).unwrap_err(),
        "意外的账号列表响应: {\"x\":1}"
    );
}

#[test]
fn accounts_tell_their_state() {
    let mut a = account(1);
    assert!(a.is_oauth() && !a.has_error() && !a.has_401() && !a.needs_reauth());
    a.error_message = "HTTP 401".into();
    assert!(a.has_error() && a.has_401() && a.needs_reauth());
    a.account_type = "apikey".into();
    assert!(!a.needs_reauth());
    a.error_message = "  ".into();
    assert!(!a.has_error());
}

#[test]
fn days_are_counted_towards_zero() {
    let mut a = account(1);
    let now = 1_700_000_000_000i64;
    assert_eq!(a.expires_in_days(now), None);
    a.expires_at = Some(1_700_000_000 + 86_400 * 3 + 5);
    assert_eq!(a.expires_in_days(now), Some(3));
    a.expires_at = Some(now - 86_400_000 * 2 - 1);
    assert_eq!(a.expires_in_days(now), Some(-2));
    a.expires_at = Some(now - 1000);
    assert_eq!(a.expires_in_days(now), Some(0));
    a.expires_at = Some(1_000_000_000_000);
    assert_eq!(a.expires_in_days(0), Some(11574074));
    a.expires_at = Some(1_000_000_000_001);
    assert_eq!(a.expires_in_days(0), Some(11574));
}

#[test]
fn settings_must_be_complete() {
    let mut c = config();
    let m = c.mail_config();
    assert_eq!((m.base_url.as_str(), m.username.as_str(), m.password.as_str()), ("https://m", "u", "w"));
    assert!(c.clone().checked().is_ok());
    c.email = "".into();
    assert_eq!(c.checked().unwrap_err(), "config.toml 缺少 base_url / email / password");
    assert_eq!(default_gate_url(), "https://401.kyon888.xyz");
    assert_eq!(default_cpa_url(), "https://zh.kyon888.xyz/CPAandSub2API/");
    assert_eq!((default_max_seconds(), default_openai_seconds()), (150, 240));
    assert!(default_verify_tls());
    assert_eq!(db_path(), DB_FILE);
    assert_eq!(db_path(), "credentials.db");
}

#[test]
fn tokens_come_from_the_data_of_a_reply() {
    let c = config();
    let data = parse(r#"{"access_token":"A"}"#).unwrap();
    match Sub2ApiClient::login_step(&c, &data) {
        Ok(LoginStep::Done(k)) => assert_eq!((k.access_token.as_str(), k.refresh_token), ("A", None)),
        _ => panic!("no client"),
    }
    assert!(client_of(&c.base_url, &parse("{}").unwrap()).is_none());
    let mut k = Sub2ApiClient::new("b".into(), "old".into(), Some("keep".into()));
    assert_eq!(k.renew(&parse("[]").unwrap()).unwrap_err(), "刷新后未返回 access_token");
    assert_eq!(k.access_token, "old");
    k.renew(&data).unwrap();
    assert_eq!((k.access_token.as_str(), k.refresh_token.as_deref()), ("A", Some("keep")));
}
