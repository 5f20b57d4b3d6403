use sub2api_operator::json::{integer_doc, object_doc, string_doc, Json};
use sub2api_operator::mail::{
    extract_code_from_text, first_six_digit, html_to_text, parse_time_epoch, pick_code,
    site_reference_extract, MailBaseline, MailConfig, MailRecord,
};

const SAMPLE_CODE_HTML: &str = r#"<!DOCTYPE html PUBLIC "-//W3C//DTD XHTML 1.0 Transitional//EN">
<html lang="en">
<head>
<meta charset="utf-8">
<style type="text/css">
@font-face { font-family: "Soehne"; src: url(https://cdn.example.com/fonts/soehne.woff2) format("woff2"); }
body { color:#202123; background-color:#ffffff; }
</style>
<script>var tracked = 998877;</script>
</head>
<body style="margin:0;padding:0">
<table width="560"><tr><td>
<h1>Your temporary ChatGPT verification code</h1>
<p style="font-size:16px;line-height:24px;">Enter this temporary verification code to continue:</p>
<p style="font-size:24px">
225179
</p>
<p>Please ignore this email if this wasn&rsquo;t you trying to sign in.</p>
<p>Best,<br>The ChatGPT team</p>
</td></tr></table>
</body>
</html>
"#;

const SAMPLE_CODE_SUBJECT: &str = "Your temporary ChatGPT verification code";

const SAMPLE_BAN_HTML: &str = r#"<html>
<head><style>p { color:#202123; }</style></head>
<body>
<p>Hello,</p>
<p>We are writing about the account of example-user6989@example.com.</p>
<p>We have determined that you or a member of your organization used the services in a way that
violates our policies. As a result we have deactivated your access.</p>
<p>Best,<br>The OpenAI team</p>
</body>
</html>
"#;

fn rec(sender: &str, subject: &str, content: &str, id: i64, t: &str) -> MailRecord {
    MailRecord {
        id,
        email_id: 1,
        sender: sender.into(),
        subject: subject.into(),
        content: content.into(),
        received_time: t.into(),
        folder: "Inbox".into(),
    }
}

#[test]
fn real_code_email_extracts_correct_code() {
    let code = extract_code_from_text(SAMPLE_CODE_SUBJECT, SAMPLE_CODE_HTML);
    assert_eq!(code.as_deref(), Some("225179"), "必须取到真实验证码");

    let naive = first_six_digit(SAMPLE_CODE_HTML).unwrap();
    assert_eq!(naive, "202123", "原始 HTML 第一个 6 位数字是 CSS 颜色");
    assert_ne!(naive, "225179");
}

#[test]
fn html_to_text_drops_style_and_script() {
    let t = html_to_text(SAMPLE_CODE_HTML);
    assert!(!t.contains("@font-face"));
    assert!(!t.contains("#202123"));
    assert!(t.contains("225179"));
    assert!(t.contains("verification code"));
}

#[test]
fn ban_email_yields_no_code() {
    assert!(extract_code_from_text("OpenAI - Access Deactivated", SAMPLE_BAN_HTML).is_none());
    let loose = site_reference_extract(&html_to_text(SAMPLE_BAN_HTML));
    assert!(
        loose.is_some(),
        "站点同款规则在封号邮件上会误报，所以才需要加闸"
    );
}

#[test]
fn site_reference_agrees_on_real_code_mail() {
    let text = format!("{} {}", SAMPLE_CODE_SUBJECT, html_to_text(SAMPLE_CODE_HTML));
    assert_eq!(site_reference_extract(&text).as_deref(), Some("225179"));
    assert_eq!(
        extract_code_from_text(SAMPLE_CODE_SUBJECT, SAMPLE_CODE_HTML).as_deref(),
        Some("225179")
    );
}

#[test]
fn site_reference_fallback_shapes() {
    assert_eq!(
        site_reference_extract("your code is 12345").as_deref(),
        Some("12345")
    );
    assert_eq!(
        site_reference_extract("code 12345678").as_deref(),
        Some("12345678")
    );
    assert_eq!(site_reference_extract("code 4821").as_deref(), Some("4821"));
    assert_eq!(site_reference_extract("copyright 2026").as_deref(), None);
    assert_eq!(site_reference_extract("copyright 1999").as_deref(), None);
}

#[test]
fn ignores_long_numbers_and_dates() {
    assert_eq!(first_six_digit("id 1234567890"), None);
    assert_eq!(first_six_digit("code: 123456"), Some("123456".to_string()));
    assert_eq!(first_six_digit("2026-09-17"), None);
}

#[test]
fn picks_code_mail_over_marketing() {
    let marketing = rec(
        "ChatGPT <noreply@email.openai.com>",
        "Writing help, whenever you need it",
        "<html><body>Save 123456 today!</body></html>",
        1,
        "2026-09-16 09:00:00+00:00",
    );
    let code_mail = rec(
        "ChatGPT <otp@tm1.openai.com>",
        "Your temporary ChatGPT verification code",
        SAMPLE_CODE_HTML,
        2,
        "2026-09-16 08:29:50+00:00",
    );
    let got = pick_code(&[&marketing, &code_mail]).unwrap();
    assert_eq!(got.0, "225179");
    assert!(got.1.contains("verification code"));
}

#[test]
fn baseline_filters_old_mail() {
    let base = MailBaseline {
        email_id: 1,
        max_record_id: 100,
        max_received_epoch: parse_time_epoch("2026-09-16 08:00:00+00:00").unwrap(),
        existing: 1,
    };
    let old = rec("a", "b", "c", 99, "2026-09-16 07:00:00+00:00");
    let new = rec("a", "b", "c", 101, "2026-09-16 09:00:00+00:00");
    assert!(!base.is_new(&old));
    assert!(base.is_new(&new));
    let newer_same_id = rec("a", "b", "c", 100, "2026-09-16 09:30:00+00:00");
    assert!(base.is_new(&newer_same_id));
}

#[test]
fn all_mail_is_new_to_an_empty_mailbox() {
    let base = MailBaseline { email_id: 1, max_record_id: 0, max_received_epoch: 0, existing: 0 };
    assert!(base.is_new(&rec("a", "b", "c", 1, "2026-09-16 09:00:00+00:00")));
}

#[test]
fn parses_real_time_format() {
    let e = parse_time_epoch("2026-09-16 08:29:50+00:00").unwrap();
    assert_eq!(
        e,
        chrono::DateTime::parse_from_rfc3339("2026-09-16T08:29:50+00:00")
            .unwrap()
            .timestamp()
    );
    assert!(parse_time_epoch("").is_none());
    assert!(parse_time_epoch("not a time").is_none());
}

#[test]
fn detects_code_mail_signature() {
    let m = rec(
        "ChatGPT <otp@tm1.openai.com>",
        "Your temporary ChatGPT verification code",
        "",
        1,
        "",
    );
    assert!(m.looks_like_code_mail() && m.looks_like_openai());
    let ban = rec(
        "OpenAI <trustandsafety@tm.openai.com>",
        "OpenAI - Access Deactivated",
        "",
        2,
        "",
    );
    assert!(!ban.looks_like_code_mail());
    assert!(ban.looks_like_openai());
}

#[test]
fn api_root_normalizes() {
    let c = MailConfig {
        base_url: "https://mail.kyon888.xyz/".into(),
        ..Default::default()
    };
    assert_eq!(c.api_root(), "https://mail.kyon888.xyz/api");
    let c2 = MailConfig {
        base_url: "https://mail.kyon888.xyz/api".into(),
        ..Default::default()
    };
    assert_eq!(c2.api_root(), "https://mail.kyon888.xyz/api");
}

#[test]
fn parses_real_record_shape() {
    let v = object_doc(vec![
        ("id".to_string(), integer_doc(81376)),
        ("email_id".to_string(), integer_doc(81033)),
        ("folder".to_string(), string_doc("Inbox")),
        (
            "sender".to_string(),
            string_doc("ChatGPT <otp@tm1.openai.com>"),
        ),
        (
            "subject".to_string(),
            string_doc("Your temporary ChatGPT verification code"),
        ),
        ("content".to_string(), string_doc(SAMPLE_CODE_HTML)),
        (
            "received_time".to_string(),
            string_doc("2026-09-16 08:29:50+00:00"),
        ),
        ("has_attachments".to_string(), Json::Bool(false)),
    ]);
    let r = MailRecord::from_value(&v);
    assert_eq!(r.id, 81376);
    assert_eq!(r.email_id, 81033);
    assert!(r.looks_like_code_mail());
}
