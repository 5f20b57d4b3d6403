//! The page from which an operator works, and the task that it starts.
use crate::commands::reauth::apply::{count_ok, good};
use crate::commands::reauth::once::OnceResult;
use crate::commands::reauth::plan::{plan_views, ApplyOutcome, PlanItem, PlanItemV};
use crate::json::{
    bool_doc, entries, null_doc, object1, object2, object_doc, string_doc, strings, strings_doc,
    Json, JsonV,
};
use crate::store::Credential;
use crate::text::basic::{join, joined, opt_text, same, text2, text3, text5, texts, trim, trimmed};
use crate::text::numeral::{decimal, decimal_int, integer_text, number_text};
use crate::text::charwise::{is_core, law_nothing_to_replace, law_trim, only_spaces, spelled};
use crate::text::search::{begins, replace_all, replaced};
use vstd::prelude::*;

verus! {

/// The port of the page.
pub const PORT: u16 = 7878;

/// The page up to its first message.
pub const PAGE_TOP: &'static str = r#"<!doctype html>
<html lang="zh-CN">
<head>
<meta charset="utf-8">
<meta name="viewport" content="width=device-width, initial-scale=1">
<title>sub2api 运维 · 一键重授权</title>
<style>
  body { font-family: -apple-system, "PingFang SC", "Microsoft YaHei", sans-serif;
         background:#f5f6f8; color:#1f2329; margin:0; padding:32px; }
  .card { max-width:640px; margin:0 auto 18px; background:#fff; border-radius:12px;
          padding:24px 28px; box-shadow:0 2px 12px rgba(0,0,0,.08); }
  h1 { font-size:19px; margin:0 0 4px; }
  h2 { font-size:15px; margin:0 0 14px; }
  .sub { color:#8a8f99; font-size:12.5px; margin:0 0 18px; }
  label { display:block; font-size:13px; margin:14px 0 6px; font-weight:600; }
  input[type=text], input[type=password] { width:100%; box-sizing:border-box; padding:10px 12px;
          font-size:14px; border:1px solid #d0d3d9; border-radius:8px; }
  input:focus { outline:none; border-color:#3b6cff; }
  button { margin-top:18px; width:100%; padding:12px; font-size:15px; color:#fff;
           background:#3b6cff; border:0; border-radius:8px; cursor:pointer; }
  button:hover { background:#2f59d6; }
  button:disabled { background:#a8b6e8; cursor:not-allowed; }
  .banner { background:#eafaf0; color:#1a7f45; border:1px solid #b6e8c8;
            padding:10px 12px; border-radius:8px; font-size:13px; margin-bottom:10px; }
  .banner.warn { background:#fff7e6; color:#a4610a; border-color:#ffd591; }
  .row { display:flex; align-items:center; gap:8px; font-size:13px; margin-top:12px; font-weight:400; }
  .row input[type=checkbox] { width:16px; height:16px; }
  pre { background:#1e2430; color:#c9d4e5; padding:12px; border-radius:8px; font-size:12px;
        line-height:1.6; max-height:320px; overflow:auto; white-space:pre-wrap; margin:14px 0 0; }
  .muted { color:#8a8f99; font-size:12px; }
</style>
</head>
<body>
  <div class="card">
    <h1>凭证管理</h1>
    <p class="sub">CDK 本地管理 · 仅本机存储（credentials.db）</p>
    "#;

/// The page from its first message to the CDK.
pub const PAGE_FORM: &'static str = r#"
    <form method="post" action="/save">
      <label for="cdk">CDK</label>
      <input id="cdk" type="text" name="cdk" value=""#;

/// The page from the CDK to its second message.
pub const PAGE_TASK: &'static str = r#"" placeholder="兑换码 / 重授权消耗" autocomplete="off">
      <button type="submit">保存</button>
    </form>
  </div>

  <div class="card">
    <h2>一键重新授权</h2>
    <p class="sub">自动找出报 401 的账号 → 无头浏览器跑接码 → 结果按邮箱写回（忽略大小写）</p>
    "#;

/// The rest of the page.
pub const PAGE_END: &'static str = r#"
    <form id="reauthForm">
      <label for="email">指定邮箱（可空 = 自动处理所有 401 账号）</label>
      <input id="email" type="text" name="email" placeholder="name@example.com" autocomplete="off">
      <div class="row">
        <input id="yes" type="checkbox" name="yes" value="1">
        <label for="yes" style="margin:0; font-weight:400;">真正写回（不勾 = 只预览不写回）</label>
      </div>
      <button id="runBtn" type="submit">🚀 一键重新授权</button>
    </form>
    <pre id="log" class="muted">尚未运行。</pre>
  </div>

<script>
const logEl = document.getElementById('log');
const btn = document.getElementById('runBtn');
let timer = null;

function render(j) {
  let txt = '';
  if (j.log && j.log.length) txt += j.log.join('\n') + '\n';
  if (j.error) txt += '❌ ' + j.error + '\n';
  if (j.result) txt += '—— 结果 ——\n' + j.result;
  logEl.textContent = txt || '尚未运行。';
  logEl.scrollTop = logEl.scrollHeight;
  btn.disabled = !!j.running;
  btn.textContent = j.running ? '运行中…' : '🚀 一键重新授权';
}

async function poll() {
  const r = await fetch('/api/reauth/status');
  const j = await r.json();
  render(j);
  if (j.running) timer = setTimeout(poll, 1000);
}

document.getElementById('reauthForm').addEventListener('submit', async (e) => {
  e.preventDefault();
  const fd = new FormData(e.target);
  logEl.textContent = '启动中…';
  btn.disabled = true;
  await fetch('/api/reauth', { method: 'POST', body: new URLSearchParams(fd) });
  clearTimeout(timer);
  poll();
});
</script>
</body>
</html>"#;

// ---------------------------------------------------------------------------
// The task
// ---------------------------------------------------------------------------

/// The task that runs in the background, or the last that did.
#[derive(Debug, Default)]
pub struct Job {
    pub running: bool,
    pub log: Vec<String>,
    pub result: Option<String>,
    pub error: Option<String>,
}

/// What is answered where a task runs already.
pub open spec fn busy() -> Seq<char> {
    "已有任务在运行中，请等它结束"@
}

/// What is answered where there are no settings.
pub open spec fn unconfigured() -> Seq<char> {
    "缺少可用的 config.toml（需含 base_url/email/password）。请在启动本服务的目录放好 config.toml 后重启。"@
}

impl Job {
    /// Starts a task, unless one runs already: then nothing changes.
    pub fn start(&mut self) -> (r: Result<(), String>)
        ensures
            if old(self).running {
                r matches Err(e) && e@ == busy() && *final(self) == *old(self)
            } else {
                r is Ok && final(self).running && final(self).log@.len() == 0
                    && final(self).result is None && final(self).error is None
            },
    {
        if self.running {
            return Err("已有任务在运行中，请等它结束".to_owned());
        }
        self.running = true;
        self.log = Vec::new();
        self.result = None;
        self.error = None;
        Ok(())
    }

    /// Ends a task that cannot be carried out for want of settings, and gives the reason.
    pub fn no_config(&mut self) -> (r: String)
        ensures
            r@ == unconfigured(),
            !final(self).running,
            opt_text(final(self).error) == Some(unconfigured()),
            final(self).log == old(self).log,
            final(self).result == old(self).result,
    {
        self.running = false;
        self.error = Some(
            "缺少可用的 config.toml（需含 base_url/email/password）。请在启动本服务的目录放好 config.toml 后重启。".to_owned(),
        );
        "缺少可用的 config.toml（需含 base_url/email/password）。请在启动本服务的目录放好 config.toml 后重启。".to_owned()
    }

    /// Notes a line of progress.
    pub fn note(&mut self, line: String)
        ensures
            final(self).running == old(self).running,
            final(self).log@ == old(self).log@.push(line),
            final(self).result == old(self).result,
            final(self).error == old(self).error,
    {
        self.log.push(line);
    }

    /// Ends a task with its result or its error.
    pub fn finish(&mut self, outcome: Result<String, String>)
        ensures
            !final(self).running,
            final(self).log == old(self).log,
            match outcome {
                Ok(s) => final(self).result == Some(s) && final(self).error == old(self).error,
                Err(e) => final(self).error == Some(e) && final(self).result == old(self).result,
            },
    {
        self.running = false;
        match outcome {
            Ok(s) => {
                self.result = Some(s);
            },
            Err(e) => {
                self.error = Some(e);
            },
        }
    }

    /// What is reported of the task.
    pub open spec fn status_doc(self) -> JsonV {
        JsonV::Obj(
            seq![
                ("error"@, text_doc(opt_text(self.error))),
                ("log"@, strings(texts(self.log@))),
                ("result"@, text_doc(opt_text(self.result))),
                ("running"@, JsonV::Bool(self.running)),
            ],
        )
    }

    /// What is reported of the task.
    pub fn status(&self) -> (r: Json)
        ensures
            r@ == self.status_doc(),
    {
        let mut o: Vec<(String, Json)> = Vec::new();
        o.push(("error".to_owned(), opt_string_doc(&self.error)));
        o.push(("log".to_owned(), strings_doc(&self.log)));
        o.push(("result".to_owned(), opt_string_doc(&self.result)));
        o.push(("running".to_owned(), bool_doc(self.running)));
        assert(entries(o@) =~= self.status_doc()->Obj_0);
        object_doc(o)
    }
}

/// A text as a document, `null` where there is none.
pub open spec fn text_doc(s: Option<Seq<char>>) -> JsonV {
    match s {
        Some(t) => JsonV::Str(t),
        None => JsonV::Null,
    }
}

fn opt_string_doc(s: &Option<String>) -> (r: Json)
    ensures
        r@ == text_doc(opt_text(*s)),
{
    match s {
        Some(t) => string_doc(t.as_str()),
        None => null_doc(),
    }
}

/// The answer that accepts a request.
pub fn accepted() -> (r: Json)
    ensures
        r@ == JsonV::Obj(seq![("ok"@, JsonV::Bool(true))]),
{
    object1("ok", bool_doc(true))
}

/// The answer that refuses a request.
pub fn refused(error: &str) -> (r: Json)
    ensures
        r@ == JsonV::Obj(seq![("error"@, JsonV::Str(error@)), ("ok"@, JsonV::Bool(false))]),
{
    object2("error", string_doc(error), "ok", bool_doc(false))
}

/// What is reported of the stored CDK.
pub fn creds_report(stored: &Result<Option<Credential>, String>) -> (r: Json)
    ensures
        r@ == (match *stored {
            Ok(Some(c)) => JsonV::Obj(
                seq![("cdk"@, JsonV::Str(c.cdk@)), ("updated_at"@, JsonV::Str(c.updated_at@))],
            ),
            Ok(None) => JsonV::Obj(
                seq![
                    ("cdk"@, JsonV::Str(Seq::empty())),
                    ("updated_at"@, JsonV::Str(Seq::empty())),
                ],
            ),
            Err(e) => JsonV::Obj(seq![("error"@, JsonV::Str(e@))]),
        }),
{
    proof {
        reveal_strlit("");
        assert(""@ =~= Seq::<char>::empty());
    }
    match stored {
        Ok(Some(c)) => object2(
            "cdk",
            string_doc(c.cdk.as_str()),
            "updated_at",
            string_doc(c.updated_at.as_str()),
        ),
        Ok(None) => object2("cdk", string_doc(""), "updated_at", string_doc("")),
        Err(e) => object1("error", string_doc(e.as_str())),
    }
}

// ---------------------------------------------------------------------------
// The form
// ---------------------------------------------------------------------------

/// Whether a field of the form says yes.
pub fn says_yes(field: &str) -> (r: bool)
    ensures
        r == (field@ == "1"@ || field@ == "on"@ || field@ == "true"@ || field@ == "yes"@),
{
    same(field, "1") || same(field, "on") || same(field, "true") || same(field, "yes")
}

/// The only address that is handled, where the form gives one.
pub fn only_email(field: &str) -> (r: Option<String>)
    ensures
        opt_text(r) == (if trim(field@).len() == 0 {
            None
        } else {
            Some(trim(field@))
        }),
{
    let e = trimmed(field);
    if e.as_str().is_empty() {
        None
    } else {
        Some(e)
    }
}

// ---------------------------------------------------------------------------
// The summary
// ---------------------------------------------------------------------------

/// The line that reports an outcome.
pub open spec fn outcome_row(o: ApplyOutcome) -> Seq<char> {
    "  #"@ + decimal_int(o.account_id as int) + " "@ + o.email@ + (" "@ + (if o.ok {
        "成功"@
    } else {
        o.message@
    }) + "\n"@)
}

/// The lines that report outcomes.
pub open spec fn outcome_rows(outcomes: Seq<ApplyOutcome>) -> Seq<char>
    decreases outcomes.len(),
{
    if outcomes.len() == 0 {
        Seq::empty()
    } else {
        outcome_rows(outcomes.drop_last()) + outcome_row(outcomes.last())
    }
}

/// The lines that show a plan.
pub open spec fn plan_rows(plans: Seq<PlanItemV>) -> Seq<char>
    decreases plans.len(),
{
    if plans.len() == 0 {
        Seq::empty()
    } else {
        plan_rows(plans.drop_last()) + ("  #"@ + decimal_int(plans.last().account_id as int) + " "@
            + plans.last().email + "\n"@)
    }
}

/// What is reported of a task that gave accounts new credentials.
pub open spec fn summary(r: OnceResult, yes: bool) -> Seq<char> {
    let out = r.report.outcomes@;
    ("重授权邮箱："@ + join(texts(r.emails@), ", "@) + "\n"@) + ("结果长度："@ + decimal(r.raw_len as nat)
        + " 字符\n"@) + (if yes {
        ("写回结果：成功 "@ + decimal(good(out)) + " / 失败 "@ + decimal((out.len() - good(out)) as nat)
            + "\n"@) + outcome_rows(out)
    } else {
        ("（预览）匹配 "@ + decimal(r.report.plans@.len()) + " 个账号，未写回\n"@) + plan_rows(
            plan_views(r.report.plans@),
        )
    }) + (if r.report.skipped@.len() == 0 {
        Seq::empty()
    } else {
        "跳过："@ + join(texts(r.report.skipped@), "；"@) + "\n"@
    })
}

fn rows_of(outcomes: &Vec<ApplyOutcome>) -> (r: String)
    ensures
        r@ == outcome_rows(outcomes@),
{
    let mut s = String::new();
    let mut i: usize = 0;
    assert(s@ =~= outcome_rows(outcomes@.take(0)));
    while i < outcomes.len()
        invariant
            i <= outcomes@.len(),
            s@ == outcome_rows(outcomes@.take(i as int)),
        decreases outcomes@.len() - i,
    {
        assert(outcomes@.take(i + 1).drop_last() == outcomes@.take(i as int));
        let o = &outcomes[i];
        let id = integer_text(o.account_id);
        let word = if o.ok {
            "成功"
        } else {
            o.message.as_str()
        };
        let tail = text3(" ", word, "\n");
        let row = text5("  #", id.as_str(), " ", o.email.as_str(), tail.as_str());
        s.append(row.as_str());
        i += 1;
    }
    assert(outcomes@.take(outcomes@.len() as int) == outcomes@);
    s
}

fn plans_of(plans: &Vec<PlanItem>) -> (r: String)
    ensures
        r@ == plan_rows(plan_views(plans@)),
{
    let ghost all = plan_views(plans@);
    let mut s = String::new();
    let mut i: usize = 0;
    assert(s@ =~= plan_rows(all.take(0)));
    while i < plans.len()
        invariant
            i <= plans@.len(),
            all == plan_views(plans@),
            s@ == plan_rows(all.take(i as int)),
        decreases plans@.len() - i,
    {
        assert(all.take(i + 1).drop_last() == all.take(i as int));
        assert(all.take(i + 1).last() == plans@[i as int]@);
        let id = integer_text(plans[i].account_id);
        let row = text5("  #", id.as_str(), " ", plans[i].email.as_str(), "\n");
        s.append(row.as_str());
        i += 1;
    }
    assert(all.take(all.len() as int) == all);
    s
}

/// What is reported of a task that gave accounts new credentials.
pub fn summarize(r: &OnceResult, yes: bool) -> (s: String)
    ensures
        s@ == summary(*r, yes),
{
    let emails = joined(&r.emails, ", ");
    let len = number_text(r.raw_len as u64);
    let mut s = text3("重授权邮箱：", emails.as_str(), "\n");
    let second = text3("结果长度：", len.as_str(), " 字符\n");
    s.append(second.as_str());
    let middle = if yes {
        let ok = count_ok(&r.report.outcomes);
        let fail = r.report.outcomes.len() - ok;
        let a = number_text(ok as u64);
        let b = number_text(fail as u64);
        let head = text5("写回结果：成功 ", a.as_str(), " / 失败 ", b.as_str(), "\n");
        let rows = rows_of(&r.report.outcomes);
        text2(head.as_str(), rows.as_str())
    } else {
        let n = number_text(r.report.plans.len() as u64);
        let head = text3("（预览）匹配 ", n.as_str(), " 个账号，未写回\n");
        let rows = plans_of(&r.report.plans);
        text2(head.as_str(), rows.as_str())
    };
    s.append(middle.as_str());
    let tail = if r.report.skipped.len() == 0 {
        String::new()
    } else {
        let list = joined(&r.report.skipped, "；");
        text3("跳过：", list.as_str(), "\n")
    };
    assert(r.report.skipped@.len() == 0 ==> tail@ =~= Seq::<char>::empty());
    s.append(tail.as_str());
    s
}

// ---------------------------------------------------------------------------
// The page
// ---------------------------------------------------------------------------

/// A text as it is written into a page.
pub open spec fn escaped(s: Seq<char>) -> Seq<char> {
    replace_all(replace_all(replace_all(s, "&"@, "&amp;"@), "<"@, "&lt;"@), ">"@, "&gt;"@)
}

/// Escapes a text for a page.
pub fn esc(s: &str) -> (r: String)
    ensures
        r@ == escaped(s@),
{
    proof {
        reveal_strlit("&");
        reveal_strlit("<");
        reveal_strlit(">");
    }
    let a = replaced(s, "&", "&amp;");
    let b = replaced(a.as_str(), "<", "&lt;");
    replaced(b.as_str(), ">", "&gt;")
}

/// The page with a message and the stored CDK. Without settings it carries a warning.
pub open spec fn page(msg: Seq<char>, cdk: Seq<char>, configured: bool) -> Seq<char> {
    PAGE_TOP@ + (if msg.len() == 0 {
        Seq::empty()
    } else {
        "<div class=\"banner\">"@ + escaped(msg) + "</div>"@
    }) + PAGE_FORM@ + escaped(cdk) + PAGE_TASK@ + (if configured {
        Seq::empty()
    } else {
        "<div class=\"banner warn\">⚠️ 未找到可用的 config.toml，一键重授权不可用（需 base_url/email/password）。</div>"@
    }) + PAGE_END@
}

/// The page with a message and the stored CDK.
pub fn page_html(msg: &str, cdk: &str, configured: bool) -> (r: String)
    ensures
        r@ == page(msg@, cdk@, configured),
{
    let banner = if msg.is_empty() {
        String::new()
    } else {
        let m = esc(msg);
        text3("<div class=\"banner\">", m.as_str(), "</div>")
    };
    assert(msg@.len() == 0 ==> banner@ =~= Seq::<char>::empty());
    let code = esc(cdk);
    let warning = if configured {
        ""
    } else {
        "<div class=\"banner warn\">⚠️ 未找到可用的 config.toml，一键重授权不可用（需 base_url/email/password）。</div>"
    };
    proof {
        reveal_strlit("");
        assert(""@ =~= Seq::<char>::empty());
    }
    let mut s = text5(PAGE_TOP, banner.as_str(), PAGE_FORM, code.as_str(), PAGE_TASK);
    s.append(warning);
    s.append(PAGE_END);
    s
}

// ---------------------------------------------------------------------------
// Laws
// ---------------------------------------------------------------------------

proof fn lemma_replaced_away(s: Seq<char>, p: Seq<char>, w: Seq<char>, c: char)
    requires
        p == seq![c],
        !w.contains(c),
    ensures
        !replace_all(s, p, w).contains(c),
    decreases s.len(),
{
    if s.len() > 0 {
        if begins(s, p) {
            lemma_replaced_away(s.skip(1), p, w, c);
            lemma_none_in_both(w, replace_all(s.skip(1), p, w), c);
        } else {
            lemma_replaced_away(s.drop_first(), p, w, c);
            assert(s[0] != c) by {
                if s[0] == c {
                    assert(s.subrange(0, 1) =~= p);
                }
            }
            lemma_none_in_both(seq![s[0]], replace_all(s.drop_first(), p, w), c);
        }
    }
}

proof fn lemma_stays_away(s: Seq<char>, p: Seq<char>, w: Seq<char>, c: char)
    requires
        p.len() > 0,
        !s.contains(c),
        !w.contains(c),
    ensures
        !replace_all(s, p, w).contains(c),
    decreases s.len(),
{
    if s.len() > 0 {
        if begins(s, p) {
            let t = s.skip(p.len() as int);
            assert(!t.contains(c)) by {
                if t.contains(c) {
                    let i = choose|i: int| 0 <= i < t.len() && t[i] == c;
                    assert(s[i + p.len()] == c);
                }
            }
            lemma_stays_away(t, p, w, c);
            lemma_none_in_both(w, replace_all(t, p, w), c);
        } else {
            let t = s.drop_first();
            assert(!t.contains(c)) by {
                if t.contains(c) {
                    let i = choose|i: int| 0 <= i < t.len() && t[i] == c;
                    assert(s[i + 1] == c);
                }
            }
            lemma_stays_away(t, p, w, c);
            assert(s[0] != c) by {
                if s[0] == c {
                    assert(s.contains(s[0]));
                }
            }
            lemma_none_in_both(seq![s[0]], replace_all(t, p, w), c);
        }
    }
}

proof fn lemma_none_in_both(a: Seq<char>, b: Seq<char>, c: char)
    requires
        !a.contains(c),
        !b.contains(c),
    ensures
        !(a + b).contains(c),
{
    if (a + b).contains(c) {
        let i = choose|i: int| 0 <= i < (a + b).len() && (a + b)[i] == c;
        if i < a.len() {
            assert(a.contains(a[i]));
        } else {
            assert(b.contains(b[i - a.len()]));
        }
    }
}

/// No text that is escaped opens or closes a tag.
pub proof fn law_escaped_text_holds_no_tag(s: Seq<char>)
    ensures
        !escaped(s).contains('<'),
        !escaped(s).contains('>'),
{
    reveal_strlit("<");
    reveal_strlit(">");
    reveal_strlit("&lt;");
    reveal_strlit("&gt;");
    let a = replace_all(s, "&"@, "&amp;"@);
    let b = replace_all(a, "<"@, "&lt;"@);
    assert("<"@ =~= seq!['<']);
    assert(">"@ =~= seq!['>']);
    lemma_replaced_away(a, "<"@, "&lt;"@, '<');
    lemma_stays_away(b, ">"@, "&gt;"@, '<');
    lemma_replaced_away(b, ">"@, "&gt;"@, '>');
}

proof fn lemma_replaced_apart(a: Seq<char>, b: Seq<char>, c: char, w: Seq<char>)
    ensures
        replace_all(a + b, seq![c], w) == replace_all(a, seq![c], w) + replace_all(b, seq![c], w),
        a.len() == 1 ==> replace_all(a, seq![c], w) == (if a[0] == c {
            w
        } else {
            a
        }),
    decreases a.len(),
{
    let p = seq![c];
    let none = Seq::<char>::empty();
    assert(replace_all(none, p, w) =~= none);
    if a.len() == 0 {
        assert(a + b =~= b);
        assert(a =~= none);
        assert(replace_all(a, p, w) + replace_all(b, p, w) =~= replace_all(b, p, w));
    } else {
        let t = a.drop_first();
        let s = a + b;
        lemma_replaced_apart(t, b, c, w);
        assert(s.drop_first() =~= t + b);
        assert(s.skip(1) =~= t + b);
        assert(a.skip(1) =~= t);
        assert(s.subrange(0, 1) =~= a.subrange(0, 1));
        assert(a.subrange(0, 1) == p <==> a[0] == c) by {
            assert(a.subrange(0, 1)[0] == a[0]);
            if a[0] == c {
                assert(a.subrange(0, 1) =~= p);
            }
        }
        assert(begins(a, p) <==> a[0] == c);
        assert(begins(s, p) <==> a[0] == c);
        if a[0] == c {
            assert(w + (replace_all(t, p, w) + replace_all(b, p, w)) =~= w + replace_all(t, p, w)
                + replace_all(b, p, w));
        } else {
            assert(seq![a[0]] + (replace_all(t, p, w) + replace_all(b, p, w)) =~= seq![a[0]]
                + replace_all(t, p, w) + replace_all(b, p, w));
        }
        if a.len() == 1 {
            assert(t =~= none);
            assert(w + none =~= w);
            assert(seq![a[0]] + none =~= a);
        }
    }
}

/// A text is escaped character by character: `&`, `<` and `>` become their entities, and every
/// other character stays.
pub proof fn law_escaped_by_character(a: Seq<char>, b: Seq<char>, c: char)
    ensures
        escaped(a + b) == escaped(a) + escaped(b),
        escaped(Seq::empty()).len() == 0,
        escaped(seq!['&']) == seq!['&', 'a', 'm', 'p', ';'],
        escaped(seq!['<']) == seq!['&', 'l', 't', ';'],
        escaped(seq!['>']) == seq!['&', 'g', 't', ';'],
        c != '&' && c != '<' && c != '>' ==> escaped(seq![c]) == seq![c],
{
    reveal_strlit("&");
    reveal_strlit("<");
    reveal_strlit(">");
    reveal_strlit("&amp;");
    reveal_strlit("&lt;");
    reveal_strlit("&gt;");
    assert("&"@ =~= seq!['&']);
    assert("<"@ =~= seq!['<']);
    assert(">"@ =~= seq!['>']);
    let x = replace_all(a, "&"@, "&amp;"@);
    let y = replace_all(b, "&"@, "&amp;"@);
    lemma_replaced_apart(a, b, '&', "&amp;"@);
    lemma_replaced_apart(x, y, '<', "&lt;"@);
    let x = replace_all(x, "<"@, "&lt;"@);
    let y = replace_all(y, "<"@, "&lt;"@);
    lemma_replaced_apart(x, y, '>', "&gt;"@);
    let one = seq![c];
    lemma_replaced_apart(one, one, '&', "&amp;"@);
    lemma_replaced_apart(one, one, '<', "&lt;"@);
    lemma_replaced_apart(one, one, '>', "&gt;"@);
    let amp = seq!['&', 'a', 'm', 'p', ';'];
    let lt = seq!['&', 'l', 't', ';'];
    let gt = seq!['&', 'g', 't', ';'];
    assert("&amp;"@ =~= amp);
    assert("&lt;"@ =~= lt);
    assert("&gt;"@ =~= gt);
    lemma_replaced_apart(seq!['&'], b, '&', amp);
    lemma_replaced_apart(seq!['<'], b, '&', amp);
    lemma_replaced_apart(seq!['<'], b, '<', lt);
    lemma_replaced_apart(seq!['>'], b, '&', amp);
    lemma_replaced_apart(seq!['>'], b, '<', lt);
    lemma_replaced_apart(seq!['>'], b, '>', gt);
    lemma_without(amp, '<', lt);
    lemma_without(amp, '>', gt);
    lemma_without(lt, '>', gt);
}

proof fn lemma_without(s: Seq<char>, c: char, w: Seq<char>)
    requires
        !s.contains(c),
    ensures
        replace_all(s, seq![c], w) == s,
{
    let p = seq![c];
    assert forall|i: int| !#[trigger] spelled(s, p, i) by {
        if spelled(s, p, i) {
            assert(s[i + 0] == p[0]);
            assert(s.contains(s[i]));
        }
    }
    law_nothing_to_replace(s, p, w);
}

/// The page shows the message, where there is one, and the stored CDK, both escaped; it warns
/// exactly where there are no settings.
pub proof fn law_page(msg: Seq<char>, cdk: Seq<char>)
    ensures
        page(Seq::empty(), cdk, true) == PAGE_TOP@ + PAGE_FORM@ + escaped(cdk) + PAGE_TASK@
            + PAGE_END@,
        msg.len() > 0 ==> page(msg, cdk, false) == PAGE_TOP@ + ("<div class=\"banner\">"@ + escaped(
            msg,
        ) + "</div>"@) + PAGE_FORM@ + escaped(cdk) + PAGE_TASK@
            + "<div class=\"banner warn\">⚠️ 未找到可用的 config.toml，一键重授权不可用（需 base_url/email/password）。</div>"@
            + PAGE_END@,
        msg.len() > 0 ==> page(msg, cdk, true) == PAGE_TOP@ + ("<div class=\"banner\">"@ + escaped(
            msg,
        ) + "</div>"@) + PAGE_FORM@ + escaped(cdk) + PAGE_TASK@ + PAGE_END@,
        page(Seq::empty(), cdk, false) == PAGE_TOP@ + PAGE_FORM@ + escaped(cdk) + PAGE_TASK@
            + "<div class=\"banner warn\">⚠️ 未找到可用的 config.toml，一键重授权不可用（需 base_url/email/password）。</div>"@
            + PAGE_END@,
{
    let none = Seq::<char>::empty();
    assert(PAGE_TOP@ + none =~= PAGE_TOP@);
    let head = PAGE_TOP@ + PAGE_FORM@ + escaped(cdk) + PAGE_TASK@;
    assert(head + none =~= head);
    let with = PAGE_TOP@ + ("<div class=\"banner\">"@ + escaped(msg) + "</div>"@) + PAGE_FORM@
        + escaped(cdk) + PAGE_TASK@;
    assert(with + none =~= with);
}

/// Every outcome and every item of a plan has its row, in order.
pub proof fn law_rows(
    outcomes: Seq<ApplyOutcome>,
    o: ApplyOutcome,
    plans: Seq<PlanItemV>,
    p: PlanItemV,
)
    ensures
        outcome_rows(Seq::empty()).len() == 0,
        plan_rows(Seq::empty()).len() == 0,
        outcome_rows(outcomes.push(o)) == outcome_rows(outcomes) + ("  #"@ + decimal_int(
            o.account_id as int,
        ) + " "@ + o.email@ + (" "@ + (if o.ok {
            "成功"@
        } else {
            o.message@
        }) + "\n"@)),
        plan_rows(plans.push(p)) == plan_rows(plans) + ("  #"@ + decimal_int(p.account_id as int)
            + " "@ + p.email + "\n"@),
{
    assert(outcomes.push(o).drop_last() =~= outcomes);
    assert(plans.push(p).drop_last() =~= plans);
}

/// The summary of a task that writes counts its successes and failures; that of a preview tells
/// what would be written. What was left alone comes last.
pub proof fn law_summary(r: OnceResult)
    ensures
        ({
            let out = r.report.outcomes@;
            let head = ("重授权邮箱："@ + join(texts(r.emails@), ", "@) + "\n"@) + ("结果长度："@ + decimal(
                r.raw_len as nat,
            ) + " 字符\n"@);
            let done = "写回结果：成功 "@ + decimal(good(out)) + " / 失败 "@ + decimal(
                (out.len() - good(out)) as nat,
            ) + "\n"@ + outcome_rows(out);
            let seen = "（预览）匹配 "@ + decimal(r.report.plans@.len()) + " 个账号，未写回\n"@
                + plan_rows(plan_views(r.report.plans@));
            let tail = "跳过："@ + join(texts(r.report.skipped@), "；"@) + "\n"@;
            &&& r.report.skipped@.len() == 0 ==> summary(r, true) == head + done && summary(
                r,
                false,
            ) == head + seen
            &&& r.report.skipped@.len() > 0 ==> summary(r, true) == head + done + tail && summary(
                r,
                false,
            ) == head + seen + tail
        }),
{
    let none = Seq::<char>::empty();
    assert(r.report.skipped@.len() == 0 ==> summary(r, true) + none =~= summary(r, true));
    assert(r.report.skipped@.len() == 0 ==> summary(r, false) + none =~= summary(r, false));
}

/// What is reported of a task tells whether it runs, what it noted, and its result and error,
/// `null` where there is none.
pub proof fn law_status(j: Job)
    ensures
        j.status_doc() matches JsonV::Obj(o) && o.len() == 4 && o[3] == ("running"@, JsonV::Bool(
            j.running,
        )) && o[1] == ("log"@, strings(texts(j.log@))) && o[0] == ("error"@, match j.error {
            Some(e) => JsonV::Str(e@),
            None => JsonV::Null,
        }) && o[2] == ("result"@, match j.result {
            Some(s) => JsonV::Str(s@),
            None => JsonV::Null,
        }),
{
}

// ---------------------------------------------------------------------------
// Laws on what a call gives
// ---------------------------------------------------------------------------

/// No task starts while another runs, and the one that runs is not touched; a new one starts with
/// nothing of the last.
pub proof fn law_one_task_at_a_time(j: &mut Job, r: Result<(), String>)
    requires
        call_ensures(Job::start, (j,), r),
    ensures
        r is Err <==> old(j).running,
        r is Err ==> *final(j) == *old(j),
        final(j).running,
        r is Ok ==> final(j).log@.len() == 0 && final(j).result is None && final(j).error is None,
{
}

/// A task that ended runs no longer and keeps what it noted; its result and its error are told
/// apart.
pub proof fn law_ended_task(j: &mut Job, outcome: Result<String, String>)
    requires
        call_ensures(Job::finish, (j, outcome), ()),
    ensures
        !final(j).running,
        final(j).log == old(j).log,
        outcome matches Ok(s) ==> final(j).result == Some(s) && final(j).error == old(j).error,
        outcome matches Err(e) ==> final(j).error == Some(e) && final(j).result == old(j).result,
{
}

/// A line of progress comes after those before it.
pub proof fn law_noted_line(j: &mut Job, line: String)
    requires
        call_ensures(Job::note, (j, line), ()),
    ensures
        final(j).log@ == old(j).log@.push(line),
        final(j).running == old(j).running,
        final(j).result == old(j).result,
        final(j).error == old(j).error,
{
}

/// Without settings a task is at its end at once, with an error.
pub proof fn law_task_without_settings(j: &mut Job, r: String)
    requires
        call_ensures(Job::no_config, (j,), r),
    ensures
        !final(j).running,
        final(j).error is Some,
        r@
            == "缺少可用的 config.toml（需含 base_url/email/password）。请在启动本服务的目录放好 config.toml 后重启。"@,
{
}

/// Nothing is written unless the form says so in one of four words.
pub proof fn law_form_says_yes(field: &str, r: bool)
    requires
        call_ensures(says_yes, (field,), r),
    ensures
        field@.len() == 0 ==> !r,
        r <==> field@ == "1"@ || field@ == "on"@ || field@ == "true"@ || field@ == "yes"@,
{
    reveal_strlit("1");
    reveal_strlit("on");
    reveal_strlit("true");
    reveal_strlit("yes");
}

/// A blank field singles out no address; any other does, without the spaces around it.
pub proof fn law_form_address(field: &str, r: Option<String>)
    requires
        call_ensures(only_email, (field,), r),
    ensures
        r is None <==> only_spaces(field@),
        r matches Some(e) ==> is_core(field@, e@),
{
    law_trim(field@);
}

/// A request is accepted or refused with a reason, and what is stored is shown as it is.
pub proof fn law_answers(
    error: &str,
    stored: &Result<Option<Credential>, String>,
    yes: Json,
    no: Json,
    creds: Json,
)
    requires
        call_ensures(accepted, (), yes),
        call_ensures(refused, (error,), no),
        call_ensures(creds_report, (stored,), creds),
    ensures
        yes@ == JsonV::Obj(seq![("ok"@, JsonV::Bool(true))]),
        no@ == JsonV::Obj(seq![("error"@, JsonV::Str(error@)), ("ok"@, JsonV::Bool(false))]),
        *stored matches Ok(Some(c)) ==> creds@ == JsonV::Obj(
            seq![("cdk"@, JsonV::Str(c.cdk@)), ("updated_at"@, JsonV::Str(c.updated_at@))],
        ),
        *stored matches Err(e) ==> creds@ == JsonV::Obj(seq![("error"@, JsonV::Str(e@))]),
{
}

/// The page that is sent is that of the message, the CDK and the settings; a text is sent escaped.
pub proof fn law_sent_page(msg: &str, cdk: &str, configured: bool, r: String, s: &str, e: String)
    requires
        call_ensures(page_html, (msg, cdk, configured), r),
        call_ensures(esc, (s,), e),
    ensures
        r@ == page(msg@, cdk@, configured),
        e@ == escaped(s@),
        !e@.contains('<'),
        !e@.contains('>'),
{
    law_escaped_text_holds_no_tag(s@);
}

} // verus!
