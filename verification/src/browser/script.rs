//! The scripts that are run in a page.
//!
//! A script with a value in it holds the value in JSON notation, so that no text can break out of
//! its place.
use crate::json::{quote, quoted};
use crate::text::basic::{text3, text5, texts};
use crate::text::charwise::{is_core, law_filled, law_split, law_trim, only_spaces};
use crate::text::split::{filled, keep_filled, split, split_at_char};
use vstd::prelude::*;

verus! {

/// Reads which parts of the entry page are visible.
pub const JS_MARKERS: &'static str = "(() => { const ids = ['gate','gateCdk','gateEnter','mergeBtn','mergeBanner','stat','jobs','work','go','left','newCdk','newLeft']; \
    const o = {}; for (const id of ids) { const el = document.getElementById(id); \
    let v = false; if (el) { const r = el.getBoundingClientRect(); \
    v = !!(r.width || r.height) && getComputedStyle(el).visibility !== 'hidden'; } o[id] = v; } return o; })()";

/// Reads the form fields of a page.
pub const JS_FIELDS: &'static str = "(() => { const els = [...document.querySelectorAll('input,button,select,textarea,a[href]')]; \
    return els.map(e => ({ tag: e.tagName, type: e.getAttribute('type'), name: e.getAttribute('name'), \
    id: e.id, placeholder: e.getAttribute('placeholder'), text: (e.textContent || '').trim().slice(0, 48) })) \
    .filter(f => f.text || f.placeholder || f.type || f.tag === 'INPUT' || f.tag === 'BUTTON') \
    .slice(0, 80); })()";

/// Clicks the channel button of the conversion page.
pub const JS_CLICK_CHANNEL: &'static str = "(() => { const b = [...document.querySelectorAll('button')] \
    .find(x => /sub2api/i.test(x.textContent || '')); \
    if (!b) return false; b.click(); return true; })()";

/// Reads where the sign-in page stands.
pub const JS_OAUTH_STATE: &'static str = "(() => ({ \
    u: location.href, t: document.title, \
    body: (document.body ? document.body.innerText : '').replace(/\\s+/g,' ').slice(0,260), \
    email: !!document.querySelector('input[name=email], input[type=email]'), \
    code: !!document.querySelector('input[name=code], input[autocomplete=one-time-code], input[inputmode=numeric]'), \
    pwd: !!document.querySelector('input[type=password]'), \
    challenge: !!document.querySelector('iframe[src*=\"challenges.cloudflare.com\"]'), \
    cfTitle: document.title.includes('请稍候') || document.title.includes('Just a moment') \
    }))()";

/// Reads the addresses of the accounts that the result page reports as banned.
///
/// Only a box that holds the result of a single account counts. A box with several addresses holds
/// the results of several accounts, and one that succeeded is not banned: an account that is
/// missed can be handled later, one that is deleted by mistake is gone.
pub const JS_EXTRACT_BANNED: &'static str = r#"(() => {
  const keywords = ['封禁','停用','deactivated','banned','suspended','disabled'];
  const emailRe = /[a-zA-Z0-9._%+-]+@[a-zA-Z0-9.-]+\.[a-zA-Z]{2,}/g;
  const hasBanWord = (s) => !!s && keywords.some(k => s.toLowerCase().includes(k.toLowerCase()));
  const banned = new Set();

  // 只取「单条结果」容器：#jobs 的直接子元素，或结果区里的卡片。
  // 注意 [class~="card"] 是整词匹配，不会像 [class*="card"] 那样误伤 cardlist。
  const boxes = document.querySelectorAll('#jobs > *, #work .card, .jobs > *, [class~="card"]');

  for (const el of boxes) {
    const text = el.innerText || '';
    const own = text.match(emailRe) || [];

    // 该条状态：门页的 <span class="st ok|error|queued|running">。
    // 已成功的条目绝不可能「被封禁」——直接跳过，避免日志里出现 disabled 之类
    // 无关字样（例如「2FA disabled」）被算成封禁。
    const stEl = el.querySelector ? el.querySelector('.st') : null;
    if (stEl) {
      const stCls = (stEl.className || '').toLowerCase();
      const stTxt = (stEl.textContent || '').trim().toLowerCase();
      if (/\bok\b/.test(stCls) || stTxt === 'ok' || stTxt === '成功') continue;
    }

    // 结构性取邮箱：卡片里的 .mail 就是这一条的邮箱
    const mailEl = el.querySelector ? el.querySelector('.mail') : null;
    const mail = (mailEl && (mailEl.textContent || '').trim()) || '';

    // 拿不到结构化邮箱时，才退化成「容器里恰好一个邮箱」的推断；
    // 一旦 >1 就说明这是聚合容器，必须丢弃。
    let email = mail;
    if (!email) {
      if (own.length !== 1) continue;
      email = own[0];
    }

    // 双保险：即使拿到了 .mail，若卡片内还混着别的邮箱，也不认（结构异常）
    if (own.length > 1) continue;

    if (hasBanWord(text)) banned.add(email.toLowerCase());
  }

  return [...banned];
})()"#;

/// How a script that looks for an element begins.
pub const QUERY: &'static str = "(() => { const el = document.querySelector(";

/// How [`js_visible`] ends.
pub const VISIBLE: &'static str = "); if (!el) return false; \
    if (el.hasAttribute('hidden')) return false; \
    const r = el.getBoundingClientRect(); \
    const style = getComputedStyle(el); \
    return !!(r.width || r.height) && style.display !== 'none' && style.visibility !== 'hidden'; })()";

/// How [`js_fill`] goes on after the element.
pub const FILL: &'static str = "); if (!el) return false; el.value = ";

/// How [`js_fill`] ends.
pub const FILLED: &'static str = "; \
    el.dispatchEvent(new Event('input', { bubbles: true })); \
    el.dispatchEvent(new Event('change', { bubbles: true })); \
    return true; })()";

/// How [`js_click`] ends.
pub const CLICK: &'static str = "); if (!el) return false; el.click(); return true; })()";

/// How [`js_text`] ends.
pub const TEXT: &'static str = "); return el ? (el.textContent || '') : ''; })()";

/// How [`js_input_value`] ends.
pub const VALUE: &'static str = "); return el ? (el.value || '') : ''; })()";

/// How [`js_enabled`] ends.
pub const ENABLED: &'static str = "); return !!el && !el.disabled; })()";

/// How [`js_clear`] ends.
pub const CLEAR: &'static str = "); if (el) { el.value = ''; \
    el.dispatchEvent(new Event('input', { bubbles: true })); } return 'ok'; })()";

/// How [`js_click_text`] begins.
pub const WANT: &'static str = "(() => { const want = ";

/// How [`js_click_text`] ends.
pub const CLICK_WANTED: &'static str = "; \
    const els = [...document.querySelectorAll('button, [role=button], input[type=submit]')]; \
    const hit = els.find(e => e.offsetHeight > 0 && (e.textContent || '').trim().includes(want)); \
    if (!hit) return 'no-btn'; hit.click(); return 'clicked'; })()";

/// How [`js_set_input`] goes on after the element.
pub const SET: &'static str = "); if (!el) return 'no-el'; el.focus(); \
    const d = Object.getOwnPropertyDescriptor(window.HTMLInputElement.prototype, 'value'); \
    const setter = (d && d.set) || Object.getOwnPropertyDescriptor(window.HTMLTextAreaElement.prototype, 'value').set; \
    setter.call(el, ";

/// How [`js_set_input`] ends.
pub const HAVE_SET: &'static str = "); el.dispatchEvent(new Event('input', { bubbles: true })); \
    el.dispatchEvent(new Event('change', { bubbles: true })); return 'ok'; })()";

/// Whether the element `sel` is visible.
pub fn js_visible(sel: &str) -> (r: String)
    ensures
        r@ == QUERY@ + quote(sel@) + VISIBLE@,
{
    let q_sel = quoted(sel);
    text3(QUERY, q_sel.as_str(), VISIBLE)
}

/// Fills the element `sel` with `value`.
pub fn js_fill(sel: &str, value: &str) -> (r: String)
    ensures
        r@ == QUERY@ + quote(sel@) + FILL@ + quote(value@) + FILLED@,
{
    let q_sel = quoted(sel);
    let q_value = quoted(value);
    text5(QUERY, q_sel.as_str(), FILL, q_value.as_str(), FILLED)
}

/// Clicks the element `sel`.
pub fn js_click(sel: &str) -> (r: String)
    ensures
        r@ == QUERY@ + quote(sel@) + CLICK@,
{
    let q_sel = quoted(sel);
    text3(QUERY, q_sel.as_str(), CLICK)
}

/// Reads the text of the element `sel`.
pub fn js_text(sel: &str) -> (r: String)
    ensures
        r@ == QUERY@ + quote(sel@) + TEXT@,
{
    let q_sel = quoted(sel);
    text3(QUERY, q_sel.as_str(), TEXT)
}

/// Reads the value of the element `sel`.
pub fn js_input_value(sel: &str) -> (r: String)
    ensures
        r@ == QUERY@ + quote(sel@) + VALUE@,
{
    let q_sel = quoted(sel);
    text3(QUERY, q_sel.as_str(), VALUE)
}

/// Whether the element `sel` is enabled.
pub fn js_enabled(sel: &str) -> (r: String)
    ensures
        r@ == QUERY@ + quote(sel@) + ENABLED@,
{
    let q_sel = quoted(sel);
    text3(QUERY, q_sel.as_str(), ENABLED)
}

/// Empties the element `sel`.
pub fn js_clear(sel: &str) -> (r: String)
    ensures
        r@ == QUERY@ + quote(sel@) + CLEAR@,
{
    let q_sel = quoted(sel);
    text3(QUERY, q_sel.as_str(), CLEAR)
}

/// Sets the element `sel` to `value` by way of the property of its class.
pub fn js_set_input(sel: &str, value: &str) -> (r: String)
    ensures
        r@ == QUERY@ + quote(sel@) + SET@ + quote(value@) + HAVE_SET@,
{
    let q_sel = quoted(sel);
    let q_value = quoted(value);
    text5(QUERY, q_sel.as_str(), SET, q_value.as_str(), HAVE_SET)
}

/// Clicks the visible button whose text holds `text`.
pub fn js_click_text(text: &str) -> (r: String)
    ensures
        r@ == WANT@ + quote(text@) + CLICK_WANTED@,
{
    let q_text = quoted(text);
    text3(WANT, q_text.as_str(), CLICK_WANTED)
}

/// The first selector of a list that is not blank, or the list itself.
pub open spec fn first_of(list: Seq<char>) -> Seq<char> {
    let parts = filled(split(list, ','));
    if parts.len() == 0 {
        list
    } else {
        parts[0]
    }
}

/// The first selector of a list that is not blank.
pub fn first_selector(list: &str) -> (r: String)
    ensures
        r@ == first_of(list@),
{
    let parts = split_at_char(list, ',');
    let kept = keep_filled(&parts, 0);
    assert(texts(parts@).skip(0) == texts(parts@));
    assert(texts(kept@).len() == kept@.len());
    if kept.len() == 0 {
        list.to_owned()
    } else {
        assert(texts(kept@)[0] == kept@[0]@);
        kept[0].clone()
    }
}

/// The first selector of a list is the part before its first comma, without the spaces around it;
/// where that is blank, it is the first of the rest.
pub proof fn law_first_selector(a: Seq<char>, b: Seq<char>)
    requires
        !a.contains(','),
    ensures
        !only_spaces(a) ==> is_core(a, first_of(a)) && is_core(a, first_of(a + seq![','] + b)),
        only_spaces(a) ==> first_of(a) == a,
        only_spaces(a) && filled(split(b, ',')).len() > 0 ==> first_of(a + seq![','] + b)
            == first_of(b),
{
    law_split(a, b, ',');
    law_trim(a);
    let one = seq![a];
    law_filled(one, split(b, ','));
}

} // verus!
