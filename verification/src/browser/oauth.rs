//! The sign-in that ends with an authorisation code: what the page asks for, and what to do.
use crate::json::{law_typed_field, Json, JsonV};
use crate::text::basic::{opt_text, same, text2, text3};
use crate::text::charwise::{law_first_occurrence, law_substring, somewhere, spelled};
use crate::text::numeral::{decimal, number_text};
use crate::text::search::{
    after_first, before_first, begins, begins_with, contains, holds, text_after, text_before,
};
use vstd::prelude::*;
use vstd::utf8::encode_utf8;

verus! {

/// How a sign-in ended.
#[derive(Debug, Clone)]
pub struct OAuthOutcome {
    /// The authorisation code.
    pub code: Option<String>,
    /// `done`, `need_code`, `need_password`, `blocked`, `timeout` or `cancelled`.
    pub status: String,
    /// Whether a user has to step in.
    pub needs_human: bool,
    pub message: String,
    /// What was reported on the way.
    pub log: Vec<String>,
}

/// Whether `s` is a status with which a sign-in can end.
pub open spec fn is_status(s: Seq<char>) -> bool {
    ||| s == "done"@
    ||| s == "need_code"@
    ||| s == "need_password"@
    ||| s == "blocked"@
    ||| s == "timeout"@
    ||| s == "cancelled"@
}

impl OAuthOutcome {
    /// The status is a known one, and a code comes only with a sign-in that is done.
    pub open spec fn wf(self) -> bool {
        is_status(self.status@) && (self.code is Some ==> self.status@ == "done"@)
    }

    /// Whether the outcome is well formed.
    pub fn is_wf(&self) -> (r: bool)
        ensures
            r == self.wf(),
    {
        let s = self.status.as_str();
        same(s, "done") || (self.code.is_none() && (same(s, "need_code") || same(s, "need_password")
            || same(s, "blocked") || same(s, "timeout") || same(s, "cancelled")))
    }

    /// Whether the outcome has no code, and this status and message.
    pub open spec fn says(self, status: Seq<char>, needs_human: bool, message: Seq<char>) -> bool {
        &&& self.code is None
        &&& self.status@ == status
        &&& self.needs_human == needs_human
        &&& self.message@ == message
        &&& self.log@.len() == 0
    }

    fn without_code(status: &str, needs_human: bool, message: String) -> (r: OAuthOutcome)
        ensures
            r.says(status@, needs_human, message@),
    {
        OAuthOutcome {
            code: None,
            status: status.to_owned(),
            needs_human,
            message,
            log: Vec::new(),
        }
    }
}

// ---------------------------------------------------------------------------
// The callback
// ---------------------------------------------------------------------------

/// Whether an address is the callback of a sign-in.
pub open spec fn is_callback(url: Seq<char>) -> bool {
    begins(url, "http://localhost:1455"@) || holds(url, "localhost:1455/auth/callback"@)
}

/// The code in the address of a callback: what follows `code=`, up to the next `code=` or `&`.
pub open spec fn callback_code(url: Seq<char>) -> Option<Seq<char>> {
    match after_first(url, "code="@) {
        Some(rest) => Some(before_first(before_first(rest, "code="@), "&"@)),
        None => None,
    }
}

/// The code in the address of a callback.
pub fn code_in_callback(url: &str) -> (r: Option<String>)
    ensures
        opt_text(r) == callback_code(url@),
{
    match text_after(url, "code=") {
        Some(rest) => {
            let one = text_before(rest.as_str(), "code=");
            Some(text_before(one.as_str(), "&"))
        },
        None => None,
    }
}

/// The line that reports a callback, and whether it has a code.
pub fn callback_line(o: &OAuthOutcome) -> (r: String)
    ensures
        r@ == "已拿到 OAuth 回调"@ + (if o.code is Some {
            "（含 code）"@
        } else {
            "（无 code，可能被拒绝）"@
        }),
{
    text2(
        "已拿到 OAuth 回调",
        if o.code.is_some() {
            "（含 code）"
        } else {
            "（无 code，可能被拒绝）"
        },
    )
}

// ---------------------------------------------------------------------------
// The pace
// ---------------------------------------------------------------------------

/// How long the page is left alone before an address is typed, in milliseconds.
pub open spec fn settle_ms(email: Seq<char>) -> int {
    1500 + (encode_utf8(email).len() as int * 11) % 1100
}

/// How long the page is left alone before an address is typed, in milliseconds.
pub fn settle_time(email: &str) -> (r: u128)
    ensures
        r == settle_ms(email@),
        1500 <= r < 2600,
{
    let n: usize = email.as_bytes().len();
    1500 + (n as u128 * 11) % 1100
}

/// How long to wait after the character `c` at position `i`, in milliseconds: longer after a mark.
pub fn key_delay(i: usize, c: char) -> (r: u64)
    ensures
        r == (if c == '@' || c == '.' || c == '_' || c == '-' {
            105int
        } else {
            38
        }) + (i * 37) % 55,
{
    let base: u64 = if c == '@' || c == '.' || c == '_' || c == '-' {
        105
    } else {
        38
    };
    let extra: u128 = (i as u128 * 37) % 55;
    base + extra as u64
}

// ---------------------------------------------------------------------------
// The flow
// ---------------------------------------------------------------------------

/// A second, in nanoseconds.
pub const SECOND: u128 = 1_000_000_000;

/// A millisecond, in nanoseconds.
pub const MILLI: u128 = 1_000_000;

/// How often the page is loaded anew while it is held up.
pub const MAX_RELOADS: u32 = 2;

/// Where a sign-in stands. Times are in nanoseconds from its start.
#[derive(Debug, Clone)]
pub struct OAuthFlow {
    pub email_filled: bool,
    pub code_filled: bool,
    /// Since when the page is held up by a challenge.
    pub challenged_since: Option<u128>,
    pub reloads: u32,
    /// Whether it was reported that a code is awaited.
    pub announced: bool,
    /// Since when the page asks for the address.
    pub email_since: Option<u128>,
}

/// What to do after a look at the page.
#[derive(Debug)]
pub enum LookStep {
    /// The sign-in is over.
    Finish(OAuthOutcome),
    /// Load the page anew, and report this.
    Reload(String),
    /// Look again later.
    Wait,
    /// Type the address, and go on.
    TypeEmail,
    /// Go on.
    GoOn,
}

/// What to do where the page may ask for a code.
#[derive(Debug)]
pub enum CodeStep {
    /// It does not, or was answered.
    Nothing,
    /// Fetch the code; where the flag is set, report that it is awaited.
    Fetch(bool),
    /// The sign-in is over; where the flag is set, report before that a code is awaited.
    Finish(bool, OAuthOutcome),
}

/// Whether the page is held up by a challenge.
pub open spec fn challenged(st: JsonV) -> bool {
    st.field_true("challenge"@) || st.field_true("cfTitle"@)
}

/// The address of the page.
pub open spec fn page_url(st: JsonV) -> Seq<char> {
    st.field_text("u"@).unwrap_or(Seq::empty())
}

/// How many whole seconds have passed since `since`, which begins now where it is not set.
pub open spec fn waited(since: Option<u128>, now: u128) -> int {
    match since {
        Some(t) => if now >= t {
            (now - t) / SECOND as int
        } else {
            0
        },
        None => 0,
    }
}

/// Whether the page is still left alone before the address is typed.
pub open spec fn settling(since: Option<u128>, now: u128, email: Seq<char>) -> bool {
    match since {
        Some(t) => now < t + settle_ms(email) * MILLI,
        None => true,
    }
}

fn seconds_since(since: Option<u128>, now: u128) -> (r: u128)
    ensures
        r == waited(since, now),
{
    match since {
        Some(t) => if now >= t {
            (now - t) / SECOND
        } else {
            0
        },
        None => 0,
    }
}

impl OAuthFlow {
    /// A code is awaited and filled in only after the address was, and the page is not loaded
    /// anew too often.
    pub open spec fn wf(self) -> bool {
        &&& self.reloads <= MAX_RELOADS
        &&& self.code_filled ==> self.email_filled
        &&& self.announced ==> self.email_filled
    }

    /// The start of a sign-in.
    pub fn begin() -> (r: OAuthFlow)
        ensures
            r.wf(),
            r == (OAuthFlow {
                email_filled: false,
                code_filled: false,
                challenged_since: None,
                reloads: 0,
                announced: false,
                email_since: None,
            }),
    {
        OAuthFlow {
            email_filled: false,
            code_filled: false,
            challenged_since: None,
            reloads: 0,
            announced: false,
            email_since: None,
        }
    }

    /// How the sign-in ends before another look: because the user gave up, or because the time is
    /// over.
    pub fn stopped(&self, now: u128, max_seconds: u64, cancelled: bool) -> (r: Option<OAuthOutcome>)
        ensures
            r matches Some(o) ==> o.wf(),
            if cancelled {
                r matches Some(o) && o.says("cancelled"@, false, "已取消"@)
            } else if now > max_seconds as int * SECOND as int {
                r matches Some(o) && o.says(
                    "timeout"@,
                    true,
                    "等待授权超时（"@ + decimal(max_seconds as nat) + "s）"@,
                )
            } else {
                r is None
            },
    {
        if cancelled {
            return Some(OAuthOutcome::without_code("cancelled", false, "已取消".to_owned()));
        }
        if now > max_seconds as u128 * SECOND {
            let n = number_text(max_seconds);
            return Some(
                OAuthOutcome::without_code(
                    "timeout",
                    true,
                    text3("等待授权超时（", n.as_str(), "s）"),
                ),
            );
        }
        None
    }

    /// What a look at the page `st` leads to.
    pub open spec fn look_at(self, st: JsonV, now: u128, email: Seq<char>) -> (OAuthFlow, LookV) {
        if is_callback(page_url(st)) {
            (self, LookV::Callback)
        } else if challenged(st) {
            let w = waited(self.challenged_since, now);
            if w > 12 && self.reloads < MAX_RELOADS {
                (
                    OAuthFlow {
                        challenged_since: None,
                        reloads: (self.reloads + 1) as u32,
                        ..self
                    },
                    LookV::Reload,
                )
            } else {
                let since = match self.challenged_since {
                    Some(t) => Some(t),
                    None => Some(now),
                };
                (
                    OAuthFlow { challenged_since: since, ..self },
                    if w > 40 {
                        LookV::Blocked
                    } else {
                        LookV::Wait
                    },
                )
            }
        } else {
            let calm = OAuthFlow { challenged_since: None, ..self };
            if st.field_true("pwd"@) {
                (calm, LookV::Password)
            } else if !self.email_filled && st.field_true("email"@) {
                let since = match self.email_since {
                    Some(t) => Some(t),
                    None => Some(now),
                };
                (
                    OAuthFlow { email_since: since, ..calm },
                    if settling(self.email_since, now, email) {
                        LookV::Wait
                    } else {
                        LookV::TypeEmail
                    },
                )
            } else {
                (calm, LookV::GoOn)
            }
        }
    }

    /// Looks at the page `st`. A callback ends the sign-in. A challenge is given time; after
    /// twelve seconds the page is loaded anew, at most twice, and after forty a user has to step
    /// in. So has one where a password is asked for. An address is typed once the page was left
    /// alone for a while.
    pub fn look(&mut self, st: &Json, now: u128, email: &str) -> (r: LookStep)
        requires
            old(self).wf(),
        ensures
            final(self).wf(),
            *final(self) == old(self).look_at(st@, now, email@).0,
            looks(r, old(self).look_at(st@, now, email@).1, page_url(st@), final(self).reloads),
            r matches LookStep::Finish(o) ==> o.wf(),
            (r matches LookStep::Finish(o) && o.status@ == "done"@) == at_callback(st@),
            r matches LookStep::Finish(o) ==> o.status@ == "done"@ || o.status@ == "blocked"@
                || o.status@ == "need_password"@,
            !at_callback(st@) && held_up(st@) ==> r is Wait || r is Reload || (r matches
                LookStep::Finish(o) && o.status@ == "blocked"@),
            !at_callback(st@) && !held_up(st@) && st@.get("pwd"@) == Some(JsonV::Bool(true)) ==> (r
                matches LookStep::Finish(o) && o.status@ == "need_password"@ && o.needs_human),
            r is TypeEmail ==> !old(self).email_filled && st@.get("email"@) == Some(
                JsonV::Bool(true),
            ) && !at_callback(st@) && !held_up(st@),
    {
        proof {
            law_callback(st@);
            law_held_up(st@);
            lemma_statuses_differ();
            law_typed_field(st@, "pwd"@);
            law_typed_field(st@, "email"@);
        }
        let url = st.get_text("u");
        if begins_with(url.as_str(), "http://localhost:1455") || contains(
            url.as_str(),
            "localhost:1455/auth/callback",
        ) {
            return LookStep::Finish(
                OAuthOutcome {
                    code: code_in_callback(url.as_str()),
                    status: "done".to_owned(),
                    needs_human: false,
                    message: "授权完成".to_owned(),
                    log: Vec::new(),
                },
            );
        }
        if st.get_true("challenge") || st.get_true("cfTitle") {
            let w = seconds_since(self.challenged_since, now);
            if self.challenged_since.is_none() {
                self.challenged_since = Some(now);
            }
            if w > 12 && self.reloads < MAX_RELOADS {
                self.reloads = self.reloads + 1;
                self.challenged_since = None;
                let n = number_text(self.reloads as u64);
                return LookStep::Reload(text3("质询未过，第 ", n.as_str(), " 次重载授权链接"));
            }
            if w > 40 {
                return LookStep::Finish(
                    OAuthOutcome::without_code(
                        "blocked",
                        true,
                        "Cloudflare 要求人工验证，请在有头窗口里点一下「验证您是真人」".to_owned(),
                    ),
                );
            }
            return LookStep::Wait;
        }
        self.challenged_since = None;
        if st.get_true("pwd") {
            return LookStep::Finish(
                OAuthOutcome::without_code(
                    "need_password",
                    true,
                    "该账号要求输入密码，请在浏览器里手动完成".to_owned(),
                ),
            );
        }
        if !self.email_filled && st.get_true("email") {
            let settle = settle_time(email);
            let calm: bool = match self.email_since {
                Some(t) => now >= t && now - t >= settle * MILLI,
                None => false,
            };
            if self.email_since.is_none() {
                self.email_since = Some(now);
            }
            if !calm {
                return LookStep::Wait;
            }
            return LookStep::TypeEmail;
        }
        LookStep::GoOn
    }

    /// Notes that the address was typed and sent.
    pub fn email_sent(&mut self)
        requires
            old(self).wf(),
        ensures
            final(self).wf(),
            *final(self) == (OAuthFlow { email_filled: true, ..*old(self) }),
    {
        self.email_filled = true;
    }

    /// Decides what to do where the page may ask for a code: it is fetched where the mailbox
    /// service is set up, and otherwise a user has to step in.
    pub fn code_step(&mut self, st: &Json, mail_ready: bool) -> (r: CodeStep)
        requires
            old(self).wf(),
        ensures
            final(self).wf(),
            if old(self).email_filled && !old(self).code_filled && st@.field_true("code"@) {
                &&& *final(self) == (OAuthFlow { announced: true, ..*old(self) })
                &&& if mail_ready {
                    r == CodeStep::Fetch(!old(self).announced)
                } else {
                    r matches CodeStep::Finish(first, o) && first == !old(self).announced && o.says(
                        "need_code"@,
                        true,
                        "已到验证码输入页，但未配置收码站，请手动输入验证码"@,
                    )
                }
            } else {
                r is Nothing && *final(self) == *old(self)
            },
            r matches CodeStep::Finish(_, o) ==> o.wf(),
    {
        if self.email_filled && !self.code_filled && st.get_true("code") {
            let first = !self.announced;
            self.announced = true;
            if mail_ready {
                CodeStep::Fetch(first)
            } else {
                CodeStep::Finish(
                    first,
                    OAuthOutcome::without_code(
                        "need_code",
                        true,
                        "已到验证码输入页，但未配置收码站，请手动输入验证码".to_owned(),
                    ),
                )
            }
        } else {
            CodeStep::Nothing
        }
    }

    /// Notes that the code was typed and sent.
    pub fn code_sent(&mut self)
        requires
            old(self).wf(),
            old(self).email_filled,
        ensures
            final(self).wf(),
            *final(self) == (OAuthFlow { code_filled: true, ..*old(self) }),
    {
        self.code_filled = true;
    }
}

/// What a look at the page leads to.
pub enum LookV {
    Callback,
    Reload,
    Blocked,
    Password,
    Wait,
    TypeEmail,
    GoOn,
}

/// Whether `r` is the step that a look leads to, at a page with this address.
pub open spec fn looks(r: LookStep, v: LookV, url: Seq<char>, reloads: u32) -> bool {
    match v {
        LookV::Callback => r matches LookStep::Finish(o) && opt_text(o.code) == callback_code(url)
            && o.status@ == "done"@ && !o.needs_human && o.message@ == "授权完成"@ && o.log@.len() == 0,
        LookV::Reload => r matches LookStep::Reload(s) && s@ == "质询未过，第 "@ + decimal(
            reloads as nat,
        ) + " 次重载授权链接"@,
        LookV::Blocked => r matches LookStep::Finish(o) && o.says(
            "blocked"@,
            true,
            "Cloudflare 要求人工验证，请在有头窗口里点一下「验证您是真人」"@,
        ),
        LookV::Password => r matches LookStep::Finish(o) && o.says(
            "need_password"@,
            true,
            "该账号要求输入密码，请在浏览器里手动完成"@,
        ),
        LookV::Wait => r is Wait,
        LookV::TypeEmail => r is TypeEmail,
        LookV::GoOn => r is GoOn,
    }
}

/// How a sign-in ends that does not end by itself, `seconds` after its start.
pub fn hard_timeout(seconds: u64) -> (r: OAuthOutcome)
    ensures
        r.wf(),
        r.says("timeout"@, true, "流程硬超时（"@ + decimal(seconds as nat) + "s）"@),
{
    let n = number_text(seconds);
    OAuthOutcome::without_code("timeout", true, text3("流程硬超时（", n.as_str(), "s）"))
}

// ---------------------------------------------------------------------------
// Laws
// ---------------------------------------------------------------------------

/// The address is typed at most once: after it was sent, no look asks for it again.
pub proof fn law_address_is_typed_once(f: OAuthFlow, st: JsonV, now: u128, email: Seq<char>)
    requires
        f.email_filled,
    ensures
        !(f.look_at(st, now, email).1 is TypeEmail),
        f.look_at(st, now, email).0.email_filled,
{
}

/// The page is loaded anew at most twice, and a user has to step in because of a challenge only
/// after that.
pub proof fn law_reloads_are_bounded(f: OAuthFlow, st: JsonV, now: u128, email: Seq<char>)
    requires
        f.wf(),
    ensures
        f.look_at(st, now, email).0.reloads <= MAX_RELOADS,
        f.look_at(st, now, email).1 is Reload ==> f.reloads < MAX_RELOADS,
        f.look_at(st, now, email).1 is Blocked ==> f.reloads == MAX_RELOADS,
{
}

/// A callback ends a sign-in whatever else the page shows.
pub proof fn law_callback_comes_first(f: OAuthFlow, st: JsonV, now: u128, email: Seq<char>)
    requires
        is_callback(page_url(st)),
    ensures
        f.look_at(st, now, email).1 is Callback,
{
}

/// Whether the page is the callback: its address begins with `http://localhost:1455`, or holds
/// `localhost:1455/auth/callback`.
pub open spec fn at_callback(st: JsonV) -> bool {
    st.get("u"@) matches Some(JsonV::Str(url)) && (spelled(url, "http://localhost:1455"@, 0)
        || somewhere(url, "localhost:1455/auth/callback"@))
}

/// Whether the page shows a challenge.
pub open spec fn held_up(st: JsonV) -> bool {
    st.get("challenge"@) == Some(JsonV::Bool(true)) || st.get("cfTitle"@) == Some(JsonV::Bool(true))
}

/// The page is taken for the callback by the characters of its address, and by nothing else.
pub proof fn law_callback(st: JsonV)
    ensures
        is_callback(page_url(st)) == at_callback(st),
{
    law_typed_field(st, "u"@);
    let url = page_url(st);
    law_substring(url, "http://localhost:1455"@);
    law_substring(url, "localhost:1455/auth/callback"@);
    reveal_strlit("http://localhost:1455");
    reveal_strlit("localhost:1455/auth/callback");
    if !(st.get("u"@) matches Some(JsonV::Str(_))) {
        assert(url =~= Seq::<char>::empty());
        assert(!spelled(url, "http://localhost:1455"@, 0));
        assert forall|i: int| !#[trigger] spelled(url, "localhost:1455/auth/callback"@, i) by {}
    }
}

/// The page is held up where one of two marks of it says so.
pub proof fn law_held_up(st: JsonV)
    ensures
        challenged(st) == held_up(st),
{
    law_typed_field(st, "challenge"@);
    law_typed_field(st, "cfTitle"@);
}

proof fn lemma_statuses_differ()
    ensures
        "done"@ != "blocked"@,
        "done"@ != "need_password"@,
        "blocked"@ != "need_password"@,
{
    reveal_strlit("done");
    reveal_strlit("blocked");
    reveal_strlit("need_password");
    assert("done"@.len() == 4 && "blocked"@.len() == 7 && "need_password"@.len() == 13);
}

/// No page but the callback ends a sign-in as done: not the link that names the callback as the
/// place to go back to, and not a page that merely speaks of it.
pub proof fn law_only_the_callback_is_the_end(f: OAuthFlow, st: JsonV, now: u128, email: Seq<char>)
    ensures
        (f.look_at(st, now, email).1 is Callback) == at_callback(st),
{
    law_callback(st);
}

/// The code of a callback stands right after the first `code=` in its address, and ends before the
/// next `code=` and before the next `&`.
pub proof fn law_callback_code(url: Seq<char>)
    ensures
        match callback_code(url) {
            Some(c) => exists|i: int| #[trigger]
                spelled(url, "code="@, i) && (forall|j: int|
                    0 <= j < i ==> !#[trigger] spelled(url, "code="@, j)) && spelled(
                    url,
                    c,
                    i + 5,
                ) && !somewhere(c, "code="@) && !somewhere(c, "&"@) && (i + 5 + c.len() == url.len()
                    || url[i + 5 + c.len()] == '&' || spelled(url, "code="@, i + 5 + c.len())),
            None => !somewhere(url, "code="@),
        },
{
    reveal_strlit("code=");
    reveal_strlit("&");
    law_first_occurrence(url, "code="@);
    if let Some(rest) = after_first(url, "code="@) {
        let i = choose|i: int| #[trigger]
            spelled(url, "code="@, i) && (forall|j: int|
                0 <= j < i ==> !#[trigger] spelled(url, "code="@, j)) && rest == url.skip(i + 5)
                && before_first(url, "code="@) == url.take(i);
        let one = before_first(rest, "code="@);
        let c = before_first(one, "&"@);
        law_first_occurrence(rest, "code="@);
        law_first_occurrence(one, "&"@);
        lemma_before_is_free(rest, "code="@);
        lemma_before_is_free(one, "&"@);
        lemma_prefix(rest, "code="@);
        lemma_prefix(one, "&"@);
        assert forall|k: int| 0 <= k < c.len() implies url[i + 5 + k] == #[trigger] c[k] by {
            assert(c[k] == one[k] && one[k] == rest[k]);
        }
        assert(spelled(url, c, i + 5));
        assert forall|j: int| !#[trigger] spelled(c, "code="@, j) by {
            if spelled(c, "code="@, j) {
                assert forall|k: int| 0 <= k < 5 implies one[j + k] == #[trigger] "code="@[k] by {
                    assert(c[j + k] == "code="@[k]);
                }
                assert(spelled(one, "code="@, j));
            }
        }
        if c.len() < one.len() {
            assert(one[c.len() as int] == '&') by {
                assert(somewhere(one, "&"@));
                let k = choose|k: int| #[trigger]
                    spelled(one, "&"@, k) && (forall|j: int|
                        0 <= j < k ==> !#[trigger] spelled(one, "&"@, j)) && c == one.take(k);
                assert(one[k + 0] == "&"@[0]);
            }
            assert(url[i + 5 + c.len()] == rest[c.len() as int]);
        } else if one.len() < rest.len() {
            let k = choose|k: int| #[trigger]
                spelled(rest, "code="@, k) && (forall|j: int|
                    0 <= j < k ==> !#[trigger] spelled(rest, "code="@, j)) && one == rest.take(k);
            assert forall|m: int| 0 <= m < 5 implies url[i + 5 + k + m] == #[trigger] "code="@[m] by {
                assert(rest[k + m] == "code="@[m]);
            }
            assert(spelled(url, "code="@, i + 5 + c.len()));
        }
    }
}

proof fn lemma_prefix(s: Seq<char>, p: Seq<char>)
    ensures
        before_first(s, p).len() <= s.len(),
        before_first(s, p) == s.take(before_first(s, p).len() as int),
        before_first(s, p).len() < s.len() ==> somewhere(s, p),
{
    law_first_occurrence(s, p);
    match after_first(s, p) {
        Some(rest) => {
            let i = choose|i: int| #[trigger]
                spelled(s, p, i) && (forall|j: int| 0 <= j < i ==> !#[trigger] spelled(s, p, j))
                    && rest == s.skip(i + p.len()) && before_first(s, p) == s.take(i);
            assert(s.take(i).len() == i);
        },
        None => {
            assert(s.take(s.len() as int) =~= s);
        },
    }
}

proof fn lemma_before_is_free(s: Seq<char>, p: Seq<char>)
    requires
        p.len() > 0,
    ensures
        !somewhere(before_first(s, p), p),
{
    law_first_occurrence(s, p);
    let b = before_first(s, p);
    lemma_prefix(s, p);
    assert forall|j: int| !#[trigger] spelled(b, p, j) by {
        if spelled(b, p, j) {
            assert forall|k: int| 0 <= k < p.len() implies s[j + k] == #[trigger] p[k] by {
                assert(b[j + k] == p[k]);
            }
            assert(spelled(s, p, j));
            match after_first(s, p) {
                Some(rest) => {
                    let i = choose|i: int| #[trigger]
                        spelled(s, p, i) && (forall|m: int|
                            0 <= m < i ==> !#[trigger] spelled(s, p, m)) && rest == s.skip(
                            i + p.len(),
                        ) && b == s.take(i);
                    assert(j < i);
                },
                None => {},
            }
        }
    }
}

/// A challenge is given twelve seconds before the page is loaded anew, twice at most, and forty
/// before a user has to step in; until then nothing is done.
pub proof fn law_challenge_is_given_time(f: OAuthFlow, st: JsonV, now: u128, email: Seq<char>)
    requires
        f.wf(),
        held_up(st),
        !at_callback(st),
    ensures
        ({
            let past = match f.challenged_since {
                Some(t) => if now >= t {
                    (now - t) as int
                } else {
                    0
                },
                None => 0,
            };
            let step = f.look_at(st, now, email).1;
            &&& step is Reload <==> past >= 13000000000 && f.reloads < 2
            &&& step is Blocked <==> past >= 41000000000 && f.reloads == 2
            &&& step is Wait <==> !(step is Reload) && !(step is Blocked)
        }),
{
    law_callback(st);
    law_held_up(st);
}

/// An address is typed only after the page asked for it for at least a second and a half, and
/// surely after two and three fifths.
pub proof fn law_page_is_left_alone_first(f: OAuthFlow, st: JsonV, now: u128, email: Seq<char>)
    requires
        !held_up(st),
        !at_callback(st),
        st.get("pwd"@) != Some(JsonV::Bool(true)),
        st.get("email"@) == Some(JsonV::Bool(true)),
        !f.email_filled,
    ensures
        f.email_since is None ==> f.look_at(st, now, email).1 is Wait && f.look_at(
            st,
            now,
            email,
        ).0.email_since == Some(now),
        f.email_since matches Some(t) ==> (f.look_at(st, now, email).1 is TypeEmail ==> now - t
            >= 1500000000) && (now - t >= 2600000000 ==> f.look_at(st, now, email).1 is TypeEmail),
{
    law_callback(st);
    law_held_up(st);
    law_typed_field(st, "pwd"@);
    law_typed_field(st, "email"@);
    assert(0 <= (encode_utf8(email).len() as int * 11) % 1100 < 1100);
}

// ---------------------------------------------------------------------------
// Laws on what a call gives
// ---------------------------------------------------------------------------

/// A sign-in is done exactly at the callback, whose address tells the code.
pub proof fn law_sign_in_is_done_at_the_callback(
    f: &mut OAuthFlow,
    st: &Json,
    now: u128,
    email: &str,
    r: LookStep,
)
    requires
        call_ensures(OAuthFlow::look, (f, st, now, email), r),
    ensures
        at_callback(st@) <==> (r matches LookStep::Finish(o) && o.status@ == "done"@),
        r matches LookStep::Finish(o) ==> (o.status@ == "done"@ ==> !o.needs_human && opt_text(
            o.code,
        ) == callback_code(page_url(st@))),
        r matches LookStep::Finish(o) ==> (o.status@ != "done"@ ==> o.needs_human && o.code is None),
{
    law_callback(st@);
    lemma_statuses_differ();
}

/// A page that is held up is looked at again; it is loaded anew at most twice, and only after more
/// than twelve seconds, and a user has to step in only after more than forty.
pub proof fn law_held_up_page(
    f: &mut OAuthFlow,
    st: &Json,
    now: u128,
    email: &str,
    r: LookStep,
)
    requires
        call_ensures(OAuthFlow::look, (f, st, now, email), r),
        !at_callback(st@),
        held_up(st@),
    ensures
        old(f).challenged_since is None ==> r is Wait && final(f).challenged_since == Some(now),
        r is Reload ==> old(f).reloads < 2 && (old(f).challenged_since matches Some(t) && now - t
            > 12_000_000_000),
        r is Finish ==> (old(f).challenged_since matches Some(t) && now - t > 40_000_000_000),
        r is Wait || r is Reload || r is Finish,
        final(f).email_filled == old(f).email_filled,
{
    law_callback(st@);
    law_held_up(st@);
}

/// The address is typed only into a page that asks for it, once, and not at the first look.
pub proof fn law_when_the_address_is_typed(
    f: &mut OAuthFlow,
    st: &Json,
    now: u128,
    email: &str,
    r: LookStep,
)
    requires
        call_ensures(OAuthFlow::look, (f, st, now, email), r),
    ensures
        r is TypeEmail ==> !old(f).email_filled && st@.get("email"@) == Some(JsonV::Bool(true)) && (
        old(f).email_since matches Some(t) && now >= t + 1_500_000_000),
{
    if r is TypeEmail {
        let n = encode_utf8(email@).len() as int * 11;
        assert(0 <= n % 1100);
    }
}

/// A sign-in is stopped exactly where the user gave up or more than the allowed time has passed;
/// in the second case a user has to step in.
pub proof fn law_sign_in_is_stopped(
    f: &OAuthFlow,
    now: u128,
    max_seconds: u64,
    cancelled: bool,
    r: Option<OAuthOutcome>,
)
    requires
        call_ensures(OAuthFlow::stopped, (f, now, max_seconds, cancelled), r),
    ensures
        r is Some <==> cancelled || now > max_seconds * 1_000_000_000,
        r matches Some(o) ==> o.code is None && o.needs_human == !cancelled,
{
}

/// A code is fetched only after the address was typed and while none was, where the page asks for
/// it and there is a mailbox to fetch it from; that it is awaited is reported once.
pub proof fn law_when_a_code_is_fetched(
    f: &mut OAuthFlow,
    st: &Json,
    mail_ready: bool,
    r: CodeStep,
)
    requires
        call_ensures(OAuthFlow::code_step, (f, st, mail_ready), r),
    ensures
        r is Nothing <==> !(old(f).email_filled && !old(f).code_filled && st@.get("code"@) == Some(
            JsonV::Bool(true),
        )),
        r is Fetch ==> mail_ready,
        r is Finish ==> !mail_ready,
        r matches CodeStep::Fetch(first) ==> first == !old(f).announced,
        r matches CodeStep::Finish(_, o) ==> o.needs_human && o.code is None && o.status@
            == "need_code"@,
        !(r is Nothing) ==> final(f).announced,
        r is Nothing ==> *final(f) == *old(f),
{
    law_typed_field(st@, "code"@);
}

/// An address is typed at an uneven pace: a mark takes at least a tenth of a second, another
/// character at least a thirtieth, and none two tenths.
pub proof fn law_typing(i: usize, c: char, r: u64)
    requires
        call_ensures(key_delay, (i, c), r),
    ensures
        c == '@' || c == '.' || c == '_' || c == '-' ==> r == 105 + (i * 37) % 55,
        c != '@' && c != '.' && c != '_' && c != '-' ==> r == 38 + (i * 37) % 55,
{
}

/// How long the page is left alone goes by the length of the address.
pub proof fn law_settling(email: &str, r: u128)
    requires
        call_ensures(settle_time, (email,), r),
    ensures
        r == 1500 + (encode_utf8(email@).len() as int * 11) % 1100,
{
}

/// The code of a callback is what follows the first `code=` in its address.
pub proof fn law_read_callback(url: &str, r: Option<String>)
    requires
        call_ensures(code_in_callback, (url,), r),
    ensures
        r is Some <==> somewhere(url@, "code="@),
        r matches Some(c) ==> !somewhere(c@, "&"@) && exists|i: int| #[trigger]
            spelled(url@, "code="@, i) && spelled(url@, c@, i + 5) && (forall|j: int|
                0 <= j < i ==> !#[trigger] spelled(url@, "code="@, j)),
{
    law_callback_code(url@);
    if r is Some {
        let i = choose|i: int| #[trigger]
            spelled(url@, "code="@, i) && (forall|j: int|
                0 <= j < i ==> !#[trigger] spelled(url@, "code="@, j)) && spelled(
                url@,
                (r->0)@,
                i + 5,
            );
        assert(somewhere(url@, "code="@));
    }
}

/// A sign-in that does not end by itself is cut short, and a user has to step in.
pub proof fn law_cut_short(seconds: u64, r: OAuthOutcome)
    requires
        call_ensures(hard_timeout, (seconds,), r),
    ensures
        r.code is None,
        r.needs_human,
        r.status@ == "timeout"@,
        r.message@ == "流程硬超时（"@ + decimal(seconds as nat) + "s）"@,
{
}

/// A sign-in begins with nothing filled in.
pub proof fn law_sign_in_begins(f: OAuthFlow)
    requires
        call_ensures(OAuthFlow::begin, (), f),
    ensures
        !f.email_filled && !f.code_filled && !f.announced,
        f.reloads == 0,
        f.challenged_since is None && f.email_since is None,
{
}

/// An outcome is a known one where its status is, and a code comes only with a sign-in that is done.
pub proof fn law_known_outcome(o: &OAuthOutcome, r: bool)
    requires
        call_ensures(OAuthOutcome::is_wf, (o,), r),
    ensures
        r ==> (o.code is Some ==> o.status@ == "done"@),
        r ==> (o.status@ == "done"@ || o.status@ == "need_code"@ || o.status@ == "need_password"@
            || o.status@ == "blocked"@ || o.status@ == "timeout"@ || o.status@ == "cancelled"@),
        o.status@ == "done"@ ==> r,
{
}

} // verus!
