//! Signing in to accounts anew, one by one, without a CDK.
use crate::browser::engine::BrowserMode;
use crate::browser::oauth::{is_status, OAuthOutcome};
use crate::commands::mail_ops::{contact, contact_of};
use crate::commands::reauth::plan::{previews, ApplyOutcome, FieldPreviewV, PlanItem, PlanItemV};
use crate::config::Config;
use crate::json::{copy_opt, law_typed_field, opt_doc, shown, Json, JsonV};
use crate::mail::bind::BindReport;
use crate::mail::record::address;
use crate::models::{law_account_state, Account};
use crate::text::basic::{
    join, joined, list_has, lowercase, opt_text, text2, text3, text4, text5, texts, trim, trimmed,
};
use crate::text::charwise::somewhere;
use crate::text::numeral::{decimal, number_text};
use crate::text::search::contains_char;
use vstd::prelude::*;

verus! {

/// How one account fared.
#[derive(Debug, Clone)]
pub struct OAuthAccountOutcome {
    pub account_id: i64,
    pub email: String,
    pub ok: bool,
    /// Where the sign-in ended: `done | need_code | need_password | blocked | timeout | cancelled |
    /// error`.
    pub stage: String,
    pub message: String,
}

/// How all the accounts fared.
#[derive(Debug)]
pub struct OAuthReport {
    pub emails: Vec<String>,
    /// What became of the binding of the addresses.
    pub imported: Option<BindReport>,
    pub import_error: Option<String>,
    pub outcomes: Vec<OAuthAccountOutcome>,
    pub applied: Vec<ApplyOutcome>,
}

/// Which accounts are handled, and how.
#[derive(Debug, Clone)]
pub struct OAuthOptions {
    /// The only addresses that are handled; by default all the refused accounts are.
    pub only_emails: Option<Vec<String>>,
    /// Whether codes are exchanged and anything is written; otherwise a sign-in ends with its code.
    pub yes: bool,
    pub headed: bool,
    /// The longest time for one account, in seconds.
    pub max_seconds: u64,
    pub engine: Option<String>,
}

impl OAuthOptions {
    /// The options that the settings give: all the refused accounts, with the results written.
    pub fn from_config(cfg: &Config) -> (r: OAuthOptions)
        ensures
            r == (OAuthOptions {
                only_emails: None,
                yes: true,
                headed: cfg.openai_headed,
                max_seconds: cfg.openai_max_seconds,
                engine: None,
            }),
    {
        OAuthOptions {
            only_emails: None,
            yes: true,
            headed: cfg.openai_headed,
            max_seconds: cfg.openai_max_seconds,
            engine: None,
        }
    }

    /// The mode in which the browser runs.
    pub fn mode(&self) -> (r: BrowserMode)
        ensures
            r == (if self.headed {
                BrowserMode::StealthHeaded
            } else {
                BrowserMode::Stealth
            }),
    {
        if self.headed {
            BrowserMode::StealthHeaded
        } else {
            BrowserMode::Stealth
        }
    }
}

// ---------------------------------------------------------------------------
// Targets
// ---------------------------------------------------------------------------

/// An account that is signed in to.
#[derive(Debug, Clone)]
pub struct Target {
    pub account_id: i64,
    pub email: String,
    pub account_type: String,
}

/// The model of a target.
#[verifier::ext_equal]
pub struct TargetV {
    pub account_id: i64,
    pub email: Seq<char>,
    pub account_type: Seq<char>,
}

impl View for Target {
    type V = TargetV;

    open spec fn view(&self) -> TargetV {
        TargetV {
            account_id: self.account_id,
            email: self.email@,
            account_type: self.account_type@,
        }
    }
}

/// The models of targets.
pub open spec fn target_views(v: Seq<Target>) -> Seq<TargetV> {
    v.map_values(|t: Target| t@)
}

/// The addresses that are asked for; an empty list asks for none in particular.
pub open spec fn asked(only: Option<Vec<String>>) -> Option<Seq<Seq<char>>> {
    match only {
        Some(v) => if v@.len() == 0 {
            None
        } else {
            Some(texts(v@).map_values(|s: Seq<char>| address(s)))
        },
        None => None,
    }
}

/// The addresses that are asked for.
pub fn wanted(only: &Option<Vec<String>>) -> (r: Option<Vec<String>>)
    ensures
        match r {
            Some(v) => asked(*only) == Some(texts(v@)),
            None => asked(*only) is None,
        },
{
    match only {
        Some(v) => {
            if v.len() == 0 {
                return None;
            }
            let ghost all = texts(v@).map_values(|s: Seq<char>| address(s));
            let mut out: Vec<String> = Vec::new();
            let mut i: usize = 0;
            while i < v.len()
                invariant
                    i <= v@.len(),
                    all == texts(v@).map_values(|s: Seq<char>| address(s)),
                    out@.len() == i,
                    forall|k: int| 0 <= k < i ==> (#[trigger] out@[k])@ == all[k],
                decreases v@.len() - i,
            {
                let a = trimmed(v[i].as_str()).as_str().to_lowercase();
                assert(a@ == all[i as int]);
                out.push(a);
                i += 1;
            }
            assert(texts(out@) =~= all);
            Some(out)
        },
        None => None,
    }
}

/// Whether an account is signed in to: one with an address that is asked for, or else one that
/// was refused.
pub open spec fn is_target(a: Account, want: Option<Seq<Seq<char>>>) -> bool {
    &&& contact(a).contains('@')
    &&& match want {
        Some(list) => list.contains(lowercase(contact(a))),
        None => a.refused(),
    }
}

/// The accounts that are signed in to, in their order.
pub open spec fn chosen(accounts: Seq<Account>, want: Option<Seq<Seq<char>>>) -> Seq<TargetV>
    decreases accounts.len(),
{
    if accounts.len() == 0 {
        Seq::empty()
    } else {
        let done = chosen(accounts.drop_last(), want);
        let a = accounts.last();
        if is_target(a, want) {
            done.push(
                TargetV { account_id: a.id, email: contact(a), account_type: a.account_type@ },
            )
        } else {
            done
        }
    }
}

fn account_is_target(a: &Account, email: &str, want: &Option<Vec<String>>) -> (r: bool)
    requires
        email@ == contact(*a),
    ensures
        r == is_target(
            *a,
            match want {
                Some(v) => Some(texts(v@)),
                None => None,
            },
        ),
{
    if !contains_char(email, '@') {
        return false;
    }
    match want {
        Some(list) => {
            let low = email.to_lowercase();
            list_has(list, low.as_str())
        },
        None => a.has_401(),
    }
}

/// What is reported where there is no account to sign in to.
pub open spec fn nobody(want: Option<Seq<Seq<char>>>) -> Seq<char> {
    "没有需要授权的账号"@ + (if want is Some {
        "（勾选的邮箱都没匹配到）"@
    } else {
        "（当前没有 401/异常账号）"@
    }) + "。"@
}

/// The accounts that are signed in to, or that there are none.
pub fn targets(accounts: &[Account], only: &Option<Vec<String>>) -> (r: Result<Vec<Target>, String>)
    ensures
        match r {
            Ok(v) => v@.len() > 0 && target_views(v@) == chosen(accounts@, asked(*only)),
            Err(e) => chosen(accounts@, asked(*only)).len() == 0 && e@ == nobody(asked(*only)),
        },
{
    let want = wanted(only);
    let ghost w = asked(*only);
    let mut out: Vec<Target> = Vec::new();
    let mut i: usize = 0;
    assert(target_views(out@) =~= chosen(accounts@.take(0), w));
    while i < accounts.len()
        invariant
            i <= accounts@.len(),
            w == (match want {
                Some(v) => Some(texts(v@)),
                None => None,
            }),
            target_views(out@) == chosen(accounts@.take(i as int), w),
        decreases accounts@.len() - i,
    {
        assert(accounts@.take(i + 1).drop_last() == accounts@.take(i as int));
        let a = &accounts[i];
        let email = contact_of(a);
        if account_is_target(a, email.as_str(), &want) {
            let ghost was = target_views(out@);
            let t = Target { account_id: a.id, email, account_type: a.account_type.clone() };
            out.push(t);
            assert(target_views(out@) =~= was.push(t@));
        }
        i += 1;
    }
    assert(accounts@.take(accounts@.len() as int) == accounts@);
    assert(target_views(out@).len() == out@.len());
    if out.len() == 0 {
        let why = if want.is_some() {
            "（勾选的邮箱都没匹配到）"
        } else {
            "（当前没有 401/异常账号）"
        };
        return Err(text3("没有需要授权的账号", why, "。"));
    }
    Ok(out)
}

/// The addresses of the targets.
pub fn target_emails(list: &Vec<Target>) -> (r: Vec<String>)
    ensures
        texts(r@) == target_views(list@).map_values(|t: TargetV| t.email),
{
    let mut out: Vec<String> = Vec::new();
    let mut i: usize = 0;
    while i < list.len()
        invariant
            i <= list@.len(),
            out@.len() == i,
            forall|k: int| 0 <= k < i ==> (#[trigger] out@[k])@ == list@[k].email@,
        decreases list@.len() - i,
    {
        out.push(list[i].email.clone());
        i += 1;
    }
    assert(texts(out@) =~= target_views(list@).map_values(|t: TargetV| t.email));
    out
}

/// The line that lists the addresses.
pub fn opening(emails: &Vec<String>) -> (r: String)
    ensures
        r@ == "本次需要授权的邮箱："@ + join(texts(emails@), "、"@),
{
    let list = joined(emails, "、");
    text2("本次需要授权的邮箱：", list.as_str())
}

/// The line before the target at position `i` of `n`.
pub fn progress(i: usize, n: usize, email: &str) -> (r: String)
    requires
        i < n,
    ensures
        r@ == "—— ["@ + decimal((i + 1) as nat) + "/"@ + decimal(n as nat) + ("] 处理 "@ + email@
            + " ——"@),
{
    let a = number_text(i as u64 + 1);
    let b = number_text(n as u64);
    let tail = text3("] 处理 ", email, " ——");
    text5("—— [", a.as_str(), "/", b.as_str(), tail.as_str())
}

// ---------------------------------------------------------------------------
// One account
// ---------------------------------------------------------------------------

/// The address at which a sign-in begins, and the number of its session.
pub fn auth_link(reply: &Json) -> (r: Result<(String, String), String>)
    ensures
        ({
            let url = reply@.field_text("auth_url"@).unwrap_or(Seq::empty());
            let session = reply@.field_text("session_id"@).unwrap_or(Seq::empty());
            match r {
                Ok((u, s)) => u@ == url && s@ == session && url.len() > 0 && session.len() > 0,
                Err(e) => (url.len() == 0 || session.len() == 0) && e@ == "授权链接响应异常："@ + shown(
                    reply@,
                ),
            }
        }),
{
    let url = reply.get_text("auth_url");
    let session = reply.get_text("session_id");
    if url.as_str().is_empty() || session.as_str().is_empty() {
        let s = reply.show();
        Err(text2("授权链接响应异常：", s.as_str()))
    } else {
        Ok((url, session))
    }
}

/// Whether `s` is a stage at which the sign-in to an account can end.
pub open spec fn is_stage(s: Seq<char>) -> bool {
    is_status(s) || s == "error"@
}

impl OAuthAccountOutcome {
    /// The stage is a known one, and only a sign-in that is done is good.
    pub open spec fn wf(self) -> bool {
        is_stage(self.stage@) && (self.ok ==> self.stage@ == "done"@)
    }

    /// Whether this is the outcome for the target `t` with this stage and message.
    pub open spec fn is_for(
        self,
        t: Target,
        ok: bool,
        stage: Seq<char>,
        message: Seq<char>,
    ) -> bool {
        &&& self.account_id == t.account_id
        &&& self.email@ == t.email@
        &&& self.ok == ok
        &&& self.stage@ == stage
        &&& self.message@ == message
    }

    /// An account whose sign-in failed because of an error.
    pub fn failed(t: &Target, message: String) -> (r: OAuthAccountOutcome)
        ensures
            r.is_for(*t, false, "error"@, message@),
            r.wf(),
    {
        OAuthAccountOutcome {
            account_id: t.account_id,
            email: t.email.clone(),
            ok: false,
            stage: "error".to_owned(),
            message,
        }
    }

    /// The line that reports the outcome.
    pub fn line(&self) -> (r: String)
        ensures
            r@ == self.email@ + " → "@ + (if self.ok {
                "✓ "@
            } else {
                "✗ "@
            }) + self.message@,
    {
        let mark = if self.ok {
            "✓ "
        } else {
            "✗ "
        };
        text4(self.email.as_str(), " → ", mark, self.message.as_str())
    }
}

/// What is written to an account for which credentials came back; its other settings are kept.
pub open spec fn oauth_plan(t: Target, credentials: JsonV, extra: Option<JsonV>) -> PlanItemV {
    PlanItemV {
        account_id: t.account_id,
        account_type: t.account_type@,
        email: t.email@,
        preview: Seq::<FieldPreviewV>::empty(),
        credentials,
        extra: extra.unwrap_or(JsonV::Null),
    }
}

/// How an account fared whose sign-in ended with `o`, and what is written to it. `exchanged` is
/// what came back for the code, where it was exchanged; `extra` are the account's other settings.
/// A sign-in whose code is not exchanged was good where it brought a code.
pub fn concluded(
    t: &Target,
    o: &OAuthOutcome,
    exchanged: &Option<Result<Json, String>>,
    extra: &Option<Json>,
) -> (r: (OAuthAccountOutcome, Option<PlanItem>))
    requires
        o.wf(),
        exchanged is Some ==> o.code is Some,
    ensures
        r.0.wf(),
        match *exchanged {
            Some(Ok(c)) => r.0.is_for(*t, true, "done"@, "已换回凭证"@) && (r.1 matches Some(p)
                && p@ == oauth_plan(*t, c@, opt_doc(*extra))),
            Some(Err(e)) => r.0.is_for(*t, false, "error"@, "换取凭证失败："@ + e@) && r.1 is None,
            None => r.0.is_for(*t, o.code is Some, o.status@, o.message@) && r.1 is None,
        },
{
    match exchanged {
        Some(Ok(c)) => {
            let p = PlanItem {
                account_id: t.account_id,
                account_type: t.account_type.clone(),
                email: t.email.clone(),
                preview: Vec::new(),
                credentials: c.copy(),
                extra: match extra {
                    Some(e) => e.copy(),
                    None => Json::Null,
                },
            };
            assert(previews(p.preview@) =~= Seq::<FieldPreviewV>::empty());
            (
                OAuthAccountOutcome {
                    account_id: t.account_id,
                    email: t.email.clone(),
                    ok: true,
                    stage: "done".to_owned(),
                    message: "已换回凭证".to_owned(),
                },
                Some(p),
            )
        },
        Some(Err(e)) => (
            OAuthAccountOutcome {
                account_id: t.account_id,
                email: t.email.clone(),
                ok: false,
                stage: "error".to_owned(),
                message: text2("换取凭证失败：", e.as_str()),
            },
            None,
        ),
        None => (
            OAuthAccountOutcome {
                account_id: t.account_id,
                email: t.email.clone(),
                ok: o.code.is_some(),
                stage: o.status.clone(),
                message: o.message.clone(),
            },
            None,
        ),
    }
}

/// The settings of the account with the number `id`, beside its credentials.
pub fn extra_of(accounts: &[Account], id: i64) -> (r: Option<Json>)
    ensures
        opt_doc(r) == extra_in(accounts@, id),
{
    let mut i: usize = 0;
    assert(accounts@.skip(0) == accounts@);
    while i < accounts.len()
        invariant
            i <= accounts@.len(),
            extra_in(accounts@, id) == extra_in(accounts@.skip(i as int), id),
        decreases accounts@.len() - i,
    {
        assert(accounts@.skip(i as int).drop_first() == accounts@.skip(i + 1));
        if accounts[i].id == id {
            return copy_opt(&accounts[i].extra);
        }
        i += 1;
    }
    None
}

/// The settings of the first account with the number `id`, beside its credentials.
pub open spec fn extra_in(accounts: Seq<Account>, id: i64) -> Option<JsonV>
    decreases accounts.len(),
{
    if accounts.len() == 0 {
        None
    } else if accounts[0].id == id {
        opt_doc(accounts[0].extra)
    } else {
        extra_in(accounts.drop_first(), id)
    }
}

/// Whether anything is written: only where that is asked for, and there is something to write.
pub fn writes(yes: bool, plans: &Vec<PlanItem>) -> (r: bool)
    ensures
        r == (yes && plans@.len() > 0),
{
    yes && plans.len() > 0
}

// ---------------------------------------------------------------------------
// The order of the steps
// ---------------------------------------------------------------------------

/// What is to be done next.
#[derive(Debug)]
pub enum OAuthAction {
    /// Ask for an address at which the sign-in of the target at this position begins.
    Generate(usize),
    /// Open the address and sign in.
    Browse(usize, String),
    /// Change the code of this session into credentials.
    Exchange(usize, String, String),
    /// Everything is done, or the user gave up.
    Done,
}

/// How far the sign-in to one account is.
#[derive(Debug)]
pub enum Phase {
    /// It has not begun.
    Idle,
    /// The browser is to open this address, for this session.
    Browsing(String, String),
    /// The sign-in of this session ended with a code.
    Exchanging(String, OAuthOutcome),
}

/// How far the sign-ins are.
#[derive(Debug)]
pub struct OAuthRun {
    pub targets: Vec<Target>,
    /// Whether codes are exchanged.
    pub yes: bool,
    /// The position of the target that is under way.
    pub at: usize,
    pub phase: Phase,
    /// How the targets before it fared.
    pub outcomes: Vec<OAuthAccountOutcome>,
    /// What is to be written.
    pub plans: Vec<PlanItem>,
}

/// Whether the item `p` is to be written to one of the targets, for which credentials came back.
pub open spec fn earned(
    p: PlanItem,
    targets: Seq<Target>,
    outcomes: Seq<OAuthAccountOutcome>,
) -> bool {
    exists|i: int|
        0 <= i < outcomes.len() && i < targets.len() && (#[trigger] outcomes[i]).ok
            && p.account_id == targets[i].account_id && p.email@ == targets[i].email@
}

impl OAuthRun {
    /// Every target before the present one has its outcome, which ended at a known stage, and only
    /// those with a good one are written; without `yes` no code is exchanged and nothing written.
    pub open spec fn wf(self) -> bool {
        &&& self.at <= self.targets@.len()
        &&& self.outcomes@.len() == self.at
        &&& forall|k: int|
            0 <= k < self.at ==> (#[trigger] self.outcomes@[k]).account_id
                == self.targets@[k].account_id && self.outcomes@[k].email@ == self.targets@[k].email@
                && self.outcomes@[k].wf()
        &&& forall|k: int|
            0 <= k < self.plans@.len() ==> earned(
                #[trigger] self.plans@[k],
                self.targets@,
                self.outcomes@,
            )
        &&& !(self.phase is Idle) ==> self.at < self.targets@.len()
        &&& self.phase matches Phase::Exchanging(_, o) ==> o.wf() && o.code is Some && self.yes
        &&& !self.yes ==> self.plans@.len() == 0
    }

    /// Before the first target.
    pub fn begin(targets: Vec<Target>, yes: bool) -> (r: OAuthRun)
        ensures
            r.wf(),
            r.targets == targets,
            r.yes == yes,
            r.at == 0,
            r.phase is Idle,
            r.plans@.len() == 0,
    {
        OAuthRun {
            targets,
            yes,
            at: 0,
            phase: Phase::Idle,
            outcomes: Vec::new(),
            plans: Vec::new(),
        }
    }

    /// What is to be done next. Where the user gave up, no further target is taken.
    pub fn next(&self, cancelled: bool) -> (r: OAuthAction)
        requires
            self.wf(),
        ensures
            match self.phase {
                Phase::Idle => if self.at < self.targets@.len() && !cancelled {
                    r == OAuthAction::Generate(self.at)
                } else {
                    r is Done
                },
                Phase::Browsing(url, _) => r matches OAuthAction::Browse(i, u) && i == self.at && u@
                    == url@,
                Phase::Exchanging(session, o) => r matches OAuthAction::Exchange(i, s, c) && i
                    == self.at && s@ == session@ && Some(c@) == opt_text(o.code),
            },
    {
        match &self.phase {
            Phase::Idle => if self.at < self.targets.len() && !cancelled {
                OAuthAction::Generate(self.at)
            } else {
                OAuthAction::Done
            },
            Phase::Browsing(url, _) => OAuthAction::Browse(self.at, url.clone()),
            Phase::Exchanging(session, o) => match &o.code {
                Some(c) => OAuthAction::Exchange(self.at, session.clone(), c.clone()),
                None => OAuthAction::Done,
            },
        }
    }

    /// Whether the run went from `before` to `self` by one outcome for the present target.
    pub open spec fn ended(
        self,
        before: OAuthRun,
        ok: bool,
        stage: Seq<char>,
        message: Seq<char>,
    ) -> bool {
        &&& self.targets == before.targets
        &&& self.yes == before.yes
        &&& self.at == before.at + 1
        &&& self.phase is Idle
        &&& self.outcomes@.drop_last() == before.outcomes@
        &&& self.outcomes@.last().is_for(before.targets@[before.at as int], ok, stage, message)
    }

    fn end(&mut self, o: OAuthAccountOutcome)
        requires
            old(self).wf(),
            old(self).at < old(self).targets@.len(),
            o.account_id == old(self).targets@[old(self).at as int].account_id,
            o.email@ == old(self).targets@[old(self).at as int].email@,
            o.wf(),
        ensures
            final(self).wf(),
            final(self).targets == old(self).targets,
            final(self).yes == old(self).yes,
            final(self).at == old(self).at + 1,
            final(self).phase is Idle,
            final(self).outcomes@ == old(self).outcomes@.push(o),
            final(self).plans == old(self).plans,
    {
        let n = self.targets.len();
        assert(self.at < n);
        let ghost was = self.outcomes@;
        self.outcomes.push(o);
        self.at = self.at + 1;
        self.phase = Phase::Idle;
        assert forall|k: int| 0 <= k < self.plans@.len() implies earned(
            #[trigger] self.plans@[k],
            self.targets@,
            self.outcomes@,
        ) by {
            assert(earned(self.plans@[k], self.targets@, was));
            let i = choose|i: int|
                0 <= i < was.len() && i < self.targets@.len() && (#[trigger] was[i]).ok
                    && self.plans@[k].account_id == self.targets@[i].account_id
                    && self.plans@[k].email@ == self.targets@[i].email@;
            assert(self.outcomes@[i] == was[i]);
        }
    }

    /// Notes what came back for the request for an address.
    pub fn generated(&mut self, reply: &Result<Json, String>)
        requires
            old(self).wf(),
            old(self).phase is Idle,
            old(self).at < old(self).targets@.len(),
        ensures
            final(self).wf(),
            final(self).plans == old(self).plans,
            match reply {
                Err(e) => final(self).ended(
                    *old(self),
                    false,
                    "error"@,
                    "生成授权链接失败："@ + e@,
                ),
                Ok(v) => {
                    let url = v@.field_text("auth_url"@).unwrap_or(Seq::empty());
                    let session = v@.field_text("session_id"@).unwrap_or(Seq::empty());
                    if url.len() == 0 || session.len() == 0 {
                        final(self).ended(
                            *old(self),
                            false,
                            "error"@,
                            "授权链接响应异常："@ + shown(v@),
                        )
                    } else {
                        &&& final(self).targets == old(self).targets
                        &&& final(self).yes == old(self).yes
                        &&& final(self).at == old(self).at
                        &&& final(self).outcomes == old(self).outcomes
                        &&& final(self).phase matches Phase::Browsing(u, s) && u@ == url && s@
                            == session
                    }
                },
            },
    {
        let ghost was = self.outcomes@;
        match reply {
            Err(e) => {
                let o = OAuthAccountOutcome::failed(
                    &self.targets[self.at],
                    text2("生成授权链接失败：", e.as_str()),
                );
                self.end(o);
                assert(self.outcomes@.drop_last() =~= was);
            },
            Ok(v) => match auth_link(v) {
                Ok((url, session)) => {
                    self.phase = Phase::Browsing(url, session);
                },
                Err(m) => {
                    let o = OAuthAccountOutcome::failed(&self.targets[self.at], m);
                    self.end(o);
                    assert(self.outcomes@.drop_last() =~= was);
                },
            },
        }
    }

    /// Notes how the browser's sign-in ended. Without `yes` that is the end of it.
    pub fn browsed(&mut self, result: Result<OAuthOutcome, String>)
        requires
            old(self).wf(),
            old(self).phase is Browsing,
            result matches Ok(o) ==> o.wf(),
        ensures
            final(self).wf(),
            final(self).plans == old(self).plans,
            match result {
                Err(e) => final(self).ended(*old(self), false, "error"@, "浏览器流程失败："@ + e@),
                Ok(o) => if o.code is None || !old(self).yes {
                    final(self).ended(*old(self), o.code is Some, o.status@, o.message@)
                } else {
                    &&& final(self).targets == old(self).targets
                    &&& final(self).yes == old(self).yes
                    &&& final(self).at == old(self).at
                    &&& final(self).outcomes == old(self).outcomes
                    &&& final(self).phase matches Phase::Exchanging(s, p) && p == o && s
                        == old(self).phase->Browsing_1
                },
            },
    {
        let ghost was = self.outcomes@;
        let mut phase = Phase::Idle;
        std::mem::swap(&mut phase, &mut self.phase);
        match result {
            Err(e) => {
                let o = OAuthAccountOutcome::failed(
                    &self.targets[self.at],
                    text2("浏览器流程失败：", e.as_str()),
                );
                self.end(o);
                assert(self.outcomes@.drop_last() =~= was);
            },
            Ok(o) => {
                if o.code.is_some() && self.yes {
                    if let Phase::Browsing(_, session) = phase {
                        self.phase = Phase::Exchanging(session, o);
                    }
                } else {
                    let (out, _) = concluded(&self.targets[self.at], &o, &None, &None);
                    self.end(out);
                    assert(self.outcomes@.drop_last() =~= was);
                }
            },
        }
    }

    /// Notes what came back for the code; `extra` are the account's other settings.
    pub fn exchanged(&mut self, reply: Result<Json, String>, extra: &Option<Json>)
        requires
            old(self).wf(),
            old(self).phase is Exchanging,
        ensures
            final(self).wf(),
            match reply {
                Ok(c) => final(self).ended(*old(self), true, "done"@, "已换回凭证"@)
                    && final(self).plans@.drop_last() == old(self).plans@
                    && final(self).plans@.last()@ == oauth_plan(
                    old(self).targets@[old(self).at as int],
                    c@,
                    opt_doc(*extra),
                ),
                Err(e) => final(self).ended(
                    *old(self),
                    false,
                    "error"@,
                    "换取凭证失败："@ + e@,
                ) && final(self).plans == old(self).plans,
            },
    {
        let ghost was = self.outcomes@;
        let ghost had = self.plans@;
        let mut phase = Phase::Idle;
        std::mem::swap(&mut phase, &mut self.phase);
        if let Phase::Exchanging(_, o) = phase {
            let (out, plan) = concluded(&self.targets[self.at], &o, &Some(reply), extra);
            let ghost i = self.at as int;
            self.end(out);
            assert(self.outcomes@.drop_last() =~= was);
            if let Some(p) = plan {
                self.plans.push(p);
                assert(self.plans@.drop_last() =~= had);
                assert(p@.email == p.email@ && p@.account_id == p.account_id);
                assert(self.outcomes@[i].ok);
                assert(earned(p, self.targets@, self.outcomes@));
                assert forall|k: int| 0 <= k < self.plans@.len() implies earned(
                    #[trigger] self.plans@[k],
                    self.targets@,
                    self.outcomes@,
                ) by {
                    if k < had.len() {
                        assert(self.plans@[k] == had[k]);
                    }
                }
            }
        }
    }
}

impl OAuthReport {
    /// The binding of the addresses either came about or failed, and the outcomes follow the
    /// addresses, in order, each at a known stage; where the user gave up, the last ones are
    /// missing.
    pub open spec fn wf(self) -> bool {
        &&& self.imported is Some <==> self.import_error is None
        &&& self.outcomes@.len() <= self.emails@.len()
        &&& forall|k: int|
            0 <= k < self.outcomes@.len() ==> (#[trigger] self.outcomes@[k]).email@
                == self.emails@[k]@ && self.outcomes@[k].wf()
    }
}

/// The report on a run that is over; `import` is what became of the binding of the addresses, and
/// `applied` of the writing.
pub fn reported(
    run: OAuthRun,
    import: Result<BindReport, String>,
    applied: Vec<ApplyOutcome>,
) -> (r: OAuthReport)
    requires
        run.wf(),
    ensures
        r.wf(),
        texts(r.emails@) == target_views(run.targets@).map_values(|t: TargetV| t.email),
        match import {
            Ok(b) => r.imported == Some(b) && r.import_error is None,
            Err(e) => r.imported is None && r.import_error == Some(e),
        },
        r.outcomes == run.outcomes,
        r.applied == applied,
{
    let emails = target_emails(&run.targets);
    proof {
        let views = target_views(run.targets@);
        assert(texts(emails@).len() == views.len());
        assert forall|k: int| 0 <= k < run.outcomes@.len() implies (#[trigger]
        run.outcomes@[k]).email@ == emails@[k]@ by {
            assert(texts(emails@)[k] == views[k].email);
        }
    }
    let (imported, import_error) = match import {
        Ok(b) => (Some(b), None),
        Err(e) => (None, Some(e)),
    };
    OAuthReport { emails, imported, import_error, outcomes: run.outcomes, applied }
}

/// Begins to sign in to the accounts that the options ask for, or tells that there are none.
pub fn run_once(accounts: &[Account], opts: &OAuthOptions) -> (r: Result<OAuthRun, String>)
    ensures
        match r {
            Ok(run) => run.wf() && run.yes == opts.yes && run.at == 0 && run.phase is Idle
                && run.plans@.len() == 0 && run.targets@.len() > 0 && target_views(run.targets@) == chosen(
                accounts@,
                asked(opts.only_emails),
            ),
            Err(e) => chosen(accounts@, asked(opts.only_emails)).len() == 0 && e@
                == nobody(asked(opts.only_emails)),
        },
{
    match targets(accounts, &opts.only_emails) {
        Ok(list) => Ok(OAuthRun::begin(list, opts.yes)),
        Err(e) => Err(e),
    }
}

/// Every sign-in that has ended did so at one of the known stages, and only one that is done is
/// good.
pub proof fn law_stages_are_known(r: OAuthRun, k: int)
    requires
        r.wf(),
        0 <= k < r.outcomes@.len(),
    ensures
        is_stage(r.outcomes@[k].stage@),
        r.outcomes@[k].ok ==> r.outcomes@[k].stage@ == "done"@,
        r.outcomes@[k].email@ == r.targets@[k].email@,
{
}

/// A dry run changes nothing: it exchanges no code, and has nothing to write.
pub proof fn law_dry_run_changes_nothing(r: OAuthRun)
    requires
        r.wf(),
        !r.yes,
    ensures
        !(r.phase is Exchanging),
        r.plans@.len() == 0,
{
}

/// Only accounts for which credentials came back are written.
pub proof fn law_only_earned_credentials_are_written(r: OAuthRun, k: int)
    requires
        r.wf(),
        0 <= k < r.plans@.len(),
    ensures
        exists|i: int|
            0 <= i < r.targets@.len() && i < r.outcomes@.len() && (#[trigger] r.outcomes@[i]).ok
                && r.plans@[k].account_id == r.targets@[i].account_id,
{
    assert(earned(r.plans@[k], r.targets@, r.outcomes@));
}

// ---------------------------------------------------------------------------
// Laws
// ---------------------------------------------------------------------------

/// Whether `t` is one of the accounts, with its address, and one that is signed in to.
pub open spec fn stems(t: TargetV, accounts: Seq<Account>, want: Option<Seq<Seq<char>>>) -> bool {
    exists|i: int|
        0 <= i < accounts.len() && is_target(#[trigger] accounts[i], want) && accounts[i].id
            == t.account_id && contact(accounts[i]) == t.email
}

/// Only accounts of the list are signed in to, and only those that were asked for or refused.
pub proof fn law_targets_are_accounts(accounts: Seq<Account>, want: Option<Seq<Seq<char>>>)
    ensures
        forall|k: int|
            0 <= k < chosen(accounts, want).len() ==> stems(
                #[trigger] chosen(accounts, want)[k],
                accounts,
                want,
            ),
    decreases accounts.len(),
{
    if accounts.len() > 0 {
        let less = accounts.drop_last();
        law_targets_are_accounts(less, want);
        let all = chosen(accounts, want);
        let done = chosen(less, want);
        assert forall|k: int| 0 <= k < all.len() implies stems(
            #[trigger] all[k],
            accounts,
            want,
        ) by {
            if k < done.len() {
                assert(all[k] == done[k]);
                let i = choose|i: int|
                    0 <= i < less.len() && is_target(#[trigger] less[i], want) && less[i].id
                        == done[k].account_id && contact(less[i]) == done[k].email;
                assert(accounts[i] == less[i]);
                assert(is_target(accounts[i], want));
            } else {
                assert(is_target(accounts[accounts.len() - 1], want));
            }
        }
    }
}

/// The addresses that an account must have one of, where some are asked for.
pub open spec fn names_address(only: Option<Vec<String>>, e: Seq<char>) -> bool {
    only matches Some(v) && exists|k: int|
        0 <= k < v@.len() && lowercase(trim((#[trigger] v@[k])@)) == lowercase(e)
}

/// An account is signed in to where its address has an `@` and is one of those that are asked for;
/// where none are asked for, where its error tells of `401`.
pub proof fn law_whom_to_sign_in(a: Account, only: Option<Vec<String>>)
    ensures
        is_target(a, asked(only)) == ((exists|i: int|
            0 <= i < contact(a).len() && #[trigger] contact(a)[i] == '@') && (if only is Some
            && (only->0)@.len() > 0 {
            names_address(only, contact(a))
        } else {
            somewhere(a.error_message@, seq!['4', '0', '1'])
        })),
{
    law_account_state(a);
    if let Some(v) = only {
        if v@.len() > 0 {
            let list = texts(v@).map_values(|s: Seq<char>| address(s));
            let e = lowercase(contact(a));
            assert(asked(only) == Some(list));
            if list.contains(e) {
                let k = choose|k: int| 0 <= k < list.len() && list[k] == e;
                assert(lowercase(trim(v@[k]@)) == e);
            }
            if names_address(only, contact(a)) {
                let k = choose|k: int| 0 <= k < v@.len() && lowercase(trim((#[trigger] v@[k])@)) == e;
                assert(list[k] == e);
            }
        }
    }
}

/// The accounts are signed in to in their order, each with its number, its address and its kind.
pub proof fn law_targets_in_order(
    accounts: Seq<Account>,
    a: Account,
    want: Option<Seq<Seq<char>>>,
)
    ensures
        chosen(Seq::empty(), want).len() == 0,
        !is_target(a, want) ==> chosen(accounts.push(a), want) == chosen(accounts, want),
        is_target(a, want) ==> chosen(accounts.push(a), want).drop_last() == chosen(accounts, want)
            && chosen(accounts.push(a), want).last().account_id == a.id && chosen(
            accounts.push(a),
            want,
        ).last().email == contact(a) && chosen(accounts.push(a), want).last().account_type
            == a.account_type@ && chosen(accounts.push(a), want).len() == chosen(
            accounts,
            want,
        ).len() + 1,
{
    assert(accounts.push(a).drop_last() =~= accounts);
    if is_target(a, want) {
        assert(chosen(accounts.push(a), want).drop_last() =~= chosen(accounts, want));
    }
}

/// What is written to an account are the credentials that came back for it; its number, kind and
/// other settings are kept.
pub proof fn law_what_is_written(t: Target, credentials: JsonV, extra: Option<JsonV>)
    ensures
        ({
            let p = oauth_plan(t, credentials, extra);
            &&& p.account_id == t.account_id
            &&& p.account_type == t.account_type@
            &&& p.email == t.email@
            &&& p.credentials == credentials
            &&& extra matches Some(e) ==> p.extra == e
            &&& extra is None ==> p.extra is Null
        }),
{
}

/// The other settings are those of the first account with the number.
pub proof fn law_settings_of_an_account(accounts: Seq<Account>, id: i64, i: int)
    requires
        0 <= i < accounts.len(),
        accounts[i].id == id,
        forall|j: int| 0 <= j < i ==> (#[trigger] accounts[j]).id != id,
    ensures
        match accounts[i].extra {
            Some(e) => extra_in(accounts, id) == Some(e@),
            None => extra_in(accounts, id) is None,
        },
    decreases i,
{
    if i > 0 {
        assert(accounts[0].id != id);
        let t = accounts.drop_first();
        assert forall|j: int| 0 <= j < i - 1 implies (#[trigger] t[j]).id != id by {
            assert(t[j] == accounts[j + 1]);
        }
        law_settings_of_an_account(t, id, i - 1);
    }
}

/// The stages at which a sign-in can end.
pub proof fn law_stages(s: Seq<char>)
    ensures
        is_stage(s) <==> (s == "done"@ || s == "need_code"@ || s == "need_password"@ || s
            == "blocked"@ || s == "timeout"@ || s == "cancelled"@ || s == "error"@),
{
}

/// That there is no account to sign in to is reported with the reason: none has an address that
/// was asked for, or none was refused.
pub proof fn law_nobody(want: Option<Seq<Seq<char>>>)
    ensures
        want is Some ==> nobody(want) == "没有需要授权的账号"@ + "（勾选的邮箱都没匹配到）"@ + "。"@,
        want is None ==> nobody(want) == "没有需要授权的账号"@ + "（当前没有 401/异常账号）"@
            + "。"@,
{
}

// ---------------------------------------------------------------------------
// Laws on what a call gives
// ---------------------------------------------------------------------------

/// An account is written exactly where credentials came back for its code; where they did not, or
/// where there was no code to exchange, nothing is. It is good where credentials came back, or
/// where its code was not exchanged and there is one.
pub proof fn law_conclusion(
    t: &Target,
    o: &OAuthOutcome,
    exchanged: &Option<Result<Json, String>>,
    extra: &Option<Json>,
    r: (OAuthAccountOutcome, Option<PlanItem>),
)
    requires
        call_ensures(concluded, (t, o, exchanged, extra), r),
    ensures
        r.0.account_id == t.account_id && r.0.email@ == t.email@,
        match *exchanged {
            Some(Ok(c)) => r.0.ok && (r.1 matches Some(p) && p.account_id == t.account_id
                && p.email@ == t.email@ && p.credentials@ == c@ && p.account_type@
                == t.account_type@),
            Some(Err(_)) => !r.0.ok && r.1 is None,
            None => r.0.ok == (o.code is Some) && r.1 is None && r.0.stage@ == o.status@,
        },
{
    if let Some(p) = r.1 {
        assert(p@.credentials == p.credentials@);
        assert(p@.email == p.email@);
        assert(p@.account_type == p.account_type@);
    }
}

/// Nothing is written without `yes`.
pub proof fn law_only_yes_writes(yes: bool, plans: &Vec<PlanItem>, r: bool)
    requires
        call_ensures(writes, (yes, plans), r),
    ensures
        r == (yes && plans@.len() > 0),
{
}

/// A sign-in begins at the address and with the session that the gateway gives, and not without
/// both.
pub proof fn law_link(reply: &Json, r: Result<(String, String), String>)
    requires
        call_ensures(auth_link, (reply,), r),
    ensures
        match r {
            Ok((u, s)) => reply@.get("auth_url"@) == Some(JsonV::Str(u@)) && reply@.get("session_id"@)
                == Some(JsonV::Str(s@)) && u@.len() > 0 && s@.len() > 0,
            Err(_) => !(reply@.get("auth_url"@) matches Some(JsonV::Str(u)) && u.len() > 0) || !(
            reply@.get("session_id"@) matches Some(JsonV::Str(s)) && s.len() > 0),
        },
{
    law_typed_field(reply@, "auth_url"@);
    law_typed_field(reply@, "session_id"@);
}

/// Of the targets exactly the accounts are signed in to that are asked for, in their order; there
/// is an error exactly where there are none.
pub proof fn law_targets(
    accounts: &[Account],
    only: &Option<Vec<String>>,
    r: Result<Vec<Target>, String>,
    k: int,
)
    requires
        call_ensures(targets, (accounts, only), r),
    ensures
        r matches Ok(v) ==> v@.len() > 0 && (0 <= k < v@.len() ==> exists|i: int|
            0 <= i < accounts@.len() && is_target(#[trigger] accounts@[i], asked(*only))
                && accounts@[i].id == v@[k].account_id && contact(accounts@[i]) == v@[k].email@),
        r is Err ==> forall|i: int|
            0 <= i < accounts@.len() ==> !is_target(#[trigger] accounts@[i], asked(*only)),
{
    let want = asked(*only);
    law_targets_are_accounts(accounts@, want);
    if let Ok(v) = r {
        if 0 <= k < v@.len() {
            assert(target_views(v@)[k] == v@[k]@);
            assert(stems(chosen(accounts@, want)[k], accounts@, want));
        }
    } else {
        lemma_nobody_is_target(accounts@, want);
    }
}

proof fn lemma_nobody_is_target(accounts: Seq<Account>, want: Option<Seq<Seq<char>>>)
    requires
        chosen(accounts, want).len() == 0,
    ensures
        forall|i: int| 0 <= i < accounts.len() ==> !is_target(#[trigger] accounts[i], want),
    decreases accounts.len(),
{
    if accounts.len() > 0 {
        let less = accounts.drop_last();
        lemma_nobody_is_target(less, want);
        assert forall|i: int| 0 <= i < accounts.len() implies !is_target(
            #[trigger] accounts[i],
            want,
        ) by {
            if i < less.len() {
                assert(less[i] == accounts[i]);
            }
        }
    }
}

/// The code of a sign-in is exchanged exactly where there is one and `yes` was said; otherwise the
/// sign-in is over, and good where there is a code.
pub proof fn law_browsed(run: &mut OAuthRun, o: OAuthOutcome)
    requires
        call_ensures(OAuthRun::browsed, (run, Ok::<OAuthOutcome, String>(o)), ()),
    ensures
        o.code is Some && old(run).yes ==> (final(run).phase matches Phase::Exchanging(_, p) && p
            == o) && final(run).at == old(run).at && final(run).outcomes == old(run).outcomes,
        o.code is None || !old(run).yes ==> final(run).phase is Idle && final(run).at == old(run).at
            + 1 && final(run).outcomes@.last().ok == (o.code is Some)
            && final(run).outcomes@.last().stage@ == o.status@,
        final(run).plans == old(run).plans,
{
}

/// Credentials that came back are planned for the account that was signed in to, and for no other;
/// that none came back is a failure, and nothing is planned.
pub proof fn law_exchanged(run: &mut OAuthRun, reply: Result<Json, String>, extra: &Option<Json>)
    requires
        call_ensures(OAuthRun::exchanged, (run, reply, extra), ()),
    ensures
        final(run).at == old(run).at + 1,
        final(run).outcomes@.last().ok == (reply is Ok),
        match reply {
            Ok(c) => final(run).plans@.drop_last() == old(run).plans@
                && final(run).plans@.last().account_id
                == old(run).targets@[old(run).at as int].account_id
                && final(run).plans@.last().credentials@ == c@,
            Err(_) => final(run).plans == old(run).plans,
        },
{
    if let Ok(c) = reply {
        let p = final(run).plans@.last();
        assert(p@.credentials == p.credentials@);
        assert(p@.account_id == p.account_id);
    }
}

/// Where the user gave up no further account is taken, but one that is under way goes on.
pub proof fn law_next_of_the_sign_ins(run: OAuthRun, cancelled: bool, r: OAuthAction)
    requires
        call_ensures(OAuthRun::next, (&run, cancelled), r),
        run.wf(),
    ensures
        r is Generate <==> run.phase is Idle && run.at < run.targets@.len() && !cancelled,
        r is Done <==> run.phase is Idle && (run.at >= run.targets@.len() || cancelled),
        r is Browse <==> run.phase is Browsing,
        r is Exchange <==> run.phase is Exchanging,
        r is Exchange ==> run.yes,
{
}

/// A sign-in goes on in the browser exactly where the gateway gives an address and a session;
/// otherwise it has failed, and the next account follows.
pub proof fn law_generated(run: &mut OAuthRun, reply: &Result<Json, String>)
    requires
        call_ensures(OAuthRun::generated, (run, reply), ()),
    ensures
        reply is Err ==> final(run).at == old(run).at + 1 && !final(run).outcomes@.last().ok
            && final(run).phase is Idle,
        reply matches Ok(v) ==> match (v@.get("auth_url"@), v@.get("session_id"@)) {
            (Some(JsonV::Str(u)), Some(JsonV::Str(s))) => if u.len() > 0 && s.len() > 0 {
                final(run).at == old(run).at && (final(run).phase matches Phase::Browsing(x, y)
                    && x@ == u && y@ == s)
            } else {
                final(run).at == old(run).at + 1 && !final(run).outcomes@.last().ok
            },
            _ => final(run).at == old(run).at + 1 && !final(run).outcomes@.last().ok,
        },
        final(run).plans == old(run).plans,
        final(run).yes == old(run).yes,
{
    if let Ok(v) = reply {
        law_typed_field(v@, "auth_url"@);
        law_typed_field(v@, "session_id"@);
    }
}

/// The report has the outcomes of the run, what was applied, and the binding or why it failed.
pub proof fn law_report_of_the_sign_ins(
    run: OAuthRun,
    import: Result<BindReport, String>,
    applied: Vec<ApplyOutcome>,
    r: OAuthReport,
)
    requires
        call_ensures(reported, (run, import, applied), r),
    ensures
        r.outcomes == run.outcomes,
        r.applied == applied,
        r.imported is Some <==> import is Ok,
        r.import_error is Some <==> import is Err,
        r.emails@.len() == run.targets@.len(),
{
    assert(texts(r.emails@).len() == r.emails@.len());
    assert(target_views(run.targets@).len() == run.targets@.len());
}

/// A run begins with the first target, and exchanges codes only where the options say so.
pub proof fn law_sign_ins_begin(
    accounts: &[Account],
    opts: &OAuthOptions,
    r: Result<OAuthRun, String>,
)
    requires
        call_ensures(run_once, (accounts, opts), r),
    ensures
        r matches Ok(run) ==> run.yes == opts.yes && run.at == 0 && run.outcomes@.len() == 0
            && run.targets@.len() > 0,
        r is Err <==> forall|i: int|
            0 <= i < accounts@.len() ==> !is_target(
                #[trigger] accounts@[i],
                asked(opts.only_emails),
            ),
{
    let want = asked(opts.only_emails);
    if let Ok(run) = r {
        law_targets_are_accounts(accounts@, want);
        assert(target_views(run.targets@).len() == run.targets@.len());
        assert(stems(chosen(accounts@, want)[0], accounts@, want));
    } else {
        lemma_nobody_is_target(accounts@, want);
    }
}

/// The settings ask for all the refused accounts, with the results written; the browser shows its
/// window where they say so.
pub proof fn law_options(cfg: &Config, o: OAuthOptions, m: BrowserMode)
    requires
        call_ensures(OAuthOptions::from_config, (cfg,), o),
        call_ensures(OAuthOptions::mode, (&o,), m),
    ensures
        o.only_emails is None,
        o.yes,
        o.max_seconds == cfg.openai_max_seconds,
        m is StealthHeaded <==> cfg.openai_headed,
        m is Stealth <==> !cfg.openai_headed,
{
}

/// The line of an account tells its address and, by a mark, how it fared; that before it tells how
/// far the run is.
pub proof fn law_lines_of_a_run(
    a: &OAuthAccountOutcome,
    line: String,
    i: usize,
    n: usize,
    email: &str,
    before: String,
)
    requires
        call_ensures(OAuthAccountOutcome::line, (a,), line),
        call_ensures(progress, (i, n, email), before),
    ensures
        a.ok ==> line@ == a.email@ + " → "@ + "✓ "@ + a.message@,
        !a.ok ==> line@ == a.email@ + " → "@ + "✗ "@ + a.message@,
        before@ == "—— ["@ + decimal((i + 1) as nat) + "/"@ + decimal(n as nat) + ("] 处理 "@
            + email@ + " ——"@),
{
}

} // verus!
