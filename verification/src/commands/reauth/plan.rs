//! Matching results with accounts: which account gets which credentials.
//!
//! A result is matched by its address, ignoring case. One that matches no account is skipped and
//! reported; nothing is ever written to an account that it does not match.
use crate::json::{
    copy_docs, docs, entries, json_parse, law_field, law_put_all_then_get, law_typed_field, lookup,
    opt_doc, parse, put_all, put_fields, shown, Json, JsonV,
};
use crate::models::Account;
use crate::text::basic::{
    equal_ignoring_case, lower_ascii, lowered, opt_str, opt_text, same_ignoring_case, text2, text3,
    texts, trim, trimmed,
};
use crate::text::charwise::{
    alike, alike_at, is_core, law_alike, law_core_is_unique, law_lower_occurrence, law_trim,
};
use crate::text::numeral::{decimal, number_text};
use crate::text::search::{contains, holds, occurs_at};
use vstd::prelude::*;
use vstd::utf8::encode_utf8;

verus! {

// ---------------------------------------------------------------------------
// Matching
// ---------------------------------------------------------------------------

/// The text of `email` in the `credentials` of a document.
pub open spec fn credential_email(v: JsonV) -> Option<Seq<char>> {
    match v.get("credentials"@) {
        Some(c) => c.field_text("email"@),
        None => None,
    }
}

/// The address of a result: its `email`, or that of its `credentials`, or its `name`.
pub open spec fn item_email(item: JsonV) -> Option<Seq<char>> {
    let found = match item.field_text("email"@) {
        Some(e) => Some(e),
        None => match credential_email(item) {
            Some(e) => Some(e),
            None => item.field_text("name"@),
        },
    };
    match found {
        Some(e) => if trim(e).len() == 0 {
            None
        } else {
            Some(trim(e))
        },
        None => None,
    }
}

/// The address of a result.
pub fn account_email(item: &Json) -> (r: Option<String>)
    ensures
        opt_text(r) == item_email(item@),
{
    let from_credentials: Option<&str> = match item.get("credentials") {
        Some(c) => c.get_str("email"),
        None => None,
    };
    let found: Option<&str> = match item.get_str("email") {
        Some(e) => Some(e),
        None => match from_credentials {
            Some(e) => Some(e),
            None => item.get_str("name"),
        },
    };
    match found {
        Some(e) => {
            let t = trimmed(e);
            if t.as_str().is_empty() {
                None
            } else {
                Some(t)
            }
        },
        None => None,
    }
}

/// The address in the credentials of an account.
pub open spec fn stored_email(a: Account) -> Option<Seq<char>> {
    match a.credentials {
        Some(c) => c@.field_text("email"@),
        None => None,
    }
}

/// Whether `email` is an account's name or the address of its credentials, ignoring case.
pub open spec fn matches_email(a: Account, email: Seq<char>) -> bool {
    same_ignoring_case(a.name@, email) || (stored_email(a) matches Some(e) && same_ignoring_case(
        e,
        email,
    ))
}

/// The first account that `email` matches.
pub open spec fn target(accounts: Seq<Account>, email: Seq<char>) -> Option<int>
    decreases accounts.len(),
{
    if accounts.len() == 0 {
        None
    } else {
        match target(accounts.drop_last(), email) {
            Some(i) => Some(i),
            None => if matches_email(accounts.last(), email) {
                Some(accounts.len() - 1)
            } else {
                None
            },
        }
    }
}

fn account_matches(a: &Account, email: &str) -> (r: bool)
    ensures
        r == matches_email(*a, email@),
{
    if equal_ignoring_case(a.name.as_str(), email) {
        return true;
    }
    match &a.credentials {
        Some(c) => match c.get_str("email") {
            Some(e) => equal_ignoring_case(e, email),
            None => false,
        },
        None => false,
    }
}

/// Finds the first account that `email` matches.
pub fn find_account(accounts: &[Account], email: &str) -> (r: Option<usize>)
    ensures
        match r {
            Some(i) => i < accounts@.len() && target(accounts@, email@) == Some(i as int),
            None => target(accounts@, email@) is None,
        },
        match r {
            Some(i) => first_bearer(accounts@, email@, i as int),
            None => forall|j: int|
                0 <= j < accounts@.len() ==> !bears(#[trigger] accounts@[j], email@),
        },
{
    let mut i: usize = 0;
    while i < accounts.len()
        invariant
            i <= accounts@.len(),
            target(accounts@.take(i as int), email@) is None,
        decreases accounts@.len() - i,
    {
        assert(accounts@.take(i + 1).drop_last() == accounts@.take(i as int));
        if account_matches(&accounts[i], email) {
            proof {
                lemma_target_of_prefix(accounts@, i + 1, email@);
                law_target_has_the_address(accounts@, email@);
            }
            return Some(i);
        }
        i += 1;
    }
    assert(accounts@.take(accounts@.len() as int) == accounts@);
    proof {
        law_target_has_the_address(accounts@, email@);
    }
    None
}

proof fn lemma_target_of_prefix(accounts: Seq<Account>, n: int, email: Seq<char>)
    requires
        0 <= n <= accounts.len(),
        target(accounts.take(n), email) is Some,
    ensures
        target(accounts, email) == target(accounts.take(n), email),
    decreases accounts.len() - n,
{
    if n == accounts.len() {
        assert(accounts.take(n) == accounts);
    } else {
        assert(accounts.take(n + 1).drop_last() == accounts.take(n));
        lemma_target_of_prefix(accounts, n + 1, email);
    }
}

// ---------------------------------------------------------------------------
// Credentials
// ---------------------------------------------------------------------------

/// The fields of `existing`, overridden by those of `clip`.
pub open spec fn merged(clip: JsonV, existing: JsonV) -> JsonV {
    JsonV::Obj(put_all(put_all(Seq::empty(), existing.fields()), clip.fields()))
}

/// Merges credentials: what the result does not hold is kept from the account.
pub fn merge_credentials(clip: &Json, existing: &Json) -> (r: Json)
    ensures
        r@ == merged(clip@, existing@),
{
    let mut m: Vec<(String, Json)> = Vec::new();
    assert(entries(m@) =~= Seq::<(Seq<char>, JsonV)>::empty());
    if let Json::Obj(o) = existing {
        assert(existing@.fields() =~= entries(o@));
        put_fields(&mut m, o);
    }
    if let Json::Obj(o) = clip {
        assert(clip@.fields() =~= entries(o@));
        put_fields(&mut m, o);
    }
    let r = Json::Obj(m);
    assert(r@->Obj_0 =~= entries(m@));
    r
}

/// One field of a preview.
#[derive(Debug, Clone)]
pub struct FieldPreview {
    pub key: String,
    pub value: String,
    /// Whether the value is a secret, of which only the length is shown.
    pub hidden: bool,
}

/// The model of a preview's field.
#[verifier::ext_equal]
pub struct FieldPreviewV {
    pub key: Seq<char>,
    pub value: Seq<char>,
    pub hidden: bool,
}

impl View for FieldPreview {
    type V = FieldPreviewV;

    open spec fn view(&self) -> FieldPreviewV {
        FieldPreviewV { key: self.key@, value: self.value@, hidden: self.hidden }
    }
}

/// Whether a field with this key is a secret.
pub open spec fn is_secret(key: Seq<char>) -> bool {
    holds(lower_ascii(key), "token"@) || holds(lower_ascii(key), "secret"@)
}

/// How long a secret is: the bytes of its text, zero where it is no text.
pub open spec fn secret_len(v: JsonV) -> nat {
    match v.text() {
        Some(s) => encode_utf8(s).len(),
        None => 0,
    }
}

/// What is shown of a value: a text without its quotes, anything else in its notation.
pub open spec fn plain(v: JsonV) -> Seq<char> {
    match v {
        JsonV::Str(s) => s,
        JsonV::Null => "null"@,
        _ => shown(v),
    }
}

/// What is shown of a field.
pub open spec fn field_preview(key: Seq<char>, v: JsonV) -> FieldPreviewV {
    if is_secret(key) {
        FieldPreviewV {
            key,
            value: "<"@ + decimal(secret_len(v)) + " 字符>"@,
            hidden: true,
        }
    } else {
        FieldPreviewV { key, value: plain(v), hidden: false }
    }
}

/// What is shown of credentials.
pub open spec fn preview(creds: JsonV) -> Seq<FieldPreviewV> {
    creds.fields().map_values(|f: (Seq<char>, JsonV)| field_preview(f.0, f.1))
}

/// The models of a preview's fields.
pub open spec fn previews(v: Seq<FieldPreview>) -> Seq<FieldPreviewV> {
    v.map_values(|f: FieldPreview| f@)
}

fn preview_of(key: &String, v: &Json) -> (r: FieldPreview)
    ensures
        r@ == field_preview(key@, v@),
{
    let low = lowered(key.as_str());
    if contains(low.as_str(), "token") || contains(low.as_str(), "secret") {
        let len: usize = match v.as_str() {
            Some(s) => s.as_bytes().len(),
            None => 0,
        };
        let n = number_text(len as u64);
        FieldPreview {
            key: key.clone(),
            value: text3("<", n.as_str(), " 字符>"),
            hidden: true,
        }
    } else {
        let value = match v {
            Json::Str(s) => s.clone(),
            Json::Null => "null".to_owned(),
            _ => v.show(),
        };
        FieldPreview { key: key.clone(), value, hidden: false }
    }
}

/// Shows credentials; of secrets only the length.
pub fn build_preview(creds: &Json) -> (r: Vec<FieldPreview>)
    ensures
        previews(r@) == preview(creds@),
{
    let mut out: Vec<FieldPreview> = Vec::new();
    if let Json::Obj(o) = creds {
        assert(creds@.fields() =~= entries(o@));
        let mut i: usize = 0;
        while i < o.len()
            invariant
                i <= o@.len(),
                out@.len() == i,
                forall|k: int|
                    0 <= k < i ==> (#[trigger] out@[k])@ == field_preview(o@[k].0@, o@[k].1@),
            decreases o@.len() - i,
        {
            out.push(preview_of(&o[i].0, &o[i].1));
            i += 1;
        }
        assert(previews(out@) =~= preview(creds@));
    } else {
        assert(previews(out@) =~= preview(creds@));
    }
    out
}

// ---------------------------------------------------------------------------
// Results
// ---------------------------------------------------------------------------

/// The results in a document: its `accounts`, or its elements, or itself where it has
/// `credentials`.
pub open spec fn items_of(v: JsonV) -> Option<Seq<JsonV>> {
    match v.field_items("accounts"@) {
        Some(a) => Some(a),
        None => match v.items() {
            Some(a) => Some(a),
            None => if v.get("credentials"@) is Some {
                Some(seq![v])
            } else {
                None
            },
        },
    }
}

/// Why a text holds no results.
pub open spec fn no_items(raw: Seq<char>) -> Option<Seq<char>> {
    match json_parse(trim(raw)) {
        None => Some("结果不是合法 JSON（期望 CPA 输出的 accounts[] 结构）"@),
        Some(v) => match items_of(v) {
            None => Some("无法识别的结果结构：既没有 accounts[]，也不是单条含 credentials 的对象"@),
            Some(items) => if items.len() == 0 {
                Some("结果里的账号列表为空，没有可写回的内容"@)
            } else {
                None
            },
        },
    }
}

/// The results of a document.
pub fn items_in(val: &Json) -> (r: Result<Vec<Json>, String>)
    ensures
        match r {
            Ok(items) => items_of(val@) == Some(docs(items@)) && items@.len() > 0,
            Err(e) => match items_of(val@) {
                None => e@
                    == "无法识别的结果结构：既没有 accounts[]，也不是单条含 credentials 的对象"@,
                Some(items) => items.len() == 0 && e@
                    == "结果里的账号列表为空，没有可写回的内容"@,
            },
        },
{
    let items: Vec<Json> = match val.get_array("accounts") {
        Some(a) => copy_docs(a),
        None => match val.as_array() {
            Some(a) => copy_docs(a),
            None => if val.get("credentials").is_some() {
                let mut one: Vec<Json> = Vec::new();
                one.push(val.copy());
                assert(docs(one@) =~= seq![val@]);
                one
            } else {
                return Err(
                    "无法识别的结果结构：既没有 accounts[]，也不是单条含 credentials 的对象".to_owned(),
                );
            },
        },
    };
    assert(docs(items@).len() == items@.len());
    if items.len() == 0 {
        Err("结果里的账号列表为空，没有可写回的内容".to_owned())
    } else {
        Ok(items)
    }
}

/// Reads the results of a text.
pub fn parse_items(raw: &str) -> (r: Result<Vec<Json>, String>)
    ensures
        match r {
            Ok(items) => no_items(raw@) is None && items_of(json_parse(trim(raw@))->0) == Some(
                docs(items@),
            ),
            Err(e) => no_items(raw@) == Some(e@),
        },
{
    let t = trimmed(raw);
    match parse(t.as_str()) {
        Err(_) => Err("结果不是合法 JSON（期望 CPA 输出的 accounts[] 结构）".to_owned()),
        Ok(v) => items_in(&v),
    }
}

// ---------------------------------------------------------------------------
// The plan
// ---------------------------------------------------------------------------

/// What is to be written to one account.
#[derive(Debug)]
pub struct PlanItem {
    pub account_id: i64,
    pub account_type: String,
    pub email: String,
    pub preview: Vec<FieldPreview>,
    pub credentials: Json,
    pub extra: Json,
}

/// The model of what is to be written to one account.
#[verifier::ext_equal]
pub struct PlanItemV {
    pub account_id: i64,
    pub account_type: Seq<char>,
    pub email: Seq<char>,
    pub preview: Seq<FieldPreviewV>,
    pub credentials: JsonV,
    pub extra: JsonV,
}

impl View for PlanItem {
    type V = PlanItemV;

    open spec fn view(&self) -> PlanItemV {
        PlanItemV {
            account_id: self.account_id,
            account_type: self.account_type@,
            email: self.email@,
            preview: previews(self.preview@),
            credentials: self.credentials@,
            extra: self.extra@,
        }
    }
}

/// The models of a plan.
pub open spec fn plan_views(v: Seq<PlanItem>) -> Seq<PlanItemV> {
    v.map_values(|p: PlanItem| p@)
}

/// What becomes of one result.
#[verifier::ext_equal]
pub enum Choice {
    /// It is to be written.
    Plan(PlanItemV),
    /// It is skipped, and this reported.
    Skip(Seq<char>),
    /// It is not asked for.
    Pass,
}

/// What is written to the account `a` of a result with this address and these credentials.
pub open spec fn plan_for(a: Account, email: Seq<char>, creds: JsonV) -> PlanItemV {
    let m = merged(creds, opt_doc(a.credentials).unwrap_or(JsonV::Null));
    PlanItemV {
        account_id: a.id,
        account_type: if a.account_type@.len() == 0 {
            "oauth"@
        } else {
            a.account_type@
        },
        email,
        preview: preview(m),
        credentials: m,
        extra: opt_doc(a.extra).unwrap_or(JsonV::Obj(Seq::empty())),
    }
}

/// What becomes of a result.
pub open spec fn choice(
    item: JsonV,
    accounts: Seq<Account>,
    only_account: Option<i64>,
    only_email: Option<Seq<char>>,
) -> Choice {
    match item_email(item) {
        None => Choice::Skip("(某项缺 email/name，无法匹配)"@),
        Some(email) => if only_email matches Some(e) && !same_ignoring_case(email, e) {
            Choice::Pass
        } else {
            match target(accounts, email) {
                None => Choice::Skip(email + "（sub2api 里没有这个邮箱的账号）"@),
                Some(i) => if only_account matches Some(id) && accounts[i].id != id {
                    Choice::Pass
                } else {
                    match item.get("credentials"@) {
                        Some(c) => if c is Obj {
                            Choice::Plan(plan_for(accounts[i], email, c))
                        } else {
                            Choice::Skip(email + "（该项没有 credentials 对象）"@)
                        },
                        None => Choice::Skip(email + "（该项没有 credentials 对象）"@),
                    }
                },
            }
        },
    }
}

/// What is to be written, for all the results in their order.
pub open spec fn planned(
    items: Seq<JsonV>,
    accounts: Seq<Account>,
    only_account: Option<i64>,
    only_email: Option<Seq<char>>,
) -> Seq<PlanItemV>
    decreases items.len(),
{
    if items.len() == 0 {
        Seq::empty()
    } else {
        let done = planned(items.drop_last(), accounts, only_account, only_email);
        match choice(items.last(), accounts, only_account, only_email) {
            Choice::Plan(p) => done.push(p),
            _ => done,
        }
    }
}

/// What is reported of the skipped results, in their order.
pub open spec fn skips(
    items: Seq<JsonV>,
    accounts: Seq<Account>,
    only_account: Option<i64>,
    only_email: Option<Seq<char>>,
) -> Seq<Seq<char>>
    decreases items.len(),
{
    if items.len() == 0 {
        Seq::empty()
    } else {
        let done = skips(items.drop_last(), accounts, only_account, only_email);
        match choice(items.last(), accounts, only_account, only_email) {
            Choice::Skip(s) => done.push(s),
            _ => done,
        }
    }
}

/// What becomes of one result.
enum Chosen {
    Plan(PlanItem),
    Skip(String),
    Pass,
}

spec fn chosen_view(c: Chosen) -> Choice {
    match c {
        Chosen::Plan(p) => Choice::Plan(p@),
        Chosen::Skip(s) => Choice::Skip(s@),
        Chosen::Pass => Choice::Pass,
    }
}

fn plan_item(a: &Account, email: String, creds: &Json) -> (r: PlanItem)
    ensures
        r@ == plan_for(*a, email@, creds@),
{
    let null = Json::Null;
    let m = match &a.credentials {
        Some(c) => merge_credentials(creds, c),
        None => merge_credentials(creds, &null),
    };
    let extra = match &a.extra {
        Some(e) => e.copy(),
        None => {
            let none: Vec<(String, Json)> = Vec::new();
            let j = Json::Obj(none);
            assert(j@->Obj_0 =~= Seq::<(Seq<char>, JsonV)>::empty());
            j
        },
    };
    PlanItem {
        account_id: a.id,
        account_type: if a.account_type.as_str().is_empty() {
            "oauth".to_owned()
        } else {
            a.account_type.clone()
        },
        email,
        preview: build_preview(&m),
        credentials: m,
        extra,
    }
}

fn choose_for(
    item: &Json,
    accounts: &[Account],
    only_account: Option<i64>,
    only_email: Option<&str>,
) -> (r: Chosen)
    ensures
        chosen_view(r) == choice(item@, accounts@, only_account, opt_str(only_email)),
{
    let email = match account_email(item) {
        Some(e) => e,
        None => {
            return Chosen::Skip("(某项缺 email/name，无法匹配)".to_owned());
        },
    };
    if let Some(e) = only_email {
        if !equal_ignoring_case(email.as_str(), e) {
            return Chosen::Pass;
        }
    }
    let i = match find_account(accounts, email.as_str()) {
        Some(i) => i,
        None => {
            return Chosen::Skip(text2(email.as_str(), "（sub2api 里没有这个邮箱的账号）"));
        },
    };
    if let Some(id) = only_account {
        if accounts[i].id != id {
            return Chosen::Pass;
        }
    }
    match item.get("credentials") {
        Some(c) => if c.is_object() {
            Chosen::Plan(plan_item(&accounts[i], email, c))
        } else {
            Chosen::Skip(text2(email.as_str(), "（该项没有 credentials 对象）"))
        },
        None => Chosen::Skip(text2(email.as_str(), "（该项没有 credentials 对象）")),
    }
}

/// Plans what is written to which account, and reports what is skipped.
pub fn plan_items(
    items: &Vec<Json>,
    accounts: &[Account],
    only_account: Option<i64>,
    only_email: Option<&str>,
) -> (r: (Vec<PlanItem>, Vec<String>))
    ensures
        plan_views(r.0@) == planned(docs(items@), accounts@, only_account, opt_str(only_email)),
        texts(r.1@) == skips(docs(items@), accounts@, only_account, opt_str(only_email)),
{
    let mut plans: Vec<PlanItem> = Vec::new();
    let mut skipped: Vec<String> = Vec::new();
    let ghost all = docs(items@);
    let ghost oe = opt_str(only_email);
    let mut i: usize = 0;
    assert(plan_views(plans@) =~= planned(all.take(0), accounts@, only_account, oe));
    assert(texts(skipped@) =~= skips(all.take(0), accounts@, only_account, oe));
    while i < items.len()
        invariant
            i <= items@.len(),
            all == docs(items@),
            oe == opt_str(only_email),
            plan_views(plans@) == planned(all.take(i as int), accounts@, only_account, oe),
            texts(skipped@) == skips(all.take(i as int), accounts@, only_account, oe),
        decreases items@.len() - i,
    {
        assert(all.take(i + 1).drop_last() == all.take(i as int));
        assert(all.take(i + 1).last() == items@[i as int]@);
        match choose_for(&items[i], accounts, only_account, only_email) {
            Chosen::Plan(p) => {
                let ghost was = plan_views(plans@);
                plans.push(p);
                assert(plan_views(plans@) =~= was.push(p@));
            },
            Chosen::Skip(s) => {
                let ghost was = texts(skipped@);
                skipped.push(s);
                assert(texts(skipped@) =~= was.push(s@));
            },
            Chosen::Pass => {},
        }
        i += 1;
    }
    assert(all.take(all.len() as int) == all);
    (plans, skipped)
}

/// What became of one account.
#[derive(Debug, Clone)]
pub struct ApplyOutcome {
    pub account_id: i64,
    pub email: String,
    pub ok: bool,
    pub message: String,
}

/// What was planned and, where it was carried out, what became of it.
#[derive(Debug)]
pub struct ApplyReport {
    pub dry_run: bool,
    pub plans: Vec<PlanItem>,
    pub skipped: Vec<String>,
    /// Empty in a dry run.
    pub outcomes: Vec<ApplyOutcome>,
}

/// Plans what is written to which account, for the results of a text. Nothing is written: the
/// report is that of a dry run.
pub fn build_plan(
    accounts: &[Account],
    raw: &str,
    only_account: Option<i64>,
    only_email: Option<&str>,
) -> (r: Result<ApplyReport, String>)
    ensures
        match r {
            Ok(report) => {
                let items = items_of(json_parse(trim(raw@))->0)->0;
                &&& no_items(raw@) is None
                &&& report.dry_run
                &&& report.outcomes@.len() == 0
                &&& plan_views(report.plans@) == planned(
                    items,
                    accounts@,
                    only_account,
                    opt_str(only_email),
                )
                &&& texts(report.skipped@) == skips(
                    items,
                    accounts@,
                    only_account,
                    opt_str(only_email),
                )
            },
            Err(e) => no_items(raw@) == Some(e@),
        },
{
    match parse_items(raw) {
        Err(e) => Err(e),
        Ok(items) => {
            let (plans, skipped) = plan_items(&items, accounts, only_account, only_email);
            Ok(ApplyReport { dry_run: true, plans, skipped, outcomes: Vec::new() })
        },
    }
}

// ---------------------------------------------------------------------------
// Laws
// ---------------------------------------------------------------------------

/// The target of an address is an account that it matches, and no account before it is.
pub proof fn law_target(accounts: Seq<Account>, email: Seq<char>)
    ensures
        match target(accounts, email) {
            Some(i) => 0 <= i < accounts.len() && matches_email(accounts[i], email) && (forall|
                j: int,
            |
                0 <= j < i ==> !matches_email(#[trigger] accounts[j], email)),
            None => forall|j: int|
                0 <= j < accounts.len() ==> !matches_email(#[trigger] accounts[j], email),
        },
    decreases accounts.len(),
{
    if accounts.len() > 0 {
        let less = accounts.drop_last();
        law_target(less, email);
        assert forall|j: int| 0 <= j < less.len() implies less[j] == #[trigger] accounts[j] by {}
    }
}

/// Letter case of an address makes no difference to its target.
pub proof fn law_target_ignores_case(accounts: Seq<Account>, a: Seq<char>, b: Seq<char>)
    requires
        same_ignoring_case(a, b),
    ensures
        target(accounts, a) == target(accounts, b),
    decreases accounts.len(),
{
    if accounts.len() > 0 {
        law_target_ignores_case(accounts.drop_last(), a, b);
    }
}

/// No account is written that does not match: every planned item comes from a result with
/// credentials, whose address it has, and goes to the first account that the address matches. It
/// is one that was asked for.
pub proof fn law_no_wrong_account(
    items: Seq<JsonV>,
    accounts: Seq<Account>,
    only_account: Option<i64>,
    only_email: Option<Seq<char>>,
)
    ensures
        forall|k: int|
            0 <= k < planned(items, accounts, only_account, only_email).len() ==> rightly_planned(
                #[trigger] planned(items, accounts, only_account, only_email)[k],
                items,
                accounts,
                only_account,
                only_email,
            ),
    decreases items.len(),
{
    if items.len() > 0 {
        let less = items.drop_last();
        law_no_wrong_account(less, accounts, only_account, only_email);
        let all = planned(items, accounts, only_account, only_email);
        let done = planned(less, accounts, only_account, only_email);
        assert forall|k: int| 0 <= k < all.len() implies rightly_planned(
            #[trigger] all[k],
            items,
            accounts,
            only_account,
            only_email,
        ) by {
            if k < done.len() {
                assert(all[k] == done[k]);
                let (i, j) = choose|i: int, j: int|
                    comes_from(done[k], #[trigger] less[i], #[trigger] accounts[j]) && 0 <= i
                        < less.len() && 0 <= j < accounts.len() && target(accounts, done[k].email)
                        == Some(j);
                assert(items[i] == less[i]);
                assert(comes_from(all[k], items[i], accounts[j]));
            } else {
                let item = items.last();
                let email = item_email(item)->0;
                law_target(accounts, email);
                let j = target(accounts, email)->0;
                assert(items[items.len() - 1] == item);
                assert(comes_from(all[k], items[items.len() - 1], accounts[j]));
            }
        }
    }
}

/// Whether the plan `p` is what a result makes of an account that it matches.
pub open spec fn comes_from(p: PlanItemV, item: JsonV, a: Account) -> bool {
    &&& item_email(item) == Some(p.email)
    &&& item.get("credentials"@) is Some
    &&& matches_email(a, p.email)
    &&& p == plan_for(a, p.email, item.get("credentials"@)->0)
}

/// Whether the plan `p` comes from one of the results, goes to the target of its address, and is
/// one that was asked for.
pub open spec fn rightly_planned(
    p: PlanItemV,
    items: Seq<JsonV>,
    accounts: Seq<Account>,
    only_account: Option<i64>,
    only_email: Option<Seq<char>>,
) -> bool {
    &&& exists|i: int, j: int|
        comes_from(p, #[trigger] items[i], #[trigger] accounts[j]) && 0 <= i < items.len() && 0 <= j
            < accounts.len() && target(accounts, p.email) == Some(j)
    &&& only_account matches Some(id) ==> p.account_id == id
    &&& only_email matches Some(e) ==> same_ignoring_case(p.email, e)
}

/// Every result is planned, reported as skipped, or was not asked for; without a restriction none
/// is passed over in silence.
pub proof fn law_nothing_is_dropped(items: Seq<JsonV>, accounts: Seq<Account>)
    ensures
        planned(items, accounts, None, None).len() + skips(items, accounts, None, None).len()
            == items.len(),
    decreases items.len(),
{
    if items.len() > 0 {
        law_nothing_is_dropped(items.drop_last(), accounts);
    }
}

/// Merged credentials hold every field of the result as the result has it, and every other field
/// as the account has it.
pub proof fn law_merge(clip: JsonV, existing: JsonV, k: Seq<char>)
    ensures
        merged(clip, existing).get(k) == (match clip.get(k) {
            Some(v) => Some(v),
            None => existing.get(k),
        }),
{
    let none = Seq::<(Seq<char>, JsonV)>::empty();
    law_put_all_then_get(none, existing.fields(), k);
    law_put_all_then_get(put_all(none, existing.fields()), clip.fields(), k);
    assert(lookup(none, k) is None);
}

/// A preview tells nothing of a secret but its length.
pub proof fn law_secret_shows_only_its_length(key: Seq<char>, a: JsonV, b: JsonV)
    requires
        is_secret(key),
        secret_len(a) == secret_len(b),
    ensures
        field_preview(key, a) == field_preview(key, b),
        field_preview(key, a).hidden,
{
}

// ---------------------------------------------------------------------------
// Laws on whole addresses
// ---------------------------------------------------------------------------

/// Whether the account has the address `e`: its name, or the address in its credentials, is `e`
/// from the first character to the last but for the case of letters.
pub open spec fn bears(a: Account, e: Seq<char>) -> bool {
    ||| alike(a.name@, e)
    ||| (a.credentials matches Some(c) && (c@.get("email"@) matches Some(JsonV::Str(t)) && alike(
        t,
        e,
    )))
}

/// Whether the account at position `j` is the first with the address `e`.
pub open spec fn first_bearer(accounts: Seq<Account>, e: Seq<char>, j: int) -> bool {
    0 <= j < accounts.len() && bears(accounts[j], e) && forall|i: int|
        0 <= i < j ==> !bears(#[trigger] accounts[i], e)
}

/// Whether `raw` is the text that tells the address of a result: its `email`, or else that of its
/// `credentials`, or else its `name`.
pub open spec fn tells_address(item: JsonV, raw: Seq<char>) -> bool {
    match item.get("email"@) {
        Some(JsonV::Str(t)) => raw == t,
        _ => match item.get("credentials"@) {
            Some(c) => match c.get("email"@) {
                Some(JsonV::Str(t)) => raw == t,
                _ => item.get("name"@) == Some(JsonV::Str(raw)),
            },
            None => item.get("name"@) == Some(JsonV::Str(raw)),
        },
    }
}

/// Whether the result has the address `e`: the text that tells it, without the spaces around it.
pub open spec fn addressed(item: JsonV, e: Seq<char>) -> bool {
    e.len() > 0 && exists|raw: Seq<char>| #[trigger] tells_address(item, raw) && is_core(raw, e)
}

/// An account matches an address by the whole of it.
pub proof fn law_match_is_of_the_whole_address(a: Account, e: Seq<char>)
    ensures
        matches_email(a, e) == bears(a, e),
{
    law_alike(a.name@, e);
    if let Some(c) = a.credentials {
        law_typed_field(c@, "email"@);
        if let Some(JsonV::Str(t)) = c@.get("email"@) {
            law_alike(t, e);
        }
    }
}

/// The target of an address is the first account that has the whole of it, and there is none only
/// where no account has it.
pub proof fn law_target_has_the_address(accounts: Seq<Account>, e: Seq<char>)
    ensures
        match target(accounts, e) {
            Some(j) => first_bearer(accounts, e, j),
            None => forall|j: int| 0 <= j < accounts.len() ==> !bears(#[trigger] accounts[j], e),
        },
{
    law_target(accounts, e);
    assert forall|j: int| 0 <= j < accounts.len() implies matches_email(accounts[j], e) == bears(
        #[trigger] accounts[j],
        e,
    ) by {
        law_match_is_of_the_whole_address(accounts[j], e);
    }
}

/// The first account with an address is its target.
pub proof fn law_first_account_with_the_address_is_the_target(
    accounts: Seq<Account>,
    e: Seq<char>,
    j: int,
)
    requires
        first_bearer(accounts, e, j),
    ensures
        target(accounts, e) == Some(j),
{
    law_target_has_the_address(accounts, e);
    match target(accounts, e) {
        Some(i) => {
            if i < j {
                assert(bears(accounts[i], e));
            }
            if j < i {
                assert(bears(accounts[j], e));
            }
        },
        None => {
            assert(bears(accounts[j], e));
        },
    }
}

/// The address of a result is the first of its three texts that is one, without the spaces around
/// it.
pub proof fn law_address_of_a_result(item: JsonV, e: Seq<char>)
    ensures
        (item_email(item) == Some(e)) == addressed(item, e),
{
    law_typed_field(item, "email"@);
    law_typed_field(item, "name"@);
    if let Some(c) = item.get("credentials"@) {
        law_typed_field(c, "email"@);
    }
    if item_email(item) == Some(e) {
        let raw = match item.field_text("email"@) {
            Some(t) => t,
            None => match credential_email(item) {
                Some(t) => t,
                None => item.field_text("name"@)->0,
            },
        };
        law_trim(raw);
        assert(tells_address(item, raw));
    }
    if addressed(item, e) {
        let raw = choose|raw: Seq<char>| #[trigger] tells_address(item, raw) && is_core(raw, e);
        law_core_is_unique(raw, e);
    }
}

/// Nobody gets the credentials of another: what is planned goes to the first account that has the
/// whole address of the result it comes from.
pub proof fn law_credentials_go_to_their_address(
    items: Seq<JsonV>,
    accounts: Seq<Account>,
    only_account: Option<i64>,
    only_email: Option<Seq<char>>,
    k: int,
)
    requires
        0 <= k < planned(items, accounts, only_account, only_email).len(),
    ensures
        ({
            let p = planned(items, accounts, only_account, only_email)[k];
            &&& exists|i: int, j: int|
                0 <= i < items.len() && addressed(#[trigger] items[i], p.email) && first_bearer(
                    accounts,
                    p.email,
                    j,
                ) && (#[trigger] accounts[j]).id == p.account_id
            &&& only_email matches Some(e) ==> alike(p.email, e)
            &&& only_account matches Some(id) ==> p.account_id == id
        }),
{
    law_no_wrong_account(items, accounts, only_account, only_email);
    let p = planned(items, accounts, only_account, only_email)[k];
    assert(rightly_planned(p, items, accounts, only_account, only_email));
    let (i, j) = choose|i: int, j: int|
        comes_from(p, #[trigger] items[i], #[trigger] accounts[j]) && 0 <= i < items.len() && 0 <= j
            < accounts.len() && target(accounts, p.email) == Some(j);
    law_target_has_the_address(accounts, p.email);
    law_address_of_a_result(items[i], p.email);
    assert(accounts[j].id == p.account_id);
    if let Some(e) = only_email {
        law_alike(p.email, e);
    }
}

/// Results are dealt with one by one, in their order.
pub proof fn law_results_are_dealt_with_in_order(
    a: Seq<JsonV>,
    b: Seq<JsonV>,
    accounts: Seq<Account>,
    only_account: Option<i64>,
    only_email: Option<Seq<char>>,
)
    ensures
        planned(a + b, accounts, only_account, only_email) == planned(
            a,
            accounts,
            only_account,
            only_email,
        ) + planned(b, accounts, only_account, only_email),
        skips(a + b, accounts, only_account, only_email) == skips(
            a,
            accounts,
            only_account,
            only_email,
        ) + skips(b, accounts, only_account, only_email),
    decreases b.len(),
{
    if b.len() == 0 {
        assert(a + b =~= a);
        assert(planned(b, accounts, only_account, only_email) =~= Seq::<PlanItemV>::empty());
        assert(skips(b, accounts, only_account, only_email) =~= Seq::<Seq<char>>::empty());
    } else {
        assert((a + b).drop_last() =~= a + b.drop_last());
        law_results_are_dealt_with_in_order(
            a,
            b.drop_last(),
            accounts,
            only_account,
            only_email,
        );
        assert(planned(a + b, accounts, only_account, only_email) =~= planned(
            a,
            accounts,
            only_account,
            only_email,
        ) + planned(b, accounts, only_account, only_email));
        assert(skips(a + b, accounts, only_account, only_email) =~= skips(
            a,
            accounts,
            only_account,
            only_email,
        ) + skips(b, accounts, only_account, only_email));
    }
}

proof fn lemma_one_result(
    item: JsonV,
    accounts: Seq<Account>,
    only_account: Option<i64>,
    only_email: Option<Seq<char>>,
)
    ensures
        match choice(item, accounts, only_account, only_email) {
            Choice::Plan(p) => planned(seq![item], accounts, only_account, only_email) == seq![p]
                && skips(seq![item], accounts, only_account, only_email).len() == 0,
            Choice::Skip(s) => planned(seq![item], accounts, only_account, only_email).len() == 0
                && skips(seq![item], accounts, only_account, only_email) == seq![s],
            Choice::Pass => planned(seq![item], accounts, only_account, only_email).len() == 0
                && skips(seq![item], accounts, only_account, only_email).len() == 0,
        },
{
    let one = seq![item];
    let none = Seq::<JsonV>::empty();
    assert(one.drop_last() =~= none);
    assert(planned(none, accounts, only_account, only_email) =~= Seq::<PlanItemV>::empty());
    assert(skips(none, accounts, only_account, only_email) =~= Seq::<Seq<char>>::empty());
    let plans = planned(one, accounts, only_account, only_email);
    let said = skips(one, accounts, only_account, only_email);
    match choice(item, accounts, only_account, only_email) {
        Choice::Plan(p) => {
            assert(plans =~= seq![p]);
        },
        Choice::Skip(s) => {
            assert(said =~= seq![s]);
        },
        Choice::Pass => {},
    }
}

/// A result with credentials is written to the first account that has its address, where both are
/// asked for: the account keeps its kind and its other settings, and its credentials are those of
/// the result on top of its own.
pub proof fn law_result_is_planned(
    item: JsonV,
    accounts: Seq<Account>,
    only_account: Option<i64>,
    only_email: Option<Seq<char>>,
    e: Seq<char>,
    j: int,
    key: Seq<char>,
)
    requires
        addressed(item, e),
        first_bearer(accounts, e, j),
        only_email matches Some(w) ==> alike(e, w),
        only_account matches Some(id) ==> accounts[j].id == id,
        item.get("credentials"@) matches Some(c) && c is Obj,
    ensures
        skips(seq![item], accounts, only_account, only_email).len() == 0,
        planned(seq![item], accounts, only_account, only_email).len() == 1,
        ({
            let p = planned(seq![item], accounts, only_account, only_email)[0];
            let a = accounts[j];
            &&& p.account_id == a.id
            &&& p.email == e
            &&& p.account_type == (if a.account_type@.len() == 0 {
                "oauth"@
            } else {
                a.account_type@
            })
            &&& p.extra == (match a.extra {
                Some(x) => x@,
                None => JsonV::Obj(Seq::empty()),
            })
            &&& p.credentials is Obj
            &&& p.credentials.get(key) == (match (item.get("credentials"@)->0).get(key) {
                Some(v) => Some(v),
                None => match a.credentials {
                    Some(c) => c@.get(key),
                    None => None,
                },
            })
        }),
{
    law_address_of_a_result(item, e);
    law_first_account_with_the_address_is_the_target(accounts, e, j);
    if let Some(w) = only_email {
        law_alike(e, w);
    }
    lemma_one_result(item, accounts, only_account, only_email);
    let clip = item.get("credentials"@)->0;
    let stored = opt_doc(accounts[j].credentials).unwrap_or(JsonV::Null);
    law_merge(clip, stored, key);
    law_field(JsonV::Null, key);
}

/// A result is reported, and not written, where it has no address, where no account has its
/// address, and where it has no credentials.
pub proof fn law_result_is_reported(
    item: JsonV,
    accounts: Seq<Account>,
    only_account: Option<i64>,
    only_email: Option<Seq<char>>,
    e: Seq<char>,
    j: int,
)
    ensures
        (forall|a: Seq<char>| !#[trigger] addressed(item, a)) ==> planned(
            seq![item],
            accounts,
            only_account,
            only_email,
        ).len() == 0 && skips(seq![item], accounts, only_account, only_email) == seq![
            "(某项缺 email/name，无法匹配)"@,
        ],
        addressed(item, e) && (only_email matches Some(w) ==> alike(e, w)) && (forall|i: int|
            0 <= i < accounts.len() ==> !bears(#[trigger] accounts[i], e)) ==> planned(
            seq![item],
            accounts,
            only_account,
            only_email,
        ).len() == 0 && skips(seq![item], accounts, only_account, only_email) == seq![
            e + "（sub2api 里没有这个邮箱的账号）"@,
        ],
        addressed(item, e) && (only_email matches Some(w) ==> alike(e, w)) && first_bearer(
            accounts,
            e,
            j,
        ) && (only_account matches Some(id) ==> accounts[j].id == id) && !(item.get(
            "credentials"@,
        ) matches Some(c) && c is Obj) ==> planned(
            seq![item],
            accounts,
            only_account,
            only_email,
        ).len() == 0 && skips(seq![item], accounts, only_account, only_email) == seq![
            e + "（该项没有 credentials 对象）"@,
        ],
{
    lemma_one_result(item, accounts, only_account, only_email);
    law_address_of_a_result(item, e);
    if let Some(a) = item_email(item) {
        law_address_of_a_result(item, a);
    }
    if let Some(w) = only_email {
        law_alike(e, w);
    }
    law_target_has_the_address(accounts, e);
    if first_bearer(accounts, e, j) {
        law_first_account_with_the_address_is_the_target(accounts, e, j);
    }
}

/// A result that was not asked for is neither written nor reported.
pub proof fn law_other_results_are_left_alone(
    item: JsonV,
    accounts: Seq<Account>,
    only_account: Option<i64>,
    only_email: Option<Seq<char>>,
    e: Seq<char>,
    j: int,
)
    requires
        addressed(item, e),
        (only_email matches Some(w) && !alike(e, w)) || (first_bearer(accounts, e, j) && (
        only_account matches Some(id) && accounts[j].id != id)),
    ensures
        planned(seq![item], accounts, only_account, only_email).len() == 0,
        skips(seq![item], accounts, only_account, only_email).len() == 0,
{
    lemma_one_result(item, accounts, only_account, only_email);
    law_address_of_a_result(item, e);
    if let Some(w) = only_email {
        law_alike(e, w);
    }
    if first_bearer(accounts, e, j) {
        law_first_account_with_the_address_is_the_target(accounts, e, j);
    }
}

/// Whether a key speaks of a token or a secret, in whatever case.
pub open spec fn speaks_of_secret(key: Seq<char>) -> bool {
    ||| exists|i: int| #[trigger] alike_at(key, "token"@, i)
    ||| exists|i: int| #[trigger] alike_at(key, "secret"@, i)
}

proof fn lemma_lower_holds(s: Seq<char>, p: Seq<char>)
    requires
        forall|k: int| 0 <= k < p.len() ==> !(65 <= (#[trigger] p[k]) as int <= 90),
    ensures
        holds(lower_ascii(s), p) == (exists|i: int| #[trigger] alike_at(s, p, i)),
{
    let low = lower_ascii(s);
    if holds(low, p) {
        let i = choose|i: int| occurs_at(low, p, i);
        law_lower_occurrence(s, p, i);
    }
    if exists|i: int| #[trigger] alike_at(s, p, i) {
        let i = choose|i: int| #[trigger] alike_at(s, p, i);
        law_lower_occurrence(s, p, i);
        assert(occurs_at(low, p, i));
    }
}

/// A preview shows every field under its key: of one whose key speaks of a token or a secret no
/// more than how long it is, and of another text the text.
pub proof fn law_preview(creds: JsonV, i: int)
    requires
        0 <= i < creds.fields().len(),
    ensures
        preview(creds).len() == creds.fields().len(),
        ({
            let (key, v) = creds.fields()[i];
            let f = preview(creds)[i];
            &&& f.key == key
            &&& f.hidden == speaks_of_secret(key)
            &&& f.hidden ==> f.value == "<"@ + decimal(
                match v {
                    JsonV::Str(s) => encode_utf8(s).len(),
                    _ => 0,
                },
            ) + " 字符>"@
            &&& !f.hidden && v is Str ==> v == JsonV::Str(f.value)
        }),
{
    let key = creds.fields()[i].0;
    reveal_strlit("token");
    reveal_strlit("secret");
    lemma_lower_holds(key, "token"@);
    lemma_lower_holds(key, "secret"@);
    let f = field_preview(key, creds.fields()[i].1);
    assert(preview(creds)[i] == f);
    assert(is_secret(key) == speaks_of_secret(key));
}

/// The results of a document are its `accounts`, or else the elements of a list, or else the
/// document itself where it has credentials.
pub proof fn law_results_of_a_document(v: JsonV)
    ensures
        v.get("accounts"@) matches Some(JsonV::Arr(a)) ==> items_of(v) == Some(a),
        v matches JsonV::Arr(a) ==> items_of(v) == Some(a),
        v is Obj && !(v.get("accounts"@) matches Some(JsonV::Arr(_))) ==> items_of(v) == (if v.get(
            "credentials"@,
        ) is Some {
            Some(seq![v])
        } else {
            None
        }),
        !(v is Obj) && !(v is Arr) ==> items_of(v) is None,
{
    law_typed_field(v, "accounts"@);
    law_field(v, "accounts"@);
    law_field(v, "credentials"@);
}

// ---------------------------------------------------------------------------
// Laws on what a call gives
// ---------------------------------------------------------------------------

/// The account that is found has the whole address and is the first to have it; none is found only
/// where none has it.
pub proof fn law_found_account(accounts: &[Account], email: &str, r: Option<usize>)
    requires
        call_ensures(find_account, (accounts, email), r),
    ensures
        match r {
            Some(i) => first_bearer(accounts@, email@, i as int),
            None => forall|j: int|
                0 <= j < accounts@.len() ==> !bears(#[trigger] accounts@[j], email@),
        },
{
}

/// The same account is found whatever the case in which the address is written.
pub proof fn law_found_in_whatever_case(
    accounts: &[Account],
    a: &str,
    b: &str,
    r: Option<usize>,
    s: Option<usize>,
)
    requires
        call_ensures(find_account, (accounts, a), r),
        call_ensures(find_account, (accounts, b), s),
        alike(a@, b@),
    ensures
        r == s,
{
    law_alike(a@, b@);
    law_target_ignores_case(accounts@, a@, b@);
}

/// The address of a result is one of its three texts, without the spaces around it.
pub proof fn law_read_address(item: &Json, r: Option<String>)
    requires
        call_ensures(account_email, (item,), r),
    ensures
        match r {
            Some(e) => addressed(item@, e@),
            None => forall|e: Seq<char>| !#[trigger] addressed(item@, e),
        },
{
    if let Some(e) = r {
        law_address_of_a_result(item@, e@);
    } else {
        assert forall|e: Seq<char>| !#[trigger] addressed(item@, e) by {
            law_address_of_a_result(item@, e);
        }
    }
}

/// Merged credentials have every field of the result, and of the account's fields those that the
/// result does not have.
pub proof fn law_merged_credentials(clip: &Json, existing: &Json, r: Json, k: Seq<char>)
    requires
        call_ensures(merge_credentials, (clip, existing), r),
        clip@ is Obj,
    ensures
        clip@.get(k) is Some ==> r@.get(k) == clip@.get(k),
        clip@.get(k) is None ==> r@.get(k) == existing@.get(k),
{
    law_merge(clip@, existing@, k);
}

/// A plan writes to no account but the first that has the whole address of the result, and only
/// what was asked for; making it writes nothing.
pub proof fn law_plan_of_a_text(
    accounts: &[Account],
    raw: &str,
    only_account: Option<i64>,
    only_email: Option<&str>,
    report: ApplyReport,
    k: int,
)
    requires
        call_ensures(
            build_plan,
            (accounts, raw, only_account, only_email),
            Ok::<ApplyReport, String>(report),
        ),
        0 <= k < report.plans@.len(),
    ensures
        report.dry_run,
        report.outcomes@.len() == 0,
        exists|j: int| #[trigger]
            first_bearer(accounts@, report.plans@[k].email@, j) && accounts@[j].id
                == report.plans@[k].account_id,
        only_email matches Some(e) ==> alike(report.plans@[k].email@, e@),
        only_account matches Some(id) ==> report.plans@[k].account_id == id,
{
    let items = items_of(json_parse(trim(raw@))->0)->0;
    let plans = planned(items, accounts@, only_account, opt_str(only_email));
    assert(plan_views(report.plans@) == plans);
    assert(plans.len() == report.plans@.len());
    assert(plans[k] == report.plans@[k]@);
    law_credentials_go_to_their_address(items, accounts@, only_account, opt_str(only_email), k);
    let (i, j) = choose|i: int, j: int|
        0 <= i < items.len() && addressed(#[trigger] items[i], plans[k].email) && first_bearer(
            accounts@,
            plans[k].email,
            j,
        ) && (#[trigger] accounts@[j]).id == plans[k].account_id;
    assert(first_bearer(accounts@, report.plans@[k].email@, j));
}

/// Every result is planned or reported where nothing is singled out.
pub proof fn law_plan_drops_nothing(accounts: &[Account], raw: &str, report: ApplyReport)
    requires
        call_ensures(
            build_plan,
            (accounts, raw, None::<i64>, None::<&str>),
            Ok::<ApplyReport, String>(report),
        ),
    ensures
        json_parse(trim(raw@)) matches Some(v) && (items_of(v) matches Some(items)
            && report.plans@.len() + report.skipped@.len() == items.len() && items.len() > 0),
{
    let items = items_of(json_parse(trim(raw@))->0)->0;
    law_nothing_is_dropped(items, accounts@);
    assert(plan_views(report.plans@).len() == report.plans@.len());
    assert(texts(report.skipped@).len() == report.skipped@.len());
}

/// There is nothing to plan where the text is no document, where the document has no results, and
/// where its list of results is empty.
pub proof fn law_no_results(raw: Seq<char>)
    ensures
        match json_parse(trim(raw)) {
            None => no_items(raw) == Some("结果不是合法 JSON（期望 CPA 输出的 accounts[] 结构）"@),
            Some(v) => match items_of(v) {
                None => no_items(raw) == Some(
                    "无法识别的结果结构：既没有 accounts[]，也不是单条含 credentials 的对象"@,
                ),
                Some(items) => if items.len() == 0 {
                    no_items(raw) == Some("结果里的账号列表为空，没有可写回的内容"@)
                } else {
                    no_items(raw) is None
                },
            },
        },
{
}

} // verus!
