//! The gateway's administration interface: what is asked of it, and what its answers mean.
use crate::config::Config;
use crate::http::{is_success, Method, Reply, Request, RequestV};
use crate::json::{
    copy_docs, copy_opt, docs, integer_doc, integers, integers_doc, json_parse, law_typed_field,
    object1, object2, opt_doc, parse, shown, string_doc, Json, JsonV,
};
use crate::models::Account;
use crate::text::basic::{
    opt_text, strip_head, strip_tail, stripped_head, stripped_tail, text2, text3, text5,
};
use crate::text::charwise::law_strip;
use crate::text::numeral::{
    decimal, decimal_int, integer_text, law_decimal_digits, number_text, signed,
};
use vstd::prelude::*;
use vstd::utf8::{encode_utf8, is_char_boundary};

verus! {

/// The number of accounts that one page holds.
pub const PAGE_SIZE: u32 = 1000;

/// The last page that is asked for, whatever total the gateway claims.
pub const LAST_PAGE: u32 = 1000;

/// What a reply holds: its `data`, where there is any, or else the whole of it.
pub open spec fn data_of(v: JsonV) -> JsonV {
    match v.get("data"@) {
        Some(d) => if d is Null {
            v
        } else {
            d
        },
        None => v,
    }
}

/// What a reply holds.
pub fn extract_data(v: Json) -> (r: Json)
    ensures
        r@ == data_of(v@),
{
    let data: Option<Json> = match v.get("data") {
        Some(d) => if d.is_null() {
            None
        } else {
            Some(d.copy())
        },
        None => None,
    };
    match data {
        Some(d) => d,
        None => v,
    }
}

/// A logged-in client of the gateway.
#[derive(Debug, Clone)]
pub struct Sub2ApiClient {
    pub base_url: String,
    pub access_token: String,
    pub refresh_token: Option<String>,
}

/// How many bytes of a token are shown.
pub open spec fn prefix_len(bytes: Seq<u8>) -> int {
    if bytes.len() < 8 {
        bytes.len() as int
    } else {
        8
    }
}

/// The address of a path below the interface's root.
pub open spec fn url_of(base_url: Seq<char>, path: Seq<char>) -> Seq<char> {
    strip_tail(base_url, '/') + "/api/v1/"@ + strip_head(path, '/')
}

/// The address of a path below the interface's root.
pub fn join_url(base_url: &str, path: &str) -> (r: String)
    ensures
        r@ == url_of(base_url@, path@),
{
    let b = stripped_tail(base_url, '/');
    let p = stripped_head(path, '/');
    text3(b.as_str(), "/api/v1/", p.as_str())
}

// ---------------------------------------------------------------------------
// Logging in
// ---------------------------------------------------------------------------

/// What a login reply leads to.
#[derive(Debug)]
pub enum LoginStep {
    /// The login is complete.
    Done(Sub2ApiClient),
    /// The gateway asks for a code of this secret.
    SecondFactor { temp_token: String, secret: String },
}

/// Whether `c` is the client that the tokens in `data` make.
pub open spec fn made_of(c: Sub2ApiClient, base_url: Seq<char>, data: JsonV) -> bool {
    &&& c.base_url@ == base_url
    &&& data.field_text("access_token"@) == Some(c.access_token@)
    &&& opt_text(c.refresh_token) == data.field_text("refresh_token"@)
}

/// The client that the tokens in `data` make.
pub fn client_of(base_url: &String, data: &Json) -> (r: Option<Sub2ApiClient>)
    ensures
        match r {
            Some(c) => made_of(c, base_url@, data@),
            None => data@.field_text("access_token"@) is None,
        },
{
    match data.get_str("access_token") {
        Some(at) => {
            let rt: Option<String> = match data.get_str("refresh_token") {
                Some(t) => Some(t.to_owned()),
                None => None,
            };
            Some(Sub2ApiClient::new(base_url.clone(), at.to_owned(), rt))
        },
        None => None,
    }
}

/// Whether a login reply with `data` leads to `r`. A second factor that is asked for needs a
/// temporary token and a configured secret; otherwise the reply carries the tokens.
pub open spec fn login_leads_to(
    config: Config,
    data: JsonV,
    r: Result<LoginStep, String>,
) -> bool {
    if data.field_true("requires_2fa"@) {
        match (data.field_text("temp_token"@), config.totp_secret) {
            (None, _) => r matches Err(e) && e@ == "服务端要求 2FA 但未返回 temp_token"@,
            (Some(_), None) => r matches Err(e) && e@
                == "后台已开启 2FA，但 config.toml 未填 totp_secret"@,
            (Some(t), Some(s)) => r matches Ok(LoginStep::SecondFactor { temp_token, secret })
                && temp_token@ == t && secret@ == s@,
        }
    } else if data.field_text("access_token"@) is None {
        r matches Err(e) && e@ == "登录未返回 access_token"@
    } else {
        r matches Ok(LoginStep::Done(c)) && made_of(c, config.base_url@, data)
    }
}

impl Sub2ApiClient {
    /// The request that logs in.
    pub fn login_request(config: &Config) -> (r: Request)
        ensures
            r@ == (RequestV {
                method: Method::Post,
                url: strip_tail(config.base_url@, '/') + "/api/v1/auth/login"@,
                bearer: None,
                body: Some(
                    JsonV::Obj(
                        seq![
                            ("email"@, JsonV::Str(config.email@)),
                            ("password"@, JsonV::Str(config.password@)),
                        ],
                    ),
                ),
            }),
    {
        let b = stripped_tail(config.base_url.as_str(), '/');
        Request {
            method: Method::Post,
            url: text2(b.as_str(), "/api/v1/auth/login"),
            bearer: None,
            body: Some(
                object2(
                    "email",
                    string_doc(config.email.as_str()),
                    "password",
                    string_doc(config.password.as_str()),
                ),
            ),
        }
    }

    /// What a successful login reply that holds `data` leads to.
    pub fn login_step(config: &Config, data: &Json) -> (r: Result<LoginStep, String>)
        ensures
            login_leads_to(*config, data@, r),
    {
        if data.get_true("requires_2fa") {
            return match data.get_str("temp_token") {
                None => Err("服务端要求 2FA 但未返回 temp_token".to_owned()),
                Some(t) => match &config.totp_secret {
                    None => Err("后台已开启 2FA，但 config.toml 未填 totp_secret".to_owned()),
                    Some(s) => Ok(
                        LoginStep::SecondFactor { temp_token: t.to_owned(), secret: s.clone() },
                    ),
                },
            };
        }
        match client_of(&config.base_url, data) {
            Some(c) => Ok(LoginStep::Done(c)),
            None => Err("登录未返回 access_token".to_owned()),
        }
    }

    /// What the reply to the login request leads to.
    pub fn login(config: &Config, reply: &Reply) -> (r: Result<LoginStep, String>)
        ensures
            match json_parse(reply.text@) {
                None => r matches Err(e) && e@ == "解析登录响应失败"@,
                Some(v) => if !is_success(reply.status) {
                    r matches Err(e) && e@ == "登录失败 ("@ + reply.status_line@ + "): "@ + shown(v)
                } else {
                    login_leads_to(*config, data_of(v), r)
                },
            },
    {
        match parse(reply.text.as_str()) {
            Err(_) => Err("解析登录响应失败".to_owned()),
            Ok(v) => {
                if !reply.ok() {
                    let body = v.show();
                    let head = text3("登录失败 (", reply.status_line.as_str(), "): ");
                    return Err(text2(head.as_str(), body.as_str()));
                }
                let data = extract_data(v);
                Self::login_step(config, &data)
            },
        }
    }

    /// The request that completes a login with the code of the second factor.
    pub fn second_factor_request(config: &Config, temp_token: &str, code: &str) -> (r: Request)
        ensures
            r@ == (RequestV {
                method: Method::Post,
                url: strip_tail(config.base_url@, '/') + "/api/v1/auth/login/2fa"@,
                bearer: None,
                body: Some(
                    JsonV::Obj(
                        seq![
                            ("temp_token"@, JsonV::Str(temp_token@)),
                            ("totp_code"@, JsonV::Str(code@)),
                        ],
                    ),
                ),
            }),
    {
        let b = stripped_tail(config.base_url.as_str(), '/');
        Request {
            method: Method::Post,
            url: text2(b.as_str(), "/api/v1/auth/login/2fa"),
            bearer: None,
            body: Some(
                object2("temp_token", string_doc(temp_token), "totp_code", string_doc(code)),
            ),
        }
    }

    /// What the reply to the second factor's request leads to.
    pub fn second_factor_step(config: &Config, reply: &Reply) -> (r: Result<Sub2ApiClient, String>)
        ensures
            match json_parse(reply.text@) {
                None => r matches Err(e) && e@ == "解析 2FA 响应失败"@,
                Some(v) => match r {
                    Ok(c) => made_of(c, config.base_url@, data_of(v)),
                    Err(e) => data_of(v).field_text("access_token"@) is None && e@
                        == "2FA 后未返回 access_token"@,
                },
            },
    {
        match parse(reply.text.as_str()) {
            Err(_) => Err("解析 2FA 响应失败".to_owned()),
            Ok(v) => {
                let data = extract_data(v);
                match client_of(&config.base_url, &data) {
                    Some(c) => Ok(c),
                    None => Err("2FA 后未返回 access_token".to_owned()),
                }
            },
        }
    }
}

// ---------------------------------------------------------------------------
// Requests
// ---------------------------------------------------------------------------

/// What the reply to a request leads to.
#[derive(Debug)]
pub enum Verdict {
    /// The access token has to be refreshed, and the request made once more.
    Refresh,
    /// What the reply holds.
    Done(Json),
    Failed(String),
}

impl Sub2ApiClient {
    /// A client with these tokens.
    pub fn new(base_url: String, access_token: String, refresh_token: Option<String>) -> (r:
        Sub2ApiClient)
        ensures
            r == (Sub2ApiClient { base_url, access_token, refresh_token }),
    {
        Sub2ApiClient { base_url, access_token, refresh_token }
    }

    /// The first eight bytes of the access token, or all of it where it is shorter. The eighth
    /// byte must end a character.
    pub fn token_prefix(&self) -> (r: &str)
        requires
            is_char_boundary(
                encode_utf8(self.access_token@),
                prefix_len(encode_utf8(self.access_token@)),
            ),
        ensures
            encode_utf8(r@) == encode_utf8(self.access_token@).subrange(
                0,
                prefix_len(encode_utf8(self.access_token@)),
            ),
    {
        let s = self.access_token.as_str();
        let n = s.as_bytes().len();
        let k: usize = if n < 8 {
            n
        } else {
            8
        };
        s.split_at(k).0
    }

    /// The address of `path`.
    pub fn url(&self, path: &str) -> (r: String)
        ensures
            r@ == url_of(self.base_url@, path@),
    {
        join_url(self.base_url.as_str(), path)
    }

    /// The request for `path` with the present access token.
    pub open spec fn asks(self, method: Method, path: Seq<char>, body: Option<JsonV>) -> RequestV {
        RequestV {
            method,
            url: url_of(self.base_url@, path),
            bearer: Some(self.access_token@),
            body,
        }
    }

    /// The request for `path` with the present access token.
    pub fn request(&self, method: Method, path: &str, body: &Option<Json>) -> (r: Request)
        ensures
            r@ == self.asks(method, path@, opt_doc(*body)),
    {
        Request {
            method,
            url: self.url(path),
            bearer: Some(self.access_token.clone()),
            body: copy_opt(body),
        }
    }

    /// Decides what the reply to a request for `path` means, on the first attempt (zero) or a
    /// later one. A refused token is refreshed on the first attempt alone, and only where there
    /// is a token to do so.
    pub fn judge(&self, attempt: u32, path: &str, reply: &Reply) -> (r: Verdict)
        ensures
            if reply.status == 401 && attempt == 0 && self.refresh_token is Some {
                r is Refresh
            } else if !is_success(reply.status) {
                r matches Verdict::Failed(e) && e@ == "HTTP "@ + reply.status_line@ + " "@ + path@
                    + (": "@ + reply.text@)
            } else {
                r matches Verdict::Done(v) && v@ == data_of(reply.doc())
            },
    {
        if reply.status == 401 && attempt == 0 && self.refresh_token.is_some() {
            return Verdict::Refresh;
        }
        if !reply.ok() {
            let tail = text2(": ", reply.text.as_str());
            return Verdict::Failed(
                text5("HTTP ", reply.status_line.as_str(), " ", path, tail.as_str()),
            );
        }
        Verdict::Done(extract_data(reply.json()))
    }

    /// The request for new tokens, where there is a token to ask with.
    pub fn refresh_request(&self) -> (r: Result<Request, String>)
        ensures
            match (self.refresh_token, r) {
                (Some(t), Ok(q)) => q@ == (RequestV {
                    method: Method::Post,
                    url: url_of(self.base_url@, "auth/refresh"@),
                    bearer: None,
                    body: Some(JsonV::Obj(seq![("refresh_token"@, JsonV::Str(t@))])),
                }),
                (None, Err(e)) => e@ == "无 refresh_token 可刷新"@,
                _ => false,
            },
    {
        match &self.refresh_token {
            Some(t) => Ok(
                Request {
                    method: Method::Post,
                    url: self.url("auth/refresh"),
                    bearer: None,
                    body: Some(object1("refresh_token", string_doc(t.as_str()))),
                },
            ),
            None => Err("无 refresh_token 可刷新".to_owned()),
        }
    }

    /// Whether the client went from `before` to `self` by the tokens in `data`, with the result
    /// `r`. Without a new refresh token the old one stays; without an access token nothing changes.
    pub open spec fn renewed(
        self,
        before: Sub2ApiClient,
        data: JsonV,
        r: Result<(), String>,
    ) -> bool {
        match data.field_text("access_token"@) {
            None => r matches Err(e) && e@ == "刷新后未返回 access_token"@ && self == before,
            Some(t) => r is Ok && self.base_url == before.base_url && self.access_token@ == t
                && opt_text(self.refresh_token) == (match data.field_text("refresh_token"@) {
                Some(n) => Some(n),
                None => opt_text(before.refresh_token),
            }),
        }
    }

    /// Takes the new tokens in `data`.
    pub fn renew(&mut self, data: &Json) -> (r: Result<(), String>)
        ensures
            final(self).renewed(*old(self), data@, r),
    {
        match data.get_str("access_token") {
            None => Err("刷新后未返回 access_token".to_owned()),
            Some(t) => {
                self.access_token = t.to_owned();
                match data.get_str("refresh_token") {
                    Some(n) => {
                        self.refresh_token = Some(n.to_owned());
                    },
                    None => {},
                }
                Ok(())
            },
        }
    }

    /// Takes the new tokens of a reply. A reply without a new refresh token leaves the old one;
    /// one without an access token changes nothing.
    pub fn refresh(&mut self, reply: &Reply) -> (r: Result<(), String>)
        ensures
            match json_parse(reply.text@) {
                None => r matches Err(e) && e@ == "解析刷新响应失败"@ && *final(self) == *old(self),
                Some(v) => final(self).renewed(*old(self), data_of(v), r),
            },
    {
        match parse(reply.text.as_str()) {
            Err(_) => Err("解析刷新响应失败".to_owned()),
            Ok(v) => {
                let data = extract_data(v);
                self.renew(&data)
            },
        }
    }
}

// ---------------------------------------------------------------------------
// Operations on accounts
// ---------------------------------------------------------------------------

/// The path of an account, with what follows its number.
pub open spec fn account_path(id: i64, tail: Seq<char>) -> Seq<char> {
    "admin/accounts/"@ + decimal_int(id as int) + tail
}

/// The path under which new credentials are given to an account.
pub fn apply_path(account_id: i64) -> (r: String)
    ensures
        r@ == account_path(account_id, "/apply-oauth-credentials"@),
{
    let id = integer_text(account_id);
    text3("admin/accounts/", id.as_str(), "/apply-oauth-credentials")
}

/// The path under which an account is put into or out of scheduling.
pub fn schedulable_path(account_id: i64) -> (r: String)
    ensures
        r@ == account_path(account_id, "/schedulable"@),
{
    let id = integer_text(account_id);
    text3("admin/accounts/", id.as_str(), "/schedulable")
}

/// The path under which an account is deleted or changed.
pub fn account_only_path(account_id: i64) -> (r: String)
    ensures
        r@ == account_path(account_id, Seq::empty()),
{
    let id = integer_text(account_id);
    let r = text2("admin/accounts/", id.as_str());
    assert(r@ + Seq::<char>::empty() =~= r@);
    r
}

impl Sub2ApiClient {
    /// The request that gives new credentials to an account. The gateway clears the account's
    /// error and makes no second account.
    pub fn apply_oauth_credentials(&self, account_id: i64, body: Json) -> (r: Request)
        ensures
            r@ == self.asks(
                Method::Post,
                account_path(account_id, "/apply-oauth-credentials"@),
                Some(body@),
            ),
    {
        let path = apply_path(account_id);
        self.request(Method::Post, path.as_str(), &Some(body))
    }

    /// The request that puts an account into or out of scheduling.
    pub fn set_schedulable(&self, account_id: i64, schedulable: bool) -> (r: Request)
        ensures
            r@ == self.asks(
                Method::Post,
                account_path(account_id, "/schedulable"@),
                Some(JsonV::Obj(seq![("schedulable"@, JsonV::Bool(schedulable))])),
            ),
    {
        let path = schedulable_path(account_id);
        self.request(
            Method::Post,
            path.as_str(),
            &Some(object1("schedulable", Json::Bool(schedulable))),
        )
    }

    /// The request that deletes an account.
    pub fn delete_account(&self, account_id: i64) -> (r: Request)
        ensures
            r@ == self.asks(Method::Delete, account_path(account_id, Seq::empty()), None),
    {
        let path = account_only_path(account_id);
        self.request(Method::Delete, path.as_str(), &None)
    }
}

impl Sub2ApiClient {
    /// The request that gives one priority to many accounts.
    pub fn set_priority_bulk(&self, ids: &[i64], priority: i64) -> (r: Request)
        ensures
            r@ == self.asks(
                Method::Post,
                "admin/accounts/bulk-update"@,
                Some(
                    JsonV::Obj(
                        seq![
                            ("account_ids"@, integers(ids@)),
                            ("priority"@, JsonV::Num(decimal_int(priority as int))),
                        ],
                    ),
                ),
            ),
    {
        let body = object2("account_ids", integers_doc(ids), "priority", integer_doc(priority));
        self.request(Method::Post, "admin/accounts/bulk-update", &Some(body))
    }

    /// The request that gives a priority to one account.
    pub fn set_priority_one(&self, account_id: i64, priority: i64) -> (r: Request)
        ensures
            r@ == self.asks(
                Method::Put,
                account_path(account_id, Seq::empty()),
                Some(
                    JsonV::Obj(seq![("priority"@, JsonV::Num(decimal_int(priority as int)))]),
                ),
            ),
    {
        let path = account_only_path(account_id);
        self.request(
            Method::Put,
            path.as_str(),
            &Some(object1("priority", integer_doc(priority))),
        )
    }

    /// The request for an address at which a sign-in begins.
    pub fn generate_openai_auth_url(&self) -> (r: Request)
        ensures
            r@ == self.asks(
                Method::Post,
                "admin/openai/generate-auth-url"@,
                Some(JsonV::Obj(Seq::empty())),
            ),
    {
        let none: Vec<(String, Json)> = Vec::new();
        let body = Json::Obj(none);
        assert(body@->Obj_0 =~= Seq::<(Seq<char>, JsonV)>::empty());
        self.request(Method::Post, "admin/openai/generate-auth-url", &Some(body))
    }

    /// The request that changes an authorisation code into credentials.
    pub fn exchange_code(&self, session_id: &str, code: &str) -> (r: Request)
        ensures
            r@ == self.asks(
                Method::Post,
                "admin/accounts/exchange-code"@,
                Some(
                    JsonV::Obj(
                        seq![
                            ("code"@, JsonV::Str(code@)),
                            ("session_id"@, JsonV::Str(session_id@)),
                        ],
                    ),
                ),
            ),
    {
        let body = object2("code", string_doc(code), "session_id", string_doc(session_id));
        self.request(Method::Post, "admin/accounts/exchange-code", &Some(body))
    }
}

// ---------------------------------------------------------------------------
// Listing accounts
// ---------------------------------------------------------------------------

/// The accounts that were read so far, and the page to read next.
#[derive(Debug)]
pub struct AccountPages {
    pub page: u32,
    pub accounts: Vec<Account>,
}

/// The path of a page of accounts.
pub open spec fn page_path(page: u32) -> Seq<char> {
    "admin/accounts?page="@ + decimal(page as nat) + "&page_size="@ + decimal(PAGE_SIZE as nat)
}

/// How many accounts a page holds, readable or not.
pub open spec fn page_len(v: JsonV) -> int {
    v.field_items("items"@).unwrap_or(Seq::empty()).len() as int
}

/// How many accounts there are by the word of a page: by default as many as it holds.
pub open spec fn claimed_total(v: JsonV) -> int {
    v.field_integer("total"@).unwrap_or(page_len(v))
}

/// The raw accounts of a page.
pub fn page_items(v: &Json) -> (r: Result<Vec<Json>, String>)
    ensures
        match r {
            Ok(items) => v@.field_items("items"@) == Some(docs(items@)),
            Err(e) => v@.field_items("items"@) is None && e@ == "意外的账号列表响应: "@ + shown(v@),
        },
{
    match v.get_array("items") {
        Some(a) => Ok(copy_docs(a)),
        None => {
            let s = v.show();
            Err(text2("意外的账号列表响应: ", s.as_str()))
        },
    }
}

impl AccountPages {
    /// The pages that are asked for are numbered from one to [`LAST_PAGE`].
    pub open spec fn wf(self) -> bool {
        1 <= self.page <= LAST_PAGE
    }

    /// Before the first page.
    pub fn begin() -> (r: AccountPages)
        ensures
            r.wf(),
            r.page == 1,
            r.accounts@.len() == 0,
    {
        AccountPages { page: 1, accounts: Vec::new() }
    }

    /// The path of the page to read next.
    pub fn path(&self) -> (r: String)
        ensures
            r@ == page_path(self.page),
    {
        let p = number_text(self.page as u64);
        let n = number_text(PAGE_SIZE as u64);
        let head = text3("admin/accounts?page=", p.as_str(), "&page_size=");
        text2(head.as_str(), n.as_str())
    }

    /// Takes the page `v`, whose readable accounts are `read`, and tells whether it was the last:
    /// where all the claimed accounts were read, where it held none, or where no further page is
    /// asked for.
    pub fn take(&mut self, v: &Json, read: Vec<Account>) -> (done: bool)
        requires
            old(self).wf(),
        ensures
            final(self).wf(),
            final(self).accounts@ == old(self).accounts@ + read@,
            done == (final(self).accounts@.len() >= claimed_total(v@) || page_len(v@) == 0
                || old(self).page == LAST_PAGE),
            final(self).page == (if done {
                old(self).page as int
            } else {
                old(self).page + 1
            }),
            v@.field_items("items"@) matches Some(items) && items.len() > 0 && old(self).page < 1000
                && (v@.field_integer("total"@) matches Some(t) && t > old(self).accounts@.len()
                + read@.len()) ==> !done && final(self).page == old(self).page + 1,
            v@.field_integer("total"@) matches Some(t) && t <= old(self).accounts@.len()
                + read@.len() ==> done,
            v@.field_integer("total"@) is None ==> (v@.field_items("items"@) matches Some(items)
                && items.len() > old(self).accounts@.len() + read@.len() && old(self).page < 1000)
                == !done,
            (v@.field_items("items"@) matches Some(items) ==> items.len() == 0) ==> done,
            old(self).page == 1000 ==> done,
    {
        let mut read = read;
        self.accounts.append(&mut read);
        let n: usize = match v.get_array("items") {
            Some(a) => a.len(),
            None => 0,
        };
        let total: i128 = match v.get_i64("total") {
            Some(t) => t as i128,
            None => n as i128,
        };
        if self.accounts.len() as i128 >= total || n == 0 || self.page == LAST_PAGE {
            true
        } else {
            self.page = self.page + 1;
            false
        }
    }
}

impl Sub2ApiClient {
    /// The request for the next page of accounts.
    pub fn list_accounts(&self, pages: &AccountPages) -> (r: Request)
        ensures
            r@ == self.asks(Method::Get, page_path(pages.page), None),
    {
        let path = pages.path();
        self.request(Method::Get, path.as_str(), &None)
    }
}

// ---------------------------------------------------------------------------
// Laws
// ---------------------------------------------------------------------------

/// The total that a page claims is the integer in its field, however many accounts one page holds;
/// without it, the number of accounts on the page.
pub proof fn law_claimed_total(v: JsonV)
    ensures
        match v.get("total"@) {
            Some(JsonV::Num(t)) => signed(t) matches Some(n) ==> claimed_total(v) == n,
            _ => claimed_total(v) == page_len(v),
        },
        match v.get("items"@) {
            Some(JsonV::Arr(a)) => page_len(v) == a.len(),
            _ => page_len(v) == 0,
        },
{
    law_typed_field(v, "total"@);
    law_typed_field(v, "items"@);
}

/// Accounts are asked for a thousand at a time, by the number of the page.
pub proof fn law_page_path(page: u32)
    ensures
        page_path(page) == "admin/accounts?page="@ + decimal(page as nat) + "&page_size="@ + seq![
            '1',
            '0',
            '0',
            '0',
        ],
        LAST_PAGE == 1000,
{
    law_decimal_digits(100, 0, '0');
    law_decimal_digits(10, 0, '0');
    law_decimal_digits(1, 0, '0');
    law_decimal_digits(0, 1, '1');
    assert(decimal(1000) =~= seq!['1', '0', '0', '0']);
}

/// An address below the interface's root: the slashes where the two parts meet make no difference.
pub proof fn law_url(base: Seq<char>, path: Seq<char>)
    ensures
        url_of(base.push('/'), path) == url_of(base, path),
        url_of(base, seq!['/'] + path) == url_of(base, path),
        (base.len() == 0 || base.last() != '/') && (path.len() == 0 || path[0] != '/') ==> url_of(
            base,
            path,
        ) == base + "/api/v1/"@ + path,
{
    law_strip(base, '/');
    law_strip(path, '/');
}

/// What a reply holds is in its `data`, unless there is none or it is `null`.
pub proof fn law_data(v: JsonV)
    ensures
        match v.get("data"@) {
            None | Some(JsonV::Null) => data_of(v) == v,
            Some(d) => data_of(v) == d,
        },
{
}

/// A second factor that is asked for is never passed over: the login is not complete, and goes on
/// with the temporary token and the configured secret alone.
pub proof fn law_second_factor_is_not_skipped(
    config: Config,
    data: JsonV,
    r: Result<LoginStep, String>,
)
    requires
        login_leads_to(config, data, r),
        data.get("requires_2fa"@) == Some(JsonV::Bool(true)),
    ensures
        match r {
            Ok(LoginStep::SecondFactor { temp_token, secret }) => data.get("temp_token"@) == Some(
                JsonV::Str(temp_token@),
            ) && (config.totp_secret matches Some(s) && s@ == secret@),
            Ok(LoginStep::Done(_)) => false,
            Err(_) => config.totp_secret is None || !(data.get("temp_token"@) matches Some(
                JsonV::Str(_),
            )),
        },
{
    law_typed_field(data, "requires_2fa"@);
    law_typed_field(data, "temp_token"@);
}

/// Without a second factor a login is complete exactly where the reply has an access token, and the
/// client has the tokens of the reply.
pub proof fn law_login(config: Config, data: JsonV, r: Result<LoginStep, String>)
    requires
        login_leads_to(config, data, r),
        data.get("requires_2fa"@) != Some(JsonV::Bool(true)),
    ensures
        match r {
            Ok(LoginStep::Done(c)) => {
                &&& data.get("access_token"@) == Some(JsonV::Str(c.access_token@))
                &&& c.base_url@ == config.base_url@
                &&& match c.refresh_token {
                    Some(t) => data.get("refresh_token"@) == Some(JsonV::Str(t@)),
                    None => !(data.get("refresh_token"@) matches Some(JsonV::Str(_))),
                }
            },
            Ok(LoginStep::SecondFactor { .. }) => false,
            Err(_) => !(data.get("access_token"@) matches Some(JsonV::Str(_))),
        },
{
    law_typed_field(data, "requires_2fa"@);
    law_typed_field(data, "access_token"@);
    law_typed_field(data, "refresh_token"@);
}

/// A refreshed client has the new access token, and the new refresh token or else the old one;
/// where there is no new access token, nothing changes.
pub proof fn law_refreshed_client(
    now: Sub2ApiClient,
    before: Sub2ApiClient,
    data: JsonV,
    r: Result<(), String>,
)
    requires
        now.renewed(before, data, r),
    ensures
        match data.get("access_token"@) {
            Some(JsonV::Str(t)) => r is Ok && now.access_token@ == t && now.base_url
                == before.base_url && match data.get("refresh_token"@) {
                Some(JsonV::Str(n)) => now.refresh_token matches Some(x) && x@ == n,
                _ => match (now.refresh_token, before.refresh_token) {
                    (Some(x), Some(y)) => x@ == y@,
                    (None, None) => true,
                    _ => false,
                },
            },
            _ => r is Err && now == before,
        },
{
    law_typed_field(data, "access_token"@);
    law_typed_field(data, "refresh_token"@);
}

/// Requests for an account carry its number in their path, and the present token.
pub proof fn law_account_requests(c: Sub2ApiClient, method: Method, id: i64, tail: Seq<char>)
    ensures
        account_path(id, tail) == "admin/accounts/"@ + decimal_int(id as int) + tail,
        c.asks(method, account_path(id, tail), None).bearer == Some(c.access_token@),
        c.asks(method, account_path(id, tail), None).method == method,
{
}

// ---------------------------------------------------------------------------
// Laws on what a call gives
// ---------------------------------------------------------------------------

/// A refused request is tried again after the token was renewed, once, and only where it can be
/// renewed; any other answer but a success is an error.
pub proof fn law_refused_request_is_tried_again(
    c: &Sub2ApiClient,
    attempt: u32,
    path: &str,
    reply: &Reply,
    r: Verdict,
)
    requires
        call_ensures(Sub2ApiClient::judge, (c, attempt, path, reply), r),
    ensures
        r is Refresh <==> reply.status == 401 && attempt == 0 && c.refresh_token is Some,
        r is Done <==> 200 <= reply.status < 300,
        r matches Verdict::Done(v) ==> v@ == data_of(reply.doc()),
{
}

/// A login is done only where no second factor is asked for and there is a token.
pub proof fn law_login_is_done(config: &Config, data: &Json, r: Result<LoginStep, String>)
    requires
        call_ensures(Sub2ApiClient::login_step, (config, data), r),
    ensures
        r matches Ok(LoginStep::Done(c)) ==> data@.get("requires_2fa"@) != Some(JsonV::Bool(true))
            && data@.get("access_token"@) == Some(JsonV::Str(c.access_token@)) && c.base_url@
            == config.base_url@,
        data@.get("requires_2fa"@) == Some(JsonV::Bool(true)) ==> match r {
            Ok(LoginStep::SecondFactor { temp_token, secret }) => data@.get("temp_token"@) == Some(
                JsonV::Str(temp_token@),
            ) && (config.totp_secret matches Some(s) && s@ == secret@),
            Ok(LoginStep::Done(_)) => false,
            Err(_) => config.totp_secret is None || !(data@.get("temp_token"@) matches Some(
                JsonV::Str(_),
            )),
        },
{
    law_typed_field(data@, "requires_2fa"@);
    law_typed_field(data@, "access_token"@);
    law_typed_field(data@, "temp_token"@);
}

/// A renewed client has the new token, and keeps its old means of renewal where no new one came;
/// one that could not be renewed stays as it was.
pub proof fn law_renewal(c: &mut Sub2ApiClient, data: &Json, r: Result<(), String>)
    requires
        call_ensures(Sub2ApiClient::renew, (c, data), r),
    ensures
        match data@.get("access_token"@) {
            Some(JsonV::Str(t)) => r is Ok && final(c).access_token@ == t && final(c).base_url
                == old(c).base_url,
            _ => r is Err && *final(c) == *old(c),
        },
        r is Ok ==> match data@.get("refresh_token"@) {
            Some(JsonV::Str(t)) => opt_text(final(c).refresh_token) == Some(t),
            _ => opt_text(final(c).refresh_token) == opt_text(old(c).refresh_token),
        },
{
    law_typed_field(data@, "access_token"@);
    law_typed_field(data@, "refresh_token"@);
}

/// The pages of accounts are read one after the other until as many accounts are there as the
/// gateway claims in all, or a page is empty, or the last page is reached: a total that is larger
/// than what was read always leads to another page.
pub proof fn law_pages_are_read_to_the_end(
    pages: &mut AccountPages,
    v: &Json,
    read: Vec<Account>,
    done: bool,
)
    requires
        call_ensures(AccountPages::take, (pages, v, read), done),
    ensures
        final(pages).accounts@ == old(pages).accounts@ + read@,
        match (v@.get("total"@), v@.get("items"@)) {
            (Some(JsonV::Num(t)), Some(JsonV::Arr(a))) => signed(t) matches Some(n) ==> (!done <==> n
                > final(pages).accounts@.len() && a.len() > 0 && old(pages).page != 1000),
            _ => true,
        },
        !done ==> final(pages).page == old(pages).page + 1,
        done ==> final(pages).page == old(pages).page,
{
    law_typed_field(v@, "total"@);
    law_typed_field(v@, "items"@);
}

/// Every request about an account goes to that account, with the token of the client, and asks for
/// what it is for.
pub proof fn law_requests_about_an_account(
    c: &Sub2ApiClient,
    id: i64,
    on: bool,
    priority: i64,
    body: Json,
    write: Request,
    schedule: Request,
    delete: Request,
    set: Request,
)
    requires
        call_ensures(Sub2ApiClient::apply_oauth_credentials, (c, id, body), write),
        call_ensures(Sub2ApiClient::set_schedulable, (c, id, on), schedule),
        call_ensures(Sub2ApiClient::delete_account, (c, id), delete),
        call_ensures(Sub2ApiClient::set_priority_one, (c, id, priority), set),
    ensures
        ({
            let path = "admin/accounts/"@ + decimal_int(id as int);
            &&& write@.method == Method::Post && write@.url == url_of(
                c.base_url@,
                path + "/apply-oauth-credentials"@,
            ) && write@.body == Some(body@)
            &&& schedule@.method == Method::Post && schedule@.url == url_of(
                c.base_url@,
                path + "/schedulable"@,
            ) && schedule@.body == Some(JsonV::Obj(seq![("schedulable"@, JsonV::Bool(on))]))
            &&& delete@.method == Method::Delete && delete@.url == url_of(c.base_url@, path)
                && delete@.body is None
            &&& set@.method == Method::Put && set@.url == url_of(c.base_url@, path) && set@.body
                == Some(
                JsonV::Obj(seq![("priority"@, JsonV::Num(decimal_int(priority as int)))]),
            )
        }),
        write@.bearer == Some(c.access_token@),
        schedule@.bearer == Some(c.access_token@),
        delete@.bearer == Some(c.access_token@),
        set@.bearer == Some(c.access_token@),
{
    let path = "admin/accounts/"@ + decimal_int(id as int);
    assert(path + Seq::<char>::empty() =~= path);
}

/// The priority of many accounts is set in one request that names them all.
pub proof fn law_bulk_request(c: &Sub2ApiClient, ids: &[i64], priority: i64, r: Request)
    requires
        call_ensures(Sub2ApiClient::set_priority_bulk, (c, ids, priority), r),
    ensures
        r@.method == Method::Post,
        r@.url == url_of(c.base_url@, "admin/accounts/bulk-update"@),
        r@.body == Some(
            JsonV::Obj(
                seq![
                    ("account_ids"@, integers(ids@)),
                    ("priority"@, JsonV::Num(decimal_int(priority as int))),
                ],
            ),
        ),
{
}

/// A code is exchanged for the session that it is of.
pub proof fn law_exchange_request(c: &Sub2ApiClient, session: &str, code: &str, r: Request)
    requires
        call_ensures(Sub2ApiClient::exchange_code, (c, session, code), r),
    ensures
        r@.method == Method::Post,
        r@.url == url_of(c.base_url@, "admin/accounts/exchange-code"@),
        r@.body == Some(
            JsonV::Obj(
                seq![("code"@, JsonV::Str(code@)), ("session_id"@, JsonV::Str(session@))],
            ),
        ),
        r@.bearer == Some(c.access_token@),
{
}

/// A login sends the address and the password of the settings, and its second step the token of
/// the first and the code; neither has a token of its own.
pub proof fn law_login_requests(
    config: &Config,
    token: &str,
    code: &str,
    first: Request,
    second: Request,
)
    requires
        call_ensures(Sub2ApiClient::login_request, (config,), first),
        call_ensures(Sub2ApiClient::second_factor_request, (config, token, code), second),
    ensures
        first@.method == Method::Post && second@.method == Method::Post,
        first@.bearer is None && second@.bearer is None,
        first@.body == Some(
            JsonV::Obj(
                seq![
                    ("email"@, JsonV::Str(config.email@)),
                    ("password"@, JsonV::Str(config.password@)),
                ],
            ),
        ),
        second@.body == Some(
            JsonV::Obj(
                seq![("temp_token"@, JsonV::Str(token@)), ("totp_code"@, JsonV::Str(code@))],
            ),
        ),
        first@.url == strip_tail(config.base_url@, '/') + "/api/v1/auth/login"@,
        second@.url == strip_tail(config.base_url@, '/') + "/api/v1/auth/login/2fa"@,
{
}

/// A token is renewed with the means of renewal, and not without.
pub proof fn law_renewal_request(c: &Sub2ApiClient, r: Result<Request, String>)
    requires
        call_ensures(Sub2ApiClient::refresh_request, (c,), r),
    ensures
        r is Ok <==> c.refresh_token is Some,
        r matches Ok(q) ==> q@.body == Some(
            JsonV::Obj(seq![("refresh_token"@, JsonV::Str((c.refresh_token->0)@))]),
        ) && q@.bearer is None && q@.url == url_of(c.base_url@, "auth/refresh"@),
{
}

/// A second factor is passed exactly where the reply has a token.
pub proof fn law_second_factor_is_passed(
    config: &Config,
    reply: &Reply,
    r: Result<Sub2ApiClient, String>,
)
    requires
        call_ensures(Sub2ApiClient::second_factor_step, (config, reply), r),
    ensures
        r matches Ok(c) ==> (json_parse(reply.text@) matches Some(v) && data_of(v).get(
            "access_token"@,
        ) == Some(JsonV::Str(c.access_token@))) && c.base_url@ == config.base_url@,
        r is Err ==> (json_parse(reply.text@) matches Some(v) ==> !(data_of(v).get("access_token"@)
            matches Some(JsonV::Str(_)))),
{
    if let Some(v) = json_parse(reply.text@) {
        law_typed_field(data_of(v), "access_token"@);
    }
}

/// No more than the first eight bytes of a token are shown.
pub proof fn law_shown_token(c: &Sub2ApiClient, r: &str)
    requires
        call_ensures(Sub2ApiClient::token_prefix, (c,), r),
    ensures
        encode_utf8(r@).len() <= 8,
        encode_utf8(c.access_token@).len() >= 8 ==> encode_utf8(r@) == encode_utf8(
            c.access_token@,
        ).take(8),
        encode_utf8(c.access_token@).len() < 8 ==> encode_utf8(r@) == encode_utf8(c.access_token@),
{
    let b = encode_utf8(c.access_token@);
    assert(b.len() >= 8 ==> b.subrange(0, 8) =~= b.take(8));
    assert(b.len() < 8 ==> b.subrange(0, b.len() as int) =~= b);
}

/// The pages are asked for one after the other, a thousand accounts at a time.
pub proof fn law_page_request(c: &Sub2ApiClient, pages: &AccountPages, r: Request)
    requires
        call_ensures(Sub2ApiClient::list_accounts, (c, pages), r),
    ensures
        r@.method == Method::Get,
        r@.url == url_of(
            c.base_url@,
            "admin/accounts?page="@ + decimal(pages.page as nat) + "&page_size="@ + decimal(1000),
        ),
        r@.body is None,
        r@.bearer == Some(c.access_token@),
{
}

/// The pages are read from the first on, and the first request asks for it.
pub proof fn law_first_page(c: &Sub2ApiClient, p: AccountPages, r: Request)
    requires
        call_ensures(AccountPages::begin, (), p),
        call_ensures(Sub2ApiClient::list_accounts, (c, &p), r),
    ensures
        p.page == 1,
        p.accounts@.len() == 0,
        r@.url == url_of(
            c.base_url@,
            "admin/accounts?page="@ + decimal(1) + "&page_size="@ + decimal(1000),
        ),
{
}

/// A request goes where it is sent, with its body and with the token of the client.
pub proof fn law_sent_request(
    c: &Sub2ApiClient,
    method: Method,
    path: &str,
    body: &Option<Json>,
    r: Request,
    link: Request,
)
    requires
        call_ensures(Sub2ApiClient::request, (c, method, path, body), r),
        call_ensures(Sub2ApiClient::generate_openai_auth_url, (c,), link),
    ensures
        r@.method == method,
        r@.url == url_of(c.base_url@, path@),
        r@.bearer == Some(c.access_token@),
        r@.body is Some <==> *body is Some,
        *body matches Some(d) ==> r@.body == Some(d@),
        link@.method == Method::Post,
        link@.url == url_of(c.base_url@, "admin/openai/generate-auth-url"@),
        link@.bearer == Some(c.access_token@),
{
}

/// A login goes on only where the gateway's reply is a success and a document.
pub proof fn law_login_of_a_reply(config: &Config, reply: &Reply, r: Result<LoginStep, String>)
    requires
        call_ensures(Sub2ApiClient::login, (config, reply), r),
    ensures
        r is Ok ==> 200 <= reply.status < 300 && json_parse(reply.text@) is Some,
        r matches Ok(LoginStep::Done(c)) ==> (json_parse(reply.text@) matches Some(v) && data_of(
            v,
        ).get("access_token"@) == Some(JsonV::Str(c.access_token@)) && data_of(v).get(
            "requires_2fa"@,
        ) != Some(JsonV::Bool(true))),
        200 <= reply.status < 300 && r is Err ==> (json_parse(reply.text@) matches Some(v) ==> !(
        data_of(v).get("access_token"@) matches Some(JsonV::Str(_))) || data_of(v).get(
            "requires_2fa"@,
        ) == Some(JsonV::Bool(true))),
{
    if let Some(v) = json_parse(reply.text@) {
        law_typed_field(data_of(v), "access_token"@);
        law_typed_field(data_of(v), "requires_2fa"@);
    }
}

} // verus!
