//! What is asked of the mailbox service, and what its answers mean.
use crate::chunks::{
    chunk_ids, chunked, flat, id_lists, law_chunk_sizes, law_chunks_make_up_the_list, text_lists,
};
use crate::http::{is_success, refusal, Method, Reply, Request, RequestV};
use crate::json::{
    docs, integers, integers_doc, law_typed_field, object1, object2, shown, string_doc, strings,
    Json, JsonV,
};
use crate::mail::bind::{bind_body, distinct, nothing_bound, BindRun, BATCH};
use crate::mail::record::{
    as_array, describe_all, law_mailbox, law_no_mailbox, mailbox_id, mailbox_of, marks, opt_int,
    records_of, root_of, row_address, rows, snapshot_for, MailBaseline, MailConfig, MailRecord,
};
use crate::mail::wait::CodeWait;
use crate::text::basic::{lowercase, opt_text, text2, text3, text4, texts, trim, trimmed};
use crate::text::charwise::{is_core, law_trim};
use crate::text::numeral::{decimal_int, integer_text};
use vstd::prelude::*;

verus! {

/// A logged-in client of the mailbox service.
#[derive(Debug, Clone)]
pub struct MailClient {
    pub root: String,
    pub token: String,
}

/// The token of a login reply: in `token`, or else in the `token` of `data`.
pub open spec fn login_token(v: JsonV) -> Option<Seq<char>> {
    match v.field_text("token"@) {
        Some(t) => Some(t),
        None => match v.get("data"@) {
            Some(d) => d.field_text("token"@),
            None => None,
        },
    }
}

/// The token of a login reply.
pub fn token_in(body: &Json) -> (r: Option<String>)
    ensures
        opt_text(r) == login_token(body@),
{
    let token: Option<&str> = match body.get_str("token") {
        Some(t) => Some(t),
        None => match body.get("data") {
            Some(d) => d.get_str("token"),
            None => None,
        },
    };
    match token {
        Some(t) => Some(t.to_owned()),
        None => None,
    }
}

/// The path of a mailbox's check.
pub open spec fn check_path(email_id: i64) -> Seq<char> {
    "/emails/"@ + decimal_int(email_id as int) + "/check"@
}

/// The path of a mailbox's records.
pub open spec fn records_path(email_id: i64) -> Seq<char> {
    "/emails/"@ + decimal_int(email_id as int) + "/mail_records"@
}

impl MailClient {
    /// The request that logs in.
    pub fn login_request(cfg: &MailConfig) -> (r: Request)
        ensures
            r@ == (RequestV {
                method: Method::Post,
                url: root_of(cfg.base_url@) + "/auth/login"@,
                bearer: None,
                body: Some(
                    JsonV::Obj(
                        seq![
                            ("password"@, JsonV::Str(cfg.password@)),
                            ("username"@, JsonV::Str(trim(cfg.username@))),
                        ],
                    ),
                ),
            }),
    {
        let root = cfg.api_root();
        let user = trimmed(cfg.username.as_str());
        Request {
            method: Method::Post,
            url: text2(root.as_str(), "/auth/login"),
            bearer: None,
            body: Some(
                object2(
                    "password",
                    string_doc(cfg.password.as_str()),
                    "username",
                    string_doc(user.as_str()),
                ),
            ),
        }
    }

    /// The client that a login reply makes, or why there is none.
    pub fn login(cfg: &MailConfig, reply: &Reply) -> (r: Result<MailClient, String>)
        ensures
            match r {
                Ok(c) => is_success(reply.status) && login_token(reply.doc()) == Some(c.token@)
                    && c.root@ == root_of(cfg.base_url@),
                Err(e) => if !is_success(reply.status) {
                    e@ == "收码站登录失败 ("@ + reply.status_line@ + ")："@ + shown(reply.doc())
                } else {
                    login_token(reply.doc()) is None && e@
                        == "收码站登录未返回 token（检查用户名/密码）"@
                },
            },
    {
        if !reply.ok() {
            let body = reply.json().show();
            return Err(
                text4("收码站登录失败 (", reply.status_line.as_str(), ")：", body.as_str()),
            );
        }
        match token_in(&reply.json()) {
            Some(token) => Ok(MailClient { root: cfg.api_root(), token }),
            None => Err("收码站登录未返回 token（检查用户名/密码）".to_owned()),
        }
    }

    /// The request that reads `path`.
    pub open spec fn asks(self, path: Seq<char>) -> RequestV {
        RequestV {
            method: Method::Get,
            url: self.root@ + path,
            bearer: Some(self.token@),
            body: None,
        }
    }

    /// The request that sends `body` to `path`.
    pub open spec fn sends(self, path: Seq<char>, body: JsonV) -> RequestV {
        RequestV {
            method: Method::Post,
            url: self.root@ + path,
            bearer: Some(self.token@),
            body: Some(body),
        }
    }

    /// The request that reads `path`.
    pub fn get_json(&self, path: &str) -> (r: Request)
        ensures
            r@ == self.asks(path@),
    {
        Request {
            method: Method::Get,
            url: text2(self.root.as_str(), path),
            bearer: Some(self.token.clone()),
            body: None,
        }
    }

    /// The request that sends `body` to `path`.
    pub fn post_json(&self, path: &str, body: Json) -> (r: Request)
        ensures
            r@ == self.sends(path@, body@),
    {
        Request {
            method: Method::Post,
            url: text2(self.root.as_str(), path),
            bearer: Some(self.token.clone()),
            body: Some(body),
        }
    }

    /// The request that lists the bound mailboxes.
    pub fn list_request(&self) -> (r: Request)
        ensures
            r@ == self.asks("/emails"@),
    {
        self.get_json("/emails")
    }

    /// The request that binds a batch of addresses.
    pub fn bind_request(&self, batch: &Vec<String>) -> (r: Request)
        ensures
            r@ == self.sends(
                "/mail-pool/batch-bind"@,
                JsonV::Obj(seq![("emails"@, strings(texts(batch@)))]),
            ),
    {
        self.post_json("/mail-pool/batch-bind", bind_body(batch))
    }

    /// The request that makes the service fetch the mail of a mailbox.
    pub fn check_request(&self, email_id: i64) -> (r: Request)
        ensures
            r@ == self.sends(check_path(email_id), JsonV::Obj(Seq::empty())),
    {
        let id = integer_text(email_id);
        let path = text3("/emails/", id.as_str(), "/check");
        let none: Vec<(String, Json)> = Vec::new();
        let body = Json::Obj(none);
        assert(body@->Obj_0 =~= Seq::<(Seq<char>, JsonV)>::empty());
        self.post_json(path.as_str(), body)
    }

    /// The requests that make the service fetch the mail of many mailboxes, in batches.
    pub fn batch_check_requests(&self, ids: &Vec<i64>) -> (r: Vec<Request>)
        ensures
            r@.len() == chunked(ids@, 100).len(),
            forall|i: int|
                0 <= i < r@.len() ==> (#[trigger] r@[i])@ == self.sends(
                    "/emails/batch_check"@,
                    JsonV::Obj(seq![("email_ids"@, integers(chunked(ids@, 100)[i]))]),
                ),
    {
        let parts = chunk_ids(ids, 100);
        let mut out: Vec<Request> = Vec::new();
        let mut i: usize = 0;
        while i < parts.len()
            invariant
                i <= parts@.len(),
                out@.len() == i,
                id_lists(parts@) == chunked(ids@, 100),
                forall|k: int|
                    0 <= k < i ==> (#[trigger] out@[k])@ == self.sends(
                        "/emails/batch_check"@,
                        JsonV::Obj(seq![("email_ids"@, integers(chunked(ids@, 100)[k]))]),
                    ),
            decreases parts@.len() - i,
        {
            assert(id_lists(parts@)[i as int] == parts@[i as int]@);
            let body = object1("email_ids", integers_doc(parts[i].as_slice()));
            out.push(self.post_json("/emails/batch_check", body));
            i += 1;
        }
        out
    }

    /// The request that reads the records of a mailbox.
    pub fn records_request(&self, email_id: i64) -> (r: Request)
        ensures
            r@ == self.asks(records_path(email_id)),
    {
        let id = integer_text(email_id);
        let path = text3("/emails/", id.as_str(), "/mail_records");
        self.get_json(path.as_str())
    }
}

impl MailClient {
    /// The body of a successful reply to a request for `path`.
    pub fn accepted(path: &str, reply: &Reply) -> (r: Result<Json, String>)
        ensures
            match r {
                Ok(v) => is_success(reply.status) && v@ == reply.doc(),
                Err(e) => !is_success(reply.status) && e@ == refusal(
                    path@,
                    reply.status_line@,
                    reply.doc(),
                ),
            },
    {
        if reply.ok() {
            Ok(reply.json())
        } else {
            Err(reply.refused(path))
        }
    }

    /// The mailboxes of a reply.
    pub fn list_emails(reply: &Reply) -> (r: Result<Vec<Json>, String>)
        ensures
            match r {
                Ok(v) => is_success(reply.status) && docs(v@) == rows(reply.doc()),
                Err(e) => !is_success(reply.status) && e@ == refusal(
                    "/emails"@,
                    reply.status_line@,
                    reply.doc(),
                ),
            },
    {
        if reply.ok() {
            Ok(as_array(&reply.json()))
        } else {
            Err(reply.refused("/emails"))
        }
    }

    /// Whether the service began to fetch the mail of a mailbox. It is no error that it is still
    /// busy with an earlier fetch.
    pub fn check(email_id: i64, reply: &Reply) -> (r: Result<bool, String>)
        ensures
            match r {
                Ok(started) => started == is_success(reply.status) && (started || reply.status == 409),
                Err(e) => !is_success(reply.status) && reply.status != 409 && e@ == refusal(
                    check_path(email_id),
                    reply.status_line@,
                    reply.doc(),
                ),
            },
    {
        if reply.ok() {
            Ok(true)
        } else if reply.status == 409 {
            Ok(false)
        } else {
            let id = integer_text(email_id);
            let path = text3("/emails/", id.as_str(), "/check");
            Err(reply.refused(path.as_str()))
        }
    }

    /// Whether the service took a batch of mailboxes; that one of them is busy is no error.
    pub fn batch_check(reply: &Reply) -> (r: Result<(), String>)
        ensures
            match r {
                Ok(_) => is_success(reply.status) || reply.status == 409,
                Err(e) => !is_success(reply.status) && reply.status != 409 && e@
                    == "批量触发收信返回 "@ + reply.status_line@ + "："@ + shown(reply.doc()),
            },
    {
        if reply.ok() || reply.status == 409 {
            Ok(())
        } else {
            let body = reply.json().show();
            Err(text4("批量触发收信返回 ", reply.status_line.as_str(), "：", body.as_str()))
        }
    }

    /// The records of a reply.
    pub fn records(email_id: i64, reply: &Reply) -> (r: Result<Vec<MailRecord>, String>)
        ensures
            match r {
                Ok(v) => is_success(reply.status) && describe_all(v@, rows(reply.doc())),
                Err(e) => !is_success(reply.status) && e@ == refusal(
                    records_path(email_id),
                    reply.status_line@,
                    reply.doc(),
                ),
            },
    {
        if reply.ok() {
            Ok(records_of(&reply.json()))
        } else {
            let id = integer_text(email_id);
            let path = text3("/emails/", id.as_str(), "/mail_records");
            Err(reply.refused(path.as_str()))
        }
    }

    /// The rows of a reply for a mailbox's records, as they are.
    pub fn mail_records(email_id: i64, reply: &Reply) -> (r: Result<Vec<Json>, String>)
        ensures
            match r {
                Ok(v) => is_success(reply.status) && docs(v@) == rows(reply.doc()),
                Err(e) => !is_success(reply.status) && e@ == refusal(
                    records_path(email_id),
                    reply.status_line@,
                    reply.doc(),
                ),
            },
    {
        if reply.ok() {
            Ok(as_array(&reply.json()))
        } else {
            let id = integer_text(email_id);
            let path = text3("/emails/", id.as_str(), "/mail_records");
            Err(reply.refused(path.as_str()))
        }
    }

    /// The number of the mailbox with the address of `email`, in a reply that lists the mailboxes.
    pub fn mailbox_id(email: &str, reply: &Reply) -> (r: Result<Option<i64>, String>)
        ensures
            match r {
                Ok(id) => is_success(reply.status) && opt_int(id) == mailbox_of(
                    rows(reply.doc()),
                    email@,
                ),
                Err(e) => !is_success(reply.status) && e@ == refusal(
                    "/emails"@,
                    reply.status_line@,
                    reply.doc(),
                ),
            },
    {
        match MailClient::list_emails(reply) {
            Ok(list) => Ok(mailbox_id(&list, email)),
            Err(e) => Err(e),
        }
    }

    /// The water mark of a mailbox, in a reply with its records.
    pub fn snapshot(email_id: i64, reply: &Reply) -> (r: Result<MailBaseline, String>)
        ensures
            match r {
                Ok(b) => is_success(reply.status) && exists|recs: Seq<MailRecord>| #[trigger]
                    describe_all(recs, rows(reply.doc())) && marks(b, email_id, recs),
                Err(e) => !is_success(reply.status) && e@ == refusal(
                    records_path(email_id),
                    reply.status_line@,
                    reply.doc(),
                ),
            },
    {
        match MailClient::records(email_id, reply) {
            Ok(recs) => {
                let b = snapshot_for(email_id, &recs);
                assert(describe_all(recs@, rows(reply.doc())));
                Ok(b)
            },
            Err(e) => Err(e),
        }
    }

    /// The binding of addresses, before its first batch is sent.
    pub fn bind_emails(emails: &Vec<String>) -> (r: BindRun)
        ensures
            r.wf(),
            r.report@ == nothing_bound(distinct(texts(emails@)).len()),
            text_lists(r.batches@) == chunked(distinct(texts(emails@)), BATCH as nat),
    {
        BindRun::begin(emails)
    }

    /// The waiting for a code of mail that comes after `base`, before its first step.
    pub fn wait_code(base: MailBaseline) -> (r: CodeWait)
        ensures
            r.base == base,
            r.last_check is None,
            !r.told_checking,
            !r.told_waiting,
            r.seen@.to_set() == Set::<i64>::empty(),
    {
        CodeWait::begin(base)
    }
}

// ---------------------------------------------------------------------------
// Laws
// ---------------------------------------------------------------------------

/// The token of a login is the `token` of the reply, or else that of its `data`.
pub proof fn law_login_token(v: JsonV)
    ensures
        match v.get("token"@) {
            Some(JsonV::Str(t)) => login_token(v) == Some(t),
            _ => match v.get("data"@) {
                Some(d) => match d.get("token"@) {
                    Some(JsonV::Str(t)) => login_token(v) == Some(t),
                    _ => login_token(v) is None,
                },
                None => login_token(v) is None,
            },
        },
{
    law_typed_field(v, "token"@);
    if let Some(d) = v.get("data"@) {
        law_typed_field(d, "token"@);
    }
}

/// A mailbox is asked for by its number.
pub proof fn law_mailbox_paths(id: i64)
    ensures
        check_path(id) == "/emails/"@ + decimal_int(id as int) + "/check"@,
        records_path(id) == "/emails/"@ + decimal_int(id as int) + "/mail_records"@,
{
}

/// Every request of a client goes to its service with its token: it reads without a body, and
/// sends with the one that it is given.
pub proof fn law_mail_requests(c: MailClient, path: Seq<char>, body: JsonV)
    ensures
        c.asks(path).method == Method::Get,
        c.asks(path).url == c.root@ + path,
        c.asks(path).bearer == Some(c.token@),
        c.asks(path).body is None,
        c.sends(path, body).method == Method::Post,
        c.sends(path, body).url == c.root@ + path,
        c.sends(path, body).bearer == Some(c.token@),
        c.sends(path, body).body == Some(body),
{
}

/// That a mailbox is still being fetched is no error: its check is then simply not begun anew.
pub proof fn law_busy_mailbox_is_no_error(email_id: i64, reply: &Reply, r: Result<bool, String>)
    requires
        call_ensures(MailClient::check, (email_id, reply), r),
    ensures
        reply.status == 409 ==> r == Ok::<bool, String>(false),
        200 <= reply.status < 300 ==> r == Ok::<bool, String>(true),
        !(200 <= reply.status < 300) && reply.status != 409 ==> r is Err,
{
}

/// A batch is taken where the service says so, and also where it is still busy.
pub proof fn law_busy_batch_is_no_error(reply: &Reply, r: Result<(), String>)
    requires
        call_ensures(MailClient::batch_check, (reply,), r),
    ensures
        r is Ok <==> 200 <= reply.status < 300 || reply.status == 409,
{
}

/// A login makes a client exactly where it succeeds with a token, which is the client's.
pub proof fn law_mail_login(cfg: &MailConfig, reply: &Reply, r: Result<MailClient, String>)
    requires
        call_ensures(MailClient::login, (cfg, reply), r),
    ensures
        r is Ok <==> 200 <= reply.status < 300 && login_token(reply.doc()) is Some,
        r matches Ok(c) ==> login_token(reply.doc()) == Some(c.token@) && c.root@ == root_of(
            cfg.base_url@,
        ),
{
}

/// The login sends the password as it is, and the user without the spaces around it.
pub proof fn law_mail_login_request(cfg: &MailConfig, r: Request)
    requires
        call_ensures(MailClient::login_request, (cfg,), r),
    ensures
        r@.method == Method::Post,
        r@.url == root_of(cfg.base_url@) + "/auth/login"@,
        r@.bearer is None,
        r@.body matches Some(JsonV::Obj(o)) && o.len() == 2 && o[0] == ("password"@, JsonV::Str(
            cfg.password@,
        )) && o[1].0 == "username"@ && (o[1].1 matches JsonV::Str(u) && is_core(cfg.username@, u)),
{
    law_trim(cfg.username@);
}

/// The number of a mailbox is told by the first row with its whole address; there is none where no
/// row has it.
pub proof fn law_found_mailbox(email: &str, reply: &Reply, r: Result<Option<i64>, String>, i: int)
    requires
        call_ensures(MailClient::mailbox_id, (email, reply), r),
        r is Ok,
    ensures
        200 <= reply.status < 300,
        0 <= i < rows(reply.doc()).len() && row_address(rows(reply.doc())[i]) == lowercase(
            trim(email@),
        ) && (forall|j: int|
            0 <= j < i ==> row_address(#[trigger] rows(reply.doc())[j]) != lowercase(trim(email@)))
            ==> opt_int(r->Ok_0) == rows(reply.doc())[i].field_integer("id"@),
        (forall|j: int|
            0 <= j < rows(reply.doc()).len() ==> row_address(#[trigger] rows(reply.doc())[j])
                != lowercase(trim(email@))) ==> r == Ok::<Option<i64>, String>(None),
{
    let list = rows(reply.doc());
    if 0 <= i < list.len() && row_address(list[i]) == lowercase(trim(email@)) && (forall|j: int|
        0 <= j < i ==> row_address(#[trigger] list[j]) != lowercase(trim(email@))) {
        law_mailbox(list, email@, i);
    }
    if forall|j: int|
        0 <= j < list.len() ==> row_address(#[trigger] list[j]) != lowercase(trim(email@)) {
        law_no_mailbox(list, email@);
    }
}

/// The service is asked about a mailbox by its number: to fetch its mail, and for its mail.
pub proof fn law_requests_about_a_mailbox(
    c: &MailClient,
    id: i64,
    check: Request,
    records: Request,
    all: Request,
)
    requires
        call_ensures(MailClient::check_request, (c, id), check),
        call_ensures(MailClient::records_request, (c, id), records),
        call_ensures(MailClient::list_request, (c,), all),
    ensures
        check@.method == Method::Post && check@.url == c.root@ + ("/emails/"@ + decimal_int(
            id as int,
        ) + "/check"@) && check@.bearer == Some(c.token@),
        records@.method == Method::Get && records@.url == c.root@ + ("/emails/"@ + decimal_int(
            id as int,
        ) + "/mail_records"@) && records@.bearer == Some(c.token@),
        all@.method == Method::Get && all@.url == c.root@ + "/emails"@ && all@.bearer == Some(
            c.token@,
        ),
{
}

/// A batch of addresses is bound in one request that holds them all.
pub proof fn law_binding_request(c: &MailClient, batch: &Vec<String>, r: Request)
    requires
        call_ensures(MailClient::bind_request, (c, batch), r),
    ensures
        r@.method == Method::Post,
        r@.url == c.root@ + "/mail-pool/batch-bind"@,
        r@.body == Some(JsonV::Obj(seq![("emails"@, strings(texts(batch@)))])),
{
}

/// Many mailboxes are checked a hundred at a time, none left out.
pub proof fn law_batches_of_mailboxes(c: &MailClient, ids: &Vec<i64>, r: Vec<Request>, i: int)
    requires
        call_ensures(MailClient::batch_check_requests, (c, ids), r),
        0 <= i < r@.len(),
    ensures
        r@[i]@.url == c.root@ + "/emails/batch_check"@,
        r@[i]@.method == Method::Post,
        exists|parts: Seq<Seq<i64>>|
            parts.len() == r@.len() && #[trigger] flat(parts) == ids@ && parts[i].len() <= 100
                && r@[i]@.body == Some(JsonV::Obj(seq![("email_ids"@, integers(parts[i]))])),
{
    let parts = chunked(ids@, 100);
    law_chunks_make_up_the_list(ids@, 100);
    law_chunk_sizes(ids@, 100);
    assert(flat(parts) == ids@);
}

/// The water mark of a mailbox is that of the mails of the reply.
pub proof fn law_mark_of_a_reply(id: i64, reply: &Reply, r: Result<MailBaseline, String>)
    requires
        call_ensures(MailClient::snapshot, (id, reply), r),
    ensures
        r is Ok <==> 200 <= reply.status < 300,
        r matches Ok(b) ==> b.email_id == id && b.existing == rows(reply.doc()).len(),
{
    if let Ok(b) = r {
        let recs = choose|recs: Seq<MailRecord>| #[trigger]
            describe_all(recs, rows(reply.doc())) && marks(b, id, recs);
        assert(recs.len() == rows(reply.doc()).len());
    }
}

/// What the service answers counts only where it succeeds; otherwise there is an error.
pub proof fn law_answers_of_the_service(
    path: &str,
    id: i64,
    reply: &Reply,
    body: Result<Json, String>,
    list: Result<Vec<Json>, String>,
    records: Result<Vec<MailRecord>, String>,
    raw: Result<Vec<Json>, String>,
)
    requires
        call_ensures(MailClient::accepted, (path, reply), body),
        call_ensures(MailClient::list_emails, (reply,), list),
        call_ensures(MailClient::records, (id, reply), records),
        call_ensures(MailClient::mail_records, (id, reply), raw),
    ensures
        body is Ok <==> 200 <= reply.status < 300,
        list is Ok <==> 200 <= reply.status < 300,
        records is Ok <==> 200 <= reply.status < 300,
        raw is Ok <==> 200 <= reply.status < 300,
        body matches Ok(v) ==> v@ == reply.doc(),
        list matches Ok(v) ==> docs(v@) == rows(reply.doc()),
        records matches Ok(v) ==> v@.len() == rows(reply.doc()).len(),
        raw matches Ok(v) ==> docs(v@) == rows(reply.doc()),
{
    if let Ok(v) = records {
        assert(describe_all(v@, rows(reply.doc())));
    }
}

/// The waiting for a code begins with nothing seen and nothing told.
pub proof fn law_waiting_begins(base: MailBaseline, r: CodeWait)
    requires
        call_ensures(MailClient::wait_code, (base,), r),
    ensures
        r.base == base,
        r.last_check is None,
        !r.told_checking && !r.told_waiting,
        r.seen@.len() == 0,
{
    if r.seen@.len() > 0 {
        assert(r.seen@.to_set().contains(r.seen@[0]));
    }
}

} // verus!
