//! Requests and replies as plain values.
//!
//! What is asked of a service, and what its answer means, is decided here and in the modules that
//! build requests; sending them is left to the caller.
use crate::json::{json_parse, opt_doc, parse_or_null, shown, Json, JsonV};
use crate::text::basic::{opt_text, text5};
use vstd::prelude::*;

verus! {

/// The method of a request.
#[derive(Debug, Clone, Copy, PartialEq, Eq, Structural)]
pub enum Method {
    Get,
    Post,
    Put,
    Delete,
}

/// A request to a service.
#[derive(Debug)]
pub struct Request {
    pub method: Method,
    pub url: String,
    /// The token of the `Authorization` header.
    pub bearer: Option<String>,
    pub body: Option<Json>,
}

/// The model of a request.
#[verifier::ext_equal]
pub struct RequestV {
    pub method: Method,
    pub url: Seq<char>,
    pub bearer: Option<Seq<char>>,
    pub body: Option<JsonV>,
}

impl View for Request {
    type V = RequestV;

    open spec fn view(&self) -> RequestV {
        RequestV {
            method: self.method,
            url: self.url@,
            bearer: opt_text(self.bearer),
            body: opt_doc(self.body),
        }
    }
}

/// The answer of a service.
#[derive(Debug)]
pub struct Reply {
    pub status: u16,
    /// The status with its reason, such as `404 Not Found`.
    pub status_line: String,
    pub text: String,
}

/// Whether a status reports success.
pub open spec fn is_success(status: u16) -> bool {
    200 <= status < 300
}

/// What is reported of a refused request.
pub open spec fn refusal(path: Seq<char>, status_line: Seq<char>, body: JsonV) -> Seq<char> {
    path + " 返回 "@ + status_line + "："@ + shown(body)
}

impl Reply {
    /// The document of the answer; what is not JSON is `null`.
    pub open spec fn doc(self) -> JsonV {
        json_parse(self.text@).unwrap_or(JsonV::Null)
    }

    /// The document of the answer.
    pub fn json(&self) -> (r: Json)
        ensures
            r@ == self.doc(),
    {
        parse_or_null(self.text.as_str())
    }

    /// Whether the status reports success.
    pub fn ok(&self) -> (r: bool)
        ensures
            r == is_success(self.status),
    {
        200 <= self.status && self.status < 300
    }

    /// What is reported where the service refuses the request for `path`.
    pub fn refused(&self, path: &str) -> (r: String)
        ensures
            r@ == refusal(path@, self.status_line@, self.doc()),
    {
        let body = self.json().show();
        text5(path, " 返回 ", self.status_line.as_str(), "：", body.as_str())
    }
}

/// A status reports success where its first digit is a two.
pub proof fn law_success(status: u16)
    requires
        100 <= status < 1000,
    ensures
        is_success(status) == (status / 100 == 2),
{
}

/// What is no document counts as `null`; a reply succeeds by its status alone, and a refusal tells
/// the path, the status and the body.
pub proof fn law_reply(reply: &Reply, path: &str, doc: Json, ok: bool, why: String)
    requires
        call_ensures(Reply::json, (reply,), doc),
        call_ensures(Reply::ok, (reply,), ok),
        call_ensures(Reply::refused, (reply, path), why),
    ensures
        ok == (200 <= reply.status < 300),
        match json_parse(reply.text@) {
            Some(v) => doc@ == v,
            None => doc@ is Null,
        },
        why@ == path@ + " 返回 "@ + reply.status_line@ + "："@ + shown(doc@),
{
}

} // verus!
