//! JSON documents.
//!
//! [`Json`] holds a document as plain values; [`JsonV`] is its mathematical model. Parsing and
//! the quoting of strings are `serde_json`'s.
use crate::text::basic::{join, joined, same, texts};
use crate::text::numeral::{
    decimal, decimal_int, integer_text, law_hexadecimal_digits, law_integer_reads_back, number_text,
    numeral, read_signed, signed,
};
use crate::text::order::{before, is_before, law_order_is_strict_and_total};
use vstd::prelude::*;

verus! {

/// A parsed document of `serde_json`, carried only as far as its conversion into [`Json`].
#[verifier::external_type_specification]
#[verifier::external_body]
pub struct ExValue(serde_json::Value);

/// The error of a failed `serde_json` parse.
#[verifier::external_type_specification]
#[verifier::external_body]
pub struct ExJsonError(serde_json::Error);

/// The model of a JSON document. An object is the list of its fields, a number its notation.
#[verifier::ext_equal]
pub enum JsonV {
    Null,
    Bool(bool),
    Num(Seq<char>),
    Str(Seq<char>),
    Arr(Seq<JsonV>),
    Obj(Seq<(Seq<char>, JsonV)>),
}

/// A JSON document.
#[derive(Debug)]
pub enum Json {
    Null,
    Bool(bool),
    /// A number in the notation of its shortest rendering.
    Num(String),
    Str(String),
    Arr(Vec<Json>),
    /// The fields; those of a parsed object stand in increasing order of their keys.
    Obj(Vec<(String, Json)>),
}

/// The model of a document.
pub open spec fn model(j: Json) -> JsonV
    decreases j,
{
    match j {
        Json::Null => JsonV::Null,
        Json::Bool(b) => JsonV::Bool(b),
        Json::Num(s) => JsonV::Num(s@),
        Json::Str(s) => JsonV::Str(s@),
        Json::Arr(a) => JsonV::Arr(
            Seq::new(
                a@.len(),
                |i: int|
                    if 0 <= i < a@.len() {
                        model(a@[i])
                    } else {
                        JsonV::Null
                    },
            ),
        ),
        Json::Obj(o) => JsonV::Obj(
            Seq::new(
                o@.len(),
                |i: int|
                    if 0 <= i < o@.len() {
                        (o@[i].0@, model(o@[i].1))
                    } else {
                        (Seq::empty(), JsonV::Null)
                    },
            ),
        ),
    }
}

impl View for Json {
    type V = JsonV;

    open spec fn view(&self) -> JsonV {
        model(*self)
    }
}

/// The models of a list of documents.
pub open spec fn docs(a: Seq<Json>) -> Seq<JsonV> {
    Seq::new(a.len(), |i: int| a[i]@)
}

/// The models of a list of fields.
pub open spec fn entries(o: Seq<(String, Json)>) -> Seq<(Seq<char>, JsonV)> {
    Seq::new(o.len(), |i: int| (o[i].0@, o[i].1@))
}

/// The model of an optional document.
pub open spec fn opt_doc(d: Option<Json>) -> Option<JsonV> {
    match d {
        Some(j) => Some(j@),
        None => None,
    }
}

/// The value of the last field with the key `k`.
pub open spec fn lookup(o: Seq<(Seq<char>, JsonV)>, k: Seq<char>) -> Option<JsonV>
    decreases o.len(),
{
    if o.len() == 0 {
        None
    } else if o.last().0 == k {
        Some(o.last().1)
    } else {
        lookup(o.drop_last(), k)
    }
}

impl JsonV {
    /// The fields of an object; nothing else has fields.
    pub open spec fn fields(self) -> Seq<(Seq<char>, JsonV)> {
        match self {
            JsonV::Obj(o) => o,
            _ => Seq::empty(),
        }
    }

    /// The value of the field `k`.
    pub open spec fn get(self, k: Seq<char>) -> Option<JsonV> {
        lookup(self.fields(), k)
    }

    /// The text of a string.
    pub open spec fn text(self) -> Option<Seq<char>> {
        match self {
            JsonV::Str(s) => Some(s),
            _ => None,
        }
    }

    /// The truth value of a boolean.
    pub open spec fn truth(self) -> Option<bool> {
        match self {
            JsonV::Bool(b) => Some(b),
            _ => None,
        }
    }

    /// The value of a number that is a signed 64-bit integer.
    pub open spec fn integer(self) -> Option<int> {
        match self {
            JsonV::Num(s) => signed(s),
            _ => None,
        }
    }

    /// The elements of an array.
    pub open spec fn items(self) -> Option<Seq<JsonV>> {
        match self {
            JsonV::Arr(a) => Some(a),
            _ => None,
        }
    }

    /// The text of the field `k`, where it is a string.
    pub open spec fn field_text(self, k: Seq<char>) -> Option<Seq<char>> {
        match self.get(k) {
            Some(v) => v.text(),
            None => None,
        }
    }

    /// Whether the field `k` is `true`.
    pub open spec fn field_true(self, k: Seq<char>) -> bool {
        self.get(k) == Some(JsonV::Bool(true))
    }

    /// The integer in the field `k`.
    pub open spec fn field_integer(self, k: Seq<char>) -> Option<int> {
        match self.get(k) {
            Some(v) => v.integer(),
            None => None,
        }
    }

    /// The elements of the array in the field `k`.
    pub open spec fn field_items(self, k: Seq<char>) -> Option<Seq<JsonV>> {
        match self.get(k) {
            Some(v) => v.items(),
            None => None,
        }
    }
}

// ---------------------------------------------------------------------------
// Parsing
// ---------------------------------------------------------------------------

/// What a parsed document holds.
pub uninterp spec fn value_view(v: serde_json::Value) -> JsonV;

/// The message of a `serde_json` error.
pub uninterp spec fn error_view(e: serde_json::Error) -> Seq<char>;

/// What `serde_json::from_str` makes of a text: the document, or the message of its error.
pub uninterp spec fn json_read(text: Seq<char>) -> Result<JsonV, Seq<char>>;

/// The document that a text holds: `None` where it is not valid JSON.
pub open spec fn json_parse(text: Seq<char>) -> Option<JsonV> {
    match json_read(text) {
        Ok(v) => Some(v),
        Err(_) => None,
    }
}

/// The hexadecimal digit of a number below sixteen, in lower case.
pub open spec fn hex(n: int) -> char {
    if n < 10 {
        ('0' as int + n) as char
    } else {
        ('a' as int + n - 10) as char
    }
}

/// A character inside a string in JSON notation: quotes, backslashes and control characters are
/// escaped.
pub open spec fn escaped(c: char) -> Seq<char> {
    if c == '"' || c == '\\' {
        seq!['\\', c]
    } else if c == '\u{8}' {
        seq!['\\', 'b']
    } else if c == '\t' {
        seq!['\\', 't']
    } else if c == '\n' {
        seq!['\\', 'n']
    } else if c == '\u{c}' {
        seq!['\\', 'f']
    } else if c == '\r' {
        seq!['\\', 'r']
    } else if ' ' > c {
        seq!['\\', 'u', '0', '0', hex(c as int / 16), hex(c as int % 16)]
    } else {
        seq![c]
    }
}

/// The characters of a text, each escaped where it has to be.
pub open spec fn all_escaped(s: Seq<char>) -> Seq<char>
    decreases s.len(),
{
    if s.len() == 0 {
        Seq::empty()
    } else {
        all_escaped(s.drop_last()) + escaped(s.last())
    }
}

/// A string in JSON notation, with its quotes and escapes.
pub open spec fn quote(s: Seq<char>) -> Seq<char> {
    seq!['"'] + all_escaped(s) + seq!['"']
}

/// `serde_json::from_str`: what it reads, or the message with which it fails, is a function of the
/// text alone.
#[verifier::external_body]
fn from_str(text: &str) -> (r: Result<serde_json::Value, serde_json::Error>)
    ensures
        match r {
            Ok(v) => json_read(text@) == Ok::<JsonV, Seq<char>>(value_view(v)),
            Err(e) => json_read(text@) == Err::<JsonV, Seq<char>>(error_view(e)),
        },
{
    serde_json::from_str(text)
}

/// The `Display` of a `serde_json` error: its message, a function of the error alone.
#[verifier::external_body]
fn error_text(e: &serde_json::Error) -> (r: String)
    ensures
        r@ == error_view(*e),
{
    e.to_string()
}

/// The `Display` of a `serde_json` string value: the string between quotes. Quotes, backslashes and
/// the characters below the space are escaped, by a letter where there is one and otherwise as
/// `\u00` and two digits.
#[verifier::external_body]
fn quoted_by_serde(s: &str) -> (r: String)
    ensures
        r@ == quote(s@),
{
    serde_json::Value::from(s).to_string()
}

/// One level of a parsed document.
enum Node<'a> {
    Null,
    Bool(bool),
    Num(String),
    Str(String),
    Arr(&'a Vec<serde_json::Value>),
    Obj(Vec<(&'a String, &'a serde_json::Value)>),
}

spec fn held(n: Node) -> JsonV {
    match n {
        Node::Null => JsonV::Null,
        Node::Bool(b) => JsonV::Bool(b),
        Node::Num(s) => JsonV::Num(s@),
        Node::Str(s) => JsonV::Str(s@),
        Node::Arr(a) => JsonV::Arr(Seq::new(a@.len(), |i: int| value_view(a@[i]))),
        Node::Obj(o) => JsonV::Obj(Seq::new(o@.len(), |i: int| (o@[i].0@, value_view(*o@[i].1)))),
    }
}

/// Tells the variants of `serde_json::Value` apart: the parts of the node are the parts of the
/// value, an array's elements and an object's fields in the order in which they are walked, a
/// number as its `Display` writes it. The keys of an object are those of a `BTreeMap`: they come
/// in increasing order.
#[verifier::external_body]
fn node_of<'a>(v: &'a serde_json::Value) -> (n: Node<'a>)
    ensures
        held(n) == value_view(*v),
        keys_increase(held(n).fields()),
{
    match v {
        serde_json::Value::Null => Node::Null,
        serde_json::Value::Bool(b) => Node::Bool(*b),
        serde_json::Value::Number(n) => Node::Num(n.to_string()),
        serde_json::Value::String(s) => Node::Str(s.clone()),
        serde_json::Value::Array(a) => Node::Arr(a),
        serde_json::Value::Object(m) => Node::Obj(m.iter().collect()),
    }
}

/// Whether the keys of the fields stand in strictly increasing order.
pub open spec fn keys_increase(o: Seq<(Seq<char>, JsonV)>) -> bool {
    forall|i: int, j: int| 0 <= i < j < o.len() ==> before((#[trigger] o[i]).0, (#[trigger] o[j]).0)
}

/// Whether the keys of every object in the document stand in strictly increasing order.
pub open spec fn canonical(v: JsonV) -> bool
    decreases v,
{
    match v {
        JsonV::Arr(a) => forall|i: int| 0 <= i < a.len() ==> canonical(#[trigger] a[i]),
        JsonV::Obj(o) => keys_increase(o) && (forall|i: int|
            0 <= i < o.len() ==> canonical((#[trigger] o[i]).1)),
        _ => true,
    }
}

fn converted(v: &serde_json::Value) -> (j: Json)
    ensures
        j@ == value_view(*v),
        canonical(j@),
    decreases value_view(*v),
{
    match node_of(v) {
        Node::Null => Json::Null,
        Node::Bool(b) => Json::Bool(b),
        Node::Num(s) => Json::Num(s),
        Node::Str(s) => Json::Str(s),
        Node::Arr(a) => {
            let mut out: Vec<Json> = Vec::new();
            let mut i: usize = 0;
            while i < a.len()
                invariant
                    i <= a@.len(),
                    out@.len() == i,
                    value_view(*v) == JsonV::Arr(Seq::new(a@.len(), |k: int| value_view(a@[k]))),
                    forall|k: int|
                        0 <= k < i ==> (#[trigger] out@[k])@ == value_view(a@[k]) && canonical(
                            out@[k]@,
                        ),
                decreases a@.len() - i,
            {
                assert(decreases_to!(value_view(*v) => value_view(*v)->Arr_0));
                assert(decreases_to!(value_view(*v)->Arr_0 => value_view(*v)->Arr_0[i as int]));
                out.push(converted(&a[i]));
                i += 1;
            }
            let j = Json::Arr(out);
            assert(j@->Arr_0 =~= value_view(*v)->Arr_0);
            j
        },
        Node::Obj(o) => {
            let mut out: Vec<(String, Json)> = Vec::new();
            let mut i: usize = 0;
            while i < o.len()
                invariant
                    i <= o@.len(),
                    out@.len() == i,
                    value_view(*v) == JsonV::Obj(
                        Seq::new(o@.len(), |k: int| (o@[k].0@, value_view(*o@[k].1))),
                    ),
                    forall|k: int|
                        0 <= k < i ==> (#[trigger] out@[k]).0@ == o@[k].0@ && out@[k].1@
                            == value_view(*o@[k].1) && canonical(out@[k].1@),
                decreases o@.len() - i,
            {
                assert(decreases_to!(value_view(*v) => value_view(*v)->Obj_0));
                assert(decreases_to!(value_view(*v)->Obj_0 => value_view(*v)->Obj_0[i as int]));
                assert(decreases_to!(value_view(*v)->Obj_0[i as int] => value_view(*v)->Obj_0[i as int].1));
                out.push((o[i].0.clone(), converted(o[i].1)));
                i += 1;
            }
            let j = Json::Obj(out);
            assert(j@->Obj_0 =~= value_view(*v)->Obj_0);
            j
        },
    }
}

/// Parses a JSON text. The error is the parser's message.
pub fn parse(text: &str) -> (r: Result<Json, String>)
    ensures
        match r {
            Ok(j) => json_read(text@) == Ok::<JsonV, Seq<char>>(j@) && canonical(j@),
            Err(e) => json_read(text@) == Err::<JsonV, Seq<char>>(e@),
        },
{
    match from_str(text) {
        Ok(v) => Ok(converted(&v)),
        Err(e) => Err(error_text(&e)),
    }
}

/// Parses a JSON text; what is not JSON is read as `null`.
pub fn parse_or_null(text: &str) -> (r: Json)
    ensures
        r@ == json_parse(text@).unwrap_or(JsonV::Null),
{
    match parse(text) {
        Ok(j) => j,
        Err(_) => Json::Null,
    }
}

// ---------------------------------------------------------------------------
// Reading
// ---------------------------------------------------------------------------

proof fn lemma_lookup_absent(o: Seq<(Seq<char>, JsonV)>, k: Seq<char>, i: int)
    requires
        0 <= i <= o.len(),
        forall|j: int| i <= j < o.len() ==> (#[trigger] o[j]).0 != k,
    ensures
        lookup(o, k) == lookup(o.take(i), k),
    decreases o.len(),
{
    if i == o.len() {
        assert(o.take(i) == o);
    } else {
        assert(o[o.len() - 1].0 != k);
        lemma_lookup_absent(o.drop_last(), k, i);
        assert(o.drop_last().take(i) == o.take(i));
    }
}

impl Json {
    /// The value of the field `k` of an object.
    pub fn get(&self, k: &str) -> (r: Option<&Json>)
        ensures
            match r {
                Some(j) => self@.get(k@) == Some(j@),
                None => self@.get(k@) is None,
            },
    {
        match self {
            Json::Obj(o) => {
                let ghost e = self@.fields();
                let mut i: usize = o.len();
                while i > 0
                    invariant
                        i <= o@.len(),
                        e.len() == o@.len(),
                        forall|j: int|
                            0 <= j < o@.len() ==> (#[trigger] e[j]) == (o@[j].0@, o@[j].1@),
                        forall|j: int| i <= j < e.len() ==> (#[trigger] e[j]).0 != k@,
                        self@.fields() == e,
                    decreases i,
                {
                    let ghost p = e[i - 1];
                    if same(o[i - 1].0.as_str(), k) {
                        proof {
                            lemma_lookup_absent(e, k@, i as int);
                            assert(e.take(i as int).last() == e[i - 1]);
                        }
                        return Some(&o[i - 1].1);
                    }
                    i -= 1;
                }
                proof {
                    lemma_lookup_absent(e, k@, 0);
                    assert(e.take(0).len() == 0);
                }
                None
            },
            _ => None,
        }
    }

    /// The text of a string.
    pub fn as_str(&self) -> (r: Option<&str>)
        ensures
            match r {
                Some(s) => self@.text() == Some(s@),
                None => self@.text() is None,
            },
    {
        match self {
            Json::Str(s) => Some(s.as_str()),
            _ => None,
        }
    }

    /// The integer that a number stands for, where it is a signed 64-bit one.
    pub fn as_i64(&self) -> (r: Option<i64>)
        ensures
            match r {
                Some(v) => self@.integer() == Some(v as int),
                None => self@.integer() is None,
            },
    {
        match self {
            Json::Num(s) => read_signed(s.as_str()),
            _ => None,
        }
    }

    /// The elements of an array.
    pub fn as_array(&self) -> (r: Option<&Vec<Json>>)
        ensures
            match r {
                Some(a) => self@.items() == Some(docs(a@)),
                None => self@.items() is None,
            },
    {
        match self {
            Json::Arr(a) => {
                assert(self@->Arr_0 =~= docs(a@));
                Some(a)
            },
            _ => None,
        }
    }

    /// Whether this is an object.
    pub fn is_object(&self) -> (r: bool)
        ensures
            r == (self@ is Obj),
    {
        match self {
            Json::Obj(_) => true,
            _ => false,
        }
    }

    /// Whether this is `null`.
    pub fn is_null(&self) -> (r: bool)
        ensures
            r == (self@ is Null),
    {
        match self {
            Json::Null => true,
            _ => false,
        }
    }

    /// The text of the field `k`, where it is a string.
    pub fn get_str(&self, k: &str) -> (r: Option<&str>)
        ensures
            match r {
                Some(s) => self@.field_text(k@) == Some(s@),
                None => self@.field_text(k@) is None,
            },
    {
        match self.get(k) {
            Some(v) => v.as_str(),
            None => None,
        }
    }

    /// The text of the field `k`, or the empty text.
    pub fn get_text(&self, k: &str) -> (r: String)
        ensures
            r@ == self@.field_text(k@).unwrap_or(Seq::empty()),
    {
        match self.get_str(k) {
            Some(s) => s.to_owned(),
            None => String::new(),
        }
    }

    /// Whether the field `k` is `true`.
    pub fn get_true(&self, k: &str) -> (r: bool)
        ensures
            r == self@.field_true(k@),
    {
        match self.get(k) {
            Some(v) => match v {
                Json::Bool(b) => *b,
                _ => false,
            },
            None => false,
        }
    }

    /// The integer in the field `k`.
    pub fn get_i64(&self, k: &str) -> (r: Option<i64>)
        ensures
            match r {
                Some(v) => self@.field_integer(k@) == Some(v as int),
                None => self@.field_integer(k@) is None,
            },
    {
        match self.get(k) {
            Some(v) => v.as_i64(),
            None => None,
        }
    }

    /// The elements of the array in the field `k`.
    pub fn get_array(&self, k: &str) -> (r: Option<&Vec<Json>>)
        ensures
            match r {
                Some(a) => self@.field_items(k@) == Some(docs(a@)),
                None => self@.field_items(k@) is None,
            },
    {
        match self.get(k) {
            Some(v) => v.as_array(),
            None => None,
        }
    }

    /// A copy of the document.
    pub fn copy(&self) -> (r: Json)
        ensures
            r@ == self@,
        decreases self,
    {
        match self {
            Json::Null => Json::Null,
            Json::Bool(b) => Json::Bool(*b),
            Json::Num(s) => Json::Num(s.clone()),
            Json::Str(s) => Json::Str(s.clone()),
            Json::Arr(a) => {
                let mut out: Vec<Json> = Vec::new();
                let mut i: usize = 0;
                while i < a.len()
                    invariant
                        i <= a@.len(),
                        *self == Json::Arr(*a),
                        out@.len() == i,
                        forall|k: int| 0 <= k < i ==> (#[trigger] out@[k])@ == a@[k]@,
                    decreases a@.len() - i,
                {
                    assert(decreases_to!(*self => self->Arr_0));
                    assert(decreases_to!(self->Arr_0 => self->Arr_0@));
                    assert(decreases_to!(self->Arr_0@ => self->Arr_0@[i as int]));
                    out.push(a[i].copy());
                    i += 1;
                }
                let r = Json::Arr(out);
                assert(r@->Arr_0 =~= self@->Arr_0);
                r
            },
            Json::Obj(o) => {
                let mut out: Vec<(String, Json)> = Vec::new();
                let mut i: usize = 0;
                while i < o.len()
                    invariant
                        i <= o@.len(),
                        *self == Json::Obj(*o),
                        out@.len() == i,
                        forall|k: int|
                            0 <= k < i ==> (#[trigger] out@[k]).0@ == o@[k].0@ && out@[k].1@
                                == o@[k].1@,
                    decreases o@.len() - i,
                {
                    assert(decreases_to!(*self => self->Obj_0));
                    assert(decreases_to!(self->Obj_0 => self->Obj_0@));
                    assert(decreases_to!(self->Obj_0@ => self->Obj_0@[i as int]));
                    assert(decreases_to!(self->Obj_0@[i as int] => self->Obj_0@[i as int].1));
                    out.push((o[i].0.clone(), o[i].1.copy()));
                    i += 1;
                }
                let r = Json::Obj(out);
                assert(r@->Obj_0 =~= self@->Obj_0);
                r
            },
        }
    }
}

/// Copies an optional document.
pub fn copy_opt(d: &Option<Json>) -> (r: Option<Json>)
    ensures
        opt_doc(r) == opt_doc(*d),
{
    match d {
        Some(j) => Some(j.copy()),
        None => None,
    }
}

/// Copies a list of documents.
pub fn copy_docs(a: &Vec<Json>) -> (r: Vec<Json>)
    ensures
        docs(r@) == docs(a@),
{
    let mut out: Vec<Json> = Vec::new();
    let mut i: usize = 0;
    while i < a.len()
        invariant
            i <= a@.len(),
            out@.len() == i,
            forall|k: int| 0 <= k < i ==> (#[trigger] out@[k])@ == a@[k]@,
        decreases a@.len() - i,
    {
        out.push(a[i].copy());
        i += 1;
    }
    assert(docs(out@) =~= docs(a@));
    out
}

// ---------------------------------------------------------------------------
// Building
// ---------------------------------------------------------------------------

/// The number of leading fields whose keys stand before `k`.
pub open spec fn rank(o: Seq<(Seq<char>, JsonV)>, k: Seq<char>) -> nat
    decreases o.len(),
{
    if o.len() == 0 || !before(o[0].0, k) {
        0
    } else {
        1 + rank(o.drop_first(), k)
    }
}

/// The fields with `k` set to `v`: the field is replaced where it is there, and put in its place
/// in the order of the keys where it is not.
pub open spec fn put(o: Seq<(Seq<char>, JsonV)>, k: Seq<char>, v: JsonV) -> Seq<
    (Seq<char>, JsonV),
> {
    let p = rank(o, k) as int;
    if p < o.len() && o[p].0 == k {
        o.update(p, (k, v))
    } else {
        o.insert(p, (k, v))
    }
}

/// The fields `o` with the fields `more` put on top, one after the other.
pub open spec fn put_all(
    o: Seq<(Seq<char>, JsonV)>,
    more: Seq<(Seq<char>, JsonV)>,
) -> Seq<(Seq<char>, JsonV)>
    decreases more.len(),
{
    if more.len() == 0 {
        o
    } else {
        put(put_all(o, more.drop_last()), more.last().0, more.last().1)
    }
}

/// The fields that come before the rank of `k` are those with smaller keys.
pub proof fn lemma_rank(o: Seq<(Seq<char>, JsonV)>, k: Seq<char>)
    ensures
        rank(o, k) <= o.len(),
        forall|j: int| 0 <= j < rank(o, k) ==> before((#[trigger] o[j]).0, k),
        rank(o, k) < o.len() ==> !before(o[rank(o, k) as int].0, k),
    decreases o.len(),
{
    if o.len() > 0 && before(o[0].0, k) {
        let t = o.drop_first();
        lemma_rank(t, k);
        assert forall|j: int| 0 <= j < rank(o, k) implies before((#[trigger] o[j]).0, k) by {
            if j > 0 {
                assert(o[j] == t[j - 1]);
            }
        }
    }
}

/// Sets the field `k` of a list of fields to `v`.
pub fn put_field(o: &mut Vec<(String, Json)>, k: String, v: Json)
    ensures
        entries(final(o)@) == put(entries(old(o)@), k@, v@),
{
    let ghost e = entries(o@);
    let mut p: usize = 0;
    assert(e.skip(0) == e);
    while p < o.len() && is_before(o[p].0.as_str(), k.as_str())
        invariant
            p <= o@.len(),
            o@ == old(o)@,
            e == entries(o@),
            rank(e, k@) == p + rank(e.skip(p as int), k@),
        decreases o@.len() - p,
    {
        assert(e.skip(p as int).drop_first() == e.skip(p + 1));
        p += 1;
    }
    assert(rank(e, k@) == p);
    let ghost key = k@;
    let ghost val = v@;
    if p < o.len() && o[p].0 == k {
        o.set(p, (k, v));
        assert(entries(o@) =~= e.update(p as int, (key, val)));
    } else {
        o.insert(p, (k, v));
        assert(entries(o@) =~= e.insert(p as int, (key, val)));
    }
}

/// Puts copies of the fields `more` on top of the fields `o`.
pub fn put_fields(o: &mut Vec<(String, Json)>, more: &Vec<(String, Json)>)
    ensures
        entries(final(o)@) == put_all(entries(old(o)@), entries(more@)),
{
    let ghost base = entries(o@);
    let ghost m = entries(more@);
    let mut i: usize = 0;
    assert(m.take(0) == Seq::<(Seq<char>, JsonV)>::empty());
    while i < more.len()
        invariant
            i <= more@.len(),
            m == entries(more@),
            entries(o@) == put_all(base, m.take(i as int)),
        decreases more@.len() - i,
    {
        put_field(o, more[i].0.clone(), more[i].1.copy());
        assert(m.take(i + 1).drop_last() == m.take(i as int));
        i += 1;
    }
    assert(m.take(m.len() as int) == m);
}

/// The document `null`.
pub fn null_doc() -> (r: Json)
    ensures
        r@ == JsonV::Null,
{
    Json::Null
}

/// A truth value as a document.
pub fn bool_doc(b: bool) -> (r: Json)
    ensures
        r@ == JsonV::Bool(b),
{
    Json::Bool(b)
}

/// A number as a document.
pub fn number_doc(n: u64) -> (r: Json)
    ensures
        r@ == JsonV::Num(decimal(n as nat)),
{
    Json::Num(number_text(n))
}

/// A JSON string.
pub fn string_doc(s: &str) -> (r: Json)
    ensures
        r@ == JsonV::Str(s@),
{
    Json::Str(s.to_owned())
}

/// A JSON number.
pub fn integer_doc(i: i64) -> (r: Json)
    ensures
        r@ == JsonV::Num(decimal_int(i as int)),
{
    Json::Num(integer_text(i))
}

/// The model of an array of integers.
pub open spec fn integers(ids: Seq<i64>) -> JsonV {
    JsonV::Arr(Seq::new(ids.len(), |i: int| JsonV::Num(decimal_int(ids[i] as int))))
}

/// A JSON array of integers.
pub fn integers_doc(ids: &[i64]) -> (r: Json)
    ensures
        r@ == integers(ids@),
{
    let mut out: Vec<Json> = Vec::new();
    let mut i: usize = 0;
    while i < ids.len()
        invariant
            i <= ids@.len(),
            out@.len() == i,
            forall|k: int|
                0 <= k < i ==> (#[trigger] out@[k])@ == JsonV::Num(decimal_int(ids@[k] as int)),
        decreases ids@.len() - i,
    {
        out.push(integer_doc(ids[i]));
        i += 1;
    }
    let r = Json::Arr(out);
    assert(r@->Arr_0 =~= integers(ids@)->Arr_0);
    r
}

/// The model of an array of strings.
pub open spec fn strings(s: Seq<Seq<char>>) -> JsonV {
    JsonV::Arr(s.map_values(|t: Seq<char>| JsonV::Str(t)))
}

/// A JSON array of strings.
pub fn strings_doc(v: &Vec<String>) -> (r: Json)
    ensures
        r@ == strings(texts(v@)),
{
    let mut out: Vec<Json> = Vec::new();
    let mut i: usize = 0;
    while i < v.len()
        invariant
            i <= v@.len(),
            out@.len() == i,
            forall|k: int| 0 <= k < i ==> (#[trigger] out@[k])@ == JsonV::Str(v@[k]@),
        decreases v@.len() - i,
    {
        out.push(Json::Str(v[i].clone()));
        i += 1;
    }
    let r = Json::Arr(out);
    assert(r@->Arr_0 =~= strings(texts(v@))->Arr_0);
    r
}

/// A JSON array of documents.
pub fn array_doc(a: Vec<Json>) -> (r: Json)
    ensures
        r@ == JsonV::Arr(docs(a@)),
{
    let r = Json::Arr(a);
    assert(r@->Arr_0 =~= docs(a@));
    r
}

/// A JSON object.
pub fn object_doc(o: Vec<(String, Json)>) -> (r: Json)
    ensures
        r@ == JsonV::Obj(entries(o@)),
{
    let r = Json::Obj(o);
    assert(r@->Obj_0 =~= entries(o@));
    r
}

/// An object with one field.
pub fn object1(k: &str, v: Json) -> (r: Json)
    ensures
        r@ == JsonV::Obj(seq![(k@, v@)]),
{
    let mut o: Vec<(String, Json)> = Vec::new();
    o.push((k.to_owned(), v));
    assert(entries(o@) =~= seq![(k@, v@)]);
    object_doc(o)
}

/// An object with two fields.
pub fn object2(k1: &str, v1: Json, k2: &str, v2: Json) -> (r: Json)
    ensures
        r@ == JsonV::Obj(seq![(k1@, v1@), (k2@, v2@)]),
{
    let mut o: Vec<(String, Json)> = Vec::new();
    o.push((k1.to_owned(), v1));
    o.push((k2.to_owned(), v2));
    assert(entries(o@) =~= seq![(k1@, v1@), (k2@, v2@)]);
    object_doc(o)
}

// ---------------------------------------------------------------------------
// Printing
// ---------------------------------------------------------------------------

/// The compact notation of a document.
pub open spec fn shown(v: JsonV) -> Seq<char>
    decreases v,
{
    match v {
        JsonV::Null => "null"@,
        JsonV::Bool(b) => if b {
            "true"@
        } else {
            "false"@
        },
        JsonV::Num(s) => s,
        JsonV::Str(s) => quote(s),
        JsonV::Arr(a) => "["@ + join(shown_items(a), ","@) + "]"@,
        JsonV::Obj(o) => "{"@ + join(shown_fields(o), ","@) + "}"@,
    }
}

/// The compact notations of the elements of an array.
pub open spec fn shown_items(a: Seq<JsonV>) -> Seq<Seq<char>>
    decreases a,
{
    Seq::new(
        a.len(),
        |i: int|
            if 0 <= i < a.len() {
                shown(a[i])
            } else {
                Seq::empty()
            },
    )
}

/// The compact notations of the fields of an object.
pub open spec fn shown_fields(o: Seq<(Seq<char>, JsonV)>) -> Seq<Seq<char>>
    decreases o,
{
    Seq::new(
        o.len(),
        |i: int|
            if 0 <= i < o.len() {
                quote(o[i].0) + ":"@ + shown(o[i].1)
            } else {
                Seq::empty()
            },
    )
}

/// A string in JSON notation.
pub fn quoted(s: &str) -> (r: String)
    ensures
        r@ == quote(s@),
{
    quoted_by_serde(s)
}

impl Json {
    /// The document in compact notation.
    pub fn show(&self) -> (r: String)
        ensures
            r@ == shown(self@),
        decreases self,
    {
        match self {
            Json::Null => "null".to_owned(),
            Json::Bool(b) => if *b {
                "true".to_owned()
            } else {
                "false".to_owned()
            },
            Json::Num(s) => s.clone(),
            Json::Str(s) => quoted_by_serde(s.as_str()),
            Json::Arr(a) => {
                let mut parts: Vec<String> = Vec::new();
                let mut i: usize = 0;
                while i < a.len()
                    invariant
                        i <= a@.len(),
                        *self == Json::Arr(*a),
                        parts@.len() == i,
                        forall|k: int| 0 <= k < i ==> (#[trigger] parts@[k])@ == shown(a@[k]@),
                    decreases a@.len() - i,
                {
                    assert(decreases_to!(*self => self->Arr_0));
                    assert(decreases_to!(self->Arr_0 => self->Arr_0@));
                    assert(decreases_to!(self->Arr_0@ => self->Arr_0@[i as int]));
                    parts.push(a[i].show());
                    i += 1;
                }
                assert(texts(parts@) =~= shown_items(self@->Arr_0));
                let mut out = "[".to_owned();
                out.append(joined(&parts, ",").as_str());
                out.append("]");
                out
            },
            Json::Obj(o) => {
                let mut parts: Vec<String> = Vec::new();
                let mut i: usize = 0;
                while i < o.len()
                    invariant
                        i <= o@.len(),
                        *self == Json::Obj(*o),
                        parts@.len() == i,
                        forall|k: int|
                            0 <= k < i ==> (#[trigger] parts@[k])@ == quote(o@[k].0@) + ":"@
                                + shown(o@[k].1@),
                    decreases o@.len() - i,
                {
                    assert(decreases_to!(*self => self->Obj_0));
                    assert(decreases_to!(self->Obj_0 => self->Obj_0@));
                    assert(decreases_to!(self->Obj_0@ => self->Obj_0@[i as int]));
                    assert(decreases_to!(self->Obj_0@[i as int] => self->Obj_0@[i as int].1));
                    let mut part = quoted_by_serde(o[i].0.as_str());
                    part.append(":");
                    part.append(o[i].1.show().as_str());
                    parts.push(part);
                    i += 1;
                }
                assert(texts(parts@) =~= shown_fields(self@->Obj_0));
                let mut out = "{".to_owned();
                out.append(joined(&parts, ",").as_str());
                out.append("}");
                out
            },
        }
    }
}

// ---------------------------------------------------------------------------
// Laws
// ---------------------------------------------------------------------------

/// A string in JSON notation holds no control character, so that it stays on one line.
pub proof fn law_quoted_text_holds_no_control_character(s: Seq<char>)
    ensures
        forall|i: int| 0 <= i < quote(s).len() ==> #[trigger] quote(s)[i] >= ' ',
{
    lemma_escaped_text(s);
}

proof fn lemma_escaped_text(s: Seq<char>)
    ensures
        forall|i: int| 0 <= i < all_escaped(s).len() ==> #[trigger] all_escaped(s)[i] >= ' ',
    decreases s.len(),
{
    if s.len() > 0 {
        let head = all_escaped(s.drop_last());
        let tail = escaped(s.last());
        lemma_escaped_text(s.drop_last());
        assert forall|i: int| 0 <= i < all_escaped(s).len() implies #[trigger] all_escaped(s)[i]
            >= ' ' by {
            if i < head.len() {
                assert(all_escaped(s)[i] == head[i]);
            } else {
                lemma_escaped(s.last(), i - head.len());
                assert(all_escaped(s)[i] == tail[i - head.len()]);
            }
        }
    }
}

proof fn lemma_escaped(c: char, k: int)
    requires
        0 <= k < escaped(c).len(),
    ensures
        escaped(c)[k] >= ' ',
{
    if k >= 4 {
        let n = c as int;
        assert(0 <= n / 16 < 2 && 0 <= n % 16 < 16);
        assert(hex(n / 16) >= ' ' && hex(n % 16) >= ' ');
    }
}

/// A field that was put is the one that is read, every other field keeps its value, and fields
/// in the order of their keys stay so.
pub proof fn law_put_then_get(
    o: Seq<(Seq<char>, JsonV)>,
    k: Seq<char>,
    v: JsonV,
    other: Seq<char>,
)
    requires
        keys_increase(o),
    ensures
        keys_increase(put(o, k, v)),
        lookup(put(o, k, v), k) == Some(v),
        other != k ==> lookup(put(o, k, v), other) == lookup(o, other),
{
    lemma_rank(o, k);
    let p = rank(o, k) as int;
    let r = put(o, k, v);
    let replace = p < o.len() && o[p].0 == k;
    if p < o.len() {
        law_order_is_strict_and_total(o[p].0, k, k);
    }
    assert forall|j: int| p <= j < o.len() && !(replace && j == p) implies before(
        k,
        (#[trigger] o[j]).0,
    ) by {
        if j > p {
            law_order_is_strict_and_total(k, o[p].0, o[j].0);
        }
    }
    assert forall|i: int, j: int| 0 <= i < j < r.len() implies before(
        (#[trigger] r[i]).0,
        (#[trigger] r[j]).0,
    ) by {
        if replace {
            assert(r[i].0 == o[i].0 && r[j].0 == o[j].0);
        } else {
            let a = if i < p { i } else { i - 1 };
            let b = if j < p { j } else { j - 1 };
            if i != p {
                assert(r[i] == o[a]);
            }
            if j != p {
                assert(r[j] == o[b]);
            }
        }
    }
    lemma_lookup_at(r, k, p);
    if other != k {
        lemma_same_elsewhere(o, r, other, k);
    }
}

proof fn lemma_lookup_at(o: Seq<(Seq<char>, JsonV)>, k: Seq<char>, p: int)
    requires
        keys_increase(o),
        0 <= p < o.len(),
        o[p].0 == k,
    ensures
        lookup(o, k) == Some(o[p].1),
    decreases o.len(),
{
    if p < o.len() - 1 {
        law_order_is_strict_and_total(o[p].0, o.last().0, k);
        lemma_lookup_at(o.drop_last(), k, p);
    }
}

proof fn lemma_lookup_none(o: Seq<(Seq<char>, JsonV)>, k: Seq<char>)
    requires
        forall|i: int| 0 <= i < o.len() ==> (#[trigger] o[i]).0 != k,
    ensures
        lookup(o, k) is None,
    decreases o.len(),
{
    if o.len() > 0 {
        lemma_lookup_none(o.drop_last(), k);
    }
}

proof fn lemma_same_elsewhere(
    o: Seq<(Seq<char>, JsonV)>,
    r: Seq<(Seq<char>, JsonV)>,
    other: Seq<char>,
    k: Seq<char>,
)
    requires
        keys_increase(o),
        keys_increase(r),
        other != k,
        exists|v: JsonV| r == put(o, k, v),
    ensures
        lookup(r, other) == lookup(o, other),
{
    let v = choose|v: JsonV| r == put(o, k, v);
    lemma_rank(o, k);
    let p = rank(o, k) as int;
    let replace = p < o.len() && o[p].0 == k;
    if exists|i: int| 0 <= i < o.len() && (#[trigger] o[i]).0 == other {
        let i = choose|i: int| 0 <= i < o.len() && (#[trigger] o[i]).0 == other;
        let j = if replace || i < p { i } else { i + 1 };
        assert(r[j] == o[i]);
        lemma_lookup_at(o, other, i);
        lemma_lookup_at(r, other, j);
    } else {
        lemma_lookup_none(o, other);
        assert forall|j: int| 0 <= j < r.len() implies (#[trigger] r[j]).0 != other by {
            if j != p {
                let i = if replace || j < p { j } else { j - 1 };
                assert(r[j] == o[i]);
            }
        }
        lemma_lookup_none(r, other);
    }
}

/// Of fields put on top of others, a key that is among them has its last value there, and any
/// other key the value that it had below.
pub proof fn law_put_all_then_get(
    o: Seq<(Seq<char>, JsonV)>,
    more: Seq<(Seq<char>, JsonV)>,
    k: Seq<char>,
)
    requires
        keys_increase(o),
    ensures
        keys_increase(put_all(o, more)),
        lookup(put_all(o, more), k) == (match lookup(more, k) {
            Some(v) => Some(v),
            None => lookup(o, k),
        }),
    decreases more.len(),
{
    if more.len() > 0 {
        law_put_all_then_get(o, more.drop_last(), k);
        law_put_then_get(put_all(o, more.drop_last()), more.last().0, more.last().1, k);
    }
}

/// The integer that was written is the one that is read.
pub proof fn law_integer_document_reads_back(i: i64)
    ensures
        JsonV::Num(decimal_int(i as int)).integer() == Some(i as int),
{
    law_integer_reads_back(i);
}

/// A field is read by its key: the last field with that key counts, and what is no object has no
/// fields.
pub proof fn law_field(v: JsonV, k: Seq<char>)
    ensures
        match v {
            JsonV::Obj(o) => match v.get(k) {
                Some(x) => exists|i: int|
                    0 <= i < o.len() && (#[trigger] o[i]).0 == k && o[i].1 == x && (forall|j: int|
                        i < j < o.len() ==> (#[trigger] o[j]).0 != k),
                None => forall|j: int| 0 <= j < o.len() ==> (#[trigger] o[j]).0 != k,
            },
            _ => v.get(k) is None,
        },
{
    if let JsonV::Obj(o) = v {
        lemma_lookup_last(o, k);
    }
}

proof fn lemma_lookup_last(o: Seq<(Seq<char>, JsonV)>, k: Seq<char>)
    ensures
        match lookup(o, k) {
            Some(x) => exists|i: int|
                0 <= i < o.len() && (#[trigger] o[i]).0 == k && o[i].1 == x && (forall|j: int|
                    i < j < o.len() ==> (#[trigger] o[j]).0 != k),
            None => forall|j: int| 0 <= j < o.len() ==> (#[trigger] o[j]).0 != k,
        },
    decreases o.len(),
{
    if o.len() > 0 {
        let n = o.len() - 1;
        assert(o[n] == o.last());
        if o.last().0 != k {
            let less = o.drop_last();
            lemma_lookup_last(less, k);
            match lookup(less, k) {
                Some(x) => {
                    let i = choose|i: int|
                        0 <= i < less.len() && (#[trigger] less[i]).0 == k && less[i].1 == x && (
                        forall|j: int| i < j < less.len() ==> (#[trigger] less[j]).0 != k);
                    assert(o[i] == less[i]);
                    assert forall|j: int| i < j < o.len() implies (#[trigger] o[j]).0 != k by {
                        if j < n {
                            assert(o[j] == less[j]);
                        }
                    }
                },
                None => {
                    assert forall|j: int| 0 <= j < o.len() implies (#[trigger] o[j]).0 != k by {
                        if j < n {
                            assert(o[j] == less[j]);
                        }
                    }
                },
            }
        }
    }
}

/// What a field holds counts only where it is of the wanted kind.
pub proof fn law_typed_field(v: JsonV, k: Seq<char>)
    ensures
        match v.get(k) {
            Some(JsonV::Str(t)) => v.field_text(k) == Some(t),
            _ => v.field_text(k) is None,
        },
        match v.get(k) {
            Some(JsonV::Arr(a)) => v.field_items(k) == Some(a),
            _ => v.field_items(k) is None,
        },
        match v.get(k) {
            Some(JsonV::Bool(b)) => v.field_true(k) == b,
            _ => !v.field_true(k),
        },
        match v.get(k) {
            Some(JsonV::Num(t)) => v.field_integer(k) == signed(t),
            _ => v.field_integer(k) is None,
        },
{
}

/// An array of integers holds them in their order, each in decimal.
pub proof fn law_integers(ids: Seq<i64>)
    ensures
        integers(ids) matches JsonV::Arr(a) && a.len() == ids.len() && forall|i: int|
            0 <= i < ids.len() ==> #[trigger] a[i] == JsonV::Num(decimal_int(ids[i] as int)),
{
}

/// An array of strings holds them in their order.
pub proof fn law_strings(list: Seq<Seq<char>>)
    ensures
        strings(list) matches JsonV::Arr(a) && a.len() == list.len() && forall|i: int|
            0 <= i < list.len() ==> #[trigger] a[i] == JsonV::Str(list[i]),
{
}

/// The notation of a text is that of its characters, one after the other, between two quotes;
/// characters that are neither quotes nor backslashes nor control characters stand for themselves.
pub proof fn law_quote(a: Seq<char>, b: Seq<char>, c: char)
    ensures
        quote(a) == seq!['"'] + all_escaped(a) + seq!['"'],
        all_escaped(a + b) == all_escaped(a) + all_escaped(b),
        all_escaped(seq![]).len() == 0,
        c as int >= 32 && c != '"' && c != '\\' ==> all_escaped(seq![c]) == seq![c],
        c == '"' || c == '\\' ==> all_escaped(seq![c]) == seq!['\\', c],
        (c as int) < 32 ==> all_escaped(seq![c]).len() > 1 && all_escaped(seq![c])[0] == '\\',
    decreases b.len(),
{
    let one = seq![c];
    let none = Seq::<char>::empty();
    assert(one.drop_last() =~= none);
    assert(all_escaped(none) =~= none);
    assert(none + escaped(c) =~= escaped(c));
    if b.len() == 0 {
        assert(a + b =~= a);
        assert(all_escaped(a) + all_escaped(b) =~= all_escaped(a));
    } else {
        law_quote(a, b.drop_last(), c);
        assert((a + b).drop_last() =~= a + b.drop_last());
        assert(all_escaped(a) + all_escaped(b.drop_last()) + escaped(b.last()) =~= all_escaped(a)
            + all_escaped(b));
    }
}

/// The compact notation: numbers as they were written, strings in quotes, and the parts of arrays
/// and objects in their order with commas between them.
pub proof fn law_shown(v: JsonV)
    ensures
        match v {
            JsonV::Null => shown(v) == "null"@,
            JsonV::Bool(b) => shown(v) == (if b {
                "true"@
            } else {
                "false"@
            }),
            JsonV::Num(t) => shown(v) == t,
            JsonV::Str(t) => shown(v) == quote(t),
            JsonV::Arr(a) => exists|parts: Seq<Seq<char>>|
                parts.len() == a.len() && (forall|i: int|
                    0 <= i < a.len() ==> #[trigger] parts[i] == shown(a[i])) && shown(v) == "["@
                    + #[trigger] join(parts, ","@) + "]"@,
            JsonV::Obj(o) => exists|parts: Seq<Seq<char>>|
                parts.len() == o.len() && (forall|i: int|
                    0 <= i < o.len() ==> #[trigger] parts[i] == quote(o[i].0) + ":"@ + shown(
                        o[i].1,
                    )) && shown(v) == "{"@ + #[trigger] join(parts, ","@) + "}"@,
        },
{
    match v {
        JsonV::Arr(a) => {
            let parts = shown_items(a);
            assert(shown(v) == "["@ + join(parts, ","@) + "]"@);
        },
        JsonV::Obj(o) => {
            let parts = shown_fields(o);
            assert(shown(v) == "{"@ + join(parts, ","@) + "}"@);
        },
        _ => {},
    }
}

/// A field is read as a text, a truth, a number or a list only where it is one.
pub proof fn law_read_field(
    j: &Json,
    k: &str,
    text: Option<&str>,
    whole: String,
    truth: bool,
    number: Option<i64>,
)
    requires
        call_ensures(Json::get_str, (j, k), text),
        call_ensures(Json::get_text, (j, k), whole),
        call_ensures(Json::get_true, (j, k), truth),
        call_ensures(Json::get_i64, (j, k), number),
    ensures
        match j@.get(k@) {
            Some(JsonV::Str(t)) => (text matches Some(s) && s@ == t) && whole@ == t,
            _ => text is None && whole@.len() == 0,
        },
        truth == (j@.get(k@) == Some(JsonV::Bool(true))),
        match j@.get(k@) {
            Some(JsonV::Num(t)) => match number {
                Some(n) => signed(t) == Some(n as int),
                None => signed(t) is None,
            },
            _ => number is None,
        },
{
    law_typed_field(j@, k@);
}

/// A copy is the same document.
pub proof fn law_copied_document(j: &Json, r: Json)
    requires
        call_ensures(Json::copy, (j,), r),
    ensures
        r@ == j@,
{
}

/// A control character is written by its number in hexadecimal, unless it has a letter of its own.
pub proof fn law_escaped_control_character(c: char)
    requires
        (c as int) < 32,
    ensures
        ({
            let e = all_escaped(seq![c]);
            if c as int == 8 {
                e == seq!['\\', 'b']
            } else if c as int == 9 {
                e == seq!['\\', 't']
            } else if c as int == 10 {
                e == seq!['\\', 'n']
            } else if c as int == 12 {
                e == seq!['\\', 'f']
            } else if c as int == 13 {
                e == seq!['\\', 'r']
            } else {
                &&& e.len() == 6
                &&& e.take(4) == seq!['\\', 'u', '0', '0']
                &&& numeral(e.skip(4), 16) == Some(c as nat)
                &&& forall|i: int| 0 <= i < 6 ==> !(65 <= (#[trigger] e[i]) as int <= 70)
            }
        }),
{
    let one = seq![c];
    let none = Seq::<char>::empty();
    assert(one.drop_last() =~= none);
    assert(all_escaped(none) =~= none);
    assert(none + escaped(c) =~= escaped(c));
    let n = c as int;
    if n != 8 && n != 9 && n != 10 && n != 12 && n != 13 {
        let e = escaped(c);
        let a = hex(n / 16);
        let b = hex(n % 16);
        assert(e.take(4) =~= seq!['\\', 'u', '0', '0']);
        assert(e.skip(4) =~= seq![a].push(b));
        law_hexadecimal_digits(seq![a], b);
        law_hexadecimal_digits(none, a);
        assert(0 <= n / 16 < 2 && 0 <= n % 16 < 16);
    }
}

/// What a document is, and what it holds, is told by its form.
pub proof fn law_read_document(
    j: &Json,
    text: Option<&str>,
    number: Option<i64>,
    list: Option<&Vec<Json>>,
    object: bool,
    nothing: bool,
)
    requires
        call_ensures(Json::as_str, (j,), text),
        call_ensures(Json::as_i64, (j,), number),
        call_ensures(Json::as_array, (j,), list),
        call_ensures(Json::is_object, (j,), object),
        call_ensures(Json::is_null, (j,), nothing),
    ensures
        object == (j@ is Obj),
        nothing == (j@ is Null),
        text is Some <==> j@ is Str,
        text matches Some(s) ==> j@ == JsonV::Str(s@),
        list is Some <==> j@ is Arr,
        list matches Some(a) ==> j@ == JsonV::Arr(docs(a@)),
        number matches Some(n) ==> (j@ matches JsonV::Num(t) && signed(t) == Some(n as int)),
        j@ matches JsonV::Num(t) ==> (number is None ==> signed(t) is None),
{
}

} // verus!
