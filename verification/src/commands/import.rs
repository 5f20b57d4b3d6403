//! Importing accounts: bringing pasted accounts into the form in which they are created, and
//! putting them into groups.
use crate::json::{
    array_doc, copy_docs, docs, entries, integers, integers_doc, json_read, keys_increase,
    law_put_then_get, object1, parse, put, put_field, Json, JsonV,
};
use crate::text::basic::{blank, is_blank, text2};
use crate::text::charwise::{law_trim, only_spaces};
use vstd::prelude::*;

verus! {

/// The accounts in a document: its elements, or its `accounts`, or itself where it is an object
/// without any. A document whose `accounts` are no array, and one that is neither an array nor an
/// object, has none.
pub open spec fn accounts_in(v: JsonV) -> Option<Seq<JsonV>> {
    match v {
        JsonV::Arr(a) => Some(a),
        JsonV::Obj(_) => match v.get("accounts"@) {
            Some(acc) => acc.items(),
            None => Some(seq![v]),
        },
        _ => None,
    }
}

/// An account with its groups; what is no object is left as it is.
pub open spec fn grouped(a: JsonV, groups: Seq<i64>) -> JsonV {
    match a {
        JsonV::Obj(o) => JsonV::Obj(put(o, "group_ids"@, integers(groups))),
        _ => a,
    }
}

/// The accounts with their groups; `null` is left out.
pub open spec fn all_grouped(list: Seq<JsonV>, groups: Seq<i64>) -> Seq<JsonV>
    decreases list.len(),
{
    if list.len() == 0 {
        Seq::empty()
    } else {
        let done = all_grouped(list.drop_last(), groups);
        if list.last() is Null {
            done
        } else {
            done.push(grouped(list.last(), groups))
        }
    }
}

fn with_groups(a: &Json, groups: &[i64]) -> (r: Json)
    ensures
        r@ == grouped(a@, groups@),
{
    match a {
        Json::Obj(_) => {
            let c = a.copy();
            match c {
                Json::Obj(o) => {
                    let mut o = o;
                    assert(a@->Obj_0 =~= entries(o@));
                    put_field(&mut o, "group_ids".to_owned(), integers_doc(groups));
                    let r = Json::Obj(o);
                    assert(r@->Obj_0 =~= entries(o@));
                    r
                },
                other => other,
            }
        },
        _ => a.copy(),
    }
}

/// The body that imports the accounts of a document, each in all the given groups, or why they
/// cannot be imported.
pub fn batch_of(v: &Json, group_ids: &[i64]) -> (r: Result<Json, String>)
    ensures
        match r {
            Ok(body) => accounts_in(v@) is Some && all_grouped(
                accounts_in(v@)->0,
                group_ids@,
            ).len() > 0 && body@ == JsonV::Obj(
                seq![("accounts"@, JsonV::Arr(all_grouped(accounts_in(v@)->0, group_ids@)))],
            ),
            Err(e) => match accounts_in(v@) {
                Some(list) => all_grouped(list, group_ids@).len() == 0 && e@
                    == "没有可导入的账号（转换结果为空数组）"@,
                None => e@ == (if v@ is Obj {
                    "accounts 字段不是数组"@
                } else {
                    "转换结果不是账号数组或对象"@
                }),
            },
        },
{
    let accounts: Vec<Json> = match v {
        Json::Arr(_) => match v.as_array() {
            Some(a) => copy_docs(a),
            None => Vec::new(),
        },
        Json::Obj(_) => match v.get("accounts") {
            Some(acc) => match acc.as_array() {
                Some(a) => copy_docs(a),
                None => {
                    return Err("accounts 字段不是数组".to_owned());
                },
            },
            None => {
                let mut one: Vec<Json> = Vec::new();
                one.push(v.copy());
                assert(docs(one@) =~= seq![v@]);
                one
            },
        },
        _ => {
            return Err("转换结果不是账号数组或对象".to_owned());
        },
    };
    let ghost all = docs(accounts@);
    assert(accounts_in(v@) == Some(all));
    let mut out: Vec<Json> = Vec::new();
    let mut i: usize = 0;
    assert(docs(out@) =~= all_grouped(all.take(0), group_ids@));
    while i < accounts.len()
        invariant
            i <= accounts@.len(),
            all == docs(accounts@),
            docs(out@) == all_grouped(all.take(i as int), group_ids@),
        decreases accounts@.len() - i,
    {
        assert(all.take(i + 1).drop_last() == all.take(i as int));
        assert(all.take(i + 1).last() == accounts@[i as int]@);
        if !accounts[i].is_null() {
            let ghost was = docs(out@);
            let g = with_groups(&accounts[i], group_ids);
            out.push(g);
            assert(docs(out@) =~= was.push(g@));
        }
        i += 1;
    }
    assert(all.take(all.len() as int) == all);
    assert(docs(out@).len() == out@.len());
    if out.len() == 0 {
        return Err("没有可导入的账号（转换结果为空数组）".to_owned());
    }
    Ok(object1("accounts", array_doc(out)))
}

/// Brings pasted accounts into the body of the request that creates them, each in all the given
/// groups.
pub fn normalize_batch_body(output: &str, group_ids: &[i64]) -> (r: Result<Json, String>)
    ensures
        if blank(output@) {
            r matches Err(e) && e@ == "转换结果为空，无法导入"@
        } else {
            match json_read(output@) {
                Err(m) => r matches Err(e) && e@ == "转换结果不是合法 JSON："@ + m,
                Ok(v) => match r {
                    Ok(body) => accounts_in(v) is Some && all_grouped(
                        accounts_in(v)->0,
                        group_ids@,
                    ).len() > 0 && body@ == JsonV::Obj(
                        seq![
                            ("accounts"@, JsonV::Arr(all_grouped(accounts_in(v)->0, group_ids@))),
                        ],
                    ),
                    Err(e) => match accounts_in(v) {
                        Some(list) => all_grouped(list, group_ids@).len() == 0 && e@
                            == "没有可导入的账号（转换结果为空数组）"@,
                        None => e@ == (if v is Obj {
                            "accounts 字段不是数组"@
                        } else {
                            "转换结果不是账号数组或对象"@
                        }),
                    },
                },
            }
        },
{
    if is_blank(output) {
        return Err("转换结果为空，无法导入".to_owned());
    }
    match parse(output) {
        Err(m) => Err(text2("转换结果不是合法 JSON：", m.as_str())),
        Ok(v) => batch_of(&v, group_ids),
    }
}

// ---------------------------------------------------------------------------
// Laws
// ---------------------------------------------------------------------------

/// Every account object that is imported is in exactly the given groups and keeps its other
/// fields.
pub proof fn law_groups_are_set(a: JsonV, groups: Seq<i64>, k: Seq<char>)
    requires
        a is Obj,
        keys_increase(a.fields()),
    ensures
        grouped(a, groups).get("group_ids"@) == Some(integers(groups)),
        k != "group_ids"@ ==> grouped(a, groups).get(k) == a.get(k),
{
    law_put_then_get(a.fields(), "group_ids"@, integers(groups), k);
}

/// No account is lost but `null`s.
pub proof fn law_no_account_is_lost(list: Seq<JsonV>, groups: Seq<i64>)
    requires
        forall|i: int| 0 <= i < list.len() ==> !(#[trigger] list[i] is Null),
    ensures
        all_grouped(list, groups).len() == list.len(),
        forall|i: int|
            0 <= i < list.len() ==> #[trigger] all_grouped(list, groups)[i] == grouped(
                list[i],
                groups,
            ),
    decreases list.len(),
{
    if list.len() > 0 {
        let less = list.drop_last();
        assert forall|i: int| 0 <= i < less.len() implies !(#[trigger] less[i] is Null) by {
            assert(less[i] == list[i]);
        }
        law_no_account_is_lost(less, groups);
        assert(!(list[list.len() - 1] is Null));
        assert forall|i: int| 0 <= i < list.len() implies #[trigger] all_grouped(list, groups)[i]
            == grouped(list[i], groups) by {
            if i < less.len() {
                assert(all_grouped(less, groups)[i] == grouped(less[i], groups));
            }
        }
    }
}

/// The accounts of a document are its elements, or those of its `accounts`; an object that has no
/// `accounts` is an account.
pub proof fn law_accounts_of_a_document(v: JsonV)
    ensures
        v matches JsonV::Arr(a) ==> accounts_in(v) == Some(a),
        v is Obj && v.get("accounts"@) is None ==> accounts_in(v) == Some(seq![v]),
        v is Obj ==> (v.get("accounts"@) matches Some(JsonV::Arr(a)) ==> accounts_in(v) == Some(
            a,
        )),
        v is Obj && v.get("accounts"@) is Some && !(v.get("accounts"@)->0 is Arr) ==> accounts_in(
            v,
        ) is None,
        !(v is Arr) && !(v is Obj) ==> accounts_in(v) is None,
{
}

/// Accounts keep their order; `null` is left out, and what is no object is left as it is.
pub proof fn law_only_null_is_left_out(list: Seq<JsonV>, a: JsonV, groups: Seq<i64>)
    ensures
        all_grouped(Seq::empty(), groups).len() == 0,
        a is Null ==> all_grouped(list.push(a), groups) == all_grouped(list, groups),
        !(a is Null) && !(a is Obj) ==> all_grouped(list.push(a), groups) == all_grouped(
            list,
            groups,
        ).push(a),
        a matches JsonV::Obj(o) ==> all_grouped(list.push(a), groups) == all_grouped(
            list,
            groups,
        ).push(JsonV::Obj(put(o, "group_ids"@, integers(groups)))),
{
    assert(list.push(a).drop_last() =~= list);
}

// ---------------------------------------------------------------------------
// Laws on what a call gives
// ---------------------------------------------------------------------------

/// The body that imports accounts holds them all in their order, but for `null`s; each that is an
/// object is in exactly the given groups and keeps its other fields. Accounts are refused exactly
/// where there are none.
pub proof fn law_imported_accounts(v: &Json, groups: &[i64], r: Result<Json, String>)
    requires
        call_ensures(batch_of, (v, groups), r),
    ensures
        r matches Ok(body) ==> accounts_in(v@) is Some && (body@ matches JsonV::Obj(o) && o.len()
            == 1 && o[0].0 == "accounts"@ && o[0].1 == JsonV::Arr(
            all_grouped(accounts_in(v@)->0, groups@),
        )),
        r is Err <==> accounts_in(v@) is None || all_grouped(accounts_in(v@)->0, groups@).len() == 0,
{
}

/// A text is refused where it is blank or no document, and otherwise as its document is.
pub proof fn law_pasted_accounts(
    output: &str,
    groups: &[i64],
    v: &Json,
    r: Result<Json, String>,
    s: Result<Json, String>,
)
    requires
        call_ensures(normalize_batch_body, (output, groups), r),
        call_ensures(batch_of, (v, groups), s),
        json_read(output@) == Ok::<JsonV, Seq<char>>(v@),
    ensures
        only_spaces(output@) ==> r is Err,
        !only_spaces(output@) ==> (r is Ok <==> s is Ok),
        !only_spaces(output@) && r is Ok ==> (r->Ok_0)@ == (s->Ok_0)@,
{
    law_trim(output@);
}

/// Why pasted accounts are refused tells blank texts, texts that are no document, documents without
/// accounts and empty lists apart.
pub proof fn law_refused_accounts(output: &str, groups: &[i64], e: String)
    requires
        call_ensures(normalize_batch_body, (output, groups), Err::<Json, String>(e)),
    ensures
        only_spaces(output@) ==> e@ == "转换结果为空，无法导入"@,
        !only_spaces(output@) ==> match json_read(output@) {
            Err(m) => e@ == "转换结果不是合法 JSON："@ + m,
            Ok(v) => match accounts_in(v) {
                Some(_) => e@ == "没有可导入的账号（转换结果为空数组）"@,
                None => (v is Obj ==> e@ == "accounts 字段不是数组"@) && (!(v is Obj) ==> e@
                    == "转换结果不是账号数组或对象"@),
            },
        },
{
    law_trim(output@);
}

} // verus!
