//! Binding the addresses of accounts to the mailbox service.
use crate::commands::reauth::plan::stored_email;
use crate::json::{law_typed_field, JsonV};
use crate::mail::bind::BindReport;
use crate::mail::record::MailConfig;
use crate::models::Account;
use crate::text::basic::{
    blank, equal_ignoring_case, is_blank, join, joined, same_ignoring_case, text5, texts, trim,
    trimmed,
};
use crate::text::charwise::{alike, is_core, law_alike, law_trim, only_spaces};
use crate::text::numeral::{decimal, decimal_int, integer_text, number_text};
use crate::text::order::{
    before, increasing, insert_text, law_order_is_strict_and_total, law_order_of_texts, parts_at,
};
use crate::text::search::contains_char;
use vstd::prelude::*;

verus! {

/// How many unknown addresses are listed.
pub const LISTED: usize = 8;

/// The address under which an account receives mail: that of its credentials where it is not
/// blank, and otherwise its name.
pub open spec fn contact(a: Account) -> Seq<char> {
    trim(
        match stored_email(a) {
            Some(e) => if blank(e) {
                a.name@
            } else {
                e
            },
            None => a.name@,
        },
    )
}

/// The address under which an account receives mail.
pub fn contact_of(a: &Account) -> (r: String)
    ensures
        r@ == contact(*a),
{
    let stored: Option<&str> = match &a.credentials {
        Some(c) => c.get_str("email"),
        None => None,
    };
    match stored {
        Some(e) => if is_blank(e) {
            trimmed(a.name.as_str())
        } else {
            trimmed(e)
        },
        None => trimmed(a.name.as_str()),
    }
}

/// Whether the address of an account is collected.
pub open spec fn collects(a: Account, only_openai: bool) -> bool {
    (only_openai ==> same_ignoring_case(a.platform@, "openai"@)) && contact(a).contains('@')
}

/// Collects the addresses of accounts, in increasing order and each once.
pub fn collect_emails(accounts: &[Account], only_openai: bool) -> (r: Vec<String>)
    ensures
        is_collection(texts(r@), accounts@, only_openai),
{
    let mut out: Vec<String> = Vec::new();
    let mut i: usize = 0;
    while i < accounts.len()
        invariant
            i <= accounts@.len(),
            increasing(texts(out@)),
            forall|e: Seq<char>| #[trigger]
                texts(out@).contains(e) <==> exists|k: int|
                    0 <= k < i && collects(#[trigger] accounts@[k], only_openai) && contact(
                        accounts@[k],
                    ) == e,
        decreases accounts@.len() - i,
    {
        let ghost was = texts(out@);
        let a = &accounts[i];
        let wanted = !only_openai || equal_ignoring_case(a.platform.as_str(), "openai");
        if wanted {
            let e = contact_of(a);
            if contains_char(e.as_str(), '@') {
                insert_text(&mut out, e);
            }
        }
        proof {
            assert forall|e: Seq<char>| #[trigger] texts(out@).contains(e) <==> exists|k: int|
                0 <= k < i + 1 && collects(#[trigger] accounts@[k], only_openai) && contact(
                    accounts@[k],
                ) == e by {
                if texts(out@).contains(e) {
                    if was.contains(e) {
                        let k = choose|k: int|
                            0 <= k < i && collects(#[trigger] accounts@[k], only_openai) && contact(
                                accounts@[k],
                            ) == e;
                        assert(collects(accounts@[k], only_openai));
                    } else {
                        assert(collects(accounts@[i as int], only_openai));
                    }
                }
                if exists|k: int|
                    0 <= k < i + 1 && collects(#[trigger] accounts@[k], only_openai) && contact(
                        accounts@[k],
                    ) == e {
                    let k = choose|k: int|
                        0 <= k < i + 1 && collects(#[trigger] accounts@[k], only_openai) && contact(
                            accounts@[k],
                        ) == e;
                    if k < i {
                        assert(was.contains(e));
                    }
                }
            }
        }
        i += 1;
    }
    out
}

// ---------------------------------------------------------------------------
// What is reported
// ---------------------------------------------------------------------------

/// What is reported where the service is not set up.
pub open spec fn unset() -> Seq<char> {
    "未配置收码站（请在左侧「收码站」里填地址、用户名、密码并保存）"@
}

/// What is reported where the service is not set up.
pub fn not_configured() -> (r: String)
    ensures
        r@ == unset(),
{
    "未配置收码站（请在左侧「收码站」里填地址、用户名、密码并保存）".to_owned()
}

/// Whether `r` are the addresses of accounts, in increasing order and each once.
pub open spec fn is_collection(
    r: Seq<Seq<char>>,
    accounts: Seq<Account>,
    only_openai: bool,
) -> bool {
    &&& increasing(r)
    &&& forall|e: Seq<char>| #[trigger]
        r.contains(e) <==> exists|i: int|
            0 <= i < accounts.len() && collects(#[trigger] accounts[i], only_openai) && contact(
                accounts[i],
            ) == e
}

/// The addresses of accounts that are to be bound, or why none can be: the service is not set up,
/// or there is no address.
pub fn import_emails(accounts: &[Account], mail_cfg: &MailConfig, only_openai: bool) -> (r: Result<
    Vec<String>,
    String,
>)
    ensures
        if !mail_cfg.set_up() {
            r matches Err(e) && e@ == unset()
        } else if exists|i: int|
            0 <= i < accounts@.len() && collects(#[trigger] accounts@[i], only_openai) {
            r matches Ok(v) && v@.len() > 0 && is_collection(texts(v@), accounts@, only_openai)
        } else {
            r matches Err(e) && e@ == "账号列表里没有可导入的邮箱"@
        },
{
    if !mail_cfg.ready() {
        return Err(not_configured());
    }
    let emails = collect_emails(accounts, only_openai);
    if emails.len() == 0 {
        proof {
            if exists|i: int|
                0 <= i < accounts@.len() && collects(#[trigger] accounts@[i], only_openai) {
                let i = choose|i: int|
                    0 <= i < accounts@.len() && collects(#[trigger] accounts@[i], only_openai);
                assert(texts(emails@).contains(contact(accounts@[i])));
            }
        }
        return Err("账号列表里没有可导入的邮箱".to_owned());
    }
    proof {
        assert(texts(emails@).contains(texts(emails@)[0]));
    }
    Ok(emails)
}

/// The line before the binding.
pub fn import_opening(accounts: usize, emails: usize) -> (r: String)
    ensures
        r@ == "共 "@ + decimal(accounts as nat) + " 个账号，提取出 "@ + decimal(emails as nat)
            + " 个邮箱，开始绑定到收码站…"@,
{
    let a = number_text(accounts as u64);
    let b = number_text(emails as u64);
    text5("共 ", a.as_str(), " 个账号，提取出 ", b.as_str(), " 个邮箱，开始绑定到收码站…")
}

/// The line that counts what became of the addresses.
pub open spec fn bound_line(r: BindReport) -> Seq<char> {
    "绑定完成：新增 "@ + decimal_int(r.bound as int) + " · 已存在 "@ + decimal_int(
        r.already_bound as int,
    ) + " · 总库未命中 "@ + decimal_int(r.not_found as int) + "（共 "@ + decimal(r.total as nat)
        + "）"@
}

/// The line that lists the unknown addresses, the first few of them.
pub open spec fn missing_line(missing: Seq<Seq<char>>) -> Seq<char> {
    "以下邮箱不在收码站总库里，需等总库更新："@ + (if missing.len() > LISTED {
        join(missing.take(LISTED as int), "、"@) + " …"@
    } else {
        join(missing, "、"@)
    })
}

/// The lines after the binding.
pub fn import_closing(report: &BindReport) -> (r: Vec<String>)
    ensures
        texts(r@) == seq![bound_line(*report)] + (if report.missing@.len() == 0 {
            Seq::empty()
        } else {
            seq![missing_line(texts(report.missing@))]
        }),
{
    let mut s = "绑定完成：新增 ".to_owned();
    s.append(integer_text(report.bound).as_str());
    s.append(" · 已存在 ");
    s.append(integer_text(report.already_bound).as_str());
    s.append(" · 总库未命中 ");
    s.append(integer_text(report.not_found).as_str());
    s.append("（共 ");
    s.append(number_text(report.total as u64).as_str());
    s.append("）");
    let mut lines: Vec<String> = Vec::new();
    lines.push(s);
    if report.missing.len() > 0 {
        let ghost all = texts(report.missing@);
        let mut head: Vec<String> = Vec::new();
        let mut i: usize = 0;
        assert(texts(head@) =~= all.take(0));
        while i < report.missing.len() && i < LISTED
            invariant
                i <= report.missing@.len(),
                i <= LISTED,
                all == texts(report.missing@),
                texts(head@) == all.take(i as int),
            decreases report.missing@.len() - i,
        {
            let ghost was = texts(head@);
            head.push(report.missing[i].clone());
            assert(texts(head@) =~= was.push(all[i as int]));
            assert(was.push(all[i as int]) =~= all.take(i + 1));
            i += 1;
        }
        let list = joined(&head, "、");
        let tail = if report.missing.len() > LISTED {
            " …"
        } else {
            ""
        };
        proof {
            reveal_strlit("");
            assert(all.take(all.len() as int) =~= all);
            assert(join(all, "、"@) + Seq::<char>::empty() =~= join(all, "、"@));
            assert(""@ =~= Seq::<char>::empty());
        }
        let mut line = "以下邮箱不在收码站总库里，需等总库更新：".to_owned();
        line.append(list.as_str());
        line.append(tail);
        assert(line@ =~= missing_line(all));
        lines.push(line);
    }
    assert(texts(lines@) =~= seq![bound_line(*report)] + (if report.missing@.len() == 0 {
        Seq::empty()
    } else {
        seq![missing_line(texts(report.missing@))]
    }));
    lines
}

// ---------------------------------------------------------------------------
// Laws
// ---------------------------------------------------------------------------

/// An account receives mail under the address in its credentials, and under its name where these
/// have none or a blank one; without the spaces around it.
pub proof fn law_contact(a: Account)
    ensures
        ({
            let stored = match a.credentials {
                Some(c) => c@.get("email"@),
                None => None,
            };
            match stored {
                Some(JsonV::Str(t)) => if only_spaces(t) {
                    is_core(a.name@, contact(a))
                } else {
                    is_core(t, contact(a))
                },
                _ => is_core(a.name@, contact(a)),
            }
        }),
{
    law_trim(a.name@);
    if let Some(c) = a.credentials {
        law_typed_field(c@, "email"@);
        if let Some(JsonV::Str(t)) = c@.get("email"@) {
            law_trim(t);
        }
    }
}

/// An address is collected where it has an `@` and its account is of OpenAI's platform, or all
/// platforms are asked for.
pub proof fn law_collected(a: Account)
    ensures
        collects(a, false) == exists|i: int|
            0 <= i < contact(a).len() && #[trigger] contact(a)[i] == '@',
        collects(a, true) == (collects(a, false) && alike(
            a.platform@,
            seq!['o', 'p', 'e', 'n', 'a', 'i'],
        )),
{
    reveal_strlit("openai");
    assert("openai"@ =~= seq!['o', 'p', 'e', 'n', 'a', 'i']);
    law_alike(a.platform@, "openai"@);
}

/// The collected addresses are exactly those of the accounts, each once: of two of them the
/// earlier stands before the later.
pub proof fn law_collection(
    r: Seq<Seq<char>>,
    accounts: Seq<Account>,
    only_openai: bool,
    i: int,
    j: int,
    k: int,
)
    requires
        is_collection(r, accounts, only_openai),
        0 <= i < j < r.len(),
        0 <= k < accounts.len(),
    ensures
        r[i] != r[j],
        exists|d: int| #[trigger] parts_at(r[i], r[j], d),
        collects(accounts[k], only_openai) ==> r.contains(contact(accounts[k])),
        exists|m: int|
            0 <= m < accounts.len() && collects(#[trigger] accounts[m], only_openai) && contact(
                accounts[m],
            ) == r[i],
{
    law_order_of_texts(r[i], r[j]);
    assert(before(r[i], r[j]));
    law_order_is_strict_and_total(r[i], r[j], r[i]);
    assert(r.contains(r[i]));
}

/// At most eight unknown addresses are listed; dots stand for the others.
pub proof fn law_missing_addresses_are_listed(missing: Seq<Seq<char>>)
    ensures
        missing.len() <= 8 ==> missing_line(missing)
            == "以下邮箱不在收码站总库里，需等总库更新："@ + join(missing, "、"@),
        missing.len() > 8 ==> missing_line(missing)
            == "以下邮箱不在收码站总库里，需等总库更新："@ + (join(missing.take(8), "、"@) + " …"@),
{
}

/// The line that counts tells the new, the known and the unknown addresses, and how many there are.
pub proof fn law_bound_line(r: BindReport)
    ensures
        bound_line(r) == "绑定完成：新增 "@ + decimal_int(r.bound as int) + " · 已存在 "@
            + decimal_int(r.already_bound as int) + " · 总库未命中 "@ + decimal_int(
            r.not_found as int,
        ) + "（共 "@ + decimal(r.total as nat) + "）"@,
{
}

// ---------------------------------------------------------------------------
// Laws on what a call gives
// ---------------------------------------------------------------------------

/// The addresses that are bound are those of the accounts that have an `@`, each once; there is an
/// error exactly where the service is not set up or there is no address.
pub proof fn law_bound_addresses(
    accounts: &[Account],
    cfg: &MailConfig,
    only_openai: bool,
    r: Result<Vec<String>, String>,
    i: int,
    j: int,
    k: int,
)
    requires
        call_ensures(import_emails, (accounts, cfg, only_openai), r),
    ensures
        r is Ok <==> cfg.set_up() && exists|m: int|
            0 <= m < accounts@.len() && collects(#[trigger] accounts@[m], only_openai),
        r matches Ok(v) ==> (0 <= i < j < v@.len() ==> v@[i]@ != v@[j]@),
        r matches Ok(v) ==> (0 <= i < v@.len() ==> v@[i]@.contains('@') && exists|m: int|
            0 <= m < accounts@.len() && collects(#[trigger] accounts@[m], only_openai) && contact(
                accounts@[m],
            ) == v@[i]@),
        r matches Ok(v) ==> (0 <= k < accounts@.len() && collects(accounts@[k], only_openai)
            ==> texts(v@).contains(contact(accounts@[k]))),
{
    if exists|m: int| 0 <= m < accounts@.len() && collects(#[trigger] accounts@[m], only_openai) {
        let m = choose|m: int|
            0 <= m < accounts@.len() && collects(#[trigger] accounts@[m], only_openai);
        assert(collects(accounts@[m], only_openai));
    }
    if let Ok(v) = r {
        let list = texts(v@);
        assert(list.len() == v@.len());
        assert(list.contains(list[0]));
        if 0 <= i < v@.len() {
            assert(list[i] == v@[i]@);
            assert(list.contains(list[i]));
        }
        if 0 <= i < j < v@.len() {
            assert(list[j] == v@[j]@);
            assert(before(list[i], list[j]));
            law_order_is_strict_and_total(list[i], list[j], list[i]);
        }
    }
}

/// The unknown addresses are told of only where there are any.
pub proof fn law_closing_lines(report: &BindReport, r: Vec<String>)
    requires
        call_ensures(import_closing, (report,), r),
    ensures
        r@.len() == (if report.missing@.len() == 0 {
            1int
        } else {
            2
        }),
        r@[0]@ == bound_line(*report),
        report.missing@.len() > 0 ==> r@[1]@ == missing_line(texts(report.missing@)),
{
    assert(texts(r@).len() == r@.len());
    assert(texts(r@)[0] == r@[0]@);
    if report.missing@.len() > 0 {
        assert(texts(r@)[1] == r@[1]@);
    }
}

} // verus!
