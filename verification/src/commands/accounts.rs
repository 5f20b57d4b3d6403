//! Listing accounts.
use crate::models::{law_account_state, Account};
use crate::text::basic::{chars_of, pad, padded, same, take_chars, text2, text3, text5, texts};
use crate::text::charwise::{only_spaces, somewhere};
use crate::text::numeral::{decimal, decimal_int, integer_text, number_text};
use vstd::prelude::*;

verus! {

/// `s` where it has at most `n` characters, and otherwise its first `n - 1` with an ellipsis.
pub open spec fn shortened(s: Seq<char>, n: nat) -> Seq<char> {
    if s.len() <= n {
        s
    } else {
        s.take(n - 1) + "…"@
    }
}

/// Shortens a text to `n` characters.
pub fn ellipsize(s: &str, n: usize) -> (r: String)
    requires
        n > 0,
    ensures
        r@ == shortened(s@, n as nat),
{
    let cs = chars_of(s);
    if cs.len() <= n {
        s.to_owned()
    } else {
        let t = take_chars(s, n - 1);
        text2(t.as_str(), "…")
    }
}

/// What is shown of an account's expiry.
pub open spec fn expiry(days: Option<int>) -> Seq<char> {
    match days {
        Some(d) => if d >= 0 {
            "in "@ + decimal_int(d) + "d"@
        } else {
            decimal_int(-d) + "d ago"@
        },
        None => "-"@,
    }
}

/// The line that shows an account.
pub open spec fn account_line(a: Account, now: int) -> Seq<char> {
    "#"@ + pad(decimal_int(a.id as int), 5) + " "@ + pad(shortened(a.name@, 22), 22) + " plat="@
        + pad(a.platform@, 10) + " type="@ + pad(a.account_type@, 8) + " status="@ + pad(
        a.status@,
        9,
    ) + " sch="@ + (if a.schedulable {
        "Y"@
    } else {
        "N"@
    }) + " exp="@ + pad(expiry(a.days_left(now)), 8) + " err="@ + a.error_message@
}

/// How many accounts have a property.
pub open spec fn count_where(accounts: Seq<Account>, p: spec_fn(Account) -> bool) -> nat
    decreases accounts.len(),
{
    if accounts.len() == 0 {
        0
    } else {
        count_where(accounts.drop_last(), p) + if p(accounts.last()) {
            1nat
        } else {
            0
        }
    }
}

/// How many accounts were refused.
pub open spec fn refused_count(accounts: Seq<Account>) -> nat {
    count_where(accounts, |a: Account| a.refused())
}

/// How many accounts have an error.
pub open spec fn failed_count(accounts: Seq<Account>) -> nat {
    count_where(accounts, |a: Account| a.failed())
}

/// How many accounts are active.
pub open spec fn active_count(accounts: Seq<Account>) -> nat {
    count_where(accounts, |a: Account| a.status@ == "active"@)
}

/// The accounts that are shown: the refused ones, or all.
pub open spec fn view_of(accounts: Seq<Account>, only_401: bool) -> Seq<Account>
    decreases accounts.len(),
{
    if accounts.len() == 0 {
        Seq::empty()
    } else if only_401 && !accounts.last().refused() {
        view_of(accounts.drop_last(), only_401)
    } else {
        view_of(accounts.drop_last(), only_401).push(accounts.last())
    }
}

/// What is printed of a list of accounts: their names alone, or a line for each with a heading
/// and, for all of them, a summary.
pub open spec fn listing(
    accounts: Seq<Account>,
    only_401: bool,
    emails_only: bool,
    now: int,
) -> Seq<Seq<char>> {
    let view = view_of(accounts, only_401);
    if accounts.len() == 0 {
        seq!["（没有账号）"@]
    } else if emails_only {
        view.map_values(|a: Account| a.name@)
    } else {
        seq![heading(accounts, only_401)] + view.map_values(|a: Account| account_line(a, now))
            + summary(accounts, only_401)
    }
}

/// The heading of a list.
pub open spec fn heading(accounts: Seq<Account>, only_401: bool) -> Seq<char> {
    if only_401 {
        "共 "@ + decimal(accounts.len()) + " 个账号，其中 "@ + decimal(refused_count(accounts))
            + " 个报 401：\n"@
    } else {
        "共 "@ + decimal(accounts.len()) + " 个账号（已按 total 翻页拉全）：\n"@
    }
}

/// The summary of a list of all accounts.
pub open spec fn summary(accounts: Seq<Account>, only_401: bool) -> Seq<Seq<char>> {
    if only_401 {
        Seq::empty()
    } else {
        seq![
            "\n--- 汇总: 总 "@ + decimal(accounts.len()) + " | active "@ + decimal(
                active_count(accounts),
            ) + " | 有 error "@ + decimal(failed_count(accounts)) + " | 含 401 的 "@ + decimal(
                refused_count(accounts),
            ) + " ---"@,
        ] + (if refused_count(accounts) > 0 {
            seq!["提示: 用 `accounts list --401` 只看报 401 的账号。"@]
        } else {
            Seq::empty()
        })
    }
}

fn expiry_text(a: &Account, now: i64) -> (r: String)
    ensures
        r@ == expiry(a.days_left(now as int)),
{
    match a.expires_in_days(now) {
        Some(d) => if d >= 0 {
            let n = integer_text(d);
            text3("in ", n.as_str(), "d")
        } else {
            let n = integer_text(-d);
            text2(n.as_str(), "d ago")
        },
        None => "-".to_owned(),
    }
}

fn account_text(a: &Account, now: i64) -> (r: String)
    ensures
        r@ == account_line(*a, now as int),
{
    let id = integer_text(a.id);
    let name = ellipsize(a.name.as_str(), 22);
    let exp = expiry_text(a, now);
    let mut s = "#".to_owned();
    s.append(padded(id.as_str(), 5).as_str());
    s.append(" ");
    s.append(padded(name.as_str(), 22).as_str());
    s.append(" plat=");
    s.append(padded(a.platform.as_str(), 10).as_str());
    s.append(" type=");
    s.append(padded(a.account_type.as_str(), 8).as_str());
    s.append(" status=");
    s.append(padded(a.status.as_str(), 9).as_str());
    s.append(" sch=");
    s.append(
        if a.schedulable {
            "Y"
        } else {
            "N"
        },
    );
    s.append(" exp=");
    s.append(padded(exp.as_str(), 8).as_str());
    s.append(" err=");
    s.append(a.error_message.as_str());
    s
}

/// Counts the accounts that were refused, that have an error and that are active.
fn tallies(accounts: &[Account]) -> (r: (usize, usize, usize))
    ensures
        r.0 == refused_count(accounts@),
        r.1 == failed_count(accounts@),
        r.2 == active_count(accounts@),
{
    let mut refused: usize = 0;
    let mut failed: usize = 0;
    let mut active: usize = 0;
    let mut i: usize = 0;
    while i < accounts.len()
        invariant
            i <= accounts@.len(),
            refused <= i,
            failed <= i,
            active <= i,
            refused == refused_count(accounts@.take(i as int)),
            failed == failed_count(accounts@.take(i as int)),
            active == active_count(accounts@.take(i as int)),
        decreases accounts@.len() - i,
    {
        assert(accounts@.take(i + 1).drop_last() == accounts@.take(i as int));
        if accounts[i].has_401() {
            refused += 1;
        }
        if accounts[i].has_error() {
            failed += 1;
        }
        if same(accounts[i].status.as_str(), "active") {
            active += 1;
        }
        i += 1;
    }
    assert(accounts@.take(accounts@.len() as int) == accounts@);
    (refused, failed, active)
}

fn viewed<'a>(accounts: &'a [Account], only_401: bool) -> (r: Vec<&'a Account>)
    ensures
        r@.unref() == view_of(accounts@, only_401),
{
    let mut out: Vec<&'a Account> = Vec::new();
    let mut i: usize = 0;
    while i < accounts.len()
        invariant
            i <= accounts@.len(),
            out@.unref() == view_of(accounts@.take(i as int), only_401),
        decreases accounts@.len() - i,
    {
        assert(accounts@.take(i + 1).drop_last() == accounts@.take(i as int));
        if !only_401 || accounts[i].has_401() {
            let ghost was = out@.unref();
            out.push(&accounts[i]);
            assert(out@.unref() =~= was.push(accounts@[i as int]));
        }
        i += 1;
    }
    assert(accounts@.take(accounts@.len() as int) == accounts@);
    out
}

/// What is printed of a list of accounts, at the time `now` in milliseconds since the epoch.
pub fn list(accounts: &[Account], only_401: bool, emails_only: bool, now: i64) -> (r: Vec<String>)
    ensures
        texts(r@) == listing(accounts@, only_401, emails_only, now as int),
{
    let mut lines: Vec<String> = Vec::new();
    if accounts.len() == 0 {
        lines.push("（没有账号）".to_owned());
        assert(texts(lines@) =~= seq!["（没有账号）"@]);
        return lines;
    }
    let view = viewed(accounts, only_401);
    let ghost all = view@.unref();
    if emails_only {
        let mut i: usize = 0;
        while i < view.len()
            invariant
                i <= view@.len(),
                all == view@.unref(),
                lines@.len() == i,
                forall|k: int| 0 <= k < i ==> (#[trigger] lines@[k])@ == all[k].name@,
            decreases view@.len() - i,
        {
            assert(all[i as int] == *view@[i as int]);
            lines.push(view[i].name.clone());
            i += 1;
        }
        assert(texts(lines@) =~= all.map_values(|a: Account| a.name@));
        return lines;
    }
    let (refused, failed, active) = tallies(accounts);
    let total = number_text(accounts.len() as u64);
    let bad = number_text(refused as u64);
    if only_401 {
        lines.push(text5("共 ", total.as_str(), " 个账号，其中 ", bad.as_str(), " 个报 401：\n"));
    } else {
        lines.push(text3("共 ", total.as_str(), " 个账号（已按 total 翻页拉全）：\n"));
    }
    let ghost head = texts(lines@);
    let ghost more = all.map_values(|a: Account| account_line(a, now as int));
    assert(head =~= seq![heading(accounts@, only_401)]);
    let mut i: usize = 0;
    assert(head + more.take(0) =~= head);
    while i < view.len()
        invariant
            i <= view@.len(),
            all == view@.unref(),
            more == all.map_values(|a: Account| account_line(a, now as int)),
            texts(lines@) == head + more.take(i as int),
        decreases view@.len() - i,
    {
        let ghost was = texts(lines@);
        assert(all[i as int] == *view@[i as int]);
        lines.push(account_text(view[i], now));
        assert(texts(lines@) =~= was.push(more[i as int]));
        assert(head + more.take(i + 1) =~= (head + more.take(i as int)).push(more[i as int]));
        i += 1;
    }
    assert(more.take(more.len() as int) == more);
    let ghost body = texts(lines@);
    if !only_401 {
        let mut s = "\n--- 汇总: 总 ".to_owned();
        s.append(total.as_str());
        s.append(" | active ");
        s.append(number_text(active as u64).as_str());
        s.append(" | 有 error ");
        s.append(number_text(failed as u64).as_str());
        s.append(" | 含 401 的 ");
        s.append(bad.as_str());
        s.append(" ---");
        lines.push(s);
        if refused > 0 {
            lines.push("提示: 用 `accounts list --401` 只看报 401 的账号。".to_owned());
        }
    }
    assert(texts(lines@) =~= body + summary(accounts@, only_401));
    lines
}

// ---------------------------------------------------------------------------
// Laws
// ---------------------------------------------------------------------------

/// A text that is too long keeps its beginning, and an ellipsis stands for the rest: `n`
/// characters in all.
pub proof fn law_shortened(s: Seq<char>, n: nat)
    requires
        n > 0,
    ensures
        s.len() <= n ==> shortened(s, n) == s,
        s.len() > n ==> shortened(s, n).len() == n && shortened(s, n).last() == '…' && forall|i: int|
            0 <= i < n - 1 ==> shortened(s, n)[i] == s[i],
{
    reveal_strlit("…");
}

/// Days to come and days gone by are told apart.
pub proof fn law_expiry(d: nat)
    ensures
        expiry(Some(d as int)) == "in "@ + decimal_int(d as int) + "d"@,
        d > 0 ==> expiry(Some(-(d as int))) == decimal_int(d as int) + "d ago"@,
        expiry(None) == "-"@,
{
}

/// The line of an account tells of each of its fields in its column.
pub proof fn law_account_line(a: Account, now: int)
    ensures
        account_line(a, now) == "#"@ + pad(decimal_int(a.id as int), 5) + " "@ + pad(
            shortened(a.name@, 22),
            22,
        ) + " plat="@ + pad(a.platform@, 10) + " type="@ + pad(a.account_type@, 8) + " status="@
            + pad(a.status@, 9) + " sch="@ + (if a.schedulable {
            "Y"@
        } else {
            "N"@
        }) + " exp="@ + pad(expiry(a.days_left(now)), 8) + " err="@ + a.error_message@,
{
}

/// Of all accounts every one is shown; of the refused ones those whose error tells of `401`, in
/// their order, and no others.
pub proof fn law_shown_accounts(accounts: Seq<Account>, a: Account)
    ensures
        view_of(Seq::empty(), true).len() == 0,
        view_of(accounts, false) == accounts,
        somewhere(a.error_message@, seq!['4', '0', '1']) ==> view_of(accounts.push(a), true)
            == view_of(accounts, true).push(a),
        !somewhere(a.error_message@, seq!['4', '0', '1']) ==> view_of(accounts.push(a), true)
            == view_of(accounts, true),
    decreases accounts.len(),
{
    law_account_state(a);
    assert(accounts.push(a).drop_last() =~= accounts);
    if accounts.len() > 0 {
        law_shown_accounts(accounts.drop_last(), accounts.last());
        assert(accounts.drop_last().push(accounts.last()) =~= accounts);
    }
}

/// Each account is counted once in each count that it belongs to.
pub proof fn law_counted_accounts(accounts: Seq<Account>, a: Account)
    ensures
        refused_count(Seq::empty()) == 0,
        failed_count(Seq::empty()) == 0,
        active_count(Seq::empty()) == 0,
        refused_count(accounts.push(a)) == refused_count(accounts) + if somewhere(
            a.error_message@,
            seq!['4', '0', '1'],
        ) {
            1int
        } else {
            0
        },
        failed_count(accounts.push(a)) == failed_count(accounts) + if only_spaces(
            a.error_message@,
        ) {
            0int
        } else {
            1
        },
        active_count(accounts.push(a)) == active_count(accounts) + if a.status@ == "active"@ {
            1int
        } else {
            0
        },
{
    law_account_state(a);
    assert(accounts.push(a).drop_last() =~= accounts);
}

/// The count of refused accounts is that of the accounts that are shown where only these are
/// asked for.
pub proof fn law_count_is_of_the_shown(accounts: Seq<Account>)
    ensures
        view_of(accounts, true).len() == refused_count(accounts),
    decreases accounts.len(),
{
    if accounts.len() > 0 {
        law_count_is_of_the_shown(accounts.drop_last());
    }
}

/// What is printed: one line where there is no account, the names alone where these are asked for,
/// and otherwise a heading, a line for each account that is shown and, of all accounts, a summary.
pub proof fn law_listing(accounts: Seq<Account>, only_401: bool, emails_only: bool, now: int)
    ensures
        ({
            let l = listing(accounts, only_401, emails_only, now);
            let v = view_of(accounts, only_401);
            &&& accounts.len() == 0 ==> l.len() == 1 && l[0] == "（没有账号）"@
            &&& accounts.len() > 0 && emails_only ==> l.len() == v.len() && forall|i: int|
                0 <= i < v.len() ==> #[trigger] l[i] == v[i].name@
            &&& accounts.len() > 0 && !emails_only ==> l.len() >= v.len() + 1 && forall|i: int|
                1 <= i <= v.len() ==> #[trigger] l[i] == account_line(v[i - 1], now)
            &&& accounts.len() > 0 && !emails_only && only_401 ==> l.len() == v.len() + 1 && l[0]
                == "共 "@ + decimal(accounts.len()) + " 个账号，其中 "@ + decimal(
                refused_count(accounts),
            ) + " 个报 401：\n"@
            &&& accounts.len() > 0 && !emails_only && !only_401 ==> l[0] == "共 "@ + decimal(
                accounts.len(),
            ) + " 个账号（已按 total 翻页拉全）：\n"@ && l[v.len() as int + 1]
                == "\n--- 汇总: 总 "@ + decimal(accounts.len()) + " | active "@ + decimal(
                active_count(accounts),
            ) + " | 有 error "@ + decimal(failed_count(accounts)) + " | 含 401 的 "@ + decimal(
                refused_count(accounts),
            ) + " ---"@
            &&& accounts.len() > 0 && !emails_only && !only_401 && refused_count(accounts) == 0
                ==> l.len() == v.len() + 2
            &&& accounts.len() > 0 && !emails_only && !only_401 && refused_count(accounts) > 0
                ==> l.len() == v.len() + 3 && l.last()
                == "提示: 用 `accounts list --401` 只看报 401 的账号。"@
        }),
{
}

// ---------------------------------------------------------------------------
// Laws on what a call gives
// ---------------------------------------------------------------------------

/// Where the names are asked for, they are printed and nothing else: those of the accounts whose
/// error tells of `401`, or of all.
pub proof fn law_printed_names(
    accounts: &[Account],
    only_401: bool,
    now: i64,
    r: Vec<String>,
    k: int,
)
    requires
        call_ensures(list, (accounts, only_401, true, now), r),
        accounts@.len() > 0,
        0 <= k < r@.len(),
    ensures
        r@.len() == view_of(accounts@, only_401).len(),
        r@[k]@ == view_of(accounts@, only_401)[k].name@,
{
    law_listing(accounts@, only_401, true, now as int);
    assert(texts(r@).len() == r@.len());
    assert(texts(r@)[k] == r@[k]@);
}

/// Otherwise every account that is shown has its line.
pub proof fn law_printed_lines(
    accounts: &[Account],
    only_401: bool,
    now: i64,
    r: Vec<String>,
    k: int,
)
    requires
        call_ensures(list, (accounts, only_401, false, now), r),
        accounts@.len() > 0,
        0 <= k < view_of(accounts@, only_401).len(),
    ensures
        r@.len() > k + 1,
        r@[k + 1]@ == account_line(view_of(accounts@, only_401)[k], now as int),
{
    law_listing(accounts@, only_401, false, now as int);
    let l = listing(accounts@, only_401, false, now as int);
    assert(texts(r@).len() == r@.len());
    assert(texts(r@)[k + 1] == r@[k + 1]@);
    assert(l[k + 1] == account_line(view_of(accounts@, only_401)[k], now as int));
}

} // verus!
