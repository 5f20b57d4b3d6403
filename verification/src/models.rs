//! The accounts of the gateway.
use crate::json::Json;
use crate::text::basic::{blank, equal_ignoring_case, is_blank, lemma_not_blank, same_ignoring_case};
use crate::text::charwise::{alike, law_alike, law_substring, law_trim, only_spaces, somewhere};
use crate::text::search::{contains, holds, occurs_at};
use vstd::prelude::*;

verus! {

/// An account, as far as an operator needs it.
#[derive(Debug)]
pub struct Account {
    pub id: i64,
    pub name: String,
    pub platform: String,
    pub account_type: String,
    pub status: String,
    /// What the upstream reported last; a refused authorisation shows as a `401` in it.
    pub error_message: String,
    /// When the account expires, in seconds or milliseconds since the epoch.
    pub expires_at: Option<i64>,
    pub schedulable: bool,
    /// The rank in scheduling; a smaller number comes first.
    pub priority: Option<i64>,
    pub credentials: Option<Json>,
    pub extra: Option<Json>,
}

/// The number of milliseconds of a day.
pub const DAY: i64 = 86_400_000;

/// Division that cuts towards zero.
pub open spec fn cut(a: int, b: int) -> int {
    if a >= 0 {
        a / b
    } else {
        -((-a) / b)
    }
}

/// A time in milliseconds, given in milliseconds where it is greater than 10^12 and otherwise in
/// seconds.
pub open spec fn in_millis(raw: int) -> int {
    if raw > 1_000_000_000_000 {
        raw
    } else {
        raw * 1000
    }
}

impl Account {
    /// Whether the account is authorised by OAuth.
    pub open spec fn oauth(self) -> bool {
        same_ignoring_case(self.account_type@, "oauth"@)
    }

    /// Whether the upstream reported an error.
    pub open spec fn failed(self) -> bool {
        !blank(self.error_message@)
    }

    /// Whether the upstream refused the authorisation.
    pub open spec fn refused(self) -> bool {
        holds(self.error_message@, "401"@)
    }

    /// Whether the account is authorised by OAuth.
    pub fn is_oauth(&self) -> (r: bool)
        ensures
            r == self.oauth(),
    {
        equal_ignoring_case(self.account_type.as_str(), "oauth")
    }

    /// Whether the upstream reported an error.
    pub fn has_error(&self) -> (r: bool)
        ensures
            r == self.failed(),
    {
        !is_blank(self.error_message.as_str())
    }

    /// Whether the upstream refused the authorisation.
    pub fn has_401(&self) -> (r: bool)
        ensures
            r == self.refused(),
    {
        contains(self.error_message.as_str(), "401")
    }

    /// Whether the account has to be authorised anew.
    pub fn needs_reauth(&self) -> (r: bool)
        ensures
            r == (self.oauth() && self.failed()),
    {
        self.is_oauth() && self.has_error()
    }

    /// In how many whole days the account expires, at the time `now` in milliseconds since the
    /// epoch; negative where it has expired.
    pub open spec fn days_left(self, now: int) -> Option<int> {
        match self.expires_at {
            Some(raw) => Some(cut(in_millis(raw as int) - now, DAY as int)),
            None => None,
        }
    }

    /// In how many whole days the account expires.
    pub fn expires_in_days(&self, now: i64) -> (r: Option<i64>)
        ensures
            match r {
                Some(d) => self.days_left(now as int) == Some(d as int),
                None => self.days_left(now as int) is None,
            },
    {
        match self.expires_at {
            Some(raw) => {
                let ms: i128 = if raw > 1_000_000_000_000 {
                    raw as i128
                } else {
                    raw as i128 * 1000
                };
                let left: i128 = ms - now as i128;
                let days: i128 = left / 86_400_000;
                Some(days as i64)
            },
            None => None,
        }
    }
}

/// An account whose upstream refused the authorisation has an error, so that it needs a new one
/// where it is authorised by OAuth.
pub proof fn law_refused_account_failed(a: Account)
    requires
        a.refused(),
    ensures
        a.failed(),
{
    reveal_strlit("401");
    let s = a.error_message@;
    let i = choose|i: int| occurs_at(s, "401"@, i);
    assert(s.subrange(i, i + 3)[0] == '4');
    assert(s[i] == '4');
    lemma_not_blank(s, i);
}

/// An account was refused where `401` stands in its error, has an error where that is not blank,
/// and is authorised by OAuth where its kind says so in whatever case.
pub proof fn law_account_state(a: Account)
    ensures
        a.refused() == somewhere(a.error_message@, seq!['4', '0', '1']),
        a.failed() == !only_spaces(a.error_message@),
        a.oauth() == alike(a.account_type@, seq!['o', 'a', 'u', 't', 'h']),
{
    reveal_strlit("401");
    reveal_strlit("oauth");
    assert("401"@ =~= seq!['4', '0', '1']);
    assert("oauth"@ =~= seq!['o', 'a', 'u', 't', 'h']);
    law_substring(a.error_message@, "401"@);
    law_trim(a.error_message@);
    law_alike(a.account_type@, "oauth"@);
}

/// The days that are left are whole ones, counted from now to the expiry, which is in seconds
/// where it is too small for milliseconds.
pub proof fn law_days_left(a: Account, now: int)
    ensures
        match (a.expires_at, a.days_left(now)) {
            (None, None) => true,
            (Some(raw), Some(d)) => {
                let left = (if raw > 1000000000000 {
                    raw as int
                } else {
                    raw * 1000
                }) - now;
                if left >= 0 {
                    d >= 0 && d * 86400000 <= left < (d + 1) * 86400000
                } else {
                    d <= 0 && (d - 1) * 86400000 < left <= d * 86400000
                }
            },
            _ => false,
        },
{
}

/// An account needs a new authorisation where it is authorised by OAuth and has an error.
pub proof fn law_needs_a_new_authorisation(
    a: &Account,
    needs: bool,
    oauth: bool,
    failed: bool,
    refused: bool,
)
    requires
        call_ensures(Account::needs_reauth, (a,), needs),
        call_ensures(Account::is_oauth, (a,), oauth),
        call_ensures(Account::has_error, (a,), failed),
        call_ensures(Account::has_401, (a,), refused),
    ensures
        needs == (oauth && failed),
        oauth == alike(a.account_type@, seq!['o', 'a', 'u', 't', 'h']),
        failed == !only_spaces(a.error_message@),
        refused == somewhere(a.error_message@, seq!['4', '0', '1']),
        refused ==> failed,
{
    law_account_state(*a);
    if refused {
        law_refused_account_failed(*a);
    }
}

} // verus!
