//! The second factor of a login: time-based codes.
use crate::text::basic::{all_digits, text2, trim, trimmed, uppercase};
use crate::text::charwise::{is_core, law_trim};
use crate::text::numeral::decimal;
use vstd::prelude::*;

verus! {

/// Why there is no code.
#[derive(Debug)]
pub enum TotpError {
    /// The secret is not base32.
    Secret(String),
    /// The secret is too short.
    Init(String),
    /// The clock stands before the epoch.
    Clock(String),
}

/// Why a secret is refused that is not base32.
pub open spec fn not_base32() -> Seq<char> {
    "ParseBase32"@
}

/// Why codes of `digits` digits, or else a key of `len` bytes, are refused.
pub open spec fn refused(digits: nat, len: nat) -> Option<Seq<char>> {
    if !(6 <= digits <= 8) {
        Some(
            "Implementations MUST extract a 6-digit code at a minimum and possibly 7 and 8-digit code. "@
                + decimal(digits) + " digits is not allowed"@,
        )
    } else if len < 16 {
        Some(
            "The length of the shared secret MUST be at least 128 bits. "@ + decimal(len * 8)
                + " bits is not enough"@,
        )
    } else {
        None
    }
}

/// The bytes of a base32 secret: `None` where it is not base32.
pub uninterp spec fn secret_bytes(secret: Seq<char>) -> Option<Seq<u8>>;

/// The code of a key at a time in seconds since the epoch.
pub uninterp spec fn code_at(key: Seq<u8>, digits: nat, step: nat, time: nat) -> Seq<char>;

/// `totp_rs::Secret::to_bytes` of an encoded secret: the bytes, or that there are none, are a
/// function of the secret alone. It has one error for such a secret, whose `Debug` is its name.
#[verifier::external_body]
fn decode_secret(secret: String) -> (r: Result<Vec<u8>, String>)
    ensures
        match r {
            Ok(v) => secret_bytes(secret@) == Some(v@),
            Err(e) => secret_bytes(secret@) is None && e@ == not_base32(),
        },
{
    match totp_rs::Secret::Encoded(secret).to_bytes() {
        Ok(v) => Ok(v),
        Err(e) => Err(format!("{:?}", e)),
    }
}

/// `totp_rs::TOTP::new` with SHA-1, and `generate_current` of what it makes. `new` refuses fewer
/// than six or more than eight digits and, after that, keys of fewer than sixteen bytes, with a
/// message that tells the number. A code is that of the present moment, which is not known: it has
/// the asked number of digits. Nothing is claimed of the wording of std's error for a clock that
/// stands before the epoch.
#[verifier::external_body]
fn totp_now(key: Vec<u8>, digits: usize, skew: u8, step: u64) -> (r: Result<String, TotpError>)
    requires
        step > 0,
    ensures
        match r {
            Ok(c) => refused(digits as nat, key@.len()) is None && all_digits(c@) && c@.len()
                == digits && exists|t: u64|
                c@ == #[trigger] code_at(key@, digits as nat, step as nat, t as nat),
            Err(TotpError::Init(e)) => refused(digits as nat, key@.len()) == Some(e@),
            Err(TotpError::Clock(_)) => refused(digits as nat, key@.len()) is None,
            Err(TotpError::Secret(_)) => false,
        },
{
    match totp_rs::TOTP::new(totp_rs::Algorithm::SHA1, digits, skew, step, key) {
        Ok(t) => match t.generate_current() {
            Ok(c) => Ok(c),
            Err(e) => Err(TotpError::Clock(e.to_string())),
        },
        Err(e) => Err(TotpError::Init(e.to_string())),
    }
}

/// A secret as it is decoded: without the white space around it, in upper case.
pub open spec fn normal_secret(secret: Seq<char>) -> Seq<char> {
    uppercase(trim(secret))
}

/// The present code of a base32 secret: six digits that change every thirty seconds.
pub fn generate_current(secret_base32: &str) -> (r: Result<String, TotpError>)
    ensures
        match r {
            Ok(c) => secret_bytes(normal_secret(secret_base32@)) matches Some(key) && key.len()
                >= 16 && all_digits(c@) && c@.len() == 6 && exists|t: u64|
                c@ == #[trigger] code_at(key, 6, 30, t as nat),
            Err(TotpError::Secret(e)) => secret_bytes(normal_secret(secret_base32@)) is None && e@
                == not_base32(),
            Err(TotpError::Init(e)) => secret_bytes(normal_secret(secret_base32@)) matches Some(key)
                && key.len() < 16 && refused(6, key.len()) == Some(e@),
            Err(TotpError::Clock(_)) => secret_bytes(normal_secret(secret_base32@)) matches Some(
                key,
            ) && key.len() >= 16,
        },
{
    let t = trimmed(secret_base32);
    match decode_secret(t.as_str().to_uppercase()) {
        Ok(raw) => totp_now(raw, 6, 1, 30),
        Err(e) => Err(TotpError::Secret(e)),
    }
}

impl TotpError {
    /// What is reported.
    pub open spec fn text(self) -> Seq<char> {
        match self {
            TotpError::Secret(e) => "无效的 TOTP 密钥: "@ + e@,
            TotpError::Init(e) => "初始化 TOTP 失败: "@ + e@,
            TotpError::Clock(e) => e@,
        }
    }

    /// What is reported.
    pub fn message(&self) -> (r: String)
        ensures
            r@ == self.text(),
    {
        match self {
            TotpError::Secret(e) => text2("无效的 TOTP 密钥: ", e.as_str()),
            TotpError::Init(e) => text2("初始化 TOTP 失败: ", e.as_str()),
            TotpError::Clock(e) => e.clone(),
        }
    }
}

/// The secret that is decoded is that of the settings, without the spaces around it and in upper
/// case.
pub proof fn law_secret(secret: Seq<char>)
    ensures
        exists|t: Seq<char>| #[trigger] is_core(secret, t) && normal_secret(secret) == uppercase(t),
{
    law_trim(secret);
}

/// Six digits are allowed, and a key is refused exactly where it has fewer than 128 bits.
pub proof fn law_short_keys_are_refused(len: nat)
    ensures
        refused(6, len) is None <==> len * 8 >= 128,
        len * 8 < 128 ==> refused(6, len) == Some(
            "The length of the shared secret MUST be at least 128 bits. "@ + decimal(len * 8)
                + " bits is not enough"@,
        ),
{
}

/// What is reported tells a secret that is no secret from one that is too short.
pub proof fn law_totp_errors_are_told_apart(e: String)
    ensures
        TotpError::Secret(e).text() == "无效的 TOTP 密钥: "@ + e@,
        TotpError::Init(e).text() == "初始化 TOTP 失败: "@ + e@,
        TotpError::Clock(e).text() == e@,
{
}

/// A code has six digits, and changes every thirty seconds; it is that of the secret without the
/// spaces around it and in upper case.
pub proof fn law_current_code(secret: &str, r: Result<String, TotpError>)
    requires
        call_ensures(generate_current, (secret,), r),
    ensures
        r matches Ok(c) ==> c@.len() == 6 && (secret_bytes(uppercase(trim(secret@))) matches Some(
            key,
        ) && exists|t: u64| c@ == #[trigger] code_at(key, 6, 30, t as nat)),
        secret_bytes(uppercase(trim(secret@))) is None ==> r matches Err(TotpError::Secret(_)),
        secret_bytes(uppercase(trim(secret@))) matches Some(key) ==> (key.len() < 16 ==> r matches
            Err(TotpError::Init(_))),
{
}

} // verus!
