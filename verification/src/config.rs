//! Settings.
use crate::mail::record::MailConfig;
use vstd::prelude::*;

verus! {

/// The settings of the tool.
#[derive(Debug, Clone)]
pub struct Config {
    /// The address of the gateway, without the `/api/v1` suffix.
    pub base_url: String,
    pub email: String,
    pub password: String,
    /// The base32 secret of the second factor, where the gateway asks for one.
    pub totp_secret: Option<String>,
    /// Whether certificates are verified.
    pub verify_tls: bool,
    /// The page that gives out codes.
    pub gate_url: String,
    /// The page that converts the result of that page into credentials.
    pub cpa_url: String,
    /// The longest time that the browser waits, in seconds.
    pub max_seconds: u64,
    pub mail_base_url: String,
    pub mail_username: String,
    pub mail_password: String,
    /// Whether the browser shows its window.
    pub openai_headed: bool,
    /// The longest time for one account, in seconds.
    pub openai_max_seconds: u64,
}

/// Whether what cannot be left out is filled in.
pub open spec fn complete(c: Config) -> bool {
    c.base_url@.len() > 0 && c.email@.len() > 0 && c.password@.len() > 0
}

impl Config {
    /// The settings of the mailbox service.
    pub fn mail_config(&self) -> (r: MailConfig)
        ensures
            r.base_url@ == self.mail_base_url@,
            r.username@ == self.mail_username@,
            r.password@ == self.mail_password@,
    {
        MailConfig {
            base_url: self.mail_base_url.clone(),
            username: self.mail_username.clone(),
            password: self.mail_password.clone(),
        }
    }

    /// Refuses settings that are not complete.
    pub fn checked(self) -> (r: Result<Config, String>)
        ensures
            match r {
                Ok(c) => complete(self) && c == self,
                Err(e) => !complete(self) && e@ == "config.toml 缺少 base_url / email / password"@,
            },
    {
        if self.base_url.as_str().is_empty() || self.email.as_str().is_empty()
            || self.password.as_str().is_empty() {
            Err("config.toml 缺少 base_url / email / password".to_owned())
        } else {
            Ok(self)
        }
    }
}

/// The longest time for one account where none is set, in seconds.
pub fn default_openai_seconds() -> (r: u64)
    ensures
        r == 240,
{
    240
}

/// Certificates are verified unless the settings say otherwise.
pub fn default_verify_tls() -> (r: bool)
    ensures
        r,
{
    true
}

/// The page that gives out codes where none is set.
pub fn default_gate_url() -> (r: String)
    ensures
        r@ == "https://401.kyon888.xyz"@,
{
    "https://401.kyon888.xyz".to_owned()
}

/// The page that converts results where none is set.
pub fn default_cpa_url() -> (r: String)
    ensures
        r@ == "https://zh.kyon888.xyz/CPAandSub2API/"@,
{
    "https://zh.kyon888.xyz/CPAandSub2API/".to_owned()
}

/// The longest time that the browser waits where none is set, in seconds.
pub fn default_max_seconds() -> (r: u64)
    ensures
        r == 150,
{
    150
}

/// Settings are complete where the gateway's address and the operator's address and password are
/// all there.
pub proof fn law_complete(c: Config)
    ensures
        c.base_url@.len() == 0 || c.email@.len() == 0 || c.password@.len() == 0 ==> !complete(c),
        c.base_url@.len() > 0 && c.email@.len() > 0 && c.password@.len() > 0 ==> complete(c),
{
}

/// Settings are taken as they are, or refused where something is missing.
pub proof fn law_checked_settings(c: Config, r: Result<Config, String>)
    requires
        call_ensures(Config::checked, (c,), r),
    ensures
        r is Ok <==> c.base_url@.len() > 0 && c.email@.len() > 0 && c.password@.len() > 0,
        r matches Ok(d) ==> d == c,
{
}

} // verus!
