//! The store of the CDK: one record, which a later one replaces.
use vstd::prelude::*;

verus! {

/// The file of the store, in the working directory.
pub const DB_FILE: &'static str = "credentials.db";

/// What the store holds.
#[derive(Debug, Clone)]
pub struct Credential {
    pub cdk: String,
    pub updated_at: String,
}

/// The path of the store.
pub fn db_path() -> (r: String)
    ensures
        r@ == "credentials.db"@,
{
    DB_FILE.to_owned()
}

} // verus!
