//! Settings of the service, with their defaults.
use vstd::prelude::*;

verus! {

/// Where the database is, where to listen, and the token signing secret.
#[derive(Debug, Clone)]
pub struct Config {
    pub database_url: String,
    pub server_address: String,
    pub jwt_secret: String,
}

pub open spec fn or_default(given: Option<String>, default: Seq<char>) -> Seq<char> {
    match given {
        Some(v) => v@,
        None => default,
    }
}

impl Config {
    /// Settings from the values given, each missing one taking its default.
    pub fn from_values(
        database_url: Option<String>,
        server_address: Option<String>,
        jwt_secret: Option<String>,
    ) -> (r: Config)
        ensures
            r.database_url@ == or_default(database_url, "sqlite://./ssms.db?mode=rwc"@),
            r.server_address@ == or_default(server_address, "0.0.0.0:3000"@),
            r.jwt_secret@ == or_default(jwt_secret, "development-secret-key-change-in-production"@),
    {
        let database_url = match database_url {
            Some(v) => v,
            None => String::from_str("sqlite://./ssms.db?mode=rwc"),
        };
        let server_address = match server_address {
            Some(v) => v,
            None => String::from_str("0.0.0.0:3000"),
        };
        let jwt_secret = match jwt_secret {
            Some(v) => v,
            None => String::from_str("development-secret-key-change-in-production"),
        };
        Config { database_url, server_address, jwt_secret }
    }
}

} // verus!
