//! Service configuration: the settings the bridge runs with, and the
//! runtime environment name that selects a configuration file. Reading
//! files and environment variables is the surrounding program's work; the
//! checked values live here.

use vstd::prelude::*;

verus! {

/// The settings the bridge service runs with.
#[derive(Debug, PartialEq, Eq)]
pub struct BridgeServiceConfig {
    /// Override for the endpoint the service's clients use, to point the
    /// service at a local stand-in of the real services.
    pub override_aws_endpoint: Option<String>,
    pub dynamo_table_name: String,
    pub kinesis_stream_name: String,
}

/// The possible runtime environments for the application.
#[derive(Debug, Clone, Copy, PartialEq, Eq, Structural)]
pub enum Environment {
    Local,
    Production,
}

/// The lowercase form of a string: a function of its characters alone.
pub uninterp spec fn lower_of(s: Seq<char>) -> Seq<char>;

/// Relies on `str::to_lowercase`: the result depends on the characters
/// alone.
#[verifier::external_body]
fn to_lowercase(s: &str) -> (r: String)
    ensures
        r@ == lower_of(s@),
{
    s.to_lowercase()
}

impl Environment {
    /// The environment's name.
    pub fn as_str(&self) -> (r: &'static str)
        ensures
            *self is Local ==> r@ == "local"@,
            *self is Production ==> r@ == "production"@,
    {
        match self {
            Environment::Local => "local",
            Environment::Production => "production",
        }
    }

    /// The environment a name denotes, ignoring case; any other name is
    /// rejected, with a message naming it.
    pub fn try_from_name(name: &str) -> (r: Result<Environment, String>)
        ensures
            lower_of(name@) == "local"@ ==> (r matches Ok(e) && e is Local),
            lower_of(name@) == "production"@ ==> (r matches Ok(e) && e is Production),
            lower_of(name@) != "local"@ && lower_of(name@) != "production"@ ==> r is Err,
    {
        proof {
            reveal_strlit("local");
            reveal_strlit("production");
            assert("local"@.len() == 5);
            assert("production"@.len() == 10);
            assert("local"@ != "production"@);
        }
        let lowered = to_lowercase(name);
        if lowered == String::from_str("local") {
            Ok(Environment::Local)
        } else if lowered == String::from_str("production") {
            Ok(Environment::Production)
        } else {
            let mut msg = String::from_str("`");
            msg.append(name);
            msg.append("` is not a supported environment. Use either `local` or `production`");
            Err(msg)
        }
    }
}

} // verus!
