//! Application settings and the runtime environment they are picked for.

use vstd::prelude::*;
use vstd::string::StringExecFns;

verus! {

/// Where the server listens.
#[derive(Debug, PartialEq)]
pub struct AppSettings {
    pub port: u16,
    pub host: String,
}

/// The runtime environment a configuration file is picked for.
#[derive(Debug, PartialEq)]
pub enum Environment {
    Local,
    Production,
}

/// The lowercase form of a string; a function of its characters alone.
pub uninterp spec fn lower_of(s: Seq<char>) -> Seq<char>;

/// Relies on `str::to_lowercase`: the lowercase mapping depends on the
/// string's characters alone.
#[verifier::external_body]
fn lowercase(s: &str) -> (r: String)
    ensures
        r@ == lower_of(s@),
{
    s.to_lowercase()
}

impl Environment {
    /// The configuration-file name this environment selects.
    pub fn as_str(&self) -> (r: &'static str)
        ensures
            self is Local ==> r@ == "local"@,
            self is Production ==> r@ == "production"@,
    {
        match self {
            Environment::Local => "local",
            Environment::Production => "production",
        }
    }

    /// The environment a configuration value names, compared case
    /// insensitively; any other value is reported back with an explanation.
    pub fn try_from(value: String) -> (r: Result<Environment, String>)
        ensures
            match r {
                Ok(env) => (env is Local && lower_of(value@) == "local"@) || (env is Production
                    && lower_of(value@) == "production"@),
                Err(m) => {
                    &&& lower_of(value@) != "local"@
                    &&& lower_of(value@) != "production"@
                    &&& m@ == value@
                        + " is not a supported environment. Use either `local` or `production`."@
                },
            },
    {
        let lowered = lowercase(value.as_str());
        if lowered == "local".to_owned() {
            Ok(Environment::Local)
        } else if lowered == "production".to_owned() {
            Ok(Environment::Production)
        } else {
            let mut message = value;
            message.append(" is not a supported environment. Use either `local` or `production`.");
            Err(message)
        }
    }
}

} // verus!
