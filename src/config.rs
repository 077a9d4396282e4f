//! Deployment environment selection.
use vstd::prelude::*;

use crate::text::same_text;

verus! {

/// The deployment environment whose configuration layer is loaded on top of
/// the base layer.
#[derive(Debug, Clone, Copy, PartialEq, Eq, Structural)]
pub enum Environment {
    Local,
    Production,
}

/// The name under which an environment is written in settings.
pub open spec fn environment_name(e: Environment) -> Seq<char> {
    match e {
        Environment::Local => seq!['l', 'o', 'c', 'a', 'l'],
        Environment::Production => seq!['p', 'r', 'o', 'd', 'u', 'c', 't', 'i', 'o', 'n'],
    }
}

impl Environment {
    /// The name of the environment's configuration file.
    pub fn as_str(&self) -> (r: &'static str)
        ensures
            r@ == environment_name(*self),
    {
        match self {
            Environment::Local => {
                let s = "local";
                proof {
                    reveal_strlit("local");
                }
                s
            },
            Environment::Production => {
                let s = "production";
                proof {
                    reveal_strlit("production");
                }
                s
            },
        }
    }
}


/// The name given for an environment matched none of the known ones.
#[derive(Debug, Clone, PartialEq, Eq)]
pub struct UnknownEnvironment {
    pub name: String,
}

impl Environment {
    /// Reads an environment from its name; `"local"` and `"production"` are
    /// the only names known.
    pub fn parse(s: &str) -> (r: Result<Environment, UnknownEnvironment>)
        ensures
            r matches Ok(e) ==> environment_name(e) == s@,
            r matches Err(err) ==> err.name@ == s@,
            r is Err <==> (s@ != environment_name(Environment::Local) && s@ != environment_name(
                Environment::Production,
            )),
    {
        if same_text(s, Environment::Local.as_str()) {
            Ok(Environment::Local)
        } else if same_text(s, Environment::Production.as_str()) {
            Ok(Environment::Production)
        } else {
            Err(UnknownEnvironment { name: s.to_string() })
        }
    }
}

impl core::str::FromStr for Environment {
    type Err = UnknownEnvironment;

    fn from_str(s: &str) -> Result<Environment, UnknownEnvironment> {
        Environment::parse(s)
    }
}

} // verus!
