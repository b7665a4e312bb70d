//! Which set of settings the service runs with.

use vstd::prelude::*;
use vstd::string::StringExecFns;

verus! {

/// The environments that have a settings file.
#[derive(Clone, Copy, Debug, PartialEq, Eq, Structural)]
pub enum Environment {
    Dev,
    Production,
}

/// `s` in lower case, as `str::to_lowercase` gives it.
pub uninterp spec fn lowercase_of(s: Seq<char>) -> Seq<char>;

/// Calls `str::to_lowercase`. The result follows Unicode's case mapping and
/// depends on the text alone; the contract only names it.
#[verifier::external_body]
fn to_lowercase(s: &str) -> (res: String)
    ensures
        res@ == lowercase_of(s@),
{
    s.to_lowercase()
}

/// The environment that the lower-case name `name` stands for, or the
/// complaint about a name that stands for none.
pub open spec fn environment_named(name: Seq<char>) -> Result<Environment, Seq<char>> {
    if name == "dev"@ {
        Ok(Environment::Dev)
    } else if name == "production"@ {
        Ok(Environment::Production)
    } else {
        Err(name + " is not a supported environment. Use either `dev` or `production`."@)
    }
}

/// The outcome of reading an environment's name, with the complaint
/// replaced by its text.
pub open spec fn named_view(res: Result<Environment, String>) -> Result<Environment, Seq<char>> {
    match res {
        Ok(environment) => Ok(environment),
        Err(complaint) => Err(complaint@),
    }
}

impl Environment {
    /// The name of the environment, which is also the stem of its settings
    /// file.
    pub open spec fn name(self) -> Seq<char> {
        match self {
            Environment::Dev => "dev"@,
            Environment::Production => "production"@,
        }
    }

    /// The name of the environment, which is also the stem of its settings
    /// file.
    pub fn as_str(&self) -> (name: &'static str)
        ensures
            name@ == self.name(),
    {
        match self {
            Environment::Dev => "dev",
            Environment::Production => "production",
        }
    }

    /// The environment that goes by the lower-case name `name`.
    pub fn from_lowercase(name: String) -> (res: Result<Environment, String>)
        ensures
            named_view(res) == environment_named(name@),
    {
        if name == String::from_str("dev") {
            Ok(Environment::Dev)
        } else if name == String::from_str("production") {
            Ok(Environment::Production)
        } else {
            Err(
                name.concat(
                    " is not a supported environment. Use either `dev` or `production`.",
                ),
            )
        }
    }

    /// The name of the settings file of this environment.
    pub fn settings_file(&self) -> (file: String)
        ensures
            file@ == self.name() + ".yaml"@,
    {
        String::from_str(self.as_str()).concat(".yaml")
    }
}

impl TryFrom<String> for Environment {
    type Error = String;

    /// The environment that goes by the name `s`, in whatever case it is
    /// written.
    fn try_from(s: String) -> (res: Result<Self, Self::Error>)
        ensures
            named_view(res) == environment_named(lowercase_of(s@)),
    {
        Environment::from_lowercase(to_lowercase(s.as_str()))
    }
}

/// The complaint of `try_from` is a `String`, which contracts know by its
/// view alone. So what `try_from` returns is stated on `try_from` itself,
/// and the general statement below claims nothing.
impl vstd::std_specs::convert::TryFromSpecImpl<String> for Environment {
    open spec fn obeys_try_from_spec() -> bool {
        false
    }

    open spec fn try_from_spec(s: String) -> Result<Self, String> {
        arbitrary()
    }
}

} // verus!
