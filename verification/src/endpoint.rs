//! The endpoints whose use is recorded, and their names in the usage table.

use crate::encoding::same_text;
use vstd::prelude::*;
use vstd::string::StringExecFns;

verus! {

/// An endpoint of the conversion service.
#[derive(Clone, Copy, Debug, PartialEq, Eq, Structural)]
pub enum ApiEndpoint {
    ToCelsius,
    ToFahrenheit,
}

/// A name that belongs to no endpoint.
#[derive(Clone, Debug, PartialEq, Eq)]
pub struct UnknownApiEndpoint(pub String);

impl ApiEndpoint {
    /// The name of the endpoint, as a sequence of characters.
    pub open spec fn name(self) -> Seq<char> {
        match self {
            ApiEndpoint::ToCelsius => "to-celsius"@,
            ApiEndpoint::ToFahrenheit => "to-fahrenheit"@,
        }
    }

    /// The endpoint that `name` stands for, if any.
    pub open spec fn named(name: Seq<char>) -> Option<ApiEndpoint> {
        if name == "to-celsius"@ {
            Some(ApiEndpoint::ToCelsius)
        } else if name == "to-fahrenheit"@ {
            Some(ApiEndpoint::ToFahrenheit)
        } else {
            None
        }
    }

    /// The name under which the endpoint is stored.
    pub fn as_str(&self) -> (name: &'static str)
        ensures
            name@ == self.name(),
    {
        match self {
            ApiEndpoint::ToCelsius => "to-celsius",
            ApiEndpoint::ToFahrenheit => "to-fahrenheit",
        }
    }

    /// Reads an endpoint from its stored name. Any other text comes back
    /// inside the error.
    pub fn from_str(s: &str) -> (parsed: Result<ApiEndpoint, UnknownApiEndpoint>)
        ensures
            match ApiEndpoint::named(s@) {
                Some(endpoint) => parsed is Ok && parsed.unwrap() == endpoint,
                None => parsed is Err && parsed.unwrap_err().0@ == s@,
            },
    {
        if same_text(s, "to-celsius") {
            Ok(ApiEndpoint::ToCelsius)
        } else if same_text(s, "to-fahrenheit") {
            Ok(ApiEndpoint::ToFahrenheit)
        } else {
            Err(UnknownApiEndpoint(s.to_owned()))
        }
    }

    /// Every endpoint is read back from its own name.
    pub proof fn lemma_name_round_trip(self)
        ensures
            ApiEndpoint::named(self.name()) == Some(self),
    {
        reveal_strlit("to-celsius");
        reveal_strlit("to-fahrenheit");
        assert("to-celsius"@.len() != "to-fahrenheit"@.len());
    }
}

impl std::str::FromStr for ApiEndpoint {
    type Err = UnknownApiEndpoint;

    /// Reads an endpoint from its stored name, as [`ApiEndpoint::from_str`]
    /// does: this is what `str::parse` calls.
    fn from_str(s: &str) -> (parsed: Result<Self, Self::Err>)
        ensures
            match ApiEndpoint::named(s@) {
                Some(endpoint) => parsed is Ok && parsed.unwrap() == endpoint,
                None => parsed is Err && parsed.unwrap_err().0@ == s@,
            },
    {
        ApiEndpoint::from_str(s)
    }
}

impl UnknownApiEndpoint {
    /// The text of [`UnknownApiEndpoint::message`].
    pub open spec fn spec_message(&self) -> Seq<char> {
        "unknown API endpoint ("@ + self.0@ + ")"@
    }

    /// The text shown for this error: the rejected name in brackets after
    /// `unknown API endpoint`.
    pub fn message(&self) -> (text: String)
        ensures
            text@ == self.spec_message(),
    {
        let mut text = "unknown API endpoint (".to_owned();
        text.append(self.0.as_str());
        text.append(")");
        text
    }
}

} // verus!
