//! Common types used across the crate.

use vstd::prelude::*;

verus! {

/// The HTTP request method used when connecting to the endpoint.
#[derive(Clone, Copy, Debug, PartialEq, Eq, Structural)]
pub enum RequestMethod {
    Get,
    Post,
}

/// The canonical spelling of a request method on the wire.
pub open spec fn method_chars(m: RequestMethod) -> Seq<char> {
    match m {
        RequestMethod::Get => "GET"@,
        RequestMethod::Post => "POST"@,
    }
}

impl RequestMethod {
    /// The method name as sent in the request line and to the signer.
    pub fn as_str(&self) -> (r: &'static str)
        ensures
            r@ == method_chars(*self),
    {
        match self {
            RequestMethod::Get => "GET",
            RequestMethod::Post => "POST",
        }
    }
}

/// The `filter_level` parameter in API requests.
#[derive(Clone, Debug)]
pub enum FilterLevel {
    NoFilter,
    Low,
    Medium,
    Custom(String),
}

/// The string a filter level contributes as a parameter value.
pub open spec fn filter_level_chars(fl: FilterLevel) -> Seq<char> {
    match fl {
        FilterLevel::NoFilter => "none"@,
        FilterLevel::Low => "low"@,
        FilterLevel::Medium => "medium"@,
        FilterLevel::Custom(s) => s@,
    }
}

impl FilterLevel {
    /// The level as the parameter value sent to the server.
    pub fn param_value(&self) -> (r: String)
        ensures
            r@ == filter_level_chars(*self),
    {
        match self {
            FilterLevel::NoFilter => String::from_str("none"),
            FilterLevel::Low => String::from_str("low"),
            FilterLevel::Medium => String::from_str("medium"),
            FilterLevel::Custom(s) => s.clone(),
        }
    }
}

impl PartialEq for FilterLevel {
    /// Two levels are equal when they stand for the same parameter value,
    /// so `Custom` spellings of the named levels compare equal to them.
    fn eq(&self, other: &FilterLevel) -> (r: bool) {
        let left = self.param_value();
        let right = other.param_value();
        left == right
    }
}

impl vstd::std_specs::cmp::PartialEqSpecImpl for FilterLevel {
    open spec fn obeys_eq_spec() -> bool {
        true
    }

    open spec fn eq_spec(&self, other: &FilterLevel) -> bool {
        filter_level_chars(*self) == filter_level_chars(*other)
    }
}

impl Default for FilterLevel {
    /// The default level, which requests unfiltered delivery.
    fn default() -> (r: Self)
        ensures
            r is NoFilter,
    {
        FilterLevel::NoFilter
    }
}

/// Represents an infallible operation. The crate never constructs a value of
/// this type and its one field is private, so no caller can obtain one
/// either: an error slot of this type can never be filled.
#[derive(Clone, Copy, Debug, PartialEq, Eq, Hash, PartialOrd, Ord)]
pub struct Never {
    no_value: (),
}

} // verus!
