use std::str::Utf8Error;
use vstd::prelude::*;

use crate::error::Error;

verus! {

#[verifier::external_type_specification]
#[verifier::external_body]
pub struct ExUtf8Error(Utf8Error);

/// Why a router could not be built.
#[derive(Debug)]
pub enum BuildError {
    /// A `:name` or `*name` segment whose name does not start with an ASCII
    /// letter followed by ASCII letters and digits.
    InvalidParamName,
    /// The expression engine refused a compiled expression.
    Matcher(Error),
}

impl BuildError {
    /// The error as a line of text.
    pub fn to_string(&self) -> (r: String)
        ensures
            self is InvalidParamName ==> r@ == "invalid param name"@,
            self matches BuildError::Matcher(e) ==> r@ == "router error: "@ + e.text(),
    {
        match self {
            BuildError::InvalidParamName => String::from_str("invalid param name"),
            BuildError::Matcher(e) => e.to_string(),
        }
    }

    /// A short description of the kind of error.
    pub fn description(&self) -> (r: &'static str)
        ensures
            self is InvalidParamName ==> r@ == "invalid param name"@,
            self is Matcher ==> r@ == "router error"@,
    {
        match self {
            BuildError::InvalidParamName => "invalid param name",
            BuildError::Matcher(_) => "router error",
        }
    }
}

/// Why a path parameter could not be read.
#[derive(Debug)]
pub enum ParamError {
    /// The matched route has no parameter of that name.
    NotFound,
    /// The percent-decoded value is not UTF-8.
    Decode(Utf8Error),
}

impl ParamError {
    /// The error as a line of text.
    pub fn to_string(&self) -> (r: String)
        ensures
            self is NotFound ==> r@ == "route param not found"@,
            self matches ParamError::Decode(e) ==> exists|shown: String|
                vstd::string::to_string_from_display_ensures::<Utf8Error>(&e, shown) && r@
                    == "route param decode error: "@ + shown@,
    {
        match self {
            ParamError::NotFound => String::from_str("route param not found"),
            ParamError::Decode(e) => {
                let shown = e.to_string();
                let r = String::from_str("route param decode error: ").concat(shown.as_str());
                r
            },
        }
    }

    /// A short description of the kind of error.
    pub fn description(&self) -> (r: &'static str)
        ensures
            self is NotFound ==> r@ == "route param not found"@,
            self is Decode ==> r@ == "route param decode error"@,
    {
        match self {
            ParamError::NotFound => "route param not found",
            ParamError::Decode(_) => "route param decode error",
        }
    }
}

} // verus!
