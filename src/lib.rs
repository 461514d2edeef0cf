//! Request routing: route patterns are compiled into anchored regular
//! expressions, gathered into one expression set, and looked up by method and
//! path, yielding every matching route in registration order together with its
//! percent-decoded path parameters.

mod engine;
mod error;
mod errors;
mod layer;
mod param;
mod pattern;
mod router;

pub use error::Error;
pub use errors::{BuildError, ParamError};
pub use param::Params;
pub use pattern::{compile, is_valid_param_name, parse, push_wildcard, CompiledPattern};
pub use router::{Builder, Match, Matches, Router};
