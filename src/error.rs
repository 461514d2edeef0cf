use vstd::prelude::*;

verus! {

/// A failure reported by the expression engine, kept as its message.
#[derive(Debug, Clone)]
pub struct Error {
    message: String,
}

impl Error {
    /// The engine's message.
    pub closed spec fn text(&self) -> Seq<char> {
        self.message@
    }

    /// Wraps any error by its displayed message.
    pub fn from_err<E: std::error::Error>(err: E) -> (r: Error)
        ensures
            exists|shown: String|
                #[trigger] vstd::string::to_string_from_display_ensures::<E>(&err, shown) && shown@
                    == r.text(),
    {
        let r = Error { message: err.to_string() };
        assert(vstd::string::to_string_from_display_ensures::<E>(&err, r.message) && r.message@
            == r.text());
        r
    }

    /// An error with the given message.
    pub(crate) fn from_message(message: String) -> (r: Error)
        ensures
            r.text() == message@,
    {
        Error { message }
    }

    /// The error as a line of text.
    pub fn to_string(&self) -> (r: String)
        ensures
            r@ == "router error: "@ + self.text(),
    {
        let mut s = String::from_str("router error: ");
        s.append(self.message.as_str());
        s
    }

    /// A short description of the kind of error.
    pub fn description(&self) -> (r: &'static str)
        ensures
            r@ == "router error"@,
    {
        "router error"
    }
}

} // verus!
