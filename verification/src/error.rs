//! The error that every fallible operation of the engine reports.

use vstd::prelude::*;
use vstd::std_specs::convert::FromSpecImpl;
use vstd::string::StringExecFns;

verus! {

/// A failure, described by a message. Its view is the message.
#[derive(Debug, Clone)]
pub struct Error {
    msg: String,
}

impl View for Error {
    type V = Seq<char>;

    closed spec fn view(&self) -> Seq<char> {
        self.msg@
    }
}

impl Error {
    /// The error that holds `msg`.
    pub closed spec fn holding(msg: String) -> Error {
        Error { msg }
    }

    /// The error of a failed read of a device: `detail` behind the words `I/O error: `.
    pub fn io(detail: &str) -> (e: Error)
        ensures
            e@ == "I/O error: "@ + detail@,
    {
        Error { msg: "I/O error: ".to_owned().concat(detail) }
    }

    /// The message.
    pub fn description(&self) -> (s: &str)
        ensures
            s@ == self@,
    {
        self.msg.as_str()
    }

    /// The message, as an owned string.
    pub fn to_string(&self) -> (s: String)
        ensures
            s@ == self@,
    {
        self.msg.clone()
    }
}

impl From<String> for Error {
    fn from(msg: String) -> (e: Error)
        ensures
            e@ == msg@,
    {
        Error { msg }
    }
}

impl FromSpecImpl<String> for Error {
    open spec fn obeys_from_spec() -> bool {
        true
    }

    open spec fn from_spec(msg: String) -> Error {
        Error::holding(msg)
    }
}

impl<'a> From<&'a str> for Error {
    fn from(msg: &'a str) -> (e: Error)
        ensures
            e@ == msg@,
    {
        Error { msg: msg.to_owned() }
    }
}

/// Two strings of one view are not known to be one value, so `from` on a string slice is
/// stated through the view of its result alone.
impl<'a> FromSpecImpl<&'a str> for Error {
    open spec fn obeys_from_spec() -> bool {
        false
    }

    open spec fn from_spec(msg: &'a str) -> Error {
        arbitrary()
    }
}

} // verus!
