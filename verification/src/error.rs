//! How a call of the module can fail.

use vstd::prelude::*;

verus! {

/// The class of an exception that the module raises.
#[derive(Clone, Copy, PartialEq, Eq, Structural, Debug)]
pub enum ExceptionClass {
    /// `zlib.error`: the data or the stream is at fault.
    ZlibError,
    /// `ValueError`: an argument is at fault.
    ValueError,
}

/// An exception: its class and its message.
#[derive(Debug)]
pub struct Exception {
    pub class: ExceptionClass,
    pub message: String,
}

/// The outcome of a call that does not return a value.
#[derive(Debug)]
pub enum Failure {
    /// An exception that the caller may handle.
    Raised(Exception),
    /// A length or a counter would exceed its limit. Not to be recovered from.
    Overflow,
    /// The call would never end, for want of room. Not to be recovered from.
    Stuck,
}

impl Exception {
    /// The exception has this class and this message.
    pub open spec fn says(self, class: ExceptionClass, message: Seq<char>) -> bool {
        self.class == class && self.message@ == message
    }
}

impl Failure {
    /// The failure is an exception with this class and this message.
    pub open spec fn raises(self, class: ExceptionClass, message: Seq<char>) -> bool {
        self is Raised && self->Raised_0.says(class, message)
    }
}

/// The class of the exceptions that are raised as `zlib.error`: its module, its
/// name, and the class that it is derived from.
pub fn error_class() -> (r: (&'static str, &'static str, &'static str))
    ensures
        r.0@ == "zlib"@,
        r.1@ == "error"@,
        r.2@ == "Exception"@,
        r.2@ != "ValueError"@,
{
    proof {
        reveal_strlit("Exception");
        reveal_strlit("ValueError");
    }
    ("zlib", "error", "Exception")
}

/// A `zlib.error` with the given message.
pub fn zlib_error(message: &str) -> (e: Exception)
    ensures
        e.says(ExceptionClass::ZlibError, message@),
        e.class == ExceptionClass::ZlibError,
        e.message@ == message@,
{
    Exception { class: ExceptionClass::ZlibError, message: message.to_owned() }
}

/// A `ValueError` with the given message.
pub fn value_error(message: &str) -> (e: Exception)
    ensures
        e.says(ExceptionClass::ValueError, message@),
        e.class == ExceptionClass::ValueError,
        e.message@ == message@,
{
    Exception { class: ExceptionClass::ValueError, message: message.to_owned() }
}

} // verus!
