use crate::android_audio::{sl_error_text, SlError};
use vstd::prelude::*;

verus! {

/// What went wrong, with the context that callers report.
#[derive(Debug)]
pub enum ErrorRepr {
    WrongArgument(String),
    WrongState(String),
    NullPointer(String),
    /// An I/O failure: its description and the file or socket it concerns.
    Io(String, String),
    /// A failure of the platform audio backend.
    SlError(SlError),
    /// An address that could not be parsed: the parser's description and the address.
    NetParse(String, String),
    LockPoison(String),
    Codec(String),
    Binding(String),
}

/// The error type of the library.
#[derive(Debug)]
pub struct Error {
    pub repr: Box<ErrorRepr>,
}

impl Error {
    pub fn new_wrong_argument(description: String) -> (r: Self)
        ensures
            *r.repr == ErrorRepr::WrongArgument(description),
    {
        Error { repr: Box::new(ErrorRepr::WrongArgument(description)) }
    }

    pub fn new_wrong_state(description: String) -> (r: Self)
        ensures
            *r.repr == ErrorRepr::WrongState(description),
    {
        Error { repr: Box::new(ErrorRepr::WrongState(description)) }
    }

    pub fn new_null_ptr(description: String) -> (r: Self)
        ensures
            *r.repr == ErrorRepr::NullPointer(description),
    {
        Error { repr: Box::new(ErrorRepr::NullPointer(description)) }
    }

    pub fn new_io(description: String, f_name: String) -> (r: Self)
        ensures
            *r.repr == ErrorRepr::Io(description, f_name),
    {
        Error { repr: Box::new(ErrorRepr::Io(description, f_name)) }
    }

    pub fn new_net_parse(description: String, addr: String) -> (r: Self)
        ensures
            *r.repr == ErrorRepr::NetParse(description, addr),
    {
        Error { repr: Box::new(ErrorRepr::NetParse(description, addr)) }
    }

    /// True for the error that marks a missing or null session handle.
    pub fn is_null_ptr(&self) -> (r: bool)
        ensures
            r == (*self.repr is NullPointer),
    {
        match &*self.repr {
            ErrorRepr::NullPointer(_) => true,
            _ => false,
        }
    }

    /// The message that describes this error.
    pub fn to_string(&self) -> (r: String)
        ensures
            r@ == error_text(*self.repr),
    {
        match &*self.repr {
            ErrorRepr::WrongArgument(s) => String::from_str("Wrong argument: ").concat(s.as_str()),
            ErrorRepr::WrongState(s) => String::from_str("Wrong state: ").concat(s.as_str()),
            ErrorRepr::NullPointer(s) => String::from_str("Null Pointer: ").concat(s.as_str()),
            ErrorRepr::Io(e, f_name) => {
                let s = e.clone();
                if f_name.as_str().is_empty() {
                    s
                } else {
                    s.concat(". File name: ").concat(f_name.as_str())
                }
            },
            ErrorRepr::SlError(e) => e.to_string(),
            ErrorRepr::NetParse(e, addr) => e.clone().concat(" of ").concat(addr.as_str()),
            ErrorRepr::LockPoison(s) => s.clone(),
            ErrorRepr::Codec(s) => s.clone(),
            ErrorRepr::Binding(s) => s.clone(),
        }
    }
}

/// The message that describes an error.
pub open spec fn error_text(repr: ErrorRepr) -> Seq<char> {
    match repr {
        ErrorRepr::WrongArgument(s) => "Wrong argument: "@ + s@,
        ErrorRepr::WrongState(s) => "Wrong state: "@ + s@,
        ErrorRepr::NullPointer(s) => "Null Pointer: "@ + s@,
        ErrorRepr::Io(e, f_name) => if f_name@.len() == 0 {
            e@
        } else {
            e@ + ". File name: "@ + f_name@
        },
        ErrorRepr::SlError(e) => sl_error_text(e.repr),
        ErrorRepr::NetParse(e, addr) => e@ + " of "@ + addr@,
        ErrorRepr::LockPoison(s) => s@,
        ErrorRepr::Codec(s) => s@,
        ErrorRepr::Binding(s) => s@,
    }
}

impl From<SlError> for Error {
    fn from(e: SlError) -> Self {
        Error { repr: Box::new(ErrorRepr::SlError(e)) }
    }
}

impl vstd::std_specs::convert::FromSpecImpl<SlError> for Error {
    open spec fn obeys_from_spec() -> bool {
        true
    }

    open spec fn from_spec(e: SlError) -> Self {
        Error { repr: Box::new(ErrorRepr::SlError(e)) }
    }
}

} // verus!
