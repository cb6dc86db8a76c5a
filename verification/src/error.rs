use vstd::prelude::*;
use crate::text::{decimal, push_decimal};

verus! {

/// Result type used across the library.
pub type Result<T, E = Error> = std::result::Result<T, E>;

/// Errors produced by the library.
///
/// `Io` and `Other` carry the text of the underlying error.
#[derive(Debug, Clone)]
pub enum Error {
    Nex { result_code: i32, message: String },
    Io(String),
    Timeout,
    Other(String),
}

/// `e` is a NEX error with the given result code and message text.
pub open spec fn is_nex_error(e: Error, code: int, msg: Seq<char>) -> bool {
    &&& e matches Error::Nex { result_code, message }
    &&& result_code == code
    &&& message@ == msg
}

/// The text of an integer: a minus sign before the digits of a negative one.
pub open spec fn int_text(v: int) -> Seq<char> {
    if v < 0 {
        seq!['-'] + decimal((-v) as nat)
    } else {
        decimal(v as nat)
    }
}

/// The text of an error: the message then the code in brackets for a NEX
/// error, "IO error: " then the text for an I/O error, "Timeout", and the
/// text itself for any other error.
pub open spec fn error_text(e: Error) -> Seq<char> {
    match e {
        Error::Nex { result_code, message } => message@ + " (code: "@ + int_text(result_code as int) + ")"@,
        Error::Io(text) => "IO error: "@ + text@,
        Error::Timeout => "Timeout"@,
        Error::Other(text) => text@,
    }
}

impl Error {
    /// Builds a NEX error from a result code and a message.
    pub fn new(result_code: i32, message: &str) -> (e: Error)
        ensures
            is_nex_error(e, result_code as int, message@),
    {
        Error::Nex { result_code, message: String::from_str(message) }
    }

    /// The text of the error (see `error_text`).
    pub fn to_string(&self) -> (t: String)
        ensures
            t@ == error_text(*self),
    {
        match self {
            Error::Nex { result_code, message } => {
                let mut t = message.clone();
                t.append(" (code: ");
                let code = *result_code;
                if code < 0 {
                    t.append("-");
                    let magnitude: u32 = (0i64 - code as i64) as u32;
                    push_decimal(&mut t, magnitude);
                } else {
                    push_decimal(&mut t, code as u32);
                }
                t.append(")");
                proof {
                    reveal_strlit(" (code: ");
                    reveal_strlit("-");
                    reveal_strlit(")");
                    assert(t@ =~= error_text(*self));
                }
                t
            },
            Error::Io(text) => {
                let mut t = String::from_str("IO error: ");
                t.append(text.as_str());
                t
            },
            Error::Timeout => String::from_str("Timeout"),
            Error::Other(text) => text.clone(),
        }
    }

    /// The NEX result code, `None` for the other kinds of error.
    pub fn result_code(&self) -> (r: Option<i32>)
        ensures
            r == (match self {
                Error::Nex { result_code, .. } => Some(*result_code),
                _ => None,
            }),
    {
        match self {
            Error::Nex { result_code, .. } => Some(*result_code),
            _ => None,
        }
    }
}

} // verus!
