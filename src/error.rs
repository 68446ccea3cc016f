//! Errors that stop the program before the pipeline starts.

use vstd::prelude::*;

verus! {

#[derive(Clone, Debug, PartialEq, Eq)]
pub enum AppError {
    Config(String),
    NoPortsFound,
    PortInvalidFormat(String),
    Runtime(String),
    Scan(String),
}

/// The text of an error.
pub open spec fn error_text(e: AppError) -> Seq<char> {
    match e {
        AppError::Config(m) => "config error: "@ + m@,
        AppError::NoPortsFound => "no ports specified"@,
        AppError::PortInvalidFormat(m) => "invalid port format: "@ + m@,
        AppError::Runtime(m) => "runtime error: "@ + m@,
        AppError::Scan(m) => "scan error: "@ + m@,
    }
}

fn prefixed(prefix: &str, m: &String) -> (r: String)
    ensures
        r@ == prefix@ + m@,
{
    let mut s = String::from_str(prefix);
    s.append(m.as_str());
    s
}

impl AppError {
    /// The error as text.
    pub fn message(&self) -> (r: String)
        ensures
            r@ == error_text(*self),
    {
        match self {
            AppError::Config(m) => prefixed("config error: ", m),
            AppError::NoPortsFound => String::from_str("no ports specified"),
            AppError::PortInvalidFormat(m) => prefixed("invalid port format: ", m),
            AppError::Runtime(m) => prefixed("runtime error: ", m),
            AppError::Scan(m) => prefixed("scan error: ", m),
        }
    }
}

} // verus!
