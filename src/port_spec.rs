//! Source descriptors of the form `path[:baud][:alias]`.

use vstd::prelude::*;
use crate::text::{
    char_prefix, find_char, parse_u32, parse_u32_spec, trim, trim_ws,
};

verus! {

/// A descriptor as written: the baud is left open where it is not given.
#[derive(Clone, Debug, PartialEq, Eq)]
pub struct PortSpec {
    pub path: String,
    pub baud: Option<u32>,
    pub alias: Option<String>,
}

/// A descriptor with its baud settled.
#[derive(Clone, Debug, PartialEq, Eq)]
pub struct ResolvedPortSpec {
    pub path: String,
    pub baud: u32,
    pub alias: Option<String>,
}

#[derive(Clone, Debug, PartialEq, Eq)]
pub enum PortSpecParseError {
    EmptySpec,
    MissingPath,
    InvalidBaud { value: String },
}

/// A field between separators: trimmed, and absent where that leaves nothing.
pub open spec fn field(s: Seq<char>) -> Option<Seq<char>> {
    if trim_ws(s).len() == 0 {
        None
    } else {
        Some(trim_ws(s))
    }
}

/// `r` is a descriptor with these views.
pub open spec fn spec_is(
    r: Result<PortSpec, PortSpecParseError>,
    path: Seq<char>,
    baud: Option<u32>,
    alias: Option<Seq<char>>,
) -> bool {
    &&& r is Ok
    &&& r->Ok_0.path@ == path
    &&& r->Ok_0.baud == baud
    &&& match alias {
        Some(a) => r->Ok_0.alias matches Some(x) && x@ == a,
        None => r->Ok_0.alias is None,
    }
}

/// The descriptor text, trimmed.
pub open spec fn raw_of(s: Seq<char>) -> Seq<char> {
    trim_ws(s)
}

/// The path: what stands before the first colon, trimmed.
pub open spec fn path_of(s: Seq<char>) -> Seq<char> {
    let raw = raw_of(s);
    trim_ws(raw.subrange(0, char_prefix(raw, ':') as int))
}

/// What follows the first colon.
pub open spec fn after_path(s: Seq<char>) -> Seq<char> {
    let raw = raw_of(s);
    raw.subrange(char_prefix(raw, ':') + 1int, raw.len() as int)
}

/// The field between the first and the second colon.
pub open spec fn second_of(s: Seq<char>) -> Option<Seq<char>> {
    let raw = raw_of(s);
    let rest = after_path(s);
    if char_prefix(raw, ':') < raw.len() {
        field(rest.subrange(0, char_prefix(rest, ':') as int))
    } else {
        None
    }
}

/// The field after the second colon (colons in it kept).
pub open spec fn third_of(s: Seq<char>) -> Option<Seq<char>> {
    let raw = raw_of(s);
    let rest = after_path(s);
    if char_prefix(raw, ':') < raw.len() && char_prefix(rest, ':') < rest.len() {
        field(rest.subrange(char_prefix(rest, ':') + 1int, rest.len() as int))
    } else {
        None
    }
}

/// The baud given: the second field, where it reads as a `u32`.
pub open spec fn baud_of(s: Seq<char>) -> Option<u32> {
    match second_of(s) {
        Some(x) => parse_u32_spec(x),
        None => None,
    }
}

/// The alias given: the third field; or a lone second field that is no baud.
pub open spec fn alias_of(s: Seq<char>) -> Option<Seq<char>> {
    match (second_of(s), third_of(s)) {
        (Some(x), None) => if parse_u32_spec(x) is Some {
            None
        } else {
            Some(x)
        },
        (_, Some(y)) => Some(y),
        (None, None) => None,
    }
}

/// A second field that must be a baud, because a third follows, and is none.
pub open spec fn bad_baud(s: Seq<char>) -> bool {
    second_of(s) is Some && third_of(s) is Some && baud_of(s) is None
}

/// Parsing `s` fails.
pub open spec fn parse_fails(s: Seq<char>) -> bool {
    raw_of(s).len() == 0 || path_of(s).len() == 0 || bad_baud(s)
}

/// What parsing `s` gives: the first of the errors that applies, else the
/// descriptor with path, baud and alias as above.
pub open spec fn parsed_as(s: Seq<char>, r: Result<PortSpec, PortSpecParseError>) -> bool {
    if raw_of(s).len() == 0 {
        r matches Err(PortSpecParseError::EmptySpec)
    } else if path_of(s).len() == 0 {
        r matches Err(PortSpecParseError::MissingPath)
    } else if bad_baud(s) {
        r matches Err(PortSpecParseError::InvalidBaud { value }) && second_of(s) == Some(value@)
    } else {
        spec_is(r, path_of(s), baud_of(s), alias_of(s))
    }
}

/// The text of the error that parsing `s` fails with.
pub open spec fn parse_failure_text(s: Seq<char>) -> Seq<char> {
    if raw_of(s).len() == 0 {
        "empty port spec"@
    } else if path_of(s).len() == 0 {
        "missing port path"@
    } else {
        "invalid baudrate '"@ + second_of(s)->Some_0 + "'"@
    }
}

/// Trims `s`; `None` where nothing is left.
fn take_field(s: &str) -> (r: Option<String>)
    ensures
        match field(s@) {
            Some(f) => r matches Some(t) && t@ == f,
            None => r is None,
        },
{
    let t = trim(s);
    if t.as_str().is_empty() {
        None
    } else {
        Some(t)
    }
}

impl PortSpec {
    /// Parses `path[:baud][:alias]`.
    pub fn parse(s: &str) -> (r: Result<PortSpec, PortSpecParseError>)
        ensures
            parsed_as(s@, r),
    {
        let raw_s = trim(s);
        let raw = raw_s.as_str();
        let n = raw.unicode_len();
        if n == 0 {
            return Err(PortSpecParseError::EmptySpec);
        }
        let i = find_char(raw, ':');
        let path = trim(raw.substring_char(0, i));
        if path.as_str().is_empty() {
            return Err(PortSpecParseError::MissingPath);
        }
        let mut second: Option<String> = None;
        let mut third: Option<String> = None;
        if i < n {
            let rest = raw.substring_char(i + 1, n);
            let m = rest.unicode_len();
            let j = find_char(rest, ':');
            second = take_field(rest.substring_char(0, j));
            if j < m {
                third = take_field(rest.substring_char(j + 1, m));
            }
        }
        match (second, third) {
            (None, None) => Ok(PortSpec { path, baud: None, alias: None }),
            (Some(x), None) => match parse_u32(x.as_str()) {
                Some(b) => Ok(PortSpec { path, baud: Some(b), alias: None }),
                None => Ok(PortSpec { path, baud: None, alias: Some(x) }),
            },
            (Some(x), Some(y)) => match parse_u32(x.as_str()) {
                Some(b) => Ok(PortSpec { path, baud: Some(b), alias: Some(y) }),
                None => Err(PortSpecParseError::InvalidBaud { value: x }),
            },
            (None, Some(y)) => Ok(PortSpec { path, baud: None, alias: Some(y) }),
        }
    }

    /// Settles the baud: the one given, else `fallback_baud`.
    pub fn resolve(self, fallback_baud: u32) -> (r: ResolvedPortSpec)
        ensures
            r.path == self.path,
            r.alias == self.alias,
            r.baud == match self.baud {
                Some(b) => b,
                None => fallback_baud,
            },
    {
        let baud = match self.baud {
            Some(b) => b,
            None => fallback_baud,
        };
        ResolvedPortSpec { path: self.path, baud, alias: self.alias }
    }
}

impl std::str::FromStr for PortSpec {
    type Err = PortSpecParseError;

    fn from_str(s: &str) -> Result<PortSpec, PortSpecParseError> {
        PortSpec::parse(s)
    }
}

/// The text of a parse error.
pub open spec fn parse_error_text(e: PortSpecParseError) -> Seq<char> {
    match e {
        PortSpecParseError::EmptySpec => "empty port spec"@,
        PortSpecParseError::MissingPath => "missing port path"@,
        PortSpecParseError::InvalidBaud { value } => "invalid baudrate '"@ + value@ + "'"@,
    }
}

impl PortSpecParseError {
    /// The error as text.
    pub fn message(&self) -> (r: String)
        ensures
            r@ == parse_error_text(*self),
    {
        match self {
            PortSpecParseError::EmptySpec => String::from_str("empty port spec"),
            PortSpecParseError::MissingPath => String::from_str("missing port path"),
            PortSpecParseError::InvalidBaud { value } => {
                let mut s = String::from_str("invalid baudrate '");
                s.append(value.as_str());
                s.append("'");
                s
            },
        }
    }
}

} // verus!
