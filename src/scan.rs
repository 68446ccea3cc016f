//! Choosing, among the device names the system lists, the ports to offer.

use vstd::prelude::*;
use crate::error::AppError;
use crate::engine::views;

verus! {

/// Whether `pattern` is a regular expression that the `regex` crate accepts.
pub uninterp spec fn regex_valid_of(pattern: Seq<char>) -> bool;

/// Whether the regular expression `pattern` matches somewhere in `text`.
pub uninterp spec fn regex_match_of(pattern: Seq<char>, text: Seq<char>) -> bool;

/// Relies on regex's `Regex::new`, which fails on a pattern it does not
/// accept (the error rendered as text), and `Regex::is_match`, which tells
/// whether the pattern matches somewhere in the text.
#[verifier::external_body]
fn regex_match(pattern: &str, text: &str) -> (r: Result<bool, String>)
    ensures
        r is Ok <==> regex_valid_of(pattern@),
        r matches Ok(b) ==> b == regex_match_of(pattern@, text@),
{
    match regex::Regex::new(pattern) {
        Ok(re) => Ok(re.is_match(text)),
        Err(e) => Err(e.to_string()),
    }
}

/// Strict lexicographic order on char sequences (that of `String`).
pub open spec fn text_lt(a: Seq<char>, b: Seq<char>) -> bool
    decreases a.len(),
{
    if a.len() == 0 {
        b.len() > 0
    } else if b.len() == 0 {
        false
    } else if a[0] != b[0] {
        (a[0] as u32) < (b[0] as u32)
    } else {
        text_lt(a.drop_first(), b.drop_first())
    }
}

/// Relies on `slice::sort` on strings: the same strings, in ascending order.
#[verifier::external_body]
fn sort_texts(v: &mut Vec<String>)
    ensures
        views(final(v)@).to_multiset() == views(old(v)@).to_multiset(),
        forall|i: int, j: int|
            0 <= i < j < final(v)@.len() ==> !text_lt(
                #[trigger] final(v)@[j]@,
                #[trigger] final(v)@[i]@,
            ),
{
    v.sort();
}

/// The system a program runs on, as far as port names differ.
#[derive(Clone, Copy, Debug, PartialEq, Eq, Structural)]
pub enum HostOs {
    Linux,
    MacOs,
    Windows,
    Other,
}

pub open spec fn linux_port_pattern() -> Seq<char> {
    "/dev/(ttyACM\\d+|ttyUSB\\d+)"@
}

pub open spec fn mac_port_pattern() -> Seq<char> {
    "(?i)(usbserial|usbmodem|jlink)"@
}

pub open spec fn windows_port_pattern() -> Seq<char> {
    "(?i)^COM\\d+$"@
}

pub open spec fn has_prefix(s: Seq<char>, p: Seq<char>) -> bool {
    p.len() <= s.len() && s.subrange(0, p.len() as int) == p
}

/// The regular expression `pat` compiles and matches `name`.
pub open spec fn pattern_hit(pat: Seq<char>, name: Seq<char>) -> bool {
    regex_valid_of(pat) && regex_match_of(pat, name)
}

/// A name of the kind that serial adapters get on `os`.
pub open spec fn system_port(os: HostOs, name: Seq<char>) -> bool {
    match os {
        HostOs::Linux => pattern_hit(linux_port_pattern(), name),
        HostOs::MacOs => (has_prefix(name, "/dev/tty."@) || has_prefix(name, "/dev/cu."@))
            && pattern_hit(mac_port_pattern(), name),
        HostOs::Windows => pattern_hit(windows_port_pattern(), name),
        HostOs::Other => true,
    }
}

/// Whether `s` starts with `p`.
pub fn starts_with(s: &str, p: &str) -> (r: bool)
    ensures
        r == has_prefix(s@, p@),
{
    let n = s.unicode_len();
    let m = p.unicode_len();
    if m > n {
        return false;
    }
    let mut i: usize = 0;
    while i < m
        invariant
            n == s@.len(),
            m == p@.len(),
            m <= n,
            i <= m,
            forall|j: int| 0 <= j < i ==> s@[j] == p@[j],
        decreases m - i,
    {
        if s.get_char(i) != p.get_char(i) {
            assert(s@.subrange(0, m as int)[i as int] != p@[i as int]);
            return false;
        }
        i = i + 1;
    }
    assert(s@.subrange(0, m as int) =~= p@);
    true
}

fn hit(pattern: &str, name: &str) -> (r: bool)
    ensures
        r == pattern_hit(pattern@, name@),
{
    match regex_match(pattern, name) {
        Ok(b) => b,
        Err(_) => false,
    }
}

/// A name of the kind that serial adapters get on `os`: `/dev/ttyACM<n>` or
/// `/dev/ttyUSB<n>` on Linux; a `tty.` or `cu.` device of a USB serial,
/// modem or J-Link adapter on macOS; `COM<n>` on Windows; any name elsewhere.
pub fn is_system_port(name: &str, os: HostOs) -> (r: bool)
    ensures
        r == system_port(os, name@),
{
    proof {
        reveal_strlit("/dev/tty.");
        reveal_strlit("/dev/cu.");
    }
    match os {
        HostOs::Linux => hit("/dev/(ttyACM\\d+|ttyUSB\\d+)", name),
        HostOs::MacOs => {
            if !starts_with(name, "/dev/tty.") && !starts_with(name, "/dev/cu.") {
                return false;
            }
            hit("(?i)(usbserial|usbmodem|jlink)", name)
        },
        HostOs::Windows => hit("(?i)^COM\\d+$", name),
        HostOs::Other => true,
    }
}

/// The test a name passes to be kept: the user pattern, where there is
/// one, matches it; else it is a system port.
pub open spec fn keeper(pattern: Option<String>, os: HostOs) -> spec_fn(Seq<char>) -> bool {
    |n: Seq<char>|
        match pattern {
            Some(p) => regex_match_of(p@, n),
            None => system_port(os, n),
        }
}

/// The names kept: those the user pattern matches, or, without one, the
/// system ports of `os`; sorted. A pattern that does not compile is an error.
pub fn select_ports(names: Vec<String>, pattern: Option<String>, os: HostOs) -> (r: Result<
    Vec<String>,
    AppError,
>)
    ensures
        (pattern matches Some(p) && !regex_valid_of(p@)) ==> r matches Err(AppError::Scan(_)),
        !(pattern matches Some(p) && !regex_valid_of(p@)) ==> (r matches Ok(v) && ({
            &&& views(v@).to_multiset() == views(names@).filter(keeper(pattern, os)).to_multiset()
            &&& forall|i: int, j: int|
                0 <= i < j < v@.len() ==> !text_lt(#[trigger] v@[j]@, #[trigger] v@[i]@)
        })),
{
    match &pattern {
        Some(p) => {
            match regex_match(p.as_str(), "") {
                Ok(_) => {},
                Err(e) => {
                    return Err(AppError::Scan(e));
                },
            }
        },
        None => {},
    }
    let ghost keep = keeper(pattern, os);
    let mut kept: Vec<String> = Vec::new();
    let mut i: usize = 0;
    while i < names.len()
        invariant
            i <= names@.len(),
            (pattern matches Some(p) ==> regex_valid_of(p@)),
            keep == keeper(pattern, os),
            views(kept@) == views(names@).subrange(0, i as int).filter(keep),
        decreases names@.len() - i,
    {
        let name = &names[i];
        let k = match &pattern {
            Some(p) => match regex_match(p.as_str(), name.as_str()) {
                Ok(b) => b,
                Err(_) => false,
            },
            None => is_system_port(name.as_str(), os),
        };
        proof {
            let pre = views(names@).subrange(0, i + 1);
            assert(pre.drop_last() =~= views(names@).subrange(0, i as int));
            assert(pre.last() == names@[i as int]@);
            assert(keep(names@[i as int]@) == k);
            reveal(Seq::filter);
            assert(pre.filter(keep) == if keep(pre.last()) {
                pre.drop_last().filter(keep).push(pre.last())
            } else {
                pre.drop_last().filter(keep)
            });
        }
        let ghost before = kept@;
        if k {
            kept.push(name.clone());
            assert(views(kept@) =~= views(before).push(names@[i as int]@));
        }
        i = i + 1;
    }
    assert(views(names@).subrange(0, i as int) =~= views(names@));
    sort_texts(&mut kept);
    Ok(kept)
}

} // verus!
