//! Command-line arguments of the two servers: the workspace root and the port.

use vstd::prelude::*;
use crate::text::{parse_usize, parsed_usize};

verus! {

/// The workspace root: the first argument, else the current directory `.`.
pub fn workspace_arg(first: Option<String>) -> (r: String)
    ensures
        match first {
            Some(a) => r == a,
            None => r@ == "."@,
        },
{
    match first {
        Some(a) => a,
        None => String::from_str("."),
    }
}

/// What `s.parse::<u16>()` gives.
pub open spec fn parsed_port(s: Seq<char>) -> Option<u16> {
    match parsed_usize(s) {
        Some(n) => if n <= u16::MAX { Some(n as u16) } else { None },
        None => None,
    }
}

/// The HTTP port: the second argument when it reads as a port number, else 3000.
pub fn port_arg(second: Option<&str>) -> (r: u16)
    ensures
        r == match second {
            Some(s) => match parsed_port(s@) {
                Some(p) => p,
                None => 3000u16,
            },
            None => 3000u16,
        },
{
    match second {
        Some(s) => match parse_usize(s) {
            Some(n) => if n <= 65535 { n as u16 } else { 3000 },
            None => 3000,
        },
        None => 3000,
    }
}

} // verus!
