//! The architecture filter that the queries accept.

use vstd::prelude::*;
use vstd::string::StringExecFns;
use crate::text::{chars_equal, chars_of, lower_of, lowercase};

verus! {

/// Which machine types a query reports.
#[allow(non_camel_case_types, clippy::upper_case_acronyms)]
#[derive(Clone, Copy, Debug, PartialEq, Eq, Structural)]
pub enum ARCH {
    X64,
    X86,
    All,
}

/// The filter that a lower-cased name selects.
pub open spec fn arch_of_name(s: Seq<char>) -> Option<ARCH> {
    if s == seq!['x', '6', '4'] {
        Some(ARCH::X64)
    } else if s == seq!['x', '8', '6'] {
        Some(ARCH::X86)
    } else if s == seq!['a', 'l', 'l'] {
        Some(ARCH::All)
    } else {
        None
    }
}

impl ARCH {
    /// The filter named by an already lower-cased `s`: `x64`, `x86` or `all`.
    pub fn arch_from_lower(s: &str) -> (r: Option<ARCH>)
        ensures
            r == arch_of_name(s@),
    {
        let cs = chars_of(s);
        let x64: [char; 3] = ['x', '6', '4'];
        let x86: [char; 3] = ['x', '8', '6'];
        let all: [char; 3] = ['a', 'l', 'l'];
        assert(x64@ =~= seq!['x', '6', '4']);
        assert(x86@ =~= seq!['x', '8', '6']);
        assert(all@ =~= seq!['a', 'l', 'l']);
        if chars_equal(&cs, &x64) {
            Some(ARCH::X64)
        } else if chars_equal(&cs, &x86) {
            Some(ARCH::X86)
        } else if chars_equal(&cs, &all) {
            Some(ARCH::All)
        } else {
            None
        }
    }

    /// Reads `x64`, `x86` or `all`, in any letter case.
    pub fn parse(input: &str) -> (r: Result<ARCH, String>)
        ensures
            match r {
                Ok(a) => arch_of_name(lower_of(input@)) == Some(a),
                Err(m) => arch_of_name(lower_of(input@)) is None && m@ == "Invalid arch: "@
                    + input@,
            },
    {
        let lower = lowercase(input);
        match ARCH::arch_from_lower(lower.as_str()) {
            Some(a) => Ok(a),
            None => {
                let mut m = String::from_str("Invalid arch: ");
                m.append(input);
                Err(m)
            },
        }
    }
}

impl std::str::FromStr for ARCH {
    type Err = String;

    fn from_str(input: &str) -> Result<Self, Self::Err> {
        ARCH::parse(input)
    }
}

} // verus!
