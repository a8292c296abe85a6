//! The rsync flags and options that a target can ask for.
use vstd::prelude::*;

use crate::text::owned;

verus! {

/// A flag of rsync without a value.
#[derive(Debug, PartialEq, Eq, Structural, Clone, Copy)]
pub enum RsyncFlag {
    Recursive,
    IncludeLinks,
    PreservePermissions,
    PreserveModTimes,
    Compress,
    Verbose,
    DeleteAfter,
}

/// How a flag is written on the rsync command line.
pub open spec fn flag_text(f: RsyncFlag) -> Seq<char> {
    match f {
        RsyncFlag::Recursive => "-r"@,
        RsyncFlag::IncludeLinks => "-l"@,
        RsyncFlag::PreservePermissions => "-p"@,
        RsyncFlag::PreserveModTimes => "-t"@,
        RsyncFlag::Compress => "-z"@,
        RsyncFlag::Verbose => "-v"@,
        RsyncFlag::DeleteAfter => "--delete-after"@,
    }
}

impl RsyncFlag {
    pub fn as_cli_arg(&self) -> (r: &'static str)
        ensures
            r@ == flag_text(*self),
    {
        match self {
            RsyncFlag::Recursive => "-r",
            RsyncFlag::IncludeLinks => "-l",
            RsyncFlag::PreservePermissions => "-p",
            RsyncFlag::PreserveModTimes => "-t",
            RsyncFlag::Compress => "-z",
            RsyncFlag::Verbose => "-v",
            RsyncFlag::DeleteAfter => "--delete-after",
        }
    }
}

/// An option of rsync with a value.
#[derive(Debug, PartialEq, Eq, Clone)]
pub enum RsyncOption {
    Exclude(String),
}

/// The arguments that write an option on the rsync command line.
pub open spec fn option_args(o: RsyncOption) -> Seq<Seq<char>> {
    match o {
        RsyncOption::Exclude(x) => seq!["--exclude"@, x@],
    }
}

impl RsyncOption {
    pub fn as_cli_args(&self) -> (r: Vec<String>)
        ensures
            r@.len() == 2,
            r@[0]@ == option_args(*self)[0],
            r@[1]@ == option_args(*self)[1],
    {
        let (name, value) = match self {
            RsyncOption::Exclude(x) => (owned("--exclude"), x.clone()),
        };
        let mut r: Vec<String> = Vec::new();
        r.push(name);
        r.push(value);
        r
    }

    /// A copy of the option, equal to it.
    pub fn duplicate(&self) -> (r: RsyncOption)
        ensures
            r == *self,
    {
        match self {
            RsyncOption::Exclude(x) => RsyncOption::Exclude(x.clone()),
        }
    }
}

} // verus!
