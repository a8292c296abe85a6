//! Options of the ssh shell that rsync runs through.
use vstd::prelude::*;

use crate::text::{bool_string, bool_text, i32_text, int_text, join, join_strings, owned, strings_view};

verus! {

/// One ssh option, with its value.
#[derive(Debug, PartialEq, Eq, Clone)]
pub enum SSHOption {
    PasswordAuthentication(bool),
    ServerAliveInterval(i32),
    ServerAliveCountMax(i32),
    ConnectTimeout(i32),
    ControlMaster(String),
    ControlPersist(String),
    ControlPath(String),
    IdentityFile(String),
}

/// How an option is written on the ssh command line.
pub open spec fn option_text(o: SSHOption) -> Seq<char> {
    match o {
        SSHOption::PasswordAuthentication(v) => "-o PasswordAuthentication="@ + bool_text(v),
        SSHOption::ServerAliveInterval(v) => "-o ServerAliveInterval="@ + int_text(v as int),
        SSHOption::ServerAliveCountMax(v) => "-o ServerAliveCountMax="@ + int_text(v as int),
        SSHOption::ConnectTimeout(v) => "-o ConnectTimeout="@ + int_text(v as int),
        SSHOption::ControlMaster(v) => "-o ControlMaster="@ + v@,
        SSHOption::ControlPersist(v) => "-o ControlPersist="@ + v@,
        SSHOption::ControlPath(v) => "-o ControlPath="@ + v@,
        SSHOption::IdentityFile(v) => "-i "@ + v@,
    }
}

/// The command-line writing of each option, in order.
pub open spec fn options_texts(opts: Seq<SSHOption>) -> Seq<Seq<char>> {
    opts.map_values(|o: SSHOption| option_text(o))
}

/// The shell argument: "ssh -o " and then the options joined by " -o ".
pub open spec fn shell_text(opts: Seq<SSHOption>) -> Seq<char> {
    "ssh -o "@ + join(options_texts(opts), " -o "@)
}

impl SSHOption {
    /// The option as written on the ssh command line.
    pub fn as_cli_opt(&self) -> (r: String)
        ensures
            r@ == option_text(*self),
    {
        let (mut head, value) = match self {
            SSHOption::PasswordAuthentication(v) => (owned("-o PasswordAuthentication="), bool_string(*v)),
            SSHOption::ServerAliveInterval(v) => (owned("-o ServerAliveInterval="), i32_text(*v)),
            SSHOption::ServerAliveCountMax(v) => (owned("-o ServerAliveCountMax="), i32_text(*v)),
            SSHOption::ConnectTimeout(v) => (owned("-o ConnectTimeout="), i32_text(*v)),
            SSHOption::ControlMaster(v) => (owned("-o ControlMaster="), v.clone()),
            SSHOption::ControlPersist(v) => (owned("-o ControlPersist="), v.clone()),
            SSHOption::ControlPath(v) => (owned("-o ControlPath="), v.clone()),
            SSHOption::IdentityFile(v) => (owned("-i "), v.clone()),
        };
        head.append(value.as_str());
        head
    }

    /// A copy of the option, equal to it.
    pub fn duplicate(&self) -> (r: SSHOption)
        ensures
            r == *self,
    {
        match self {
            SSHOption::PasswordAuthentication(v) => SSHOption::PasswordAuthentication(*v),
            SSHOption::ServerAliveInterval(v) => SSHOption::ServerAliveInterval(*v),
            SSHOption::ServerAliveCountMax(v) => SSHOption::ServerAliveCountMax(*v),
            SSHOption::ConnectTimeout(v) => SSHOption::ConnectTimeout(*v),
            SSHOption::ControlMaster(v) => SSHOption::ControlMaster(v.clone()),
            SSHOption::ControlPersist(v) => SSHOption::ControlPersist(v.clone()),
            SSHOption::ControlPath(v) => SSHOption::ControlPath(v.clone()),
            SSHOption::IdentityFile(v) => SSHOption::IdentityFile(v.clone()),
        }
    }
}

/// A copy of a list of options, equal to it.
pub fn duplicate_options(opts: &Vec<SSHOption>) -> (r: Vec<SSHOption>)
    ensures
        r@ == opts@,
{
    let mut r: Vec<SSHOption> = Vec::new();
    let mut i: usize = 0;
    while i < opts.len()
        invariant
            i <= opts@.len(),
            r@ == opts@.take(i as int),
        decreases opts@.len() - i,
    {
        r.push(opts[i].duplicate());
        assert(opts@.take(i + 1) =~= opts@.take(i as int).push(opts@[i as int]));
        i += 1;
    }
    assert(opts@.take(opts@.len() as int) =~= opts@);
    r
}

/// The ssh shell that rsync is told to use.
#[derive(Debug, Clone)]
pub struct SSHShell {
    pub options: Vec<SSHOption>,
}

impl SSHShell {
    pub fn new(options: Vec<SSHOption>) -> (r: Self)
        ensures
            r.options@ == options@,
    {
        SSHShell { options }
    }

    /// The shell as one rsync argument: "ssh -o " followed by the options,
    /// joined by " -o ".
    pub fn as_arg(&self) -> (r: String)
        ensures
            r@ == shell_text(self.options@),
    {
        let mut texts: Vec<String> = Vec::new();
        let mut i: usize = 0;
        while i < self.options.len()
            invariant
                i <= self.options@.len(),
                texts@.len() == i,
                strings_view(texts@) == options_texts(self.options@).take(i as int),
            decreases self.options@.len() - i,
        {
            let t = self.options[i].as_cli_opt();
            let ghost before = texts@;
            texts.push(t);
            proof {
                let all = options_texts(self.options@);
                assert forall|j: int| 0 <= j < i + 1 implies #[trigger] strings_view(texts@)[j]
                    == all.take(i + 1)[j] by {
                    if j < i {
                        assert(strings_view(before)[j] == all.take(i as int)[j]);
                        assert(texts@[j] == before[j]);
                    }
                }
                assert(strings_view(texts@) =~= all.take(i + 1));
            }
            i += 1;
        }
        assert(options_texts(self.options@).take(self.options@.len() as int) =~= options_texts(
            self.options@,
        ));
        let joined = join_strings(&texts, " -o ");
        let mut r = owned("ssh -o ");
        r.append(joined.as_str());
        r
    }
}

} // verus!
