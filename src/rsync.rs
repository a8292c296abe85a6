//! The argument list of an rsync run.
use vstd::prelude::*;

use crate::rsync_cli::{flag_text, option_args, RsyncFlag, RsyncOption};
use crate::ssh::{shell_text, SSHShell};
use crate::text::{owned, strings_view};

verus! {

/// The text of an optional piece of text.
pub open spec fn opt_view(o: Option<&str>) -> Option<Seq<char>> {
    match o {
        Some(s) => Some(s@),
        None => None,
    }
}

/// The arguments of the options, one after another.
pub open spec fn options_args(opts: Seq<RsyncOption>) -> Seq<Seq<char>>
    decreases opts.len(),
{
    if opts.len() == 0 {
        Seq::empty()
    } else {
        options_args(opts.drop_last()) + option_args(opts.last())
    }
}

/// The remote host as "user@host", "user", "host" or nothing, after what is
/// given.
pub open spec fn host_text(host: Option<Seq<char>>, user: Option<Seq<char>>) -> Seq<char> {
    match (user, host) {
        (Some(u), Some(h)) => u + "@"@ + h,
        (Some(u), None) => u,
        (None, Some(h)) => h,
        (None, None) => Seq::empty(),
    }
}

/// The destination argument: the directory alone when there is no host
/// text, else "host:directory".
pub open spec fn destination_text(dst: Seq<char>, host: Option<Seq<char>>, user: Option<Seq<char>>) -> Seq<char> {
    let h = host_text(host, user);
    if h.len() == 0 {
        dst
    } else {
        h + ":"@ + dst
    }
}

/// The rsync arguments: the flags, then "-e" and the shell when there is
/// one, then the options, then the source and the destination.
pub open spec fn command_text(
    src: Seq<char>,
    dst: Seq<char>,
    host: Option<Seq<char>>,
    user: Option<Seq<char>>,
    shell: Option<Seq<crate::ssh::SSHOption>>,
    flags: Seq<RsyncFlag>,
    options: Seq<RsyncOption>,
) -> Seq<Seq<char>> {
    flags.map_values(|f: RsyncFlag| flag_text(f)) + match shell {
        Some(o) => seq!["-e"@, shell_text(o)],
        None => Seq::empty(),
    } + options_args(options) + seq![src, destination_text(dst, host, user)]
}

/// The text of an optional shell.
pub open spec fn shell_view(shell: Option<&SSHShell>) -> Option<Seq<crate::ssh::SSHOption>> {
    match shell {
        Some(s) => Some(s.options@),
        None => None,
    }
}

fn host_string(host: Option<&str>, user: Option<&str>) -> (r: String)
    ensures
        r@ == host_text(opt_view(host), opt_view(user)),
{
    match (user, host) {
        (Some(u), Some(h)) => {
            let mut r = owned(u);
            r.append("@");
            r.append(h);
            r
        },
        (Some(u), None) => owned(u),
        (None, Some(h)) => owned(h),
        (None, None) => String::new(),
    }
}

/// The arguments that rsync is run with, to copy `src` to `dst` on
/// `dst_host` (as `dst_host_user`) through `shell`.
pub fn command(
    src: &str,
    dst: &str,
    dst_host: Option<&str>,
    dst_host_user: Option<&str>,
    shell: Option<&SSHShell>,
    flags: &[RsyncFlag],
    options: &[RsyncOption],
) -> (r: Vec<String>)
    ensures
        strings_view(r@) == command_text(
            src@,
            dst@,
            opt_view(dst_host),
            opt_view(dst_host_user),
            shell_view(shell),
            flags@,
            options@,
        ),
{
    let ghost flag_part = flags@.map_values(|f: RsyncFlag| flag_text(f));
    let mut r: Vec<String> = Vec::new();
    let mut i: usize = 0;
    while i < flags.len()
        invariant
            i <= flags@.len(),
            flag_part == flags@.map_values(|f: RsyncFlag| flag_text(f)),
            strings_view(r@) == flag_part.take(i as int),
        decreases flags@.len() - i,
    {
        let ghost before = r@;
        r.push(owned(flags[i].as_cli_arg()));
        proof {
            assert(strings_view(r@) =~= strings_view(before).push(flag_part[i as int]));
            assert(flag_part.take(i + 1) =~= flag_part.take(i as int).push(flag_part[i as int]));
        }
        i += 1;
    }
    assert(flag_part.take(flags@.len() as int) =~= flag_part);
    let ghost shell_part = match shell_view(shell) {
        Some(o) => seq!["-e"@, shell_text(o)],
        None => Seq::<Seq<char>>::empty(),
    };
    match shell {
        Some(sh) => {
            r.push(owned("-e"));
            r.push(sh.as_arg());
        },
        None => {},
    }
    assert(strings_view(r@) =~= flag_part + shell_part);
    let ghost head = flag_part + shell_part;
    let mut k: usize = 0;
    while k < options.len()
        invariant
            k <= options@.len(),
            strings_view(r@) == head + options_args(options@.take(k as int)),
        decreases options@.len() - k,
    {
        let ghost before = r@;
        let args = options[k].as_cli_args();
        r.push(args[0].clone());
        r.push(args[1].clone());
        proof {
            let t = options@.take(k + 1);
            assert(t.drop_last() =~= options@.take(k as int));
            assert(strings_view(r@) =~= strings_view(before) + option_args(options@[k as int]));
        }
        k += 1;
    }
    assert(options@.take(options@.len() as int) =~= options@);
    let ghost before_tail = r@;
    r.push(owned(src));
    let host = host_string(dst_host, dst_host_user);
    if host.unicode_len() == 0 {
        r.push(owned(dst));
    } else {
        let mut d = host;
        d.append(":");
        d.append(dst);
        r.push(d);
    }
    assert(strings_view(r@) =~= strings_view(before_tail) + seq![src@, destination_text(dst@, opt_view(dst_host), opt_view(dst_host_user))]);
    r
}

} // verus!
