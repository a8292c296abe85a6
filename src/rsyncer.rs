//! An rsync target, and how its settings are merged from the global and the
//! workspace scopes.
use rand::Rng;
use vstd::prelude::*;

use crate::config::ConfigError;
use crate::paths::{join_path, join_path_string};
use crate::rsync::{command, command_text, opt_view};
use crate::rsync_cli::{RsyncFlag, RsyncOption};
use crate::ssh::{duplicate_options, SSHOption, SSHShell};
use crate::text::{owned, same_text, strings_view};

verus! {

/// An rsync run to one destination, with its flags, options and shell.
#[derive(Debug, Clone)]
pub struct Rsyncer {
    pub dst_dir: String,
    pub dst_host: Option<String>,
    pub flags: Vec<RsyncFlag>,
    pub options: Vec<RsyncOption>,
    pub shell: Option<SSHShell>,
}

/// The items of an optional list; none when it is absent.
pub open spec fn items<T>(o: Option<Vec<T>>) -> Seq<T> {
    match o {
        Some(v) => v@,
        None => Seq::empty(),
    }
}

/// The items of an optional list, the absence kept.
pub open spec fn opt_items<T>(o: Option<Vec<T>>) -> Option<Seq<T>> {
    match o {
        Some(v) => Some(v@),
        None => None,
    }
}

/// The text of an optional string.
pub open spec fn opt_string(o: Option<String>) -> Option<Seq<char>> {
    match o {
        Some(s) => Some(s@),
        None => None,
    }
}

/// The shell options as given: none when there is no shell.
pub open spec fn opt_shell(o: Option<SSHShell>) -> Option<Seq<SSHOption>> {
    match o {
        Some(s) => Some(s.options@),
        None => None,
    }
}

impl Rsyncer {
    pub fn new(
        dst_dir: &str,
        dst_host: Option<&str>,
        flags: &[RsyncFlag],
        options: &[RsyncOption],
        shell: Option<SSHShell>,
    ) -> (r: Self)
        ensures
            r.dst_dir@ == dst_dir@,
            opt_string(r.dst_host) == opt_view(dst_host),
            r.flags@ == flags@,
            r.options@ == options@,
            r.shell == shell,
    {
        let mut fs: Vec<RsyncFlag> = Vec::new();
        let mut i: usize = 0;
        while i < flags.len()
            invariant
                i <= flags@.len(),
                fs@ == flags@.take(i as int),
            decreases flags@.len() - i,
        {
            fs.push(flags[i]);
            assert(flags@.take(i + 1) =~= flags@.take(i as int).push(flags@[i as int]));
            i += 1;
        }
        assert(flags@.take(flags@.len() as int) =~= flags@);
        let mut os: Vec<RsyncOption> = Vec::new();
        let mut k: usize = 0;
        while k < options.len()
            invariant
                k <= options@.len(),
                os@ == options@.take(k as int),
            decreases options@.len() - k,
        {
            os.push(options[k].duplicate());
            assert(options@.take(k + 1) =~= options@.take(k as int).push(options@[k as int]));
            k += 1;
        }
        assert(options@.take(options@.len() as int) =~= options@);
        let host = match dst_host {
            Some(h) => Some(owned(h)),
            None => None,
        };
        Rsyncer { dst_dir: owned(dst_dir), dst_host: host, flags: fs, options: os, shell }
    }

    /// The rsync arguments that copy the workspace at `workspace_path` to
    /// this target.
    pub fn command_args(&self, workspace_path: &str) -> (r: Vec<String>)
        ensures
            strings_view(r@) == command_text(
                workspace_path@,
                self.dst_dir@,
                opt_string(self.dst_host),
                None,
                opt_shell(self.shell),
                self.flags@,
                self.options@,
            ),
    {
        let host: Option<&str> = match &self.dst_host {
            Some(h) => Some(h.as_str()),
            None => None,
        };
        let shell: Option<&SSHShell> = match &self.shell {
            Some(s) => Some(s),
            None => None,
        };
        command(
            workspace_path,
            self.dst_dir.as_str(),
            host,
            None,
            shell,
            self.flags.as_slice(),
            self.options.as_slice(),
        )
    }
}

/// The ssh options of the global scope.
#[derive(Debug, PartialEq, Eq, Clone)]
pub struct SSHProperties {
    pub options: Option<Vec<SSHOption>>,
}

/// The ssh options that a workspace adds.
#[derive(Debug, PartialEq, Eq, Clone)]
pub struct SSHAdditionalProperties {
    pub additional_options: Option<Vec<SSHOption>>,
}

/// The ssh options after merging: with nothing added, the global ones;
/// else the added ones first, then the global ones, absent only when both are.
pub open spec fn merged_options(
    global: Option<Seq<SSHOption>>,
    added: Option<Option<Seq<SSHOption>>>,
) -> Option<Seq<SSHOption>> {
    match added {
        Some(Some(x)) => match global {
            Some(g) => Some(x + g),
            None => Some(x),
        },
        _ => global,
    }
}

/// The added ssh options of an optional workspace block, its absence kept.
pub open spec fn added_options(a: Option<SSHAdditionalProperties>) -> Option<Option<Seq<SSHOption>>> {
    match a {
        Some(p) => Some(opt_items(p.additional_options)),
        None => None,
    }
}

/// The placeholder value of a control path, that asks for a fresh one.
pub open spec fn is_generate(o: SSHOption) -> bool {
    match o {
        SSHOption::ControlPath(p) => p@ == "GENERATE"@,
        _ => false,
    }
}

pub open spec fn is_alphanumeric(c: char) -> bool {
    ('A' <= c && c <= 'Z') || ('a' <= c && c <= 'z') || ('0' <= c && c <= '9')
}

/// A session identifier: seven letters or digits.
pub open spec fn is_session_id(id: Seq<char>) -> bool {
    id.len() == 7 && forall|i: int| 0 <= i < 7 ==> is_alphanumeric(#[trigger] id[i])
}

/// The control path of a session under a home directory:
/// `<home>/.ssh/rust-dev-sync-<session id>`.
pub open spec fn control_path_text(home: Seq<char>, session_id: Seq<char>) -> Seq<char> {
    join_path(join_path(home, ".ssh"@), "rust-dev-sync-"@ + session_id)
}

/// How many options before position `i` ask for a fresh control path.
pub open spec fn generates_before(opts: Seq<SSHOption>, i: int) -> nat
    decreases i,
{
    if i <= 0 {
        0
    } else {
        generates_before(opts, i - 1) + if is_generate(opts[i - 1]) {
            1nat
        } else {
            0nat
        }
    }
}

/// `out` is `orig`, but where `orig` asks for a fresh control path: there
/// `out` is the control path `path`.
pub open spec fn filled_option(orig: SSHOption, out: SSHOption, path: Seq<char>) -> bool {
    if is_generate(orig) {
        match out {
            SSHOption::ControlPath(p) => p@ == path,
            _ => false,
        }
    } else {
        out == orig
    }
}

/// `out` is `orig` with the placeholder control paths filled in order: the
/// `k`-th one becomes the control path of session `ids[k]` under `home`.
pub open spec fn filled_options(
    orig: Seq<SSHOption>,
    out: Seq<SSHOption>,
    home: Seq<char>,
    ids: Seq<Seq<char>>,
) -> bool {
    &&& out.len() == orig.len()
    &&& forall|i: int|
        0 <= i < orig.len() ==> filled_option(
            #[trigger] orig[i],
            out[i],
            control_path_text(home, ids[generates_before(orig, i) as int]),
        )
}

/// `out` is `orig` with the placeholder control paths filled in order under
/// some home directory, each with its own session identifier.
pub open spec fn resolved_options(orig: Seq<SSHOption>, out: Seq<SSHOption>) -> bool {
    exists|home: Seq<char>, ids: Seq<Seq<char>>|
        {
            &&& ids.len() == generates_before(orig, orig.len() as int)
            &&& forall|k: int| 0 <= k < ids.len() ==> is_session_id(#[trigger] ids[k])
            &&& filled_options(orig, out, home, ids)
        }
}

/// Counting placeholders never goes down along the list, and finds one
/// whenever it counts any.
proof fn lemma_generates_before(opts: Seq<SSHOption>, i: int, j: int)
    requires
        0 <= i <= j <= opts.len(),
    ensures
        generates_before(opts, i) <= generates_before(opts, j),
        generates_before(opts, j) > 0 ==> asks_generate(opts),
    decreases j,
{
    if j > 0 {
        lemma_generates_before(opts, if i < j { i } else { j - 1 }, j - 1);
        if is_generate(opts[j - 1]) {
            assert(asks_generate(opts));
        }
    }
}

/// How many options ask for a fresh control path.
fn count_generates(opts: &Vec<SSHOption>) -> (r: usize)
    ensures
        r == generates_before(opts@, opts@.len() as int),
{
    let mut n: usize = 0;
    let mut i: usize = 0;
    while i < opts.len()
        invariant
            i <= opts@.len(),
            n == generates_before(opts@, i as int),
            n <= i,
        decreases opts@.len() - i,
    {
        if is_generate_option(&opts[i]) {
            n += 1;
        }
        i += 1;
    }
    n
}

/// Whether the option asks for a fresh control path.
pub fn is_generate_option(o: &SSHOption) -> (r: bool)
    ensures
        r == is_generate(*o),
{
    match o {
        SSHOption::ControlPath(p) => same_text(p.as_str(), "GENERATE"),
        _ => false,
    }
}

/// The options with each placeholder control path replaced, in order, by
/// the control path of the next session of `ids` under `home`.
pub fn fill_control_paths(opts: &Vec<SSHOption>, home: &str, ids: &Vec<String>) -> (r: Vec<SSHOption>)
    requires
        generates_before(opts@, opts@.len() as int) <= ids@.len(),
    ensures
        filled_options(opts@, r@, home@, strings_view(ids@)),
{
    let ghost idv = strings_view(ids@);
    let mut out: Vec<SSHOption> = Vec::new();
    let id_count = ids.len();
    let mut used: usize = 0;
    let mut i: usize = 0;
    while i < opts.len()
        invariant
            i <= opts@.len(),
            id_count == ids@.len(),
            idv == strings_view(ids@),
            generates_before(opts@, opts@.len() as int) <= ids@.len(),
            used == generates_before(opts@, i as int),
            out@.len() == i,
            forall|j: int|
                0 <= j < i ==> filled_option(
                    #[trigger] opts@[j],
                    out@[j],
                    control_path_text(home@, idv[generates_before(opts@, j) as int]),
                ),
        decreases opts@.len() - i,
    {
        proof {
            lemma_generates_before(opts@, i + 1, opts@.len() as int);
        }
        if is_generate_option(&opts[i]) {
            assert(used + 1 == generates_before(opts@, i + 1));
            let cp = generate_control_path(home, ids[used].as_str());
            out.push(SSHOption::ControlPath(cp));
            used += 1;
        } else {
            out.push(opts[i].duplicate());
        }
        i += 1;
    }
    out
}

/// Whether some option asks for a fresh control path.
pub open spec fn asks_generate(opts: Seq<SSHOption>) -> bool {
    exists|i: int| 0 <= i < opts.len() && is_generate(#[trigger] opts[i])
}

/// A copy of `a` followed by a copy of `b`.
fn concat_options(a: &Vec<SSHOption>, b: &Vec<SSHOption>) -> (r: Vec<SSHOption>)
    ensures
        r@ == a@ + b@,
{
    let mut r = duplicate_options(a);
    let mut i: usize = 0;
    while i < b.len()
        invariant
            i <= b@.len(),
            r@ == a@ + b@.take(i as int),
        decreases b@.len() - i,
    {
        r.push(b[i].duplicate());
        assert(b@.take(i + 1) =~= b@.take(i as int).push(b@[i as int]));
        i += 1;
    }
    assert(b@.take(b@.len() as int) =~= b@);
    r
}

impl SSHProperties {
    /// The global ssh options merged with those a workspace adds.
    pub fn merge(&self, additional_props: Option<&SSHAdditionalProperties>) -> (r: Self)
        ensures
            opt_items(r.options) == merged_options(
                opt_items(self.options),
                added_options(
                    match additional_props {
                        Some(a) => Some(*a),
                        None => None,
                    },
                ),
            ),
    {
        let options = match additional_props {
            Some(a) => match (&a.additional_options, &self.options) {
                (Some(x), Some(g)) => Some(concat_options(x, g)),
                (Some(x), None) => Some(duplicate_options(x)),
                (None, Some(g)) => Some(duplicate_options(g)),
                (None, None) => None,
            },
            None => match &self.options {
                Some(g) => Some(duplicate_options(g)),
                None => None,
            },
        };
        SSHProperties { options }
    }

    /// The shell with these options, each placeholder control path replaced
    /// by a fresh one under the home directory. Fails when a fresh one is
    /// asked for and the home directory is unknown.
    pub fn as_shell(&self) -> (r: Result<SSHShell, ConfigError>)
        ensures
            match r {
                Ok(sh) => resolved_options(items(self.options), sh.options@),
                Err(e) => e == ConfigError::NoHomeDirectory && asks_generate(items(self.options)),
            },
    {
        let empty: Vec<SSHOption> = Vec::new();
        let opts: &Vec<SSHOption> = match &self.options {
            Some(o) => o,
            None => &empty,
        };
        let n = count_generates(opts);
        let mut ids: Vec<String> = Vec::new();
        let home = if n == 0 {
            String::new()
        } else {
            match home_dir() {
                Some(h) => h,
                None => {
                    proof {
                        lemma_generates_before(opts@, 0, opts@.len() as int);
                    }
                    return Err(ConfigError::NoHomeDirectory);
                },
            }
        };
        while ids.len() < n
            invariant
                ids@.len() <= n,
                forall|k: int| 0 <= k < ids@.len() ==> is_session_id(#[trigger] ids@[k]@),
            decreases n - ids@.len(),
        {
            ids.push(generate_session_id());
        }
        let out = fill_control_paths(opts, home.as_str(), &ids);
        proof {
            let idv = strings_view(ids@);
            assert forall|k: int| 0 <= k < idv.len() implies is_session_id(#[trigger] idv[k]) by {
                assert(idv[k] == ids@[k]@);
            }
            assert(filled_options(opts@, out@, home@, idv));
        }
        Ok(SSHShell::new(out))
    }
}

/// The settings of an rsync target that a workspace gives.
#[derive(Debug, Clone)]
pub struct RsyncProperties {
    pub dst_host: Option<String>,
    pub dst_dir: String,
    pub additional_flags: Option<Vec<RsyncFlag>>,
    pub additional_excludes: Option<Vec<String>>,
    pub ssh: Option<SSHAdditionalProperties>,
}

/// The defaults of all rsync targets, from the global scope.
#[derive(Debug, Clone)]
pub struct RsyncGlobalProperties {
    pub default_dst_host: Option<String>,
    pub excludes: Option<Vec<String>>,
    pub flags: Option<Vec<RsyncFlag>>,
    pub ssh: Option<SSHProperties>,
}

/// The excluded patterns: the workspace's first, then the global ones.
pub open spec fn merged_excludes(p: RsyncProperties, g: Option<RsyncGlobalProperties>) -> Seq<String> {
    items(p.additional_excludes) + match g {
        Some(g) => items(g.excludes),
        None => Seq::empty(),
    }
}

/// The flags: the workspace's first, then the global ones.
pub open spec fn merged_flags(p: RsyncProperties, g: Option<RsyncGlobalProperties>) -> Seq<RsyncFlag> {
    items(p.additional_flags) + match g {
        Some(g) => items(g.flags),
        None => Seq::empty(),
    }
}

/// The destination host: the workspace's when set, else the global default.
pub open spec fn merged_host(p: RsyncProperties, g: Option<RsyncGlobalProperties>) -> Option<Seq<char>> {
    match p.dst_host {
        Some(h) => Some(h@),
        None => match g {
            Some(g) => opt_string(g.default_dst_host),
            None => None,
        },
    }
}

/// The ssh options to merge into: the global ones when the global scope has
/// an ssh block; else none at all when the workspace has an ssh block; else
/// no shell.
pub open spec fn base_ssh(p: RsyncProperties, g: Option<RsyncGlobalProperties>) -> Option<Option<Seq<SSHOption>>> {
    match g {
        Some(RsyncGlobalProperties { ssh: Some(s), .. }) => Some(opt_items(s.options)),
        _ => if p.ssh is Some {
            Some(None)
        } else {
            None
        },
    }
}

/// The merged ssh options, before placeholders are resolved; none when
/// there is no shell.
pub open spec fn merged_ssh(p: RsyncProperties, g: Option<RsyncGlobalProperties>) -> Option<Seq<SSHOption>> {
    match base_ssh(p, g) {
        Some(base) => Some(
            match merged_options(base, added_options(p.ssh)) {
                Some(o) => o,
                None => Seq::empty(),
            },
        ),
        None => None,
    }
}

/// `r` is the target that the workspace settings `p` and the global
/// defaults `g` make.
pub open spec fn built_from(r: Rsyncer, p: RsyncProperties, g: Option<RsyncGlobalProperties>) -> bool {
    &&& r.dst_dir@ == p.dst_dir@
    &&& opt_string(r.dst_host) == merged_host(p, g)
    &&& r.flags@ == merged_flags(p, g)
    &&& r.options@ == merged_excludes(p, g).map_values(|x: String| RsyncOption::Exclude(x))
    &&& match merged_ssh(p, g) {
        Some(o) => match r.shell {
            Some(sh) => resolved_options(o, sh.options@),
            None => false,
        },
        None => r.shell is None,
    }
}

/// The global defaults, read through an optional reference.
pub open spec fn deref_global(g: Option<&RsyncGlobalProperties>) -> Option<RsyncGlobalProperties> {
    match g {
        Some(g) => Some(*g),
        None => None,
    }
}

/// Appends each pattern of `patterns` as an exclusion.
fn push_excludes(out: &mut Vec<RsyncOption>, patterns: &Vec<String>)
    ensures
        final(out)@ == old(out)@ + patterns@.map_values(|x: String| RsyncOption::Exclude(x)),
{
    let ghost start = out@;
    let mut i: usize = 0;
    while i < patterns.len()
        invariant
            i <= patterns@.len(),
            out@ == start + patterns@.take(i as int).map_values(|x: String| RsyncOption::Exclude(x)),
        decreases patterns@.len() - i,
    {
        out.push(RsyncOption::Exclude(patterns[i].clone()));
        assert(patterns@.take(i + 1).map_values(|x: String| RsyncOption::Exclude(x))
            =~= patterns@.take(i as int).map_values(|x: String| RsyncOption::Exclude(x)).push(
            RsyncOption::Exclude(patterns@[i as int]),
        ));
        i += 1;
    }
    assert(patterns@.take(patterns@.len() as int) =~= patterns@);
}

/// Appends each flag of `flags`.
fn push_flags(out: &mut Vec<RsyncFlag>, flags: &Vec<RsyncFlag>)
    ensures
        final(out)@ == old(out)@ + flags@,
{
    let ghost start = out@;
    let mut i: usize = 0;
    while i < flags.len()
        invariant
            i <= flags@.len(),
            out@ == start + flags@.take(i as int),
        decreases flags@.len() - i,
    {
        out.push(flags[i]);
        assert(flags@.take(i + 1) =~= flags@.take(i as int).push(flags@[i as int]));
        i += 1;
    }
    assert(flags@.take(flags@.len() as int) =~= flags@);
}

impl RsyncProperties {
    /// The target these workspace settings make over the global defaults: a
    /// setting of the workspace wins, an unset one falls back to the global
    /// default, and lists take the workspace's items and then the global ones.
    /// Fails only when a fresh control path is asked for and the home
    /// directory is unknown.
    pub fn as_syncer(&self, global_props: Option<&RsyncGlobalProperties>) -> (r: Result<Rsyncer, ConfigError>)
        ensures
            match r {
                Ok(s) => built_from(s, *self, deref_global(global_props)),
                Err(e) => e == ConfigError::NoHomeDirectory && merged_ssh(*self, deref_global(global_props)) is Some
                    && asks_generate(merged_ssh(*self, deref_global(global_props))->0),
            },
    {
        let ghost g = deref_global(global_props);
        let mut excludes: Vec<RsyncOption> = Vec::new();
        match &self.additional_excludes {
            Some(x) => push_excludes(&mut excludes, x),
            None => {},
        }
        match global_props {
            Some(gp) => match &gp.excludes {
                Some(x) => push_excludes(&mut excludes, x),
                None => {},
            },
            None => {},
        }
        assert(excludes@ =~= merged_excludes(*self, g).map_values(|x: String| RsyncOption::Exclude(x)));
        let mut flags: Vec<RsyncFlag> = Vec::new();
        match &self.additional_flags {
            Some(x) => push_flags(&mut flags, x),
            None => {},
        }
        match global_props {
            Some(gp) => match &gp.flags {
                Some(x) => push_flags(&mut flags, x),
                None => {},
            },
            None => {},
        }
        assert(flags@ =~= merged_flags(*self, g));
        let dst_host: Option<&str> = match &self.dst_host {
            Some(h) => Some(h.as_str()),
            None => match global_props {
                Some(gp) => match &gp.default_dst_host {
                    Some(h) => Some(h.as_str()),
                    None => None,
                },
                None => None,
            },
        };
        let none_props = SSHProperties { options: None };
        let base: Option<&SSHProperties> = match global_props {
            Some(gp) => match &gp.ssh {
                Some(s) => Some(s),
                None => if self.ssh.is_some() {
                    Some(&none_props)
                } else {
                    None
                },
            },
            None => if self.ssh.is_some() {
                Some(&none_props)
            } else {
                None
            },
        };
        let shell = match base {
            Some(b) => {
                let added: Option<&SSHAdditionalProperties> = match &self.ssh {
                    Some(a) => Some(a),
                    None => None,
                };
                let merged = b.merge(added);
                match merged.as_shell() {
                    Ok(sh) => Some(sh),
                    Err(e) => {
                        return Err(e);
                    },
                }
            },
            None => None,
        };
        Ok(Rsyncer::new(self.dst_dir.as_str(), dst_host, flags.as_slice(), excludes.as_slice(), shell))
    }
}

/// A fresh session identifier: seven random letters or digits.
pub fn generate_session_id() -> (r: String)
    ensures
        is_session_id(r@),
{
    let mut r = String::new();
    let mut i: usize = 0;
    while i < 7
        invariant
            i <= 7,
            r@.len() == i,
            forall|j: int| 0 <= j < i ==> is_alphanumeric(#[trigger] r@[j]),
        decreases 7 - i,
    {
        let c = random_alphanumeric();
        let ghost before = r@;
        r.append(c.as_str());
        assert(r@ =~= before + c@);
        assert(r@[i as int] == c@[0]);
        i += 1;
    }
    r
}

/// The control path of a session under the home directory `home`.
pub fn generate_control_path(home: &str, session_id: &str) -> (r: String)
    ensures
        r@ == control_path_text(home@, session_id@),
{
    let ssh_dir = join_path_string(home, ".ssh");
    let mut name = owned("rust-dev-sync-");
    name.append(session_id);
    join_path_string(ssh_dir.as_str(), name.as_str())
}

/// Relies on rand's `Alphanumeric` distribution, sampled from `thread_rng`:
/// one byte drawn from A-Z, a-z and 0-9, given as a one-character string.
#[verifier::external_body]
fn random_alphanumeric() -> (r: String)
    ensures
        r@.len() == 1,
        is_alphanumeric(r@[0]),
{
    char::from(rand::thread_rng().sample(rand::distributions::Alphanumeric)).to_string()
}

/// Relies on `home::home_dir`: the user's home directory when it is known,
/// here only when it is valid UTF-8.
#[verifier::external_body]
fn home_dir() -> (r: Option<String>) {
    home::home_dir().and_then(|p| p.into_os_string().into_string().ok())
}

/// How a target's settings merge over the global defaults: a destination
/// host set by the workspace wins, an unset one falls back to the global
/// default, and the flags, the exclusions and the ssh options hold the
/// workspace's items followed by the global ones.
pub proof fn lemma_workspace_settings_win(p: RsyncProperties, g: RsyncGlobalProperties)
    ensures
        p.dst_host is Some ==> merged_host(p, Some(g)) == Some(p.dst_host->0@),
        p.dst_host is None ==> merged_host(p, Some(g)) == opt_string(g.default_dst_host),
        merged_flags(p, Some(g)) == items(p.additional_flags) + items(g.flags),
        merged_excludes(p, Some(g)) == items(p.additional_excludes) + items(g.excludes),
        g.ssh is Some && p.ssh is Some ==> merged_ssh(p, Some(g)) == Some(
            items(p.ssh->0.additional_options) + items(g.ssh->0.options),
        ),
{
    if g.ssh is Some && p.ssh is Some {
        let x = items(p.ssh->0.additional_options);
        let y = items(g.ssh->0.options);
        assert(x + Seq::<SSHOption>::empty() =~= x);
        assert(Seq::<SSHOption>::empty() + y =~= y);
        assert(Seq::<SSHOption>::empty() + Seq::<SSHOption>::empty() =~= Seq::<SSHOption>::empty());
    }
}

} // verus!
