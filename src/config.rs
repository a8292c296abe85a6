//! Workspaces built from the configuration: each one's root, targets and
//! ignore filter.
use globset::{GlobSet, GlobSetBuilder};
use vstd::prelude::*;

use crate::glob::{
    any_matches, builder_add, glob_matches, builder_build, builder_patterns, glob_parses, new_builder, new_glob,
    set_builds, set_is_match, set_patterns,
};
use crate::paths::{is_absolute_text, join_path, join_path_string, starts_at_root};
use crate::rsyncer::{
    asks_generate, built_from, items, merged_ssh, RsyncGlobalProperties, RsyncProperties, Rsyncer,
};
use crate::text::owned;

verus! {

/// Why the workspaces could not be built.
#[derive(Debug, PartialEq, Eq, Clone)]
pub enum ConfigError {
    /// An ignore pattern, as resolved, that is not a valid glob.
    InvalidPattern(String),
    /// The ignore patterns could not be compiled together.
    InvalidPatternSet,
    /// A fresh ssh control path was asked for, and the home directory is
    /// unknown.
    NoHomeDirectory,
}

/// A synchronisation target of a workspace, by kind.
#[derive(Debug, Clone)]
pub enum WorkspaceSyncer {
    Rsync(RsyncProperties),
}

/// One workspace block of the configuration.
#[derive(Debug, Clone)]
pub struct WorkspaceConfig {
    pub src_dir: String,
    pub syncers: Vec<WorkspaceSyncer>,
    pub ignore: Option<Vec<String>>,
}

/// The global block of the configuration.
#[derive(Debug, Clone)]
pub struct GlobalConfig {
    pub ignore: Option<Vec<String>>,
    pub rsync: Option<RsyncGlobalProperties>,
}

/// The whole configuration.
#[derive(Debug, Clone)]
pub struct Config {
    pub global_config: GlobalConfig,
    pub workspaces: Vec<WorkspaceConfig>,
}

/// A watched directory tree, its targets and its ignore filter.
#[derive(Debug)]
pub struct Workspace {
    pub path: String,
    pub syncers: Vec<Rsyncer>,
    pub ignore: GlobSet,
}

/// An ignore pattern as it applies under `root`: an absolute one as it is,
/// a relative one below the root.
pub open spec fn resolve_pattern(root: Seq<char>, pattern: Seq<char>) -> Seq<char> {
    if starts_at_root(pattern) {
        pattern
    } else {
        join_path(root, pattern)
    }
}

/// The patterns resolved under `root`, in order.
pub open spec fn resolve_all(root: Seq<char>, patterns: Seq<String>) -> Seq<Seq<char>> {
    patterns.map_values(|p: String| resolve_pattern(root, p@))
}

/// The pattern at `k` is the first one that does not parse.
pub open spec fn first_invalid(patterns: Seq<Seq<char>>, k: int) -> bool {
    &&& 0 <= k < patterns.len()
    &&& !glob_parses(patterns[k])
    &&& forall|j: int| 0 <= j < k ==> glob_parses(#[trigger] patterns[j])
}

/// Whether every pattern parses.
pub open spec fn all_parse(patterns: Seq<Seq<char>>) -> bool {
    forall|j: int| 0 <= j < patterns.len() ==> glob_parses(#[trigger] patterns[j])
}

impl Workspace {
    /// The resolved ignore patterns, global ones first.
    pub open spec fn ignore_patterns(&self) -> Seq<Seq<char>> {
        set_patterns(self.ignore)
    }

    /// A workspace rooted at `path` with `syncers`, ignoring what the
    /// global patterns and then its own patterns match, each resolved
    /// under the root.
    pub fn new(path: &str, syncers: Vec<Rsyncer>, global_ignore: &Vec<String>, ignore: &Vec<String>) -> (r: Result<Workspace, ConfigError>)
        ensures
            match r {
                Ok(w) => {
                    &&& w.path@ == path@
                    &&& w.syncers == syncers
                    &&& w.ignore_patterns() == resolve_all(path@, global_ignore@ + ignore@)
                    &&& all_parse(resolve_all(path@, global_ignore@ + ignore@))
                    &&& set_builds(resolve_all(path@, global_ignore@ + ignore@))
                },
                Err(ConfigError::InvalidPattern(p)) => exists|k: int|
                    first_invalid(resolve_all(path@, global_ignore@ + ignore@), k)
                        && resolve_all(path@, global_ignore@ + ignore@)[k] == p@,
                Err(e) => e == ConfigError::InvalidPatternSet && all_parse(
                    resolve_all(path@, global_ignore@ + ignore@),
                ) && !set_builds(resolve_all(path@, global_ignore@ + ignore@)),
            },
            all_parse(resolve_all(path@, global_ignore@ + ignore@)) && set_builds(
                resolve_all(path@, global_ignore@ + ignore@),
            ) ==> r is Ok,
    {
        let ghost all = resolve_all(path@, global_ignore@ + ignore@);
        let mut builder = new_builder();
        match add_patterns(&mut builder, path, global_ignore, Ghost(Seq::empty())) {
            Err(p) => {
                proof {
                    let g = resolve_all(path@, global_ignore@);
                    assert(Seq::<Seq<char>>::empty() + g =~= g);
                    assert(all =~= g + resolve_all(path@, ignore@));
                    let k = choose|k: int| first_invalid(g, k) && k >= 0 && g[k] == p@;
                    assert forall|j: int| 0 <= j < k implies glob_parses(#[trigger] all[j]) by {
                        assert(all[j] == g[j]);
                    }
                    assert(first_invalid(all, k) && all[k] == p@);
                }
                return Err(ConfigError::InvalidPattern(p));
            },
            Ok(()) => {},
        }
        match add_patterns(&mut builder, path, ignore, Ghost(resolve_all(path@, global_ignore@))) {
            Err(p) => {
                proof {
                    let k = choose|k: int|
                        first_invalid(resolve_all(path@, global_ignore@) + resolve_all(path@, ignore@), k)
                            && k >= global_ignore@.len() && (resolve_all(path@, global_ignore@) + resolve_all(path@, ignore@))[k] == p@;
                    assert(all =~= resolve_all(path@, global_ignore@) + resolve_all(path@, ignore@));
                }
                return Err(ConfigError::InvalidPattern(p));
            },
            Ok(()) => {},
        }
        assert(all =~= resolve_all(path@, global_ignore@) + resolve_all(path@, ignore@));
        match builder_build(&builder) {
            Ok(set) => Ok(Workspace { path: owned(path), syncers, ignore: set }),
            Err(_) => Err(ConfigError::InvalidPatternSet),
        }
    }

    /// Whether a change at `path` is to be synchronised: true exactly when
    /// no ignore pattern matches it.
    pub fn should_sync(&self, path: &str) -> (r: bool)
        ensures
            r == !any_matches(self.ignore_patterns(), path@),
    {
        !set_is_match(&self.ignore, path)
    }
}

/// Adds the patterns, resolved under `root`, to the builder, which holds
/// `before` (every one of which parses). Stops at the first pattern that
/// does not parse and returns its resolved text.
fn add_patterns(builder: &mut GlobSetBuilder, root: &str, patterns: &Vec<String>, before: Ghost<Seq<Seq<char>>>) -> (r: Result<(), String>)
    requires
        builder_patterns(*old(builder)) == before@,
        all_parse(before@),
    ensures
        match r {
            Ok(()) => builder_patterns(*final(builder)) == before@ + resolve_all(root@, patterns@)
                && all_parse(before@ + resolve_all(root@, patterns@)),
            Err(p) => exists|k: int|
                first_invalid(before@ + resolve_all(root@, patterns@), k) && k >= before@.len()
                    && (before@ + resolve_all(root@, patterns@))[k] == p@,
        },
{
    let ghost all = before@ + resolve_all(root@, patterns@);
    let mut i: usize = 0;
    while i < patterns.len()
        invariant
            i <= patterns@.len(),
            all == before@ + resolve_all(root@, patterns@),
            builder_patterns(*builder) == before@ + resolve_all(root@, patterns@.take(i as int)),
            all_parse(before@ + resolve_all(root@, patterns@.take(i as int))),
        decreases patterns@.len() - i,
    {
        let pattern = resolved_pattern(root, patterns[i].as_str());
        let ghost done = before@ + resolve_all(root@, patterns@.take(i as int));
        assert(resolve_all(root@, patterns@.take(i + 1)) =~= resolve_all(root@, patterns@.take(i as int)).push(pattern@));
        match new_glob(pattern.as_str()) {
            Ok(g) => {
                builder_add(builder, g);
                assert(done.push(pattern@) =~= before@ + resolve_all(root@, patterns@.take(i + 1)));
                assert forall|j: int| 0 <= j < done.len() + 1 implies glob_parses(#[trigger] done.push(pattern@)[j]) by {
                    if j < done.len() {
                        assert(glob_parses(done[j]));
                    }
                }
            },
            Err(_) => {
                proof {
                    let k = before@.len() + i;
                    assert(all[k] == pattern@);
                    assert forall|j: int| 0 <= j < k implies glob_parses(#[trigger] all[j]) by {
                        assert(all[j] == done[j]);
                    }
                    assert(first_invalid(all, k));
                }
                return Err(pattern);
            },
        }
        i += 1;
    }
    assert(patterns@.take(patterns@.len() as int) =~= patterns@);
    Ok(())
}

/// A pattern as it applies under `root`.
pub fn resolved_pattern(root: &str, pattern: &str) -> (r: String)
    ensures
        r@ == resolve_pattern(root@, pattern@),
{
    if is_absolute_text(pattern) {
        owned(pattern)
    } else {
        join_path_string(root, pattern)
    }
}

/// The path with a separator at its end, added when missing.
pub fn with_trailing_separator(path: &str) -> (r: String)
    ensures
        r@ == (if path@.len() > 0 && path@.last() == '/' {
            path@
        } else {
            path@.push('/')
        }),
{
    let mut r = owned(path);
    let n = path.unicode_len();
    if n == 0 || path.get_char(n - 1) != '/' {
        r.append("/");
        proof {
            reveal_strlit("/");
        }
        assert(r@ =~= path@.push('/'));
    }
    r
}

/// `s` is the target that the configured `c` makes over the globals `g`.
pub open spec fn syncer_built(s: Rsyncer, c: WorkspaceSyncer, g: GlobalConfig) -> bool {
    match c {
        WorkspaceSyncer::Rsync(p) => built_from(s, p, g.rsync),
    }
}

/// Whether the configured target asks for a fresh control path.
pub open spec fn syncer_asks_generate(c: WorkspaceSyncer, g: GlobalConfig) -> bool {
    match c {
        WorkspaceSyncer::Rsync(p) => merged_ssh(p, g.rsync) is Some && asks_generate(
            merged_ssh(p, g.rsync)->0,
        ),
    }
}

/// The resolved ignore patterns of a workspace block: the global ones
/// first, then its own.
pub open spec fn config_patterns(c: WorkspaceConfig, g: GlobalConfig) -> Seq<Seq<char>> {
    resolve_all(c.src_dir@, items(g.ignore) + items(c.ignore))
}

/// `w` is the workspace that the block `c` makes over the globals `g`,
/// whose patterns all parse and compile together.
pub open spec fn workspace_built(w: Workspace, c: WorkspaceConfig, g: GlobalConfig) -> bool {
    &&& w.path@ == c.src_dir@
    &&& w.ignore_patterns() == config_patterns(c, g)
    &&& all_parse(config_patterns(c, g))
    &&& set_builds(config_patterns(c, g))
    &&& w.syncers@.len() == c.syncers@.len()
    &&& forall|j: int| 0 <= j < c.syncers@.len() ==> syncer_built(#[trigger] w.syncers@[j], c.syncers@[j], g)
}

impl WorkspaceSyncer {
    /// The target this block makes over the global defaults.
    pub fn as_syncer(&self, global_config: &GlobalConfig) -> (r: Result<Rsyncer, ConfigError>)
        ensures
            match r {
                Ok(s) => syncer_built(s, *self, *global_config),
                Err(e) => e == ConfigError::NoHomeDirectory && syncer_asks_generate(*self, *global_config),
            },
    {
        match self {
            WorkspaceSyncer::Rsync(props) => props.as_syncer(global_config.rsync.as_ref()),
        }
    }
}

/// A copy of an optional list of patterns; empty when absent.
fn patterns_or_empty(o: &Option<Vec<String>>) -> (r: Vec<String>)
    ensures
        r@ == items(*o),
{
    match o {
        Some(v) => {
            let mut r: Vec<String> = Vec::new();
            let mut i: usize = 0;
            while i < v.len()
                invariant
                    i <= v@.len(),
                    r@ == v@.take(i as int),
                decreases v@.len() - i,
            {
                r.push(v[i].clone());
                assert(v@.take(i + 1) =~= v@.take(i as int).push(v@[i as int]));
                i += 1;
            }
            assert(v@.take(v@.len() as int) =~= v@);
            r
        },
        None => Vec::new(),
    }
}

impl Config {
    /// Every block's ignore patterns parse and compile together, and no
    /// target asks for a fresh control path.
    pub open spec fn buildable(&self) -> bool {
        forall|i: int|
            0 <= i < self.workspaces@.len() ==> {
                &&& all_parse(#[trigger] config_patterns(self.workspaces@[i], self.global_config))
                &&& set_builds(config_patterns(self.workspaces@[i], self.global_config))
                &&& forall|j: int|
                    0 <= j < self.workspaces@[i].syncers@.len() ==> !syncer_asks_generate(
                        #[trigger] self.workspaces@[i].syncers@[j],
                        self.global_config,
                    )
            }
    }

    /// The workspaces of the configuration, in order. Fails on the first
    /// ignore pattern that is not a valid glob, or when a target asks for a
    /// fresh control path and the home directory is unknown.
    pub fn workspaces(&self) -> (r: Result<Vec<Workspace>, ConfigError>)
        ensures
            match r {
                Ok(v) => v@.len() == self.workspaces@.len() && forall|i: int|
                    0 <= i < v@.len() ==> workspace_built(
                        #[trigger] v@[i],
                        self.workspaces@[i],
                        self.global_config,
                    ),
                Err(ConfigError::InvalidPattern(p)) => exists|i: int, k: int|
                    0 <= i < self.workspaces@.len() && #[trigger] first_invalid(
                        config_patterns(self.workspaces@[i], self.global_config),
                        k,
                    ) && config_patterns(self.workspaces@[i], self.global_config)[k] == p@,
                Err(ConfigError::NoHomeDirectory) => exists|i: int, j: int|
                    0 <= i < self.workspaces@.len() && 0 <= j < self.workspaces@[i].syncers@.len()
                        && syncer_asks_generate(
                        #[trigger] self.workspaces@[i].syncers@[j],
                        self.global_config,
                    ),
                Err(ConfigError::InvalidPatternSet) => exists|i: int|
                    0 <= i < self.workspaces@.len() && #[trigger] all_parse(
                        config_patterns(self.workspaces@[i], self.global_config),
                    ) && !set_builds(config_patterns(self.workspaces@[i], self.global_config)),
            },
            self.buildable() ==> r is Ok,
    {
        let global_ignore = patterns_or_empty(&self.global_config.ignore);
        let mut out: Vec<Workspace> = Vec::new();
        let mut i: usize = 0;
        while i < self.workspaces.len()
            invariant
                i <= self.workspaces@.len(),
                global_ignore@ == items(self.global_config.ignore),
                out@.len() == i,
                forall|a: int| 0 <= a < i ==> workspace_built(#[trigger] out@[a], self.workspaces@[a], self.global_config),
            decreases self.workspaces@.len() - i,
        {
            let ws = &self.workspaces[i];
            let mut syncers: Vec<Rsyncer> = Vec::new();
            let mut j: usize = 0;
            while j < ws.syncers.len()
                invariant
                    i < self.workspaces@.len(),
                    ws == self.workspaces@[i as int],
                    j <= ws.syncers@.len(),
                    syncers@.len() == j,
                    forall|b: int| 0 <= b < j ==> syncer_built(#[trigger] syncers@[b], ws.syncers@[b], self.global_config),
                decreases ws.syncers@.len() - j,
            {
                match ws.syncers[j].as_syncer(&self.global_config) {
                    Ok(s) => syncers.push(s),
                    Err(e) => {
                        assert(syncer_asks_generate(self.workspaces@[i as int].syncers@[j as int], self.global_config));
                        proof {
                            if self.buildable() {
                                assert(all_parse(config_patterns(self.workspaces@[i as int], self.global_config)));
                            }
                        }
                        return Err(e);
                    },
                }
                j += 1;
            }
            let own = patterns_or_empty(&ws.ignore);
            match Workspace::new(ws.src_dir.as_str(), syncers, &global_ignore, &own) {
                Ok(w) => {
                    out.push(w);
                    assert(workspace_built(out@[i as int], self.workspaces@[i as int], self.global_config));
                },
                Err(e) => {
                    proof {
                        assert(config_patterns(self.workspaces@[i as int], self.global_config)
                            == resolve_all(ws.src_dir@, global_ignore@ + own@));
                    }
                    return Err(e);
                },
            }
            i += 1;
        }
        Ok(out)
    }
}

/// Global and workspace ignore patterns both apply: a workspace built from
/// a block ignores a path exactly when a global pattern or one of the
/// block's own, each resolved under the workspace root, matches it.
pub proof fn lemma_ignore_union(w: Workspace, c: WorkspaceConfig, g: GlobalConfig, path: Seq<char>)
    requires
        workspace_built(w, c, g),
    ensures
        any_matches(w.ignore_patterns(), path) <==> (any_matches(
            resolve_all(c.src_dir@, items(g.ignore)),
            path,
        ) || any_matches(resolve_all(c.src_dir@, items(c.ignore)), path)),
{
    let a = resolve_all(c.src_dir@, items(g.ignore));
    let b = resolve_all(c.src_dir@, items(c.ignore));
    let all = w.ignore_patterns();
    assert(all =~= a + b);
    if any_matches(all, path) {
        let i = choose|i: int| 0 <= i < all.len() && glob_matches(#[trigger] all[i], path);
        if i < a.len() {
            assert(all[i] == a[i]);
        } else {
            assert(all[i] == b[i - a.len()]);
        }
    }
    if any_matches(a, path) {
        let i = choose|i: int| 0 <= i < a.len() && glob_matches(#[trigger] a[i], path);
        assert(all[i] == a[i]);
    }
    if any_matches(b, path) {
        let i = choose|i: int| 0 <= i < b.len() && glob_matches(#[trigger] b[i], path);
        assert(all[i + a.len()] == b[i]);
    }
}

} // verus!
