//! The `tsconfig.json` overlay: locating the config file, deriving the
//! effective base directory, and the explicit, time-bounded cache that
//! stands between the orchestrator and repeated derivations.
//!
//! The cache is purely a performance device: its contracts state that every
//! answer equals the direct derivation from the snapshot, so correctness
//! never depends on which generation of an entry is returned.

use vstd::prelude::*;
use crate::paths::{spec_is_abs, spec_join, spec_normalize, spec_parent, is_abs_path, join_path,
    normalize_path, parent_path};
use crate::strings::{ends_with_str, str_eq, copy_string_vec};
use crate::fsmodel::FileSystem;

verus! {

/// The `compilerOptions` fields this engine consumes.
pub struct CompilerOptions {
    /// `baseUrl`, relative to the directory holding the config file.
    pub base_url: Option<String>,
    /// `paths`: wildcard pattern to ordered destination patterns, in
    /// declaration order.
    pub paths: Option<Vec<(String, Vec<String>)>>,
}

/// A parsed `tsconfig.json`, reduced to the fields the engine consumes.
pub struct TsConfig {
    pub compiler_options: Option<CompilerOptions>,
}

/// Where the config locator points: an absolute `.json` path is used as is,
/// any other absolute path is treated as a directory holding
/// `tsconfig.json`, and a relative locator is resolved against the working
/// directory.
pub open spec fn spec_config_path(cwd: Seq<char>, locator: Seq<char>) -> Seq<char> {
    if spec_is_abs(locator) {
        if ".json"@.is_suffix_of(locator) {
            locator
        } else {
            spec_join(locator, "tsconfig.json"@)
        }
    } else {
        spec_join(cwd, locator)
    }
}

/// Normal form of the config file path; the key under which the snapshot
/// stores the parsed config.
pub open spec fn spec_config_key(cwd: Seq<char>, locator: Seq<char>) -> Seq<char> {
    spec_normalize(spec_config_path(cwd, locator))
}

/// The parsed config the locator denotes, if the snapshot holds one.
pub open spec fn spec_found_config(fs: FileSystem, cwd: Seq<char>, locator: Seq<char>) -> Option<
    TsConfig,
> {
    fs.spec_tsconfig(spec_config_key(cwd, locator))
}

/// The directory containing the config file.
pub open spec fn spec_config_dir(cwd: Seq<char>, locator: Seq<char>) -> Seq<char> {
    match spec_parent(spec_config_key(cwd, locator)) {
        Some(d) => d,
        None => seq!['/'],
    }
}

/// The effective base directory: the working directory when no config is
/// found, the config file's directory when it has no `baseUrl`, and
/// `baseUrl` joined onto that directory otherwise.
pub open spec fn spec_base_dir(fs: FileSystem, cwd: Seq<char>, locator: Seq<char>) -> Seq<char> {
    match spec_found_config(fs, cwd, locator) {
        None => cwd,
        Some(c) => match c.compiler_options {
            None => spec_config_dir(cwd, locator),
            Some(co) => match co.base_url {
                None => spec_config_dir(cwd, locator),
                Some(u) => spec_join(spec_config_dir(cwd, locator), u@),
            },
        },
    }
}

/// The alias map of the config, when one is present.
pub open spec fn spec_paths_map(fs: FileSystem, cwd: Seq<char>, locator: Seq<char>) -> Option<
    Seq<(Seq<char>, Seq<Seq<char>>)>,
> {
    match spec_found_config(fs, cwd, locator) {
        None => None,
        Some(c) => match c.compiler_options {
            None => None,
            Some(co) => match co.paths {
                None => None,
                Some(p) => Some(p.deep_view()),
            },
        },
    }
}

/// Computes the normalized config file path for a locator.
pub fn config_file_key(cwd: &str, locator: &str) -> (r: String)
    ensures
        r@ == spec_config_key(cwd@, locator@),
{
    let raw: String = if is_abs_path(locator) {
        if ends_with_str(locator, ".json") {
            locator.to_owned()
        } else {
            join_path(locator, "tsconfig.json")
        }
    } else {
        join_path(cwd, locator)
    };
    normalize_path(raw.as_str())
}

/// Derives the effective base directory for a locator from the snapshot.
pub fn base_dir_for(fs: &FileSystem, cwd: &str, locator: &str) -> (r: String)
    ensures
        r@ == spec_base_dir(*fs, cwd@, locator@),
{
    let key = config_file_key(cwd, locator);
    let dir: String = match parent_path(key.as_str()) {
        Some(d) => d,
        None => {
            proof {
                reveal_strlit("/");
                assert("/"@ =~= seq!['/']);
            }
            String::from_str("/")
        }
    };
    match fs.tsconfig_at(key.as_str()) {
        None => cwd.to_owned(),
        Some(c) => match &c.compiler_options {
            None => dir,
            Some(co) => match &co.base_url {
                None => dir,
                Some(u) => join_path(dir.as_str(), u.as_str()),
            },
        },
    }
}

/// An element-wise copy of an alias map.
fn copy_paths(v: &Vec<(String, Vec<String>)>) -> (r: Vec<(String, Vec<String>)>)
    ensures
        r.deep_view() == v.deep_view(),
{
    let n = v.len();
    let mut r: Vec<(String, Vec<String>)> = Vec::new();
    let mut i: usize = 0;
    while i < n
        invariant
            n == v@.len(),
            i <= n,
            r@.len() == i,
            forall|j: int| 0 <= j < i ==> (#[trigger] r@[j]).0@ == v@[j].0@ && r@[j].1.deep_view()
                == v@[j].1.deep_view(),
        decreases n - i,
    {
        let key = v[i].0.clone();
        let dests = copy_string_vec(&v[i].1);
        r.push((key, dests));
        i += 1;
    }
    proof {
        assert(r.deep_view() =~= v.deep_view());
    }
    r
}

/// What a resolution needs to know about one locator's config: the derived
/// base directory and the alias map, if any.
pub struct CachedConfig {
    pub base_dir: String,
    pub has_paths: bool,
    pub paths: Vec<(String, Vec<String>)>,
}

/// A `CachedConfig` agrees with the direct derivation from the snapshot.
pub open spec fn entry_ok(
    fs: FileSystem,
    cwd: Seq<char>,
    locator: Seq<char>,
    cc: CachedConfig,
) -> bool {
    &&& cc.base_dir@ == spec_base_dir(fs, cwd, locator)
    &&& (match spec_paths_map(fs, cwd, locator) {
        Some(m) => cc.has_paths && cc.paths.deep_view() == m,
        None => !cc.has_paths,
    })
}

fn copy_cached(cc: &CachedConfig) -> (r: CachedConfig)
    ensures
        r.base_dir@ == cc.base_dir@,
        r.has_paths == cc.has_paths,
        r.paths.deep_view() == cc.paths.deep_view(),
{
    CachedConfig {
        base_dir: cc.base_dir.clone(),
        has_paths: cc.has_paths,
        paths: copy_paths(&cc.paths),
    }
}

/// Derives a locator's configuration directly from the snapshot.
pub fn compute_config(fs: &FileSystem, cwd: &str, locator: &str) -> (r: CachedConfig)
    ensures
        entry_ok(*fs, cwd@, locator@, r),
{
    let base_dir = base_dir_for(fs, cwd, locator);
    let key = config_file_key(cwd, locator);
    let mut has_paths = false;
    let mut paths: Vec<(String, Vec<String>)> = Vec::new();
    match fs.tsconfig_at(key.as_str()) {
        None => {}
        Some(c) => match &c.compiler_options {
            None => {}
            Some(co) => match &co.paths {
                None => {}
                Some(p) => {
                    has_paths = true;
                    paths = copy_paths(p);
                }
            },
        },
    }
    CachedConfig { base_dir, has_paths, paths }
}

/// The explicit configuration cache: locator-keyed, with a permanent entry
/// for the derived config path and a time-bounded entry for the parsed
/// configuration, as the concurrency model of the engine calls for.
pub struct ConfigCache {
    /// Validity window of a config entry, in milliseconds.
    pub ttl_ms: u64,
    /// locator -> normalized config path; locators never change meaning, so
    /// these entries never expire.
    pub path_keys: Vec<(String, String)>,
    /// locator -> (derived config, insertion time).
    pub entries: Vec<(String, (CachedConfig, u64))>,
}

impl ConfigCache {
    /// Every entry agrees with the direct derivation from the snapshot.
    pub open spec fn wf(self, fs: FileSystem, cwd: Seq<char>) -> bool {
        &&& (forall|i: int|
            0 <= i < self.path_keys@.len() ==> (#[trigger] self.path_keys@[i]).1@
                == spec_config_key(cwd, self.path_keys@[i].0@))
        &&& (forall|i: int|
            0 <= i < self.entries@.len() ==> entry_ok(
                fs,
                cwd,
                (#[trigger] self.entries@[i]).0@,
                self.entries@[i].1.0,
            ))
    }

    /// An empty cache, valid for any snapshot.
    pub fn new(ttl_ms: u64) -> (r: ConfigCache)
        ensures
            forall|fs: FileSystem, cwd: Seq<char>| #[trigger] r.wf(fs, cwd),
            r.ttl_ms == ttl_ms,
    {
        ConfigCache { ttl_ms, path_keys: Vec::new(), entries: Vec::new() }
    }

    /// The normalized config path for a locator, served from the permanent
    /// cache when present.
    pub fn config_key(&mut self, cwd: &str, locator: &str, Ghost(fs): Ghost<FileSystem>) -> (r:
        String)
        requires
            old(self).wf(fs, cwd@),
        ensures
            final(self).wf(fs, cwd@),
            r@ == spec_config_key(cwd@, locator@),
    {
        let n = self.path_keys.len();
        let mut i: usize = 0;
        while i < n
            invariant
                n == self.path_keys@.len(),
                i <= n,
                self.wf(fs, cwd@),
            decreases n - i,
        {
            if str_eq(self.path_keys[i].0.as_str(), locator) {
                return self.path_keys[i].1.clone();
            }
            i += 1;
        }
        let key = config_file_key(cwd, locator);
        self.path_keys.push((locator.to_owned(), key.clone()));
        key
    }

    /// Index of a cache entry for this locator, if one exists.
    fn find_entry(entries: &Vec<(String, (CachedConfig, u64))>, locator: &str) -> (r: Option<
        usize,
    >)
        ensures
            match r {
                Some(k) => k < entries@.len() && entries@[k as int].0@ == locator@,
                None => true,
            },
    {
        let n = entries.len();
        let mut i: usize = 0;
        while i < n
            invariant
                n == entries@.len(),
                i <= n,
            decreases n - i,
        {
            if str_eq(entries[i].0.as_str(), locator) {
                return Some(i);
            }
            i += 1;
        }
        None
    }

    /// The derived configuration for a locator. A cache entry younger than
    /// the validity window is served as is; otherwise the entry is replaced
    /// by a fresh derivation stamped `now_ms`.
    pub fn lookup(&mut self, fs: &FileSystem, cwd: &str, locator: &str, now_ms: u64) -> (r:
        CachedConfig)
        requires
            old(self).wf(*fs, cwd@),
        ensures
            final(self).wf(*fs, cwd@),
            entry_ok(*fs, cwd@, locator@, r),
    {
        let _key = self.config_key(cwd, locator, Ghost(*fs));
        let found = Self::find_entry(&self.entries, locator);
        match found {
            Some(k) => {
                let stamp = self.entries[k].1.1;
                if now_ms >= stamp && now_ms - stamp < self.ttl_ms {
                    return copy_cached(&self.entries[k].1.0);
                }
                let _evicted = self.entries.remove(k);
                proof {
                    assert(self.wf(*fs, cwd@));
                }
            }
            None => {}
        }
        let fresh = compute_config(fs, cwd, locator);
        let stored = copy_cached(&fresh);
        self.entries.push((locator.to_owned(), (stored, now_ms)));
        proof {
            assert(self.wf(*fs, cwd@));
        }
        fresh
    }
}

} // verus!
