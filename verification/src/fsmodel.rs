//! Snapshot of the filesystem state a resolution runs against.
//!
//! The engine never touches a disk: the host builds a `FileSystem` value
//! describing the files, directories, parsed `package.json` and
//! `tsconfig.json` contents, and the symlink structure that matter for the
//! resolution, and the verified algorithm answers purely from it. All paths
//! stored here are in lexical normal form (see `paths::spec_normalize`).

use vstd::prelude::*;
use crate::strings::{str_eq, ends_with_str};
use crate::config::TsConfig;

verus! {

/// Contents of one parsed `package.json` object.
pub struct PackageContents {
    /// Top-level fields whose value is a string, in object order. Fields
    /// holding any other JSON value never act as a "main" field and are
    /// omitted by the host when it builds the snapshot.
    pub fields: Vec<(String, String)>,
    /// The `exports` field, reduced to the supported forms.
    pub exports: ExportsValue,
}

/// The supported shapes of a `package.json` `exports` field.
pub enum ExportsValue {
    /// No `exports` field, or one of an unsupported shape.
    Missing,
    /// A plain string.
    Text(String),
    /// An array: only its string entries, in array order.
    List(Vec<String>),
    /// An object mapping subpath patterns to string destinations, in the
    /// order the host supplies them.
    Entries(Vec<(String, String)>),
}

/// What a `package.json` file on disk parsed to.
pub enum PackageData {
    /// The file exists but is not valid JSON, or is not a JSON object.
    Invalid,
    /// A JSON object.
    Object(PackageContents),
}

/// The filesystem snapshot a resolution runs against.
pub struct FileSystem {
    /// Normalized paths of regular files.
    pub files: Vec<String>,
    /// Normalized paths of directories.
    pub dirs: Vec<String>,
    /// Parse result of `DIR/package.json` for each directory `DIR` that has
    /// one, keyed by the normalized directory path.
    pub packages: Vec<(String, PackageData)>,
    /// Parsed `tsconfig.json` files, keyed by normalized path. A config file
    /// that exists but cannot be parsed is simply absent.
    pub tsconfigs: Vec<(String, TsConfig)>,
    /// Canonical (symlink-free) form of each path whose canonical form
    /// differs from its normalized form.
    pub links: Vec<(String, String)>,
}

/// First value stored under `key`, searching in order.
pub open spec fn spec_lookup<V>(entries: Seq<(String, V)>, key: Seq<char>) -> Option<V>
    decreases entries.len(),
{
    if entries.len() == 0 {
        None
    } else if entries[0].0@ == key {
        Some(entries[0].1)
    } else {
        spec_lookup(entries.drop_first(), key)
    }
}

/// Association lookup on a vector of key/value pairs; the first match wins.
pub fn lookup_entry<'a, V>(entries: &'a Vec<(String, V)>, key: &str) -> (r: Option<&'a V>)
    ensures
        match r {
            Some(v) => spec_lookup(entries@, key@) == Some(*v),
            None => spec_lookup(entries@, key@) is None,
        },
{
    let n = entries.len();
    let mut i: usize = 0;
    proof {
        assert(entries@.skip(0) =~= entries@);
    }
    while i < n
        invariant
            n == entries@.len(),
            i <= n,
            spec_lookup(entries@, key@) == spec_lookup(entries@.skip(i as int), key@),
        decreases n - i,
    {
        proof {
            assert(entries@.skip(i as int)[0] == entries@[i as int]);
            assert(entries@.skip(i as int).drop_first() =~= entries@.skip(i + 1));
        }
        if str_eq(entries[i].0.as_str(), key) {
            return Some(&entries[i].1);
        }
        i += 1;
    }
    proof {
        assert(entries@.skip(n as int).len() == 0);
    }
    None
}

/// Membership of a path in a list of normalized paths.
pub fn contains_path(v: &Vec<String>, p: &str) -> (r: bool)
    ensures
        r == v.deep_view().contains(p@),
{
    let n = v.len();
    let mut i: usize = 0;
    while i < n
        invariant
            n == v@.len(),
            i <= n,
            forall|j: int| 0 <= j < i ==> v.deep_view()[j] != p@,
        decreases n - i,
    {
        if str_eq(v[i].as_str(), p) {
            proof {
                assert(v.deep_view()[i as int] == p@);
            }
            return true;
        }
        i += 1;
    }
    proof {
        assert(forall|j: int| 0 <= j < v.deep_view().len() ==> v.deep_view()[j] != p@);
    }
    false
}

/// The directory whose `package.json` the path `p` names, if any.
pub open spec fn spec_pkg_dir_of(p: Seq<char>) -> Option<Seq<char>> {
    let suf = "/package.json"@;
    if suf.is_suffix_of(p) {
        let d = p.subrange(0, p.len() - suf.len());
        if d.len() == 0 {
            Some(seq!['/'])
        } else {
            Some(d)
        }
    } else {
        None
    }
}

impl FileSystem {
    /// Parse result of the `package.json` inside directory `d`.
    pub open spec fn spec_pkg(self, d: Seq<char>) -> Option<PackageData> {
        spec_lookup(self.packages@, d)
    }

    /// Does the normalized path `p` name a regular file? A directory's
    /// `package.json` counts whether or not the host also listed it under
    /// `files`.
    pub open spec fn spec_is_file(self, p: Seq<char>) -> bool {
        self.files.deep_view().contains(p) || (match spec_pkg_dir_of(p) {
            Some(d) => self.spec_pkg(d) is Some,
            None => false,
        })
    }

    /// Does the normalized path `p` name a directory?
    pub open spec fn spec_is_dir(self, p: Seq<char>) -> bool {
        self.dirs.deep_view().contains(p)
    }

    /// The canonical form of normalized path `p`.
    pub open spec fn spec_canon(self, p: Seq<char>) -> Seq<char> {
        match spec_lookup(self.links@, p) {
            Some(q) => q@,
            None => p,
        }
    }

    /// Parsed tsconfig stored under normalized path `p`.
    pub open spec fn spec_tsconfig(self, p: Seq<char>) -> Option<TsConfig> {
        spec_lookup(self.tsconfigs@, p)
    }

    pub fn is_file(&self, p: &str) -> (r: bool)
        ensures
            r == self.spec_is_file(p@),
    {
        if contains_path(&self.files, p) {
            return true;
        }
        let suf = "/package.json";
        if ends_with_str(p, suf) {
            let n = p.unicode_len();
            let sl = suf.unicode_len();
            let d: String = if n == sl {
                proof {
                    reveal_strlit("/");
                    assert("/"@ =~= seq!['/']);
                }
                String::from_str("/")
            } else {
                String::from_str(p.substring_char(0, n - sl))
            };
            proof {
                assert(spec_pkg_dir_of(p@) == Some(d@));
            }
            lookup_entry(&self.packages, d.as_str()).is_some()
        } else {
            false
        }
    }

    pub fn is_dir(&self, p: &str) -> (r: bool)
        ensures
            r == self.spec_is_dir(p@),
    {
        contains_path(&self.dirs, p)
    }

    pub fn pkg(&self, d: &str) -> (r: Option<&PackageData>)
        ensures
            match r {
                Some(v) => self.spec_pkg(d@) == Some(*v),
                None => self.spec_pkg(d@) is None,
            },
    {
        lookup_entry(&self.packages, d)
    }

    pub fn canonical_of(&self, p: &str) -> (r: String)
        ensures
            r@ == self.spec_canon(p@),
    {
        match lookup_entry(&self.links, p) {
            Some(q) => q.clone(),
            None => p.to_owned(),
        }
    }

    pub fn tsconfig_at(&self, p: &str) -> (r: Option<&TsConfig>)
        ensures
            match r {
                Some(v) => self.spec_tsconfig(p@) == Some(*v),
                None => self.spec_tsconfig(p@) is None,
            },
    {
        lookup_entry(&self.tsconfigs, p)
    }
}

} // verus!
