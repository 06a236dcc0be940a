//! The Node-style resolution engine: single-wildcard pattern matching,
//! core-module detection, and the file / directory / `node_modules`
//! probing algorithm, all as pure verified functions over a
//! `fsmodel::FileSystem` snapshot.

use vstd::prelude::*;
use crate::strings::{str_eq, find_char, contains_char, starts_with_str, ends_with_str, concat2,
    concat3, copy_string_vec};
use crate::paths::{is_dot, is_dotdot, spec_is_abs, spec_join, spec_normalize, spec_parent,
    is_abs_path, join_path, normalize_path, parent_path, lemma_parent_shorter};
use crate::fsmodel::{FileSystem, PackageData, ExportsValue, spec_lookup, lookup_entry};

verus! {

/// An error, returned when the module could not be resolved.
#[derive(Debug)]
pub struct ResolutionError {
    pub description: String,
}

impl ResolutionError {
    pub fn new(description: &str) -> (r: Self)
        ensures
            r.description@ == description@,
    {
        ResolutionError { description: String::from_str(description) }
    }
}

/// What matching `search` against the single-wildcard `pattern` yields:
/// the wildcard's capture on success. A search shorter than the pattern
/// never matches; a lone `*` captures everything; a pattern equal to the
/// search matches with an empty capture; otherwise the pattern is split at
/// its first `*` and the capture is what lies between the two anchors.
pub open spec fn spec_match_star(pattern: Seq<char>, search: Seq<char>) -> Option<Seq<char>> {
    if search.len() < pattern.len() {
        None
    } else if pattern.len() == 1 && pattern[0] == '*' {
        Some(search)
    } else if pattern == search {
        Some(Seq::<char>::empty())
    } else {
        match pattern.index_of_first('*') {
            None => None,
            Some(i) => {
                let prefix = pattern.subrange(0, i);
                let suffix = pattern.subrange(i + 1, pattern.len() as int);
                if prefix.is_prefix_of(search) && suffix.is_suffix_of(search) {
                    Some(search.subrange(i, search.len() - suffix.len()))
                } else {
                    None
                }
            }
        }
    }
}

/// Matches a specifier against a single-wildcard pattern, returning the
/// captured substring.
pub fn match_star(pattern: String, search: String) -> (r: Result<String, String>)
    ensures
        match r {
            Ok(c) => spec_match_star(pattern@, search@) == Some(c@),
            Err(e) => spec_match_star(pattern@, search@) is None && e@ == Seq::<char>::empty(),
        },
{
    let plen = pattern.as_str().unicode_len();
    let slen = search.as_str().unicode_len();
    if slen < plen {
        return Err(String::new());
    }
    if plen == 1 && pattern.as_str().get_char(0) == '*' {
        return Ok(search);
    }
    if str_eq(pattern.as_str(), search.as_str()) {
        return Ok(String::new());
    }
    proof {
        pattern@.index_of_first_ensures('*');
    }
    match find_char(pattern.as_str(), '*') {
        None => {
            proof {
                assert(pattern@.index_of_first('*') is None);
            }
            Err(String::new())
        }
        Some(i) => {
            proof {
                assert(pattern@.index_of_first('*') == Some(i as int));
            }
            let prefix = pattern.as_str().substring_char(0, i);
            let suffix = pattern.as_str().substring_char(i + 1, plen);
            if !starts_with_str(search.as_str(), prefix) {
                return Err(String::new());
            }
            if !ends_with_str(search.as_str(), suffix) {
                return Err(String::new());
            }
            let cap = search.as_str().substring_char(i, slen - (plen - (i + 1)));
            Ok(String::from_str(cap))
        }
    }
}

/// A lone wildcard captures the whole search string. The empty search is
/// the one exception: it is shorter than the pattern and is rejected.
pub proof fn lemma_match_star_wildcard(s: Seq<char>)
    requires
        s.len() >= 1,
    ensures
        spec_match_star(seq!['*'], s) == Some(s),
{
}

/// A wildcard-free pattern matches itself exactly, with an empty capture.
pub proof fn lemma_match_star_exact(p: Seq<char>)
    requires
        !p.contains('*'),
    ensures
        spec_match_star(p, p) == Some(Seq::<char>::empty()),
{
    if p.len() == 1 && p[0] == '*' {
        assert(p.contains('*'));
    }
}

/// Substituting a capture for every `*` in a destination pattern.
pub open spec fn spec_replace_star(s: Seq<char>, cap: Seq<char>) -> Seq<char>
    decreases s.len(),
    via spec_replace_star_decreases
{
    match s.index_of_first('*') {
        Some(i) => s.subrange(0, i) + cap + spec_replace_star(
            s.subrange(i + 1, s.len() as int),
            cap,
        ),
        None => s,
    }
}

#[via_fn]
proof fn spec_replace_star_decreases(s: Seq<char>, cap: Seq<char>) {
    s.index_of_first_ensures('*');
}

/// Replaces every `*` in `s` by `cap`.
pub fn replace_star(s: &str, cap: &str) -> (r: String)
    ensures
        r@ == spec_replace_star(s@, cap@),
    decreases s@.len(),
{
    proof {
        s@.index_of_first_ensures('*');
    }
    let n = s.unicode_len();
    match find_char(s, '*') {
        None => {
            proof {
                assert(s@.index_of_first('*') is None);
            }
            s.to_owned()
        }
        Some(i) => {
            proof {
                assert(s@.index_of_first('*') == Some(i as int));
            }
            let head = s.substring_char(0, i);
            let rest = s.substring_char(i + 1, n);
            let tail = replace_star(rest, cap);
            concat3(head, cap, tail.as_str())
        }
    }
}

/// Component-wise prefix removal, as a path would be stripped: the whole
/// string for an empty prefix, the empty string for an exact match, and the
/// remainder after `prefix/` otherwise.
pub open spec fn spec_strip_prefix(t: Seq<char>, r: Seq<char>) -> Option<Seq<char>> {
    if r.len() == 0 {
        Some(t)
    } else if t == r {
        Some(Seq::<char>::empty())
    } else if (r + seq!['/']).is_prefix_of(t) {
        Some(t.skip(r.len() as int + 1))
    } else {
        None
    }
}

/// Strips the leading path components `r` from `t`.
pub fn strip_prefix_path(t: &str, r: &str) -> (res: Option<String>)
    ensures
        match res {
            Some(s) => spec_strip_prefix(t@, r@) == Some(s@),
            None => spec_strip_prefix(t@, r@) is None,
        },
{
    let rl = r.unicode_len();
    let tl = t.unicode_len();
    if rl == 0 {
        return Some(t.to_owned());
    }
    if str_eq(t, r) {
        return Some(String::new());
    }
    if tl > rl {
        let head = t.substring_char(0, rl);
        if str_eq(head, r) && t.get_char(rl) == '/' {
            proof {
                assert(t@.subrange(0, rl + 1) =~= r@ + seq!['/']);
                assert((r@ + seq!['/']).is_prefix_of(t@));
            }
            let rest = t.substring_char(rl + 1, tl);
            proof {
                assert(rest@ =~= t@.skip(rl + 1));
            }
            return Some(String::from_str(rest));
        }
    }
    proof {
        if (r@ + seq!['/']).is_prefix_of(t@) {
            assert((r@ + seq!['/']) =~= t@.subrange(0, rl as int + 1));
            assert(t@[rl as int] == (r@ + seq!['/'])[rl as int]);
            assert(t@[rl as int] == '/');
            assert(t@.subrange(0, rl as int) =~= r@) by {
                assert forall|j: int| 0 <= j < rl implies t@.subrange(0, rl as int)[j] == r@[j] by {
                    assert(t@[j] == (r@ + seq!['/'])[j]);
                }
            }
        }
    }
    None
}

/// Is `target` the name of a builtin module? The snapshot's directory of
/// builtin type-declaration stubs under `stub_dir` decides: a directory
/// entry matches by name, a `NAME.d.ts` file matches as `NAME`. A target
/// with path syntax (`/`, `.`, `..`, or empty) can never equal a directory
/// entry and never matches.
pub open spec fn spec_is_core(fs: FileSystem, stub_dir: Seq<char>, target: Seq<char>) -> bool {
    &&& target.len() > 0
    &&& !target.contains('/')
    &&& !is_dot(target)
    &&& !is_dotdot(target)
    &&& {
        let cand = stub_dir + seq!['/'] + target;
        fs.spec_is_dir(cand) || fs.spec_is_file(cand + ".d.ts"@)
    }
}

/// Check if a string references a core module, such as "events".
pub fn is_core_module(fs: &FileSystem, stub_dir: &str, target: &str) -> (r: bool)
    ensures
        r == spec_is_core(*fs, stub_dir@, target@),
{
    let tl = target.unicode_len();
    if tl == 0 {
        return false;
    }
    if contains_char(target, '/') {
        return false;
    }
    if tl == 1 && target.get_char(0) == '.' {
        return false;
    }
    if tl == 2 && target.get_char(0) == '.' && target.get_char(1) == '.' {
        return false;
    }
    proof {
        reveal_strlit("/");
        assert("/"@ =~= seq!['/']);
    }
    let cand = concat3(stub_dir, "/", target);
    proof {
        assert(cand@ =~= stub_dir@ + seq!['/'] + target@);
    }
    if fs.is_dir(cand.as_str()) {
        return true;
    }
    let with_ext = concat2(cand.as_str(), ".d.ts");
    fs.is_file(with_ext.as_str())
}

/// The first extension, in configured order, under which `p` names a file.
pub open spec fn spec_ext_probe(fs: FileSystem, p: Seq<char>, exts: Seq<Seq<char>>) -> Option<
    Seq<char>,
>
    decreases exts.len(),
{
    if exts.len() == 0 {
        None
    } else if fs.spec_is_file(p + exts[0]) {
        Some(p + exts[0])
    } else {
        spec_ext_probe(fs, p, exts.drop_first())
    }
}

/// Resolution of a candidate as a file: the path itself if it names a file,
/// else the path with the first matching configured extension appended.
pub open spec fn spec_as_file(fs: FileSystem, p: Seq<char>, exts: Seq<Seq<char>>) -> Option<
    Seq<char>,
> {
    if fs.spec_is_file(p) {
        Some(p)
    } else {
        spec_ext_probe(fs, p, exts)
    }
}

/// The first `index.EXT` file inside directory `p`, in extension order.
pub open spec fn spec_index_probe(fs: FileSystem, p: Seq<char>, exts: Seq<Seq<char>>) -> Option<
    Seq<char>,
>
    decreases exts.len(),
{
    if exts.len() == 0 {
        None
    } else {
        let ip = spec_normalize(spec_join(p, "index"@ + exts[0]));
        if fs.spec_is_file(ip) {
            Some(ip)
        } else {
            spec_index_probe(fs, p, exts.drop_first())
        }
    }
}

/// The value of the first main field present, in priority order.
pub open spec fn spec_first_main(fields: Seq<(String, String)>, mains: Seq<Seq<char>>) -> Option<
    Seq<char>,
>
    decreases mains.len(),
{
    if mains.len() == 0 {
        None
    } else {
        match spec_lookup(fields, mains[0]) {
            Some(v) => Some(v@),
            None => spec_first_main(fields, mains.drop_first()),
        }
    }
}

/// Resolution of a candidate as a directory: the `package.json` main field
/// resolved as a file then (one level of indirection deep) as a directory,
/// falling back to the directory's `index.EXT` whenever the main chain
/// yields nothing.
pub open spec fn spec_as_dir(
    fs: FileSystem,
    p: Seq<char>,
    exts: Seq<Seq<char>>,
    mains: Seq<Seq<char>>,
    depth: nat,
) -> Option<Seq<char>>
    decreases depth,
{
    match fs.spec_pkg(p) {
        Some(pd) => match pd {
            PackageData::Object(pc) => match spec_first_main(pc.fields@, mains) {
                Some(v) => {
                    let q = spec_normalize(spec_join(p, v));
                    match spec_as_file(fs, q, exts) {
                        Some(r) => Some(r),
                        None => if depth > 0 {
                            match spec_as_dir(fs, q, exts, mains, (depth - 1) as nat) {
                                Some(r) => Some(r),
                                None => spec_index_probe(fs, p, exts),
                            }
                        } else {
                            spec_index_probe(fs, p, exts)
                        },
                    }
                }
                None => spec_index_probe(fs, p, exts),
            },
            PackageData::Invalid => spec_index_probe(fs, p, exts),
        },
        None => spec_index_probe(fs, p, exts),
    }
}

/// One pass over an `exports` object: entries are tried in order, and the
/// first whose pattern (minus its leading `./`) matches the not-yet-consumed
/// part of the specifier decides the outcome outright.
pub open spec fn spec_exports_entries(
    fs: FileSystem,
    target: Seq<char>,
    pkg_dir: Seq<char>,
    rt: Seq<char>,
    entries: Seq<(String, String)>,
    exts: Seq<Seq<char>>,
) -> Option<Seq<char>>
    decreases entries.len(),
{
    if entries.len() == 0 {
        None
    } else {
        let k = entries[0].0@;
        let dest = entries[0].1@;
        let tail = spec_exports_entries(fs, target, pkg_dir, rt, entries.drop_first(), exts);
        match spec_strip_prefix(target, rt) {
            None => tail,
            Some(ss) => if "./"@.is_prefix_of(k) {
                match spec_match_star(k.skip(2), ss) {
                    Some(cap) => spec_as_file(
                        fs,
                        spec_normalize(spec_join(pkg_dir, spec_replace_star(dest, cap))),
                        exts,
                    ),
                    None => tail,
                }
            } else {
                tail
            },
        }
    }
}

/// Package-`exports` resolution rooted at `pkg_dir`. When that directory
/// holds no `package.json` and the remaining subpath still has a `/`, the
/// search retries one path segment up, treating the parent directory as the
/// package root.
pub open spec fn spec_exports(
    fs: FileSystem,
    target: Seq<char>,
    pkg_dir: Seq<char>,
    rt: Seq<char>,
    exts: Seq<Seq<char>>,
) -> Option<Seq<char>>
    decreases rt.len(),
    via spec_exports_decreases
{
    match fs.spec_pkg(pkg_dir) {
        None => {
            if rt.contains('/') {
                let pd = match spec_parent(pkg_dir) {
                    Some(q) => q,
                    None => seq!['/'],
                };
                let prt = match spec_parent(rt) {
                    Some(q) => q,
                    None => Seq::<char>::empty(),
                };
                spec_exports(fs, target, pd, prt, exts)
            } else {
                None
            }
        }
        Some(pd) => match pd {
            PackageData::Invalid => None,
            PackageData::Object(pc) => match pc.exports {
                ExportsValue::Missing => None,
                ExportsValue::Text(s) => spec_as_file(
                    fs,
                    spec_normalize(spec_join(pkg_dir, s@)),
                    exts,
                ),
                ExportsValue::List(v) => if v@.len() == 0 {
                    None
                } else {
                    spec_as_file(fs, spec_normalize(spec_join(pkg_dir, v@[0]@)), exts)
                },
                ExportsValue::Entries(es) => spec_exports_entries(
                    fs,
                    target,
                    pkg_dir,
                    rt,
                    es@,
                    exts,
                ),
            },
        },
    }
}

#[via_fn]
proof fn spec_exports_decreases(
    fs: FileSystem,
    target: Seq<char>,
    pkg_dir: Seq<char>,
    rt: Seq<char>,
    exts: Seq<Seq<char>>,
) {
    lemma_parent_shorter(rt);
    if rt.contains('/') {
        let i = choose|i: int| 0 <= i < rt.len() && rt[i] == '/';
        assert(rt.len() > 0);
    }
}

/// The directory of builtin type-declaration stubs, relative to the
/// working directory.
pub open spec fn spec_stub_dir(cwd: Seq<char>) -> Seq<char> {
    spec_normalize(spec_join(cwd, "node_modules/@types/node"@))
}

/// The form a successful resolution is reported in: the canonical
/// (symlink-free) path, or the purely lexical normal form when symlinks are
/// to be preserved.
pub open spec fn spec_finalize(fs: FileSystem, p: Seq<char>, preserve: bool) -> Seq<char> {
    if preserve {
        spec_normalize(p)
    } else {
        fs.spec_canon(p)
    }
}

/// File-then-directory resolution of one candidate path.
pub open spec fn spec_probe_at(
    fs: FileSystem,
    cand: Seq<char>,
    exts: Seq<Seq<char>>,
    mains: Seq<Seq<char>>,
) -> Option<Seq<char>> {
    match spec_as_file(fs, cand, exts) {
        Some(r) => Some(r),
        None => spec_as_dir(fs, cand, exts, mains, 1),
    }
}

/// The `node_modules` walk: at `base` and then at each ancestor in turn,
/// probe `node_modules/TARGET` as a file, as a directory, and through the
/// package `exports` map; stop at the filesystem root.
pub open spec fn spec_walk(
    fs: FileSystem,
    base: Seq<char>,
    target: Seq<char>,
    exts: Seq<Seq<char>>,
    mains: Seq<Seq<char>>,
) -> Option<Seq<char>>
    decreases base.len(),
    via spec_walk_decreases
{
    let nm = spec_normalize(spec_join(base, "node_modules"@));
    let found = if fs.spec_is_dir(nm) {
        let cand = spec_normalize(spec_join(nm, target));
        match spec_probe_at(fs, cand, exts, mains) {
            Some(r) => Some(r),
            None => spec_exports(fs, target, cand, target, exts),
        }
    } else {
        None
    };
    match found {
        Some(r) => Some(r),
        None => match spec_parent(base) {
            Some(par) => spec_walk(fs, par, target, exts, mains),
            None => None,
        },
    }
}

/// Probes `p` and then `p` + each configured extension.
fn resolve_as_file(fs: &FileSystem, p: &str, exts: &Vec<String>) -> (r: Option<String>)
    ensures
        match r {
            Some(q) => spec_as_file(*fs, p@, exts.deep_view()) == Some(q@),
            None => spec_as_file(*fs, p@, exts.deep_view()) is None,
        },
{
    if fs.is_file(p) {
        return Some(p.to_owned());
    }
    let n = exts.len();
    let mut i: usize = 0;
    proof {
        assert(exts.deep_view().skip(0) =~= exts.deep_view());
    }
    while i < n
        invariant
            n == exts@.len(),
            i <= n,
            !fs.spec_is_file(p@),
            spec_ext_probe(*fs, p@, exts.deep_view()) == spec_ext_probe(
                *fs,
                p@,
                exts.deep_view().skip(i as int),
            ),
        decreases n - i,
    {
        proof {
            assert(exts.deep_view().skip(i as int)[0] == exts@[i as int]@);
            assert(exts.deep_view().skip(i as int).drop_first() =~= exts.deep_view().skip(
                i as int + 1,
            ));
        }
        let cand = concat2(p, exts[i].as_str());
        if fs.is_file(cand.as_str()) {
            proof {
                assert(cand@ =~= p@ + exts.deep_view().skip(i as int)[0]);
                assert(spec_ext_probe(*fs, p@, exts.deep_view().skip(i as int)) == Some(cand@));
            }
            return Some(cand);
        }
        i += 1;
    }
    None
}

/// Probes `p/index.EXT` for each configured extension.
fn resolve_index(fs: &FileSystem, p: &str, exts: &Vec<String>) -> (r: Option<String>)
    ensures
        match r {
            Some(q) => spec_index_probe(*fs, p@, exts.deep_view()) == Some(q@),
            None => spec_index_probe(*fs, p@, exts.deep_view()) is None,
        },
{
    let n = exts.len();
    let mut i: usize = 0;
    proof {
        assert(exts.deep_view().skip(0) =~= exts.deep_view());
    }
    while i < n
        invariant
            n == exts@.len(),
            i <= n,
            spec_index_probe(*fs, p@, exts.deep_view()) == spec_index_probe(
                *fs,
                p@,
                exts.deep_view().skip(i as int),
            ),
        decreases n - i,
    {
        proof {
            assert(exts.deep_view().skip(i as int)[0] == exts@[i as int]@);
            assert(exts.deep_view().skip(i as int).drop_first() =~= exts.deep_view().skip(
                i as int + 1,
            ));
        }
        let name = concat2("index", exts[i].as_str());
        let ip = normalize_path(join_path(p, name.as_str()).as_str());
        if fs.is_file(ip.as_str()) {
            return Some(ip);
        }
        i += 1;
    }
    None
}

/// The value of the first main field present, in priority order.
fn first_main<'a>(fields: &'a Vec<(String, String)>, mains: &Vec<String>) -> (r: Option<
    &'a String,
>)
    ensures
        match r {
            Some(v) => spec_first_main(fields@, mains.deep_view()) == Some(v@),
            None => spec_first_main(fields@, mains.deep_view()) is None,
        },
{
    let n = mains.len();
    let mut i: usize = 0;
    proof {
        assert(mains.deep_view().skip(0) =~= mains.deep_view());
    }
    while i < n
        invariant
            n == mains@.len(),
            i <= n,
            spec_first_main(fields@, mains.deep_view()) == spec_first_main(
                fields@,
                mains.deep_view().skip(i as int),
            ),
        decreases n - i,
    {
        proof {
            assert(mains.deep_view().skip(i as int)[0] == mains@[i as int]@);
            assert(mains.deep_view().skip(i as int).drop_first() =~= mains.deep_view().skip(
                i as int + 1,
            ));
        }
        match lookup_entry(fields, mains[i].as_str()) {
            Some(v) => {
                return Some(v);
            }
            None => {}
        }
        i += 1;
    }
    None
}

/// Resolution of a candidate as a directory.
fn resolve_as_directory(fs: &FileSystem, p: &str, exts: &Vec<String>, mains: &Vec<String>, depth: u32) -> (r:
    Option<String>)
    ensures
        match r {
            Some(q) => spec_as_dir(*fs, p@, exts.deep_view(), mains.deep_view(), depth as nat)
                == Some(q@),
            None => spec_as_dir(*fs, p@, exts.deep_view(), mains.deep_view(), depth as nat)
                is None,
        },
    decreases depth,
{
    match fs.pkg(p) {
        Some(pd) => match pd {
            PackageData::Object(pc) => match first_main(&pc.fields, mains) {
                Some(v) => {
                    let q = normalize_path(join_path(p, v.as_str()).as_str());
                    match resolve_as_file(fs, q.as_str(), exts) {
                        Some(r) => Some(r),
                        None => if depth > 0 {
                            match resolve_as_directory(fs, q.as_str(), exts, mains, depth - 1) {
                                Some(r) => Some(r),
                                None => resolve_index(fs, p, exts),
                            }
                        } else {
                            resolve_index(fs, p, exts)
                        },
                    }
                }
                None => resolve_index(fs, p, exts),
            },
            PackageData::Invalid => resolve_index(fs, p, exts),
        },
        None => resolve_index(fs, p, exts),
    }
}

/// One pass over an `exports` object.
fn exports_entries(
    fs: &FileSystem,
    target: &str,
    pkg_dir: &str,
    rt: &str,
    entries: &Vec<(String, String)>,
    exts: &Vec<String>,
) -> (r: Option<String>)
    ensures
        match r {
            Some(q) => spec_exports_entries(
                *fs,
                target@,
                pkg_dir@,
                rt@,
                entries@,
                exts.deep_view(),
            ) == Some(q@),
            None => spec_exports_entries(*fs, target@, pkg_dir@, rt@, entries@, exts.deep_view())
                is None,
        },
{
    let n = entries.len();
    let mut i: usize = 0;
    proof {
        assert(entries@.skip(0) =~= entries@);
    }
    while i < n
        invariant
            n == entries@.len(),
            i <= n,
            spec_exports_entries(*fs, target@, pkg_dir@, rt@, entries@, exts.deep_view())
                == spec_exports_entries(
                *fs,
                target@,
                pkg_dir@,
                rt@,
                entries@.skip(i as int),
                exts.deep_view(),
            ),
        decreases n - i,
    {
        proof {
            assert(entries@.skip(i as int)[0] == entries@[i as int]);
            assert(entries@.skip(i as int).drop_first() =~= entries@.skip(i as int + 1));
        }
        match strip_prefix_path(target, rt) {
            None => {}
            Some(ss) => {
                let key = entries[i].0.as_str();
                if starts_with_str(key, "./") {
                    let klen = key.unicode_len();
                    proof {
                        reveal_strlit("./");
                    }
                    let kk = key.substring_char(2, klen);
                    proof {
                        assert(kk@ =~= key@.skip(2));
                    }
                    match match_star(String::from_str(kk), ss) {
                        Ok(cap) => {
                            let phys = replace_star(entries[i].1.as_str(), cap.as_str());
                            let cand = normalize_path(join_path(pkg_dir, phys.as_str()).as_str());
                            return resolve_as_file(fs, cand.as_str(), exts);
                        }
                        Err(_) => {}
                    }
                }
            }
        }
        i += 1;
    }
    None
}

/// Package-`exports` resolution rooted at `pkg_dir`.
fn resolve_package_exports(
    fs: &FileSystem,
    target: &str,
    pkg_dir: &str,
    rt: &str,
    exts: &Vec<String>,
) -> (r: Option<String>)
    ensures
        match r {
            Some(q) => spec_exports(*fs, target@, pkg_dir@, rt@, exts.deep_view()) == Some(q@),
            None => spec_exports(*fs, target@, pkg_dir@, rt@, exts.deep_view()) is None,
        },
    decreases rt@.len(),
{
    match fs.pkg(pkg_dir) {
        None => {
            if contains_char(rt, '/') {
                let pd: String = match parent_path(pkg_dir) {
                    Some(q) => q,
                    None => {
                        proof {
                            reveal_strlit("/");
                            assert("/"@ =~= seq!['/']);
                        }
                        String::from_str("/")
                    }
                };
                let prt: String = match parent_path(rt) {
                    Some(q) => q,
                    None => String::new(),
                };
                proof {
                    lemma_parent_shorter(rt@);
                    let k = choose|k: int| 0 <= k < rt@.len() && rt@[k] == '/';
                    assert(rt@.len() > 0);
                }
                resolve_package_exports(fs, target, pd.as_str(), prt.as_str(), exts)
            } else {
                None
            }
        }
        Some(pd) => match pd {
            PackageData::Invalid => None,
            PackageData::Object(pc) => match &pc.exports {
                ExportsValue::Missing => None,
                ExportsValue::Text(s) => {
                    let cand = normalize_path(join_path(pkg_dir, s.as_str()).as_str());
                    resolve_as_file(fs, cand.as_str(), exts)
                }
                ExportsValue::List(v) => {
                    if v.len() == 0 {
                        None
                    } else {
                        let cand = normalize_path(join_path(pkg_dir, v[0].as_str()).as_str());
                        resolve_as_file(fs, cand.as_str(), exts)
                    }
                }
                ExportsValue::Entries(es) => exports_entries(fs, target, pkg_dir, rt, es, exts),
            },
        },
    }
}

/// File-then-directory resolution of one candidate path.
fn probe_at(fs: &FileSystem, cand: &str, exts: &Vec<String>, mains: &Vec<String>) -> (r: Option<
    String,
>)
    ensures
        match r {
            Some(q) => spec_probe_at(*fs, cand@, exts.deep_view(), mains.deep_view())
                == Some(q@),
            None => spec_probe_at(*fs, cand@, exts.deep_view(), mains.deep_view()) is None,
        },
{
    match resolve_as_file(fs, cand, exts) {
        Some(r) => Some(r),
        None => resolve_as_directory(fs, cand, exts, mains, 1),
    }
}

/// The `node_modules` walk, as an explicit loop over ancestor directories.
fn resolve_node_modules(
    fs: &FileSystem,
    basedir: &str,
    target: &str,
    exts: &Vec<String>,
    mains: &Vec<String>,
) -> (r: Option<String>)
    ensures
        match r {
            Some(q) => spec_walk(*fs, basedir@, target@, exts.deep_view(), mains.deep_view())
                == Some(q@),
            None => spec_walk(*fs, basedir@, target@, exts.deep_view(), mains.deep_view())
                is None,
        },
{
    let mut cur: String = basedir.to_owned();
    loop
        invariant
            spec_walk(*fs, basedir@, target@, exts.deep_view(), mains.deep_view()) == spec_walk(
                *fs,
                cur@,
                target@,
                exts.deep_view(),
                mains.deep_view(),
            ),
        decreases cur@.len(),
    {
        let nm = normalize_path(join_path(cur.as_str(), "node_modules").as_str());
        if fs.is_dir(nm.as_str()) {
            let cand = normalize_path(join_path(nm.as_str(), target).as_str());
            match probe_at(fs, cand.as_str(), exts, mains) {
                Some(r) => {
                    return Some(r);
                }
                None => {
                    match resolve_package_exports(fs, target, cand.as_str(), target, exts) {
                        Some(r) => {
                            return Some(r);
                        }
                        None => {}
                    }
                }
            }
        }
        match parent_path(cur.as_str()) {
            Some(par) => {
                proof {
                    lemma_parent_shorter(cur@);
                }
                cur = par;
            }
            None => {
                return None;
            }
        }
    }
}

#[via_fn]
proof fn spec_walk_decreases(
    fs: FileSystem,
    base: Seq<char>,
    target: Seq<char>,
    exts: Seq<Seq<char>>,
    mains: Seq<Seq<char>>,
) {
    lemma_parent_shorter(base);
}

/// The whole engine, over an explicit configuration: a core-module name
/// resolves to itself; an absolute specifier is probed from the root; a
/// relative or bare one is probed from the base directory and then through
/// the `node_modules` walk. A found path is reported in its final
/// (canonical or lexically normalized) form.
pub open spec fn spec_resolve(
    fs: FileSystem,
    basedir: Option<Seq<char>>,
    exts: Seq<Seq<char>>,
    mains: Seq<Seq<char>>,
    preserve: bool,
    cwd: Seq<char>,
    target: Seq<char>,
) -> Option<Seq<char>> {
    if spec_is_core(fs, spec_stub_dir(cwd), target) {
        Some(target)
    } else if spec_is_abs(target) {
        let cand = spec_normalize(target);
        match spec_probe_at(fs, cand, exts, mains) {
            Some(r) => Some(spec_finalize(fs, r, preserve)),
            None => None,
        }
    } else {
        match basedir {
            None => None,
            Some(b) => {
                let bn = spec_normalize(b);
                let cand = spec_normalize(spec_join(bn, target));
                match spec_probe_at(fs, cand, exts, mains) {
                    Some(r) => Some(spec_finalize(fs, r, preserve)),
                    None => match spec_walk(fs, bn, target, exts, mains) {
                        Some(r) => Some(spec_finalize(fs, r, preserve)),
                        None => None,
                    },
                }
            }
        }
    }
}

/// An extension is stored with a leading dot, whether or not it was
/// configured with one.
pub open spec fn spec_norm_ext(e: Seq<char>) -> Seq<char> {
    if e.len() > 0 && e[0] == '.' {
        e
    } else {
        seq!['.'] + e
    }
}

/// Resolver instances keep track of options.
pub struct Resolver {
    pub basedir: Option<String>,
    pub extensions: Vec<String>,
    pub preserve_symlinks: bool,
    pub main_fields: Vec<String>,
}

/// The default options: no base directory, the `.js`, `.json`, `.node`
/// extensions, symlinks resolved, and `main` as the only main field.
impl Default for Resolver {
    fn default() -> (r: Resolver)
        ensures
            r.basedir is None,
            r.extensions.deep_view() == seq![".js"@, ".json"@, ".node"@],
            r.preserve_symlinks == false,
            r.main_fields.deep_view() == seq!["main"@],
    {
        let mut extensions: Vec<String> = Vec::new();
        extensions.push(String::from_str(".js"));
        extensions.push(String::from_str(".json"));
        extensions.push(String::from_str(".node"));
        let mut main_fields: Vec<String> = Vec::new();
        main_fields.push(String::from_str("main"));
        let r = Resolver { basedir: None, extensions, preserve_symlinks: false, main_fields };
        proof {
            assert(r.extensions.deep_view() =~= seq![".js"@, ".json"@, ".node"@]);
            assert(r.main_fields.deep_view() =~= seq!["main"@]);
        }
        r
    }
}

impl Resolver {
    /// What this resolver's `resolve` returns, as a function of the
    /// snapshot, the working directory and the specifier.
    pub open spec fn spec_result(self, fs: FileSystem, cwd: Seq<char>, target: Seq<char>)
        -> Option<Seq<char>> {
        spec_resolve(
            fs,
            self.basedir.deep_view(),
            self.extensions.deep_view(),
            self.main_fields.deep_view(),
            self.preserve_symlinks,
            cwd,
            target,
        )
    }

    /// Create a new resolver with the default options.
    pub fn new() -> (r: Self)
        ensures
            r.basedir is None,
            r.extensions.deep_view() == seq![".js"@, ".json"@, ".node"@],
            r.preserve_symlinks == false,
            r.main_fields.deep_view() == seq!["main"@],
    {
        Resolver::default()
    }

    /// The configured base directory, or the configuration error that
    /// resolving without one reports.
    pub fn get_basedir(&self) -> (r: Result<&String, ResolutionError>)
        ensures
            match r {
                Ok(b) => self.basedir == Some(*b),
                Err(_) => self.basedir is None,
            },
    {
        match &self.basedir {
            Some(b) => Ok(b),
            None => Err(ResolutionError::new("Must set a basedir before resolving")),
        }
    }

    /// Create a new resolver with a different basedir.
    pub fn with_basedir(&self, basedir: String) -> (r: Self)
        ensures
            r.basedir == Some(basedir),
            r.extensions.deep_view() == self.extensions.deep_view(),
            r.preserve_symlinks == self.preserve_symlinks,
            r.main_fields.deep_view() == self.main_fields.deep_view(),
    {
        Resolver {
            basedir: Some(basedir),
            extensions: copy_string_vec(&self.extensions),
            preserve_symlinks: self.preserve_symlinks,
            main_fields: copy_string_vec(&self.main_fields),
        }
    }

    /// Create a new resolver with a different set of extensions, each
    /// normalized to start with a dot.
    pub fn with_extensions(&self, extensions: &Vec<String>) -> (r: Self)
        ensures
            r.basedir == self.basedir,
            r.extensions.deep_view() == extensions.deep_view().map_values(
                |e: Seq<char>| spec_norm_ext(e),
            ),
            r.preserve_symlinks == self.preserve_symlinks,
            r.main_fields.deep_view() == self.main_fields.deep_view(),
    {
        let n = extensions.len();
        let mut normed: Vec<String> = Vec::new();
        let mut i: usize = 0;
        while i < n
            invariant
                n == extensions@.len(),
                i <= n,
                normed@.len() == i,
                forall|j: int|
                    0 <= j < i ==> (#[trigger] normed@[j])@ == spec_norm_ext(
                        extensions@[j]@,
                    ),
            decreases n - i,
        {
            let e = extensions[i].as_str();
            let starts_dot: bool = if e.unicode_len() > 0 {
                e.get_char(0) == '.'
            } else {
                false
            };
            if starts_dot {
                normed.push(extensions[i].clone());
            } else {
                proof {
                    reveal_strlit(".");
                    assert("."@ =~= seq!['.']);
                }
                normed.push(concat2(".", e));
            }
            i += 1;
        }
        let r = Resolver {
            basedir: match &self.basedir {
                Some(b) => Some(b.clone()),
                None => None,
            },
            extensions: normed,
            preserve_symlinks: self.preserve_symlinks,
            main_fields: copy_string_vec(&self.main_fields),
        };
        proof {
            assert(r.extensions.deep_view() =~= extensions.deep_view().map_values(
                |e: Seq<char>| spec_norm_ext(e),
            ));
        }
        r
    }

    /// Create a new resolver with a different set of main fields.
    pub fn with_main_fields(&self, main_fields: &Vec<String>) -> (r: Self)
        ensures
            r.basedir == self.basedir,
            r.extensions.deep_view() == self.extensions.deep_view(),
            r.preserve_symlinks == self.preserve_symlinks,
            r.main_fields.deep_view() == main_fields.deep_view(),
    {
        Resolver {
            basedir: match &self.basedir {
                Some(b) => Some(b.clone()),
                None => None,
            },
            extensions: copy_string_vec(&self.extensions),
            preserve_symlinks: self.preserve_symlinks,
            main_fields: copy_string_vec(main_fields),
        }
    }

    /// Create a new resolver with a different symlink option.
    pub fn preserve_symlinks(&self, preserve_symlinks: bool) -> (r: Self)
        ensures
            r.basedir == self.basedir,
            r.extensions.deep_view() == self.extensions.deep_view(),
            r.preserve_symlinks == preserve_symlinks,
            r.main_fields.deep_view() == self.main_fields.deep_view(),
    {
        Resolver {
            basedir: match &self.basedir {
                Some(b) => Some(b.clone()),
                None => None,
            },
            extensions: copy_string_vec(&self.extensions),
            preserve_symlinks,
            main_fields: copy_string_vec(&self.main_fields),
        }
    }

    /// A found path in its final form.
    fn normalize(&self, fs: &FileSystem, p: &str) -> (r: String)
        ensures
            r@ == spec_finalize(*fs, p@, self.preserve_symlinks),
    {
        if self.preserve_symlinks {
            normalize_path(p)
        } else {
            fs.canonical_of(p)
        }
    }

    /// Resolve a `require()` argument against the snapshot; `cwd` is the
    /// working directory the builtin-stub directory hangs off.
    pub fn resolve(&self, fs: &FileSystem, cwd: &str, target: &str) -> (r: Result<
        String,
        ResolutionError,
    >)
        ensures
            match r {
                Ok(p) => self.spec_result(*fs, cwd@, target@) == Some(p@),
                Err(_) => self.spec_result(*fs, cwd@, target@) is None,
            },
            (self.basedir is None && !spec_is_core(*fs, spec_stub_dir(cwd@), target@)
                && !spec_is_abs(target@)) ==> (r matches Err(e) && e.description@
                == "Must set a basedir before resolving"@),
    {
        let stub = normalize_path(join_path(cwd, "node_modules/@types/node").as_str());
        if is_core_module(fs, stub.as_str(), target) {
            return Ok(target.to_owned());
        }
        if is_abs_path(target) {
            let cand = normalize_path(target);
            return match probe_at(fs, cand.as_str(), &self.extensions, &self.main_fields) {
                Some(p) => Ok(self.normalize(fs, p.as_str())),
                None => Err(ResolutionError::new("Not found")),
            };
        }
        match &self.basedir {
            None => Err(ResolutionError::new("Must set a basedir before resolving")),
            Some(b) => {
                let bn = normalize_path(b.as_str());
                let cand = normalize_path(join_path(bn.as_str(), target).as_str());
                match probe_at(fs, cand.as_str(), &self.extensions, &self.main_fields) {
                    Some(p) => Ok(self.normalize(fs, p.as_str())),
                    None => match resolve_node_modules(
                        fs,
                        bn.as_str(),
                        target,
                        &self.extensions,
                        &self.main_fields,
                    ) {
                        Some(p) => Ok(self.normalize(fs, p.as_str())),
                        None => Err(ResolutionError::new("Not found")),
                    },
                }
            }
        }
    }
}

/// Extension probing order is priority, not preference by kind: when the
/// bare path names no file and the first configured extension names one,
/// that hit is the result, whatever later extensions would also name.
pub proof fn lemma_extension_order(fs: FileSystem, p: Seq<char>, exts: Seq<Seq<char>>)
    requires
        !fs.spec_is_file(p),
        exts.len() > 0,
        fs.spec_is_file(p + exts[0]),
    ensures
        spec_as_file(fs, p, exts) == Some(p + exts[0]),
{
}

/// Main fields are tried in priority order: a string value under the first
/// field name decides, whatever the later names hold.
pub proof fn lemma_main_field_priority(
    fields: Seq<(String, String)>,
    mains: Seq<Seq<char>>,
    v: String,
)
    requires
        mains.len() > 0,
        spec_lookup(fields, mains[0]) == Some(v),
    ensures
        spec_first_main(fields, mains) == Some(v@),
{
}

/// Resolve a node.js module path relative to the working directory.
/// Returns the absolute path to the module, or an error.
pub fn resolve(fs: &FileSystem, cwd: &str, target: &str) -> (r: Result<String, ResolutionError>)
    ensures
        match r {
            Ok(p) => spec_resolve(
                *fs,
                Some(cwd@),
                seq![".js"@, ".json"@, ".node"@],
                seq!["main"@],
                false,
                cwd@,
                target@,
            ) == Some(p@),
            Err(_) => spec_resolve(
                *fs,
                Some(cwd@),
                seq![".js"@, ".json"@, ".node"@],
                seq!["main"@],
                false,
                cwd@,
                target@,
            ) is None,
        },
{
    Resolver::new().with_basedir(cwd.to_owned()).resolve(fs, cwd, target)
}

/// Resolve a node.js module path relative to `basedir`.
/// Returns the absolute path to the module, or an error.
pub fn resolve_from(fs: &FileSystem, cwd: &str, target: &str, basedir: String) -> (r: Result<
    String,
    ResolutionError,
>)
    ensures
        match r {
            Ok(p) => spec_resolve(
                *fs,
                Some(basedir@),
                seq![".js"@, ".json"@, ".node"@],
                seq!["main"@],
                false,
                cwd@,
                target@,
            ) == Some(p@),
            Err(_) => spec_resolve(
                *fs,
                Some(basedir@),
                seq![".js"@, ".json"@, ".node"@],
                seq!["main"@],
                false,
                cwd@,
                target@,
            ) is None,
        },
{
    Resolver::new().with_basedir(basedir).resolve(fs, cwd, target)
}

} // verus!
