//! Module-specifier resolution following Node.js semantics, extended with
//! TypeScript `tsconfig.json` path aliases and package `exports` maps.
//!
//! The resolution engine is a pure computation over an explicit snapshot of
//! the relevant filesystem state (`fsmodel::FileSystem`); the host hands in
//! the snapshot, the working directory and the clock, and receives back the
//! resolved path, so every step of the algorithm is verified. The
//! orchestrator below sequences the strategies: direct resolution, the
//! `@types/` fallback, then the `tsconfig` path aliases, first success wins.

pub mod strings;
pub mod paths;
pub mod fsmodel;
pub mod config;
pub mod node_resolve;

use vstd::prelude::*;
use crate::strings::{find_char, concat2};
use crate::paths::{spec_is_abs, spec_parent, spec_join, is_abs_path, join_path, parent_path};
use crate::fsmodel::FileSystem;
use crate::config::{ConfigCache, spec_base_dir, spec_paths_map};
use crate::node_resolve::{Resolver, ResolutionError, spec_resolve, spec_match_star,
    spec_replace_star, spec_norm_ext, match_star, replace_star};

verus! {

/// The result shape handed back to the host: `path` is the resolved file
/// when `found` holds, and empty otherwise.
pub struct ResolveResult {
    pub found: bool,
    pub path: String,
}

/// A specifier with everything from the first `?` on discarded.
pub open spec fn spec_remove_query(s: Seq<char>) -> Seq<char> {
    match s.index_of_first('?') {
        Some(i) => s.subrange(0, i),
        None => s,
    }
}

/// Remove any trailing querystring from module id.
pub fn remove_query_string(id: String) -> (r: String)
    ensures
        r@ == spec_remove_query(id@),
{
    proof {
        id@.index_of_first_ensures('?');
    }
    match find_char(id.as_str(), '?') {
        Some(i) => {
            proof {
                assert(id@.index_of_first('?') == Some(i as int));
            }
            String::from_str(id.as_str().substring_char(0, i))
        }
        None => {
            proof {
                assert(id@.index_of_first('?') is None);
            }
            id
        }
    }
}

/// The fixed extension probing order of the orchestrator.
pub open spec fn spec_default_extensions() -> Seq<Seq<char>> {
    seq![".js"@, ".json"@, ".node"@, ".mjs"@, ".cjs"@, ".ts"@, ".tsx"@, ".d.ts"@]
}

/// The fixed main-field priority of the orchestrator: TypeScript typings
/// first, then the Angular package format entries, then plain `main`.
pub open spec fn spec_main_field_priority() -> Seq<Seq<char>> {
    seq![
        "types"@,
        "typings"@,
        "fesm2020"@,
        "fesm2015"@,
        "esm2020"@,
        "es2020"@,
        "module"@,
        "jsnext:main"@,
        "main"@,
    ]
}

/// One engine run under the orchestrator's fixed configuration, from the
/// base directory `base`.
pub open spec fn spec_std_resolve(
    fs: FileSystem,
    base: Seq<char>,
    cwd: Seq<char>,
    target: Seq<char>,
) -> Option<Seq<char>> {
    spec_resolve(
        fs,
        Some(base),
        spec_default_extensions(),
        spec_main_field_priority(),
        false,
        cwd,
        target,
    )
}

/// The direct strategy: a relative specifier inside an absolutely-named
/// importer resolves from the importer's directory; everything else
/// resolves from the tsconfig-derived base directory.
pub open spec fn spec_direct(
    fs: FileSystem,
    cwd: Seq<char>,
    base: Seq<char>,
    file: Seq<char>,
    source: Seq<char>,
) -> Option<Seq<char>> {
    if spec_is_abs(file) && (source.len() > 0 && source[0] == '.') {
        let fdir = match spec_parent(file) {
            Some(d) => d,
            None => seq!['/'],
        };
        spec_std_resolve(fs, fdir, cwd, source)
    } else {
        spec_std_resolve(fs, base, cwd, source)
    }
}

/// The typings fallback: the specifier retried under `@types/`.
pub open spec fn spec_types_fallback(
    fs: FileSystem,
    cwd: Seq<char>,
    base: Seq<char>,
    source: Seq<char>,
) -> Option<Seq<char>> {
    spec_std_resolve(fs, base, cwd, "@types/"@ + source)
}

/// One alias entry's destinations, tried in order: the capture replaces
/// each `*` and the substituted destination is resolved from the base
/// directory.
pub open spec fn spec_dest_attempts(
    fs: FileSystem,
    cwd: Seq<char>,
    base: Seq<char>,
    cap: Seq<char>,
    dests: Seq<Seq<char>>,
) -> Option<Seq<char>>
    decreases dests.len(),
{
    if dests.len() == 0 {
        None
    } else {
        let phys = spec_replace_star(dests[0], cap);
        match spec_std_resolve(fs, base, cwd, spec_join(base, phys)) {
            Some(r) => Some(r),
            None => spec_dest_attempts(fs, cwd, base, cap, dests.drop_first()),
        }
    }
}

/// The alias stage: entries in declaration order, first matching pattern
/// with a resolvable destination wins.
pub open spec fn spec_alias_stage(
    fs: FileSystem,
    cwd: Seq<char>,
    base: Seq<char>,
    source: Seq<char>,
    entries: Seq<(Seq<char>, Seq<Seq<char>>)>,
) -> Option<Seq<char>>
    decreases entries.len(),
{
    if entries.len() == 0 {
        None
    } else {
        let rest = spec_alias_stage(fs, cwd, base, source, entries.drop_first());
        match spec_match_star(entries[0].0, source) {
            Some(cap) => match spec_dest_attempts(fs, cwd, base, cap, entries[0].1) {
                Some(r) => Some(r),
                None => rest,
            },
            None => rest,
        }
    }
}

/// What a whole resolution returns: the query-stripped specifier run
/// through the direct strategy, the `@types/` fallback and the alias
/// stage, in that order.
pub open spec fn spec_orchestrate(
    fs: FileSystem,
    cwd: Seq<char>,
    source_input: Seq<char>,
    file: Seq<char>,
    locator: Seq<char>,
) -> Option<Seq<char>> {
    let source = spec_remove_query(source_input);
    let base = spec_base_dir(fs, cwd, locator);
    match spec_direct(fs, cwd, base, file, source) {
        Some(r) => Some(r),
        None => match spec_types_fallback(fs, cwd, base, source) {
            Some(r) => Some(r),
            None => match spec_paths_map(fs, cwd, locator) {
                None => None,
                Some(entries) => spec_alias_stage(fs, cwd, base, source, entries),
            },
        },
    }
}

/// The alias stage is consulted last: when the direct strategy succeeds
/// its result is the whole result, and when it fails, a successful
/// `@types/` fallback decides before any alias is looked at.
pub proof fn lemma_alias_stage_consulted_last(
    fs: FileSystem,
    cwd: Seq<char>,
    source_input: Seq<char>,
    file: Seq<char>,
    locator: Seq<char>,
)
    ensures
        ({
            let source = spec_remove_query(source_input);
            let base = spec_base_dir(fs, cwd, locator);
            &&& (spec_direct(fs, cwd, base, file, source) is Some ==> spec_orchestrate(
                fs,
                cwd,
                source_input,
                file,
                locator,
            ) == spec_direct(fs, cwd, base, file, source))
            &&& ((spec_direct(fs, cwd, base, file, source) is None && spec_types_fallback(
                fs,
                cwd,
                base,
                source,
            ) is Some) ==> spec_orchestrate(fs, cwd, source_input, file, locator)
                == spec_types_fallback(fs, cwd, base, source))
        }),
{
}

/// Among the alias entries, the first pattern that matches and has a
/// resolvable destination wins, whatever later entries would give.
pub proof fn lemma_alias_first_match_wins(
    fs: FileSystem,
    cwd: Seq<char>,
    base: Seq<char>,
    source: Seq<char>,
    entries: Seq<(Seq<char>, Seq<Seq<char>>)>,
    cap: Seq<char>,
    r: Seq<char>,
)
    requires
        entries.len() > 0,
        spec_match_star(entries[0].0, source) == Some(cap),
        spec_dest_attempts(fs, cwd, base, cap, entries[0].1) == Some(r),
    ensures
        spec_alias_stage(fs, cwd, base, source, entries) == Some(r),
{
}

/// Resolution sees the specifier only through its query-stripped form:
/// two specifiers that strip to the same string resolve identically.
pub proof fn lemma_query_string_stripped(
    fs: FileSystem,
    cwd: Seq<char>,
    a: Seq<char>,
    b: Seq<char>,
    file: Seq<char>,
    locator: Seq<char>,
)
    requires
        spec_remove_query(a) == spec_remove_query(b),
    ensures
        spec_orchestrate(fs, cwd, a, file, locator) == spec_orchestrate(fs, cwd, b, file, locator),
{
}

/// Stripping takes everything from the first `?` on: a query appended to a
/// query-free specifier is discarded whole.
pub proof fn lemma_remove_query_appended(x: Seq<char>, q: Seq<char>)
    requires
        !x.contains('?'),
    ensures
        spec_remove_query(x + seq!['?'] + q) == x,
{
    let s = x + seq!['?'] + q;
    assert(s[x.len() as int] == '?');
    assert(s.contains('?'));
    s.index_of_first_ensures('?');
    match s.index_of_first('?') {
        Some(k) => {
            if k < x.len() {
                assert(s[k] == x[k]);
                assert(x.contains('?'));
            }
            assert(k == x.len());
            assert(s.subrange(0, k) =~= x);
        }
        None => {
            assert(false);
        }
    }
}

/// Idempotence: two results of resolving the same inputs against the same
/// snapshot are equal, whatever the cache held and however the clock moved
/// between the calls — the contract of `resolve` pins both to the same
/// specified value.
pub proof fn lemma_resolve_idempotent(
    r1: ResolveResult,
    r2: ResolveResult,
    fs: FileSystem,
    cwd: Seq<char>,
    source_input: Seq<char>,
    file: Seq<char>,
    locator: Seq<char>,
)
    requires
        r1.found == (spec_orchestrate(fs, cwd, source_input, file, locator) is Some),
        r1.found ==> spec_orchestrate(fs, cwd, source_input, file, locator) == Some(r1.path@),
        !r1.found ==> r1.path@ == Seq::<char>::empty(),
        r2.found == (spec_orchestrate(fs, cwd, source_input, file, locator) is Some),
        r2.found ==> spec_orchestrate(fs, cwd, source_input, file, locator) == Some(r2.path@),
        !r2.found ==> r2.path@ == Seq::<char>::empty(),
    ensures
        r1.found == r2.found,
        r1.path@ == r2.path@,
{
}

/// With the orchestrator's main-field priority, a `types` field decides
/// ahead of every other main-like field, `main` included.
pub proof fn lemma_types_over_main(fields: Seq<(String, String)>, v: String)
    requires
        crate::fsmodel::spec_lookup(fields, "types"@) == Some(v),
    ensures
        crate::node_resolve::spec_first_main(fields, spec_main_field_priority()) == Some(v@),
{
    crate::node_resolve::lemma_main_field_priority(fields, spec_main_field_priority(), v);
}

/// The orchestrator's resolver: default engine, fixed extensions, fixed
/// main-field priority, basedir `base`.
fn build_resolver(base: String) -> (r: Resolver)
    ensures
        r.basedir == Some(base),
        r.extensions.deep_view() == spec_default_extensions(),
        r.main_fields.deep_view() == spec_main_field_priority(),
        r.preserve_symlinks == false,
{
    let mut exts: Vec<String> = Vec::new();
    exts.push(String::from_str(".js"));
    exts.push(String::from_str(".json"));
    exts.push(String::from_str(".node"));
    exts.push(String::from_str(".mjs"));
    exts.push(String::from_str(".cjs"));
    exts.push(String::from_str(".ts"));
    exts.push(String::from_str(".tsx"));
    exts.push(String::from_str(".d.ts"));
    let mut mains: Vec<String> = Vec::new();
    mains.push(String::from_str("types"));
    mains.push(String::from_str("typings"));
    mains.push(String::from_str("fesm2020"));
    mains.push(String::from_str("fesm2015"));
    mains.push(String::from_str("esm2020"));
    mains.push(String::from_str("es2020"));
    mains.push(String::from_str("module"));
    mains.push(String::from_str("jsnext:main"));
    mains.push(String::from_str("main"));
    let r = Resolver::new().with_extensions(&exts).with_main_fields(&mains).with_basedir(base);
    proof {
        reveal_strlit(".js");
        reveal_strlit(".json");
        reveal_strlit(".node");
        reveal_strlit(".mjs");
        reveal_strlit(".cjs");
        reveal_strlit(".ts");
        reveal_strlit(".tsx");
        reveal_strlit(".d.ts");
        assert(exts.deep_view() =~= seq![
            ".js"@,
            ".json"@,
            ".node"@,
            ".mjs"@,
            ".cjs"@,
            ".ts"@,
            ".tsx"@,
            ".d.ts"@,
        ]);
        assert forall|j: int| 0 <= j < exts.deep_view().len() implies spec_norm_ext(
            #[trigger] exts.deep_view()[j],
        ) == exts.deep_view()[j] by {
            assert(exts.deep_view()[j].len() > 0 && exts.deep_view()[j][0] == '.');
        }
        assert(r.extensions.deep_view() =~= spec_default_extensions());
        assert(mains.deep_view() =~= spec_main_field_priority());
    }
    r
}

/// Resolves `source_input` as imported from `file`, under the tsconfig
/// named by `ts_config_file`, against the snapshot `fs`. `cwd` is the
/// working directory, `now_ms` the clock reading the cache ages entries
/// by; neither the cache's contents nor the clock can change the result.
#[verifier::rlimit(100)]
pub fn resolve(
    fs: &FileSystem,
    cache: &mut ConfigCache,
    cwd: &str,
    now_ms: u64,
    source_input: String,
    file: String,
    ts_config_file: String,
) -> (r: ResolveResult)
    requires
        old(cache).wf(*fs, cwd@),
    ensures
        final(cache).wf(*fs, cwd@),
        r.found == (spec_orchestrate(*fs, cwd@, source_input@, file@, ts_config_file@) is Some),
        r.found ==> spec_orchestrate(*fs, cwd@, source_input@, file@, ts_config_file@) == Some(
            r.path@,
        ),
        !r.found ==> r.path@ == Seq::<char>::empty(),
{
    let source = remove_query_string(source_input);
    let cc = cache.lookup(fs, cwd, ts_config_file.as_str(), now_ms);
    let resolver = build_resolver(cc.base_dir.clone());
    let ghost base = spec_base_dir(*fs, cwd@, ts_config_file@);

    let source_relative: bool = if source.as_str().unicode_len() > 0 {
        source.as_str().get_char(0) == '.'
    } else {
        false
    };
    let direct: Result<String, ResolutionError> = if is_abs_path(file.as_str())
        && source_relative {
        let fdir: String = match parent_path(file.as_str()) {
            Some(d) => d,
            None => {
                proof {
                    reveal_strlit("/");
                    assert("/"@ =~= seq!['/']);
                }
                String::from_str("/")
            }
        };
        resolver.with_basedir(fdir).resolve(fs, cwd, source.as_str())
    } else {
        resolver.resolve(fs, cwd, source.as_str())
    };
    match direct {
        Ok(p) => {
            return ResolveResult { found: true, path: p };
        }
        Err(_) => {}
    }

    let types_target = concat2("@types/", source.as_str());
    match resolver.resolve(fs, cwd, types_target.as_str()) {
        Ok(p) => {
            return ResolveResult { found: true, path: p };
        }
        Err(_) => {}
    }

    if !cc.has_paths {
        return ResolveResult { found: false, path: String::new() };
    }
    let ghost entries = cc.paths.deep_view();
    let ghost stage_full = spec_alias_stage(*fs, cwd@, base, source@, entries);
    let ghost orch = spec_orchestrate(*fs, cwd@, source_input@, file@, ts_config_file@);
    proof {
        assert(orch == stage_full);
        assert(entries.skip(0) =~= entries);
    }
    let n = cc.paths.len();
    let mut i: usize = 0;
    while i < n
        invariant
            n == cc.paths@.len(),
            i <= n,
            cache.wf(*fs, cwd@),
            entries == cc.paths.deep_view(),
            cc.base_dir@ == base,
            source@ == spec_remove_query(source_input@),
            orch == spec_orchestrate(*fs, cwd@, source_input@, file@, ts_config_file@),
            orch == stage_full,
            stage_full == spec_alias_stage(*fs, cwd@, base, source@, entries.skip(i as int)),
            resolver.basedir.deep_view() == Some(base),
            resolver.extensions.deep_view() == spec_default_extensions(),
            resolver.main_fields.deep_view() == spec_main_field_priority(),
            resolver.preserve_symlinks == false,
        decreases n - i,
    {
        proof {
            assert(entries.skip(i as int)[0] == entries[i as int]);
            assert(entries.skip(i as int).drop_first() =~= entries.skip(i as int + 1));
            assert(cc.paths.deep_view()[i as int] == (
                cc.paths@[i as int].0@,
                cc.paths@[i as int].1.deep_view(),
            ));
        }
        match match_star(cc.paths[i].0.clone(), source.clone()) {
            Ok(cap) => {
                let dests = &cc.paths[i].1;
                let ghost dv = cc.paths@[i as int].1.deep_view();
                let ghost attempts_full = spec_dest_attempts(*fs, cwd@, base, cap@, dv);
                proof {
                    assert(dv.skip(0) =~= dv);
                }
                let m = dests.len();
                let mut j: usize = 0;
                while j < m
                    invariant
                        m == dests@.len(),
                        j <= m,
                        cache.wf(*fs, cwd@),
                        dv == dests.deep_view(),
                        cc.base_dir@ == base,
                        orch == spec_orchestrate(
                            *fs,
                            cwd@,
                            source_input@,
                            file@,
                            ts_config_file@,
                        ),
                        attempts_full == spec_dest_attempts(*fs, cwd@, base, cap@, dv),
                        attempts_full == spec_dest_attempts(
                            *fs,
                            cwd@,
                            base,
                            cap@,
                            dv.skip(j as int),
                        ),
                        attempts_full is Some ==> orch == attempts_full,
                        resolver.basedir.deep_view() == Some(base),
                        resolver.extensions.deep_view() == spec_default_extensions(),
                        resolver.main_fields.deep_view() == spec_main_field_priority(),
                        resolver.preserve_symlinks == false,
                    decreases m - j,
                {
                    proof {
                        assert(dv.skip(j as int)[0] == dests@[j as int]@);
                        assert(dv.skip(j as int).drop_first() =~= dv.skip(j as int + 1));
                    }
                    let phys = replace_star(dests[j].as_str(), cap.as_str());
                    let target = join_path(cc.base_dir.as_str(), phys.as_str());
                    match resolver.resolve(fs, cwd, target.as_str()) {
                        Ok(p) => {
                            return ResolveResult { found: true, path: p };
                        }
                        Err(_) => {}
                    }
                    j += 1;
                }
                proof {
                    assert(dv.skip(m as int).len() == 0);
                    assert(attempts_full is None);
                }
            }
            Err(_) => {}
        }
        i += 1;
    }
    proof {
        assert(entries.skip(n as int).len() == 0);
    }
    ResolveResult { found: false, path: String::new() }
}

} // verus!
