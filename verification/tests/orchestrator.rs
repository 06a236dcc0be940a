// End-to-end resolutions through the orchestrator: tsconfig base
// directories, path aliases, the @types fallback, query stripping, the
// extension and main-field priorities, and cache behavior across expiry.

use ts_resolve::config::{CompilerOptions, ConfigCache, TsConfig};
use ts_resolve::fsmodel::{ExportsValue, FileSystem, PackageContents, PackageData};
use ts_resolve::node_resolve::match_star;
use ts_resolve::resolve;

fn s(x: &str) -> String {
    x.to_string()
}

fn proj_fs() -> FileSystem {
    FileSystem {
        files: vec![s("/proj/src/app/util.ts")],
        dirs: vec![s("/proj"), s("/proj/src"), s("/proj/src/app")],
        packages: vec![],
        tsconfigs: vec![(
            s("/proj/tsconfig.json"),
            TsConfig {
                compiler_options: Some(CompilerOptions {
                    base_url: Some(s("./src")),
                    paths: Some(vec![(s("@app/*"), vec![s("app/*")])]),
                }),
            },
        )],
        links: vec![],
    }
}

#[test]
fn alias_resolves_through_base_url() {
    let fs = proj_fs();
    let mut cache = ConfigCache::new(10_000);
    let r = resolve(
        &fs,
        &mut cache,
        "/proj",
        0,
        s("@app/util"),
        s("/proj/src/main.ts"),
        s("/proj/tsconfig.json"),
    );
    assert!(r.found);
    assert_eq!(r.path, "/proj/src/app/util.ts");
}

#[test]
fn unknown_bare_package_reports_not_found() {
    let fs = proj_fs();
    let mut cache = ConfigCache::new(10_000);
    let r = resolve(
        &fs,
        &mut cache,
        "/proj",
        0,
        s("lodash"),
        s("/proj/src/main.ts"),
        s("/proj/tsconfig.json"),
    );
    assert!(!r.found);
    assert_eq!(r.path, "");
}

#[test]
fn query_string_is_stripped() {
    let fs = FileSystem {
        files: vec![s("/base/x.js")],
        dirs: vec![s("/base")],
        packages: vec![],
        tsconfigs: vec![],
        links: vec![],
    };
    let mut cache = ConfigCache::new(10_000);
    let plain = resolve(
        &fs,
        &mut cache,
        "/base",
        0,
        s("./x"),
        s("/base/main.ts"),
        s("tsconfig.json"),
    );
    let with_query = resolve(
        &fs,
        &mut cache,
        "/base",
        0,
        s("./x?raw"),
        s("/base/main.ts"),
        s("tsconfig.json"),
    );
    assert!(plain.found);
    assert_eq!(plain.path, "/base/x.js");
    assert_eq!(with_query.found, plain.found);
    assert_eq!(with_query.path, plain.path);
}

#[test]
fn extension_order_is_priority() {
    let fs = FileSystem {
        files: vec![s("/p/x.ts"), s("/p/x.js")],
        dirs: vec![s("/p")],
        packages: vec![],
        tsconfigs: vec![],
        links: vec![],
    };
    let mut cache = ConfigCache::new(10_000);
    let r = resolve(
        &fs,
        &mut cache,
        "/p",
        0,
        s("./x"),
        s("/p/main.ts"),
        s("tsconfig.json"),
    );
    assert!(r.found);
    assert_eq!(r.path, "/p/x.js");
}

#[test]
fn types_field_beats_main_field() {
    let fs = FileSystem {
        files: vec![s("/p/lib/t.d.ts"), s("/p/lib/m.js")],
        dirs: vec![s("/p"), s("/p/lib")],
        packages: vec![(
            s("/p/lib"),
            PackageData::Object(PackageContents {
                fields: vec![(s("main"), s("m.js")), (s("types"), s("t.d.ts"))],
                exports: ExportsValue::Missing,
            }),
        )],
        tsconfigs: vec![],
        links: vec![],
    };
    let mut cache = ConfigCache::new(10_000);
    let r = resolve(
        &fs,
        &mut cache,
        "/p",
        0,
        s("./lib"),
        s("/p/main.ts"),
        s("tsconfig.json"),
    );
    assert!(r.found);
    assert_eq!(r.path, "/p/lib/t.d.ts");
}

#[test]
fn types_package_fallback() {
    let fs = FileSystem {
        files: vec![s("/p/node_modules/@types/leftpad/index.d.ts")],
        dirs: vec![
            s("/p"),
            s("/p/node_modules"),
            s("/p/node_modules/@types"),
            s("/p/node_modules/@types/leftpad"),
        ],
        packages: vec![],
        tsconfigs: vec![],
        links: vec![],
    };
    let mut cache = ConfigCache::new(10_000);
    let r = resolve(
        &fs,
        &mut cache,
        "/p",
        0,
        s("leftpad"),
        s("/p/main.ts"),
        s("tsconfig.json"),
    );
    assert!(r.found);
    assert_eq!(r.path, "/p/node_modules/@types/leftpad/index.d.ts");
}

#[test]
fn first_matching_alias_wins() {
    let fs = FileSystem {
        files: vec![s("/p/first/x.ts"), s("/p/second/x.ts")],
        dirs: vec![s("/p"), s("/p/first"), s("/p/second")],
        packages: vec![],
        tsconfigs: vec![(
            s("/p/tsconfig.json"),
            TsConfig {
                compiler_options: Some(CompilerOptions {
                    base_url: None,
                    paths: Some(vec![
                        (s("lib/*"), vec![s("first/*")]),
                        (s("lib/*"), vec![s("second/*")]),
                    ]),
                }),
            },
        )],
        links: vec![],
    };
    let mut cache = ConfigCache::new(10_000);
    let r = resolve(
        &fs,
        &mut cache,
        "/p",
        0,
        s("lib/x"),
        s("/p/main.ts"),
        s("/p/tsconfig.json"),
    );
    assert!(r.found);
    assert_eq!(r.path, "/p/first/x.ts");
}

#[test]
fn direct_resolution_beats_alias() {
    // The alias would send "./x" elsewhere, but direct resolution from the
    // importer's directory wins first.
    let fs = FileSystem {
        files: vec![s("/p/x.ts"), s("/p/other/x.ts")],
        dirs: vec![s("/p"), s("/p/other")],
        packages: vec![],
        tsconfigs: vec![(
            s("/p/tsconfig.json"),
            TsConfig {
                compiler_options: Some(CompilerOptions {
                    base_url: None,
                    paths: Some(vec![(s("./x"), vec![s("other/x")])]),
                }),
            },
        )],
        links: vec![],
    };
    let mut cache = ConfigCache::new(10_000);
    let r = resolve(
        &fs,
        &mut cache,
        "/p",
        0,
        s("./x"),
        s("/p/main.ts"),
        s("/p/tsconfig.json"),
    );
    assert!(r.found);
    assert_eq!(r.path, "/p/x.ts");
}

#[test]
fn resolving_twice_is_idempotent_across_expiry() {
    let fs = proj_fs();
    let mut cache = ConfigCache::new(10);
    let r1 = resolve(
        &fs,
        &mut cache,
        "/proj",
        0,
        s("@app/util"),
        s("/proj/src/main.ts"),
        s("/proj/tsconfig.json"),
    );
    // Well past the cache's validity window: the entry is re-derived.
    let r2 = resolve(
        &fs,
        &mut cache,
        "/proj",
        1_000_000,
        s("@app/util"),
        s("/proj/src/main.ts"),
        s("/proj/tsconfig.json"),
    );
    // And once more within the window, served from the cache.
    let r3 = resolve(
        &fs,
        &mut cache,
        "/proj",
        1_000_001,
        s("@app/util"),
        s("/proj/src/main.ts"),
        s("/proj/tsconfig.json"),
    );
    assert_eq!(r1.found, r2.found);
    assert_eq!(r1.path, r2.path);
    assert_eq!(r1.found, r3.found);
    assert_eq!(r1.path, r3.path);
}

#[test]
fn directory_locator_finds_tsconfig_inside() {
    let fs = FileSystem {
        files: vec![s("/w/root/util.ts")],
        dirs: vec![s("/w"), s("/w/root")],
        packages: vec![],
        tsconfigs: vec![(
            s("/w/tsconfig.json"),
            TsConfig {
                compiler_options: Some(CompilerOptions {
                    base_url: Some(s("root")),
                    paths: None,
                }),
            },
        )],
        links: vec![],
    };
    let mut cache = ConfigCache::new(10_000);
    let r = resolve(
        &fs,
        &mut cache,
        "/elsewhere",
        0,
        s("util"),
        s(""),
        s("/w"),
    );
    assert!(r.found);
    assert_eq!(r.path, "/w/root/util.ts");
}

#[test]
fn missing_tsconfig_degrades_to_working_directory() {
    let fs = FileSystem {
        files: vec![s("/here/y.js")],
        dirs: vec![s("/here")],
        packages: vec![],
        tsconfigs: vec![],
        links: vec![],
    };
    let mut cache = ConfigCache::new(10_000);
    let r = resolve(
        &fs,
        &mut cache,
        "/here",
        0,
        s("y"),
        s(""),
        s("tsconfig.json"),
    );
    assert!(r.found);
    assert_eq!(r.path, "/here/y.js");
}

#[test]
fn match_star_laws_on_values() {
    assert_eq!(match_star(s("*"), s("anything")), Ok(s("anything")));
    assert_eq!(match_star(s("a/b"), s("a/b")), Ok(s("")));
    assert_eq!(match_star(s("a/*/b"), s("a/x/b")), Ok(s("x")));
    assert!(match_star(s("a/*/b"), s("a/b")).is_err());
    assert!(match_star(s("*"), s("")).is_err());
    assert!(match_star(s("a/b"), s("a/c")).is_err());
    assert_eq!(match_star(s("@app/*"), s("@app/util")), Ok(s("util")));
}

#[test]
fn importer_at_filesystem_root() {
    let fs = FileSystem {
        files: vec![s("/x.js")],
        dirs: vec![],
        packages: vec![],
        tsconfigs: vec![],
        links: vec![],
    };
    let mut cache = ConfigCache::new(10_000);
    let r = resolve(&fs, &mut cache, "/", 0, s("./x"), s("/"), s("tsconfig.json"));
    assert!(r.found);
    assert_eq!(r.path, "/x.js");
}
