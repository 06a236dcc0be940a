// The original resolver test suite, run against in-memory filesystem
// snapshots mirroring the fixture tree.

use ts_resolve::fsmodel::{ExportsValue, FileSystem, PackageContents, PackageData};
use ts_resolve::node_resolve::{is_core_module, resolve, resolve_from, Resolver};
use ts_resolve::paths::normalize_path;
use ts_resolve::remove_query_string;

fn s(x: &str) -> String {
    x.to_string()
}

fn fixture(part: &str) -> String {
    if part.is_empty() {
        s("/fixtures")
    } else {
        format!("/fixtures/{}", part)
    }
}

fn pkg_main(dir: &str, field: &str, value: &str) -> (String, PackageData) {
    (
        s(dir),
        PackageData::Object(PackageContents {
            fields: vec![(s(field), s(value))],
            exports: ExportsValue::Missing,
        }),
    )
}

fn extensions_fs() -> FileSystem {
    FileSystem {
        files: vec![
            fixture("extensions/js-file.js"),
            fixture("extensions/json-file.json"),
            fixture("extensions/native-file.node"),
            fixture("extensions/other-file.ext"),
            fixture("extensions/no-ext"),
            fixture("extensions/module.mjs"),
        ],
        dirs: vec![fixture(""), fixture("extensions")],
        packages: vec![],
        tsconfigs: vec![],
        links: vec![],
    }
}

fn resolve_fixture(fs: &FileSystem, target: &str) -> String {
    resolve_from(fs, "/cwd", target, fixture("")).unwrap()
}

#[test]
fn appends_extensions() {
    let fs = extensions_fs();
    assert_eq!(
        fixture("extensions/js-file.js"),
        resolve_fixture(&fs, "./extensions/js-file")
    );
    assert_eq!(
        fixture("extensions/json-file.json"),
        resolve_fixture(&fs, "./extensions/json-file")
    );
    assert_eq!(
        fixture("extensions/native-file.node"),
        resolve_fixture(&fs, "./extensions/native-file")
    );
    assert_eq!(
        fixture("extensions/other-file.ext"),
        resolve_fixture(&fs, "./extensions/other-file.ext")
    );
    assert_eq!(
        fixture("extensions/no-ext"),
        resolve_fixture(&fs, "./extensions/no-ext")
    );
    assert_eq!(
        fixture("extensions/other-file.ext"),
        Resolver::new()
            .with_extensions(&vec![s(".ext")])
            .with_basedir(fixture(""))
            .resolve(&fs, "/cwd", "./extensions/other-file")
            .unwrap()
    );
    assert_eq!(
        fixture("extensions/module.mjs"),
        Resolver::new()
            .with_extensions(&vec![s(".mjs")])
            .with_basedir(fixture(""))
            .resolve(&fs, "/cwd", "./extensions/module")
            .unwrap()
    );
}

fn package_json_fs() -> FileSystem {
    FileSystem {
        files: vec![
            fixture("package-json/main-file/whatever.js"),
            fixture("package-json/main-file-noext/whatever.js"),
            fixture("package-json/main-dir/subdir/index.js"),
            fixture("package-json/not-object/index.js"),
            fixture("package-json/invalid/index.js"),
            fixture("package-json/main-none/index.js"),
            fixture("package-json/module/index.mjs"),
            fixture("package-json/module-main/main.mjs"),
            fixture("package-json/module-main/main.js"),
        ],
        dirs: vec![
            fixture(""),
            fixture("package-json"),
            fixture("package-json/main-file"),
            fixture("package-json/main-file-noext"),
            fixture("package-json/main-dir"),
            fixture("package-json/main-dir/subdir"),
            fixture("package-json/not-object"),
            fixture("package-json/invalid"),
            fixture("package-json/main-none"),
            fixture("package-json/module"),
            fixture("package-json/module-main"),
        ],
        packages: vec![
            pkg_main("/fixtures/package-json/main-file", "main", "./whatever.js"),
            pkg_main("/fixtures/package-json/main-file-noext", "main", "./whatever"),
            pkg_main("/fixtures/package-json/main-dir", "main", "subdir"),
            (s("/fixtures/package-json/not-object"), PackageData::Invalid),
            (s("/fixtures/package-json/invalid"), PackageData::Invalid),
            (
                s("/fixtures/package-json/main-none"),
                PackageData::Object(PackageContents {
                    fields: vec![(s("name"), s("main-none"))],
                    exports: ExportsValue::Missing,
                }),
            ),
            pkg_main("/fixtures/package-json/module", "module", "index.mjs"),
            (
                s("/fixtures/package-json/module-main"),
                PackageData::Object(PackageContents {
                    fields: vec![(s("module"), s("main.mjs")), (s("main"), s("main.js"))],
                    exports: ExportsValue::Missing,
                }),
            ),
        ],
        tsconfigs: vec![],
        links: vec![],
    }
}

#[test]
fn resolves_package_json() {
    let fs = package_json_fs();
    assert_eq!(
        fixture("package-json/main-file/whatever.js"),
        resolve_fixture(&fs, "./package-json/main-file")
    );
    assert_eq!(
        fixture("package-json/main-file-noext/whatever.js"),
        resolve_fixture(&fs, "./package-json/main-file-noext")
    );
    assert_eq!(
        fixture("package-json/main-dir/subdir/index.js"),
        resolve_fixture(&fs, "./package-json/main-dir")
    );
    assert_eq!(
        fixture("package-json/not-object/index.js"),
        resolve_fixture(&fs, "./package-json/not-object")
    );
    assert_eq!(
        fixture("package-json/invalid/index.js"),
        resolve_fixture(&fs, "./package-json/invalid")
    );
    assert_eq!(
        fixture("package-json/main-none/index.js"),
        resolve_fixture(&fs, "./package-json/main-none")
    );
    assert_eq!(
        fixture("package-json/main-file/whatever.js"),
        Resolver::new()
            .with_main_fields(&vec![s("module"), s("main")])
            .with_basedir(fixture(""))
            .resolve(&fs, "/cwd", "./package-json/main-file")
            .unwrap()
    );
    assert_eq!(
        fixture("package-json/module/index.mjs"),
        Resolver::new()
            .with_extensions(&vec![s(".mjs"), s(".js")])
            .with_main_fields(&vec![s("module"), s("main")])
            .with_basedir(fixture(""))
            .resolve(&fs, "/cwd", "./package-json/module")
            .unwrap()
    );
    assert_eq!(
        fixture("package-json/module-main/main.mjs"),
        Resolver::new()
            .with_extensions(&vec![s(".mjs"), s(".js")])
            .with_main_fields(&vec![s("module"), s("main")])
            .with_basedir(fixture(""))
            .resolve(&fs, "/cwd", "./package-json/module-main")
            .unwrap()
    );
}

fn node_modules_fs() -> FileSystem {
    FileSystem {
        files: vec![
            fixture("node-modules/same-dir/node_modules/a.js"),
            fixture("node-modules/parent-dir/node_modules/a/index.js"),
            fixture("node-modules/package-json/node_modules/dep/lib/index.js"),
            fixture("node-modules/walk/src/node_modules/not-ok/index.js"),
            fixture("node-modules/walk/node_modules/ok/index.js"),
        ],
        dirs: vec![
            fixture(""),
            fixture("node-modules"),
            fixture("node-modules/same-dir"),
            fixture("node-modules/same-dir/node_modules"),
            fixture("node-modules/parent-dir"),
            fixture("node-modules/parent-dir/src"),
            fixture("node-modules/parent-dir/node_modules"),
            fixture("node-modules/parent-dir/node_modules/a"),
            fixture("node-modules/package-json"),
            fixture("node-modules/package-json/node_modules"),
            fixture("node-modules/package-json/node_modules/dep"),
            fixture("node-modules/walk"),
            fixture("node-modules/walk/src"),
            fixture("node-modules/walk/src/node_modules"),
            fixture("node-modules/walk/src/node_modules/not-ok"),
            fixture("node-modules/walk/node_modules"),
            fixture("node-modules/walk/node_modules/ok"),
        ],
        packages: vec![pkg_main(
            "/fixtures/node-modules/package-json/node_modules/dep",
            "main",
            "lib/index.js",
        )],
        tsconfigs: vec![],
        links: vec![],
    }
}

#[test]
fn resolves_node_modules() {
    let fs = node_modules_fs();
    assert_eq!(
        fixture("node-modules/same-dir/node_modules/a.js"),
        resolve_from(&fs, "/cwd", "a", fixture("node-modules/same-dir")).unwrap()
    );
    assert_eq!(
        fixture("node-modules/parent-dir/node_modules/a/index.js"),
        resolve_from(&fs, "/cwd", "a", fixture("node-modules/parent-dir/src")).unwrap()
    );
    assert_eq!(
        fixture("node-modules/package-json/node_modules/dep/lib/index.js"),
        resolve_from(&fs, "/cwd", "dep", fixture("node-modules/package-json")).unwrap()
    );
    assert_eq!(
        fixture("node-modules/walk/src/node_modules/not-ok/index.js"),
        resolve_from(&fs, "/cwd", "not-ok", fixture("node-modules/walk/src")).unwrap()
    );
    assert_eq!(
        fixture("node-modules/walk/node_modules/ok/index.js"),
        resolve_from(&fs, "/cwd", "ok", fixture("node-modules/walk/src")).unwrap()
    );
}

fn symlink_fs() -> FileSystem {
    FileSystem {
        files: vec![
            fixture("symlink/node_modules/dep/main.js"),
            fixture("symlink/linked/main.js"),
        ],
        dirs: vec![
            fixture(""),
            fixture("symlink"),
            fixture("symlink/node_modules"),
            fixture("symlink/node_modules/dep"),
            fixture("symlink/linked"),
        ],
        packages: vec![pkg_main("/fixtures/symlink/node_modules/dep", "main", "main.js")],
        tsconfigs: vec![],
        links: vec![(
            fixture("symlink/node_modules/dep/main.js"),
            fixture("symlink/linked/main.js"),
        )],
    }
}

#[test]
fn preserves_symlinks() {
    let fs = symlink_fs();
    assert_eq!(
        fixture("symlink/node_modules/dep/main.js"),
        Resolver::new()
            .preserve_symlinks(true)
            .with_basedir(fixture("symlink"))
            .resolve(&fs, "/cwd", "dep")
            .unwrap()
    );
}

#[test]
fn does_not_preserve_symlinks() {
    let fs = symlink_fs();
    assert_eq!(
        fixture("symlink/linked/main.js"),
        Resolver::new()
            .preserve_symlinks(false)
            .with_basedir(fixture("symlink"))
            .resolve(&fs, "/cwd", "dep")
            .unwrap()
    );
}

#[test]
fn resolves_absolute_specifier() {
    let fs = extensions_fs();
    let id = fixture("extensions/js-file");
    assert_eq!(
        fixture("extensions/js-file.js"),
        resolve(&fs, "/cwd", &id).unwrap()
    );
}

#[test]
fn core_modules() {
    let stub = "/cwd/node_modules/@types/node";
    let fs = FileSystem {
        files: vec![
            format!("{}/events.d.ts", stub),
            format!("{}/stream.d.ts", stub),
        ],
        dirs: vec![
            s("/cwd"),
            s("/cwd/node_modules"),
            s("/cwd/node_modules/@types"),
            s(stub),
            format!("{}/fs", stub),
        ],
        packages: vec![],
        tsconfigs: vec![],
        links: vec![],
    };
    assert!(is_core_module(&fs, stub, "events"));
    assert!(!is_core_module(&fs, stub, "events/"));
    assert!(!is_core_module(&fs, stub, "./events"));
    assert!(is_core_module(&fs, stub, "stream"));
    assert!(!is_core_module(&fs, stub, "acorn"));
}

#[test]
fn missing_basedir_is_a_loud_error() {
    let fs = extensions_fs();
    let err = Resolver::new()
        .resolve(&fs, "/cwd", "./extensions/js-file")
        .unwrap_err();
    assert_eq!(err.description, "Must set a basedir before resolving");
}

#[test]
fn exports_map_deep_import() {
    let fs = FileSystem {
        files: vec![s("/p/node_modules/pkg/src/feature/x.js")],
        dirs: vec![
            s("/p"),
            s("/p/node_modules"),
            s("/p/node_modules/pkg"),
            s("/p/node_modules/pkg/src"),
        ],
        packages: vec![(
            s("/p/node_modules/pkg"),
            PackageData::Object(PackageContents {
                fields: vec![],
                exports: ExportsValue::Entries(vec![(
                    s("./feature/*"),
                    s("./src/feature/*.js"),
                )]),
            }),
        )],
        tsconfigs: vec![],
        links: vec![],
    };
    assert_eq!(
        "/p/node_modules/pkg/src/feature/x.js",
        resolve_from(&fs, "/cwd", "pkg/feature/x", s("/p")).unwrap()
    );
}

#[test]
fn exports_plain_string() {
    let fs = FileSystem {
        files: vec![s("/p/node_modules/pkg2/main.js")],
        dirs: vec![s("/p"), s("/p/node_modules"), s("/p/node_modules/pkg2")],
        packages: vec![(
            s("/p/node_modules/pkg2"),
            PackageData::Object(PackageContents {
                fields: vec![],
                exports: ExportsValue::Text(s("./main.js")),
            }),
        )],
        tsconfigs: vec![],
        links: vec![],
    };
    assert_eq!(
        "/p/node_modules/pkg2/main.js",
        resolve_from(&fs, "/cwd", "pkg2", s("/p")).unwrap()
    );
}

#[test]
fn exports_array_takes_first_entry() {
    let fs = FileSystem {
        files: vec![s("/p/node_modules/pkg3/a.js"), s("/p/node_modules/pkg3/b.js")],
        dirs: vec![s("/p"), s("/p/node_modules"), s("/p/node_modules/pkg3")],
        packages: vec![(
            s("/p/node_modules/pkg3"),
            PackageData::Object(PackageContents {
                fields: vec![],
                exports: ExportsValue::List(vec![s("./a.js"), s("./b.js")]),
            }),
        )],
        tsconfigs: vec![],
        links: vec![],
    };
    assert_eq!(
        "/p/node_modules/pkg3/a.js",
        resolve_from(&fs, "/cwd", "pkg3", s("/p")).unwrap()
    );
}

#[test]
fn normalize_path_resolves_dot_segments() {
    assert_eq!(normalize_path("/a/./b/../c"), "/a/c");
    assert_eq!(normalize_path("/a//b/"), "/a/b");
    assert_eq!(normalize_path("/"), "/");
    assert_eq!(normalize_path("/../x"), "/x");
    assert_eq!(normalize_path("/proj/./src/@app/util"), "/proj/src/@app/util");
}

#[test]
fn remove_query_string_strips_from_first_question_mark() {
    assert_eq!(remove_query_string(s("./x?raw")), "./x");
    assert_eq!(remove_query_string(s("./x?a?b")), "./x");
    assert_eq!(remove_query_string(s("./x")), "./x");
    assert_eq!(remove_query_string(s("?")), "");
}

#[test]
fn package_json_itself_is_a_file() {
    // A directory's package.json counts as a regular file even when the
    // snapshot lists it only through the parsed package map.
    let fs = package_json_fs();
    assert_eq!(
        fixture("package-json/main-file/package.json"),
        resolve_fixture(&fs, "./package-json/main-file/package.json")
    );
}
