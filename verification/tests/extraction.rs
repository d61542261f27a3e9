use depcheck_core::checker::{Checker, ParsedModule, SourceFile};
use depcheck_core::config::Config;
use depcheck_core::extract::{
    extract_dependencies, file_dependencies, file_import_names, import_names, merge_texts,
    push_unique, Dialect,
};
use depcheck_core::imports::{collect_imports, ImportKind, RawDependency};
use depcheck_core::names::{
    chars_of, extract_package_name, extract_type_name, is_core_module, is_external,
};
use depcheck_core::package::{DepsSet, Installed, InstalledPackage, Package};
use depcheck_core::text::{compare_names, same_text, NameOrder};
use depcheck_core::usage::{clone_texts, has_text, UsageMap};
use depcheck_core::walk::{
    file_key, relative_key, visit_entry, walk_state, worker_step, Visit, WalkEvent, WalkState,
    WorkerResult, WorkerStep,
};
use swc_common::{FileName, SourceMap};
use swc_ecma_ast::{EsVersion, Module};
use swc_ecma_parser::{parse_file_as_module, Syntax, TsConfig};

fn module_of(source: &str, dialect: Dialect) -> Module {
    let map = SourceMap::default();
    let file = map.new_source_file(FileName::Anon, source.to_string());
    let syntax = match dialect {
        Dialect::Script => Syntax::Es(Default::default()),
        Dialect::Typed => Syntax::Typescript(TsConfig::default()),
    };
    let mut recovered = Vec::new();
    match parse_file_as_module(&file, syntax, EsVersion::latest(), None, &mut recovered) {
        Ok(module) => module,
        Err(_) => panic!("the source does not parse"),
    }
}

fn import(specifier: &str, kind: ImportKind) -> RawDependency {
    RawDependency { specifier: specifier.to_string(), kind, is_dynamic: false }
}

fn root(dependencies: &[&str], dev_dependencies: &[&str]) -> Package {
    let mut package = Package::new("project".to_string(), "1.0.0".to_string());
    for name in dependencies {
        package.dependencies.insert(name.to_string(), "^1".to_string());
    }
    for name in dev_dependencies {
        package.dev_dependencies.insert(name.to_string(), "^1".to_string());
    }
    package
}

fn names_of(source: &str, dialect: Dialect, package: &Package, installed: &Installed) -> Vec<String> {
    let deps = collect_imports(&module_of(source, dialect));
    let mut names = file_dependencies(&deps, dialect, package, installed, false);
    names.sort();
    names
}

fn list(names: &[&str]) -> Vec<String> {
    names.iter().map(|name| name.to_string()).collect()
}

fn usage_entries(usage: &UsageMap) -> Vec<(String, Vec<String>)> {
    let mut all = Vec::new();
    for i in 0..usage.len() {
        let mut files = usage.files_at(i).clone();
        files.sort();
        all.push((usage.name_at(i).clone(), files));
    }
    all
}

#[test]
fn scoped_specifier_keeps_two_segments() {
    assert_eq!(extract_package_name("@scope/pkg/sub/path"), "@scope/pkg");
    assert_eq!(extract_package_name("@scope/pkg"), "@scope/pkg");
    assert_eq!(extract_package_name("@scope"), "@scope");
    assert_eq!(extract_package_name("@scope/"), "@scope/");
}

#[test]
fn plain_specifier_keeps_first_segment() {
    assert_eq!(extract_package_name("lodash"), "lodash");
    assert_eq!(extract_package_name("lodash/fp/map"), "lodash");
    assert_eq!(extract_package_name("lodash/"), "lodash");
    assert_eq!(extract_package_name("héllo/wörld"), "héllo");
    assert_eq!(extract_package_name(""), "");
}

#[test]
fn type_package_is_prefixed() {
    assert_eq!(extract_type_name("node"), "@types/node");
    assert_eq!(extract_type_name(""), "@types/");
}

#[test]
fn local_specifiers_are_not_external() {
    for specifier in ["./x", "../y", ".", "..", "/abs/path", "", "./", "../", "..//x"] {
        assert!(!is_external(specifier), "{} names a local module", specifier);
    }
    for specifier in ["x", ".x", "..x", "...", "@scope/pkg", "a/./b", "x/"] {
        assert!(is_external(specifier), "{} names a package", specifier);
    }
}

#[test]
fn core_modules_are_recognised() {
    for name in ["fs", "path", "fs/promises", "assert/strict", "zlib", "worker_threads"] {
        assert!(is_core_module(name), "{} is a module of the runtime", name);
    }
    for name in ["lodash", "fs-extra", "", "FS", "fs/", "@types/node", "node"] {
        assert!(!is_core_module(name), "{} is no module of the runtime", name);
    }
}

#[test]
fn chars_are_handed_out_in_order() {
    assert_eq!(chars_of("a/é"), vec!['a', '/', 'é']);
    assert_eq!(chars_of(""), Vec::<char>::new());
}

#[test]
fn names_are_ordered_by_their_bytes() {
    assert_eq!(compare_names("a", "b"), NameOrder::Before);
    assert_eq!(compare_names("b", "a"), NameOrder::After);
    assert_eq!(compare_names("a", "a"), NameOrder::Same);
    assert_eq!(compare_names("a", "ab"), NameOrder::Before);
    assert_eq!(compare_names("ab", "a"), NameOrder::After);
    assert_eq!(compare_names("", ""), NameOrder::Same);
    assert_eq!(compare_names("", "a"), NameOrder::Before);
    assert_eq!(compare_names("é", "z"), NameOrder::After);
    assert_eq!(compare_names("@scope/a", "a"), NameOrder::Before);
    assert!(same_text("left-pad", "left-pad"));
    assert!(!same_text("left-pad", "left-pad2"));
}

#[test]
fn imports_are_collected_with_their_kinds() {
    let source = "import a from 'a';\nexport * from 'b';\nconst c = require('c');\nimport('d');\nexport { e } from './e';";
    let deps = collect_imports(&module_of(source, Dialect::Script));
    let found: Vec<(String, ImportKind, bool)> =
        deps.into_iter().map(|d| (d.specifier, d.kind, d.is_dynamic)).collect();
    assert_eq!(
        found,
        vec![
            ("a".to_string(), ImportKind::Import, false),
            ("b".to_string(), ImportKind::Export, false),
            ("c".to_string(), ImportKind::Require, false),
            ("d".to_string(), ImportKind::Import, true),
            ("./e".to_string(), ImportKind::Export, false),
        ]
    );
}

#[test]
fn type_only_imports_are_collected_as_such() {
    let source = "import type { T } from 't';\nexport type { U } from 'u';\nimport v = require('v');";
    let deps = collect_imports(&module_of(source, Dialect::Typed));
    let found: Vec<(String, ImportKind)> = deps.into_iter().map(|d| (d.specifier, d.kind)).collect();
    assert_eq!(
        found,
        vec![
            ("t".to_string(), ImportKind::ImportType),
            ("u".to_string(), ImportKind::ExportType),
            ("v".to_string(), ImportKind::ImportEquals),
        ]
    );
}

#[test]
fn relative_imports_use_nothing() {
    let package = root(&[], &[]);
    let source = "import x from './x'; import y from '../y'; import z from '/abs/z'; require('.');";
    assert_eq!(names_of(source, Dialect::Script, &package, &Installed::new()), list(&[]));
}

#[test]
fn core_modules_are_not_used() {
    let package = root(&[], &[]);
    let source = "import fs from 'fs'; import { readFile } from 'fs/promises'; import p from 'path'; import l from 'lodash';";
    assert_eq!(names_of(source, Dialect::Script, &package, &Installed::new()), list(&["lodash"]));
}

#[test]
fn type_only_import_yields_the_types_package() {
    let package = root(&[], &["@types/pkg"]);
    let source = "import type { T } from 'pkg';";
    assert_eq!(names_of(source, Dialect::Typed, &package, &Installed::new()), list(&["@types/pkg"]));
}

#[test]
fn type_only_import_without_types_package_yields_the_package() {
    let package = root(&["pkg"], &[]);
    let source = "import type { T } from 'pkg';";
    assert_eq!(names_of(source, Dialect::Typed, &package, &Installed::new()), list(&["pkg"]));
    let undeclared = root(&[], &[]);
    let source = "import type { T } from '@scope/other/types';";
    assert_eq!(
        names_of(source, Dialect::Typed, &undeclared, &Installed::new()),
        list(&["@scope/other"])
    );
}

#[test]
fn import_names_are_what_a_declaration_stands_for() {
    let package = root(&["pkg", "@types/pkg", "fs"], &["@types/only"]);
    let names = |specifier: &str, kind: ImportKind, dialect: Dialect| {
        let mut names = import_names(&import(specifier, kind), dialect, &package);
        names.sort();
        names
    };
    assert_eq!(names("pkg/x", ImportKind::Import, Dialect::Typed), list(&["@types/pkg", "pkg"]));
    assert_eq!(names("pkg/x", ImportKind::ImportType, Dialect::Typed), list(&["@types/pkg"]));
    assert_eq!(names("pkg/x", ImportKind::ImportType, Dialect::Script), list(&["pkg"]));
    assert_eq!(names("only", ImportKind::ImportType, Dialect::Typed), list(&["@types/only"]));
    assert_eq!(names("bare", ImportKind::ImportType, Dialect::Typed), list(&["bare"]));
    assert_eq!(names("bare", ImportKind::Require, Dialect::Typed), list(&["bare"]));
    assert_eq!(names("fs", ImportKind::Import, Dialect::Script), list(&["fs"]));
    assert_eq!(names("./local", ImportKind::Import, Dialect::Typed), list(&[]));
}

#[test]
fn file_import_names_keep_what_is_dropped_later() {
    let package = root(&[], &[]);
    let deps = vec![
        import("fs", ImportKind::Import),
        import("a/x", ImportKind::Import),
        import("./b", ImportKind::Import),
        import("a", ImportKind::Require),
    ];
    assert_eq!(file_import_names(&deps, Dialect::Script, &package), list(&["fs", "a"]));
    assert_eq!(
        file_dependencies(&deps, Dialect::Script, &package, &Installed::new(), false),
        list(&["a"])
    );
}

#[test]
fn texts_are_merged_without_repeats() {
    let mut names = list(&["a", "b"]);
    merge_texts(&mut names, &list(&["b", "c", "c", "a", "d"]));
    assert_eq!(names, list(&["a", "b", "c", "d"]));
    push_unique(&mut names, "a".to_string());
    push_unique(&mut names, "e".to_string());
    assert_eq!(names, list(&["a", "b", "c", "d", "e"]));
}

#[test]
fn value_import_yields_the_types_package_too() {
    let package = root(&["pkg", "@types/pkg"], &[]);
    let source = "import { f } from 'pkg/lib'; import g from 'other';";
    assert_eq!(
        names_of(source, Dialect::Typed, &package, &Installed::new()),
        list(&["@types/pkg", "other", "pkg"])
    );
}

#[test]
fn untyped_dialect_never_yields_the_types_package() {
    let package = root(&["pkg", "@types/pkg"], &[]);
    let one = import("pkg", ImportKind::Import);
    assert_eq!(extract_dependencies(&one, Dialect::Script, &package, &Installed::new(), false), list(&["pkg"]));
    let typed = import("pkg", ImportKind::ImportType);
    assert_eq!(extract_dependencies(&typed, Dialect::Script, &package, &Installed::new(), false), list(&["pkg"]));
}

#[test]
fn names_are_deduplicated_within_a_file() {
    let package = root(&[], &[]);
    let deps = vec![
        import("a/x", ImportKind::Import),
        import("a/y", ImportKind::Require),
        import("a", ImportKind::Export),
    ];
    assert_eq!(file_dependencies(&deps, Dialect::Script, &package, &Installed::new(), false), list(&["a"]));
}

#[test]
fn declared_peer_and_optional_dependencies_are_forwarded() {
    let package = root(&["plugin", "host"], &["extra"]);
    let mut plugin = Package::new("plugin".to_string(), "2.0.0".to_string());
    plugin.peer_dependencies.insert("host".to_string(), "*".to_string());
    plugin.peer_dependencies.insert("undeclared-peer".to_string(), "*".to_string());
    plugin.optional_dependencies.insert("extra".to_string(), "*".to_string());
    plugin.optional_dependencies.insert("undeclared-option".to_string(), "*".to_string());
    plugin.dependencies.insert("inner".to_string(), "*".to_string());
    let installed = Installed {
        packages: vec![InstalledPackage { name: "plugin".to_string(), manifest: plugin }],
    };
    let one = import("plugin/register", ImportKind::Import);
    let mut names = extract_dependencies(&one, Dialect::Script, &package, &installed, false);
    names.sort();
    assert_eq!(names, list(&["extra", "host", "plugin"]));

    let other = import("host", ImportKind::Import);
    assert_eq!(extract_dependencies(&other, Dialect::Script, &package, &installed, false), list(&["host"]));
}

#[test]
fn bin_only_names_are_dropped_from_usage_when_asked() {
    let package = root(&[], &[]);
    let mut tool = Package::new("tool".to_string(), "1.0.0".to_string());
    tool.has_bin = true;
    let installed = Installed {
        packages: vec![InstalledPackage { name: "tool".to_string(), manifest: tool }],
    };
    let one = import("tool", ImportKind::Require);
    assert_eq!(extract_dependencies(&one, Dialect::Script, &package, &installed, true), list(&[]));
    assert_eq!(extract_dependencies(&one, Dialect::Script, &package, &installed, false), list(&["tool"]));
    assert!(installed.is_bin_dependency("tool"));
    assert!(!installed.is_bin_dependency("absent"));
}

#[test]
fn first_installed_manifest_counts() {
    let mut first = Package::new("dup".to_string(), "1.0.0".to_string());
    first.has_bin = true;
    let second = Package::new("dup".to_string(), "2.0.0".to_string());
    let installed = Installed {
        packages: vec![
            InstalledPackage { name: "dup".to_string(), manifest: first },
            InstalledPackage { name: "dup".to_string(), manifest: second },
        ],
    };
    assert_eq!(installed.find("dup").map(|manifest| manifest.version.clone()), Some("1.0.0".to_string()));
    assert!(installed.find("other").is_none());
}

#[test]
fn dependency_mapping_keeps_each_name_once() {
    let mut deps = DepsSet::new();
    assert!(!deps.contains_key("a"));
    deps.insert("a".to_string(), "1".to_string());
    deps.insert("b".to_string(), "2".to_string());
    deps.insert("a".to_string(), "3".to_string());
    assert!(deps.contains_key("a"));
    assert!(deps.contains_key("b"));
    assert!(!deps.contains_key("c"));
    assert_eq!(deps.names(), list(&["a", "b"]));
}

#[test]
fn manifest_queries_tell_the_mappings_apart() {
    let mut package = root(&["dep"], &["dev"]);
    package.peer_dependencies.insert("peer".to_string(), "*".to_string());
    package.optional_dependencies.insert("opt".to_string(), "*".to_string());
    assert!(package.is_dependency("dep") && !package.is_dependency("dev"));
    assert!(package.is_dev_dependency("dev") && !package.is_dev_dependency("dep"));
    assert!(package.is_peer_dependency("peer") && !package.is_peer_dependency("opt"));
    assert!(package.is_optional_dependency("opt") && !package.is_optional_dependency("peer"));
    for name in ["dep", "dev", "peer", "opt"] {
        assert!(package.is_any_dependency(name));
    }
    assert!(!package.is_any_dependency("none"));
    assert!(package.is_installed_dependency("dep") && package.is_installed_dependency("dev"));
    assert!(!package.is_installed_dependency("peer") && !package.is_installed_dependency("opt"));
}

#[test]
fn usage_map_merges_in_any_order() {
    let mut forward = UsageMap::new();
    forward.record("a.js", &list(&["x", "y"]));
    forward.record("b.js", &list(&["y", "@z/w"]));
    let mut backward = UsageMap::new();
    backward.record("b.js", &list(&["@z/w", "y"]));
    backward.record("a.js", &list(&["y", "x"]));
    backward.record("a.js", &list(&["x"]));
    let expected = vec![
        ("@z/w".to_string(), list(&["b.js"])),
        ("x".to_string(), list(&["a.js"])),
        ("y".to_string(), list(&["a.js", "b.js"])),
    ];
    assert_eq!(usage_entries(&forward), expected);
    assert_eq!(usage_entries(&backward), expected);
    assert!(forward.contains_key("x") && !forward.contains_key("a.js"));
    assert_eq!(forward.len(), 3);
}

#[test]
fn usage_map_keeps_the_marked_names() {
    let mut usage = UsageMap::new();
    usage.insert("b", "1.js");
    usage.insert("a", "2.js");
    usage.insert("c", "1.js");
    usage.insert("a", "1.js");
    let kept = usage.retain(&vec![true, false, true]);
    assert_eq!(
        usage_entries(&kept),
        vec![("a".to_string(), list(&["1.js", "2.js"])), ("c".to_string(), list(&["1.js"]))]
    );
    assert_eq!(usage_entries(&usage.retain(&vec![false, false, false])), vec![]);
}

#[test]
fn texts_are_found_and_copied() {
    let texts = list(&["a", "b"]);
    assert!(has_text(&texts, "b"));
    assert!(!has_text(&texts, "c"));
    assert_eq!(clone_texts(&texts), texts);
}

#[test]
fn walk_passes_the_root_and_skips_installed_dependencies() {
    let entry = |depth, is_module, is_file| WalkEvent::Entry { depth, is_module, is_file };
    assert_eq!(visit_entry(entry(0, true, false)), Visit::Continue);
    assert_eq!(visit_entry(entry(0, false, true)), Visit::Continue);
    assert_eq!(visit_entry(entry(1, true, false)), Visit::Skip);
    assert_eq!(visit_entry(entry(3, true, true)), Visit::Skip);
    assert_eq!(visit_entry(entry(1, false, true)), Visit::Send);
    assert_eq!(visit_entry(entry(2, false, false)), Visit::Continue);
    assert_eq!(visit_entry(WalkEvent::Error), Visit::Send);
}

#[test]
fn walk_ends_when_nothing_is_taken_any_more() {
    assert_eq!(walk_state(Visit::Send, true), WalkState::Continue);
    assert_eq!(walk_state(Visit::Send, false), WalkState::Quit);
    assert_eq!(walk_state(Visit::Skip, false), WalkState::Skip);
    assert_eq!(walk_state(Visit::Continue, false), WalkState::Continue);
}

#[test]
fn worker_takes_files_until_the_channel_closes() {
    match worker_step(Some(WorkerResult::Entry("/project/a.js".to_string()))) {
        WorkerStep::Extract(path) => assert_eq!(path, "/project/a.js"),
        _ => panic!("a file is to be examined"),
    }
    let error = ignore::Error::WithDepth { depth: 1, err: Box::new(ignore::Error::InvalidDefinition) };
    assert!(matches!(worker_step(Some(WorkerResult::Error(error))), WorkerStep::Next));
    assert!(matches!(worker_step(None), WorkerStep::Stop));
}

#[test]
fn file_key_is_relative_to_the_directory() {
    assert_eq!(file_key("/project", "/project/src/a.js"), Some("src/a.js".to_string()));
    assert_eq!(file_key("/project/", "/project/a.js"), Some("a.js".to_string()));
    assert_eq!(file_key("/project", "/elsewhere/a.js"), None);
}

#[test]
fn relative_key_joins_the_components() {
    assert_eq!(relative_key(None), None);
    assert_eq!(relative_key(Some("src/a.js".to_string())), Some("src/a.js".to_string()));
    assert_eq!(relative_key(Some("./src//a.js".to_string())), Some("src/a.js".to_string()));
    assert_eq!(relative_key(Some("../a.js".to_string())), Some("../a.js".to_string()));
    assert_eq!(relative_key(Some("/abs/a.js".to_string())), None);
}

#[test]
fn check_file_of_an_unparsed_file_is_empty() {
    let checker = Checker::new(Config::new("/project".to_string()));
    let package = root(&[], &[]);
    let broken = SourceFile { path: "broken.js".to_string(), parsed: None };
    assert_eq!(checker.check_file(&package, &broken, &Installed::new()), list(&[]));
    let fine = SourceFile {
        path: "fine.ts".to_string(),
        parsed: Some(ParsedModule {
            module: module_of("import a from 'a';", Dialect::Typed),
            dialect: Dialect::Typed,
        }),
    };
    assert_eq!(checker.check_file(&package, &fine, &Installed::new()), list(&["a"]));
}
