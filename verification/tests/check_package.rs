use depcheck_core::checker::{
    manifest_candidates, CheckResult, Checker, ParsedModule, SourceFile,
};
use depcheck_core::config::Config;
use depcheck_core::extract::Dialect;
use depcheck_core::package::{Installed, InstalledPackage, Package};
use depcheck_core::rules::CheckError;
use depcheck_core::usage::UsageMap;
use swc_common::{FileName, SourceMap};
use swc_ecma_ast::{EsVersion, Module};
use swc_ecma_parser::{parse_file_as_module, Syntax, TsConfig};

fn parse(source: &str, dialect: Dialect) -> Option<Module> {
    let map = SourceMap::default();
    let file = map.new_source_file(FileName::Anon, source.to_string());
    let syntax = match dialect {
        Dialect::Script => Syntax::Es(Default::default()),
        Dialect::Typed => Syntax::Typescript(TsConfig::default()),
    };
    let mut recovered = Vec::new();
    parse_file_as_module(&file, syntax, EsVersion::latest(), None, &mut recovered).ok()
}

fn source(path: &str, text: &str, dialect: Dialect) -> SourceFile {
    SourceFile {
        path: path.to_string(),
        parsed: parse(text, dialect).map(|module| ParsedModule { module, dialect }),
    }
}

fn manifest(dependencies: &[&str], dev_dependencies: &[&str]) -> Package {
    let mut package = Package::new("project".to_string(), "1.0.0".to_string());
    for name in dependencies {
        package.dependencies.insert(name.to_string(), "*".to_string());
    }
    for name in dev_dependencies {
        package.dev_dependencies.insert(name.to_string(), "*".to_string());
    }
    package
}

fn check(config: Config, package: Package, files: Vec<SourceFile>, installed: Installed) -> CheckResult {
    match Checker::new(config).check_package(Some(package), files, installed) {
        Ok(result) => result,
        Err(error) => panic!("the check failed: {:?}", error),
    }
}

fn entries(usage: &UsageMap) -> Vec<(String, Vec<String>)> {
    let mut all = Vec::new();
    for i in 0..usage.len() {
        let mut files = usage.files_at(i).clone();
        files.sort();
        all.push((usage.name_at(i).clone(), files));
    }
    all
}

fn sorted(mut names: Vec<String>) -> Vec<String> {
    names.sort();
    names
}

fn texts(names: &[&str]) -> Vec<String> {
    names.iter().map(|name| name.to_string()).collect()
}

#[test]
fn unused_dependency_is_reported() {
    let files = vec![source("index.js", "import a from 'a';", Dialect::Script)];
    let result = check(Config::new("/project".to_string()), manifest(&["a", "b"], &[]), files, Installed::new());
    assert_eq!(result.get_unused_dependencies(), texts(&["b"]));
    assert_eq!(result.get_unused_dev_dependencies(), texts(&[]));
    assert_eq!(entries(&result.get_missing_dependencies()), vec![]);
}

#[test]
fn undeclared_import_is_missing() {
    let files = vec![source("src/main.js", "const c = require('c');", Dialect::Script)];
    let result = check(Config::new("/project".to_string()), manifest(&[], &[]), files, Installed::new());
    assert_eq!(
        entries(&result.get_missing_dependencies()),
        vec![("c".to_string(), texts(&["src/main.js"]))]
    );
    assert_eq!(result.get_unused_dependencies(), texts(&[]));
}

#[test]
fn usage_map_is_sorted_and_merges_files() {
    let files = vec![
        source("b.js", "import 'zeta'; import x from 'alpha/lib/x';", Dialect::Script),
        source("a.js", "import y from '@scope/pkg/sub/path'; export * from 'alpha';", Dialect::Script),
    ];
    let result = check(Config::new("/project".to_string()), manifest(&[], &[]), files, Installed::new());
    assert_eq!(
        entries(&result.using_dependencies),
        vec![
            ("@scope/pkg".to_string(), texts(&["a.js"])),
            ("alpha".to_string(), texts(&["a.js", "b.js"])),
            ("zeta".to_string(), texts(&["b.js"])),
        ]
    );
}

#[test]
fn unparsable_file_contributes_nothing() {
    let files = vec![
        source("broken.js", "import from from from;;; {{{", Dialect::Script),
        source("fine.js", "import a from 'a';", Dialect::Script),
    ];
    assert!(files[0].parsed.is_none());
    let result = check(Config::new("/project".to_string()), manifest(&["a"], &[]), files, Installed::new());
    assert_eq!(entries(&result.using_dependencies), vec![("a".to_string(), texts(&["fine.js"]))]);
    assert_eq!(result.get_unused_dependencies(), texts(&[]));
}

#[test]
fn missing_manifest_fails_the_check() {
    let checked = Checker::new(Config::new("/project".to_string())).check_package(None, vec![], Installed::new());
    match checked {
        Err(CheckError::ManifestUnreadable { directory }) => assert_eq!(directory, "/project"),
        _ => panic!("expected the manifest to be reported as unreadable"),
    }
}

#[test]
fn malformed_pattern_fails_the_check() {
    let mut config = Config::new("/project".to_string());
    config.ignore_patterns = texts(&["fine-*", "bad[", "worse{"]);
    let checked = Checker::new(config).check_package(Some(manifest(&[], &[])), vec![], Installed::new());
    match checked {
        Err(CheckError::MalformedPattern { pattern }) => assert_eq!(pattern, "bad["),
        _ => panic!("expected the malformed pattern to be reported"),
    }
}

#[test]
fn ignored_names_are_left_out_of_both_reports() {
    let mut config = Config::new("/project".to_string());
    config.ignore_patterns = texts(&["eslint-*", "@types/*"]);
    let files = vec![source("a.js", "import 'eslint-plugin-x'; import 'left-pad';", Dialect::Script)];
    let result = check(config, manifest(&["eslint-config-y", "@types/node", "lodash"], &[]), files, Installed::new());
    assert_eq!(
        entries(&result.get_missing_dependencies()),
        vec![("left-pad".to_string(), texts(&["a.js"]))]
    );
    assert_eq!(sorted(result.get_unused_dependencies()), texts(&["lodash"]));
}

#[test]
fn skip_missing_returns_nothing() {
    let mut config = Config::new("/project".to_string());
    config.skip_missing = true;
    let files = vec![source("a.js", "import 'c';", Dialect::Script)];
    let result = check(config, manifest(&["b"], &[]), files, Installed::new());
    assert_eq!(entries(&result.get_missing_dependencies()), vec![]);
    assert_eq!(result.get_unused_dependencies(), texts(&["b"]));
}

#[test]
fn bin_only_packages_are_left_out_when_asked() {
    let mut tool = Package::new("tool".to_string(), "1.0.0".to_string());
    tool.has_bin = true;
    let mut library = Package::new("library".to_string(), "1.0.0".to_string());
    library.has_bin = true;
    library.has_main = true;
    let installed = || Installed {
        packages: vec![
            InstalledPackage { name: "tool".to_string(), manifest: {
                let mut tool = Package::new("tool".to_string(), "1.0.0".to_string());
                tool.has_bin = true;
                tool
            } },
            InstalledPackage { name: "library".to_string(), manifest: {
                let mut library = Package::new("library".to_string(), "1.0.0".to_string());
                library.has_bin = true;
                library.has_main = true;
                library
            } },
        ],
    };
    assert!(tool.is_bin_only());
    assert!(!library.is_bin_only());

    let mut config = Config::new("/project".to_string());
    config.ignore_bin_package = true;
    let result = check(config, manifest(&["tool", "library"], &[]), vec![], installed());
    assert_eq!(result.get_unused_dependencies(), texts(&["library"]));

    let result = check(Config::new("/project".to_string()), manifest(&["tool", "library"], &[]), vec![], installed());
    assert_eq!(result.get_unused_dependencies(), texts(&["tool", "library"]));
}

#[test]
fn repeated_checks_agree() {
    let run = || {
        let files = vec![
            source("a.ts", "import type { T } from 'typed'; import x from 'x';", Dialect::Typed),
            source("b.js", "import y from 'y';", Dialect::Script),
        ];
        let result = check(Config::new("/project".to_string()), manifest(&["x", "unused"], &["@types/typed"]), files, Installed::new());
        (
            entries(&result.get_missing_dependencies()),
            sorted(result.get_unused_dependencies()),
            sorted(result.get_unused_dev_dependencies()),
        )
    };
    let first = run();
    assert_eq!(first, run());
    assert_eq!(first.0, vec![("y".to_string(), texts(&["b.js"]))]);
    assert_eq!(first.1, texts(&["unused"]));
    assert_eq!(first.2, texts(&[]));
}

#[test]
fn oversized_rule_set_is_not_built() {
    let mut config = Config::new("/project".to_string());
    config.ignore_patterns = vec!["?".repeat(1_000_000)];
    let checked = Checker::new(config).check_package(Some(manifest(&[], &[])), vec![], Installed::new());
    assert!(matches!(checked, Err(CheckError::RulesNotBuilt)));
}

#[test]
fn rules_are_compiled_for_the_walk() {
    let patterns = texts(&["dist", "*.min.js"]);
    assert!(depcheck_core::rules::compile_rules("/project", &patterns).is_ok());
    match depcheck_core::rules::compile_rules("/project", &texts(&["a", "{"])) {
        Err(CheckError::MalformedPattern { pattern }) => assert_eq!(pattern, "{"),
        _ => panic!("expected the malformed pattern to be reported"),
    }
}

#[test]
fn type_only_import_of_an_undeclared_package_is_missing() {
    let files = vec![source("types.ts", "import type { T } from 'shapes';", Dialect::Typed)];
    let result = check(Config::new("/project".to_string()), manifest(&["other"], &[]), files, Installed::new());
    assert_eq!(entries(&result.using_dependencies), vec![("shapes".to_string(), texts(&["types.ts"]))]);
    assert_eq!(
        entries(&result.get_missing_dependencies()),
        vec![("shapes".to_string(), texts(&["types.ts"]))]
    );
    assert_eq!(result.get_unused_dependencies(), texts(&["other"]));
}

#[test]
fn type_only_import_of_a_declared_package_uses_it() {
    let files = vec![source("types.ts", "import type { T } from 'shapes';", Dialect::Typed)];
    let result = check(Config::new("/project".to_string()), manifest(&["shapes"], &[]), files, Installed::new());
    assert_eq!(result.get_unused_dependencies(), texts(&[]));
    assert_eq!(entries(&result.get_missing_dependencies()), vec![]);
}

#[test]
fn patterns_are_matched_without_their_trailing_space() {
    let mut config = Config::new("./project".to_string());
    config.ignore_patterns = texts(&["dist ", "tool-*\t"]);
    let files = vec![source("a.js", "import 'dist'; import 'distant';", Dialect::Script)];
    let result = check(config, manifest(&["dist", "tool-x", "kept"], &[]), files, Installed::new());
    assert_eq!(
        entries(&result.get_missing_dependencies()),
        vec![("distant".to_string(), texts(&["a.js"]))]
    );
    assert_eq!(result.get_unused_dependencies(), texts(&["kept"]));
}

#[test]
fn candidates_are_installed_and_imported_names() {
    let package = manifest(&["b", "a"], &["dev"]);
    let files = vec![
        source("x.js", "import 'a'; import 'fs'; import tool from 'tool/bin'; import './local';", Dialect::Script),
        source("broken.js", "import {{{", Dialect::Script),
        source("y.ts", "import type { T } from 'typed';", Dialect::Typed),
    ];
    assert_eq!(sorted(manifest_candidates(&package, &files)), texts(&["a", "b", "dev", "fs", "tool", "typed"]));
    assert_eq!(manifest_candidates(&manifest(&[], &[]), &vec![]), texts(&[]));
}

#[test]
fn missing_is_decided_from_the_given_answers() {
    let files = vec![source("a.js", "import 'a'; import 'b'; import 'c'; import 'd';", Dialect::Script)];
    let result = check(Config::new("/project".to_string()), manifest(&["b"], &[]), files, Installed::new());
    assert_eq!(
        entries(&result.missing_given(&vec![false, false, true, false])),
        vec![("a".to_string(), texts(&["a.js"])), ("d".to_string(), texts(&["a.js"]))]
    );
    assert_eq!(entries(&result.missing_given(&vec![true, true, true, true])), vec![]);
}

#[test]
fn unused_is_decided_from_the_given_answers() {
    let files = vec![source("a.js", "import 'used';", Dialect::Script)];
    let result = check(Config::new("/project".to_string()), manifest(&[], &[]), files, Installed::new());
    let names = texts(&["used", "idle", "ignored", "idle"]);
    assert_eq!(result.unused_given(&names, &vec![false, false, true, false]), texts(&["idle"]));
    assert_eq!(result.unused_given(&names, &vec![false, true, true, false]), texts(&["idle"]));
    assert_eq!(result.unused_given(&names, &vec![true, true, true, true]), texts(&[]));
}
