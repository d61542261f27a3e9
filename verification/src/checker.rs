//! The check: from the parsed files of a project and its manifest to the
//! usage map, and from there to the missing and unused dependencies.

use crate::config::Config;
use crate::extract::{
    file_dependencies, file_import_names, file_names, file_usage, merge_texts, push_unique,
    Dialect,
};
use crate::imports::{collect_imports, raw_dependencies};
use crate::package::{DepsSet, Installed, Package};
use crate::rules::{
    compile_rules, first_malformed, ignore_lines, ignores, lines_build, patterns_compile,
    rules_for, rules_matched, CheckError,
};
use crate::usage::{distinct_texts, record_usage, text_set, UsageMap};
use ignore::overrides::Override;
use swc_ecma_ast::Module;
use vstd::prelude::*;

verus! {

/// A file that was parsed: its syntax tree and the dialect it was found
/// to be written in.
pub struct ParsedModule {
    /// The syntax tree.
    pub module: Module,
    /// The dialect.
    pub dialect: Dialect,
}

/// A file of the project.
pub struct SourceFile {
    /// The path of the file relative to the root of the project.
    pub path: String,
    /// What parsing the file gave; `None` where it could not be parsed.
    pub parsed: Option<ParsedModule>,
}

/// The package names that a file uses. A file that could not be parsed uses
/// none.
pub open spec fn source_usage(
    file: SourceFile,
    root: Package,
    installed: Installed,
    ignore_bin: bool,
) -> Set<Seq<char>> {
    match file.parsed {
        Some(parsed) => file_usage(
            raw_dependencies(parsed.module),
            parsed.dialect,
            root,
            installed,
            ignore_bin,
        ),
        None => Set::empty(),
    }
}

/// The usage map of a project with the files `files`: what each file uses,
/// merged file by file.
pub open spec fn directory_usage(
    files: Seq<SourceFile>,
    root: Package,
    installed: Installed,
    ignore_bin: bool,
) -> Map<Seq<char>, Set<Seq<char>>>
    decreases files.len(),
{
    if files.len() == 0 {
        Map::empty()
    } else {
        record_usage(
            directory_usage(files.drop_last(), root, installed, ignore_bin),
            files.last().path@,
            source_usage(files.last(), root, installed, ignore_bin),
        )
    }
}

/// The names that the import declarations of a file stand for, before any
/// is dropped. A file that could not be parsed has none.
pub open spec fn source_names(file: SourceFile, root: Package) -> Set<Seq<char>> {
    match file.parsed {
        Some(parsed) => file_names(raw_dependencies(parsed.module), parsed.dialect, root),
        None => Set::empty(),
    }
}

/// The names whose installed manifests a check of `files` against `package`
/// may consult: what the manifest installs, and what the import
/// declarations of the files stand for.
pub open spec fn candidates(package: Package, files: Seq<SourceFile>) -> Set<Seq<char>> {
    Set::new(
        |name: Seq<char>|
            package.installs(name) || exists|i: int|
                0 <= i < files.len() && source_names(#[trigger] files[i], package).contains(name),
    )
}

/// The names whose installed manifests are to be loaded before `files` are
/// checked against `package`, each once.
pub fn manifest_candidates(package: &Package, files: &Vec<SourceFile>) -> (names: Vec<String>)
    requires
        package.wf(),
    ensures
        distinct_texts(names@),
        text_set(names@) == candidates(*package, files@),
{
    let mut names = package.dependencies.names();
    let development = package.dev_dependencies.names();
    assert(distinct_texts(names@));
    merge_texts(&mut names, &development);
    let ghost installs = text_set(names@);
    assert forall|n: Seq<char>| installs.contains(n) == package.installs(n) by {}
    let mut i: usize = 0;
    assert(text_set(names@) =~= candidates(*package, files@.take(0)));
    while i < files.len()
        invariant
            i <= files@.len(),
            distinct_texts(names@),
            text_set(names@) == candidates(*package, files@.take(i as int)),
        decreases files.len() - i,
    {
        let ghost done = files@.take(i as int);
        let ghost more = files@.take(i + 1);
        let ghost step = source_names(files@[i as int], *package);
        match &files[i].parsed {
            Some(parsed) => {
                let deps = collect_imports(&parsed.module);
                let found = file_import_names(&deps, parsed.dialect, package);
                merge_texts(&mut names, &found);
            },
            None => {
                assert(text_set(names@) =~= text_set(names@).union(step));
            },
        }
        proof {
            assert(more[i as int] == files@[i as int]);
            assert forall|k: int| 0 <= k < i implies more[k] == done[k] by {}
            assert forall|n: Seq<char>|
                candidates(*package, more).contains(n) == candidates(*package, done).union(
                    step,
                ).contains(n) by {
                if candidates(*package, more).contains(n) && !package.installs(n) {
                    let k = choose|k: int|
                        0 <= k < more.len() && source_names(#[trigger] more[k], *package).contains(
                            n,
                        );
                    if k < i {
                        assert(source_names(done[k], *package).contains(n));
                    }
                }
                if step.contains(n) {
                    assert(source_names(more[i as int], *package).contains(n));
                }
                if candidates(*package, done).contains(n) && !package.installs(n) {
                    let k = choose|k: int|
                        0 <= k < done.len() && source_names(#[trigger] done[k], *package).contains(
                            n,
                        );
                    assert(source_names(more[k], *package).contains(n));
                }
            }
            assert(text_set(names@) =~= candidates(*package, more));
        }
        i += 1;
    }
    proof {
        assert(files@.take(i as int) =~= files@);
    }
    names
}

/// Dependencies checker.
#[derive(Debug)]
pub struct Checker {
    /// What the check is configured with.
    pub config: Config,
}

/// What a check found.
pub struct CheckResult {
    /// The manifest of the project.
    pub package: Package,
    /// The root directory of the project.
    pub directory: String,
    /// For each package name that a file uses, the files that use it.
    pub using_dependencies: UsageMap,
    /// The configuration in effect.
    pub config: Config,
    /// The manifests of the installed dependencies that could be loaded.
    pub installed: Installed,
    /// The compiled ignore patterns of the configuration.
    pub rules: Override,
}

impl Checker {
    /// A checker with the given configuration.
    pub fn new(config: Config) -> (checker: Checker)
        ensures
            checker.config == config,
    {
        Checker { config }
    }

    /// The package names that one file uses, each once.
    pub fn check_file(&self, package: &Package, file: &SourceFile, installed: &Installed) -> (names:
        Vec<String>)
        requires
            installed.wf(),
        ensures
            distinct_texts(names@),
            text_set(names@) == source_usage(
                *file,
                *package,
                *installed,
                self.config.ignore_bin_package,
            ),
    {
        match &file.parsed {
            Some(parsed) => {
                let deps = collect_imports(&parsed.module);
                file_dependencies(
                    &deps,
                    parsed.dialect,
                    package,
                    installed,
                    self.config.ignore_bin_package,
                )
            },
            None => {
                let names: Vec<String> = Vec::new();
                assert(text_set(names@) =~= Set::<Seq<char>>::empty());
                names
            },
        }
    }

    /// The usage map of the project: for each package name that some file
    /// uses, the files that use it.
    pub fn check_directory(
        &self,
        package: &Package,
        files: &Vec<SourceFile>,
        installed: &Installed,
    ) -> (usage: UsageMap)
        requires
            installed.wf(),
        ensures
            usage.wf(),
            usage@ == directory_usage(
                files@,
                *package,
                *installed,
                self.config.ignore_bin_package,
            ),
    {
        let mut usage = UsageMap::new();
        let mut i: usize = 0;
        assert(files@.take(0) =~= Seq::<SourceFile>::empty());
        while i < files.len()
            invariant
                i <= files@.len(),
                installed.wf(),
                usage.wf(),
                usage@ == directory_usage(
                    files@.take(i as int),
                    *package,
                    *installed,
                    self.config.ignore_bin_package,
                ),
            decreases files.len() - i,
        {
            let names = self.check_file(package, &files[i], installed);
            usage.record(files[i].path.as_str(), &names);
            proof {
                assert(files@.take(i + 1).drop_last() =~= files@.take(i as int));
                assert(files@.take(i + 1).last() == files@[i as int]);
            }
            i += 1;
        }
        proof {
            assert(files@.take(i as int) =~= files@);
        }
        usage
    }

    /// Checks the project: `manifest` is its manifest, or `None` where that
    /// could not be read; `files` are its files and `installed` the
    /// manifests of its installed dependencies.
    ///
    /// Fails where there is no manifest, and where the ignore patterns of
    /// the configuration cannot be compiled.
    pub fn check_package(
        self,
        manifest: Option<Package>,
        files: Vec<SourceFile>,
        installed: Installed,
    ) -> (checked: Result<CheckResult, CheckError>)
        requires
            installed.wf(),
            manifest matches Some(package) ==> package.wf(),
        ensures
            match checked {
                Ok(result) => {
                    &&& manifest == Some(result.package)
                    &&& patterns_compile(self.config.ignore_patterns@)
                    &&& result.wf()
                    &&& result.config == self.config
                    &&& result.installed == installed
                    &&& result.directory@ == self.config.directory@
                    &&& result.using_dependencies@ == directory_usage(
                        files@,
                        result.package,
                        installed,
                        self.config.ignore_bin_package,
                    )
                },
                Err(CheckError::ManifestUnreadable { directory }) => manifest is None
                    && directory@ == self.config.directory@,
                Err(CheckError::MalformedPattern { pattern }) => manifest is Some
                    && first_malformed(self.config.ignore_patterns@, 0)
                    < self.config.ignore_patterns@.len() && pattern@
                    == self.config.ignore_patterns@[first_malformed(
                    self.config.ignore_patterns@,
                    0,
                )]@,
                Err(CheckError::RulesNotBuilt) => manifest is Some && first_malformed(
                    self.config.ignore_patterns@,
                    0,
                ) == self.config.ignore_patterns@.len() && !lines_build(
                    ignore_lines(self.config.ignore_patterns@),
                ),
            },
    {
        let package = match manifest {
            Some(package) => package,
            None => {
                return Err(
                    CheckError::ManifestUnreadable { directory: self.config.directory.clone() },
                );
            },
        };
        let rules = match compile_rules(
            self.config.directory.as_str(),
            &self.config.ignore_patterns,
        ) {
            Ok(rules) => rules,
            Err(error) => {
                return Err(error);
            },
        };
        let using_dependencies = self.check_directory(&package, &files, &installed);
        let directory = self.config.directory.clone();
        Ok(
            CheckResult {
                package,
                directory,
                using_dependencies,
                config: self.config,
                installed,
                rules,
            },
        )
    }
}

impl CheckResult {
    /// The manifests and the usage map are well formed.
    pub open spec fn data_wf(&self) -> bool {
        &&& self.package.wf()
        &&& self.installed.wf()
        &&& self.using_dependencies.wf()
    }

    /// The manifests and the usage map are well formed, and the rule set is
    /// the one for the configuration.
    pub open spec fn wf(&self) -> bool {
        &&& self.data_wf()
        &&& rules_for(self.rules, self.config.directory@, self.config.ignore_patterns@)
    }

    /// Whether the ignore patterns of the configuration match `name`.
    pub open spec fn is_ignored(&self, name: Seq<char>) -> bool {
        ignores(self.config.directory@, self.config.ignore_patterns@, name)
    }

    /// Whether `name` is left out as a command-line tool: such packages are
    /// to be left out and `name` is installed as one.
    pub open spec fn is_left_out_as_bin(&self, name: Seq<char>) -> bool {
        self.config.ignore_bin_package && self.installed.bin_only(name)
    }

    /// Whether `name` is reported at all: it is neither ignored nor left out
    /// as a command-line tool.
    pub open spec fn is_reported(&self, name: Seq<char>) -> bool {
        !self.is_ignored(name) && !self.is_left_out_as_bin(name)
    }

    /// Whether `name` is missing where it is used: it is reported and in
    /// none of the four mappings of the manifest.
    pub open spec fn is_missing(&self, name: Seq<char>) -> bool {
        self.is_reported(name) && !self.package.declares(name)
    }

    /// The missing dependencies with the files that use them: nothing where
    /// they are not to be computed.
    pub open spec fn missing(&self) -> Map<Seq<char>, Set<Seq<char>>> {
        if self.config.skip_missing {
            Map::empty()
        } else {
            self.using_dependencies@.restrict(Set::new(|name: Seq<char>| self.is_missing(name)))
        }
    }

    /// The names of `dependencies` that are unused: those that are reported
    /// and that no file uses.
    pub open spec fn unused(&self, dependencies: DepsSet) -> Set<Seq<char>> {
        Set::new(
            |name: Seq<char>|
                dependencies.declares(name) && self.is_reported(name)
                    && !self.using_dependencies@.dom().contains(name),
        )
    }

    /// The names of the usage map that are missing where `ignored` holds,
    /// for each name of the map in ascending order, whether the ignore
    /// patterns match it.
    pub open spec fn missing_among(&self, ignored: Seq<bool>) -> Set<Seq<char>> {
        Set::new(
            |name: Seq<char>|
                exists|i: int|
                    0 <= i < ignored.len() && i < self.using_dependencies.keys().len()
                        && #[trigger] self.using_dependencies.keys()[i] == name && !ignored[i]
                        && !self.is_left_out_as_bin(name) && !self.package.declares(name),
        )
    }

    /// Those of `names` that are unused where `ignored` holds, for each of
    /// them, whether the ignore patterns match it.
    pub open spec fn unused_among(&self, names: Seq<String>, ignored: Seq<bool>, until: int) -> Set<
        Seq<char>,
    > {
        Set::new(
            |name: Seq<char>|
                exists|k: int|
                    0 <= k < until && k < names.len() && k < ignored.len() && (
                    #[trigger] names[k])@ == name && !ignored[k] && !self.is_left_out_as_bin(name)
                        && !self.using_dependencies@.dom().contains(name),
        )
    }

    /// For each of `names`, whether the ignore patterns match it.
    fn ignored_among(&self, names: &Vec<String>) -> (ignored: Vec<bool>)
        requires
            self.wf(),
        ensures
            ignored@.len() == names@.len(),
            forall|k: int|
                0 <= k < names@.len() ==> #[trigger] ignored@[k] == self.is_ignored(names@[k]@),
    {
        let mut ignored: Vec<bool> = Vec::new();
        let mut i: usize = 0;
        while i < names.len()
            invariant
                self.wf(),
                i <= names@.len(),
                ignored@.len() == i,
                forall|k: int| 0 <= k < i ==> #[trigger] ignored@[k] == self.is_ignored(names@[k]@),
            decreases names.len() - i,
        {
            ignored.push(rules_matched(&self.rules, names[i].as_str()));
            i += 1;
        }
        ignored
    }

    /// The missing dependencies, given for each name of the usage map, in
    /// ascending order, whether the ignore patterns match it: the names
    /// that are not matched, not left out as command-line tools and in none
    /// of the four mappings of the manifest, each with the files that use
    /// it. Nothing where missing dependencies are not to be computed.
    pub fn missing_given(&self, ignored: &Vec<bool>) -> (missing: UsageMap)
        requires
            self.data_wf(),
            ignored@.len() == self.using_dependencies.keys().len(),
        ensures
            missing.wf(),
            missing@ == if self.config.skip_missing {
                Map::<Seq<char>, Set<Seq<char>>>::empty()
            } else {
                self.using_dependencies@.restrict(self.missing_among(ignored@))
            },
    {
        if self.config.skip_missing {
            return UsageMap::new();
        }
        let usage = &self.using_dependencies;
        let mut keep: Vec<bool> = Vec::new();
        let mut i: usize = 0;
        while i < usage.len()
            invariant
                self.data_wf(),
                usage == &self.using_dependencies,
                ignored@.len() == usage.keys().len(),
                i <= usage.keys().len(),
                keep@.len() == i,
                forall|j: int|
                    0 <= j < i ==> #[trigger] keep@[j] == (!ignored@[j] && !self.is_left_out_as_bin(
                        usage.keys()[j],
                    ) && !self.package.declares(usage.keys()[j])),
            decreases usage.keys().len() - i,
        {
            let name = usage.name_at(i);
            let missing = !ignored[i] && !(self.config.ignore_bin_package
                && self.installed.is_bin_dependency(name.as_str()))
                && !self.package.is_any_dependency(name.as_str());
            keep.push(missing);
            i += 1;
        }
        let missing = usage.retain(&keep);
        proof {
            let marked = Set::new(
                |n: Seq<char>|
                    exists|i: int| 0 <= i < keep@.len() && #[trigger] usage.keys()[i] == n && keep@[i],
            );
            let wanted = self.missing_among(ignored@);
            assert forall|n: Seq<char>| marked.contains(n) == wanted.contains(n) by {
                if marked.contains(n) {
                    let k = choose|k: int|
                        0 <= k < keep@.len() && #[trigger] usage.keys()[k] == n && keep@[k];
                    assert(keep@[k] == (!ignored@[k] && !self.is_left_out_as_bin(usage.keys()[k])
                        && !self.package.declares(usage.keys()[k])));
                }
                if wanted.contains(n) {
                    let k = choose|k: int|
                        0 <= k < ignored@.len() && k < usage.keys().len()
                            && #[trigger] usage.keys()[k] == n && !ignored@[k]
                            && !self.is_left_out_as_bin(n) && !self.package.declares(n);
                    assert(keep@[k]);
                }
            }
            assert(marked =~= wanted);
        }
        missing
    }

    /// The unused among `names`, each once, given for each of them whether
    /// the ignore patterns match it: those that are not matched, not left
    /// out as command-line tools and used by no file.
    pub fn unused_given(&self, names: &Vec<String>, ignored: &Vec<bool>) -> (unused: Vec<String>)
        requires
            self.data_wf(),
            ignored@.len() == names@.len(),
        ensures
            distinct_texts(unused@),
            text_set(unused@) == self.unused_among(names@, ignored@, names@.len() as int),
    {
        let mut unused: Vec<String> = Vec::new();
        let mut i: usize = 0;
        assert(text_set(unused@) =~= self.unused_among(names@, ignored@, 0));
        while i < names.len()
            invariant
                self.data_wf(),
                ignored@.len() == names@.len(),
                i <= names@.len(),
                distinct_texts(unused@),
                text_set(unused@) == self.unused_among(names@, ignored@, i as int),
            decreases names.len() - i,
        {
            let name = &names[i];
            let ghost before = text_set(unused@);
            let ghost done = self.unused_among(names@, ignored@, i as int);
            let ghost more = self.unused_among(names@, ignored@, i + 1);
            if !ignored[i] && !(self.config.ignore_bin_package && self.installed.is_bin_dependency(
                name.as_str(),
            )) && !self.using_dependencies.contains_key(name.as_str()) {
                push_unique(&mut unused, name.clone());
                proof {
                    assert forall|t: Seq<char>| more.contains(t) == done.insert(name@).contains(
                        t,
                    ) by {
                        if done.contains(t) {
                            let k = choose|k: int|
                                0 <= k < i && k < names@.len() && k < ignored@.len() && (
                                #[trigger] names@[k])@ == t && !ignored@[k]
                                    && !self.is_left_out_as_bin(t)
                                    && !self.using_dependencies@.dom().contains(t);
                            assert(names@[k]@ == t);
                        }
                        if t == name@ {
                            assert(names@[i as int]@ == t);
                        }
                    }
                    assert(text_set(unused@) =~= more);
                }
            } else {
                proof {
                    assert forall|t: Seq<char>| more.contains(t) == done.contains(t) by {
                        if done.contains(t) {
                            let k = choose|k: int|
                                0 <= k < i && k < names@.len() && k < ignored@.len() && (
                                #[trigger] names@[k])@ == t && !ignored@[k]
                                    && !self.is_left_out_as_bin(t)
                                    && !self.using_dependencies@.dom().contains(t);
                            assert(names@[k]@ == t);
                        }
                    }
                    assert(text_set(unused@) =~= more);
                }
            }
            i += 1;
        }
        unused
    }

    /// The package names that files use and the manifest does not declare,
    /// each with the files that use it.
    pub fn get_missing_dependencies(&self) -> (missing: UsageMap)
        requires
            self.wf(),
        ensures
            missing.wf(),
            missing@ == self.missing(),
    {
        if self.config.skip_missing {
            return UsageMap::new();
        }
        let usage = &self.using_dependencies;
        let mut names: Vec<String> = Vec::new();
        let mut i: usize = 0;
        while i < usage.len()
            invariant
                usage == &self.using_dependencies,
                i <= usage.keys().len(),
                names@.len() == i,
                forall|j: int| 0 <= j < i ==> (#[trigger] names@[j])@ == usage.keys()[j],
            decreases usage.keys().len() - i,
        {
            names.push(usage.name_at(i).clone());
            i += 1;
        }
        let ignored = self.ignored_among(&names);
        let missing = self.missing_given(&ignored);
        proof {
            usage.lemma_keys();
            let given = self.missing_among(ignored@);
            let wanted = Set::new(|name: Seq<char>| self.is_missing(name));
            assert forall|n: Seq<char>| usage@.dom().contains(n) implies (given.contains(n)
                <==> wanted.contains(n)) by {
                assert(usage.keys().contains(n));
                let k = choose|k: int| 0 <= k < usage.keys().len() && usage.keys()[k] == n;
                assert(ignored@[k] == self.is_ignored(names@[k]@));
                if given.contains(n) {
                    let l = choose|l: int|
                        0 <= l < ignored@.len() && l < usage.keys().len()
                            && #[trigger] usage.keys()[l] == n && !ignored@[l]
                            && !self.is_left_out_as_bin(n) && !self.package.declares(n);
                    assert(ignored@[l] == self.is_ignored(names@[l]@));
                }
            }
            assert(usage@.restrict(given) =~= usage@.restrict(wanted));
        }
        missing
    }

    /// The names of `dependencies` that are reported and that no file uses.
    fn filter_unused_dependencies(&self, dependencies: &DepsSet) -> (unused: Vec<String>)
        requires
            self.wf(),
            dependencies.wf(),
        ensures
            distinct_texts(unused@),
            text_set(unused@) == self.unused(*dependencies),
    {
        let names = dependencies.names();
        let ignored = self.ignored_among(&names);
        let unused = self.unused_given(&names, &ignored);
        proof {
            let given = self.unused_among(names@, ignored@, names@.len() as int);
            let wanted = self.unused(*dependencies);
            assert forall|t: Seq<char>| given.contains(t) == wanted.contains(t) by {
                if given.contains(t) {
                    let k = choose|k: int|
                        0 <= k < names@.len() && k < names@.len() && k < ignored@.len() && (
                        #[trigger] names@[k])@ == t && !ignored@[k] && !self.is_left_out_as_bin(t)
                            && !self.using_dependencies@.dom().contains(t);
                    assert(ignored@[k] == self.is_ignored(names@[k]@));
                    assert(dependencies.declares(t));
                }
                if wanted.contains(t) {
                    assert(dependencies.declares(t));
                    let k = choose|k: int| 0 <= k < names@.len() && (#[trigger] names@[k])@ == t;
                    assert(ignored@[k] == self.is_ignored(names@[k]@));
                }
            }
            assert(given =~= wanted);
        }
        unused
    }

    /// The regular dependencies that no file uses.
    pub fn get_unused_dependencies(&self) -> (unused: Vec<String>)
        requires
            self.wf(),
        ensures
            distinct_texts(unused@),
            text_set(unused@) == self.unused(self.package.dependencies),
    {
        self.filter_unused_dependencies(&self.package.dependencies)
    }

    /// The dev-dependencies that no file uses.
    pub fn get_unused_dev_dependencies(&self) -> (unused: Vec<String>)
        requires
            self.wf(),
        ensures
            distinct_texts(unused@),
            text_set(unused@) == self.unused(self.package.dev_dependencies),
    {
        self.filter_unused_dependencies(&self.package.dev_dependencies)
    }
}

} // verus!
