//! The package manifest: a name, a version and four dependency mappings.

use crate::text::same_text;
use vstd::prelude::*;

verus! {

/// One entry of a dependency mapping.
#[derive(Debug)]
pub struct DepEntry {
    /// The name of the package depended on.
    pub name: String,
    /// The version requirement, as the manifest spells it.
    pub version: String,
}

/// A mapping from dependency names to version requirements. No name occurs
/// twice.
#[derive(Debug)]
pub struct DepsSet {
    pub(crate) entries: Vec<DepEntry>,
}

/// Whether some entry of `entries` before index `until` is named `name`.
pub open spec fn has_entry(entries: Seq<DepEntry>, until: int, name: Seq<char>) -> bool {
    exists|i: int| 0 <= i < until && i < entries.len() && (#[trigger] entries[i]).name@ == name
}

impl DepsSet {
    /// No two entries have the same name.
    pub closed spec fn wf(&self) -> bool {
        forall|i: int, j: int|
            0 <= i < j < self.entries@.len() ==> (#[trigger] self.entries@[i]).name@ != (
            #[trigger] self.entries@[j]).name@
    }

    /// The mapping itself.
    pub closed spec fn view(&self) -> Map<Seq<char>, Seq<char>> {
        Map::new(
            |name: Seq<char>| has_entry(self.entries@, self.entries@.len() as int, name),
            |name: Seq<char>|
                self.entries@[choose|i: int|
                    0 <= i < self.entries@.len() && (#[trigger] self.entries@[i]).name@
                        == name].version@,
        )
    }

    /// Whether the mapping has an entry for `name`.
    pub open spec fn declares(&self, name: Seq<char>) -> bool {
        self@.dom().contains(name)
    }

    /// The mapping without entries.
    pub fn new() -> (deps: DepsSet)
        ensures
            deps@ == Map::<Seq<char>, Seq<char>>::empty(),
            deps.wf(),
    {
        let deps = DepsSet { entries: Vec::new() };
        assert(deps@ =~= Map::<Seq<char>, Seq<char>>::empty());
        deps
    }

    /// The index of the entry for `name`, if there is one.
    fn position(&self, name: &str) -> (at: Option<usize>)
        ensures
            match at {
                Some(i) => i < self.entries@.len() && self.entries@[i as int].name@ == name@,
                None => !has_entry(self.entries@, self.entries@.len() as int, name@),
            },
    {
        let mut i: usize = 0;
        while i < self.entries.len()
            invariant
                i <= self.entries@.len(),
                !has_entry(self.entries@, i as int, name@),
            decreases self.entries.len() - i,
        {
            if same_text(self.entries[i].name.as_str(), name) {
                return Some(i);
            }
            i += 1;
        }
        None
    }

    /// Whether the mapping has an entry for `name`.
    pub fn contains_key(&self, name: &str) -> (found: bool)
        ensures
            found == self.declares(name@),
    {
        self.position(name).is_some()
    }

    /// Sets the requirement for `name` to `version`, whether or not the
    /// mapping had one.
    pub fn insert(&mut self, name: String, version: String)
        requires
            old(self).wf(),
        ensures
            final(self).wf(),
            final(self)@ == old(self)@.insert(name@, version@),
    {
        let ghost before = *self;
        match self.position(name.as_str()) {
            Some(i) => {
                self.entries.set(i, DepEntry { name, version });
                proof {
                    assert forall|n: Seq<char>| #[trigger]
                        self@.dom().contains(n) == before@.insert(name@, version@).dom().contains(
                            n,
                        ) by {
                        if has_entry(before.entries@, before.entries@.len() as int, n) {
                            let k = choose|k: int|
                                0 <= k < before.entries@.len() && (
                                #[trigger] before.entries@[k]).name@ == n;
                            assert(self.entries@[k].name@ == n);
                        }
                        if has_entry(self.entries@, self.entries@.len() as int, n) {
                            let k = choose|k: int|
                                0 <= k < self.entries@.len() && (#[trigger] self.entries@[k]).name@
                                    == n;
                            assert(before.entries@[k].name@ == n);
                        }
                    }
                    assert forall|n: Seq<char>| #[trigger]
                        self@.dom().contains(n) implies self@[n] == before@.insert(
                        name@,
                        version@,
                    )[n] by {
                        let k = choose|k: int|
                            0 <= k < self.entries@.len() && (#[trigger] self.entries@[k]).name@
                                == n;
                        let l = choose|l: int|
                            0 <= l < before.entries@.len() && (
                            #[trigger] before.entries@[l]).name@ == n;
                        if n != name@ {
                            assert(before.entries@[k].name@ == n);
                            assert(k == l);
                        } else {
                            assert(k == i);
                        }
                    }
                    assert(self@ =~= before@.insert(name@, version@));
                }
            },
            None => {
                self.entries.push(DepEntry { name, version });
                proof {
                    let last = before.entries@.len() as int;
                    assert(self.entries@[last].name@ == name@);
                    assert forall|n: Seq<char>| #[trigger]
                        self@.dom().contains(n) == before@.insert(name@, version@).dom().contains(
                            n,
                        ) by {
                        if has_entry(before.entries@, before.entries@.len() as int, n) {
                            let k = choose|k: int|
                                0 <= k < before.entries@.len() && (
                                #[trigger] before.entries@[k]).name@ == n;
                            assert(self.entries@[k].name@ == n);
                        }
                        if has_entry(self.entries@, self.entries@.len() as int, n) {
                            let k = choose|k: int|
                                0 <= k < self.entries@.len() && (#[trigger] self.entries@[k]).name@
                                    == n;
                            if k < last {
                                assert(before.entries@[k].name@ == n);
                            }
                        }
                    }
                    assert forall|n: Seq<char>| #[trigger]
                        self@.dom().contains(n) implies self@[n] == before@.insert(
                        name@,
                        version@,
                    )[n] by {
                        let k = choose|k: int|
                            0 <= k < self.entries@.len() && (#[trigger] self.entries@[k]).name@
                                == n;
                        let l = choose|l: int|
                            0 <= l < before.entries@.len() && (
                            #[trigger] before.entries@[l]).name@ == n;
                        if n != name@ {
                            assert(k < last);
                            assert(before.entries@[k].name@ == n);
                            assert(k == l);
                        } else {
                            assert(k == last);
                        }
                    }
                    assert(self@ =~= before@.insert(name@, version@));
                }
            },
        }
    }

    /// The names of the mapping, each once.
    pub fn names(&self) -> (names: Vec<String>)
        requires
            self.wf(),
        ensures
            forall|i: int, j: int| 0 <= i < j < names@.len() ==> names@[i]@ != names@[j]@,
            forall|n: Seq<char>|
                self.declares(n) <==> exists|i: int|
                    0 <= i < names@.len() && (#[trigger] names@[i])@ == n,
    {
        let mut names: Vec<String> = Vec::new();
        let mut i: usize = 0;
        while i < self.entries.len()
            invariant
                i <= self.entries@.len(),
                names@.len() == i,
                forall|j: int| 0 <= j < i ==> (#[trigger] names@[j])@ == self.entries@[j].name@,
            decreases self.entries.len() - i,
        {
            names.push(self.entries[i].name.clone());
            i += 1;
        }
        proof {
            assert forall|n: Seq<char>| self.declares(n) implies exists|i: int|
                0 <= i < names@.len() && (#[trigger] names@[i])@ == n by {
                let k = choose|k: int|
                    0 <= k < self.entries@.len() && (#[trigger] self.entries@[k]).name@ == n;
                assert(names@[k]@ == n);
            }
            assert forall|n: Seq<char>|
                (exists|i: int| 0 <= i < names@.len() && (#[trigger] names@[i])@ == n)
                implies self.declares(n) by {
                let k = choose|k: int| 0 <= k < names@.len() && (#[trigger] names@[k])@ == n;
                assert(self.entries@[k].name@ == n);
            }
        }
        names
    }
}

/// A package manifest.
#[derive(Debug)]
pub struct Package {
    /// The package's own name.
    pub name: String,
    /// The package's own version.
    pub version: String,
    /// What the package needs to run.
    pub dependencies: DepsSet,
    /// What the package needs to be developed.
    pub dev_dependencies: DepsSet,
    /// What the package expects its consumer to supply.
    pub peer_dependencies: DepsSet,
    /// What the package uses where it is there.
    pub optional_dependencies: DepsSet,
    /// Whether the manifest names executables.
    pub has_bin: bool,
    /// Whether the manifest names a main entry.
    pub has_main: bool,
    /// Whether the manifest names a module entry.
    pub has_module: bool,
    /// Whether the manifest names exports.
    pub has_exports: bool,
}

impl Package {
    /// Each of the four mappings is well formed.
    pub open spec fn wf(&self) -> bool {
        &&& self.dependencies.wf()
        &&& self.dev_dependencies.wf()
        &&& self.peer_dependencies.wf()
        &&& self.optional_dependencies.wf()
    }

    /// Whether `name` is declared as a dependency or a dev-dependency: what
    /// the package itself installs.
    pub open spec fn installs(&self, name: Seq<char>) -> bool {
        self.dependencies.declares(name) || self.dev_dependencies.declares(name)
    }

    /// Whether `name` is declared in any of the four mappings.
    pub open spec fn declares(&self, name: Seq<char>) -> bool {
        ||| self.dependencies.declares(name)
        ||| self.dev_dependencies.declares(name)
        ||| self.peer_dependencies.declares(name)
        ||| self.optional_dependencies.declares(name)
    }

    /// Whether the package offers executables and nothing to import.
    pub open spec fn bin_only(&self) -> bool {
        self.has_bin && !self.has_main && !self.has_module && !self.has_exports
    }

    /// A manifest with the given name and version, without dependencies or
    /// entry points.
    pub fn new(name: String, version: String) -> (package: Package)
        ensures
            package.wf(),
            package.name == name,
            package.version == version,
            forall|n: Seq<char>| !package.declares(n),
            !package.has_bin && !package.has_main && !package.has_module && !package.has_exports,
    {
        Package {
            name,
            version,
            dependencies: DepsSet::new(),
            dev_dependencies: DepsSet::new(),
            peer_dependencies: DepsSet::new(),
            optional_dependencies: DepsSet::new(),
            has_bin: false,
            has_main: false,
            has_module: false,
            has_exports: false,
        }
    }

    /// Whether `name` is a regular dependency.
    pub fn is_dependency(&self, name: &str) -> (declared: bool)
        ensures
            declared == self.dependencies.declares(name@),
    {
        self.dependencies.contains_key(name)
    }

    /// Whether `name` is a dev-dependency.
    pub fn is_dev_dependency(&self, name: &str) -> (declared: bool)
        ensures
            declared == self.dev_dependencies.declares(name@),
    {
        self.dev_dependencies.contains_key(name)
    }

    /// Whether `name` is a peer dependency.
    pub fn is_peer_dependency(&self, name: &str) -> (declared: bool)
        ensures
            declared == self.peer_dependencies.declares(name@),
    {
        self.peer_dependencies.contains_key(name)
    }

    /// Whether `name` is an optional dependency.
    pub fn is_optional_dependency(&self, name: &str) -> (declared: bool)
        ensures
            declared == self.optional_dependencies.declares(name@),
    {
        self.optional_dependencies.contains_key(name)
    }

    /// Whether `name` is declared in any of the four mappings.
    pub fn is_any_dependency(&self, name: &str) -> (declared: bool)
        ensures
            declared == self.declares(name@),
    {
        self.is_dependency(name) || self.is_dev_dependency(name) || self.is_peer_dependency(name)
            || self.is_optional_dependency(name)
    }

    /// Whether `name` is a dependency or a dev-dependency.
    pub fn is_installed_dependency(&self, name: &str) -> (declared: bool)
        ensures
            declared == self.installs(name@),
    {
        self.is_dependency(name) || self.is_dev_dependency(name)
    }

    /// Whether the package is a command-line tool only: it has a binary
    /// field but no main, module or exports entry.
    pub fn is_bin_only(&self) -> (only: bool)
        ensures
            only == self.bin_only(),
    {
        self.has_bin && !self.has_main && !self.has_module && !self.has_exports
    }
}

/// The manifest found where a dependency is installed.
#[derive(Debug)]
pub struct InstalledPackage {
    /// The name under which the dependency is installed.
    pub name: String,
    /// Its manifest.
    pub manifest: Package,
}

/// The manifests of the installed dependencies that could be loaded. A name
/// without a manifest here is one whose manifest could not be loaded.
#[derive(Debug)]
pub struct Installed {
    /// The manifests; for a name that occurs twice the first one counts.
    pub packages: Vec<InstalledPackage>,
}

/// The index of the first of `packages` at or after `from` that is installed
/// as `name`, or the length of `packages` where there is none.
pub open spec fn first_installed(packages: Seq<InstalledPackage>, name: Seq<char>, from: int) -> int
    decreases packages.len() - from,
{
    if from < 0 || from >= packages.len() {
        packages.len() as int
    } else if packages[from].name@ == name {
        from
    } else {
        first_installed(packages, name, from + 1)
    }
}

impl Installed {
    /// Each manifest is well formed.
    pub open spec fn wf(&self) -> bool {
        forall|i: int| 0 <= i < self.packages@.len() ==> (#[trigger] self.packages@[i]).manifest.wf()
    }

    /// Whether a manifest was loaded for `name`.
    pub open spec fn has(&self, name: Seq<char>) -> bool {
        first_installed(self.packages@, name, 0) < self.packages@.len()
    }

    /// The manifest that was loaded for `name`.
    pub open spec fn manifest_of(&self, name: Seq<char>) -> Package
        recommends
            self.has(name),
    {
        self.packages@[first_installed(self.packages@, name, 0)].manifest
    }

    /// Whether `name` is installed as a command-line tool only. A name whose
    /// manifest could not be loaded is not.
    pub open spec fn bin_only(&self, name: Seq<char>) -> bool {
        self.has(name) && self.manifest_of(name).bin_only()
    }

    /// No manifest at all.
    pub fn new() -> (installed: Installed)
        ensures
            installed.wf(),
            installed.packages@.len() == 0,
    {
        Installed { packages: Vec::new() }
    }

    /// The manifest loaded for `name`, if there is one.
    pub fn find(&self, name: &str) -> (found: Option<&Package>)
        ensures
            found is Some <==> self.has(name@),
            found matches Some(manifest) ==> *manifest == self.manifest_of(name@),
    {
        let mut i: usize = 0;
        while i < self.packages.len()
            invariant
                i <= self.packages@.len(),
                first_installed(self.packages@, name@, 0) == first_installed(
                    self.packages@,
                    name@,
                    i as int,
                ),
            decreases self.packages.len() - i,
        {
            if same_text(self.packages[i].name.as_str(), name) {
                return Some(&self.packages[i].manifest);
            }
            i += 1;
        }
        None
    }

    /// Whether `name` is installed as a command-line tool only.
    pub fn is_bin_dependency(&self, name: &str) -> (only: bool)
        ensures
            only == self.bin_only(name@),
    {
        match self.find(name) {
            Some(manifest) => manifest.is_bin_only(),
            None => false,
        }
    }
}

} // verus!
