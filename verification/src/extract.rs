//! From the import declarations of one file to the package names that the
//! file uses.

use crate::imports::{Import, ImportKind, RawDependency, import_list};
use crate::names::{
    extract_package_name, extract_type_name, is_core_module, is_core_name, is_external,
    names_package, package_name, type_package_name,
};
use crate::package::{first_installed, Installed, Package};
use crate::usage::{distinct_texts, has_text, text_set};
use vstd::prelude::*;

verus! {

/// The dialect that a file is written in.
#[derive(Clone, Copy, Debug, PartialEq, Eq, Structural)]
pub enum Dialect {
    /// Plain script or module code, without type annotations.
    Script,
    /// Code with type annotations, where imports may be type-only.
    Typed,
}

/// The names that one import declaration stands for, before any is dropped.
///
/// A declaration of a local module stands for none. Any other import of
/// `n` stands for `n`, with one addition in the typed dialect where the
/// manifest installs `@types/n`: there a type-only import stands for
/// `@types/n` in place of `n`, and any other import for both.
pub open spec fn declared_names(import: Import, dialect: Dialect, root: Package) -> Set<Seq<char>> {
    let name = package_name(import.specifier);
    let types = type_package_name(name);
    if !names_package(import.specifier) {
        Set::empty()
    } else if dialect == Dialect::Typed && root.installs(types) {
        if import.kind == ImportKind::ImportType {
            Set::empty().insert(types)
        } else {
            Set::empty().insert(name).insert(types)
        }
    } else {
        Set::empty().insert(name)
    }
}

/// Whether a name is kept: it is no module of the runtime and, where
/// command-line tools are left out, not installed as one.
pub open spec fn survives(name: Seq<char>, installed: Installed, ignore_bin: bool) -> bool {
    !is_core_name(name) && !(ignore_bin && installed.bin_only(name))
}

/// Whether the use of `name` counts as a use of `to` as well: the manifest
/// installed for `name` has `to` as a peer or optional dependency and the
/// root manifest installs `to`.
pub open spec fn forwards(name: Seq<char>, to: Seq<char>, root: Package, installed: Installed) -> bool {
    &&& installed.has(name)
    &&& root.installs(to)
    &&& installed.manifest_of(name).peer_dependencies.declares(to) || installed.manifest_of(
        name,
    ).optional_dependencies.declares(to)
}

/// The names that a kept name credits the file with: itself, and what it
/// forwards to.
pub open spec fn credits(name: Seq<char>, root: Package, installed: Installed) -> Set<Seq<char>> {
    Set::new(|to: Seq<char>| to == name || forwards(name, to, root, installed))
}

/// What a declared name contributes: its credits where it is kept, nothing
/// where it is dropped.
pub open spec fn name_usage(
    name: Seq<char>,
    root: Package,
    installed: Installed,
    ignore_bin: bool,
) -> Set<Seq<char>> {
    if survives(name, installed, ignore_bin) {
        credits(name, root, installed)
    } else {
        Set::empty()
    }
}

/// The package names that one import declaration makes its file use.
pub open spec fn import_usage(
    import: Import,
    dialect: Dialect,
    root: Package,
    installed: Installed,
    ignore_bin: bool,
) -> Set<Seq<char>> {
    Set::new(
        |to: Seq<char>|
            exists|name: Seq<char>|
                #[trigger] declared_names(import, dialect, root).contains(name) && name_usage(
                    name,
                    root,
                    installed,
                    ignore_bin,
                ).contains(to),
    )
}

/// The package names that a file with the declarations `imports` uses.
pub open spec fn file_usage(
    imports: Seq<Import>,
    dialect: Dialect,
    root: Package,
    installed: Installed,
    ignore_bin: bool,
) -> Set<Seq<char>> {
    Set::new(
        |to: Seq<char>|
            exists|i: int|
                0 <= i < imports.len() && #[trigger] import_usage(
                    imports[i],
                    dialect,
                    root,
                    installed,
                    ignore_bin,
                ).contains(to),
    )
}

/// The names that the declarations `imports` of a file stand for, before
/// any is dropped.
pub open spec fn file_names(imports: Seq<Import>, dialect: Dialect, root: Package) -> Set<
    Seq<char>,
> {
    Set::new(
        |name: Seq<char>|
            exists|i: int|
                0 <= i < imports.len() && #[trigger] declared_names(
                    imports[i],
                    dialect,
                    root,
                ).contains(name),
    )
}

/// What the first `until` of `names` contribute together.
pub open spec fn names_usage(
    names: Seq<String>,
    until: int,
    root: Package,
    installed: Installed,
    ignore_bin: bool,
) -> Set<Seq<char>> {
    Set::new(
        |to: Seq<char>|
            exists|k: int|
                0 <= k < until && k < names.len() && name_usage(
                    (#[trigger] names[k])@,
                    root,
                    installed,
                    ignore_bin,
                ).contains(to),
    )
}

/// The texts of a list with one more are the texts of the list and that one.
pub proof fn lemma_text_set_push(texts: Seq<String>, text: String)
    ensures
        text_set(texts.push(text)) == text_set(texts).insert(text@),
{
    let more = texts.push(text);
    assert forall|t: Seq<char>| text_set(texts).insert(text@).contains(t) implies text_set(
        more,
    ).contains(t) by {
        if text_set(texts).contains(t) {
            let k = choose|k: int| 0 <= k < texts.len() && (#[trigger] texts[k])@ == t;
            assert(more[k]@ == t);
        } else {
            assert(more[texts.len() as int]@ == t);
        }
    }
    assert forall|t: Seq<char>| text_set(more).contains(t) implies text_set(texts).insert(
        text@,
    ).contains(t) by {
        let k = choose|k: int| 0 <= k < more.len() && (#[trigger] more[k])@ == t;
        if k < texts.len() {
            assert(texts[k]@ == t);
        }
    }
    assert(text_set(more) =~= text_set(texts).insert(text@));
}

/// The first manifest installed under a name at or after `from` lies
/// between `from` and the end.
pub proof fn lemma_first_installed(
    packages: Seq<crate::package::InstalledPackage>,
    name: Seq<char>,
    from: int,
)
    requires
        0 <= from <= packages.len(),
    ensures
        from <= first_installed(packages, name, from) <= packages.len(),
    decreases packages.len() - from,
{
    if from < packages.len() && packages[from].name@ != name {
        lemma_first_installed(packages, name, from + 1);
    }
}

/// Adds `name` to `out` unless it is there.
pub fn push_unique(out: &mut Vec<String>, name: String)
    requires
        distinct_texts(old(out)@),
    ensures
        distinct_texts(final(out)@),
        text_set(final(out)@) == text_set(old(out)@).insert(name@),
{
    if !has_text(out, name.as_str()) {
        proof {
            lemma_text_set_push(out@, name);
        }
        out.push(name);
    } else {
        assert(text_set(out@).insert(name@) =~= text_set(out@));
    }
}

/// Adds to `out` those of `names` that it does not hold yet.
pub fn merge_texts(out: &mut Vec<String>, names: &Vec<String>)
    requires
        distinct_texts(old(out)@),
    ensures
        distinct_texts(final(out)@),
        text_set(final(out)@) == text_set(old(out)@).union(text_set(names@)),
{
    let ghost before = text_set(out@);
    let mut i: usize = 0;
    assert(text_set(names@.take(0)) =~= Set::<Seq<char>>::empty());
    assert(before =~= before.union(text_set(names@.take(0))));
    while i < names.len()
        invariant
            i <= names@.len(),
            distinct_texts(out@),
            text_set(out@) == before.union(text_set(names@.take(i as int))),
        decreases names.len() - i,
    {
        proof {
            assert(names@.take(i + 1) =~= names@.take(i as int).push(names@[i as int]));
            lemma_text_set_push(names@.take(i as int), names@[i as int]);
        }
        push_unique(out, names[i].clone());
        proof {
            assert(text_set(out@) =~= before.union(text_set(names@.take(i + 1))));
        }
        i += 1;
    }
    proof {
        assert(names@.take(i as int) =~= names@);
    }
}

/// Adds to `out` those of `names` that the root manifest installs.
fn forward(names: &Vec<String>, root: &Package, out: &mut Vec<String>)
    requires
        distinct_texts(old(out)@),
    ensures
        distinct_texts(final(out)@),
        text_set(final(out)@) == text_set(old(out)@).union(
            Set::new(|to: Seq<char>| text_set(names@).contains(to) && root.installs(to)),
        ),
{
    let ghost before = text_set(out@);
    let mut i: usize = 0;
    assert(text_set(names@.take(0)) =~= Set::<Seq<char>>::empty());
    assert(before =~= before.union(
        Set::new(|to: Seq<char>| text_set(names@.take(0)).contains(to) && root.installs(to)),
    ));
    while i < names.len()
        invariant
            i <= names@.len(),
            distinct_texts(out@),
            text_set(out@) == before.union(
                Set::new(
                    |to: Seq<char>| text_set(names@.take(i as int)).contains(to) && root.installs(to),
                ),
            ),
        decreases names.len() - i,
    {
        proof {
            assert(names@.take(i + 1) =~= names@.take(i as int).push(names@[i as int]));
            lemma_text_set_push(names@.take(i as int), names@[i as int]);
        }
        if root.is_installed_dependency(names[i].as_str()) {
            push_unique(out, names[i].clone());
        }
        proof {
            assert(text_set(out@) =~= before.union(
                Set::new(
                    |to: Seq<char>| text_set(names@.take(i + 1)).contains(to) && root.installs(to),
                ),
            ));
        }
        i += 1;
    }
    proof {
        assert(names@.take(i as int) =~= names@);
    }
}

/// Adds to `out` what the use of `name` contributes.
fn keep(name: String, root: &Package, installed: &Installed, ignore_bin: bool, out: &mut Vec<String>)
    requires
        installed.wf(),
        distinct_texts(old(out)@),
    ensures
        distinct_texts(final(out)@),
        text_set(final(out)@) == text_set(old(out)@).union(
            name_usage(name@, *root, *installed, ignore_bin),
        ),
{
    let ghost before = text_set(out@);
    if is_core_module(name.as_str()) || (ignore_bin && installed.is_bin_dependency(name.as_str())) {
        assert(before =~= before.union(Set::<Seq<char>>::empty()));
        return ;
    }
    match installed.find(name.as_str()) {
        Some(manifest) => {
            proof {
                let at = first_installed(installed.packages@, name@, 0);
                assert(0 <= at < installed.packages@.len()) by {
                    lemma_first_installed(installed.packages@, name@, 0);
                }
                assert(installed.packages@[at].manifest.wf());
            }
            let peers = manifest.peer_dependencies.names();
            let optionals = manifest.optional_dependencies.names();
            push_unique(out, name);
            forward(&peers, root, out);
            forward(&optionals, root, out);
            proof {
                assert forall|to: Seq<char>|
                    manifest.peer_dependencies.declares(to) == text_set(peers@).contains(to) by {}
                assert forall|to: Seq<char>|
                    manifest.optional_dependencies.declares(to) == text_set(optionals@).contains(
                        to,
                    ) by {}
                assert(text_set(out@) =~= before.union(credits(name@, *root, *installed)));
            }
        },
        None => {
            push_unique(out, name);
            proof {
                assert(text_set(out@) =~= before.union(credits(name@, *root, *installed)));
            }
        },
    }
}

/// The names that one import declaration stands for, each once, before any
/// is dropped.
pub fn import_names(dep: &RawDependency, dialect: Dialect, root: &Package) -> (names: Vec<String>)
    ensures
        distinct_texts(names@),
        text_set(names@) == declared_names(dep@, dialect, *root),
{
    let mut names: Vec<String> = Vec::new();
    assert(text_set(names@) =~= Set::<Seq<char>>::empty());
    if !is_external(dep.specifier.as_str()) {
        return names;
    }
    let name = extract_package_name(dep.specifier.as_str());
    match dialect {
        Dialect::Typed => {
            let types = extract_type_name(name.as_str());
            if root.is_installed_dependency(types.as_str()) {
                if dep.kind == ImportKind::ImportType {
                    push_unique(&mut names, types);
                } else {
                    push_unique(&mut names, name);
                    push_unique(&mut names, types);
                }
            } else {
                push_unique(&mut names, name);
            }
        },
        Dialect::Script => {
            push_unique(&mut names, name);
        },
    }
    names
}

/// Adds to `out` the package names that one import declaration uses.
fn extract_into(
    dep: &RawDependency,
    dialect: Dialect,
    root: &Package,
    installed: &Installed,
    ignore_bin: bool,
    out: &mut Vec<String>,
)
    requires
        installed.wf(),
        distinct_texts(old(out)@),
    ensures
        distinct_texts(final(out)@),
        text_set(final(out)@) == text_set(old(out)@).union(
            import_usage(dep@, dialect, *root, *installed, ignore_bin),
        ),
{
    let ghost before = text_set(out@);
    let declared = import_names(dep, dialect, root);
    let mut i: usize = 0;
    assert(before =~= before.union(names_usage(declared@, 0, *root, *installed, ignore_bin)));
    while i < declared.len()
        invariant
            i <= declared@.len(),
            installed.wf(),
            distinct_texts(out@),
            text_set(out@) == before.union(
                names_usage(declared@, i as int, *root, *installed, ignore_bin),
            ),
        decreases declared.len() - i,
    {
        keep(declared[i].clone(), root, installed, ignore_bin, out);
        proof {
            let done = names_usage(declared@, i as int, *root, *installed, ignore_bin);
            let more = names_usage(declared@, i + 1, *root, *installed, ignore_bin);
            let step = name_usage(declared@[i as int]@, *root, *installed, ignore_bin);
            assert forall|to: Seq<char>| more.contains(to) == done.union(step).contains(to) by {
                if step.contains(to) {
                    assert(name_usage(declared@[i as int]@, *root, *installed, ignore_bin).contains(
                        to,
                    ));
                }
                if done.contains(to) {
                    let k = choose|k: int|
                        0 <= k < i && k < declared@.len() && name_usage(
                            (#[trigger] declared@[k])@,
                            *root,
                            *installed,
                            ignore_bin,
                        ).contains(to);
                    assert(name_usage(declared@[k]@, *root, *installed, ignore_bin).contains(to));
                }
            }
            assert(text_set(out@) =~= before.union(more));
        }
        i += 1;
    }
    proof {
        let all = names_usage(declared@, i as int, *root, *installed, ignore_bin);
        let usage = import_usage(dep@, dialect, *root, *installed, ignore_bin);
        assert forall|to: Seq<char>| all.contains(to) == usage.contains(to) by {
            if all.contains(to) {
                let k = choose|k: int|
                    0 <= k < i && k < declared@.len() && name_usage(
                        (#[trigger] declared@[k])@,
                        *root,
                        *installed,
                        ignore_bin,
                    ).contains(to);
                assert(text_set(declared@).contains(declared@[k]@));
                assert(declared_names(dep@, dialect, *root).contains(declared@[k]@));
            }
            if usage.contains(to) {
                let name = choose|name: Seq<char>|
                    #[trigger] declared_names(dep@, dialect, *root).contains(name) && name_usage(
                        name,
                        *root,
                        *installed,
                        ignore_bin,
                    ).contains(to);
                assert(text_set(declared@).contains(name));
                let k = choose|k: int| 0 <= k < declared@.len() && (#[trigger] declared@[k])@ == name;
                assert(name_usage(declared@[k]@, *root, *installed, ignore_bin).contains(to));
            }
        }
        assert(all =~= usage);
    }
}

/// The package names that one import declaration makes its file use, each
/// once.
pub fn extract_dependencies(
    dep: &RawDependency,
    dialect: Dialect,
    root: &Package,
    installed: &Installed,
    ignore_bin: bool,
) -> (names: Vec<String>)
    requires
        installed.wf(),
    ensures
        distinct_texts(names@),
        text_set(names@) == import_usage(dep@, dialect, *root, *installed, ignore_bin),
{
    let mut names: Vec<String> = Vec::new();
    assert(text_set(names@) =~= Set::<Seq<char>>::empty());
    extract_into(dep, dialect, root, installed, ignore_bin, &mut names);
    assert(text_set(names@) =~= import_usage(dep@, dialect, *root, *installed, ignore_bin));
    names
}

/// The package names that a file with the import declarations `deps` uses,
/// each once.
pub fn file_dependencies(
    deps: &Vec<RawDependency>,
    dialect: Dialect,
    root: &Package,
    installed: &Installed,
    ignore_bin: bool,
) -> (names: Vec<String>)
    requires
        installed.wf(),
    ensures
        distinct_texts(names@),
        text_set(names@) == file_usage(import_list(deps@), dialect, *root, *installed, ignore_bin),
{
    let mut names: Vec<String> = Vec::new();
    let mut i: usize = 0;
    assert(text_set(names@) =~= file_usage(
        import_list(deps@.take(0)),
        dialect,
        *root,
        *installed,
        ignore_bin,
    ));
    while i < deps.len()
        invariant
            i <= deps@.len(),
            installed.wf(),
            distinct_texts(names@),
            text_set(names@) == file_usage(
                import_list(deps@.take(i as int)),
                dialect,
                *root,
                *installed,
                ignore_bin,
            ),
        decreases deps.len() - i,
    {
        extract_into(&deps[i], dialect, root, installed, ignore_bin, &mut names);
        proof {
            let done = import_list(deps@.take(i as int));
            let more = import_list(deps@.take(i + 1));
            let step = import_usage(deps@[i as int]@, dialect, *root, *installed, ignore_bin);
            assert(more.len() == i + 1);
            assert(more[i as int] == deps@[i as int]@);
            assert forall|k: int| 0 <= k < i implies more[k] == done[k] by {}
            assert forall|to: Seq<char>|
                file_usage(more, dialect, *root, *installed, ignore_bin).contains(to)
                implies file_usage(done, dialect, *root, *installed, ignore_bin).union(
                step,
            ).contains(to) by {
                let k = choose|k: int|
                    0 <= k < more.len() && #[trigger] import_usage(
                        more[k],
                        dialect,
                        *root,
                        *installed,
                        ignore_bin,
                    ).contains(to);
                if k < i {
                    assert(import_usage(done[k], dialect, *root, *installed, ignore_bin).contains(
                        to,
                    ));
                }
            }
            assert forall|to: Seq<char>|
                file_usage(done, dialect, *root, *installed, ignore_bin).union(step).contains(to)
                implies file_usage(more, dialect, *root, *installed, ignore_bin).contains(to) by {
                if step.contains(to) {
                    assert(import_usage(more[i as int], dialect, *root, *installed, ignore_bin).contains(
                        to,
                    ));
                } else {
                    let k = choose|k: int|
                        0 <= k < done.len() && #[trigger] import_usage(
                            done[k],
                            dialect,
                            *root,
                            *installed,
                            ignore_bin,
                        ).contains(to);
                    assert(import_usage(more[k], dialect, *root, *installed, ignore_bin).contains(
                        to,
                    ));
                }
            }
            assert(text_set(names@) =~= file_usage(more, dialect, *root, *installed, ignore_bin));
        }
        i += 1;
    }
    proof {
        assert(deps@.take(i as int) =~= deps@);
    }
    names
}

/// The names that the import declarations `deps` of a file stand for, each
/// once, before any is dropped.
pub fn file_import_names(deps: &Vec<RawDependency>, dialect: Dialect, root: &Package) -> (names:
    Vec<String>)
    ensures
        distinct_texts(names@),
        text_set(names@) == file_names(import_list(deps@), dialect, *root),
{
    let mut names: Vec<String> = Vec::new();
    let mut i: usize = 0;
    assert(text_set(names@) =~= file_names(import_list(deps@.take(0)), dialect, *root));
    while i < deps.len()
        invariant
            i <= deps@.len(),
            distinct_texts(names@),
            text_set(names@) == file_names(import_list(deps@.take(i as int)), dialect, *root),
        decreases deps.len() - i,
    {
        let found = import_names(&deps[i], dialect, root);
        merge_texts(&mut names, &found);
        proof {
            let done = import_list(deps@.take(i as int));
            let more = import_list(deps@.take(i + 1));
            let step = declared_names(deps@[i as int]@, dialect, *root);
            assert(more.len() == i + 1);
            assert(more[i as int] == deps@[i as int]@);
            assert forall|k: int| 0 <= k < i implies more[k] == done[k] by {}
            assert forall|name: Seq<char>|
                file_names(more, dialect, *root).contains(name) == file_names(
                    done,
                    dialect,
                    *root,
                ).union(step).contains(name) by {
                if file_names(more, dialect, *root).contains(name) {
                    let k = choose|k: int|
                        0 <= k < more.len() && #[trigger] declared_names(
                            more[k],
                            dialect,
                            *root,
                        ).contains(name);
                    if k < i {
                        assert(declared_names(done[k], dialect, *root).contains(name));
                    }
                }
                if step.contains(name) {
                    assert(declared_names(more[i as int], dialect, *root).contains(name));
                }
                if file_names(done, dialect, *root).contains(name) {
                    let k = choose|k: int|
                        0 <= k < done.len() && #[trigger] declared_names(
                            done[k],
                            dialect,
                            *root,
                        ).contains(name);
                    assert(declared_names(more[k], dialect, *root).contains(name));
                }
            }
            assert(text_set(names@) =~= file_names(more, dialect, *root));
        }
        i += 1;
    }
    proof {
        assert(deps@.take(i as int) =~= deps@);
    }
    names
}

} // verus!
