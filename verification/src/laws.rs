//! What holds of every check, proved from the definitions.

use crate::checker::{
    candidates, directory_usage, source_names, source_usage, CheckResult, SourceFile,
};
use crate::extract::{
    declared_names, file_names, file_usage, forwards, import_usage, name_usage, survives, Dialect,
};
use crate::imports::{raw_dependencies, Import, ImportKind};
use crate::names::{
    first_segment, first_separator, is_core_name, lemma_first_separator, names_package,
    package_name, type_package_name,
};
use crate::package::{Installed, Package};
use crate::rules::patterns_compile;
use crate::usage::{files_of, record_usage};
use vstd::prelude::*;

verus! {

/// Whether the specifier is written relative to the importing file: it
/// starts with `./` or with `../`.
pub open spec fn is_relative(specifier: Seq<char>) -> bool {
    ||| specifier.len() >= 2 && specifier[0] == '.' && specifier[1] == '/'
    ||| specifier.len() >= 3 && specifier[0] == '.' && specifier[1] == '.' && specifier[2] == '/'
}

/// A relative specifier names no package.
pub proof fn lemma_relative_names_no_package(specifier: Seq<char>)
    requires
        is_relative(specifier),
    ensures
        !names_package(specifier),
{
    lemma_first_separator(specifier, 0);
    let first = first_separator(specifier, 0);
    let segment = first_segment(specifier);
    if specifier[1] == '/' {
        assert(first == 1) by {
            reveal_with_fuel(first_separator, 3);
        }
        assert(segment =~= seq!['.']);
    } else {
        assert(first == 2) by {
            reveal_with_fuel(first_separator, 4);
        }
        assert(segment =~= seq!['.', '.']);
    }
}

/// An import of a local module makes its file use no package, and so does
/// any relative import.
pub proof fn lemma_local_import_uses_nothing(
    import: Import,
    dialect: Dialect,
    root: Package,
    installed: Installed,
    ignore_bin: bool,
)
    requires
        !names_package(import.specifier) || is_relative(import.specifier),
    ensures
        import_usage(import, dialect, root, installed, ignore_bin) == Set::<Seq<char>>::empty(),
{
    if is_relative(import.specifier) {
        lemma_relative_names_no_package(import.specifier);
    }
    assert(import_usage(import, dialect, root, installed, ignore_bin) =~= Set::<
        Seq<char>,
    >::empty());
}

/// A specifier below a scoped package names that package: for a scope and a
/// name without `/`, `@scope/name/rest` is normalized to `@scope/name`.
pub proof fn lemma_scoped_package_name(scope: Seq<char>, name: Seq<char>, rest: Seq<char>)
    requires
        !scope.contains('/'),
        !name.contains('/'),
    ensures
        package_name(seq!['@'] + scope + seq!['/'] + name + seq!['/'] + rest) == seq!['@'] + scope
            + seq!['/'] + name,
{
    let head = seq!['@'] + scope + seq!['/'] + name;
    let s = head + seq!['/'] + rest;
    let a: int = scope.len() as int + 1;
    let b: int = a + 1 + name.len() as int;
    assert(s.len() == b + 1 + rest.len());
    assert(s[0] == '@');
    assert(s[a] == '/');
    assert(s[b] == '/');
    assert forall|j: int| 0 <= j < a implies s[j] != '/' by {
        if j > 0 {
            assert(s[j] == scope[j - 1]);
            assert(scope.contains(scope[j - 1]));
        }
    }
    assert forall|j: int| a < j < b implies s[j] != '/' by {
        assert(s[j] == name[j - a - 1]);
        assert(name.contains(name[j - a - 1]));
    }
    lemma_first_separator(s, 0);
    assert(first_separator(s, 0) == a);
    lemma_first_separator(s, a + 1);
    assert(first_separator(s, a + 1) == b);
    assert(s.subrange(0, b) =~= head);
}

/// In the typed dialect a type-only import of a package whose `@types`
/// package the manifest installs stands for the `@types` package and not
/// for the package itself; where no manifest was loaded for the `@types`
/// package, the import makes the file use nothing else.
pub proof fn lemma_type_only_import(
    import: Import,
    root: Package,
    installed: Installed,
    ignore_bin: bool,
)
    requires
        import.kind == ImportKind::ImportType,
        names_package(import.specifier),
        root.installs(type_package_name(package_name(import.specifier))),
    ensures
        declared_names(import, Dialect::Typed, root) == Set::<Seq<char>>::empty().insert(
            type_package_name(package_name(import.specifier)),
        ),
        type_package_name(package_name(import.specifier)) != package_name(import.specifier),
        !installed.has(type_package_name(package_name(import.specifier))) ==> !import_usage(
            import,
            Dialect::Typed,
            root,
            installed,
            ignore_bin,
        ).contains(package_name(import.specifier)),
{
    let name = package_name(import.specifier);
    let types = type_package_name(name);
    reveal_strlit("@types/");
    assert(types.len() == name.len() + 7);
}

/// A type-only import of a package whose `@types` package the manifest
/// does not install stands for the package itself, as any other import of
/// it does, in either dialect.
pub proof fn lemma_type_only_import_without_types(import: Import, dialect: Dialect, root: Package)
    requires
        names_package(import.specifier),
        !root.installs(type_package_name(package_name(import.specifier))),
    ensures
        declared_names(import, dialect, root) == Set::<Seq<char>>::empty().insert(
            package_name(import.specifier),
        ),
{
}

/// Where the root manifest installs no module of the runtime under its
/// name, no file uses such a module.
pub proof fn lemma_core_modules_unused(
    imports: Seq<Import>,
    dialect: Dialect,
    root: Package,
    installed: Installed,
    ignore_bin: bool,
)
    requires
        forall|name: Seq<char>| is_core_name(name) ==> !root.installs(name),
    ensures
        forall|name: Seq<char>|
            file_usage(imports, dialect, root, installed, ignore_bin).contains(name)
                ==> !is_core_name(name),
{
    assert forall|to: Seq<char>|
        file_usage(imports, dialect, root, installed, ignore_bin).contains(
            to,
        ) implies !is_core_name(to) by {
        let i = choose|i: int|
            0 <= i < imports.len() && #[trigger] import_usage(
                imports[i],
                dialect,
                root,
                installed,
                ignore_bin,
            ).contains(to);
        let name = choose|name: Seq<char>|
            #[trigger] declared_names(imports[i], dialect, root).contains(name) && name_usage(
                name,
                root,
                installed,
                ignore_bin,
            ).contains(to);
        assert(survives(name, installed, ignore_bin));
        assert(to == name || forwards(name, to, root, installed));
    }
}

/// The files among `files` that use `name`.
pub open spec fn users_of(
    files: Seq<SourceFile>,
    name: Seq<char>,
    root: Package,
    installed: Installed,
    ignore_bin: bool,
) -> Set<Seq<char>> {
    Set::new(
        |path: Seq<char>|
            exists|i: int|
                0 <= i < files.len() && (#[trigger] files[i]).path@ == path && source_usage(
                    files[i],
                    root,
                    installed,
                    ignore_bin,
                ).contains(name),
    )
}

/// Whether some file among `files` uses `name`.
pub open spec fn is_used(
    files: Seq<SourceFile>,
    name: Seq<char>,
    root: Package,
    installed: Installed,
    ignore_bin: bool,
) -> bool {
    exists|i: int|
        0 <= i < files.len() && source_usage(
            #[trigger] files[i],
            root,
            installed,
            ignore_bin,
        ).contains(name)
}

/// The usage map of a project holds exactly the names that some file uses,
/// each with exactly the files that use it.
pub proof fn lemma_directory_usage(
    files: Seq<SourceFile>,
    root: Package,
    installed: Installed,
    ignore_bin: bool,
)
    ensures
        forall|name: Seq<char>|
            directory_usage(files, root, installed, ignore_bin).dom().contains(name) <==> is_used(
                files,
                name,
                root,
                installed,
                ignore_bin,
            ),
        forall|name: Seq<char>| #[trigger]
            directory_usage(files, root, installed, ignore_bin).dom().contains(name)
                ==> directory_usage(files, root, installed, ignore_bin)[name] == users_of(
                files,
                name,
                root,
                installed,
                ignore_bin,
            ),
    decreases files.len(),
{
    let usage = directory_usage(files, root, installed, ignore_bin);
    if files.len() > 0 {
        let front = files.drop_last();
        let last = files.last();
        let n = files.len() - 1;
        lemma_directory_usage(front, root, installed, ignore_bin);
        assert forall|i: int| 0 <= i < n implies front[i] == files[i] by {}
        assert forall|name: Seq<char>| usage.dom().contains(name) <==> is_used(
            files,
            name,
            root,
            installed,
            ignore_bin,
        ) by {
            if is_used(front, name, root, installed, ignore_bin) {
                let i = choose|i: int|
                    0 <= i < front.len() && source_usage(
                        #[trigger] front[i],
                        root,
                        installed,
                        ignore_bin,
                    ).contains(name);
                assert(source_usage(files[i], root, installed, ignore_bin).contains(name));
            }
            if source_usage(last, root, installed, ignore_bin).contains(name) {
                assert(source_usage(files[n], root, installed, ignore_bin).contains(name));
            }
            if is_used(files, name, root, installed, ignore_bin) {
                let i = choose|i: int|
                    0 <= i < files.len() && source_usage(
                        #[trigger] files[i],
                        root,
                        installed,
                        ignore_bin,
                    ).contains(name);
                if i < n {
                    assert(source_usage(front[i], root, installed, ignore_bin).contains(name));
                }
            }
        }
        assert forall|name: Seq<char>| #[trigger] usage.dom().contains(name) implies usage[name]
            == users_of(files, name, root, installed, ignore_bin) by {
            let here = users_of(files, name, root, installed, ignore_bin);
            let before = users_of(front, name, root, installed, ignore_bin);
            let earlier = directory_usage(front, root, installed, ignore_bin);
            assert(files_of(earlier, name) =~= before) by {
                if earlier.dom().contains(name) {
                    assert(earlier[name] == before);
                } else {
                    assert(!is_used(front, name, root, installed, ignore_bin));
                    assert forall|path: Seq<char>| !before.contains(path) by {
                        if before.contains(path) {
                            let i = choose|i: int|
                                0 <= i < front.len() && (#[trigger] front[i]).path@ == path
                                    && source_usage(front[i], root, installed, ignore_bin).contains(
                                    name,
                                );
                            assert(source_usage(front[i], root, installed, ignore_bin).contains(
                                name,
                            ));
                        }
                    }
                }
            }
            assert(usage[name] == if source_usage(last, root, installed, ignore_bin).contains(
                name,
            ) {
                before.insert(last.path@)
            } else {
                before
            });
            assert forall|path: Seq<char>| usage[name].contains(path) <==> here.contains(path) by {
                if before.contains(path) {
                    let i = choose|i: int|
                        0 <= i < front.len() && (#[trigger] front[i]).path@ == path
                            && source_usage(front[i], root, installed, ignore_bin).contains(name);
                    assert(files[i].path@ == path);
                }
                if here.contains(path) {
                    let i = choose|i: int|
                        0 <= i < files.len() && (#[trigger] files[i]).path@ == path
                            && source_usage(files[i], root, installed, ignore_bin).contains(name);
                    if i < n {
                        assert(front[i].path@ == path);
                        assert(is_used(front, name, root, installed, ignore_bin));
                    }
                }
                if source_usage(last, root, installed, ignore_bin).contains(name) && path
                    == last.path@ {
                    assert(files[n].path@ == path);
                }
            }
            assert(usage[name] =~= here);
        }
    } else {
        assert forall|name: Seq<char>| !is_used(files, name, root, installed, ignore_bin) by {}
    }
}

/// Where the root manifest installs no module of the runtime under its
/// name, no such module is a name of the usage map.
pub proof fn lemma_core_modules_never_reported(
    files: Seq<SourceFile>,
    root: Package,
    installed: Installed,
    ignore_bin: bool,
)
    requires
        forall|name: Seq<char>| is_core_name(name) ==> !root.installs(name),
    ensures
        forall|name: Seq<char>|
            directory_usage(files, root, installed, ignore_bin).dom().contains(name)
                ==> !is_core_name(name),
{
    lemma_directory_usage(files, root, installed, ignore_bin);
    assert forall|name: Seq<char>|
        directory_usage(files, root, installed, ignore_bin).dom().contains(
            name,
        ) implies !is_core_name(name) by {
        assert(is_used(files, name, root, installed, ignore_bin));
        let i = choose|i: int|
            0 <= i < files.len() && source_usage(
                #[trigger] files[i],
                root,
                installed,
                ignore_bin,
            ).contains(name);
        match files[i].parsed {
            Some(parsed) => {
                lemma_core_modules_unused(
                    raw_dependencies(parsed.module),
                    parsed.dialect,
                    root,
                    installed,
                    ignore_bin,
                );
            },
            None => {},
        }
    }
}

/// The candidates are all the names whose installed manifests a check
/// consults: every name that the declarations of a file stand for, every
/// name of the usage map, and every dependency and dev-dependency of the
/// manifest.
pub proof fn lemma_candidates_cover(
    files: Seq<SourceFile>,
    root: Package,
    installed: Installed,
    ignore_bin: bool,
)
    ensures
        forall|i: int, name: Seq<char>|
            0 <= i < files.len() && source_names(#[trigger] files[i], root).contains(name)
                ==> #[trigger] candidates(root, files).contains(name),
        forall|name: Seq<char>|
            directory_usage(files, root, installed, ignore_bin).dom().contains(name) ==> candidates(
                root,
                files,
            ).contains(name),
        forall|name: Seq<char>| root.installs(name) ==> candidates(root, files).contains(name),
{
    lemma_directory_usage(files, root, installed, ignore_bin);
    assert forall|name: Seq<char>|
        directory_usage(files, root, installed, ignore_bin).dom().contains(
            name,
        ) implies candidates(root, files).contains(name) by {
        assert(is_used(files, name, root, installed, ignore_bin));
        let i = choose|i: int|
            0 <= i < files.len() && source_usage(
                #[trigger] files[i],
                root,
                installed,
                ignore_bin,
            ).contains(name);
        match files[i].parsed {
            Some(parsed) => {
                let imports = raw_dependencies(parsed.module);
                let j = choose|j: int|
                    0 <= j < imports.len() && #[trigger] import_usage(
                        imports[j],
                        parsed.dialect,
                        root,
                        installed,
                        ignore_bin,
                    ).contains(name);
                let from = choose|from: Seq<char>|
                    #[trigger] declared_names(imports[j], parsed.dialect, root).contains(from)
                        && name_usage(from, root, installed, ignore_bin).contains(name);
                if name == from {
                    assert(file_names(imports, parsed.dialect, root).contains(name));
                    assert(source_names(files[i], root).contains(name));
                } else {
                    assert(forwards(from, name, root, installed));
                }
            },
            None => {},
        }
    }
}

/// Whether each file of `a` is a file of `b`.
pub open spec fn files_among(a: Seq<SourceFile>, b: Seq<SourceFile>) -> bool {
    forall|i: int| 0 <= i < a.len() ==> b.contains(#[trigger] a[i])
}

/// The usage map does not depend on the order in which the files are
/// processed, nor on how often a file is: two lists of the same files give
/// the same map.
pub proof fn lemma_order_independent(
    a: Seq<SourceFile>,
    b: Seq<SourceFile>,
    root: Package,
    installed: Installed,
    ignore_bin: bool,
)
    requires
        files_among(a, b),
        files_among(b, a),
    ensures
        directory_usage(a, root, installed, ignore_bin) == directory_usage(
            b,
            root,
            installed,
            ignore_bin,
        ),
{
    lemma_directory_usage(a, root, installed, ignore_bin);
    lemma_directory_usage(b, root, installed, ignore_bin);
    let ua = directory_usage(a, root, installed, ignore_bin);
    let ub = directory_usage(b, root, installed, ignore_bin);
    lemma_users_among(a, b, root, installed, ignore_bin);
    lemma_users_among(b, a, root, installed, ignore_bin);
    assert forall|name: Seq<char>| ua.dom().contains(name) == ub.dom().contains(name) by {
        assert(ua.dom().contains(name) <==> is_used(a, name, root, installed, ignore_bin));
        assert(ub.dom().contains(name) <==> is_used(b, name, root, installed, ignore_bin));
    }
    assert forall|name: Seq<char>| ua.dom().contains(name) implies ua[name] == ub[name] by {
        assert(ub.dom().contains(name));
        assert(users_of(a, name, root, installed, ignore_bin) =~= users_of(
            b,
            name,
            root,
            installed,
            ignore_bin,
        ));
    }
    assert(ua =~= ub);
}

proof fn lemma_users_among(
    a: Seq<SourceFile>,
    b: Seq<SourceFile>,
    root: Package,
    installed: Installed,
    ignore_bin: bool,
)
    requires
        files_among(a, b),
    ensures
        forall|name: Seq<char>|
            is_used(a, name, root, installed, ignore_bin) ==> is_used(
                b,
                name,
                root,
                installed,
                ignore_bin,
            ),
        forall|name: Seq<char>, path: Seq<char>|
            users_of(a, name, root, installed, ignore_bin).contains(path) ==> users_of(
                b,
                name,
                root,
                installed,
                ignore_bin,
            ).contains(path),
{
    assert forall|name: Seq<char>| is_used(a, name, root, installed, ignore_bin) implies is_used(
        b,
        name,
        root,
        installed,
        ignore_bin,
    ) by {
        let i = choose|i: int|
            0 <= i < a.len() && source_usage(#[trigger] a[i], root, installed, ignore_bin).contains(
                name,
            );
        assert(b.contains(a[i]));
        let j = choose|j: int| 0 <= j < b.len() && b[j] == a[i];
        assert(source_usage(b[j], root, installed, ignore_bin).contains(name));
    }
    assert forall|name: Seq<char>, path: Seq<char>|
        users_of(a, name, root, installed, ignore_bin).contains(path) implies users_of(
        b,
        name,
        root,
        installed,
        ignore_bin,
    ).contains(path) by {
        let i = choose|i: int|
            0 <= i < a.len() && (#[trigger] a[i]).path@ == path && source_usage(
                a[i],
                root,
                installed,
                ignore_bin,
            ).contains(name);
        assert(b.contains(a[i]));
        let j = choose|j: int| 0 <= j < b.len() && b[j] == a[i];
        assert(b[j].path@ == path);
    }
}

/// A file that could not be parsed contributes nothing: the usage map with
/// it is the usage map without it.
pub proof fn lemma_unparsed_file_contributes_nothing(
    files: Seq<SourceFile>,
    file: SourceFile,
    root: Package,
    installed: Installed,
    ignore_bin: bool,
)
    requires
        file.parsed is None,
    ensures
        source_usage(file, root, installed, ignore_bin) == Set::<Seq<char>>::empty(),
        directory_usage(files.push(file), root, installed, ignore_bin) == directory_usage(
            files,
            root,
            installed,
            ignore_bin,
        ),
{
    let usage = directory_usage(files, root, installed, ignore_bin);
    assert(files.push(file).drop_last() =~= files);
    assert(files.push(file).last() == file);
    assert(record_usage(usage, file.path@, Set::empty()) =~~= usage);
}

/// Two results for the same project, usage and configuration report the
/// same missing and unused dependencies: a repeated check of an unchanged
/// tree changes nothing.
pub proof fn lemma_reports_repeat(a: CheckResult, b: CheckResult)
    requires
        a.package == b.package,
        a.installed == b.installed,
        a.config == b.config,
        a.using_dependencies@ == b.using_dependencies@,
    ensures
        a.missing() == b.missing(),
        a.unused(a.package.dependencies) == b.unused(b.package.dependencies),
        a.unused(a.package.dev_dependencies) == b.unused(b.package.dev_dependencies),
{
    assert(Set::new(|name: Seq<char>| a.is_missing(name)) =~= Set::new(
        |name: Seq<char>| b.is_missing(name),
    ));
    assert(a.unused(a.package.dependencies) =~= b.unused(b.package.dependencies));
    assert(a.unused(a.package.dev_dependencies) =~= b.unused(b.package.dev_dependencies));
}

/// A configuration without ignore patterns ignores no name, and its rule
/// set can be compiled.
pub proof fn lemma_no_patterns_ignore_nothing(result: CheckResult, name: Seq<char>)
    requires
        result.config.ignore_patterns@.len() == 0,
    ensures
        !result.is_ignored(name),
        patterns_compile(result.config.ignore_patterns@),
{
}

/// A declared dependency that no file uses is unused, unless it is ignored
/// or left out as a command-line tool.
pub proof fn lemma_unreferenced_is_unused(result: CheckResult, name: Seq<char>)
    requires
        result.package.dependencies.declares(name),
        !result.using_dependencies@.dom().contains(name),
        !result.is_ignored(name),
        !result.is_left_out_as_bin(name),
    ensures
        result.unused(result.package.dependencies).contains(name),
{
}

/// A name that some file uses and that the manifest declares in none of its
/// mappings is missing, with exactly the files that use it, unless it is
/// ignored or left out as a command-line tool. This holds where missing
/// dependencies are computed at all.
pub proof fn lemma_undeclared_is_missing(result: CheckResult, name: Seq<char>)
    requires
        !result.config.skip_missing,
        result.using_dependencies@.dom().contains(name),
        !result.package.declares(name),
        !result.is_ignored(name),
        !result.is_left_out_as_bin(name),
    ensures
        result.missing().dom().contains(name),
        result.missing()[name] == result.using_dependencies@[name],
{
}

/// What is missing is used by some file and declared nowhere, and what is
/// unused is declared and used by no file.
pub proof fn lemma_reports_are_sound(result: CheckResult, name: Seq<char>)
    ensures
        result.missing().dom().contains(name) ==> result.using_dependencies@.dom().contains(name)
            && !result.package.declares(name) && !result.config.skip_missing,
        result.unused(result.package.dependencies).contains(name)
            ==> result.package.dependencies.declares(name)
            && !result.using_dependencies@.dom().contains(name),
{
}

} // verus!
