//! The import declarations of one parsed file, as `swc_ecma_dep_graph`
//! reports them.

use swc_common::comments::SingleThreadedComments;
use swc_ecma_ast::Module;
use swc_ecma_dep_graph::{analyze_dependencies, DependencyKind};
use vstd::prelude::*;

verus! {

/// `swc_ecma_ast::Module`, the syntax tree of one parsed file.
#[verifier::external_type_specification]
#[verifier::external_body]
pub struct ExModule(Module);

/// `swc_ecma_dep_graph::DependencyKind`, the form of an import declaration.
#[verifier::external_type_specification]
pub struct ExDependencyKind(DependencyKind);

/// What `swc_ecma_dep_graph::analyze_dependencies` reports for a module: for
/// each declaration, in source order, its specifier, its kind and whether it
/// is evaluated dynamically.
pub uninterp spec fn module_imports(module: Module) -> Seq<(Seq<char>, DependencyKind, bool)>;

/// Calls `analyze_dependencies` on a module, with no comments attached, and
/// picks the specifier, kind and dynamic flag of each descriptor.
#[verifier::external_body]
fn analyze(module: &Module) -> (found: Vec<(String, DependencyKind, bool)>)
    ensures
        found@.len() == module_imports(*module).len(),
        forall|i: int|
            0 <= i < found@.len() ==> (#[trigger] found@[i]).0@ == module_imports(*module)[i].0
                && found@[i].1 == module_imports(*module)[i].1 && found@[i].2 == module_imports(
                *module,
            )[i].2,
{
    let comments = SingleThreadedComments::default();
    let found = analyze_dependencies(module, &comments);
    found.into_iter().map(|d| (d.specifier.to_string(), d.kind, d.is_dynamic)).collect()
}

/// The form of an import declaration.
#[derive(Clone, Copy, Debug, PartialEq, Eq, Structural)]
pub enum ImportKind {
    /// `import x from "m"`, or `import("m")`.
    Import,
    /// `import type { T } from "m"`, or a type query `import("m").T`.
    ImportType,
    /// `import x = require("m")`.
    ImportEquals,
    /// `export { x } from "m"`, or `export * from "m"`.
    Export,
    /// `export type { T } from "m"`.
    ExportType,
    /// `export = require("m")`.
    ExportEquals,
    /// `require("m")`, or `require.resolve("m")`.
    Require,
}

/// One import declaration of a file: what it names and in which form.
#[derive(Debug)]
pub struct RawDependency {
    /// The module specifier as written in the source.
    pub specifier: String,
    /// The form of the declaration.
    pub kind: ImportKind,
    /// Whether the import is evaluated at run time rather than at load time.
    pub is_dynamic: bool,
}

/// One import declaration as plain values.
pub struct Import {
    /// The module specifier.
    pub specifier: Seq<char>,
    /// The form of the declaration.
    pub kind: ImportKind,
    /// Whether the import is evaluated at run time.
    pub is_dynamic: bool,
}

impl View for RawDependency {
    type V = Import;

    open spec fn view(&self) -> Import {
        Import { specifier: self.specifier@, kind: self.kind, is_dynamic: self.is_dynamic }
    }
}

/// The declarations of `deps` as plain values, in order.
pub open spec fn import_list(deps: Seq<RawDependency>) -> Seq<Import> {
    Seq::new(deps.len(), |i: int| deps[i]@)
}

/// The library's kind for a kind of `swc_ecma_dep_graph`.
pub open spec fn kind_of(kind: DependencyKind) -> ImportKind {
    match kind {
        DependencyKind::Import => ImportKind::Import,
        DependencyKind::ImportType => ImportKind::ImportType,
        DependencyKind::ImportEquals => ImportKind::ImportEquals,
        DependencyKind::Export => ImportKind::Export,
        DependencyKind::ExportType => ImportKind::ExportType,
        DependencyKind::ExportEquals => ImportKind::ExportEquals,
        DependencyKind::Require => ImportKind::Require,
    }
}

/// The import declarations of a module as plain values of the library.
pub open spec fn raw_dependencies(module: Module) -> Seq<Import> {
    Seq::new(
        module_imports(module).len(),
        |i: int|
            Import {
                specifier: module_imports(module)[i].0,
                kind: kind_of(module_imports(module)[i].1),
                is_dynamic: module_imports(module)[i].2,
            },
    )
}

/// The import declarations of `module`: static and dynamic imports,
/// re-exports, `require` calls and type-only imports, in source order.
pub fn collect_imports(module: &Module) -> (deps: Vec<RawDependency>)
    ensures
        import_list(deps@) == raw_dependencies(*module),
{
    let found = analyze(module);
    let mut deps: Vec<RawDependency> = Vec::new();
    let mut i: usize = 0;
    while i < found.len()
        invariant
            i <= found.len(),
            found@.len() == module_imports(*module).len(),
            forall|j: int|
                0 <= j < found@.len() ==> (#[trigger] found@[j]).0@ == module_imports(*module)[j].0
                    && found@[j].1 == module_imports(*module)[j].1 && found@[j].2
                    == module_imports(*module)[j].2,
            deps@.len() == i,
            forall|j: int| 0 <= j < i ==> (#[trigger] deps@[j])@ == raw_dependencies(*module)[j],
        decreases found.len() - i,
    {
        let kind = match found[i].1 {
            DependencyKind::Import => ImportKind::Import,
            DependencyKind::ImportType => ImportKind::ImportType,
            DependencyKind::ImportEquals => ImportKind::ImportEquals,
            DependencyKind::Export => ImportKind::Export,
            DependencyKind::ExportType => ImportKind::ExportType,
            DependencyKind::ExportEquals => ImportKind::ExportEquals,
            DependencyKind::Require => ImportKind::Require,
        };
        deps.push(RawDependency { specifier: found[i].0.clone(), kind, is_dynamic: found[i].2 });
        i += 1;
    }
    proof {
        assert(import_list(deps@) =~= raw_dependencies(*module));
    }
    deps
}

} // verus!
