//! The plan of the module that each extracted hook moves into: the imports
//! that rebind its captured identifiers, then the named export of its body.
use crate::collector::{GlobalCollect, ImportKind};
use crate::path::{fix_path, fix_path_spec, PathData, PathError};
use crate::text::strs;
use crate::transform::Hook;
use vstd::prelude::*;

verus! {

/// One single-specifier import declaration.
pub struct ImportPlan {
    /// The local name that the declaration binds.
    pub local: String,
    /// The imported name, where it differs from the local one.
    pub imported: Option<String>,
    pub kind: ImportKind,
    /// The module specifier, rewritten for the hook module's location.
    pub source: String,
}

/// An import declaration as plain values: local name, imported name, kind,
/// module specifier.
pub type ImportView = (Seq<char>, Option<Seq<char>>, ImportKind, Seq<char>);

impl ImportPlan {
    pub open spec fn view_of(&self) -> ImportView {
        (
            self.local@,
            match self.imported {
                None => None,
                Some(s) => Some(s@),
            },
            self.kind,
            self.source@,
        )
    }
}

/// The module of one hook: its imports, in order, then
/// `export const <export_name> = <body>`.
pub struct HookModule {
    pub imports: Vec<ImportPlan>,
    pub export_name: String,
}

/// The import that rebinds `id` in a hook module, if `id` is imported or
/// exported at module scope.
pub open spec fn import_for(id: Seq<char>, global: GlobalCollect, origin: Seq<char>, file_stem: Seq<char>) -> Option<
    Result<ImportView, PathError>,
> {
    match global.import_of(id) {
        Some(imp) => Some(
            match fix_path_spec(origin, imp.source@) {
                Err(e) => Err(e),
                Ok(src) => Ok(
                    (
                        id,
                        if imp.specifier@ == id {
                            None
                        } else {
                            Some(imp.specifier@)
                        },
                        imp.kind,
                        src,
                    ),
                ),
            },
        ),
        None => match global.export_of(id) {
            Some(exported) => Some(Ok((exported, None, ImportKind::Named, "./"@ + file_stem))),
            None => None,
        },
    }
}

/// The imports for the captured identifiers `ids`, in their order.
pub open spec fn imports_for(ids: Seq<Seq<char>>, global: GlobalCollect, origin: Seq<char>, file_stem: Seq<char>) -> Result<
    Seq<ImportView>,
    PathError,
>
    decreases ids.len(),
{
    if ids.len() == 0 {
        Ok(Seq::empty())
    } else {
        match imports_for(ids.drop_last(), global, origin, file_stem) {
            Err(e) => Err(e),
            Ok(prev) => match import_for(ids.last(), global, origin, file_stem) {
                None => Ok(prev),
                Some(Err(e)) => Err(e),
                Some(Ok(i)) => Ok(prev.push(i)),
            },
        }
    }
}

pub open spec fn plans_view(v: Seq<ImportPlan>) -> Seq<ImportView> {
    v.map_values(|p: ImportPlan| p.view_of())
}

fn plan_import(id: &String, global: &GlobalCollect, origin: &str, file_stem: &str) -> (r: Option<
    Result<ImportPlan, PathError>,
>)
    ensures
        match r {
            None => import_for(id@, *global, origin@, file_stem@) is None,
            Some(Err(e)) => import_for(id@, *global, origin@, file_stem@) == Some(
                Err::<ImportView, PathError>(e),
            ),
            Some(Ok(p)) => import_for(id@, *global, origin@, file_stem@) == Some(
                Ok::<ImportView, PathError>(p.view_of()),
            ),
        },
{
    match global.get_import(id.as_str()) {
        Some(imp) => {
            let source = match fix_path(origin, imp.source.as_str()) {
                Ok(s) => s,
                Err(e) => {
                    return Some(Err(e));
                },
            };
            let imported = if imp.specifier == *id {
                None
            } else {
                Some(imp.specifier.clone())
            };
            Some(Ok(ImportPlan { local: id.clone(), imported, kind: imp.kind, source }))
        },
        None => match global.get_export(id.as_str()) {
            Some(exported) => {
                let mut source = String::from_str("./");
                source.append(file_stem);
                Some(Ok(ImportPlan { local: exported.clone(), imported: None, kind: ImportKind::Named, source }))
            },
            None => None,
        },
    }
}

/// Plans the module of `hook`: for each captured identifier in order, an
/// import from the original specifier (rewritten through `fix_path`) where
/// it is imported, or else from `./<file_stem>` where it is exported; then
/// the export of the hook's name.
pub fn new_module<E>(path: &PathData, hook: &Hook<E>, global: &GlobalCollect) -> (r: Result<HookModule, PathError>)
    ensures
        match imports_for(strs(hook.local_idents@), *global, hook.origin@, path.file_stem@) {
            Err(e) => r == Err::<HookModule, PathError>(e),
            Ok(imports) => r matches Ok(m) && plans_view(m.imports@) == imports && m.export_name@
                == hook.name@,
        },
{
    let mut imports: Vec<ImportPlan> = Vec::new();
    let mut i: usize = 0;
    assert(strs(hook.local_idents@.subrange(0, 0)) =~= Seq::<Seq<char>>::empty());
    assert(plans_view(imports@) =~= Seq::<ImportView>::empty());
    while i < hook.local_idents.len()
        invariant
            i <= hook.local_idents@.len(),
            imports_for(strs(hook.local_idents@.subrange(0, i as int)), *global, hook.origin@, path.file_stem@) == Ok::<
                Seq<ImportView>,
                PathError,
            >(plans_view(imports@)),
        decreases hook.local_idents@.len() - i,
    {
        proof {
            assert(strs(hook.local_idents@.subrange(0, i + 1)).drop_last() =~= strs(hook.local_idents@.subrange(0, i as int)));
            assert(strs(hook.local_idents@.subrange(0, i + 1)) =~= strs(hook.local_idents@).subrange(0, i + 1));
            lemma_imports_for_prefix(strs(hook.local_idents@), i as int);
        }
        match plan_import(&hook.local_idents[i], global, hook.origin.as_str(), path.file_stem.as_str()) {
            None => {},
            Some(Err(e)) => {
                proof {
                    assert(strs(hook.local_idents@).subrange(0, i + 1).last() == hook.local_idents@[i as int]@);
                    assert(imports_for(strs(hook.local_idents@).subrange(0, i + 1), *global, hook.origin@, path.file_stem@)
                        == Err::<Seq<ImportView>, PathError>(e));
                    lemma_imports_for_err(strs(hook.local_idents@), i as int + 1, *global, hook.origin@, path.file_stem@);
                }
                return Err(e);
            },
            Some(Ok(p)) => {
                let ghost before = imports@;
                imports.push(p);
                assert(plans_view(imports@) =~= plans_view(before).push(p.view_of()));
            },
        }
        i += 1;
    }
    assert(hook.local_idents@.subrange(0, hook.local_idents@.len() as int) =~= hook.local_idents@);
    assert(strs(hook.local_idents@.subrange(0, hook.local_idents@.len() as int)) =~= strs(hook.local_idents@));
    Ok(HookModule { imports, export_name: hook.name.clone() })
}

proof fn lemma_imports_for_prefix(ids: Seq<Seq<char>>, i: int)
    requires
        0 <= i < ids.len(),
    ensures
        ids.subrange(0, i + 1).drop_last() == ids.subrange(0, i),
        ids.subrange(0, i + 1).last() == ids[i],
{
    assert(ids.subrange(0, i + 1).drop_last() =~= ids.subrange(0, i));
}

/// Once a prefix fails, every longer prefix fails with the same error.
proof fn lemma_imports_for_err(
    ids: Seq<Seq<char>>,
    k: int,
    global: GlobalCollect,
    origin: Seq<char>,
    file_stem: Seq<char>,
)
    requires
        0 < k <= ids.len(),
        imports_for(ids.subrange(0, k), global, origin, file_stem) is Err,
    ensures
        imports_for(ids, global, origin, file_stem) == imports_for(ids.subrange(0, k), global, origin, file_stem),
    decreases ids.len() - k,
{
    if k == ids.len() {
        assert(ids.subrange(0, k) =~= ids);
    } else {
        lemma_imports_for_prefix(ids, k);
        lemma_imports_for_err(ids, k + 1, global, origin, file_stem);
    }
}

/// A hook that captures no imported or exported identifier gets a module
/// that holds its export alone.
pub proof fn lemma_no_captures_no_imports(ids: Seq<Seq<char>>, global: GlobalCollect, origin: Seq<char>, file_stem: Seq<char>)
    requires
        forall|i: int| 0 <= i < ids.len() ==> !global.is_global(#[trigger] ids[i]),
    ensures
        imports_for(ids, global, origin, file_stem) == Ok::<Seq<ImportView>, PathError>(Seq::empty()),
    decreases ids.len(),
{
    if ids.len() > 0 {
        lemma_no_captures_no_imports(ids.drop_last(), global, origin, file_stem);
        assert(!global.is_global(ids[ids.len() - 1]));
    }
}

} // verus!
