//! Module-scope import and export tables, and the identifiers that a hook
//! body declares and captures.
use crate::text::{contains_str, find_str, index_in, strs};
use vstd::prelude::*;

verus! {

/// The form of an import specifier.
#[derive(Debug, Clone, Copy, PartialEq, Eq, Structural)]
pub enum ImportKind {
    /// `import {a} from "m"` or `import {b as a} from "m"`.
    Named,
    /// `import * as a from "m"`.
    All,
    /// `import a from "m"`.
    Default,
}

/// Where a module-scope identifier was imported from.
#[derive(Debug, Clone)]
pub struct Import {
    /// The module specifier, as written.
    pub source: String,
    /// The imported name; the local name itself where it was not renamed.
    pub specifier: String,
    pub kind: ImportKind,
}

/// A local identifier and what it stands for.
#[derive(Debug, Clone)]
pub struct Binding<T> {
    pub local: String,
    pub value: T,
}

pub open spec fn binding_keys<T>(v: Seq<Binding<T>>) -> Seq<Seq<char>> {
    v.map_values(|b: Binding<T>| b.local@)
}

/// The module's import table and export table, each keyed by the local
/// identifier.
pub struct GlobalCollect {
    pub imports: Vec<Binding<Import>>,
    pub exports: Vec<Binding<String>>,
}

impl GlobalCollect {
    /// What the import table holds for `id`.
    pub open spec fn import_of(&self, id: Seq<char>) -> Option<Import> {
        let k = index_in(binding_keys(self.imports@), id);
        if k < 0 {
            None
        } else {
            Some(self.imports@[k].value)
        }
    }

    /// The exported name that the export table holds for `id`.
    pub open spec fn export_of(&self, id: Seq<char>) -> Option<Seq<char>> {
        let k = index_in(binding_keys(self.exports@), id);
        if k < 0 {
            None
        } else {
            Some(self.exports@[k].value@)
        }
    }

    /// Whether `id` is imported or exported at module scope.
    pub open spec fn is_global(&self, id: Seq<char>) -> bool {
        self.import_of(id) is Some || self.export_of(id) is Some
    }

    /// Empty tables.
    pub fn new() -> (r: Self)
        ensures
            forall|id: Seq<char>| r.import_of(id) is None && r.export_of(id) is None,
    {
        GlobalCollect { imports: Vec::new(), exports: Vec::new() }
    }

    /// Records `local` as imported; a later record for the same identifier
    /// replaces an earlier one.
    pub fn add_import(&mut self, local: String, import: Import)
        ensures
            final(self).import_of(local@) == Some(import),
            forall|id: Seq<char>| id != local@ ==> final(self).import_of(id) == old(self).import_of(id),
            forall|id: Seq<char>| final(self).export_of(id) == old(self).export_of(id),
    {
        proof {
            crate::text::lemma_index_in_contains(binding_keys(self.imports@), local@);
        }
        let found = find_binding(&self.imports, local.as_str());
        let ghost l = local@;
        match found {
            Some(i) => {
                self.imports.set(i, Binding { local, value: import });
                proof {
                    assert(binding_keys(self.imports@) =~= binding_keys(old(self).imports@));
                    assert forall|id: Seq<char>| id != l implies #[trigger] self.import_of(id) == old(self).import_of(id) by {
                        crate::text::lemma_index_in_contains(binding_keys(self.imports@), id);
                        let k = index_in(binding_keys(self.imports@), id);
                        if k >= 0 {
                            assert(k != i);
                            assert(self.imports@[k] == old(self).imports@[k]);
                        }
                    };
                }
            },
            None => {
                self.imports.push(Binding { local, value: import });
                proof {
                    lemma_index_in_push(binding_keys(old(self).imports@), l);
                    assert(binding_keys(self.imports@) =~= binding_keys(old(self).imports@).push(l));
                    assert forall|id: Seq<char>| id != l implies #[trigger] self.import_of(id) == old(self).import_of(id) by {
                        crate::text::lemma_index_in_contains(binding_keys(old(self).imports@), id);
                    };
                }
            },
        }
    }

    /// Records `local` as exported under `exported`; a later record for the
    /// same identifier replaces an earlier one.
    pub fn add_export(&mut self, local: String, exported: String)
        ensures
            final(self).export_of(local@) == Some(exported@),
            forall|id: Seq<char>| id != local@ ==> final(self).export_of(id) == old(self).export_of(id),
            forall|id: Seq<char>| final(self).import_of(id) == old(self).import_of(id),
    {
        proof {
            crate::text::lemma_index_in_contains(binding_keys(self.exports@), local@);
        }
        let found = find_binding(&self.exports, local.as_str());
        let ghost l = local@;
        match found {
            Some(i) => {
                self.exports.set(i, Binding { local, value: exported });
                proof {
                    assert(binding_keys(self.exports@) =~= binding_keys(old(self).exports@));
                    assert forall|id: Seq<char>| id != l implies #[trigger] self.export_of(id) == old(self).export_of(id) by {
                        crate::text::lemma_index_in_contains(binding_keys(self.exports@), id);
                        let k = index_in(binding_keys(self.exports@), id);
                        if k >= 0 {
                            assert(k != i);
                            assert(self.exports@[k] == old(self).exports@[k]);
                        }
                    };
                }
            },
            None => {
                self.exports.push(Binding { local, value: exported });
                proof {
                    lemma_index_in_push(binding_keys(old(self).exports@), l);
                    assert(binding_keys(self.exports@) =~= binding_keys(old(self).exports@).push(l));
                    assert forall|id: Seq<char>| id != l implies #[trigger] self.export_of(id) == old(self).export_of(id) by {
                        crate::text::lemma_index_in_contains(binding_keys(old(self).exports@), id);
                    };
                }
            },
        }
    }

    /// The import record of `id`, if it is imported.
    pub fn get_import(&self, id: &str) -> (r: Option<&Import>)
        ensures
            match r {
                None => self.import_of(id@) is None,
                Some(i) => self.import_of(id@) == Some(*i),
            },
    {
        match find_binding(&self.imports, id) {
            None => None,
            Some(i) => Some(&self.imports[i].value),
        }
    }

    /// The exported name of `id`, if it is exported.
    pub fn get_export(&self, id: &str) -> (r: Option<&String>)
        ensures
            match r {
                None => self.export_of(id@) is None,
                Some(e) => self.export_of(id@) == Some(e@),
            },
    {
        match find_binding(&self.exports, id) {
            None => None,
            Some(i) => Some(&self.exports[i].value),
        }
    }
}

proof fn lemma_index_in_push(v: Seq<Seq<char>>, x: Seq<char>)
    requires
        index_in(v, x) == -1,
    ensures
        index_in(v.push(x), x) == v.len(),
        forall|y: Seq<char>| y != x ==> #[trigger] index_in(v.push(x), y) == index_in(v, y),
{
    crate::text::lemma_index_in_contains(v, x);
    crate::text::lemma_index_in(v.push(x), x, v.len() as int);
    assert forall|y: Seq<char>| y != x implies index_in(v.push(x), y) == index_in(v, y) by {
        crate::text::lemma_index_in_contains(v, y);
        let k = index_in(v, y);
        if k >= 0 {
            crate::text::lemma_index_in_first(v, y);
            crate::text::lemma_index_in(v.push(x), y, k);
        } else {
            crate::text::lemma_index_in(v.push(x), y, -1);
        }
    };
}

fn find_binding<T>(v: &Vec<Binding<T>>, x: &str) -> (r: Option<usize>)
    ensures
        match r {
            None => index_in(binding_keys(v@), x@) == -1,
            Some(i) => index_in(binding_keys(v@), x@) == i as int && i < v@.len(),
        },
{
    let mut i: usize = 0;
    while i < v.len()
        invariant
            i <= v@.len(),
            forall|j: int| 0 <= j < i ==> binding_keys(v@)[j] != x@,
        decreases v@.len() - i,
    {
        if crate::text::str_eq(v[i].local.as_str(), x) {
            proof {
                crate::text::lemma_index_in(binding_keys(v@), x@, i as int);
            }
            return Some(i);
        }
        i += 1;
    }
    proof {
        crate::text::lemma_index_in(binding_keys(v@), x@, -1);
    }
    None
}

/// What a hook body declares and which module-scope identifiers it captures.
pub struct HookCollect {
    /// Identifiers declared inside the body, each once.
    pub local_decl: Vec<String>,
    /// Identifiers the body refers to that it does not declare and that the
    /// module imports or exports, each once.
    pub local_idents: Vec<String>,
}

impl HookCollect {
    /// Builds the two sets from the identifiers that the body declares and
    /// those it refers to, in the order they occur.
    pub fn new(declared: &Vec<String>, referenced: &Vec<String>, global: &GlobalCollect) -> (r: Self)
        ensures
            strs(r.local_decl@).no_duplicates(),
            strs(r.local_decl@).to_set() == strs(declared@).to_set(),
            strs(r.local_idents@).no_duplicates(),
            forall|id: Seq<char>| #[trigger]
                strs(r.local_idents@).contains(id) <==> (strs(referenced@).contains(id)
                    && !strs(declared@).contains(id) && global.is_global(id)),
    {
        let mut local_decl: Vec<String> = Vec::new();
        let mut i: usize = 0;
        while i < declared.len()
            invariant
                i <= declared@.len(),
                strs(local_decl@).no_duplicates(),
                forall|id: Seq<char>| #[trigger]
                    strs(local_decl@).contains(id) <==> strs(declared@.subrange(0, i as int)).contains(id),
            decreases declared@.len() - i,
        {
            let ghost before = local_decl@;
            if !contains_str(&local_decl, declared[i].as_str()) {
                local_decl.push(declared[i].clone());
                proof {
                    assert(strs(local_decl@) =~= strs(before).push(declared@[i as int]@));
                    crate::text::lemma_push_fresh(strs(before), declared@[i as int]@);
                    crate::text::lemma_push_contains(strs(before), declared@[i as int]@);
                }
            }
            proof {
                assert(strs(declared@.subrange(0, i + 1)) =~= strs(declared@.subrange(0, i as int)).push(
                    declared@[i as int]@,
                ));
                crate::text::lemma_push_contains(strs(declared@.subrange(0, i as int)), declared@[i as int]@);
            }
            i += 1;
        }
        proof {
            assert(declared@.subrange(0, declared@.len() as int) =~= declared@);
            assert(strs(local_decl@).to_set() =~= strs(declared@).to_set());
        }
        let mut local_idents: Vec<String> = Vec::new();
        let mut j: usize = 0;
        while j < referenced.len()
            invariant
                j <= referenced@.len(),
                strs(local_idents@).no_duplicates(),
                forall|id: Seq<char>| #[trigger]
                    strs(local_idents@).contains(id) <==> (strs(referenced@.subrange(0, j as int)).contains(id)
                        && !strs(declared@).contains(id) && global.is_global(id)),
            decreases referenced@.len() - j,
        {
            let id = referenced[j].as_str();
            let ghost before = local_idents@;
            if !contains_str(&local_idents, id) && !contains_str(declared, id) && (global.get_import(id).is_some()
                || global.get_export(id).is_some()) {
                local_idents.push(referenced[j].clone());
                proof {
                    assert(strs(local_idents@) =~= strs(before).push(id@));
                    crate::text::lemma_push_fresh(strs(before), id@);
                    crate::text::lemma_push_contains(strs(before), id@);
                }
            }
            proof {
                assert(strs(referenced@.subrange(0, j + 1)) =~= strs(referenced@.subrange(0, j as int)).push(id@));
                crate::text::lemma_push_contains(strs(referenced@.subrange(0, j as int)), id@);
            }
            j += 1;
        }
        proof {
            assert(referenced@.subrange(0, referenced@.len() as int) =~= referenced@);
        }
        HookCollect { local_decl, local_idents }
    }
}

/// Every captured identifier occurs among the body's references and is not
/// one that the body declares.
pub proof fn lemma_captured_are_free(c: HookCollect, declared: Seq<Seq<char>>, referenced: Seq<Seq<char>>, global: GlobalCollect)
    requires
        strs(c.local_decl@).to_set() == declared.to_set(),
        forall|id: Seq<char>| #[trigger]
            strs(c.local_idents@).contains(id) <==> (referenced.contains(id) && !declared.contains(id) && global.is_global(id)),
    ensures
        forall|id: Seq<char>| #[trigger] strs(c.local_idents@).contains(id) ==> referenced.contains(id) && !strs(c.local_decl@).contains(id),
{
    assert forall|id: Seq<char>| #[trigger] strs(c.local_idents@).contains(id) implies referenced.contains(id) && !strs(c.local_decl@).contains(id) by {
        assert(!declared.to_set().contains(id));
        assert(!strs(c.local_decl@).to_set().contains(id));
    };
}

} // verus!
