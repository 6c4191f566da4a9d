use vstd::prelude::*;

use crate::error::{BeamError, TableKind};
use crate::tables::{texts, RawExport, RawImport};

verus! {

/// The atom that a 1-based index names, if there is one.
pub open spec fn atom_at(atoms: Seq<Seq<char>>, index: u32) -> Option<Seq<char>> {
    if 1 <= index <= atoms.len() {
        Some(atoms[index - 1])
    } else {
        None
    }
}

/// An exported function with its name resolved.
pub struct ExportView {
    pub function_name: Seq<char>,
    pub arity: u32,
    pub label: u32,
}

/// An imported function with its module and function names resolved.
pub struct ImportView {
    pub module_name: Seq<char>,
    pub function_name: Seq<char>,
    pub arity: u32,
}

/// Export entries resolved in order; the first entry whose index names no
/// atom gives the error.
pub open spec fn resolve_exports_spec(atoms: Seq<Seq<char>>, raw: Seq<RawExport>) -> Result<
    Seq<ExportView>,
    BeamError,
>
    decreases raw.len(),
{
    if raw.len() == 0 {
        Ok(seq![])
    } else {
        match resolve_exports_spec(atoms, raw.drop_last()) {
            Err(e) => Err(e),
            Ok(done) => {
                let x = raw.last();
                match atom_at(atoms, x.name_index) {
                    None => Err(
                        BeamError::UnresolvedReference { index: x.name_index, table: TableKind::Exports },
                    ),
                    Some(name) => Ok(
                        done.push(ExportView { function_name: name, arity: x.arity, label: x.label }),
                    ),
                }
            },
        }
    }
}

/// Import entries resolved in order, the module index of an entry before
/// its function index; the first index that names no atom gives the error.
pub open spec fn resolve_imports_spec(atoms: Seq<Seq<char>>, raw: Seq<RawImport>) -> Result<
    Seq<ImportView>,
    BeamError,
>
    decreases raw.len(),
{
    if raw.len() == 0 {
        Ok(seq![])
    } else {
        match resolve_imports_spec(atoms, raw.drop_last()) {
            Err(e) => Err(e),
            Ok(done) => {
                let x = raw.last();
                match atom_at(atoms, x.module_index) {
                    None => Err(
                        BeamError::UnresolvedReference { index: x.module_index, table: TableKind::Imports },
                    ),
                    Some(module_name) => match atom_at(atoms, x.function_index) {
                        None => Err(
                            BeamError::UnresolvedReference {
                                index: x.function_index,
                                table: TableKind::Imports,
                            },
                        ),
                        Some(function_name) => Ok(
                            done.push(ImportView { module_name, function_name, arity: x.arity }),
                        ),
                    },
                }
            },
        }
    }
}

/// An exported function.
#[derive(Debug, Clone, PartialEq, Eq)]
pub struct Export {
    pub function_name: String,
    pub arity: u32,
    pub label: u32,
}

impl View for Export {
    type V = ExportView;

    open spec fn view(&self) -> ExportView {
        ExportView { function_name: self.function_name@, arity: self.arity, label: self.label }
    }
}

/// An imported function.
#[derive(Debug, Clone, PartialEq, Eq)]
pub struct Import {
    pub module_name: String,
    pub function_name: String,
    pub arity: u32,
}

impl View for Import {
    type V = ImportView;

    open spec fn view(&self) -> ImportView {
        ImportView {
            module_name: self.module_name@,
            function_name: self.function_name@,
            arity: self.arity,
        }
    }
}

/// The views of a sequence of exports.
pub open spec fn export_views(v: Seq<Export>) -> Seq<ExportView> {
    v.map_values(|x: Export| x@)
}

/// The views of a sequence of imports.
pub open spec fn import_views(v: Seq<Import>) -> Seq<ImportView> {
    v.map_values(|x: Import| x@)
}

/// Looks up a 1-based atom index: index 1 is the first atom; index 0 and
/// indices past the end are unresolved references of `table`.
pub fn resolve_atom(atoms: &Vec<String>, index: u32, table: TableKind) -> (r: Result<String, BeamError>)
    ensures
        match r {
            Ok(s) => atom_at(texts(atoms@), index) == Some(s@),
            Err(e) => atom_at(texts(atoms@), index) is None && e == (BeamError::UnresolvedReference {
                index,
                table,
            }),
        },
{
    if index == 0 || index as usize > atoms.len() {
        Err(BeamError::UnresolvedReference { index, table })
    } else {
        Ok(atoms[index as usize - 1].clone())
    }
}

proof fn lemma_exports_err(atoms: Seq<Seq<char>>, raw: Seq<RawExport>, k: int, m: int)
    requires
        0 <= k <= m <= raw.len(),
        resolve_exports_spec(atoms, raw.take(k)) is Err,
    ensures
        resolve_exports_spec(atoms, raw.take(m)) == resolve_exports_spec(atoms, raw.take(k)),
    decreases m - k,
{
    if k < m {
        lemma_exports_err(atoms, raw, k, m - 1);
        assert(raw.take(m).drop_last() =~= raw.take(m - 1));
    }
}

proof fn lemma_imports_err(atoms: Seq<Seq<char>>, raw: Seq<RawImport>, k: int, m: int)
    requires
        0 <= k <= m <= raw.len(),
        resolve_imports_spec(atoms, raw.take(k)) is Err,
    ensures
        resolve_imports_spec(atoms, raw.take(m)) == resolve_imports_spec(atoms, raw.take(k)),
    decreases m - k,
{
    if k < m {
        lemma_imports_err(atoms, raw, k, m - 1);
        assert(raw.take(m).drop_last() =~= raw.take(m - 1));
    }
}

/// Binds the atom indices of export entries to the atoms they name.
pub fn resolve_exports(atoms: &Vec<String>, raw: &Vec<RawExport>) -> (r: Result<Vec<Export>, BeamError>)
    ensures
        match r {
            Ok(v) => resolve_exports_spec(texts(atoms@), raw@) == Ok::<Seq<ExportView>, BeamError>(
                export_views(v@),
            ),
            Err(e) => resolve_exports_spec(texts(atoms@), raw@) == Err::<Seq<ExportView>, BeamError>(
                e,
            ),
        },
{
    let ghost names = texts(atoms@);
    let mut out: Vec<Export> = Vec::new();
    let mut i: usize = 0;
    assert(raw@.take(0) =~= seq![]);
    assert(export_views(out@) =~= seq![]);
    while i < raw.len()
        invariant
            names == texts(atoms@),
            i <= raw@.len(),
            resolve_exports_spec(names, raw@.take(i as int)) == Ok::<Seq<ExportView>, BeamError>(
                export_views(out@),
            ),
        decreases raw@.len() - i,
    {
        let x = raw[i];
        let ghost before = export_views(out@);
        assert(raw@.take(i + 1).drop_last() =~= raw@.take(i as int));
        match resolve_atom(atoms, x.name_index, TableKind::Exports) {
            Err(e) => {
                proof {
                    lemma_exports_err(names, raw@, i + 1, raw@.len() as int);
                    assert(raw@.take(raw@.len() as int) =~= raw@);
                }
                return Err(e);
            },
            Ok(function_name) => {
                out.push(Export { function_name, arity: x.arity, label: x.label });
                assert(export_views(out@) =~= before.push(out@.last()@));
            },
        }
        i = i + 1;
    }
    assert(raw@.take(i as int) =~= raw@);
    Ok(out)
}

/// Binds the atom indices of import entries to the atoms they name.
pub fn resolve_imports(atoms: &Vec<String>, raw: &Vec<RawImport>) -> (r: Result<Vec<Import>, BeamError>)
    ensures
        match r {
            Ok(v) => resolve_imports_spec(texts(atoms@), raw@) == Ok::<Seq<ImportView>, BeamError>(
                import_views(v@),
            ),
            Err(e) => resolve_imports_spec(texts(atoms@), raw@) == Err::<Seq<ImportView>, BeamError>(
                e,
            ),
        },
{
    let ghost names = texts(atoms@);
    let mut out: Vec<Import> = Vec::new();
    let mut i: usize = 0;
    assert(raw@.take(0) =~= seq![]);
    assert(import_views(out@) =~= seq![]);
    while i < raw.len()
        invariant
            names == texts(atoms@),
            i <= raw@.len(),
            resolve_imports_spec(names, raw@.take(i as int)) == Ok::<Seq<ImportView>, BeamError>(
                import_views(out@),
            ),
        decreases raw@.len() - i,
    {
        let x = raw[i];
        let ghost before = import_views(out@);
        assert(raw@.take(i + 1).drop_last() =~= raw@.take(i as int));
        let module_name = match resolve_atom(atoms, x.module_index, TableKind::Imports) {
            Err(e) => {
                proof {
                    lemma_imports_err(names, raw@, i + 1, raw@.len() as int);
                    assert(raw@.take(raw@.len() as int) =~= raw@);
                }
                return Err(e);
            },
            Ok(s) => s,
        };
        let function_name = match resolve_atom(atoms, x.function_index, TableKind::Imports) {
            Err(e) => {
                proof {
                    lemma_imports_err(names, raw@, i + 1, raw@.len() as int);
                    assert(raw@.take(raw@.len() as int) =~= raw@);
                }
                return Err(e);
            },
            Ok(s) => s,
        };
        out.push(Import { module_name, function_name, arity: x.arity });
        assert(import_views(out@) =~= before.push(out@.last()@));
        i = i + 1;
    }
    assert(raw@.take(i as int) =~= raw@);
    Ok(out)
}

} // verus!
