use vstd::prelude::*;
use vstd::slice::slice_to_vec;

use crate::container::{chunk_views, container_spec, read_chunks, tag_at, Chunk, RawChunk};
use crate::error::BeamError;
use crate::resolve::{
    export_views, import_views, resolve_exports, resolve_exports_spec, resolve_imports,
    resolve_imports_spec, Export, ExportView, Import, ImportView,
};
use crate::tables::{
    atoms_spec, code_spec, empty_code, exports_spec, imports_spec, parse_atom_table,
    parse_code_section, parse_export_table, parse_import_table, texts, Code, CodeView, RawExport,
    RawImport,
};

verus! {

/// A decoded module: the envelope's chunk budget, the atom table, the
/// resolved export and import tables, the code section and the string
/// literal bytes.
pub struct ModuleView {
    pub size: u32,
    pub atoms: Seq<Seq<char>>,
    pub exports: Seq<ExportView>,
    pub imports: Seq<ImportView>,
    pub code: CodeView,
    pub string_literals: Seq<u8>,
}

/// The module before any chunk has been decoded.
pub open spec fn empty_module(size: u32) -> ModuleView {
    ModuleView {
        size,
        atoms: seq![],
        exports: seq![],
        imports: seq![],
        code: empty_code(),
        string_literals: seq![],
    }
}

/// Tags of the chunks that the decoder reads; every other chunk is skipped.
pub open spec fn is_atu8(name: Seq<u8>) -> bool {
    tag_at(name, 0, 0x41, 0x74, 0x55, 0x38)
}

pub open spec fn is_atom(name: Seq<u8>) -> bool {
    tag_at(name, 0, 0x41, 0x74, 0x6f, 0x6d)
}

pub open spec fn is_expt(name: Seq<u8>) -> bool {
    tag_at(name, 0, 0x45, 0x78, 0x70, 0x54)
}

pub open spec fn is_impt(name: Seq<u8>) -> bool {
    tag_at(name, 0, 0x49, 0x6d, 0x70, 0x54)
}

pub open spec fn is_code(name: Seq<u8>) -> bool {
    tag_at(name, 0, 0x43, 0x6f, 0x64, 0x65)
}

pub open spec fn is_strt(name: Seq<u8>) -> bool {
    tag_at(name, 0, 0x53, 0x74, 0x72, 0x54)
}

/// Whether a chunk tag names a chunk that the decoder reads.
pub open spec fn known_tag(name: Seq<u8>) -> bool {
    is_atu8(name) || is_atom(name) || is_expt(name) || is_impt(name) || is_code(name)
        || is_strt(name)
}

/// `m` with the atoms of an atom table payload appended.
pub open spec fn with_atoms(m: ModuleView, data: Seq<u8>) -> Result<ModuleView, BeamError> {
    match atoms_spec(data) {
        Err(e) => Err(e),
        Ok(a) => Ok(ModuleView { atoms: m.atoms + a, ..m }),
    }
}

/// `m` with its code section replaced by that of a code chunk payload.
pub open spec fn with_code(m: ModuleView, data: Seq<u8>) -> Result<ModuleView, BeamError> {
    match code_spec(data) {
        Err(e) => Err(e),
        Ok(c) => Ok(ModuleView { code: c, ..m }),
    }
}

/// `m` with its string literals replaced by a non-empty payload.
pub open spec fn with_strings(m: ModuleView, data: Seq<u8>) -> ModuleView {
    if data.len() == 0 {
        m
    } else {
        ModuleView { string_literals: data, ..m }
    }
}

/// The module so far, with the export and import entries whose atom
/// indices are bound once every chunk has been read.
pub struct DecodeState {
    pub module: ModuleView,
    pub raw_exports: Seq<RawExport>,
    pub raw_imports: Seq<RawImport>,
}

/// The effect of one chunk, chosen by its tag.
pub open spec fn apply_chunk(st: DecodeState, c: RawChunk) -> Result<DecodeState, BeamError> {
    if is_atu8(c.name) || is_atom(c.name) {
        match with_atoms(st.module, c.data) {
            Err(e) => Err(e),
            Ok(m) => Ok(DecodeState { module: m, ..st }),
        }
    } else if is_expt(c.name) {
        match exports_spec(c.data) {
            Err(e) => Err(e),
            Ok(x) => Ok(DecodeState { raw_exports: st.raw_exports + x, ..st }),
        }
    } else if is_impt(c.name) {
        match imports_spec(c.data) {
            Err(e) => Err(e),
            Ok(x) => Ok(DecodeState { raw_imports: st.raw_imports + x, ..st }),
        }
    } else if is_code(c.name) {
        match with_code(st.module, c.data) {
            Err(e) => Err(e),
            Ok(m) => Ok(DecodeState { module: m, ..st }),
        }
    } else if is_strt(c.name) {
        Ok(DecodeState { module: with_strings(st.module, c.data), ..st })
    } else {
        Ok(st)
    }
}

/// The chunks applied in file order; the first failure stops the decode.
pub open spec fn apply_chunks(st: DecodeState, cs: Seq<RawChunk>) -> Result<DecodeState, BeamError>
    decreases cs.len(),
{
    if cs.len() == 0 {
        Ok(st)
    } else {
        match apply_chunks(st, cs.drop_last()) {
            Err(e) => Err(e),
            Ok(s) => apply_chunk(s, cs.last()),
        }
    }
}

/// Decoding `cs` into `m`: apply every chunk, then resolve the export and
/// import entries against the complete atom table.
pub open spec fn decode_chunks(m: ModuleView, cs: Seq<RawChunk>) -> Result<ModuleView, BeamError> {
    match apply_chunks(DecodeState { module: m, raw_exports: seq![], raw_imports: seq![] }, cs) {
        Err(e) => Err(e),
        Ok(st) => match resolve_exports_spec(st.module.atoms, st.raw_exports) {
            Err(e) => Err(e),
            Ok(ex) => match resolve_imports_spec(st.module.atoms, st.raw_imports) {
                Err(e) => Err(e),
                Ok(im) => Ok(
                    ModuleView {
                        exports: st.module.exports + ex,
                        imports: st.module.imports + im,
                        ..st.module
                    },
                ),
            },
        },
    }
}

/// Decoding a whole BEAM file.
pub open spec fn decode_file(input: Seq<u8>) -> Result<ModuleView, BeamError> {
    match container_spec(input) {
        Err(e) => Err(e),
        Ok((budget, cs)) => decode_chunks(empty_module(budget), cs),
    }
}

proof fn lemma_apply_chunks_err(st: DecodeState, cs: Seq<RawChunk>, k: int, m: int)
    requires
        0 <= k <= m <= cs.len(),
        apply_chunks(st, cs.take(k)) is Err,
    ensures
        apply_chunks(st, cs.take(m)) == apply_chunks(st, cs.take(k)),
    decreases m - k,
{
    if k < m {
        lemma_apply_chunks_err(st, cs, k, m - 1);
        assert(cs.take(m).drop_last() =~= cs.take(m - 1));
    }
}

/// A decoded BEAM module.
#[derive(Debug)]
pub struct BeamData {
    pub size: u32,
    pub atoms: Vec<String>,
    pub exports: Vec<Export>,
    pub imports: Vec<Import>,
    pub code: Code,
    pub string_literals: Vec<u8>,
}

impl View for BeamData {
    type V = ModuleView;

    open spec fn view(&self) -> ModuleView {
        ModuleView {
            size: self.size,
            atoms: texts(self.atoms@),
            exports: export_views(self.exports@),
            imports: import_views(self.imports@),
            code: self.code@,
            string_literals: self.string_literals@,
        }
    }
}

impl BeamData {
    /// An empty module whose envelope left `size` bytes for chunks.
    pub fn new(size: u32) -> (r: BeamData)
        ensures
            r@ == empty_module(size),
    {
        let r = BeamData {
            size,
            atoms: Vec::new(),
            exports: Vec::new(),
            imports: Vec::new(),
            code: Code::empty(),
            string_literals: Vec::new(),
        };
        assert(r@.atoms =~= seq![]);
        assert(r@.exports =~= seq![]);
        assert(r@.imports =~= seq![]);
        r
    }

    /// Decodes a whole BEAM file held in memory.
    pub fn from_file(input: &[u8]) -> (r: Result<BeamData, BeamError>)
        ensures
            match r {
                Ok(d) => decode_file(input@) == Ok::<ModuleView, BeamError>(d@),
                Err(e) => decode_file(input@) == Err::<ModuleView, BeamError>(e),
            },
    {
        let (size_to_read, chunks) = match read_chunks(input) {
            Ok(x) => x,
            Err(e) => return Err(e),
        };
        let mut data = BeamData::new(size_to_read);
        match data.parse_chunks(chunks) {
            Ok(()) => Ok(data),
            Err(e) => Err(e),
        }
    }

    /// Decodes `chunks` in order into this module, then binds the export
    /// and import entries to the complete atom table.
    pub fn parse_chunks(&mut self, chunks: Vec<Chunk>) -> (r: Result<(), BeamError>)
        requires
            forall|i: int| 0 <= i < chunks@.len() ==> (#[trigger] chunks@[i]).wf(),
        ensures
            match r {
                Ok(()) => decode_chunks(old(self)@, chunk_views(chunks@)) == Ok::<
                    ModuleView,
                    BeamError,
                >(final(self)@),
                Err(e) => decode_chunks(old(self)@, chunk_views(chunks@)) == Err::<
                    ModuleView,
                    BeamError,
                >(e),
            },
    {
        let ghost cs = chunk_views(chunks@);
        let ghost start = DecodeState { module: self@, raw_exports: seq![], raw_imports: seq![] };
        let mut raw_exports: Vec<RawExport> = Vec::new();
        let mut raw_imports: Vec<RawImport> = Vec::new();
        let mut i: usize = 0;
        assert(cs.take(0) =~= seq![]);
        while i < chunks.len()
            invariant
                cs == chunk_views(chunks@),
                i <= chunks@.len(),
                forall|j: int| 0 <= j < chunks@.len() ==> (#[trigger] chunks@[j]).wf(),
                start == (DecodeState {
                    module: old(self)@,
                    raw_exports: Seq::<RawExport>::empty(),
                    raw_imports: Seq::<RawImport>::empty(),
                }),
                apply_chunks(start, cs.take(i as int)) == Ok::<DecodeState, BeamError>(
                    DecodeState { module: self@, raw_exports: raw_exports@, raw_imports: raw_imports@ },
                ),
            decreases chunks@.len() - i,
        {
            let chunk = &chunks[i];
            let ghost before = DecodeState {
                module: self@,
                raw_exports: raw_exports@,
                raw_imports: raw_imports@,
            };
            assert(cs.take(i + 1).drop_last() =~= cs.take(i as int));
            assert(cs.take(i + 1).last() == chunk@);
            let n = &chunk.name;
            let res: Result<(), BeamError> = if (n[0] == 0x41 && n[1] == 0x74 && n[2] == 0x55 && n[3]
                == 0x38) || (n[0] == 0x41 && n[1] == 0x74 && n[2] == 0x6f && n[3] == 0x6d) {
                self.parse_atoms(chunk)
            } else if n[0] == 0x45 && n[1] == 0x78 && n[2] == 0x70 && n[3] == 0x54 {
                match parse_export_table(chunk.data.as_slice()) {
                    Err(e) => Err(e),
                    Ok(mut x) => {
                        raw_exports.append(&mut x);
                        Ok(())
                    },
                }
            } else if n[0] == 0x49 && n[1] == 0x6d && n[2] == 0x70 && n[3] == 0x54 {
                match parse_import_table(chunk.data.as_slice()) {
                    Err(e) => Err(e),
                    Ok(mut x) => {
                        raw_imports.append(&mut x);
                        Ok(())
                    },
                }
            } else if n[0] == 0x43 && n[1] == 0x6f && n[2] == 0x64 && n[3] == 0x65 {
                self.parse_code(chunk)
            } else if n[0] == 0x53 && n[1] == 0x74 && n[2] == 0x72 && n[3] == 0x54 {
                self.parse_string_literals(chunk);
                Ok(())
            } else {
                Ok(())
            };
            match res {
                Err(e) => {
                    proof {
                        lemma_apply_chunks_err(start, cs, i + 1, cs.len() as int);
                        assert(cs.take(cs.len() as int) =~= cs);
                    }
                    return Err(e);
                },
                Ok(()) => {},
            }
            i = i + 1;
        }
        assert(cs.take(i as int) =~= cs);
        let ghost st = DecodeState {
            module: self@,
            raw_exports: raw_exports@,
            raw_imports: raw_imports@,
        };
        let mut exports = match resolve_exports(&self.atoms, &raw_exports) {
            Err(e) => return Err(e),
            Ok(v) => v,
        };
        let mut imports = match resolve_imports(&self.atoms, &raw_imports) {
            Err(e) => return Err(e),
            Ok(v) => v,
        };
        let ghost ex = exports@;
        let ghost im = imports@;
        self.exports.append(&mut exports);
        self.imports.append(&mut imports);
        assert(export_views(self.exports@) =~= st.module.exports + export_views(ex));
        assert(import_views(self.imports@) =~= st.module.imports + import_views(im));
        Ok(())
    }

    /// Appends the atoms of an atom table chunk; on failure the module is
    /// left as it was.
    pub fn parse_atoms(&mut self, chunk: &Chunk) -> (r: Result<(), BeamError>)
        ensures
            match r {
                Ok(()) => with_atoms(old(self)@, chunk.data@) == Ok::<ModuleView, BeamError>(
                    final(self)@,
                ),
                Err(e) => with_atoms(old(self)@, chunk.data@) == Err::<ModuleView, BeamError>(e)
                    && final(self)@ == old(self)@,
            },
    {
        match parse_atom_table(chunk.data.as_slice()) {
            Err(e) => Err(e),
            Ok(mut atoms) => {
                let ghost a = atoms@;
                let ghost before = self.atoms@;
                self.atoms.append(&mut atoms);
                assert(texts(self.atoms@) =~= texts(before) + texts(a));
                Ok(())
            },
        }
    }

    /// Replaces the code section by that of a code chunk; on failure the
    /// module is left as it was.
    pub fn parse_code(&mut self, chunk: &Chunk) -> (r: Result<(), BeamError>)
        ensures
            match r {
                Ok(()) => with_code(old(self)@, chunk.data@) == Ok::<ModuleView, BeamError>(
                    final(self)@,
                ),
                Err(e) => with_code(old(self)@, chunk.data@) == Err::<ModuleView, BeamError>(e)
                    && final(self)@ == old(self)@,
            },
    {
        match parse_code_section(chunk.data.as_slice()) {
            Err(e) => Err(e),
            Ok(code) => {
                self.code = code;
                Ok(())
            },
        }
    }

    /// Takes the bytes of a string literal chunk verbatim, unless it is
    /// empty.
    pub fn parse_string_literals(&mut self, chunk: &Chunk)
        requires
            chunk.wf(),
        ensures
            final(self)@ == with_strings(old(self)@, chunk.data@),
    {
        if chunk.size > 0 {
            self.string_literals = slice_to_vec(chunk.data.as_slice());
        }
    }
}

} // verus!
