use vstd::prelude::*;
use vstd::slice::{slice_subrange, slice_to_vec};

use crate::bytes::{be_u32, decode_utf8, read_u32_at, utf8_text};
use crate::error::BeamError;

verus! {

/// The texts of a sequence of strings.
pub open spec fn texts(v: Seq<String>) -> Seq<Seq<char>> {
    v.map_values(|s: String| s@)
}

/// The first `k` entries of an atom table payload, each a length byte and
/// that many UTF-8 bytes, with the offset just past the last of them.
pub open spec fn atoms_scan(data: Seq<u8>, k: nat) -> Result<(Seq<Seq<char>>, int), BeamError>
    decreases k,
{
    if k == 0 {
        Ok((seq![], 4))
    } else {
        match atoms_scan(data, (k - 1) as nat) {
            Err(e) => Err(e),
            Ok((atoms, pos)) => {
                if pos >= data.len() {
                    Err(BeamError::TruncatedInput)
                } else if pos + 1 + data[pos] > data.len() {
                    Err(BeamError::TruncatedInput)
                } else {
                    match utf8_text(data.subrange(pos + 1, pos + 1 + data[pos])) {
                        None => Err(BeamError::InvalidEncoding),
                        Some(s) => Ok((atoms.push(s), pos + 1 + data[pos])),
                    }
                }
            },
        }
    }
}

/// An atom table payload: a big-endian count, then that many entries.
pub open spec fn atoms_spec(data: Seq<u8>) -> Result<Seq<Seq<char>>, BeamError> {
    if data.len() < 4 {
        Err(BeamError::TruncatedInput)
    } else {
        match atoms_scan(data, be_u32(data, 0) as nat) {
            Err(e) => Err(e),
            Ok((atoms, _)) => Ok(atoms),
        }
    }
}

/// Once an entry fails, every longer scan fails the same way.
proof fn lemma_atoms_scan_err(data: Seq<u8>, k: nat, m: nat)
    requires
        k <= m,
        atoms_scan(data, k) is Err,
    ensures
        atoms_scan(data, m) == atoms_scan(data, k),
    decreases m - k,
{
    if k < m {
        lemma_atoms_scan_err(data, k, (m - 1) as nat);
    }
}

/// Decodes an atom table payload into its atoms, in order.
pub fn parse_atom_table(data: &[u8]) -> (r: Result<Vec<String>, BeamError>)
    ensures
        match r {
            Ok(v) => atoms_spec(data@) == Ok::<Seq<Seq<char>>, BeamError>(texts(v@)),
            Err(e) => atoms_spec(data@) == Err::<Seq<Seq<char>>, BeamError>(e),
        },
{
    let len = data.len();
    if len < 4 {
        return Err(BeamError::TruncatedInput);
    }
    let count = read_u32_at(data, 0);
    let mut atoms: Vec<String> = Vec::new();
    let mut pos: usize = 4;
    let mut i: u32 = 0;
    assert(texts(atoms@) =~= seq![]);
    while i < count
        invariant
            len == data@.len(),
            len >= 4,
            count == be_u32(data@, 0),
            i <= count,
            pos <= len,
            atoms_scan(data@, i as nat) == Ok::<(Seq<Seq<char>>, int), BeamError>(
                (texts(atoms@), pos as int),
            ),
        decreases count - i,
    {
        let ghost before = texts(atoms@);
        if pos >= len {
            proof {
                lemma_atoms_scan_err(data@, (i + 1) as nat, count as nat);
            }
            return Err(BeamError::TruncatedInput);
        }
        let n = data[pos] as usize;
        if n > len - pos - 1 {
            proof {
                lemma_atoms_scan_err(data@, (i + 1) as nat, count as nat);
            }
            return Err(BeamError::TruncatedInput);
        }
        let bytes = slice_to_vec(slice_subrange(data, pos + 1, pos + 1 + n));
        match decode_utf8(bytes) {
            None => {
                proof {
                    lemma_atoms_scan_err(data@, (i + 1) as nat, count as nat);
                }
                return Err(BeamError::InvalidEncoding);
            },
            Some(s) => {
                atoms.push(s);
                assert(texts(atoms@) =~= before.push(s@));
            },
        }
        pos = pos + 1 + n;
        i = i + 1;
    }
    Ok(atoms)
}

/// An export entry as stored: a 1-based atom index for the function name,
/// the arity and the entry label.
#[derive(Debug, Clone, Copy, PartialEq, Eq, Structural)]
pub struct RawExport {
    pub name_index: u32,
    pub arity: u32,
    pub label: u32,
}

/// An import entry as stored: 1-based atom indices of the module and the
/// function, and the arity.
#[derive(Debug, Clone, Copy, PartialEq, Eq, Structural)]
pub struct RawImport {
    pub module_index: u32,
    pub function_index: u32,
    pub arity: u32,
}

/// Whether a payload holds a count and `entry_len` bytes for each entry.
pub open spec fn table_fits(data: Seq<u8>, entry_len: int) -> bool {
    data.len() >= 4 && 4 + entry_len * be_u32(data, 0) <= data.len()
}

/// The `i`-th entry of an export table payload.
pub open spec fn export_entry(data: Seq<u8>, i: int) -> RawExport {
    RawExport {
        name_index: be_u32(data, 4 + 12 * i),
        arity: be_u32(data, 8 + 12 * i),
        label: be_u32(data, 12 + 12 * i),
    }
}

/// An export table payload: a big-endian count, then twelve bytes per entry.
pub open spec fn exports_spec(data: Seq<u8>) -> Result<Seq<RawExport>, BeamError> {
    if !table_fits(data, 12) {
        Err(BeamError::TruncatedInput)
    } else {
        Ok(Seq::new(be_u32(data, 0) as nat, |i: int| export_entry(data, i)))
    }
}

/// The `i`-th entry of an import table payload.
pub open spec fn import_entry(data: Seq<u8>, i: int) -> RawImport {
    RawImport {
        module_index: be_u32(data, 4 + 12 * i),
        function_index: be_u32(data, 8 + 12 * i),
        arity: be_u32(data, 12 + 12 * i),
    }
}

/// An import table payload: a big-endian count, then twelve bytes per entry.
pub open spec fn imports_spec(data: Seq<u8>) -> Result<Seq<RawImport>, BeamError> {
    if !table_fits(data, 12) {
        Err(BeamError::TruncatedInput)
    } else {
        Ok(Seq::new(be_u32(data, 0) as nat, |i: int| import_entry(data, i)))
    }
}

/// Decodes an export table payload; atom indices are kept as stored.
pub fn parse_export_table(data: &[u8]) -> (r: Result<Vec<RawExport>, BeamError>)
    ensures
        match r {
            Ok(v) => exports_spec(data@) == Ok::<Seq<RawExport>, BeamError>(v@),
            Err(e) => exports_spec(data@) == Err::<Seq<RawExport>, BeamError>(e),
        },
{
    let len = data.len();
    if len < 4 {
        return Err(BeamError::TruncatedInput);
    }
    let count = read_u32_at(data, 0);
    let mut out: Vec<RawExport> = Vec::new();
    let mut pos: usize = 4;
    let mut i: u32 = 0;
    while i < count
        invariant
            len == data@.len(),
            len >= 4,
            count == be_u32(data@, 0),
            i <= count,
            pos == 4 + 12 * i,
            pos <= len,
            out@ =~= Seq::new(i as nat, |j: int| export_entry(data@, j)),
        decreases count - i,
    {
        if len - pos < 12 {
            return Err(BeamError::TruncatedInput);
        }
        let name_index = read_u32_at(data, pos);
        let arity = read_u32_at(data, pos + 4);
        let label = read_u32_at(data, pos + 8);
        out.push(RawExport { name_index, arity, label });
        pos = pos + 12;
        i = i + 1;
    }
    Ok(out)
}

/// Decodes an import table payload; atom indices are kept as stored.
pub fn parse_import_table(data: &[u8]) -> (r: Result<Vec<RawImport>, BeamError>)
    ensures
        match r {
            Ok(v) => imports_spec(data@) == Ok::<Seq<RawImport>, BeamError>(v@),
            Err(e) => imports_spec(data@) == Err::<Seq<RawImport>, BeamError>(e),
        },
{
    let len = data.len();
    if len < 4 {
        return Err(BeamError::TruncatedInput);
    }
    let count = read_u32_at(data, 0);
    let mut out: Vec<RawImport> = Vec::new();
    let mut pos: usize = 4;
    let mut i: u32 = 0;
    while i < count
        invariant
            len == data@.len(),
            len >= 4,
            count == be_u32(data@, 0),
            i <= count,
            pos == 4 + 12 * i,
            pos <= len,
            out@ =~= Seq::new(i as nat, |j: int| import_entry(data@, j)),
        decreases count - i,
    {
        if len - pos < 12 {
            return Err(BeamError::TruncatedInput);
        }
        let module_index = read_u32_at(data, pos);
        let function_index = read_u32_at(data, pos + 4);
        let arity = read_u32_at(data, pos + 8);
        out.push(RawImport { module_index, function_index, arity });
        pos = pos + 12;
        i = i + 1;
    }
    Ok(out)
}

/// The header fields and opcodes of a code section.
pub struct CodeView {
    pub instruction_set: u32,
    pub max_opcode: u32,
    pub label_count: u32,
    pub function_count: u32,
    pub opcodes: Seq<u8>,
}

/// A code chunk payload: a big-endian header length, a header of at least
/// four big-endian fields (any more are skipped), then the opcode bytes.
pub open spec fn code_spec(data: Seq<u8>) -> Result<CodeView, BeamError> {
    if data.len() < 4 {
        Err(BeamError::TruncatedInput)
    } else {
        let sub = be_u32(data, 0) as int;
        if 4 + sub > data.len() || sub < 16 {
            Err(BeamError::TruncatedInput)
        } else {
            Ok(
                CodeView {
                    instruction_set: be_u32(data, 4),
                    max_opcode: be_u32(data, 8),
                    label_count: be_u32(data, 12),
                    function_count: be_u32(data, 16),
                    opcodes: data.subrange(4 + sub, data.len() as int),
                },
            )
        }
    }
}

/// The code section of a module.
#[derive(Debug, Clone, PartialEq, Eq)]
pub struct Code {
    pub instruction_set: u32,
    pub max_opcode: u32,
    pub label_count: u32,
    pub function_count: u32,
    pub opcodes: Vec<u8>,
}

impl View for Code {
    type V = CodeView;

    open spec fn view(&self) -> CodeView {
        CodeView {
            instruction_set: self.instruction_set,
            max_opcode: self.max_opcode,
            label_count: self.label_count,
            function_count: self.function_count,
            opcodes: self.opcodes@,
        }
    }
}

impl Code {
    /// A code section with zero header fields and no opcodes.
    pub fn empty() -> (r: Code)
        ensures
            r@ == empty_code(),
    {
        Code { instruction_set: 0, max_opcode: 0, label_count: 0, function_count: 0, opcodes: Vec::new() }
    }
}

/// The code section of a module that has none yet.
pub open spec fn empty_code() -> CodeView {
    CodeView {
        instruction_set: 0,
        max_opcode: 0,
        label_count: 0,
        function_count: 0,
        opcodes: seq![],
    }
}

/// Decodes a code chunk payload.
pub fn parse_code_section(data: &[u8]) -> (r: Result<Code, BeamError>)
    ensures
        match r {
            Ok(c) => code_spec(data@) == Ok::<CodeView, BeamError>(c@),
            Err(e) => code_spec(data@) == Err::<CodeView, BeamError>(e),
        },
{
    let len = data.len();
    if len < 4 {
        return Err(BeamError::TruncatedInput);
    }
    let sub = read_u32_at(data, 0);
    if sub as usize > len - 4 || sub < 16 {
        return Err(BeamError::TruncatedInput);
    }
    let instruction_set = read_u32_at(data, 4);
    let max_opcode = read_u32_at(data, 8);
    let label_count = read_u32_at(data, 12);
    let function_count = read_u32_at(data, 16);
    let opcodes = slice_to_vec(slice_subrange(data, 4 + sub as usize, len));
    Ok(Code { instruction_set, max_opcode, label_count, function_count, opcodes })
}

} // verus!
