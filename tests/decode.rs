use beam_file::container::{padding, read_chunk, read_chunks, read_header, Chunk};
use beam_file::error::{BeamError, TableKind};
use beam_file::module::BeamData;
use beam_file::resolve::{resolve_atom, resolve_exports, resolve_imports, Export, Import};
use beam_file::tables::{
    parse_atom_table, parse_code_section, parse_export_table, parse_import_table, RawExport,
    RawImport,
};

fn be(v: u32) -> Vec<u8> {
    v.to_be_bytes().to_vec()
}

fn chunk_bytes(tag: &[u8; 4], data: &[u8]) -> Vec<u8> {
    let mut out = tag.to_vec();
    out.extend(be(data.len() as u32));
    out.extend_from_slice(data);
    while out.len() % 4 != 0 {
        out.push(0);
    }
    out
}

fn container(declared: u32, chunks: &[Vec<u8>]) -> Vec<u8> {
    let mut out = b"FOR1".to_vec();
    out.extend(be(declared));
    out.extend_from_slice(b"BEAM");
    for c in chunks {
        out.extend_from_slice(c);
    }
    out
}

fn file_of(chunks: &[Vec<u8>]) -> Vec<u8> {
    let total: usize = chunks.iter().map(|c| c.len()).sum();
    container(4 + total as u32, chunks)
}

fn atom_payload(atoms: &[&str]) -> Vec<u8> {
    let mut out = be(atoms.len() as u32);
    for a in atoms {
        out.push(a.len() as u8);
        out.extend_from_slice(a.as_bytes());
    }
    out
}

fn export_payload(entries: &[(u32, u32, u32)]) -> Vec<u8> {
    let mut out = be(entries.len() as u32);
    for &(a, b, c) in entries {
        out.extend(be(a));
        out.extend(be(b));
        out.extend(be(c));
    }
    out
}

fn code_payload(sub: u32, fields: &[u32], opcodes: &[u8]) -> Vec<u8> {
    let mut out = be(sub);
    for &f in fields {
        out.extend(be(f));
    }
    out.extend_from_slice(opcodes);
    out
}

fn chunk(tag: &[u8; 4], data: &[u8]) -> Chunk {
    Chunk { name: *tag, size: data.len() as u32, data: data.to_vec() }
}

#[test]
fn padding_for_small_sizes() {
    assert_eq!(padding(0), 0);
    assert_eq!(padding(1), 3);
    assert_eq!(padding(2), 2);
    assert_eq!(padding(3), 1);
    assert_eq!(padding(4), 0);
    assert_eq!(padding(5), 3);
    assert_eq!(padding(u32::MAX), 1);
}

#[test]
fn chunk_consumed_counts_padding() {
    for n in 0u32..5 {
        let data = vec![7u8; n as usize];
        let bytes = chunk_bytes(b"Xyzw", &data);
        let (c, k) = read_chunk(&bytes, 0, bytes.len() as u32).unwrap();
        assert_eq!(c.name, *b"Xyzw");
        assert_eq!(c.size, n);
        assert_eq!(c.data, data);
        assert_eq!(k, 8 + n + padding(n));
        assert_eq!(k as usize, bytes.len());
    }
}

#[test]
fn header_budget_excludes_form_type() {
    let f = container(4, &[]);
    assert_eq!(read_header(&f), Ok(0));
    let f = container(100, &[]);
    assert_eq!(read_header(&f), Ok(96));
}

#[test]
fn header_errors() {
    assert_eq!(read_header(b"FOR1\0\0\0\x04BEA"), Err(BeamError::TruncatedInput));
    assert_eq!(read_header(b"FOR2\0\0\0\x04BEAM"), Err(BeamError::MalformedContainer));
    assert_eq!(read_header(b"FOR1\0\0\0\x04beam"), Err(BeamError::MalformedContainer));
    assert_eq!(read_header(b"FOR1\0\0\0\x03BEAM"), Err(BeamError::MalformedContainer));
}

#[test]
fn chunks_fill_budget_exactly() {
    let chunks = vec![chunk_bytes(b"AtU8", &atom_payload(&["ab"])), chunk_bytes(b"LocT", &[1, 2, 3])];
    let f = file_of(&chunks);
    let (budget, cs) = read_chunks(&f).unwrap();
    assert_eq!(budget as usize, f.len() - 12);
    let total: u32 = cs.iter().map(|c| 8 + c.size + padding(c.size)).sum();
    assert_eq!(total, budget);
    assert_eq!(cs.len(), 2);
    assert_eq!(cs[1].name, *b"LocT");
    assert_eq!(cs[1].data, vec![1, 2, 3]);
}

#[test]
fn overrun_budget_is_malformed() {
    let chunks = vec![chunk_bytes(b"LocT", &[1, 2, 3, 4])];
    let f = container(4 + 12 - 4, &chunks);
    assert_eq!(read_chunks(&f).err(), Some(BeamError::MalformedContainer));
    let f = container(4 + 12 - 1, &chunks);
    assert_eq!(BeamData::from_file(&f).err(), Some(BeamError::MalformedContainer));
}

#[test]
fn underrun_budget_is_malformed() {
    let chunks = vec![chunk_bytes(b"LocT", &[1, 2, 3, 4])];
    let f = container(4 + 12 + 4, &chunks);
    assert_eq!(BeamData::from_file(&f).err(), Some(BeamError::MalformedContainer));
    let f = container(4 + 12 + 16, &chunks);
    assert_eq!(BeamData::from_file(&f).err(), Some(BeamError::MalformedContainer));
}

#[test]
fn chunk_cut_short_is_truncated() {
    let mut f = file_of(&[chunk_bytes(b"LocT", &[1, 2, 3, 4, 5, 6, 7, 8])]);
    f.truncate(f.len() - 4);
    assert_eq!(BeamData::from_file(&f).err(), Some(BeamError::TruncatedInput));
    let mut g = file_of(&[chunk_bytes(b"LocT", &[1, 2, 3, 4])]);
    g.truncate(16);
    assert_eq!(BeamData::from_file(&g).err(), Some(BeamError::TruncatedInput));
}

#[test]
fn resolve_atom_is_one_based() {
    let atoms = vec!["first".to_string(), "second".to_string()];
    assert_eq!(resolve_atom(&atoms, 1, TableKind::Exports), Ok("first".to_string()));
    assert_eq!(resolve_atom(&atoms, 2, TableKind::Exports), Ok("second".to_string()));
    assert_eq!(
        resolve_atom(&atoms, 0, TableKind::Exports),
        Err(BeamError::UnresolvedReference { index: 0, table: TableKind::Exports })
    );
    assert_eq!(
        resolve_atom(&atoms, 3, TableKind::Imports),
        Err(BeamError::UnresolvedReference { index: 3, table: TableKind::Imports })
    );
}

#[test]
fn unknown_chunks_are_ignored() {
    let atoms = chunk_bytes(b"AtU8", &atom_payload(&["m", "f"]));
    let exports = chunk_bytes(b"ExpT", &export_payload(&[(2, 1, 7)]));
    let plain = BeamData::from_file(&file_of(&[atoms.clone(), exports.clone()])).unwrap();
    let with_extra = BeamData::from_file(&file_of(&[
        chunk_bytes(b"Attr", &[9, 9, 9]),
        atoms,
        chunk_bytes(b"LocT", &export_payload(&[(5, 5, 5)])),
        exports,
    ]))
    .unwrap();
    assert_eq!(plain.atoms, with_extra.atoms);
    assert_eq!(plain.exports, with_extra.exports);
    assert_eq!(plain.imports, with_extra.imports);
    assert_eq!(plain.code, with_extra.code);
    assert_eq!(plain.string_literals, with_extra.string_literals);
}

#[test]
fn minimal_container_is_empty() {
    let d = BeamData::from_file(&container(4, &[])).unwrap();
    assert_eq!(d.size, 0);
    assert!(d.atoms.is_empty());
    assert!(d.exports.is_empty());
    assert!(d.imports.is_empty());
    assert!(d.code.opcodes.is_empty());
    assert!(d.string_literals.is_empty());
}

#[test]
fn single_atom_chunk() {
    let data = [0, 0, 0, 1, 3, b'f', b'o', b'o'];
    let f = container(20, &[chunk_bytes(b"AtU8", &data)]);
    let d = BeamData::from_file(&f).unwrap();
    assert_eq!(d.atoms, vec!["foo".to_string()]);
    assert!(d.exports.is_empty());
    assert!(d.imports.is_empty());
    assert_eq!(d.size, 16);
}

#[test]
fn single_atom_chunk_with_size_24_leaves_budget_unfilled() {
    let data = [0, 0, 0, 1, 3, b'f', b'o', b'o'];
    let f = container(24, &[chunk_bytes(b"AtU8", &data)]);
    assert_eq!(BeamData::from_file(&f).err(), Some(BeamError::MalformedContainer));
}

#[test]
fn export_resolves_name() {
    let atoms = vec!["start".to_string()];
    let raw = parse_export_table(&export_payload(&[(1, 0, 5)])).unwrap();
    assert_eq!(raw, vec![RawExport { name_index: 1, arity: 0, label: 5 }]);
    let ex = resolve_exports(&atoms, &raw).unwrap();
    assert_eq!(ex, vec![Export { function_name: "start".to_string(), arity: 0, label: 5 }]);
    let bad = parse_export_table(&export_payload(&[(2, 0, 5)])).unwrap();
    assert_eq!(
        resolve_exports(&atoms, &bad),
        Err(BeamError::UnresolvedReference { index: 2, table: TableKind::Exports })
    );
}

#[test]
fn export_resolves_in_file() {
    let atoms = chunk_bytes(b"AtU8", &atom_payload(&["start"]));
    let good = file_of(&[atoms.clone(), chunk_bytes(b"ExpT", &export_payload(&[(1, 0, 5)]))]);
    let d = BeamData::from_file(&good).unwrap();
    assert_eq!(d.exports, vec![Export { function_name: "start".to_string(), arity: 0, label: 5 }]);
    let bad = file_of(&[atoms, chunk_bytes(b"ExpT", &export_payload(&[(2, 0, 5)]))]);
    assert_eq!(
        BeamData::from_file(&bad).err(),
        Some(BeamError::UnresolvedReference { index: 2, table: TableKind::Exports })
    );
}

#[test]
fn references_before_atom_table_resolve() {
    let f = file_of(&[
        chunk_bytes(b"ImpT", &export_payload(&[(1, 2, 3)])),
        chunk_bytes(b"ExpT", &export_payload(&[(2, 1, 9)])),
        chunk_bytes(b"Atom", &atom_payload(&["lists", "map"])),
    ]);
    let d = BeamData::from_file(&f).unwrap();
    assert_eq!(d.exports, vec![Export { function_name: "map".to_string(), arity: 1, label: 9 }]);
    assert_eq!(
        d.imports,
        vec![Import { module_name: "lists".to_string(), function_name: "map".to_string(), arity: 3 }]
    );
}

#[test]
fn import_indices_checked() {
    let atoms = vec!["erlang".to_string(), "put".to_string()];
    let raw = parse_import_table(&export_payload(&[(1, 2, 2), (2, 1, 0)])).unwrap();
    assert_eq!(raw[0], RawImport { module_index: 1, function_index: 2, arity: 2 });
    let im = resolve_imports(&atoms, &raw).unwrap();
    assert_eq!(im[1].module_name, "put");
    assert_eq!(im[1].function_name, "erlang");
    let bad = vec![RawImport { module_index: 1, function_index: 0, arity: 1 }];
    assert_eq!(
        resolve_imports(&atoms, &bad),
        Err(BeamError::UnresolvedReference { index: 0, table: TableKind::Imports })
    );
    let bad = vec![RawImport { module_index: 3, function_index: 0, arity: 1 }];
    assert_eq!(
        resolve_imports(&atoms, &bad),
        Err(BeamError::UnresolvedReference { index: 3, table: TableKind::Imports })
    );
}

#[test]
fn code_header_and_opcodes() {
    let payload = code_payload(16, &[1, 169, 3, 1], &[0x99, 0x01]);
    let c = parse_code_section(&payload).unwrap();
    assert_eq!(c.instruction_set, 1);
    assert_eq!(c.max_opcode, 169);
    assert_eq!(c.label_count, 3);
    assert_eq!(c.function_count, 1);
    assert_eq!(c.opcodes.len(), 2);
    assert_eq!(c.opcodes, vec![0x99, 0x01]);
    let mut d = BeamData::new(0);
    assert_eq!(d.parse_code(&chunk(b"Code", &payload)), Ok(()));
    assert_eq!(d.code, c);
}

#[test]
fn code_header_longer_than_four_fields() {
    let payload = code_payload(20, &[0x01020304, 2, 3, 4, 77], &[5, 6, 7]);
    let c = parse_code_section(&payload).unwrap();
    assert_eq!(c.instruction_set, 0x01020304);
    assert_eq!(c.function_count, 4);
    assert_eq!(c.opcodes, vec![5, 6, 7]);
}

#[test]
fn code_errors() {
    assert_eq!(parse_code_section(&[0, 0, 0]).err(), Some(BeamError::TruncatedInput));
    assert_eq!(parse_code_section(&code_payload(12, &[1, 2, 3], &[])).err(), Some(BeamError::TruncatedInput));
    assert_eq!(parse_code_section(&code_payload(24, &[1, 2, 3, 4], &[])).err(), Some(BeamError::TruncatedInput));
}

#[test]
fn atom_errors() {
    assert_eq!(parse_atom_table(&[0, 0]).err(), Some(BeamError::TruncatedInput));
    assert_eq!(parse_atom_table(&[0, 0, 0, 2, 1, b'a']).err(), Some(BeamError::TruncatedInput));
    assert_eq!(parse_atom_table(&[0, 0, 0, 1, 3, b'a']).err(), Some(BeamError::TruncatedInput));
    assert_eq!(parse_atom_table(&[0, 0, 0, 1, 2, 0xff, 0xfe]).err(), Some(BeamError::InvalidEncoding));
    assert_eq!(
        parse_atom_table(&[0, 0, 0, 2, 2, b'o', b'k', 2, 0xc3, 0xa9]).unwrap(),
        vec!["ok".to_string(), "\u{e9}".to_string()]
    );
    let f = file_of(&[chunk_bytes(b"AtU8", &[0, 0, 0, 1, 1, 0x80])]);
    assert_eq!(BeamData::from_file(&f).err(), Some(BeamError::InvalidEncoding));
}

#[test]
fn table_truncation() {
    assert_eq!(parse_export_table(&[0, 0, 0, 1, 0, 0, 0, 1]).err(), Some(BeamError::TruncatedInput));
    assert_eq!(parse_import_table(&[0, 0, 0]).err(), Some(BeamError::TruncatedInput));
    assert_eq!(parse_export_table(&[0, 0, 0, 0]).unwrap(), vec![]);
}

#[test]
fn string_literals_verbatim() {
    let mut d = BeamData::new(0);
    d.parse_string_literals(&chunk(b"StrT", &[0xff, 0, 1]));
    assert_eq!(d.string_literals, vec![0xff, 0, 1]);
    d.parse_string_literals(&chunk(b"StrT", &[]));
    assert_eq!(d.string_literals, vec![0xff, 0, 1]);
    let f = file_of(&[chunk_bytes(b"StrT", b"hello\xff")]);
    assert_eq!(BeamData::from_file(&f).unwrap().string_literals, b"hello\xff".to_vec());
}

#[test]
fn parse_chunks_appends_atoms_in_order() {
    let mut d = BeamData::new(7);
    let cs = vec![
        chunk(b"AtU8", &atom_payload(&["a", "b"])),
        chunk(b"Atom", &atom_payload(&["c"])),
        chunk(b"ExpT", &export_payload(&[(3, 0, 1)])),
    ];
    assert_eq!(d.parse_chunks(cs), Ok(()));
    assert_eq!(d.atoms, vec!["a".to_string(), "b".to_string(), "c".to_string()]);
    assert_eq!(d.exports[0].function_name, "c");
    assert_eq!(d.size, 7);
}
