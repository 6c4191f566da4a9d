use vstd::prelude::*;

use crate::bytes::be_u32;
use crate::container::{
    chunk_at, chunks_from, consumed_of, container_spec, padding_of, tag_at, RawChunk,
};
use crate::error::BeamError;
use crate::module::{
    apply_chunk, apply_chunks, decode_chunks, decode_file, empty_module, known_tag, DecodeState,
    ModuleView,
};
use crate::resolve::{resolve_exports_spec, resolve_imports_spec};

verus! {

/// Bytes that a sequence of chunks takes from the stream.
pub open spec fn total_consumed(cs: Seq<RawChunk>) -> int
    decreases cs.len(),
{
    if cs.len() == 0 {
        0
    } else {
        consumed_of(cs[0].data.len() as int) + total_consumed(cs.drop_first())
    }
}

/// The chunks read to fill a budget take exactly that many bytes.
pub proof fn lemma_chunks_fill_budget(input: Seq<u8>, pos: nat, left: int)
    requires
        left >= 0,
        chunks_from(input, pos, left) is Ok,
    ensures
        total_consumed(chunks_from(input, pos, left)->Ok_0) == left,
    decreases left,
{
    if left > 0 {
        let c = chunk_at(input, pos, left)->Ok_0;
        let k = consumed_of(c.data.len() as int);
        crate::container::lemma_consumed_bounds(c.data.len() as int);
        lemma_chunks_fill_budget(input, (pos + k) as nat, left - k);
        let rest = chunks_from(input, (pos + k) as nat, left - k)->Ok_0;
        assert((seq![c] + rest).drop_first() =~= rest);
    }
}

/// In a decoded file the chunks take exactly the envelope's budget.
pub proof fn lemma_container_budget_exact(input: Seq<u8>)
    requires
        container_spec(input) is Ok,
    ensures
        total_consumed(container_spec(input)->Ok_0.1) == container_spec(input)->Ok_0.0 as int,
{
    let budget = container_spec(input)->Ok_0.0;
    lemma_chunks_fill_budget(input, 12, budget as int);
}

/// A chunk that would take more bytes than the budget has left makes the
/// container malformed.
pub proof fn lemma_overrun_is_malformed(input: Seq<u8>, pos: nat, left: int)
    requires
        left > 0,
        pos + 8 <= input.len(),
        consumed_of(be_u32(input, pos as int + 4) as int) > left,
    ensures
        chunks_from(input, pos, left) == Err::<Seq<RawChunk>, BeamError>(
            BeamError::MalformedContainer,
        ),
{
}

/// Budget left over where the input ends makes the container malformed.
pub proof fn lemma_underrun_is_malformed(input: Seq<u8>, pos: nat, left: int)
    requires
        left > 0,
        pos >= input.len(),
    ensures
        chunks_from(input, pos, left) == Err::<Seq<RawChunk>, BeamError>(
            BeamError::MalformedContainer,
        ),
{
}

/// Data sizes 0 to 4 are followed by 0, 3, 2, 1 and 0 bytes of padding.
pub proof fn lemma_padding_small_sizes()
    ensures
        padding_of(0) == 0,
        padding_of(1) == 3,
        padding_of(2) == 2,
        padding_of(3) == 1,
        padding_of(4) == 0,
{
}

/// Applying `x` and then `y` is applying `x + y`.
pub proof fn lemma_apply_chunks_concat(st: DecodeState, x: Seq<RawChunk>, y: Seq<RawChunk>)
    ensures
        apply_chunks(st, x + y) == match apply_chunks(st, x) {
            Err(e) => Err(e),
            Ok(s) => apply_chunks(s, y),
        },
    decreases y.len(),
{
    if y.len() == 0 {
        assert(x + y =~= x);
    } else {
        lemma_apply_chunks_concat(st, x, y.drop_last());
        assert((x + y).drop_last() =~= x + y.drop_last());
        assert((x + y).last() == y.last());
    }
}

/// A chunk whose tag the decoder does not read changes nothing and causes
/// no failure, wherever it stands among the other chunks.
pub proof fn lemma_unknown_chunk_ignored(
    m: ModuleView,
    a: Seq<RawChunk>,
    c: RawChunk,
    b: Seq<RawChunk>,
)
    requires
        !known_tag(c.name),
    ensures
        decode_chunks(m, a + seq![c] + b) == decode_chunks(m, a + b),
{
    let st = DecodeState { module: m, raw_exports: seq![], raw_imports: seq![] };
    lemma_apply_chunks_concat(st, a + seq![c], b);
    lemma_apply_chunks_concat(st, a, b);
    lemma_apply_chunks_concat(st, a, seq![c]);
    assert(seq![c].drop_last() =~= Seq::<RawChunk>::empty());
    if let Ok(s) = apply_chunks(st, a) {
        assert(apply_chunk(s, c) == Ok::<DecodeState, BeamError>(s));
        assert(apply_chunks(s, Seq::<RawChunk>::empty()) == Ok::<DecodeState, BeamError>(s));
        assert(apply_chunks(s, seq![c]) == Ok::<DecodeState, BeamError>(s));
        assert(apply_chunks(st, a + seq![c]) == Ok::<DecodeState, BeamError>(s));
    }
}

/// A file whose envelope leaves no bytes for chunks decodes to an empty
/// module.
pub proof fn lemma_empty_container(input: Seq<u8>)
    requires
        input.len() >= 12,
        tag_at(input, 0, 0x46, 0x4f, 0x52, 0x31),
        tag_at(input, 8, 0x42, 0x45, 0x41, 0x4d),
        be_u32(input, 4) == 4,
    ensures
        decode_file(input) == Ok::<ModuleView, BeamError>(empty_module(0)),
{
    let m = empty_module(0);
    let st = DecodeState { module: m, raw_exports: seq![], raw_imports: seq![] };
    assert(container_spec(input) == Ok::<(u32, Seq<RawChunk>), BeamError>((0, seq![])));
    assert(apply_chunks(st, seq![]) == Ok::<DecodeState, BeamError>(st));
    assert(resolve_exports_spec(m.atoms, seq![]) is Ok);
    assert(resolve_imports_spec(m.atoms, seq![]) is Ok);
    assert(m.exports + seq![] =~= m.exports);
    assert(m.imports + seq![] =~= m.imports);
}

} // verus!
