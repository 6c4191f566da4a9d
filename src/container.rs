use vstd::prelude::*;
use vstd::slice::{slice_subrange, slice_to_vec};

use crate::bytes::{be_u32, read_u32_at};
use crate::error::BeamError;

verus! {

/// Number of padding bytes that follow `n` bytes of chunk data, so that the
/// next chunk starts on a 4-byte boundary.
pub open spec fn padding_of(n: int) -> int {
    (4 - n % 4) % 4
}

/// Bytes taken from the stream by a chunk with `n` data bytes: tag, size
/// field, data and padding.
pub open spec fn consumed_of(n: int) -> int {
    8 + n + padding_of(n)
}

/// A chunk as the container holds it: its 4-byte tag and its data.
pub struct RawChunk {
    pub name: Seq<u8>,
    pub data: Seq<u8>,
}

/// Whether the four bytes of `b` at `i` are `c0 c1 c2 c3`.
pub open spec fn tag_at(b: Seq<u8>, i: int, c0: u8, c1: u8, c2: u8, c3: u8) -> bool {
    b[i] == c0 && b[i + 1] == c1 && b[i + 2] == c2 && b[i + 3] == c3
}

/// The envelope: `FOR1`, a big-endian size that counts the `BEAM` form type
/// and every chunk, then `BEAM`. Yields the bytes left for the chunks.
pub open spec fn header_spec(input: Seq<u8>) -> Result<u32, BeamError> {
    if input.len() < 12 {
        Err(BeamError::TruncatedInput)
    } else if !tag_at(input, 0, 0x46, 0x4f, 0x52, 0x31) || !tag_at(input, 8, 0x42, 0x45, 0x41, 0x4d)
        || be_u32(input, 4) < 4 {
        Err(BeamError::MalformedContainer)
    } else {
        Ok((be_u32(input, 4) - 4) as u32)
    }
}

/// The chunk that starts at `pos` when `left` bytes of the budget remain.
/// Running past the budget, or finding the input at its end while budget
/// remains, is a malformed container; a chunk cut short by the end of the
/// input is truncated input.
pub open spec fn chunk_at(input: Seq<u8>, pos: nat, left: int) -> Result<RawChunk, BeamError> {
    if left < 8 || pos >= input.len() {
        Err(BeamError::MalformedContainer)
    } else if pos + 8 > input.len() {
        Err(BeamError::TruncatedInput)
    } else {
        let p = pos as int;
        let n = be_u32(input, p + 4) as int;
        if consumed_of(n) > left {
            Err(BeamError::MalformedContainer)
        } else if pos + 8 + n > input.len() {
            Err(BeamError::TruncatedInput)
        } else {
            Ok(
                RawChunk {
                    name: input.subrange(p, p + 4),
                    data: input.subrange(p + 8, p + 8 + n),
                },
            )
        }
    }
}

/// The chunks that fill a budget of `left` bytes starting at `pos`.
pub open spec fn chunks_from(input: Seq<u8>, pos: nat, left: int) -> Result<
    Seq<RawChunk>,
    BeamError,
>
    decreases left,
    via chunks_from_decreases
{
    if left <= 0 {
        Ok(seq![])
    } else {
        match chunk_at(input, pos, left) {
            Err(e) => Err(e),
            Ok(c) => {
                let k = consumed_of(c.data.len() as int);
                match chunks_from(input, (pos + k) as nat, left - k) {
                    Err(e) => Err(e),
                    Ok(rest) => Ok(seq![c] + rest),
                }
            },
        }
    }
}

#[via_fn]
proof fn chunks_from_decreases(input: Seq<u8>, pos: nat, left: int) {
    if left > 0 {
        if let Ok(c) = chunk_at(input, pos, left) {
            lemma_consumed_bounds(c.data.len() as int);
        }
    }
}

/// A chunk takes its data, eight header bytes and at most three bytes of
/// padding, and ends on a 4-byte boundary.
pub proof fn lemma_consumed_bounds(n: int)
    requires
        n >= 0,
    ensures
        0 <= padding_of(n) < 4,
        (n + padding_of(n)) % 4 == 0,
        8 + n <= consumed_of(n) <= 11 + n,
{
}

/// The budget of a whole file and the chunks that fill it.
pub open spec fn container_spec(input: Seq<u8>) -> Result<(u32, Seq<RawChunk>), BeamError> {
    match header_spec(input) {
        Err(e) => Err(e),
        Ok(budget) => match chunks_from(input, 12, budget as int) {
            Err(e) => Err(e),
            Ok(cs) => Ok((budget, cs)),
        },
    }
}

/// `done` followed by the chunks of `r`, or the error of `r`.
pub open spec fn prepend(done: Seq<RawChunk>, r: Result<Seq<RawChunk>, BeamError>) -> Result<
    Seq<RawChunk>,
    BeamError,
> {
    match r {
        Ok(rest) => Ok(done + rest),
        Err(e) => Err(e),
    }
}

/// A chunk read off the container.
pub struct Chunk {
    pub name: [u8; 4],
    pub size: u32,
    pub data: Vec<u8>,
}

impl View for Chunk {
    type V = RawChunk;

    open spec fn view(&self) -> RawChunk {
        RawChunk { name: self.name@, data: self.data@ }
    }
}

impl Chunk {
    /// The size field agrees with the data.
    pub open spec fn wf(&self) -> bool {
        self.size as int == self.data@.len()
    }
}

/// The views of a sequence of chunks.
pub open spec fn chunk_views(cs: Seq<Chunk>) -> Seq<RawChunk> {
    cs.map_values(|c: Chunk| c@)
}

/// Number of padding bytes after a chunk of `size` data bytes.
pub fn padding(size: u32) -> (r: u32)
    ensures
        r as int == padding_of(size as int),
        r < 4,
{
    (4 - size % 4) % 4
}

/// Reads the 12-byte envelope and returns the byte budget of the chunks.
pub fn read_header(input: &[u8]) -> (r: Result<u32, BeamError>)
    ensures
        r == header_spec(input@),
{
    if input.len() < 12 {
        return Err(BeamError::TruncatedInput);
    }
    let magic_ok = input[0] == 0x46 && input[1] == 0x4f && input[2] == 0x52 && input[3] == 0x31;
    let form_ok = input[8] == 0x42 && input[9] == 0x45 && input[10] == 0x41 && input[11] == 0x4d;
    let size = read_u32_at(input, 4);
    if !magic_ok || !form_ok || size < 4 {
        return Err(BeamError::MalformedContainer);
    }
    Ok(size - 4)
}

/// Reads the chunk at `pos` while `left` bytes of the budget remain, and
/// returns it with the number of bytes it takes from the stream.
pub fn read_chunk(input: &[u8], pos: usize, left: u32) -> (r: Result<(Chunk, u32), BeamError>)
    ensures
        match r {
            Ok((c, k)) => chunk_at(input@, pos as nat, left as int) == Ok::<RawChunk, BeamError>(c@) && c.wf()
                && k as int == consumed_of(c.data@.len() as int)
                && pos + 8 + c.data@.len() <= input@.len(),
            Err(e) => chunk_at(input@, pos as nat, left as int) == Err::<RawChunk, BeamError>(e),
        },
{
    if left < 8 || pos >= input.len() {
        return Err(BeamError::MalformedContainer);
    }
    if input.len() - pos < 8 {
        return Err(BeamError::TruncatedInput);
    }
    let name: [u8; 4] = [input[pos], input[pos + 1], input[pos + 2], input[pos + 3]];
    let size = read_u32_at(input, pos + 4);
    let total: u64 = 8 + size as u64 + padding(size) as u64;
    if total > left as u64 {
        return Err(BeamError::MalformedContainer);
    }
    if size as usize > input.len() - pos - 8 {
        return Err(BeamError::TruncatedInput);
    }
    let data = slice_to_vec(slice_subrange(input, pos + 8, pos + 8 + size as usize));
    assert(name@ =~= input@.subrange(pos as int, pos + 4));
    Ok((Chunk { name, size, data }, total as u32))
}

/// Reads the envelope and then chunks until their sizes fill its budget
/// exactly; returns the budget and the chunks in file order.
pub fn read_chunks(input: &[u8]) -> (r: Result<(u32, Vec<Chunk>), BeamError>)
    ensures
        match r {
            Ok((budget, cs)) => container_spec(input@) == Ok::<(u32, Seq<RawChunk>), BeamError>(
                (budget, chunk_views(cs@)),
            )
                && forall|i: int| 0 <= i < cs@.len() ==> (#[trigger] cs@[i]).wf(),
            Err(e) => container_spec(input@) == Err::<(u32, Seq<RawChunk>), BeamError>(e),
        },
{
    let budget = match read_header(input) {
        Ok(b) => b,
        Err(e) => return Err(e),
    };
    let mut chunks: Vec<Chunk> = Vec::new();
    let mut pos: usize = 12;
    let mut left: u32 = budget;
    assert(chunk_views(chunks@) =~= seq![]);
    while left > 0
        invariant
            pos <= input@.len(),
            left <= budget,
            header_spec(input@) == Ok::<u32, BeamError>(budget),
            forall|i: int| 0 <= i < chunks@.len() ==> (#[trigger] chunks@[i]).wf(),
            chunks_from(input@, 12, budget as int) == prepend(
                chunk_views(chunks@),
                chunks_from(input@, pos as nat, left as int),
            ),
        decreases left,
    {
        let ghost old_views = chunk_views(chunks@);
        let ghost old_pos = pos;
        let ghost old_left = left;
        match read_chunk(input, pos, left) {
            Err(e) => {
                assert(chunks_from(input@, pos as nat, left as int) == Err::<Seq<RawChunk>, BeamError>(e));
                return Err(e);
            },
            Ok((c, k)) => {
                proof {
                    lemma_consumed_bounds(c.data@.len() as int);
                }
                let ghost cv = c@;
                let len = input.len();
                let end = pos + 8 + c.size as usize;
                let pad = padding(c.size);
                left = left - k;
                if len - end >= pad as usize {
                    pos = end + pad as usize;
                } else {
                    pos = len;
                    let ghost far = (old_pos + k) as nat;
                    assert(chunks_from(input@, far, left as int) == chunks_from(
                        input@,
                        pos as nat,
                        left as int,
                    ));
                }
                chunks.push(c);
                assert(chunk_views(chunks@) =~= old_views.push(cv));
                proof {
                    if let Ok(rest) = chunks_from(input@, pos as nat, left as int) {
                        assert(old_views + (seq![cv] + rest) =~= old_views.push(cv) + rest);
                    }
                }
            },
        }
    }
    Ok((budget, chunks))
}

} // verus!
