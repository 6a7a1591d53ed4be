use vstd::prelude::*;

verus! {

use crate::err::RadError;
use vstd::bytes::spec_u32_from_le_bytes;
use vstd::bytes::u32_from_le_bytes;
use vstd::slice::slice_subrange;

/// The fixed eight-byte header that precedes every chunk payload: the total
/// byte length of the chunk (header included) and the number of records the
/// payload holds.  Both are little-endian 32-bit unsigned integers.
#[derive(Clone, Copy, PartialEq, Eq, Structural, Debug)]
pub struct ChunkHeader {
    /// Total chunk byte length, the eight header bytes included.
    pub nbytes: u32,
    /// Number of records in the chunk payload.
    pub nrec: u32,
}

/// Byte length declared by the chunk header that starts at `pos`.
pub open spec fn chunk_size(s: Seq<u8>, pos: int) -> int
    recommends
        0 <= pos,
        pos + 4 <= s.len(),
{
    spec_u32_from_le_bytes(s.subrange(pos, pos + 4)) as int
}

/// Record count declared by the chunk header that starts at `pos`.
pub open spec fn chunk_recs(s: Seq<u8>, pos: int) -> int
    recommends
        0 <= pos,
        pos + 8 <= s.len(),
{
    spec_u32_from_le_bytes(s.subrange(pos + 4, pos + 8)) as int
}

/// Whether a whole chunk sits at `pos`: its header is present, its declared
/// length covers at least the header itself, and the declared length is
/// satisfied by the remaining bytes.
pub open spec fn chunk_fits(s: Seq<u8>, pos: int) -> bool {
    &&& 0 <= pos
    &&& pos + 8 <= s.len()
    &&& 8 <= chunk_size(s, pos)
    &&& pos + chunk_size(s, pos) <= s.len()
}

/// Start of the chunk that follows the one at `pos`.
pub open spec fn next_chunk(s: Seq<u8>, pos: int) -> int {
    pos + chunk_size(s, pos)
}

/// The bytes of `s` from `pos` on form a sequence of whole chunks.
pub open spec fn valid_chunks_from(s: Seq<u8>, pos: int) -> bool
    decreases s.len() - pos,
{
    if pos == s.len() {
        true
    } else if chunk_fits(s, pos) {
        valid_chunks_from(s, next_chunk(s, pos))
    } else {
        false
    }
}

/// Number of chunks in `s` from `pos` on; meaningful when the stream is
/// valid from `pos`.
pub open spec fn chunk_count_from(s: Seq<u8>, pos: int) -> int
    decreases s.len() - pos,
{
    if chunk_fits(s, pos) {
        1 + chunk_count_from(s, next_chunk(s, pos))
    } else {
        0
    }
}

/// Sum of the record counts of the chunks in `s` from `pos` on; meaningful
/// when the stream is valid from `pos`.
pub open spec fn record_total_from(s: Seq<u8>, pos: int) -> int
    decreases s.len() - pos,
{
    if chunk_fits(s, pos) {
        chunk_recs(s, pos) + record_total_from(s, next_chunk(s, pos))
    } else {
        0
    }
}

/// The chunk structure that `a + b` has past `a` is exactly the chunk
/// structure of `b`.
pub proof fn lemma_chunk_stream_shift(a: Seq<u8>, b: Seq<u8>, q: int)
    requires
        0 <= q <= b.len(),
    ensures
        valid_chunks_from(a + b, a.len() + q) == valid_chunks_from(b, q),
        chunk_count_from(a + b, a.len() + q) == chunk_count_from(b, q),
        record_total_from(a + b, a.len() + q) == record_total_from(b, q),
    decreases b.len() - q,
{
    let s = a + b;
    let pos = a.len() + q;
    if q + 8 <= b.len() {
        assert(s.subrange(pos, pos + 4) =~= b.subrange(q, q + 4));
        assert(s.subrange(pos + 4, pos + 8) =~= b.subrange(q + 4, q + 8));
        assert(chunk_fits(s, pos) == chunk_fits(b, q));
        if chunk_fits(b, q) {
            lemma_chunk_stream_shift(a, b, q + chunk_size(b, q));
        }
    } else {
        assert(!chunk_fits(s, pos));
        assert(!chunk_fits(b, q));
    }
}

/// Appending one valid chunk stream to another yields a valid chunk stream;
/// chunk counts and record totals add up.
pub proof fn lemma_chunk_stream_concat_from(a: Seq<u8>, b: Seq<u8>, pos: int)
    requires
        0 <= pos <= a.len(),
        valid_chunks_from(b, 0),
    ensures
        valid_chunks_from(a, pos) ==> valid_chunks_from(a + b, pos) && chunk_count_from(a + b, pos)
            == chunk_count_from(a, pos) + chunk_count_from(b, 0) && record_total_from(a + b, pos)
            == record_total_from(a, pos) + record_total_from(b, 0),
    decreases a.len() - pos,
{
    let s = a + b;
    if pos == a.len() {
        lemma_chunk_stream_shift(a, b, 0);
    } else if chunk_fits(a, pos) {
        assert(s.subrange(pos, pos + 4) =~= a.subrange(pos, pos + 4));
        assert(s.subrange(pos + 4, pos + 8) =~= a.subrange(pos + 4, pos + 8));
        assert(chunk_fits(s, pos));
        lemma_chunk_stream_concat_from(a, b, next_chunk(a, pos));
    }
}

/// Concatenating two valid chunk streams gives a valid chunk stream whose
/// chunk count and record total are the sums of the parts'.
pub proof fn lemma_chunk_stream_concat(a: Seq<u8>, b: Seq<u8>)
    requires
        valid_chunks_from(a, 0),
        valid_chunks_from(b, 0),
    ensures
        valid_chunks_from(a + b, 0),
        chunk_count_from(a + b, 0) == chunk_count_from(a, 0) + chunk_count_from(b, 0),
        record_total_from(a + b, 0) == record_total_from(a, 0) + record_total_from(b, 0),
{
    lemma_chunk_stream_concat_from(a, b, 0);
}

/// A whole chunk cut out of a stream is itself a valid single-chunk stream
/// carrying that chunk's records.
pub proof fn lemma_single_chunk_block(s: Seq<u8>, pos: int)
    requires
        chunk_fits(s, pos),
    ensures
        ({
            let block = s.subrange(pos, next_chunk(s, pos));
            valid_chunks_from(block, 0) && chunk_count_from(block, 0) == 1 && record_total_from(
                block,
                0,
            ) == chunk_recs(s, pos) && block.len() == chunk_size(s, pos)
        }),
{
    let block = s.subrange(pos, next_chunk(s, pos));
    assert(block.subrange(0, 4) =~= s.subrange(pos, pos + 4));
    assert(block.subrange(4, 8) =~= s.subrange(pos + 4, pos + 8));
    assert(chunk_fits(block, 0));
    assert(next_chunk(block, 0) == block.len());
    assert(valid_chunks_from(block, block.len() as int));
    assert(chunk_count_from(block, block.len() as int) == 0);
    assert(record_total_from(block, block.len() as int) == 0);
    assert(valid_chunks_from(block, 0));
    assert(chunk_count_from(block, 0) == 1);
    assert(record_total_from(block, 0) == chunk_recs(s, pos));
}

/// Reads the eight-byte chunk header that starts at `pos`: the chunk's total
/// byte length and its record count, both little-endian.  Fails with
/// `TruncatedInput` when fewer than eight bytes remain.  The payload is not
/// consumed; advancing past it is the caller's business.
pub fn read_chunk_header(data: &Vec<u8>, pos: usize) -> (r: Result<ChunkHeader, RadError>)
    ensures
        pos + 8 <= data@.len() ==> (r matches Ok(h) && h.nbytes as int == chunk_size(
            data@,
            pos as int,
        ) && h.nrec as int == chunk_recs(data@, pos as int)),
        pos + 8 > data@.len() ==> (r matches Err(e) && e is TruncatedInput),
{
    if pos > data.len() || data.len() - pos < 8 {
        return Err(RadError::TruncatedInput);
    }
    let nbytes = u32_from_le_bytes(slice_subrange(data.as_slice(), pos, pos + 4));
    let nrec = u32_from_le_bytes(slice_subrange(data.as_slice(), pos + 4, pos + 8));
    Ok(ChunkHeader { nbytes, nrec })
}

} // verus!
