use vstd::prelude::*;

verus! {

use crate::buf::append_range;
use crate::buf::copy_range;
use crate::cat::concat_chunks_from;
use crate::cat::lemma_concat_chunks_snoc;
use crate::chunk::chunk_count_from;
use crate::chunk::chunk_fits;
use crate::chunk::chunk_recs;
use crate::chunk::lemma_chunk_stream_concat;
use crate::chunk::lemma_single_chunk_block;
use crate::chunk::next_chunk;
use crate::chunk::read_chunk_header;
use crate::chunk::record_total_from;
use crate::chunk::valid_chunks_from;
use crate::container::Container;
use crate::err::RadError;
use crate::prelude::Prelude;

/// Options of the split operation.
pub struct SplitOpts {
    /// Name of the input container.
    pub input: String,
    /// Approximate number of records per output container.  Approximate
    /// because chunks are never fragmented: an input chunk resides entirely
    /// within a single output.
    pub num_reads: usize,
    /// Prefix from which the output names are derived.
    pub output_prefix: String,
    /// Whether progress and summary output should be suppressed.
    pub quiet: bool,
}

/// The positions at which the splitter starts a new output container.
///
/// Starting at `pos` with `acc` records already accumulated in the current
/// output: a cut falls right before the chunk at `pos` whenever the current
/// output is non-empty and its record count plus the chunk's would reach the
/// target; the chunk then opens the next output.  The very first chunk of an
/// output is always accepted whole, whatever its record count, so a single
/// oversized chunk can never loop.
pub open spec fn cut_points(s: Seq<u8>, pos: int, acc: int, target: int) -> Seq<int>
    decreases s.len() - pos,
{
    if !chunk_fits(s, pos) {
        Seq::empty()
    } else if acc > 0 && acc + chunk_recs(s, pos) >= target {
        seq![pos] + cut_points(s, next_chunk(s, pos), chunk_recs(s, pos), target)
    } else {
        cut_points(s, next_chunk(s, pos), acc + chunk_recs(s, pos), target)
    }
}

/// The chunk-stream offsets at which the outputs of a split begin and end:
/// the start of the stream, the cut points, the end of the stream.
pub open spec fn split_boundaries(s: Seq<u8>, target: int) -> Seq<int> {
    seq![0int] + cut_points(s, 0, 0, target) + seq![s.len() as int]
}

/// An output container of the splitter: the input's prelude with the chunk
/// count this output actually holds, the input's tag value block, and the
/// given run of chunks.
fn output_container(input: &Container, chunks: Vec<u8>, count: u64) -> (c: Container)
    ensures
        c.prelude.head@ == input.prelude.head@,
        c.prelude.tags@ == input.prelude.tags@,
        c.prelude.num_chunks == count,
        c.tag_values@ == input.tag_values@,
        c.chunks@ == chunks@,
{
    let head = copy_range(&input.prelude.head, 0, input.prelude.head.len());
    let tags = copy_range(&input.prelude.tags, 0, input.prelude.tags.len());
    let tag_values = copy_range(&input.tag_values, 0, input.tag_values.len());
    proof {
        assert(head@ =~= input.prelude.head@);
        assert(tags@ =~= input.prelude.tags@);
        assert(tag_values@ =~= input.tag_values@);
    }
    Container { prelude: Prelude { head, num_chunks: count, tags }, tag_values, chunks }
}

/// Streams the chunks of `input` into a sequence of output containers, cut
/// only between chunks.  Each output accumulates whole chunks until its
/// record count, together with the next chunk's, would reach
/// `opts.num_reads`; the next chunk then starts a new output.  Every output
/// begins with a copy of the input prelude (its chunk-count field set to the
/// number of chunks that output holds) and of the input tag value block.  The
/// final, possibly underfull output is kept unconditionally, so there is
/// always at least one output, even for a chunkless input.  A chunk whose
/// declared byte length cannot be satisfied by the remaining stream aborts
/// the whole operation with `TruncatedInput` and nothing is produced.
pub fn split(opts: &SplitOpts, input: &Container) -> (r: Result<Vec<Container>, RadError>)
    requires
        1 <= opts.num_reads,
        opts.num_reads as int <= u64::MAX - 2 * (u32::MAX as int),
    ensures
        (r matches Err(e)) <==> !valid_chunks_from(input.chunks@, 0),
        r matches Err(e) ==> e is TruncatedInput,
        r matches Ok(outs) ==> ({
            let bnds = split_boundaries(input.chunks@, opts.num_reads as int);
            &&& outs@.len() + 1 == bnds.len()
            &&& forall|i: int|
                0 <= i < outs@.len() ==> #[trigger] outs@[i].chunks@ == input.chunks@.subrange(
                    bnds[i],
                    bnds[i + 1],
                )
            &&& forall|i: int|
                0 <= i < outs@.len() ==> #[trigger] outs@[i].prelude.head@ == input.prelude.head@
                    && outs@[i].prelude.tags@ == input.prelude.tags@ && outs@[i].tag_values@
                    == input.tag_values@
            &&& forall|i: int|
                0 <= i < outs@.len() ==> valid_chunks_from(#[trigger] outs@[i].chunks@, 0)
            &&& forall|i: int|
                0 <= i < outs@.len() ==> #[trigger] outs@[i].prelude.num_chunks as int
                    == chunk_count_from(outs@[i].chunks@, 0)
            &&& concat_chunks_from(outs@, 0) == input.chunks@
        }),
{
    let ghost sv = input.chunks@;
    let ghost target_g = opts.num_reads as int;
    let target: u64 = opts.num_reads as u64;
    let mut outs: Vec<Container> = Vec::new();
    let mut cur: Vec<u8> = Vec::new();
    let mut cur_count: u64 = 0;
    let mut acc: u64 = 0;
    let mut pos: usize = 0;
    let ghost mut cuts_done: Seq<int> = Seq::empty();
    let ghost mut starts: Seq<int> = seq![0int];
    let ghost mut seg_start: int = 0;
    proof {
        assert(cut_points(sv, 0, 0, target_g) =~= cuts_done + cut_points(sv, 0, 0, target_g));
        assert(cur@ =~= sv.subrange(0, 0));
        assert(concat_chunks_from(outs@, 0) + cur@ =~= sv.subrange(0, 0));
    }
    while pos < input.chunks.len()
        invariant
            sv == input.chunks@,
            target as int == opts.num_reads as int,
            1 <= target as int <= u64::MAX - 2 * (u32::MAX as int),
            target_g == target as int,
            0 <= pos <= sv.len(),
            valid_chunks_from(sv, 0) <==> valid_chunks_from(sv, pos as int),
            0 <= seg_start <= pos,
            cur@ == sv.subrange(seg_start, pos as int),
            valid_chunks_from(cur@, 0),
            cur_count as int == chunk_count_from(cur@, 0),
            8 * cur_count as int <= cur@.len(),
            acc as int == record_total_from(cur@, 0),
            acc <= target - 1 + u32::MAX,
            acc > 0 ==> cur_count > 0,
            cut_points(sv, 0, 0, target_g) == cuts_done + cut_points(
                sv,
                pos as int,
                acc as int,
                target_g,
            ),
            starts == seq![0int] + cuts_done,
            starts.len() == outs@.len() + 1,
            starts[starts.len() - 1] == seg_start,
            forall|i: int|
                0 <= i < outs@.len() ==> #[trigger] outs@[i].chunks@ == sv.subrange(
                    starts[i],
                    starts[i + 1],
                ),
            forall|i: int|
                0 <= i < outs@.len() ==> #[trigger] outs@[i].prelude.head@ == input.prelude.head@
                    && outs@[i].prelude.tags@ == input.prelude.tags@ && outs@[i].tag_values@
                    == input.tag_values@,
            forall|i: int| 0 <= i < outs@.len() ==> valid_chunks_from(#[trigger] outs@[i].chunks@, 0),
            forall|i: int|
                0 <= i < outs@.len() ==> #[trigger] outs@[i].prelude.num_chunks as int
                    == chunk_count_from(outs@[i].chunks@, 0),
            concat_chunks_from(outs@, 0) + cur@ == sv.subrange(0, pos as int),
        decreases sv.len() - pos,
    {
        let h = match read_chunk_header(&input.chunks, pos) {
            Ok(h) => h,
            Err(_) => {
                assert(!chunk_fits(sv, pos as int));
                return Err(RadError::TruncatedInput);
            },
        };
        if h.nbytes < 8 || h.nbytes as usize > input.chunks.len() - pos {
            assert(!chunk_fits(sv, pos as int));
            return Err(RadError::TruncatedInput);
        }
        assert(chunk_fits(sv, pos as int));
        let num_new = h.nrec as u64;
        if acc > 0 && acc + num_new >= target {
            let finished = cur;
            cur = Vec::new();
            let out_c = output_container(input, finished, cur_count);
            proof {
                lemma_concat_chunks_snoc(outs@, out_c, 0);
            }
            outs.push(out_c);
            cur_count = 0;
            acc = 0;
            proof {
                cuts_done = cuts_done + seq![pos as int];
                starts = starts + seq![pos as int];
                seg_start = pos as int;
                assert(cut_points(sv, 0, 0, target_g) =~= cuts_done + cut_points(
                    sv,
                    pos as int,
                    0,
                    target_g,
                ));
                assert(starts =~= seq![0int] + cuts_done);
                assert(cur@ =~= sv.subrange(seg_start, pos as int));
                assert(concat_chunks_from(outs@, 0) + cur@ =~= sv.subrange(0, pos as int));
                assert(forall|i: int|
                    0 <= i < outs@.len() - 1 ==> outs@[i] == #[trigger] outs@.subrange(
                        0,
                        outs@.len() - 1,
                    )[i]);
            }
        }
        let chunk_end = pos + h.nbytes as usize;
        let ghost cur_before = cur@;
        append_range(&mut cur, &input.chunks, pos, chunk_end);
        proof {
            lemma_single_chunk_block(sv, pos as int);
            lemma_chunk_stream_concat(cur_before, sv.subrange(pos as int, chunk_end as int));
            assert(cur@ =~= sv.subrange(seg_start, chunk_end as int));
            assert(concat_chunks_from(outs@, 0) + cur@ =~= (concat_chunks_from(outs@, 0)
                + cur_before) + sv.subrange(pos as int, chunk_end as int));
            assert((concat_chunks_from(outs@, 0) + cur_before) + sv.subrange(
                pos as int,
                chunk_end as int,
            ) =~= sv.subrange(0, chunk_end as int));
            assert(concat_chunks_from(outs@, 0) + cur@ =~= sv.subrange(0, chunk_end as int));
        }
        cur_count = cur_count + 1;
        acc = acc + num_new;
        pos = chunk_end;
    }
    assert(pos == sv.len());
    assert(valid_chunks_from(sv, pos as int));
    let out_c = output_container(input, cur, cur_count);
    proof {
        lemma_concat_chunks_snoc(outs@, out_c, 0);
    }
    outs.push(out_c);
    proof {
        let bnds = split_boundaries(sv, target_g);
        assert(cut_points(sv, pos as int, acc as int, target_g) =~= Seq::<int>::empty());
        assert(cut_points(sv, 0, 0, target_g) =~= cuts_done);
        assert(bnds =~= starts + seq![sv.len() as int]);
        assert(concat_chunks_from(outs@, 0) =~= sv);
        let n_out = outs@.len() as int;
        assert(outs@[n_out - 1].chunks@ == sv.subrange(bnds[n_out - 1], bnds[n_out]));
        assert(forall|i: int|
            0 <= i < outs@.len() - 1 ==> outs@[i] == #[trigger] outs@.subrange(
                0,
                outs@.len() - 1,
            )[i]);
        assert(forall|i: int|
            0 <= i < outs@.len() ==> #[trigger] outs@[i].chunks@ == sv.subrange(
                bnds[i],
                bnds[i + 1],
            ));
    }
    Ok(outs)
}

} // verus!
