use vstd::prelude::*;

verus! {

use crate::buf::append_range;
use crate::buf::copy_range;
use crate::chunk::chunk_count_from;
use crate::chunk::lemma_chunk_stream_concat;
use crate::chunk::record_total_from;
use crate::chunk::valid_chunks_from;
use crate::container::Container;
use crate::err::RadError;
use crate::prelude::Prelude;

/// Options of the concatenation operation.
pub struct CatOpts {
    /// Names of the input containers, in the order their chunks are merged.
    pub inputs: Vec<String>,
    /// Name of the output container.
    pub output: String,
}

/// How the record chunks were copied: the whole chunk stream of each input,
/// in input order.
pub struct CatOutput {
    /// The merged container.
    pub container: Container,
    /// Bytes of record chunks copied from each input, in input order.
    pub bytes_copied: Vec<usize>,
}

/// What concatenation did: the two degenerate cases are reported rather than
/// treated as errors, so a caller can warn and exit cleanly.
pub enum CatOutcome {
    /// The input list was empty; there was nothing to do.
    Empty,
    /// The input list held a single container; merging it makes no sense.
    Single,
    /// At least two compatible containers were merged.
    Merged(CatOutput),
}

/// Concatenation of the chunk streams of `inputs[i..]`, in input order.
pub open spec fn concat_chunks_from(inputs: Seq<Container>, i: int) -> Seq<u8>
    decreases inputs.len() - i,
{
    if 0 <= i < inputs.len() {
        inputs[i].chunks@ + concat_chunks_from(inputs, i + 1)
    } else {
        Seq::empty()
    }
}

/// Sum of the declared chunk counts of `inputs[i..]`.
pub open spec fn declared_chunk_total(inputs: Seq<Container>, i: int) -> int
    decreases inputs.len() - i,
{
    if 0 <= i < inputs.len() {
        inputs[i].prelude.num_chunks + declared_chunk_total(inputs, i + 1)
    } else {
        0
    }
}

/// Sum of the record totals of the chunk streams of `inputs[i..]`.
pub open spec fn record_volume(inputs: Seq<Container>, i: int) -> int
    decreases inputs.len() - i,
{
    if 0 <= i < inputs.len() {
        record_total_from(inputs[i].chunks@, 0) + record_volume(inputs, i + 1)
    } else {
        0
    }
}

/// Sum of the actual chunk counts of the chunk streams of `inputs[i..]`.
pub open spec fn actual_chunk_total(inputs: Seq<Container>, i: int) -> int
    decreases inputs.len() - i,
{
    if 0 <= i < inputs.len() {
        chunk_count_from(inputs[i].chunks@, 0) + actual_chunk_total(inputs, i + 1)
    } else {
        0
    }
}

/// The prelude of every input after the first is compatible with the first's.
pub open spec fn all_compatible(inputs: Seq<Container>) -> bool {
    forall|k: int|
        1 <= k < inputs.len() ==> #[trigger] inputs[0].prelude.compatible_spec(inputs[k].prelude)
}

/// The preludes of `inputs[1..j]` are all compatible with the first's.
pub open spec fn compatible_upto(inputs: Seq<Container>, j: int) -> bool {
    forall|k: int| 1 <= k < j ==> #[trigger] inputs[0].prelude.compatible_spec(inputs[k].prelude)
}

/// Appending one more container to the list appends its chunk stream to the
/// concatenation.
pub(crate) proof fn lemma_concat_chunks_snoc(inputs: Seq<Container>, c: Container, i: int)
    requires
        0 <= i <= inputs.len(),
    ensures
        concat_chunks_from(inputs.push(c), i) == concat_chunks_from(inputs, i) + c.chunks@,
    decreases inputs.len() - i,
{
    if i == inputs.len() {
        assert(inputs.push(c)[i] == c);
        assert(concat_chunks_from(inputs, i) == Seq::<u8>::empty());
        assert(concat_chunks_from(inputs.push(c), i + 1) == Seq::<u8>::empty());
        assert(concat_chunks_from(inputs.push(c), i) == c.chunks@ + concat_chunks_from(
            inputs.push(c),
            i + 1,
        ));
        assert(concat_chunks_from(inputs.push(c), i) =~= concat_chunks_from(inputs, i)
            + c.chunks@);
    } else {
        lemma_concat_chunks_snoc(inputs, c, i + 1);
        assert(inputs.push(c)[i] == inputs[i]);
        assert(concat_chunks_from(inputs.push(c), i) == inputs[i].chunks@ + concat_chunks_from(
            inputs.push(c),
            i + 1,
        ));
        assert(concat_chunks_from(inputs.push(c), i) =~= concat_chunks_from(inputs, i)
            + c.chunks@);
    }
}

proof fn lemma_declared_total_nonneg(inputs: Seq<Container>, i: int)
    ensures
        declared_chunk_total(inputs, i) >= 0,
    decreases inputs.len() - i,
{
    if 0 <= i < inputs.len() {
        lemma_declared_total_nonneg(inputs, i + 1);
    }
}

/// Merges containers with identical preludes into one.  The output prelude is
/// the first input's with its chunk-count field overwritten by the sum of the
/// declared chunk counts; the output tag value block is the first input's;
/// the output chunk stream is the byte-for-byte concatenation of the inputs'
/// chunk streams, in input order.  Any prelude mismatch aborts the whole
/// operation, naming the offending pair of inputs, and nothing is produced.
/// Input lists of zero or one container are reported as degenerate, not as
/// errors.
pub fn concatenate(opts: &CatOpts, inputs: &Vec<Container>) -> (r: Result<CatOutcome, RadError>)
    requires
        opts.inputs@.len() == inputs@.len(),
        declared_chunk_total(inputs@, 0) <= u64::MAX,
    ensures
        inputs@.len() == 0 ==> (r matches Ok(o) && o is Empty),
        inputs@.len() == 1 ==> (r matches Ok(o) && o is Single),
        inputs@.len() >= 2 ==> ((r matches Err(e)) <==> !all_compatible(inputs@)),
        r matches Ok(o) ==> (o is Merged <==> inputs@.len() >= 2),
        r matches Ok(CatOutcome::Merged(out)) ==> out.container.prelude.head@
            == inputs@[0].prelude.head@ && out.container.prelude.tags@ == inputs@[0].prelude.tags@
            && out.container.prelude.num_chunks as int == declared_chunk_total(inputs@, 0)
            && out.container.tag_values@ == inputs@[0].tag_values@ && out.container.chunks@
            == concat_chunks_from(inputs@, 0) && out.bytes_copied@.len() == inputs@.len() && (forall|
            i: int,
        |
            0 <= i < inputs@.len() ==> #[trigger] out.bytes_copied@[i] as int
                == inputs@[i].chunks@.len()),
        r matches Err(e) ==> inputs@.len() >= 2 && (e matches RadError::IncompatibleContainers {
            first,
            other,
        } && first@ == opts.inputs@[0]@ && (exists|j: int|
            1 <= j < inputs@.len() && !(#[trigger] inputs@[0].prelude.compatible_spec(
                inputs@[j].prelude,
            )) && compatible_upto(inputs@, j) && other@ == opts.inputs@[j]@)),
{
    if inputs.len() == 0 {
        return Ok(CatOutcome::Empty);
    }
    if inputs.len() == 1 {
        return Ok(CatOutcome::Single);
    }
    let first = &inputs[0];
    let ghost all = inputs@;
    let mut total: u64 = first.prelude.num_chunks;
    proof {
        lemma_declared_total_nonneg(all, 1);
    }
    let mut i: usize = 1;
    while i < inputs.len()
        invariant
            1 <= i <= all.len(),
            all == inputs@,
            2 <= all.len(),
            opts.inputs@.len() == all.len(),
            first == &inputs[0],
            declared_chunk_total(all, 0) <= u64::MAX,
            total as int + declared_chunk_total(all, i as int) == declared_chunk_total(all, 0),
            compatible_upto(all, i as int),
        decreases all.len() - i,
    {
        if first.prelude.compatible(&inputs[i].prelude) {
            proof {
                lemma_declared_total_nonneg(all, i + 1);
            }
            total = total + inputs[i].prelude.num_chunks;
        } else {
            let e = RadError::IncompatibleContainers {
                first: opts.inputs[0].clone(),
                other: opts.inputs[i].clone(),
            };
            proof {
                let j = i as int;
                assert(1 <= j < all.len() && !all[0].prelude.compatible_spec(all[j].prelude)
                    && compatible_upto(all, j));
            }
            return Err(e);
        }
        i += 1;
    }
    let mut chunks: Vec<u8> = Vec::new();
    let mut bytes_copied: Vec<usize> = Vec::new();
    let mut k: usize = 0;
    while k < inputs.len()
        invariant
            0 <= k <= all.len(),
            all == inputs@,
            chunks@ + concat_chunks_from(all, k as int) == concat_chunks_from(all, 0),
            bytes_copied@.len() == k,
            forall|t: int|
                0 <= t < k ==> #[trigger] bytes_copied@[t] as int == all[t].chunks@.len(),
        decreases all.len() - k,
    {
        let n = inputs[k].chunks.len();
        append_range(&mut chunks, &inputs[k].chunks, 0, n);
        bytes_copied.push(n);
        proof {
            assert(all[k as int].chunks@.subrange(0, n as int) =~= all[k as int].chunks@);
            assert(chunks@ + concat_chunks_from(all, k + 1) =~= concat_chunks_from(all, 0));
        }
        k += 1;
    }
    proof {
        assert(chunks@ + concat_chunks_from(all, all.len() as int) =~= chunks@);
    }
    let head = copy_range(&first.prelude.head, 0, first.prelude.head.len());
    let tags = copy_range(&first.prelude.tags, 0, first.prelude.tags.len());
    let tag_values = copy_range(&first.tag_values, 0, first.tag_values.len());
    proof {
        assert(head@ =~= all[0].prelude.head@);
        assert(tags@ =~= all[0].prelude.tags@);
        assert(tag_values@ =~= all[0].tag_values@);
    }
    let prelude = Prelude { head, num_chunks: total, tags };
    let container = Container { prelude, tag_values, chunks };
    Ok(CatOutcome::Merged(CatOutput { container, bytes_copied }))
}

/// Concatenation rejects mismatched inputs: one input whose prelude is
/// incompatible with the first's falsifies `all_compatible`, so by
/// `concatenate`'s contract the call returns the incompatibility error and
/// no merged container exists.  A caller that creates or writes the output
/// only on success therefore leaves the output path untouched.
pub proof fn lemma_concatenation_rejects_mismatched(inputs: Seq<Container>, j: int)
    requires
        2 <= inputs.len(),
        1 <= j < inputs.len(),
        !inputs[0].prelude.compatible_spec(inputs[j].prelude),
    ensures
        !all_compatible(inputs),
{
}

/// Concatenation preserves total record volume: when every input's chunk
/// stream is a valid sequence of whole chunks, the record total of the
/// concatenated stream equals the sum of the inputs' record totals, and the
/// number of chunks in the concatenated stream equals the sum of the inputs'
/// actual chunk counts.
pub proof fn lemma_concatenation_preserves_record_volume(inputs: Seq<Container>)
    requires
        forall|k: int| 0 <= k < inputs.len() ==> valid_chunks_from(#[trigger] inputs[k].chunks@, 0),
    ensures
        valid_chunks_from(concat_chunks_from(inputs, 0), 0),
        record_total_from(concat_chunks_from(inputs, 0), 0) == record_volume(inputs, 0),
        chunk_count_from(concat_chunks_from(inputs, 0), 0) == actual_chunk_total(inputs, 0),
{
    lemma_concat_volume_from(inputs, 0);
}

proof fn lemma_concat_volume_from(inputs: Seq<Container>, i: int)
    requires
        0 <= i <= inputs.len(),
        forall|k: int| 0 <= k < inputs.len() ==> valid_chunks_from(#[trigger] inputs[k].chunks@, 0),
    ensures
        valid_chunks_from(concat_chunks_from(inputs, i), 0),
        record_total_from(concat_chunks_from(inputs, i), 0) == record_volume(inputs, i),
        chunk_count_from(concat_chunks_from(inputs, i), 0) == actual_chunk_total(inputs, i),
    decreases inputs.len() - i,
{
    if i == inputs.len() {
        assert(valid_chunks_from(Seq::<u8>::empty(), 0));
        assert(chunk_count_from(Seq::<u8>::empty(), 0) == 0);
        assert(record_total_from(Seq::<u8>::empty(), 0) == 0);
    } else {
        lemma_concat_volume_from(inputs, i + 1);
        lemma_chunk_stream_concat(inputs[i].chunks@, concat_chunks_from(inputs, i + 1));
    }
}

} // verus!
