use vstd::prelude::*;

verus! {

use crate::buf::append_range;
use crate::buf::bytes_eq;
use vstd::bytes::spec_u64_to_le_bytes;
use vstd::bytes::u64_to_le_bytes;

/// A decoded prelude: everything in a container before the first chunk byte,
/// except the file-level tag value block.
///
/// Only the chunk count is decoded into a field of its own, because it is the
/// one field the operations rewrite; the rest of the header and the three
/// tag-section schemas are carried verbatim as the encoded byte regions the
/// codec delimited, so that re-emission is byte-exact.
pub struct Prelude {
    /// The encoded header bytes up to, but not including, the chunk-count
    /// field: the optional magic and version prefix, the pairing flag, the
    /// reference count and the reference names, exactly as in the file.
    pub head: Vec<u8>,
    /// The declared number of chunks in the container.
    pub num_chunks: u64,
    /// The three encoded tag-section schemas (file-, read- and
    /// alignment-level), exactly as in the file.
    pub tags: Vec<u8>,
}

impl Prelude {
    /// The on-disk bytes of this prelude: the header bytes, the chunk count
    /// as a little-endian 64-bit integer, then the tag sections.
    pub open spec fn bytes(self) -> Seq<u8> {
        self.head@ + spec_u64_to_le_bytes(self.num_chunks) + self.tags@
    }

    /// The header region holds at least the pairing flag and the reference
    /// count that precede the reference names.
    pub open spec fn wf(self) -> bool {
        self.head@.len() >= 9
    }

    /// Structural compatibility: the encoded header region (chunk count
    /// excluded) and the encoded tag sections are equal byte for byte; the
    /// chunk count is deliberately left out, since the operations recompute
    /// it.  The encoding is length-prefixed and free of redundancy, so for
    /// the decoded fields this comparison coincides with field-by-field
    /// equality, with one stricter edge: a versioned prelude's extension
    /// block sits in the compared head bytes although decoding discards it,
    /// so two preludes that differ only there are judged incompatible.  The
    /// comparison is never more permissive than field equality.
    pub open spec fn compatible_spec(self, other: Prelude) -> bool {
        self.head@ == other.head@ && self.tags@ == other.tags@
    }

    /// The compatibility verdict for two preludes: safe to concatenate when
    /// everything but the chunk count is structurally identical.
    pub fn compatible(&self, other: &Prelude) -> (r: bool)
        ensures
            r == self.compatible_spec(*other),
    {
        bytes_eq(&self.head, &other.head) && bytes_eq(&self.tags, &other.tags)
    }

    /// Appends the encoded prelude to `out`.
    pub fn encode_onto(&self, out: &mut Vec<u8>)
        ensures
            final(out)@ == old(out)@ + self.bytes(),
    {
        append_range(out, &self.head, 0, self.head.len());
        let count_bytes = u64_to_le_bytes(self.num_chunks);
        append_range(out, &count_bytes, 0, count_bytes.len());
        append_range(out, &self.tags, 0, self.tags.len());
        proof {
            assert(self.head@.subrange(0, self.head@.len() as int) =~= self.head@);
            assert(count_bytes@.subrange(0, count_bytes@.len() as int) =~= count_bytes@);
            assert(self.tags@.subrange(0, self.tags@.len() as int) =~= self.tags@);
            assert(out@ =~= old(out)@ + self.bytes());
        }
    }
}

/// Compatibility is chunk-count-invariant: two preludes that differ only in
/// their declared chunk count are always compatible.
pub proof fn lemma_compatibility_ignores_chunk_count(p: Prelude, n: u64)
    ensures
        p.compatible_spec(Prelude { head: p.head, num_chunks: n, tags: p.tags }),
{
}

} // verus!
