//! The container codec, an external collaborator: decoding of the prelude
//! (header plus the three tag-section schemas) and of the file-level tag
//! value block is delegated to `libradicl`.  Everything here reports byte
//! extents within the input, so that the callers can carry the decoded
//! regions verbatim; the chunk stream that follows them is handled by this
//! crate's own verified code.
//!
//! The codec trusts type-id bytes and declared array lengths, so each
//! wrapper requires the verified scan of [`crate::tags`] to have accepted
//! its region first: on such inputs the codec either decodes or returns an
//! error, and never stops ungracefully.

use vstd::prelude::*;

verus! {

use crate::err::RadError;
use crate::tags::file_values_end;
use crate::tags::section_end;
use vstd::bytes::spec_u64_from_le_bytes;

/// What `RadHeader::from_bytes` decodes from the front of `data`: the chunk
/// count, the spec major version and the byte length of the header region;
/// `None` when it refuses the bytes.  The verdict depends on the bytes
/// alone.
pub uninterp spec fn header_parse(data: Seq<u8>) -> Option<(u64, u8, int)>;

/// What `TagSection::from_bytes` decodes at `start`: the position just past
/// the tag section; `None` when it refuses the bytes (a name that is not
/// UTF-8, a malformed role block, or bytes that run out).  The verdict
/// depends on the arguments alone.
pub uninterp spec fn tag_section_parse(data: Seq<u8>, start: int, spec_major: u8) -> Option<int>;

/// Relies on libradicl's `RadHeader::from_bytes` to decode the container
/// header at the start of `data`: the optional magic and version prefix, the
/// pairing flag, the reference count, the reference names and, as the last
/// eight bytes of the header region, the chunk count as a little-endian
/// 64-bit integer.  Returns the chunk count, the spec major version and the
/// byte length of the header region.
#[verifier::external_body]
pub(crate) fn decode_header(data: &Vec<u8>) -> (r: Result<(u64, u8, usize), RadError>)
    ensures
        r matches Ok(t) ==> header_parse(data@) == Some((t.0, t.1, t.2 as int)) && 17 <= t.2
            <= data@.len() && t.0 == spec_u64_from_le_bytes(data@.subrange(t.2 - 8, t.2 as int)),
        r matches Err(e) ==> header_parse(data@) is None && e is InvalidPrelude,
{
    let mut cur = std::io::Cursor::new(data.as_slice());
    match libradicl::header::RadHeader::from_bytes(&mut cur) {
        Ok(h) => Ok((h.num_chunks, h.version.major(), cur.position() as usize)),
        Err(_) => Err(RadError::InvalidPrelude),
    }
}

/// Relies on libradicl's `TagSection::from_bytes` to decode one tag-section
/// schema starting at `start`, returning the position just past it.  The
/// scan of the same region must have been accepted first: the codec then
/// consumes exactly the scanned extent when it succeeds, and its only
/// refusals are a tag name that is not valid UTF-8 or a role block it deems
/// malformed.  (Roles are read only in versioned files, spec major 2 and
/// up, which is what the scan's `versioned` flag mirrors.)
#[verifier::external_body]
pub(crate) fn read_tag_section(data: &Vec<u8>, start: usize, spec_major: u8) -> (r: Result<
    usize,
    RadError,
>)
    requires
        start <= data@.len(),
        section_end(data@, start as int, spec_major >= 2) is Some,
    ensures
        r matches Ok(end) ==> tag_section_parse(data@, start as int, spec_major) == Some(
            end as int,
        ) && Some(end as int) == section_end(data@, start as int, spec_major >= 2),
        r matches Err(e) ==> tag_section_parse(data@, start as int, spec_major) is None && (e
            is InvalidPrelude),
{
    let mut cur = std::io::Cursor::new(data.as_slice());
    cur.set_position(start as u64);
    match libradicl::rad_types::TagSection::from_bytes(&mut cur, spec_major) {
        Ok(_) => Ok(cur.position() as usize),
        Err(_) => Err(RadError::InvalidPrelude),
    }
}

/// Relies on libradicl's `TagSection::from_bytes` to reconstruct the
/// file-level tag schema at `sec_start` and on its
/// `TagSection::try_parse_tags_from_bytes` to read one value per descriptor
/// from `values_start` on, returning the position just past the value block,
/// which is where the chunk stream begins.  The verified scans of both
/// regions must have been accepted first: every declared value then lies
/// wholly within `data`, the value reader consumes exactly the scanned
/// extent and refuses nothing, so the only failure left is the schema
/// re-parse itself.
#[verifier::external_body]
pub(crate) fn file_tag_values_end(
    data: &Vec<u8>,
    sec_start: usize,
    values_start: usize,
    spec_major: u8,
) -> (r: Result<usize, RadError>)
    requires
        sec_start <= data@.len(),
        values_start <= data@.len(),
        section_end(data@, sec_start as int, spec_major >= 2) is Some,
        file_values_end(data@, sec_start as int, values_start as int, spec_major >= 2) is Some,
    ensures
        r matches Ok(end) ==> Some(end as int) == file_values_end(
            data@,
            sec_start as int,
            values_start as int,
            spec_major >= 2,
        ),
        r matches Err(e) ==> tag_section_parse(data@, sec_start as int, spec_major) is None && (e
            is InvalidPrelude),
{
    let mut cur = std::io::Cursor::new(data.as_slice());
    cur.set_position(sec_start as u64);
    let section = match libradicl::rad_types::TagSection::from_bytes(&mut cur, spec_major) {
        Ok(ts) => ts,
        Err(_) => {
            return Err(RadError::InvalidPrelude);
        },
    };
    cur.set_position(values_start as u64);
    match section.try_parse_tags_from_bytes(&mut cur) {
        Ok(_) => Ok(cur.position() as usize),
        Err(_) => Err(RadError::InvalidPrelude),
    }
}

} // verus!
