use vstd::prelude::*;

verus! {

use crate::buf::append_range;
use crate::buf::copy_range;
use crate::codec::decode_header;
use crate::codec::file_tag_values_end;
use crate::codec::header_parse;
use crate::codec::read_tag_section;
use crate::codec::tag_section_parse;
use crate::err::RadError;
use crate::prelude::Prelude;
use crate::tags::file_values_end;
use crate::tags::scan_file_values;
use crate::tags::scan_section;
use crate::tags::section_end;
use vstd::bytes::lemma_auto_spec_u64_to_from_le_bytes;

/// A container held in memory: the decoded prelude, the file-level tag value
/// block (carried verbatim), and the chunk stream (carried verbatim).
pub struct Container {
    /// The decoded prelude.
    pub prelude: Prelude,
    /// The file-level tag value block, exactly as in the file: one concrete
    /// value per file-tag descriptor, present once per container.
    pub tag_values: Vec<u8>,
    /// Every byte after the tag value block: the ordered chunk stream.
    pub chunks: Vec<u8>,
}

/// Whether `data` decodes as a container: the codec accepts the header, the
/// verified scan and the codec both accept the three tag-section schemas
/// that follow it, and every file-level tag value lies wholly within the
/// bytes after them.
pub open spec fn container_decodes(data: Seq<u8>) -> bool {
    match header_parse(data) {
        Some(t) => {
            let m = t.1;
            let v = m >= 2;
            let hl = t.2;
            match section_end(data, hl, v) {
                Some(s1) => match section_end(data, s1, v) {
                    Some(s2) => match section_end(data, s2, v) {
                        Some(s3) => {
                            &&& file_values_end(data, hl, s3, v) is Some
                            &&& tag_section_parse(data, hl, m) is Some
                            &&& tag_section_parse(data, s1, m) is Some
                            &&& tag_section_parse(data, s2, m) is Some
                        },
                        None => false,
                    },
                    None => false,
                },
                None => false,
            }
        },
        None => false,
    }
}

/// Where the three tag-section schemas of a decodable container end (and its
/// file-level tag values begin).
pub open spec fn decoded_tags_end(data: Seq<u8>) -> int
    recommends
        container_decodes(data),
{
    let t = header_parse(data)->Some_0;
    let v = t.1 >= 2;
    let s1 = section_end(data, t.2, v)->Some_0;
    let s2 = section_end(data, s1, v)->Some_0;
    section_end(data, s2, v)->Some_0
}

/// Where the file-level tag value block of a decodable container ends (and
/// its chunk stream begins).
pub open spec fn decoded_values_end(data: Seq<u8>) -> int
    recommends
        container_decodes(data),
{
    let t = header_parse(data)->Some_0;
    file_values_end(data, t.2, decoded_tags_end(data), t.1 >= 2)->Some_0
}

impl Container {
    /// The on-disk bytes of this container.
    pub open spec fn bytes(self) -> Seq<u8> {
        self.prelude.bytes() + self.tag_values@ + self.chunks@
    }

    /// See [`Prelude::wf`].
    pub open spec fn wf(self) -> bool {
        self.prelude.wf()
    }

    /// Decodes a container from its on-disk bytes.  Succeeds exactly when
    /// the bytes decode as a container; the prelude and the tag value block
    /// are delimited by the codec, and the returned parts tile the input
    /// exactly, so re-encoding reproduces `data` byte for byte.
    pub fn from_bytes(data: &Vec<u8>) -> (r: Result<Container, RadError>)
        ensures
            (r is Ok) <==> container_decodes(data@),
            r matches Ok(c) ==> ({
                &&& c.bytes() == data@
                &&& c.wf()
                &&& header_parse(data@) matches Some(t) && c.prelude.num_chunks == t.0
                    && c.prelude.head@ == data@.subrange(0, t.2 - 8) && c.prelude.tags@
                    == data@.subrange(t.2, decoded_tags_end(data@))
                &&& c.tag_values@ == data@.subrange(
                    decoded_tags_end(data@),
                    decoded_values_end(data@),
                )
                &&& c.chunks@ == data@.subrange(decoded_values_end(data@), data@.len() as int)
            }),
            r matches Err(e) ==> (e is InvalidPrelude),
    {
        let (num_chunks, major, hdr_end) = match decode_header(data) {
            Ok(t) => t,
            Err(_) => {
                return Err(RadError::InvalidPrelude);
            },
        };
        let versioned = major >= 2;
        let s1 = match scan_section(data, hdr_end, versioned) {
            Some(e) => e,
            None => {
                return Err(RadError::InvalidPrelude);
            },
        };
        let s2 = match scan_section(data, s1, versioned) {
            Some(e) => e,
            None => {
                return Err(RadError::InvalidPrelude);
            },
        };
        let s3 = match scan_section(data, s2, versioned) {
            Some(e) => e,
            None => {
                return Err(RadError::InvalidPrelude);
            },
        };
        let values_end_scanned = match scan_file_values(data, hdr_end, s3, versioned) {
            Some(e) => e,
            None => {
                return Err(RadError::InvalidPrelude);
            },
        };
        let e1 = match read_tag_section(data, hdr_end, major) {
            Ok(e) => e,
            Err(_) => {
                return Err(RadError::InvalidPrelude);
            },
        };
        let e2 = match read_tag_section(data, s1, major) {
            Ok(e) => e,
            Err(_) => {
                return Err(RadError::InvalidPrelude);
            },
        };
        let e3 = match read_tag_section(data, s2, major) {
            Ok(e) => e,
            Err(_) => {
                return Err(RadError::InvalidPrelude);
            },
        };
        let chunks_start = match file_tag_values_end(data, hdr_end, s3, major) {
            Ok(e) => e,
            Err(_) => {
                return Err(RadError::InvalidPrelude);
            },
        };
        proof {
            assert(e1 == s1 && e2 == s2 && e3 == s3);
            assert(chunks_start == values_end_scanned);
            assert(container_decodes(data@));
            assert(decoded_tags_end(data@) == s3 as int);
            assert(decoded_values_end(data@) == chunks_start as int);
        }
        let head = copy_range(data, 0, hdr_end - 8);
        let tags = copy_range(data, hdr_end, s3);
        let tag_values = copy_range(data, s3, chunks_start);
        let chunks = copy_range(data, chunks_start, data.len());
        let c = Container { prelude: Prelude { head, num_chunks, tags }, tag_values, chunks };
        proof {
            lemma_auto_spec_u64_to_from_le_bytes();
            assert(data@.subrange(hdr_end - 8, hdr_end as int).len() == 8);
            assert(c.bytes() =~= data@);
        }
        Ok(c)
    }

    /// Encodes the container back to its on-disk bytes: the prelude, the tag
    /// value block, then the chunk stream.
    pub fn to_bytes(&self) -> (out: Vec<u8>)
        ensures
            out@ == self.bytes(),
    {
        let mut out: Vec<u8> = Vec::new();
        self.prelude.encode_onto(&mut out);
        append_range(&mut out, &self.tag_values, 0, self.tag_values.len());
        append_range(&mut out, &self.chunks, 0, self.chunks.len());
        proof {
            assert(self.tag_values@.subrange(0, self.tag_values@.len() as int)
                =~= self.tag_values@);
            assert(self.chunks@.subrange(0, self.chunks@.len() as int) =~= self.chunks@);
            assert(out@ =~= self.bytes());
        }
        out
    }
}

} // verus!
