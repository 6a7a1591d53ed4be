use libradicl::header::{RadHeader, RadPrelude, SpecVersion};
use libradicl::rad_types::{RadIntId, RadType, TagDesc, TagSection, TagSectionLabel};

use radsurgery::cat::{concatenate, CatOpts, CatOutcome};
use radsurgery::chunk::read_chunk_header;
use radsurgery::container::Container;
use radsurgery::err::RadError;
use radsurgery::split::{split, SplitOpts};

/// Encodes a legacy prelude with the given header fields; when
/// `with_cblen_tag` is set, the file-level tag section declares one `u64`
/// tag, so a tag value block of eight bytes must follow the prelude.
fn prelude_bytes(
    is_paired: u8,
    ref_names: &[&str],
    num_chunks: u64,
    with_cblen_tag: bool,
) -> Vec<u8> {
    let hdr = RadHeader {
        version: SpecVersion::Legacy,
        is_paired,
        ref_count: ref_names.len() as u64,
        ref_names: ref_names.iter().map(|s| s.to_string()).collect(),
        num_chunks,
    };
    let mut file_tags = TagSection::new_with_label(TagSectionLabel::FileTags);
    if with_cblen_tag {
        file_tags.add_tag_desc(TagDesc::new("cblen", RadType::Int(RadIntId::U64)));
    }
    let read_tags = TagSection::new_with_label(TagSectionLabel::ReadTags);
    let aln_tags = TagSection::new_with_label(TagSectionLabel::AlignmentTags);
    let prelude = RadPrelude::from_header_and_tag_sections(hdr, file_tags, read_tags, aln_tags);
    let mut buf: Vec<u8> = Vec::new();
    prelude.write(&mut buf).expect("prelude must encode");
    buf
}

/// One encoded chunk: byte length (header included) and record count as
/// little-endian u32, then the payload.
fn chunk_bytes(nrec: u32, payload: &[u8]) -> Vec<u8> {
    let nbytes = (8 + payload.len()) as u32;
    let mut v: Vec<u8> = Vec::new();
    v.extend_from_slice(&nbytes.to_le_bytes());
    v.extend_from_slice(&nrec.to_le_bytes());
    v.extend_from_slice(payload);
    v
}

/// A whole container: prelude, tag value block, chunks.
fn container_bytes(prelude: &[u8], tag_values: &[u8], chunks: &[Vec<u8>]) -> Vec<u8> {
    let mut v: Vec<u8> = Vec::new();
    v.extend_from_slice(prelude);
    v.extend_from_slice(tag_values);
    for c in chunks {
        v.extend_from_slice(c);
    }
    v
}

/// Record counts of the chunks of a stream, read through the library's own
/// chunk-header reader; panics if the stream is not a whole number of chunks.
fn record_counts(chunks: &Vec<u8>) -> Vec<u32> {
    let mut counts: Vec<u32> = Vec::new();
    let mut pos: usize = 0;
    while pos < chunks.len() {
        let h = match read_chunk_header(chunks, pos) {
            Ok(h) => h,
            Err(_) => panic!("chunk header must be readable at {}", pos),
        };
        assert!(h.nbytes as usize >= 8);
        assert!(pos + h.nbytes as usize <= chunks.len());
        counts.push(h.nrec);
        pos += h.nbytes as usize;
    }
    counts
}

#[test]
fn decode_tiles_input_and_reencodes_byte_for_byte() {
    let pre = prelude_bytes(1, &["chr1", "chr2"], 2, true);
    let tag_values = 7u64.to_le_bytes().to_vec();
    let c1 = chunk_bytes(3, &[0xaa, 0xbb]);
    let c2 = chunk_bytes(4, &[0xcc]);
    let data = container_bytes(&pre, &tag_values, &[c1.clone(), c2.clone()]);
    let cont = Container::from_bytes(&data).expect("well-formed container must decode");
    assert_eq!(cont.prelude.num_chunks, 2);
    assert_eq!(cont.tag_values, tag_values);
    let mut chunk_stream = c1.clone();
    chunk_stream.extend_from_slice(&c2);
    assert_eq!(cont.chunks, chunk_stream);
    assert_eq!(cont.to_bytes(), data);
}

#[test]
fn versioned_prelude_round_trips() {
    // A versioned prelude carries a magic and version prefix and an
    // extension block in front of the header fields; the chunk count is
    // still the last eight bytes of the header region.
    let hdr = RadHeader {
        version: SpecVersion::Versioned { major: 2, minor: 0 },
        is_paired: 0,
        ref_count: 1,
        ref_names: vec!["only".to_string()],
        num_chunks: 1,
    };
    let mut file_tags = TagSection::new_with_label(TagSectionLabel::FileTags);
    file_tags.add_tag_desc(TagDesc::new("ulen", RadType::Int(RadIntId::U64)));
    let read_tags = TagSection::new_with_label(TagSectionLabel::ReadTags);
    let aln_tags = TagSection::new_with_label(TagSectionLabel::AlignmentTags);
    let prelude = RadPrelude::from_header_and_tag_sections(hdr, file_tags, read_tags, aln_tags);
    let mut pre: Vec<u8> = Vec::new();
    prelude.write(&mut pre).expect("prelude must encode");
    let tag_values = 12u64.to_le_bytes().to_vec();
    let c1 = chunk_bytes(6, &[1, 2, 3, 4]);
    let data = container_bytes(&pre, &tag_values, &[c1.clone()]);
    let cont = Container::from_bytes(&data).expect("a versioned container must decode");
    assert_eq!(cont.prelude.num_chunks, 1);
    assert_eq!(cont.tag_values, tag_values);
    assert_eq!(cont.chunks, c1);
    assert_eq!(cont.to_bytes(), data);
}

/// A minimal hand-written legacy header: pairing flag 0, no reference
/// names, the given chunk count.  Seventeen bytes.
fn raw_legacy_header(num_chunks: u64) -> Vec<u8> {
    let mut v: Vec<u8> = Vec::new();
    v.push(0);
    v.extend_from_slice(&0u64.to_le_bytes());
    v.extend_from_slice(&num_chunks.to_le_bytes());
    v
}

/// An empty tag section: descriptor count 0.
fn empty_section() -> Vec<u8> {
    vec![0, 0]
}

#[test]
fn unknown_array_subtype_is_rejected_cleanly() {
    // One file-level tag named "a" of the array type id 7 whose length-type
    // byte is 0, which names no integer type: the decode must come back as a
    // clean error.
    let mut data = raw_legacy_header(0);
    data.extend_from_slice(&[1, 0]); // one descriptor
    data.extend_from_slice(&[1, 0]); // name length 1
    data.push(b'a');
    data.push(7); // array type id
    data.push(0); // invalid length-type id
    data.push(1); // element type id: u8
    data.extend_from_slice(&empty_section());
    data.extend_from_slice(&empty_section());
    match Container::from_bytes(&data) {
        Err(RadError::InvalidPrelude) => {}
        _ => panic!("an unknown array subtype id must be refused"),
    }
}

#[test]
fn oversized_array_length_type_is_rejected_cleanly() {
    // A file-level array tag whose length type is the 128-bit id 9: the
    // codec's value reader cannot take such a length, so the decode must
    // come back as a clean error.
    let mut data = raw_legacy_header(0);
    data.extend_from_slice(&[1, 0]);
    data.extend_from_slice(&[1, 0]);
    data.push(b'a');
    data.push(7); // array type id
    data.push(9); // length-type id: u128
    data.push(1); // element type id: u8
    data.extend_from_slice(&empty_section());
    data.extend_from_slice(&empty_section());
    data.extend_from_slice(&[0; 16]); // a would-be length value
    match Container::from_bytes(&data) {
        Err(RadError::InvalidPrelude) => {}
        _ => panic!("a 128-bit array length type must be refused"),
    }
}

#[test]
fn huge_declared_string_array_is_rejected_cleanly() {
    // A file-level string-array tag declaring far more elements than the
    // file holds: the decode must come back as a clean error.
    let mut data = raw_legacy_header(0);
    data.extend_from_slice(&[1, 0]);
    data.extend_from_slice(&[1, 0]);
    data.push(b's');
    data.push(7); // array type id
    data.push(3); // length-type id: u32
    data.push(8); // element type id: string
    data.extend_from_slice(&empty_section());
    data.extend_from_slice(&empty_section());
    data.extend_from_slice(&u32::MAX.to_le_bytes()); // declared element count
    match Container::from_bytes(&data) {
        Err(RadError::InvalidPrelude) => {}
        _ => panic!("a declared array length beyond the file must be refused"),
    }
}

#[test]
fn truncated_tag_values_are_rejected_cleanly() {
    // A file-level u64 tag whose value region ends after three bytes: the
    // declared value does not fit, so the decode must come back as a clean
    // error.
    let mut data = raw_legacy_header(0);
    data.extend_from_slice(&[1, 0]);
    data.extend_from_slice(&[1, 0]);
    data.push(b'x');
    data.push(4); // type id: u64
    data.extend_from_slice(&empty_section());
    data.extend_from_slice(&empty_section());
    data.extend_from_slice(&[1, 2, 3]);
    match Container::from_bytes(&data) {
        Err(RadError::InvalidPrelude) => {}
        _ => panic!("a tag value running past the file must be refused"),
    }
}

#[test]
fn hand_written_header_decodes_like_the_codec_wrote_it() {
    // The same hand-written bytes, made well-formed: a u64 file tag with its
    // eight-byte value, then one chunk.
    let mut data = raw_legacy_header(1);
    data.extend_from_slice(&[1, 0]);
    data.extend_from_slice(&[1, 0]);
    data.push(b'x');
    data.push(4); // type id: u64
    data.extend_from_slice(&empty_section());
    data.extend_from_slice(&empty_section());
    data.extend_from_slice(&99u64.to_le_bytes());
    let c1 = chunk_bytes(2, &[5, 5]);
    data.extend_from_slice(&c1);
    let cont = Container::from_bytes(&data).expect("a well-formed container must decode");
    assert_eq!(cont.prelude.num_chunks, 1);
    assert_eq!(cont.tag_values, 99u64.to_le_bytes().to_vec());
    assert_eq!(cont.chunks, c1);
    assert_eq!(cont.to_bytes(), data);
}

#[test]
fn decode_refuses_garbage() {
    let data = vec![1u8, 2, 3];
    match Container::from_bytes(&data) {
        Err(RadError::InvalidPrelude) => {}
        _ => panic!("a three-byte input must be refused as an invalid prelude"),
    }
}

#[test]
fn chunk_header_reads_little_endian_fields() {
    let mut data = chunk_bytes(258, &[9, 9, 9]);
    data.extend_from_slice(&chunk_bytes(1, &[]));
    let h = read_chunk_header(&data, 0).expect("header must be readable");
    assert_eq!(h.nbytes, 11);
    assert_eq!(h.nrec, 258);
    let h2 = read_chunk_header(&data, 11).expect("second header must be readable");
    assert_eq!(h2.nbytes, 8);
    assert_eq!(h2.nrec, 1);
}

#[test]
fn chunk_header_truncated() {
    let data = vec![1u8, 0, 0, 0, 2, 0, 0];
    match read_chunk_header(&data, 0) {
        Err(RadError::TruncatedInput) => {}
        _ => panic!("seven bytes cannot hold a chunk header"),
    }
}

#[test]
fn compatibility_is_chunk_count_invariant() {
    let a = container_bytes(&prelude_bytes(0, &["r1", "r2"], 5, false), &[], &[]);
    let b = container_bytes(&prelude_bytes(0, &["r1", "r2"], 999, false), &[], &[]);
    let ca = Container::from_bytes(&a).unwrap();
    let cb = Container::from_bytes(&b).unwrap();
    assert!(ca.prelude.compatible(&cb.prelude));
    assert!(cb.prelude.compatible(&ca.prelude));
}

#[test]
fn different_reference_names_are_incompatible() {
    let a = container_bytes(&prelude_bytes(0, &["r1", "r2"], 1, false), &[], &[]);
    let b = container_bytes(&prelude_bytes(0, &["r1", "other"], 1, false), &[], &[]);
    let ca = Container::from_bytes(&a).unwrap();
    let cb = Container::from_bytes(&b).unwrap();
    assert!(!ca.prelude.compatible(&cb.prelude));
}

fn cat_opts(names: &[&str]) -> CatOpts {
    CatOpts {
        inputs: names.iter().map(|s| s.to_string()).collect(),
        output: "out.rad".to_string(),
    }
}

#[test]
fn concatenation_merges_counts_chunks_and_tag_values() {
    let tag_values = 42u64.to_le_bytes().to_vec();
    let c1 = chunk_bytes(3, &[1, 2, 3]);
    let c2 = chunk_bytes(4, &[4]);
    let c3 = chunk_bytes(5, &[5, 6]);
    let a = container_bytes(&prelude_bytes(1, &["x"], 2, true), &tag_values, &[c1.clone(), c2.clone()]);
    let b = container_bytes(&prelude_bytes(1, &["x"], 1, true), &tag_values, &[c3.clone()]);
    let ca = Container::from_bytes(&a).unwrap();
    let cb = Container::from_bytes(&b).unwrap();
    let len_a = ca.chunks.len();
    let len_b = cb.chunks.len();
    let out = match concatenate(&cat_opts(&["a.rad", "b.rad"]), &vec![ca, cb]) {
        Ok(CatOutcome::Merged(out)) => out,
        _ => panic!("compatible inputs must merge"),
    };
    // Declared chunk count of the output is the sum of the inputs' counts.
    assert_eq!(out.container.prelude.num_chunks, 3);
    // Chunk streams are concatenated byte for byte, in input order.
    let mut expected_chunks = c1.clone();
    expected_chunks.extend_from_slice(&c2);
    expected_chunks.extend_from_slice(&c3);
    assert_eq!(out.container.chunks, expected_chunks);
    assert_eq!(out.container.tag_values, tag_values);
    assert_eq!(out.bytes_copied, vec![len_a, len_b]);
    // The whole output file equals a container written with the summed count.
    let expected = container_bytes(
        &prelude_bytes(1, &["x"], 3, true),
        &tag_values,
        &[c1, c2, c3],
    );
    assert_eq!(out.container.to_bytes(), expected);
    // The real codec reads the summed count back from the output bytes.
    let reread = Container::from_bytes(&out.container.to_bytes()).unwrap();
    assert_eq!(reread.prelude.num_chunks, 3);
}

#[test]
fn concatenation_preserves_record_volume() {
    let c1 = chunk_bytes(10, &[0; 4]);
    let c2 = chunk_bytes(20, &[1; 9]);
    let c3 = chunk_bytes(30, &[2; 2]);
    let a = container_bytes(&prelude_bytes(0, &["x"], 2, false), &[], &[c1, c2]);
    let b = container_bytes(&prelude_bytes(0, &["x"], 1, false), &[], &[c3]);
    let ca = Container::from_bytes(&a).unwrap();
    let cb = Container::from_bytes(&b).unwrap();
    let vol_in: u64 = record_counts(&ca.chunks)
        .iter()
        .chain(record_counts(&cb.chunks).iter())
        .map(|&n| n as u64)
        .sum();
    let out = match concatenate(&cat_opts(&["a", "b"]), &vec![ca, cb]) {
        Ok(CatOutcome::Merged(out)) => out,
        _ => panic!("compatible inputs must merge"),
    };
    let vol_out: u64 = record_counts(&out.container.chunks).iter().map(|&n| n as u64).sum();
    assert_eq!(vol_out, vol_in);
    assert_eq!(vol_out, 60);
}

#[test]
fn concatenation_rejects_mismatched_inputs() {
    let a = container_bytes(&prelude_bytes(0, &["r1", "r2"], 1, false), &[], &[]);
    let b = container_bytes(&prelude_bytes(0, &["r1", "zz"], 1, false), &[], &[]);
    let ca = Container::from_bytes(&a).unwrap();
    let cb = Container::from_bytes(&b).unwrap();
    match concatenate(&cat_opts(&["first.rad", "second.rad"]), &vec![ca, cb]) {
        Err(RadError::IncompatibleContainers { first, other }) => {
            assert_eq!(first, "first.rad");
            assert_eq!(other, "second.rad");
        }
        _ => panic!("mismatched reference names must be rejected"),
    }
}

#[test]
fn concatenation_of_three_inputs_keeps_input_order() {
    let c1 = chunk_bytes(1, &[0x11]);
    let c2 = chunk_bytes(2, &[0x22, 0x22]);
    let c3 = chunk_bytes(3, &[0x33]);
    let mk = |chunks: &[Vec<u8>], declared: u64| {
        let data = container_bytes(&prelude_bytes(0, &["x"], declared, false), &[], chunks);
        Container::from_bytes(&data).unwrap()
    };
    let inputs = vec![
        mk(&[c3.clone()], 1),
        mk(&[c1.clone(), c2.clone()], 2),
        mk(&[], 0),
    ];
    let out = match concatenate(&cat_opts(&["p", "q", "r"]), &inputs) {
        Ok(CatOutcome::Merged(out)) => out,
        _ => panic!("compatible inputs must merge"),
    };
    // The third container holds no chunks but still participates in order.
    let mut expected = c3.clone();
    expected.extend_from_slice(&c1);
    expected.extend_from_slice(&c2);
    assert_eq!(out.container.chunks, expected);
    assert_eq!(out.container.prelude.num_chunks, 3);
    assert_eq!(out.bytes_copied, vec![c3.len(), c1.len() + c2.len(), 0]);
}

#[test]
fn concatenation_names_the_first_offending_input() {
    let good = container_bytes(&prelude_bytes(0, &["x"], 1, false), &[], &[]);
    let bad = container_bytes(&prelude_bytes(1, &["x"], 1, false), &[], &[]);
    let inputs = vec![
        Container::from_bytes(&good).unwrap(),
        Container::from_bytes(&good).unwrap(),
        Container::from_bytes(&bad).unwrap(),
    ];
    match concatenate(&cat_opts(&["a.rad", "b.rad", "c.rad"]), &inputs) {
        Err(RadError::IncompatibleContainers { first, other }) => {
            assert_eq!(first, "a.rad");
            assert_eq!(other, "c.rad");
        }
        _ => panic!("a mismatched pairing flag must be rejected"),
    }
}

#[test]
fn concatenation_degenerate_inputs_are_no_ops() {
    match concatenate(&cat_opts(&[]), &vec![]) {
        Ok(CatOutcome::Empty) => {}
        _ => panic!("an empty input list is reported, not an error"),
    }
    let a = container_bytes(&prelude_bytes(0, &["x"], 0, false), &[], &[]);
    let ca = Container::from_bytes(&a).unwrap();
    match concatenate(&cat_opts(&["only.rad"]), &vec![ca]) {
        Ok(CatOutcome::Single) => {}
        _ => panic!("a singleton input list is reported, not an error"),
    }
}

fn split_opts(num_reads: usize) -> SplitOpts {
    SplitOpts {
        input: "in.rad".to_string(),
        num_reads,
        output_prefix: "out".to_string(),
        quiet: true,
    }
}

#[test]
fn split_rollover_threshold() {
    // Chunks with record counts [5, 5, 5] and target 8: each chunk would push
    // the running count to 10 >= 8, so every chunk opens its own output.
    let c1 = chunk_bytes(5, &[1]);
    let c2 = chunk_bytes(5, &[2, 2]);
    let c3 = chunk_bytes(5, &[3, 3, 3]);
    let data = container_bytes(
        &prelude_bytes(0, &["x"], 3, false),
        &[],
        &[c1.clone(), c2.clone(), c3.clone()],
    );
    let cont = Container::from_bytes(&data).unwrap();
    let outs = split(&split_opts(8), &cont).expect("a whole-chunk stream must split");
    assert_eq!(outs.len(), 3);
    assert_eq!(outs[0].chunks, c1);
    assert_eq!(outs[1].chunks, c2);
    assert_eq!(outs[2].chunks, c3);
    for out in &outs {
        assert_eq!(out.prelude.num_chunks, 1);
        assert!(out.prelude.compatible(&cont.prelude));
        assert_eq!(out.tag_values, cont.tag_values);
    }
}

#[test]
fn split_single_oversized_chunk() {
    // One chunk with 1000 records and target 10: exactly one output holding
    // that chunk, no empty output and no infinite loop.
    let c1 = chunk_bytes(1000, &[7; 16]);
    let data = container_bytes(&prelude_bytes(0, &["x"], 1, false), &[], &[c1.clone()]);
    let cont = Container::from_bytes(&data).unwrap();
    let outs = split(&split_opts(10), &cont).expect("a whole-chunk stream must split");
    assert_eq!(outs.len(), 1);
    assert_eq!(outs[0].chunks, c1);
    assert_eq!(outs[0].prelude.num_chunks, 1);
}

#[test]
fn split_covers_all_input_exactly_once() {
    // Record counts [3, 3, 9, 1, 2] with target 6: each of the first three
    // chunks would push the running count past the target, so each rolls the
    // file over, and the final two accumulate; the outputs hold chunks
    // [3], [3], [9], [1, 2].  Concatenating the outputs' chunk streams in
    // order reproduces the input stream byte for byte, and no chunk is
    // fragmented across outputs.
    let chunks = vec![
        chunk_bytes(3, &[1, 1]),
        chunk_bytes(3, &[2]),
        chunk_bytes(9, &[3, 3, 3]),
        chunk_bytes(1, &[]),
        chunk_bytes(2, &[5; 5]),
    ];
    let data = container_bytes(&prelude_bytes(1, &["a", "b"], 5, false), &[], &chunks);
    let cont = Container::from_bytes(&data).unwrap();
    let outs = split(&split_opts(6), &cont).expect("a whole-chunk stream must split");
    let grouped: Vec<Vec<u32>> = outs.iter().map(|o| record_counts(&o.chunks)).collect();
    assert_eq!(grouped, vec![vec![3], vec![3], vec![9], vec![1, 2]]);
    let mut rejoined: Vec<u8> = Vec::new();
    for out in &outs {
        // Each output is a whole number of chunks; record_counts above
        // already panics otherwise.
        rejoined.extend_from_slice(&out.chunks);
        assert_eq!(out.prelude.num_chunks, record_counts(&out.chunks).len() as u64);
    }
    assert_eq!(rejoined, cont.chunks);
    // Each output re-read through the real codec declares its own chunk count.
    for (i, out) in outs.iter().enumerate() {
        let reread = Container::from_bytes(&out.to_bytes()).unwrap();
        assert_eq!(reread.prelude.num_chunks, grouped[i].len() as u64);
        assert_eq!(reread.chunks, out.chunks);
    }
}

#[test]
fn split_chunkless_input_gives_one_empty_output() {
    let data = container_bytes(&prelude_bytes(0, &["x"], 0, false), &[], &[]);
    let cont = Container::from_bytes(&data).unwrap();
    let outs = split(&split_opts(5), &cont).expect("an empty chunk stream must split");
    assert_eq!(outs.len(), 1);
    assert!(outs[0].chunks.is_empty());
    assert_eq!(outs[0].prelude.num_chunks, 0);
}

#[test]
fn split_truncated_payload_is_rejected() {
    // The chunk declares 100 bytes but far fewer remain.
    let mut bad = Vec::new();
    bad.extend_from_slice(&100u32.to_le_bytes());
    bad.extend_from_slice(&1u32.to_le_bytes());
    bad.extend_from_slice(&[0; 5]);
    let data = container_bytes(&prelude_bytes(0, &["x"], 1, false), &[], &[bad]);
    let cont = Container::from_bytes(&data).unwrap();
    match split(&split_opts(5), &cont) {
        Err(RadError::TruncatedInput) => {}
        _ => panic!("a declared length that exceeds the stream must be rejected"),
    }
}

#[test]
fn split_undersized_chunk_length_is_rejected() {
    // A chunk cannot declare fewer bytes than its own eight-byte header.
    let mut bad = Vec::new();
    bad.extend_from_slice(&4u32.to_le_bytes());
    bad.extend_from_slice(&1u32.to_le_bytes());
    let data = container_bytes(&prelude_bytes(0, &["x"], 1, false), &[], &[bad]);
    let cont = Container::from_bytes(&data).unwrap();
    match split(&split_opts(5), &cont) {
        Err(RadError::TruncatedInput) => {}
        _ => panic!("a self-contradictory chunk length must be rejected"),
    }
}
