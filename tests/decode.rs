use wavfile::chunk::{FmtFormatTag, ListTypeId, SubChunkData, SubChunkIds};
use wavfile::cursor::{Cursor, WavError};
use wavfile::wav::WavFile;

fn le16(v: u16) -> Vec<u8> {
    v.to_le_bytes().to_vec()
}

fn le32(v: u32) -> Vec<u8> {
    v.to_le_bytes().to_vec()
}

fn chunk(tag: &[u8; 4], size: u32, body: &[u8]) -> Vec<u8> {
    let mut v = tag.to_vec();
    v.extend(le32(size));
    v.extend_from_slice(body);
    v
}

fn header() -> Vec<u8> {
    let mut v = b"RIFF".to_vec();
    v.extend(le32(36));
    v.extend_from_slice(b"WAVE");
    v
}

fn fmt_body(code: u16, channels: u16, rate: u32, avg: u32, align: u16, bits: u16) -> Vec<u8> {
    let mut v = le16(code);
    v.extend(le16(channels));
    v.extend(le32(rate));
    v.extend(le32(avg));
    v.extend(le16(align));
    v.extend(le16(bits));
    v
}

fn pcm_fmt() -> Vec<u8> {
    chunk(b"fmt ", 16, &fmt_body(1, 2, 44100, 176400, 4, 16))
}

fn file(parts: &[Vec<u8>]) -> Vec<u8> {
    let mut v = header();
    for p in parts {
        v.extend_from_slice(p);
    }
    v
}

fn fmt_of(w: &WavFile) -> wavfile::chunk::FmtChunkData {
    match &w.get(SubChunkIds::Fmt).expect("fmt chunk").data {
        SubChunkData::Fmt(f) => *f,
        other => panic!("not a fmt payload: {:?}", other),
    }
}

fn data_of(w: &WavFile) -> Vec<u8> {
    match &w.get(SubChunkIds::Data).expect("data chunk").data {
        SubChunkData::Data(b) => b.clone(),
        other => panic!("not a data payload: {:?}", other),
    }
}

#[test]
fn minimal_pcm_file() {
    let d = file(&[pcm_fmt(), chunk(b"data", 0, &[])]);
    assert_eq!(d.len(), 44);
    let w = WavFile::new(d).expect("decodes");
    match &w.get(SubChunkIds::Riff).unwrap().data {
        SubChunkData::Riff(s) => assert_eq!(s, "WAVE"),
        other => panic!("not a riff payload: {:?}", other),
    }
    assert_eq!(w.get(SubChunkIds::Riff).unwrap().size, 36);
    let f = fmt_of(&w);
    assert_eq!(f.format_tag, FmtFormatTag::LinerPCM);
    assert_eq!(f.channels, 2);
    assert_eq!(f.sampling_rate, 44100);
    assert_eq!(f.ave_byte_per_sec, 176400);
    assert_eq!(f.block_align, 4);
    assert_eq!(f.bit_per_sample, 16);
    assert_eq!(f.arg_param_1, None);
    assert_eq!(f.arg_param_2, None);
    assert_eq!(data_of(&w).len(), 0);
    assert_eq!(w.sub_chunks.len(), 3);
    assert!(w.skipped.is_empty());
}

#[test]
fn chunks_come_in_order() {
    let d = file(&[
        pcm_fmt(),
        chunk(b"fact", 4, &le32(1000)),
        chunk(b"data", 3, &[9, 8, 7]),
    ]);
    let w = WavFile::new(d).unwrap();
    let ids: Vec<SubChunkIds> = w.sub_chunks.iter().map(|c| c.id).collect();
    assert_eq!(
        ids,
        vec![SubChunkIds::Riff, SubChunkIds::Fmt, SubChunkIds::Fact, SubChunkIds::Data]
    );
    match &w.get(SubChunkIds::Fact).unwrap().data {
        SubChunkData::Fact(n) => assert_eq!(*n, 1000),
        other => panic!("not a fact payload: {:?}", other),
    }
    assert_eq!(data_of(&w), vec![9, 8, 7]);
}

#[test]
fn bad_signature_is_refused() {
    let mut d = file(&[pcm_fmt(), chunk(b"data", 0, &[])]);
    d[0] = b'r';
    assert_eq!(WavFile::new(d).err(), Some(WavError::InvalidSignature));
    assert_eq!(WavFile::new(b"RIF".to_vec()).err(), Some(WavError::InvalidSignature));
    assert_eq!(WavFile::new(Vec::new()).err(), Some(WavError::InvalidSignature));
    let mut junk_first = chunk(b"JUNK", 0, &[]);
    junk_first.extend(header());
    assert_eq!(WavFile::new(junk_first).err(), Some(WavError::InvalidSignature));
}

#[test]
fn format_code_two_is_unsupported() {
    let d = file(&[chunk(b"fmt ", 16, &fmt_body(2, 2, 44100, 176400, 4, 16))]);
    assert_eq!(WavFile::new(d).err(), Some(WavError::UnsupportedFormatTag));
}

#[test]
fn supported_format_codes() {
    for (code, tag) in [
        (1u16, FmtFormatTag::LinerPCM),
        (3, FmtFormatTag::ALaw),
        (7, FmtFormatTag::MuLaw),
    ] {
        let d = file(&[chunk(b"fmt ", 16, &fmt_body(code, 1, 8000, 8000, 1, 8)), chunk(b"data", 0, &[])]);
        let w = WavFile::new(d).unwrap();
        assert_eq!(fmt_of(&w).format_tag, tag);
        assert_eq!(fmt_of(&w).channels, 1);
    }
}

#[test]
fn channel_count_reads_both_bytes() {
    let d = file(&[chunk(b"fmt ", 16, &fmt_body(1, 0x0102, 0x0a0b0c0d, 7, 0x0304, 0x0506))]);
    let f = fmt_of(&WavFile::new(d).unwrap());
    assert_eq!(f.channels, 0x0102);
    assert_eq!(f.sampling_rate, 0x0a0b0c0d);
    assert_eq!(f.ave_byte_per_sec, 7);
    assert_eq!(f.block_align, 0x0304);
    assert_eq!(f.bit_per_sample, 0x0506);
}

#[test]
fn fmt_extension_keeps_alignment() {
    let mut body = fmt_body(1, 2, 44100, 176400, 4, 16);
    body.extend(le16(0));
    let d = file(&[chunk(b"fmt ", 18, &body), chunk(b"fact", 4, &le32(77)), chunk(b"data", 0, &[])]);
    let w = WavFile::new(d).unwrap();
    assert_eq!(w.get(SubChunkIds::Fmt).unwrap().size, 18);
    match &w.get(SubChunkIds::Fact).expect("fact read after fmt").data {
        SubChunkData::Fact(n) => assert_eq!(*n, 77),
        other => panic!("not a fact payload: {:?}", other),
    }
    assert!(w.skipped.is_empty());
}

#[test]
fn fmt_extension_bytes_are_skipped() {
    let mut body = fmt_body(3, 2, 44100, 176400, 4, 16);
    body.extend(le16(4));
    body.extend_from_slice(&[1, 2, 3, 4]);
    let d = file(&[chunk(b"fmt ", 22, &body), chunk(b"data", 2, &[5, 6])]);
    let w = WavFile::new(d).unwrap();
    assert_eq!(fmt_of(&w).format_tag, FmtFormatTag::ALaw);
    assert_eq!(data_of(&w), vec![5, 6]);
}

#[test]
fn unknown_chunk_is_skipped_and_recorded() {
    let junk = chunk(b"JUNK", 3, &[1, 2, 3]);
    let d = file(&[junk, pcm_fmt(), chunk(b"data", 1, &[42])]);
    let w = WavFile::new(d).unwrap();
    assert_eq!(w.skipped.len(), 1);
    assert_eq!(&w.skipped[0].tag, b"JUNK");
    assert_eq!(w.skipped[0].offset, 12);
    assert_eq!(fmt_of(&w).sampling_rate, 44100);
    assert_eq!(data_of(&w), vec![42]);
}

#[test]
fn truncated_chunks_are_out_of_bounds() {
    let cases = vec![
        chunk(b"INFO", 10, &[1, 2, 3]),
        chunk(b"JUNK", 10, &[1, 2, 3]),
        chunk(b"LIST", 10, b"INFOab"),
        chunk(b"fact", 4, &[1, 2]),
        chunk(b"fmt ", 16, &fmt_body(1, 2, 44100, 176400, 4, 16)[..10]),
        b"fmt ".to_vec(),
        b"da".to_vec(),
        chunk(b"data", 0, &[])[..6].to_vec(),
    ];
    for c in cases {
        let d = file(&[pcm_fmt(), c]);
        assert_eq!(WavFile::new(d).err(), Some(WavError::OutOfBounds));
    }
    let mut short_riff = header();
    short_riff.truncate(10);
    assert_eq!(WavFile::new(short_riff).err(), Some(WavError::OutOfBounds));
}

#[test]
fn list_of_other_type_is_unsupported() {
    let d = file(&[chunk(b"LIST", 4, b"adtl")]);
    assert_eq!(WavFile::new(d).err(), Some(WavError::UnsupportedListType));
}

#[test]
fn list_info_is_passed_over() {
    let mut body = b"INFO".to_vec();
    body.extend(chunk(b"INAM", 2, b"hi"));
    let size = body.len() as u32;
    let d = file(&[chunk(b"LIST", size, &body), chunk(b"data", 1, &[3])]);
    let w = WavFile::new(d).unwrap();
    let l = w.get(SubChunkIds::List).unwrap();
    assert_eq!(l.size, 14);
    match &l.data {
        SubChunkData::List(x) => assert_eq!(x.list_type_id, ListTypeId::INFO),
        other => panic!("not a list payload: {:?}", other),
    }
    assert_eq!(data_of(&w), vec![3]);
}

#[test]
fn legacy_info_keeps_its_bytes() {
    let d = file(&[chunk(b"INFO", 3, b"abc"), chunk(b"data", 0, &[])]);
    let w = WavFile::new(d).unwrap();
    match &w.get(SubChunkIds::Info).unwrap().data {
        SubChunkData::Info(b) => assert_eq!(b, b"abc"),
        other => panic!("not an info payload: {:?}", other),
    }
}

#[test]
fn data_takes_the_rest_of_the_buffer() {
    let d = file(&[pcm_fmt(), chunk(b"data", 2, &[1, 2, 3, 4, 5])]);
    let w = WavFile::new(d).unwrap();
    assert_eq!(w.get(SubChunkIds::Data).unwrap().size, 2);
    assert_eq!(data_of(&w), vec![1, 2, 3, 4, 5]);
}

#[test]
fn data_stops_the_walk() {
    let d = file(&[chunk(b"data", 0, &[]), b"fmt \x02".to_vec()]);
    let w = WavFile::new(d).unwrap();
    assert!(w.get(SubChunkIds::Fmt).is_none());
    assert_eq!(data_of(&w), b"fmt \x02".to_vec());
}

#[test]
fn no_data_chunk_is_no_error() {
    let d = file(&[pcm_fmt()]);
    let w = WavFile::new(d).unwrap();
    assert!(w.get(SubChunkIds::Data).is_none());
    assert_eq!(fmt_of(&w).channels, 2);
}

#[test]
fn repeated_kind_keeps_both_and_looks_up_the_last() {
    let d = file(&[
        chunk(b"fact", 4, &le32(1)),
        chunk(b"fact", 4, &le32(2)),
        chunk(b"data", 0, &[]),
    ]);
    let w = WavFile::new(d).unwrap();
    assert_eq!(w.sub_chunks.iter().filter(|c| c.id == SubChunkIds::Fact).count(), 2);
    match &w.get(SubChunkIds::Fact).unwrap().data {
        SubChunkData::Fact(n) => assert_eq!(*n, 2),
        other => panic!("not a fact payload: {:?}", other),
    }
}

#[test]
fn non_ascii_form_type_is_kept_as_text() {
    let mut d = b"RIFF".to_vec();
    d.extend(le32(4));
    d.extend_from_slice(&[0xff, b'A', b'V', b'E']);
    let w = WavFile::new(d).unwrap();
    match &w.get(SubChunkIds::Riff).unwrap().data {
        SubChunkData::Riff(s) => assert_eq!(s, "\u{fffd}AVE"),
        other => panic!("not a riff payload: {:?}", other),
    }
}

#[test]
fn tags_name_their_kinds() {
    assert_eq!(WavFile::_determine_id(b"RIFF"), Some(SubChunkIds::Riff));
    assert_eq!(WavFile::_determine_id(b"fmt "), Some(SubChunkIds::Fmt));
    assert_eq!(WavFile::_determine_id(b"fact"), Some(SubChunkIds::Fact));
    assert_eq!(WavFile::_determine_id(b"INFO"), Some(SubChunkIds::Info));
    assert_eq!(WavFile::_determine_id(b"LIST"), Some(SubChunkIds::List));
    assert_eq!(WavFile::_determine_id(b"data"), Some(SubChunkIds::Data));
    assert_eq!(WavFile::_determine_id(b"fmt\0"), None);
    assert_eq!(WavFile::_determine_id(b"DATA"), None);
}

#[test]
fn cursor_reads_little_endian() {
    let mut c = Cursor::new(vec![0x34, 0x12, 0x78, 0x56, 0x34, 0x12, 0xaa]);
    assert_eq!(c.read_u16_le(), Ok(0x1234));
    assert_eq!(c.read_u32_le(), Ok(0x12345678));
    assert_eq!(c.remaining(), 1);
    assert_eq!(c.read_u16_le(), Err(WavError::OutOfBounds));
    assert_eq!(c.offset(), 6);
    assert_eq!(c.skip(2), Err(WavError::OutOfBounds));
    assert_eq!(c.skip(1), Ok(()));
    assert!(c.at_end());
}

#[test]
fn cursor_blobs_and_tags() {
    let mut c = Cursor::new(b"WAVEabcdef".to_vec());
    assert_eq!(c.read_tag4(), Ok(*b"WAVE"));
    assert_eq!(c.read_bytes(7), Err(WavError::OutOfBounds));
    assert_eq!(c.read_bytes(2), Ok(b"ab".to_vec()));
    assert_eq!(c.read_rest(), b"cdef".to_vec());
    assert_eq!(c.read_tag4(), Err(WavError::OutOfBounds));
}

#[test]
fn every_kind_in_one_file() {
    let mut ext = fmt_body(7, 1, 8000, 8000, 1, 8);
    ext.extend(le16(2));
    ext.extend_from_slice(&[0, 0]);
    let d = file(&[
        chunk(b"fmt ", 20, &ext),
        chunk(b"fact", 4, &le32(5)),
        chunk(b"abcd", 1, &[0]),
        chunk(b"LIST", 4, b"INFO"),
        chunk(b"INFO", 2, b"xy"),
        chunk(b"data", 4, &[1, 2, 3, 4]),
    ]);
    let w = WavFile::new(d).unwrap();
    let ids: Vec<SubChunkIds> = w.sub_chunks.iter().map(|c| c.id).collect();
    assert_eq!(
        ids,
        vec![
            SubChunkIds::Riff,
            SubChunkIds::Fmt,
            SubChunkIds::Fact,
            SubChunkIds::List,
            SubChunkIds::Info,
            SubChunkIds::Data
        ]
    );
    assert_eq!(fmt_of(&w).format_tag, FmtFormatTag::MuLaw);
    assert_eq!(w.skipped.len(), 1);
    assert_eq!(&w.skipped[0].tag, b"abcd");
    assert_eq!(w.skipped[0].offset, 12 + 28 + 12);
    assert_eq!(data_of(&w), vec![1, 2, 3, 4]);
}
