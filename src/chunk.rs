//! The chunk data model and one decoder per chunk kind.
//!
//! Each decoder starts with the cursor on a chunk's size field, just after
//! its four-byte tag, and is specified by a function over the buffer's bytes
//! and that offset (`riff_at`, `fmt_at`, ...), which gives either the decoded
//! chunk and the offset where the next chunk starts, or the error.

use vstd::prelude::*;
use crate::cursor::{Cursor, WavError, u16_le, u32_le};
use crate::text::{lossy_text, text_from_bytes};

verus! {

/// The kinds of chunk that are decoded and stored.
#[derive(PartialEq, Eq, Structural, Debug, Clone, Copy, Hash)]
pub enum SubChunkIds {
    Riff,
    Fmt,
    Fact,
    Info,
    List,
    Data,
}

/// Sample encodings a `fmt ` chunk may name.
#[derive(PartialEq, Eq, Structural, Debug, Clone, Copy)]
pub enum FmtFormatTag {
    /// Format code 1.
    LinerPCM,
    /// Format code 3.
    ALaw,
    /// Format code 7.
    MuLaw,
}

/// The fields of a `fmt ` chunk.
#[derive(PartialEq, Eq, Structural, Debug, Clone, Copy)]
pub struct FmtChunkData {
    pub format_tag: FmtFormatTag,
    pub channels: u16,
    pub sampling_rate: u32,
    pub ave_byte_per_sec: u32,
    pub block_align: u16,
    pub bit_per_sample: u16,
    /// Reserved for formats with trailing parameters; never filled here.
    pub arg_param_1: Option<i32>,
    /// Reserved for formats with trailing parameters; never filled here.
    pub arg_param_2: Option<i32>,
}

/// The list types a `LIST` chunk may carry.
#[derive(PartialEq, Eq, Structural, Debug, Clone, Copy)]
pub enum ListTypeId {
    INFO,
}

/// What is kept of a list's contents: its sub-chunks are not decoded.
#[derive(PartialEq, Eq, Structural, Debug, Clone, Copy)]
pub enum ListData {
    InfoData,
}

/// The decoded part of a `LIST` chunk.
#[derive(PartialEq, Eq, Structural, Debug, Clone, Copy)]
pub struct ListChunkData {
    pub list_type_id: ListTypeId,
    pub data: ListData,
}

/// A chunk's payload, one variant per kind.
#[derive(Debug)]
pub enum SubChunkData {
    /// The form type that follows `RIFF`, as text.
    Riff(String),
    Fmt(FmtChunkData),
    /// The sample length.
    Fact(u32),
    /// The chunk's bytes, as declared by its size.
    Info(Vec<u8>),
    List(ListChunkData),
    /// The sample bytes: everything from the chunk's payload to the end of
    /// the buffer.
    Data(Vec<u8>),
}

/// A decoded chunk: its kind, the size field as it stood, and its payload.
#[derive(Debug)]
pub struct SubChunk {
    pub id: SubChunkIds,
    pub size: u32,
    pub data: SubChunkData,
}

/// The mathematical value of a `SubChunkData`.
pub enum PayloadView {
    Riff(Seq<char>),
    Fmt(FmtChunkData),
    Fact(u32),
    Info(Seq<u8>),
    List(ListChunkData),
    Data(Seq<u8>),
}

/// The mathematical value of a `SubChunk`.
pub struct SubChunkView {
    pub id: SubChunkIds,
    pub size: u32,
    pub data: PayloadView,
}

impl View for SubChunkData {
    type V = PayloadView;

    open spec fn view(&self) -> PayloadView {
        match self {
            SubChunkData::Riff(s) => PayloadView::Riff(s@),
            SubChunkData::Fmt(f) => PayloadView::Fmt(*f),
            SubChunkData::Fact(n) => PayloadView::Fact(*n),
            SubChunkData::Info(b) => PayloadView::Info(b@),
            SubChunkData::List(l) => PayloadView::List(*l),
            SubChunkData::Data(b) => PayloadView::Data(b@),
        }
    }
}

impl View for SubChunk {
    type V = SubChunkView;

    open spec fn view(&self) -> SubChunkView {
        SubChunkView { id: self.id, size: self.size, data: self.data@ }
    }
}

/// The kind that a payload belongs to.
pub open spec fn payload_kind(p: PayloadView) -> SubChunkIds {
    match p {
        PayloadView::Riff(_) => SubChunkIds::Riff,
        PayloadView::Fmt(_) => SubChunkIds::Fmt,
        PayloadView::Fact(_) => SubChunkIds::Fact,
        PayloadView::Info(_) => SubChunkIds::Info,
        PayloadView::List(_) => SubChunkIds::List,
        PayloadView::Data(_) => SubChunkIds::Data,
    }
}

/// A chunk whose kind agrees with its payload.
pub open spec fn chunk_wf(c: SubChunkView) -> bool {
    c.id == payload_kind(c.data)
}

/// The four bytes `INFO`.
pub open spec fn info_tag() -> Seq<u8> {
    seq![0x49u8, 0x4e, 0x46, 0x4f]
}

/// The sample encoding named by a format code, if any.
pub open spec fn format_of(code: int) -> Option<FmtFormatTag> {
    if code == 1 {
        Some(FmtFormatTag::LinerPCM)
    } else if code == 3 {
        Some(FmtFormatTag::ALaw)
    } else if code == 7 {
        Some(FmtFormatTag::MuLaw)
    } else {
        None
    }
}

/// A `RIFF` header whose size field is at `p`: the size, then the form type.
pub open spec fn riff_at(d: Seq<u8>, p: int) -> Result<(SubChunkView, int), WavError> {
    if p + 8 > d.len() {
        Err(WavError::OutOfBounds)
    } else {
        Ok(
            (
                SubChunkView {
                    id: SubChunkIds::Riff,
                    size: u32_le(d, p) as u32,
                    data: PayloadView::Riff(lossy_text(d.subrange(p + 4, p + 8))),
                },
                p + 8,
            ),
        )
    }
}

/// The fixed fields of a `fmt ` chunk whose size field is at `p`.
pub open spec fn fmt_fields(d: Seq<u8>, p: int, tag: FmtFormatTag) -> FmtChunkData {
    FmtChunkData {
        format_tag: tag,
        channels: u16_le(d, p + 6) as u16,
        sampling_rate: u32_le(d, p + 8) as u32,
        ave_byte_per_sec: u32_le(d, p + 12) as u32,
        block_align: u16_le(d, p + 16) as u16,
        bit_per_sample: u16_le(d, p + 18) as u16,
        arg_param_1: None,
        arg_param_2: None,
    }
}

/// A `fmt ` chunk whose size field is at `p`: the size, the format code, and
/// the fixed fields end 20 bytes on. A declared size over 16 means that an
/// extension size follows, and that many bytes after it are passed over.
pub open spec fn fmt_at(d: Seq<u8>, p: int) -> Result<(SubChunkView, int), WavError> {
    if p + 6 > d.len() {
        Err(WavError::OutOfBounds)
    } else {
        match format_of(u16_le(d, p + 4)) {
            None => Err(WavError::UnsupportedFormatTag),
            Some(tag) => {
                let c = SubChunkView {
                    id: SubChunkIds::Fmt,
                    size: u32_le(d, p) as u32,
                    data: PayloadView::Fmt(fmt_fields(d, p, tag)),
                };
                if p + 20 > d.len() {
                    Err(WavError::OutOfBounds)
                } else if u32_le(d, p) <= 16 {
                    Ok((c, p + 20))
                } else if p + 22 > d.len() {
                    Err(WavError::OutOfBounds)
                } else if p + 22 + u16_le(d, p + 20) > d.len() {
                    Err(WavError::OutOfBounds)
                } else {
                    Ok((c, p + 22 + u16_le(d, p + 20)))
                }
            },
        }
    }
}

/// A `fact` chunk whose size field is at `p`: the size, then the sample length.
pub open spec fn fact_at(d: Seq<u8>, p: int) -> Result<(SubChunkView, int), WavError> {
    if p + 8 > d.len() {
        Err(WavError::OutOfBounds)
    } else {
        Ok(
            (
                SubChunkView {
                    id: SubChunkIds::Fact,
                    size: u32_le(d, p) as u32,
                    data: PayloadView::Fact(u32_le(d, p + 4) as u32),
                },
                p + 8,
            ),
        )
    }
}

/// The number of bytes that follow a `LIST` chunk's type tag, by its
/// declared size; a size under 4 leaves nothing to pass over.
pub open spec fn list_rest(size: int) -> int {
    if size >= 4 {
        size - 4
    } else {
        0
    }
}

/// A `LIST` chunk whose size field is at `p`: the size, the list type, which
/// must be `INFO`, and the rest of the declared size passed over.
pub open spec fn list_at(d: Seq<u8>, p: int) -> Result<(SubChunkView, int), WavError> {
    if p + 8 > d.len() {
        Err(WavError::OutOfBounds)
    } else if d.subrange(p + 4, p + 8) != info_tag() {
        Err(WavError::UnsupportedListType)
    } else if p + 8 + list_rest(u32_le(d, p)) > d.len() {
        Err(WavError::OutOfBounds)
    } else {
        Ok(
            (
                SubChunkView {
                    id: SubChunkIds::List,
                    size: u32_le(d, p) as u32,
                    data: PayloadView::List(
                        ListChunkData { list_type_id: ListTypeId::INFO, data: ListData::InfoData },
                    ),
                },
                p + 8 + list_rest(u32_le(d, p)),
            ),
        )
    }
}

/// A legacy `INFO` chunk whose size field is at `p`: the size, then that
/// many bytes.
pub open spec fn info_at(d: Seq<u8>, p: int) -> Result<(SubChunkView, int), WavError> {
    if p + 4 > d.len() {
        Err(WavError::OutOfBounds)
    } else if p + 4 + u32_le(d, p) > d.len() {
        Err(WavError::OutOfBounds)
    } else {
        Ok(
            (
                SubChunkView {
                    id: SubChunkIds::Info,
                    size: u32_le(d, p) as u32,
                    data: PayloadView::Info(d.subrange(p + 4, p + 4 + u32_le(d, p))),
                },
                p + 4 + u32_le(d, p),
            ),
        )
    }
}

/// A `data` chunk whose size field is at `p`: the size, then every byte to
/// the end of the buffer, whatever the size says.
pub open spec fn data_at(d: Seq<u8>, p: int) -> Result<(SubChunkView, int), WavError> {
    if p + 4 > d.len() {
        Err(WavError::OutOfBounds)
    } else {
        Ok(
            (
                SubChunkView {
                    id: SubChunkIds::Data,
                    size: u32_le(d, p) as u32,
                    data: PayloadView::Data(d.subrange(p + 4, d.len() as int)),
                },
                d.len() as int,
            ),
        )
    }
}

/// A chunk of another kind whose size field is at `p`: the offset just past
/// the size field and the declared number of bytes.
pub open spec fn skip_at(d: Seq<u8>, p: int) -> Result<int, WavError> {
    if p + 4 > d.len() {
        Err(WavError::OutOfBounds)
    } else if p + 4 + u32_le(d, p) > d.len() {
        Err(WavError::OutOfBounds)
    } else {
        Ok(p + 4 + u32_le(d, p))
    }
}

/// What a decoder owes: the chunk and the new offset as `want` gives them,
/// or its error with the offset anywhere.
pub open spec fn decoded(
    want: Result<(SubChunkView, int), WavError>,
    r: Result<SubChunk, WavError>,
    c: Cursor,
) -> bool {
    match want {
        Ok((v, next)) => r is Ok && r->Ok_0@ == v && c.pos() == next,
        Err(e) => r == Err::<SubChunk, WavError>(e),
    }
}

/// Decodes a `RIFF` header.
pub fn decode_riff(cur: &mut Cursor) -> (r: Result<SubChunk, WavError>)
    requires
        old(cur).wf(),
    ensures
        final(cur).wf(),
        final(cur).data() == old(cur).data(),
        decoded(riff_at(old(cur).data(), old(cur).pos()), r, *final(cur)),
{
    let size = match cur.read_u32_le() {
        Ok(v) => v,
        Err(e) => return Err(e),
    };
    let form = match cur.read_tag4() {
        Ok(t) => t,
        Err(e) => return Err(e),
    };
    let text = text_from_bytes(form.as_slice());
    Ok(SubChunk { id: SubChunkIds::Riff, size, data: SubChunkData::Riff(text) })
}

/// Decodes a `fmt ` chunk.
pub fn decode_fmt(cur: &mut Cursor) -> (r: Result<SubChunk, WavError>)
    requires
        old(cur).wf(),
    ensures
        final(cur).wf(),
        final(cur).data() == old(cur).data(),
        decoded(fmt_at(old(cur).data(), old(cur).pos()), r, *final(cur)),
{
    let size = match cur.read_u32_le() {
        Ok(v) => v,
        Err(e) => return Err(e),
    };
    let code = match cur.read_u16_le() {
        Ok(v) => v,
        Err(e) => return Err(e),
    };
    let format_tag = if code == 1 {
        FmtFormatTag::LinerPCM
    } else if code == 3 {
        FmtFormatTag::ALaw
    } else if code == 7 {
        FmtFormatTag::MuLaw
    } else {
        return Err(WavError::UnsupportedFormatTag);
    };
    let channels = match cur.read_u16_le() {
        Ok(v) => v,
        Err(e) => return Err(e),
    };
    let sampling_rate = match cur.read_u32_le() {
        Ok(v) => v,
        Err(e) => return Err(e),
    };
    let ave_byte_per_sec = match cur.read_u32_le() {
        Ok(v) => v,
        Err(e) => return Err(e),
    };
    let block_align = match cur.read_u16_le() {
        Ok(v) => v,
        Err(e) => return Err(e),
    };
    let bit_per_sample = match cur.read_u16_le() {
        Ok(v) => v,
        Err(e) => return Err(e),
    };
    if size > 16 {
        let ext = match cur.read_u16_le() {
            Ok(v) => v,
            Err(e) => return Err(e),
        };
        match cur.skip(ext as usize) {
            Ok(()) => {},
            Err(e) => return Err(e),
        }
    }
    let fields = FmtChunkData {
        format_tag,
        channels,
        sampling_rate,
        ave_byte_per_sec,
        block_align,
        bit_per_sample,
        arg_param_1: None,
        arg_param_2: None,
    };
    Ok(SubChunk { id: SubChunkIds::Fmt, size, data: SubChunkData::Fmt(fields) })
}

/// Decodes a `fact` chunk.
pub fn decode_fact(cur: &mut Cursor) -> (r: Result<SubChunk, WavError>)
    requires
        old(cur).wf(),
    ensures
        final(cur).wf(),
        final(cur).data() == old(cur).data(),
        decoded(fact_at(old(cur).data(), old(cur).pos()), r, *final(cur)),
{
    let size = match cur.read_u32_le() {
        Ok(v) => v,
        Err(e) => return Err(e),
    };
    let len = match cur.read_u32_le() {
        Ok(v) => v,
        Err(e) => return Err(e),
    };
    Ok(SubChunk { id: SubChunkIds::Fact, size, data: SubChunkData::Fact(len) })
}

/// Decodes a `LIST` chunk.
pub fn decode_list(cur: &mut Cursor) -> (r: Result<SubChunk, WavError>)
    requires
        old(cur).wf(),
    ensures
        final(cur).wf(),
        final(cur).data() == old(cur).data(),
        decoded(list_at(old(cur).data(), old(cur).pos()), r, *final(cur)),
{
    let size = match cur.read_u32_le() {
        Ok(v) => v,
        Err(e) => return Err(e),
    };
    let t = match cur.read_tag4() {
        Ok(t) => t,
        Err(e) => return Err(e),
    };
    if !(t[0] == 0x49 && t[1] == 0x4e && t[2] == 0x46 && t[3] == 0x4f) {
        assert(t@ != info_tag()) by {
            if t@ == info_tag() {
                assert(t@[0] == 0x49);
            }
        };
        return Err(WavError::UnsupportedListType);
    }
    assert(t@ =~= info_tag());
    let rest: u32 = if size >= 4 {
        size - 4
    } else {
        0
    };
    match cur.skip(rest as usize) {
        Ok(()) => {},
        Err(e) => return Err(e),
    }
    let list = ListChunkData { list_type_id: ListTypeId::INFO, data: ListData::InfoData };
    Ok(SubChunk { id: SubChunkIds::List, size, data: SubChunkData::List(list) })
}

/// Decodes a legacy `INFO` chunk.
pub fn decode_info(cur: &mut Cursor) -> (r: Result<SubChunk, WavError>)
    requires
        old(cur).wf(),
    ensures
        final(cur).wf(),
        final(cur).data() == old(cur).data(),
        decoded(info_at(old(cur).data(), old(cur).pos()), r, *final(cur)),
{
    let size = match cur.read_u32_le() {
        Ok(v) => v,
        Err(e) => return Err(e),
    };
    let bytes = match cur.read_bytes(size as usize) {
        Ok(b) => b,
        Err(e) => return Err(e),
    };
    Ok(SubChunk { id: SubChunkIds::Info, size, data: SubChunkData::Info(bytes) })
}

/// Decodes a `data` chunk, taking every byte that is left.
pub fn decode_data(cur: &mut Cursor) -> (r: Result<SubChunk, WavError>)
    requires
        old(cur).wf(),
    ensures
        final(cur).wf(),
        final(cur).data() == old(cur).data(),
        decoded(data_at(old(cur).data(), old(cur).pos()), r, *final(cur)),
{
    let size = match cur.read_u32_le() {
        Ok(v) => v,
        Err(e) => return Err(e),
    };
    let bytes = cur.read_rest();
    Ok(SubChunk { id: SubChunkIds::Data, size, data: SubChunkData::Data(bytes) })
}

/// Passes over a chunk of a kind that is not decoded.
pub fn skip_chunk(cur: &mut Cursor) -> (r: Result<(), WavError>)
    requires
        old(cur).wf(),
    ensures
        final(cur).wf(),
        final(cur).data() == old(cur).data(),
        match skip_at(old(cur).data(), old(cur).pos()) {
            Ok(next) => r is Ok && final(cur).pos() == next,
            Err(e) => r == Err::<(), WavError>(e),
        },
{
    let size = match cur.read_u32_le() {
        Ok(v) => v,
        Err(e) => return Err(e),
    };
    cur.skip(size as usize)
}

} // verus!
