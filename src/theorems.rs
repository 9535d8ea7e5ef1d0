//! What the decoder guarantees, stated over the walk that `WavFile::new`
//! follows (`parse_wav(d) == walk(d, 0)` once the signature is there).

use vstd::prelude::*;
use crate::cursor::{WavError, u16_le, u32_le};
use crate::chunk::{
    FmtChunkData, FmtFormatTag, ListChunkData, ListData, ListTypeId, PayloadView, SubChunkIds,
    SubChunkView, fmt_at, fmt_fields, format_of, info_tag,
};
use crate::text::lossy_text;
use crate::wav::{
    SkippedView, WavView, has_signature, kind_of, parse_wav, tag_of, walk, with_chunk,
    with_skipped,
};

verus! {

/// Each kind's tag names that kind and no other.
pub proof fn tags_are_distinct(id: SubChunkIds)
    ensures
        kind_of(tag_of(id)) == Some(id),
{
    let r = tag_of(SubChunkIds::Riff);
    let m = tag_of(SubChunkIds::Fmt);
    let f = tag_of(SubChunkIds::Fact);
    let i = tag_of(SubChunkIds::Info);
    let l = tag_of(SubChunkIds::List);
    let a = tag_of(SubChunkIds::Data);
    assert(r[0] != m[0] && r[0] != f[0] && r[0] != i[0] && r[0] != l[0] && r[0] != a[0]);
    assert(m[1] != f[1] && m[0] != i[0] && m[0] != l[0] && m[0] != a[0]);
    assert(f[0] != i[0] && f[0] != l[0] && f[0] != a[0]);
    assert(i[0] != l[0] && i[0] != a[0]);
    assert(l[0] != a[0]);
}

/// A buffer that does not begin with `RIFF` is refused with
/// `InvalidSignature`, whatever follows: no chunk is decoded.
pub proof fn signature_checked_first(d: Seq<u8>)
    requires
        !has_signature(d),
    ensures
        parse_wav(d) == Err::<WavView, WavError>(WavError::InvalidSignature),
{
}

/// A chunk cut off inside its tag or size field fails the decoding with
/// `OutOfBounds`, whatever its kind.
pub proof fn truncated_header(d: Seq<u8>, pos: int)
    requires
        0 <= pos < d.len(),
        pos + 8 > d.len(),
    ensures
        walk(d, pos) == Err::<WavView, WavError>(WavError::OutOfBounds),
{
    reveal_with_fuel(walk, 1);
}

/// A legacy `INFO` chunk, a `LIST` chunk of type `INFO`, or a chunk of an
/// unknown kind, whose declared size is larger than the bytes after its size
/// field, fails the decoding with `OutOfBounds`: no container comes back.
pub proof fn truncated_sized_chunk(d: Seq<u8>, pos: int)
    requires
        0 <= pos,
        pos + 8 <= d.len(),
        u32_le(d, pos + 4) > d.len() - (pos + 8),
        ({
            let k = kind_of(d.subrange(pos, pos + 4));
            k == Some(SubChunkIds::Info) || k is None || (k == Some(SubChunkIds::List) && (pos
                + 12 <= d.len() ==> d.subrange(pos + 8, pos + 12) == info_tag()))
        }),
    ensures
        walk(d, pos) == Err::<WavView, WavError>(WavError::OutOfBounds),
{
    reveal_with_fuel(walk, 1);
}

/// A `fact` chunk declaring 4 bytes, or a `fmt ` chunk of a supported
/// format declaring 16, with fewer bytes than that after its size field,
/// fails the decoding with `OutOfBounds`.
pub proof fn truncated_fixed_chunk(d: Seq<u8>, pos: int)
    requires
        0 <= pos,
        pos + 8 <= d.len(),
        u32_le(d, pos + 4) > d.len() - (pos + 8),
        ({
            let k = kind_of(d.subrange(pos, pos + 4));
            (k == Some(SubChunkIds::Fact) && u32_le(d, pos + 4) == 4) || (k == Some(
                SubChunkIds::Fmt,
            ) && u32_le(d, pos + 4) == 16 && (pos + 10 <= d.len() ==> (u16_le(d, pos + 8) == 1
                || u16_le(d, pos + 8) == 3 || u16_le(d, pos + 8) == 7)))
        }),
    ensures
        walk(d, pos) == Err::<WavView, WavError>(WavError::OutOfBounds),
{
    reveal_with_fuel(walk, 1);
}

/// The `fmt ` chunk whose tag is at `pos`, with the given sample encoding.
pub open spec fn fmt_chunk(d: Seq<u8>, pos: int, tag: FmtFormatTag) -> SubChunkView {
    SubChunkView {
        id: SubChunkIds::Fmt,
        size: u32_le(d, pos + 4) as u32,
        data: PayloadView::Fmt(fmt_fields(d, pos + 4, tag)),
    }
}

/// Format code 1 gives PCM, 3 A-law and 7 μ-law; any other code fails the
/// decoding with `UnsupportedFormatTag`.
pub proof fn fmt_format_codes(d: Seq<u8>, pos: int)
    requires
        0 <= pos,
        pos + 10 <= d.len(),
        d.subrange(pos, pos + 4) == tag_of(SubChunkIds::Fmt),
    ensures
        ({
            let code = u16_le(d, pos + 8);
            &&& code != 1 && code != 3 && code != 7 ==> walk(d, pos) == Err::<WavView, WavError>(
                WavError::UnsupportedFormatTag,
            )
            &&& pos + 24 <= d.len() && u32_le(d, pos + 4) <= 16 ==> {
                &&& code == 1 ==> walk(d, pos) == with_chunk(
                    fmt_chunk(d, pos, FmtFormatTag::LinerPCM),
                    walk(d, pos + 24),
                )
                &&& code == 3 ==> walk(d, pos) == with_chunk(
                    fmt_chunk(d, pos, FmtFormatTag::ALaw),
                    walk(d, pos + 24),
                )
                &&& code == 7 ==> walk(d, pos) == with_chunk(
                    fmt_chunk(d, pos, FmtFormatTag::MuLaw),
                    walk(d, pos + 24),
                )
            }
        }),
{
    reveal_with_fuel(walk, 1);
    tags_are_distinct(SubChunkIds::Fmt);
}

/// A `fmt ` chunk declaring more than 16 bytes is followed by its extension
/// size `n` and `n` bytes that are passed over: the next chunk's tag is read
/// `26 + n` bytes after its own (for a declared 18 and `n == 0`, just after
/// the declared size).
pub proof fn fmt_extension_keeps_alignment(d: Seq<u8>, pos: int, tag: FmtFormatTag)
    requires
        0 <= pos,
        d.subrange(pos, pos + 4) == tag_of(SubChunkIds::Fmt),
        pos + 26 + u16_le(d, pos + 24) <= d.len(),
        u32_le(d, pos + 4) > 16,
        format_of(u16_le(d, pos + 8)) == Some(tag),
    ensures
        walk(d, pos) == with_chunk(fmt_chunk(d, pos, tag), walk(d, pos + 26 + u16_le(d, pos + 24))),
        u32_le(d, pos + 4) == 18 && u16_le(d, pos + 24) == 0 ==> walk(d, pos) == with_chunk(
            fmt_chunk(d, pos, tag),
            walk(d, pos + 8 + u32_le(d, pos + 4)),
        ),
{
    reveal_with_fuel(walk, 1);
    tags_are_distinct(SubChunkIds::Fmt);
    assert(fmt_at(d, pos + 4) == Ok::<(SubChunkView, int), WavError>(
        (fmt_chunk(d, pos, tag), pos + 26 + u16_le(d, pos + 24)),
    ));
}

/// A chunk of an unknown kind with a size that fits is passed over: it is
/// recorded with its tag and offset, and the walk goes on just after it.
pub proof fn unknown_chunk_skipped(d: Seq<u8>, pos: int)
    requires
        0 <= pos,
        pos + 8 <= d.len(),
        kind_of(d.subrange(pos, pos + 4)) is None,
        pos + 8 + u32_le(d, pos + 4) <= d.len(),
    ensures
        walk(d, pos) == with_skipped(
            SkippedView { tag: d.subrange(pos, pos + 4), offset: pos },
            walk(d, pos + 8 + u32_le(d, pos + 4)),
        ),
{
    reveal_with_fuel(walk, 1);
}

/// A chunk as it stands in a buffer: its tag, its four size bytes and the
/// bytes after them.
pub struct RawChunk {
    pub tag: Seq<u8>,
    pub size: Seq<u8>,
    pub body: Seq<u8>,
}

impl RawChunk {
    pub open spec fn bytes(self) -> Seq<u8> {
        self.tag + self.size + self.body
    }

    pub open spec fn declared(self) -> int {
        u32_le(self.size, 0)
    }

    /// A chunk that is whole and that a decoder reads to its last byte:
    /// a `RIFF` header with a four-byte form type (its size field counts the
    /// whole file), or a chunk whose size field gives the length of its body
    /// and whose body has the shape of its kind. A `data` chunk ends the
    /// walk and is not one of these.
    pub open spec fn complete(self) -> bool {
        &&& self.tag.len() == 4
        &&& self.size.len() == 4
        &&& match kind_of(self.tag) {
            Some(SubChunkIds::Riff) => self.body.len() == 4,
            Some(SubChunkIds::Data) => false,
            Some(id) => {
                &&& self.declared() == self.body.len()
                &&& match id {
                    SubChunkIds::Fmt => {
                        &&& self.body.len() >= 2
                        &&& format_of(u16_le(self.body, 0)) is Some
                        &&& self.body.len() == 16 || (self.body.len() >= 18 && self.body.len() == 18
                            + u16_le(self.body, 16))
                    },
                    SubChunkIds::Fact => self.body.len() == 4,
                    SubChunkIds::List => self.body.len() >= 4 && self.body.subrange(0, 4)
                        == info_tag(),
                    _ => true,
                }
            },
            None => self.declared() == self.body.len(),
        }
    }

    /// A `data` chunk: its body is every byte to the end of the buffer.
    pub open spec fn is_data(self) -> bool {
        self.tag == tag_of(SubChunkIds::Data) && self.size.len() == 4
    }

    /// The chunk that the bytes of a complete chunk of a decoded kind stand for.
    pub open spec fn value(self) -> SubChunkView {
        let id = kind_of(self.tag)->Some_0;
        let b = self.body;
        SubChunkView {
            id,
            size: self.declared() as u32,
            data: match id {
                SubChunkIds::Riff => PayloadView::Riff(lossy_text(b)),
                SubChunkIds::Fmt => PayloadView::Fmt(
                    FmtChunkData {
                        format_tag: format_of(u16_le(b, 0))->Some_0,
                        channels: u16_le(b, 2) as u16,
                        sampling_rate: u32_le(b, 4) as u32,
                        ave_byte_per_sec: u32_le(b, 8) as u32,
                        block_align: u16_le(b, 12) as u16,
                        bit_per_sample: u16_le(b, 14) as u16,
                        arg_param_1: None,
                        arg_param_2: None,
                    },
                ),
                SubChunkIds::Fact => PayloadView::Fact(u32_le(b, 0) as u32),
                SubChunkIds::Info => PayloadView::Info(b),
                SubChunkIds::List => PayloadView::List(
                    ListChunkData { list_type_id: ListTypeId::INFO, data: ListData::InfoData },
                ),
                SubChunkIds::Data => PayloadView::Data(b),
            },
        }
    }
}

/// The bytes of a sequence of chunks, one after another.
pub open spec fn concat(fs: Seq<RawChunk>) -> Seq<u8>
    decreases fs.len(),
{
    if fs.len() == 0 {
        seq![]
    } else {
        fs[0].bytes() + concat(fs.drop_first())
    }
}

/// What the chunks `fs`, starting at offset `pos` and followed by the
/// `data` chunk `data`, decode to: one stored chunk for each of a decoded
/// kind, one record for each of another kind, then the `data` chunk.
pub open spec fn expected(fs: Seq<RawChunk>, pos: int, data: RawChunk) -> WavView
    decreases fs.len(),
{
    if fs.len() == 0 {
        WavView { chunks: seq![data.value()], skipped: seq![] }
    } else {
        let f = fs[0];
        let rest = expected(fs.drop_first(), pos + f.bytes().len(), data);
        if kind_of(f.tag) is Some {
            WavView { chunks: seq![f.value()] + rest.chunks, skipped: rest.skipped }
        } else {
            WavView {
                chunks: rest.chunks,
                skipped: seq![SkippedView { tag: f.tag, offset: pos }] + rest.skipped,
            }
        }
    }
}

/// Where the bytes of `f`, then `x`, stand from `pos` to the end of `d`:
/// each field read there is the one in `f`.
proof fn chunk_in_place(d: Seq<u8>, pos: int, f: RawChunk, x: Seq<u8>)
    requires
        0 <= pos <= d.len(),
        f.tag.len() == 4,
        f.size.len() == 4,
        d.subrange(pos, d.len() as int) == f.bytes() + x,
    ensures
        pos + 8 + f.body.len() <= d.len(),
        d.subrange(pos, pos + 4) == f.tag,
        u32_le(d, pos + 4) == f.declared(),
        d.subrange(pos + 8, pos + 8 + f.body.len()) == f.body,
        d.subrange(pos + 8 + f.body.len(), d.len() as int) == x,
        forall|i: int| 0 <= i < f.body.len() ==> d[pos + 8 + i] == #[trigger] f.body[i],
{
    let w = f.bytes() + x;
    assert(w.len() == d.len() - pos);
    assert forall|i: int| 0 <= i < w.len() implies d[pos + i] == w[i] by {
        assert(d.subrange(pos, d.len() as int)[i] == d[pos + i]);
    }
    assert forall|i: int| 0 <= i < 4 implies d[pos + 4 + i] == f.size[i] by {
        assert(w[4 + i] == f.size[i]);
    }
    assert forall|i: int| 0 <= i < f.body.len() implies d[pos + 8 + i] == #[trigger] f.body[i] by {
        assert(w[8 + i] == f.body[i]);
    }
    assert(d.subrange(pos, pos + 4) =~= f.tag) by {
        assert forall|i: int| 0 <= i < 4 implies d[pos + i] == f.tag[i] by {
            assert(w[i] == f.tag[i]);
        }
    }
    assert(d.subrange(pos + 8, pos + 8 + f.body.len()) =~= f.body);
    assert(d.subrange(pos + 8 + f.body.len(), d.len() as int) =~= x) by {
        assert forall|i: int| 0 <= i < x.len() implies d[pos + 8 + f.body.len() + i] == x[i] by {
            assert(w[8 + f.body.len() + i] == x[i]);
        }
    }
    assert(d[pos + 4] == f.size[0] && d[pos + 5] == f.size[1]);
    assert(d[pos + 6] == f.size[2] && d[pos + 7] == f.size[3]);
}

/// The walk over whole chunks that end in a `data` chunk decodes each of
/// them as it stands.
proof fn walk_complete(d: Seq<u8>, pos: int, fs: Seq<RawChunk>, data: RawChunk)
    requires
        0 <= pos <= d.len(),
        forall|i: int| 0 <= i < fs.len() ==> (#[trigger] fs[i]).complete(),
        data.is_data(),
        d.subrange(pos, d.len() as int) == concat(fs) + data.bytes(),
    ensures
        walk(d, pos) == Ok::<WavView, WavError>(expected(fs, pos, data)),
    decreases fs.len(),
{
    reveal_with_fuel(walk, 1);
    if fs.len() == 0 {
        assert(data.bytes() =~= data.bytes() + Seq::<u8>::empty());
        assert(concat(fs) + data.bytes() =~= data.bytes());
        chunk_in_place(d, pos, data, Seq::<u8>::empty());
        tags_are_distinct(SubChunkIds::Data);
        assert(d.len() == pos + 8 + data.body.len());
    } else {
        let f = fs[0];
        let rest = fs.drop_first();
        assert(f.complete());
        let x = concat(rest) + data.bytes();
        assert(concat(fs) + data.bytes() =~= f.bytes() + x);
        chunk_in_place(d, pos, f, x);
        let next = pos + 8 + f.body.len();
        assert forall|i: int| 0 <= i < rest.len() implies (#[trigger] rest[i]).complete() by {
            assert(rest[i] == fs[i + 1]);
        }
        walk_complete(d, next, rest, data);
        assert(f.bytes().len() == 8 + f.body.len());
        let p = pos + 4;
        match kind_of(f.tag) {
            Some(id) => {
                let b = f.body;
                if id == SubChunkIds::Fmt {
                    assert(d[p + 4] == b[0] && d[p + 5] == b[1]);
                    assert(d[p + 6] == b[2] && d[p + 7] == b[3]);
                    assert(d[p + 8] == b[4] && d[p + 9] == b[5] && d[p + 10] == b[6]);
                    assert(d[p + 11] == b[7] && d[p + 12] == b[8] && d[p + 13] == b[9]);
                    assert(d[p + 14] == b[10] && d[p + 15] == b[11] && d[p + 16] == b[12]);
                    assert(d[p + 17] == b[13] && d[p + 18] == b[14] && d[p + 19] == b[15]);
                    if b.len() > 16 {
                        assert(d[p + 20] == b[16] && d[p + 21] == b[17]);
                    }
                    assert(fmt_at(d, p) == Ok::<(SubChunkView, int), WavError>((f.value(), next)));
                } else if id == SubChunkIds::Fact {
                    assert(d[p + 4] == b[0] && d[p + 5] == b[1]);
                    assert(d[p + 6] == b[2] && d[p + 7] == b[3]);
                } else if id == SubChunkIds::List {
                    assert(d.subrange(p + 4, p + 8) =~= b.subrange(0, 4));
                } else if id == SubChunkIds::Riff {
                    assert(d.subrange(p + 4, p + 8) =~= b);
                }
                assert(crate::wav::chunk_at(id, d, p) == Ok::<(SubChunkView, int), WavError>(
                    (f.value(), next),
                ));
            },
            None => {},
        }
    }
}

/// A buffer made of a `RIFF` header, whole chunks and a `data` chunk
/// decodes without error to exactly those chunks, each field as its bytes
/// give it, with every chunk of an unknown kind recorded at its offset.
pub proof fn complete_file_decodes(riff: RawChunk, fs: Seq<RawChunk>, data: RawChunk)
    requires
        riff.tag == tag_of(SubChunkIds::Riff),
        riff.complete(),
        forall|i: int| 0 <= i < fs.len() ==> (#[trigger] fs[i]).complete(),
        data.is_data(),
    ensures
        parse_wav(riff.bytes() + concat(fs) + data.bytes()) == Ok::<WavView, WavError>(
            expected(seq![riff] + fs, 0, data),
        ),
{
    let all = seq![riff] + fs;
    let d = riff.bytes() + concat(fs) + data.bytes();
    assert(all.drop_first() =~= fs);
    assert(concat(all) == riff.bytes() + concat(fs));
    assert forall|i: int| 0 <= i < all.len() implies (#[trigger] all[i]).complete() by {
        if i > 0 {
            assert(all[i] == fs[i - 1]);
        }
    }
    assert(d.subrange(0, d.len() as int) =~= concat(all) + data.bytes());
    walk_complete(d, 0, all, data);
    assert(d.subrange(0, 4) =~= riff.tag);
}

} // verus!
