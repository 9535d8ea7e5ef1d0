//! The chunk dispatcher and the container it fills.

use vstd::prelude::*;
use crate::cursor::{Cursor, WavError, u32_le};
use crate::chunk::{
    SubChunk, SubChunkIds, SubChunkView, decode_data, decode_fact, decode_fmt, decode_info,
    decode_list, decode_riff, skip_chunk, decoded, data_at, fact_at, fmt_at, info_at, list_at, riff_at,
    skip_at,
};

verus! {

/// A chunk whose tag is not one of the decoded kinds, passed over while
/// decoding: the record an integrator may log or inspect.
#[derive(PartialEq, Eq, Debug, Clone, Copy)]
pub struct SkippedChunk {
    /// The unrecognized tag.
    pub tag: [u8; 4],
    /// The offset of the tag in the buffer.
    pub offset: usize,
}

/// The mathematical value of a `SkippedChunk`.
pub struct SkippedView {
    pub tag: Seq<u8>,
    pub offset: int,
}

impl View for SkippedChunk {
    type V = SkippedView;

    open spec fn view(&self) -> SkippedView {
        SkippedView { tag: self.tag@, offset: self.offset as int }
    }
}

/// A decoded container: every stored chunk in the order it came, and every
/// chunk that was passed over.
pub struct WavFile {
    pub sub_chunks: Vec<SubChunk>,
    pub skipped: Vec<SkippedChunk>,
}

/// The mathematical value of a `WavFile`.
pub struct WavView {
    pub chunks: Seq<SubChunkView>,
    pub skipped: Seq<SkippedView>,
}

impl View for WavFile {
    type V = WavView;

    open spec fn view(&self) -> WavView {
        WavView {
            chunks: self.sub_chunks@.map_values(|c: SubChunk| c@),
            skipped: self.skipped@.map_values(|s: SkippedChunk| s@),
        }
    }
}

/// The tag of each decoded kind.
pub open spec fn tag_of(id: SubChunkIds) -> Seq<u8> {
    match id {
        SubChunkIds::Riff => seq![0x52u8, 0x49, 0x46, 0x46],
        SubChunkIds::Fmt => seq![0x66u8, 0x6d, 0x74, 0x20],
        SubChunkIds::Fact => seq![0x66u8, 0x61, 0x63, 0x74],
        SubChunkIds::Info => seq![0x49u8, 0x4e, 0x46, 0x4f],
        SubChunkIds::List => seq![0x4cu8, 0x49, 0x53, 0x54],
        SubChunkIds::Data => seq![0x64u8, 0x61, 0x74, 0x61],
    }
}

/// The kind a tag names, matched byte for byte; `None` for any other tag.
pub open spec fn kind_of(t: Seq<u8>) -> Option<SubChunkIds> {
    if t == tag_of(SubChunkIds::Riff) {
        Some(SubChunkIds::Riff)
    } else if t == tag_of(SubChunkIds::Fmt) {
        Some(SubChunkIds::Fmt)
    } else if t == tag_of(SubChunkIds::Fact) {
        Some(SubChunkIds::Fact)
    } else if t == tag_of(SubChunkIds::Info) {
        Some(SubChunkIds::Info)
    } else if t == tag_of(SubChunkIds::List) {
        Some(SubChunkIds::List)
    } else if t == tag_of(SubChunkIds::Data) {
        Some(SubChunkIds::Data)
    } else {
        None
    }
}

/// The decoder of each kind, with the size field at `p`.
pub open spec fn chunk_at(id: SubChunkIds, d: Seq<u8>, p: int) -> Result<
    (SubChunkView, int),
    WavError,
> {
    match id {
        SubChunkIds::Riff => riff_at(d, p),
        SubChunkIds::Fmt => fmt_at(d, p),
        SubChunkIds::Fact => fact_at(d, p),
        SubChunkIds::Info => info_at(d, p),
        SubChunkIds::List => list_at(d, p),
        SubChunkIds::Data => data_at(d, p),
    }
}

/// A chunk put in front of the rest of a decoding.
pub open spec fn with_chunk(c: SubChunkView, rest: Result<WavView, WavError>) -> Result<
    WavView,
    WavError,
> {
    match rest {
        Ok(w) => Ok(WavView { chunks: seq![c] + w.chunks, skipped: w.skipped }),
        Err(e) => Err(e),
    }
}

/// A skipped chunk put in front of the rest of a decoding.
pub open spec fn with_skipped(s: SkippedView, rest: Result<WavView, WavError>) -> Result<
    WavView,
    WavError,
> {
    match rest {
        Ok(w) => Ok(WavView { chunks: w.chunks, skipped: seq![s] + w.skipped }),
        Err(e) => Err(e),
    }
}

/// Decoding the chunks that start at `pos`: a tag, then the chunk that its
/// kind's decoder reads, up to and including a `data` chunk or to the end
/// of the buffer.
#[verifier::opaque]
pub open spec fn walk(d: Seq<u8>, pos: int) -> Result<WavView, WavError>
    decreases d.len() - pos,
{
    if pos < 0 || pos >= d.len() {
        Ok(WavView { chunks: seq![], skipped: seq![] })
    } else if pos + 4 > d.len() {
        Err(WavError::OutOfBounds)
    } else {
        let t = d.subrange(pos, pos + 4);
        match kind_of(t) {
            Some(id) => match chunk_at(id, d, pos + 4) {
                Ok((c, next)) => if id == SubChunkIds::Data {
                    Ok(WavView { chunks: seq![c], skipped: seq![] })
                } else {
                    with_chunk(c, walk(d, next))
                },
                Err(e) => Err(e),
            },
            None => match skip_at(d, pos + 4) {
                Ok(next) => with_skipped(SkippedView { tag: t, offset: pos }, walk(d, next)),
                Err(e) => Err(e),
            },
        }
    }
}

/// Whether a buffer begins with the bytes `RIFF`.
pub open spec fn has_signature(d: Seq<u8>) -> bool {
    d.len() >= 4 && d.subrange(0, 4) == tag_of(SubChunkIds::Riff)
}

/// Decoding a whole buffer.
pub open spec fn parse_wav(d: Seq<u8>) -> Result<WavView, WavError> {
    if !has_signature(d) {
        Err(WavError::InvalidSignature)
    } else {
        walk(d, 0)
    }
}

/// Adds the chunks and skipped records gathered so far in front of the
/// rest of a decoding.
pub open spec fn after(
    chunks: Seq<SubChunkView>,
    skipped: Seq<SkippedView>,
    rest: Result<WavView, WavError>,
) -> Result<WavView, WavError> {
    match rest {
        Ok(w) => Ok(WavView { chunks: chunks + w.chunks, skipped: skipped + w.skipped }),
        Err(e) => Err(e),
    }
}

/// Whether the four bytes of `t` are `a`, `b`, `c`, `e` in that order.
fn tag_is(t: &[u8; 4], a: u8, b: u8, c: u8, e: u8) -> (r: bool)
    ensures
        r == (t@ == seq![a, b, c, e]),
{
    if t[0] == a && t[1] == b && t[2] == c && t[3] == e {
        assert(t@ =~= seq![a, b, c, e]);
        true
    } else {
        assert(t@ != seq![a, b, c, e]) by {
            if t@ == seq![a, b, c, e] {
                assert(t@[0] == a && t@[1] == b && t@[2] == c && t@[3] == e);
            }
        };
        false
    }
}

/// Runs the decoder of the kind `id` on the chunk whose size field is next.
fn decode_chunk(id: SubChunkIds, cur: &mut Cursor) -> (r: Result<SubChunk, WavError>)
    requires
        old(cur).wf(),
    ensures
        final(cur).wf(),
        final(cur).data() == old(cur).data(),
        decoded(chunk_at(id, old(cur).data(), old(cur).pos()), r, *final(cur)),
{
    match id {
        SubChunkIds::Riff => decode_riff(cur),
        SubChunkIds::Fmt => decode_fmt(cur),
        SubChunkIds::Fact => decode_fact(cur),
        SubChunkIds::Info => decode_info(cur),
        SubChunkIds::List => decode_list(cur),
        SubChunkIds::Data => decode_data(cur),
    }
}

/// One step of the walk over a chunk of a decoded kind.
proof fn lemma_walk_chunk(d: Seq<u8>, pos: int, id: SubChunkIds, c: SubChunkView, next: int)
    requires
        0 <= pos,
        pos + 4 <= d.len(),
        kind_of(d.subrange(pos, pos + 4)) == Some(id),
        chunk_at(id, d, pos + 4) == Ok::<(SubChunkView, int), WavError>((c, next)),
    ensures
        id == SubChunkIds::Data ==> walk(d, pos) == Ok::<WavView, WavError>(
            WavView { chunks: seq![c], skipped: seq![] },
        ),
        id != SubChunkIds::Data ==> walk(d, pos) == with_chunk(c, walk(d, next)),
{
    reveal_with_fuel(walk, 1);
}

/// The walk fails where the tag cannot be read or where a decoder fails.
proof fn lemma_walk_fails(d: Seq<u8>, pos: int, e: WavError)
    requires
        0 <= pos < d.len(),
        pos + 4 > d.len() ==> e == WavError::OutOfBounds,
        pos + 4 <= d.len() ==> match kind_of(d.subrange(pos, pos + 4)) {
            Some(id) => chunk_at(id, d, pos + 4) == Err::<(SubChunkView, int), WavError>(e),
            None => skip_at(d, pos + 4) == Err::<int, WavError>(e),
        },
    ensures
        walk(d, pos) == Err::<WavView, WavError>(e),
{
    reveal_with_fuel(walk, 1);
}

/// One step of the walk over a chunk that is passed over.
proof fn lemma_walk_skip(d: Seq<u8>, pos: int, next: int)
    requires
        0 <= pos,
        pos + 4 <= d.len(),
        kind_of(d.subrange(pos, pos + 4)) is None,
        skip_at(d, pos + 4) == Ok::<int, WavError>(next),
    ensures
        walk(d, pos) == with_skipped(
            SkippedView { tag: d.subrange(pos, pos + 4), offset: pos },
            walk(d, next),
        ),
{
    reveal_with_fuel(walk, 1);
}

/// Moving a decoded chunk from the rest of the walk to what was gathered.
proof fn lemma_after_chunk(
    cv: Seq<SubChunkView>,
    sv: Seq<SkippedView>,
    c: SubChunkView,
    rest: Result<WavView, WavError>,
)
    ensures
        after(cv, sv, with_chunk(c, rest)) == after(cv.push(c), sv, rest),
        after(cv, sv, Ok(WavView { chunks: seq![c], skipped: seq![] })) == after(
            cv.push(c),
            sv,
            Ok(WavView { chunks: seq![], skipped: seq![] }),
        ),
{
    if rest is Ok {
        assert(cv + (seq![c] + rest->Ok_0.chunks) =~= cv.push(c) + rest->Ok_0.chunks);
    }
    assert(cv + seq![c] =~= cv.push(c) + Seq::<SubChunkView>::empty());
    assert(sv + Seq::<SkippedView>::empty() =~= sv);
}

/// Moving a skipped record from the rest of the walk to what was gathered.
proof fn lemma_after_skip(
    cv: Seq<SubChunkView>,
    sv: Seq<SkippedView>,
    s: SkippedView,
    rest: Result<WavView, WavError>,
)
    ensures
        after(cv, sv, with_skipped(s, rest)) == after(cv, sv.push(s), rest),
{
    if rest is Ok {
        assert(sv + (seq![s] + rest->Ok_0.skipped) =~= sv.push(s) + rest->Ok_0.skipped);
    }
}

impl WavFile {
    /// Decodes a complete RIFF/WAVE buffer. Fails with `InvalidSignature`
    /// when it does not begin with `RIFF`, before any chunk is read; else
    /// the result is the walk over its chunks from offset 0.
    pub fn new(d: Vec<u8>) -> (r: Result<WavFile, WavError>)
        ensures
            match parse_wav(d@) {
                Ok(w) => r is Ok && r->Ok_0@ == w,
                Err(e) => r is Err && r->Err_0 == e,
            },
    {
        if d.len() < 4 || !(d[0] == 0x52 && d[1] == 0x49 && d[2] == 0x46 && d[3] == 0x46) {
            assert(!has_signature(d@)) by {
                if has_signature(d@) {
                    assert(d@.subrange(0, 4)[0] == 0x52 && d@.subrange(0, 4)[1] == 0x49);
                    assert(d@.subrange(0, 4)[2] == 0x46 && d@.subrange(0, 4)[3] == 0x46);
                }
            };
            return Err(WavError::InvalidSignature);
        }
        assert(d@.subrange(0, 4) =~= tag_of(SubChunkIds::Riff));
        WavFile::_parse_wav_file(d)
    }

    /// The kind that a chunk tag names, byte for byte; `None` for a tag
    /// that is passed over.
    pub fn _determine_id(tag: &[u8; 4]) -> (r: Option<SubChunkIds>)
        ensures
            r == kind_of(tag@),
    {
        if tag_is(tag, 0x52, 0x49, 0x46, 0x46) {
            Some(SubChunkIds::Riff)
        } else if tag_is(tag, 0x66, 0x6d, 0x74, 0x20) {
            Some(SubChunkIds::Fmt)
        } else if tag_is(tag, 0x66, 0x61, 0x63, 0x74) {
            Some(SubChunkIds::Fact)
        } else if tag_is(tag, 0x49, 0x4e, 0x46, 0x4f) {
            Some(SubChunkIds::Info)
        } else if tag_is(tag, 0x4c, 0x49, 0x53, 0x54) {
            Some(SubChunkIds::List)
        } else if tag_is(tag, 0x64, 0x61, 0x74, 0x61) {
            Some(SubChunkIds::Data)
        } else {
            None
        }
    }

    /// The chunk loop: reads a tag, runs the decoder of its kind or passes
    /// the chunk over, and stops after a `data` chunk or at the end of the
    /// buffer.
    fn _parse_wav_file(d: Vec<u8>) -> (r: Result<WavFile, WavError>)
        ensures
            match walk(d@, 0) {
                Ok(w) => r is Ok && r->Ok_0@ == w,
                Err(e) => r is Err && r->Err_0 == e,
            },
    {
        let mut cur = Cursor::new(d);
        let mut sub_chunks: Vec<SubChunk> = Vec::new();
        let mut skipped: Vec<SkippedChunk> = Vec::new();
        let ghost d0 = cur.data();
        while !cur.at_end()
            invariant
                cur.wf(),
                cur.data() == d0,
                d0 == d@,
                walk(d0, 0) == after(
                    sub_chunks@.map_values(|c: SubChunk| c@),
                    skipped@.map_values(|s: SkippedChunk| s@),
                    walk(d0, cur.pos()),
                ),
            decreases d0.len() - cur.pos(),
        {
            let ghost pos = cur.pos();
            let ghost cv = sub_chunks@.map_values(|c: SubChunk| c@);
            let ghost sv = skipped@.map_values(|s: SkippedChunk| s@);
            let at = cur.offset();
            let tag = match cur.read_tag4() {
                Ok(t) => t,
                Err(e) => {
                    proof {
                        lemma_walk_fails(d0, pos, e);
                    }
                    return Err(e);
                },
            };
            assert(tag@ == d0.subrange(pos, pos + 4));
            match WavFile::_determine_id(&tag) {
                Some(id) => {
                    let c = match decode_chunk(id, &mut cur) {
                        Ok(c) => c,
                        Err(e) => {
                            proof {
                                lemma_walk_fails(d0, pos, e);
                            }
                            return Err(e);
                        },
                    };
                    let is_data = id == SubChunkIds::Data;
                    proof {
                        lemma_walk_chunk(d0, pos, id, c@, cur.pos());
                        lemma_after_chunk(cv, sv, c@, walk(d0, cur.pos()));
                    }
                    sub_chunks.push(c);
                    assert(sub_chunks@.map_values(|c: SubChunk| c@) =~= cv.push(c@));
                    if is_data {
                        return Ok(WavFile { sub_chunks, skipped });
                    }
                },
                None => {
                    match skip_chunk(&mut cur) {
                        Ok(()) => {},
                        Err(e) => {
                            proof {
                                lemma_walk_fails(d0, pos, e);
                            }
                            return Err(e);
                        },
                    }
                    let s = SkippedChunk { tag, offset: at };
                    proof {
                        lemma_walk_skip(d0, pos, cur.pos());
                        lemma_after_skip(cv, sv, s@, walk(d0, cur.pos()));
                    }
                    skipped.push(s);
                    assert(skipped@.map_values(|s: SkippedChunk| s@) =~= sv.push(s@));
                },
            }
        }
        proof {
            reveal_with_fuel(walk, 1);
        }
        let w = WavFile { sub_chunks, skipped };
        assert(w@.chunks =~= w@.chunks + Seq::<SubChunkView>::empty());
        assert(w@.skipped =~= w@.skipped + Seq::<SkippedView>::empty());
        Ok(w)
    }
    /// The last stored chunk of kind `id`, or `None` where the buffer held
    /// none (for `Data`: no sample data).
    pub fn get(&self, id: SubChunkIds) -> (r: Option<&SubChunk>)
        ensures
            match r {
                Some(c) => exists|k: int|
                    0 <= k < self.sub_chunks@.len() && self.sub_chunks@[k] == *c && c.id == id
                        && forall|j: int|
                        k < j < self.sub_chunks@.len() ==> #[trigger] self.sub_chunks@[j].id != id,
                None => forall|j: int|
                    0 <= j < self.sub_chunks@.len() ==> #[trigger] self.sub_chunks@[j].id != id,
            },
    {
        let mut i: usize = self.sub_chunks.len();
        while i > 0
            invariant
                i <= self.sub_chunks@.len(),
                forall|j: int|
                    i <= j < self.sub_chunks@.len() ==> #[trigger] self.sub_chunks@[j].id != id,
            decreases i,
        {
            i = i - 1;
            if self.sub_chunks[i].id == id {
                return Some(&self.sub_chunks[i]);
            }
        }
        None
    }
}

} // verus!
