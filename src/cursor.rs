//! A bounds-checked sequential reader over a byte buffer, and the
//! little-endian primitives every chunk decoder is built on.

use vstd::prelude::*;

verus! {

/// The ways decoding a container can fail.
#[derive(PartialEq, Eq, Structural, Debug, Clone, Copy)]
pub enum WavError {
    /// The buffer does not begin with the bytes `RIFF`.
    InvalidSignature,
    /// A read would go past the end of the buffer.
    OutOfBounds,
    /// A `fmt ` chunk names a format code other than 1, 3 or 7.
    UnsupportedFormatTag,
    /// A `LIST` chunk's type is not `INFO`.
    UnsupportedListType,
}

/// The unsigned value of the two bytes at `i`, least significant first.
pub open spec fn u16_le(b: Seq<u8>, i: int) -> int {
    b[i] as int + 256 * (b[i + 1] as int)
}

/// The unsigned value of the four bytes at `i`, least significant first.
pub open spec fn u32_le(b: Seq<u8>, i: int) -> int {
    b[i] as int + 256 * (b[i + 1] as int) + 65536 * (b[i + 2] as int) + 16777216 * (b[i + 3] as int)
}

/// Sequential reader: a buffer and an offset into it. No operation reads
/// past the end; a read that would fails with `OutOfBounds` and leaves the
/// offset where it was.
pub struct Cursor {
    buf: Vec<u8>,
    pos: usize,
}

impl Cursor {
    /// The bytes being read.
    pub closed spec fn data(&self) -> Seq<u8> {
        self.buf@
    }

    /// The offset of the next byte to be read.
    pub closed spec fn pos(&self) -> int {
        self.pos as int
    }

    pub open spec fn wf(&self) -> bool {
        0 <= self.pos() <= self.data().len()
    }

    /// Whether `n` more bytes can be read.
    pub open spec fn has(&self, n: int) -> bool {
        self.pos() + n <= self.data().len()
    }

    /// Starts reading `buf` at offset 0.
    pub fn new(buf: Vec<u8>) -> (r: Cursor)
        ensures
            r.data() == buf@,
            r.pos() == 0,
            r.wf(),
    {
        Cursor { buf, pos: 0 }
    }

    /// The current offset.
    pub fn offset(&self) -> (r: usize)
        ensures
            r == self.pos(),
    {
        self.pos
    }

    /// The number of bytes left to read.
    pub fn remaining(&self) -> (r: usize)
        requires
            self.wf(),
        ensures
            r == self.data().len() - self.pos(),
    {
        self.buf.len() - self.pos
    }

    /// Whether every byte has been read.
    pub fn at_end(&self) -> (r: bool)
        requires
            self.wf(),
        ensures
            r == (self.pos() == self.data().len()),
    {
        self.pos == self.buf.len()
    }

    /// Reads a little-endian `u16`.
    pub fn read_u16_le(&mut self) -> (r: Result<u16, WavError>)
        requires
            old(self).wf(),
        ensures
            final(self).wf(),
            final(self).data() == old(self).data(),
            old(self).has(2) ==> r == Ok::<u16, WavError>(u16_le(old(self).data(), old(self).pos()) as u16)
                && final(self).pos() == old(self).pos() + 2,
            !old(self).has(2) ==> r == Err::<u16, WavError>(WavError::OutOfBounds)
                && final(self).pos() == old(self).pos(),
    {
        if self.buf.len() - self.pos < 2 {
            return Err(WavError::OutOfBounds);
        }
        let p = self.pos;
        let v: u16 = self.buf[p] as u16 + 256 * (self.buf[p + 1] as u16);
        self.pos = p + 2;
        Ok(v)
    }

    /// Reads a little-endian `u32`.
    pub fn read_u32_le(&mut self) -> (r: Result<u32, WavError>)
        requires
            old(self).wf(),
        ensures
            final(self).wf(),
            final(self).data() == old(self).data(),
            old(self).has(4) ==> r == Ok::<u32, WavError>(u32_le(old(self).data(), old(self).pos()) as u32)
                && final(self).pos() == old(self).pos() + 4,
            !old(self).has(4) ==> r == Err::<u32, WavError>(WavError::OutOfBounds)
                && final(self).pos() == old(self).pos(),
    {
        if self.buf.len() - self.pos < 4 {
            return Err(WavError::OutOfBounds);
        }
        let p = self.pos;
        let v: u32 = self.buf[p] as u32 + 256 * (self.buf[p + 1] as u32) + 65536 * (
        self.buf[p + 2] as u32) + 16777216 * (self.buf[p + 3] as u32);
        self.pos = p + 4;
        Ok(v)
    }

    /// Reads a four-byte tag, whatever bytes it holds.
    pub fn read_tag4(&mut self) -> (r: Result<[u8; 4], WavError>)
        requires
            old(self).wf(),
        ensures
            final(self).wf(),
            final(self).data() == old(self).data(),
            old(self).has(4) ==> r is Ok && r->Ok_0@ == old(self).data().subrange(
                old(self).pos(),
                old(self).pos() + 4,
            ) && final(self).pos() == old(self).pos() + 4,
            !old(self).has(4) ==> r == Err::<[u8; 4], WavError>(WavError::OutOfBounds)
                && final(self).pos() == old(self).pos(),
    {
        if self.buf.len() - self.pos < 4 {
            return Err(WavError::OutOfBounds);
        }
        let p = self.pos;
        let t: [u8; 4] = [self.buf[p], self.buf[p + 1], self.buf[p + 2], self.buf[p + 3]];
        self.pos = p + 4;
        assert(t@ =~= self.buf@.subrange(p as int, p + 4));
        Ok(t)
    }
    /// Reads `n` bytes as an opaque blob.
    pub fn read_bytes(&mut self, n: usize) -> (r: Result<Vec<u8>, WavError>)
        requires
            old(self).wf(),
        ensures
            final(self).wf(),
            final(self).data() == old(self).data(),
            old(self).has(n as int) ==> r is Ok && r->Ok_0@ == old(self).data().subrange(
                old(self).pos(),
                old(self).pos() + n,
            ) && final(self).pos() == old(self).pos() + n,
            !old(self).has(n as int) ==> r == Err::<Vec<u8>, WavError>(WavError::OutOfBounds)
                && final(self).pos() == old(self).pos(),
    {
        if self.buf.len() - self.pos < n {
            return Err(WavError::OutOfBounds);
        }
        let start = self.pos;
        let mut out: Vec<u8> = Vec::with_capacity(n);
        let mut i: usize = 0;
        while i < n
            invariant
                i <= n,
                start + n <= self.buf.len(),
                out@ == self.buf@.subrange(start as int, start + i),
            decreases n - i,
        {
            out.push(self.buf[start + i]);
            i = i + 1;
            assert(out@ =~= self.buf@.subrange(start as int, start + i));
        }
        self.pos = start + n;
        Ok(out)
    }

    /// Reads every byte that is left; never fails.
    pub fn read_rest(&mut self) -> (r: Vec<u8>)
        requires
            old(self).wf(),
        ensures
            final(self).wf(),
            final(self).data() == old(self).data(),
            r@ == old(self).data().subrange(old(self).pos(), old(self).data().len() as int),
            final(self).pos() == old(self).data().len(),
    {
        let n = self.remaining();
        match self.read_bytes(n) {
            Ok(v) => v,
            Err(_) => Vec::new(),
        }
    }

    /// Moves `n` bytes ahead without reading them.
    pub fn skip(&mut self, n: usize) -> (r: Result<(), WavError>)
        requires
            old(self).wf(),
        ensures
            final(self).wf(),
            final(self).data() == old(self).data(),
            old(self).has(n as int) ==> r is Ok && final(self).pos() == old(self).pos() + n,
            !old(self).has(n as int) ==> r == Err::<(), WavError>(WavError::OutOfBounds)
                && final(self).pos() == old(self).pos(),
    {
        if self.buf.len() - self.pos < n {
            return Err(WavError::OutOfBounds);
        }
        self.pos = self.pos + n;
        Ok(())
    }
}

} // verus!
