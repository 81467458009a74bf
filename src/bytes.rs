//! Little-endian primitives: the value of a byte window, the bytes of a value,
//! and a bounds-checked read cursor over an in-memory buffer.
use vstd::prelude::*;

verus! {

/// Why a decode could not finish.
#[derive(Clone, Copy, Debug, PartialEq, Eq, Structural)]
pub enum DecodeError {
    /// A read or seek would have gone past the end of the buffer.
    TruncatedInput,
    /// A declared size or count disagrees with the fixed record layout.
    StructuralMismatch,
}

/// The byte at `i`, as an `int`.
pub open spec fn byte(s: Seq<u8>, i: int) -> int {
    s[i] as int
}

/// The unsigned 16-bit little-endian value stored at `s[i..i + 2]`.
pub open spec fn le_u16(s: Seq<u8>, i: int) -> u16 {
    (byte(s, i) + 256 * byte(s, i + 1)) as u16
}

/// The unsigned 32-bit little-endian value stored at `s[i..i + 4]`.
pub open spec fn le_u32(s: Seq<u8>, i: int) -> u32 {
    (byte(s, i) + 256 * byte(s, i + 1) + 65536 * byte(s, i + 2) + 16777216 * byte(s, i + 3)) as u32
}

/// The unsigned 64-bit little-endian value stored at `s[i..i + 8]`.
pub open spec fn le_u64(s: Seq<u8>, i: int) -> u64 {
    (le_u32(s, i) + 4294967296 * le_u32(s, i + 4)) as u64
}

/// A byte read as a two's-complement signed value.
pub open spec fn i8_of(b: u8) -> i8 {
    if b < 128 {
        b as i8
    } else {
        (b as int - 256) as i8
    }
}

/// The two's-complement byte of a signed value.
pub open spec fn byte_of_i8(v: i8) -> u8 {
    if v >= 0 {
        v as u8
    } else {
        (v as int + 256) as u8
    }
}

/// The two little-endian bytes of `v`.
pub open spec fn bytes_u16(v: u16) -> Seq<u8> {
    seq![(v % 256) as u8, (v / 256) as u8]
}

/// The four little-endian bytes of `v`.
pub open spec fn bytes_u32(v: u32) -> Seq<u8> {
    seq![(v % 256) as u8, (v / 256 % 256) as u8, (v / 65536 % 256) as u8, (v / 16777216) as u8]
}

/// The eight little-endian bytes of `v`.
pub open spec fn bytes_u64(v: u64) -> Seq<u8> {
    bytes_u32((v % 4294967296) as u32) + bytes_u32((v / 4294967296) as u32)
}

/// Reading back the bytes of a `u16` gives the value.
pub proof fn lemma_u16_round_trip(v: u16, s: Seq<u8>, i: int)
    requires
        0 <= i,
        i + 2 <= s.len(),
        s.subrange(i, i + 2) == bytes_u16(v),
    ensures
        le_u16(s, i) == v,
{
    assert(s[i] == s.subrange(i, i + 2)[0]);
    assert(s[i + 1] == s.subrange(i, i + 2)[1]);
    assert((v % 256) + 256 * (v / 256) == v) by (bit_vector);
}

/// Reading back the bytes of a `u32` gives the value.
pub proof fn lemma_u32_round_trip(v: u32, s: Seq<u8>, i: int)
    requires
        0 <= i,
        i + 4 <= s.len(),
        s.subrange(i, i + 4) == bytes_u32(v),
    ensures
        le_u32(s, i) == v,
{
    assert(s[i] == s.subrange(i, i + 4)[0]);
    assert(s[i + 1] == s.subrange(i, i + 4)[1]);
    assert(s[i + 2] == s.subrange(i, i + 4)[2]);
    assert(s[i + 3] == s.subrange(i, i + 4)[3]);
    assert((v % 256) + 256 * (v / 256 % 256) + 65536 * (v / 65536 % 256) + 16777216 * (v / 16777216)
        == v) by (bit_vector);
}

/// Reading back the bytes of a `u64` gives the value.
pub proof fn lemma_u64_round_trip(v: u64, s: Seq<u8>, i: int)
    requires
        0 <= i,
        i + 8 <= s.len(),
        s.subrange(i, i + 8) == bytes_u64(v),
    ensures
        le_u64(s, i) == v,
{
    let lo = (v % 4294967296) as u32;
    let hi = (v / 4294967296) as u32;
    assert(s.subrange(i, i + 4) =~= s.subrange(i, i + 8).subrange(0, 4));
    assert(s.subrange(i + 4, i + 8) =~= s.subrange(i, i + 8).subrange(4, 8));
    assert(bytes_u64(v).subrange(0, 4) =~= bytes_u32(lo));
    assert(bytes_u64(v).subrange(4, 8) =~= bytes_u32(hi));
    lemma_u32_round_trip(lo, s, i);
    lemma_u32_round_trip(hi, s, i + 4);
    assert((v % 4294967296) + 4294967296 * (v / 4294967296) == v) by (bit_vector);
}

/// A signed byte survives being written and read back.
pub proof fn lemma_i8_round_trip(v: i8)
    ensures
        i8_of(byte_of_i8(v)) == v,
{
}

/// A buffer position that can read forward and seek, never past the end.
pub struct Cursor<'a> {
    data: &'a [u8],
    pos: usize,
}

impl<'a> Cursor<'a> {
    /// The bytes being read.
    pub closed spec fn data(&self) -> Seq<u8> {
        self.data@
    }

    /// The current offset from the start of the buffer.
    pub closed spec fn pos(&self) -> int {
        self.pos as int
    }

    pub closed spec fn wf(&self) -> bool {
        self.pos <= self.data@.len()
    }

    /// A cursor at the start of `data`.
    pub fn new(data: &'a [u8]) -> (r: Cursor<'a>)
        ensures
            r.wf(),
            r.data() == data@,
            r.pos() == 0,
    {
        Cursor { data, pos: 0 }
    }

    /// The length of the buffer.
    pub fn len(&self) -> (r: usize)
        ensures
            r == self.data().len(),
    {
        self.data.len()
    }

    /// The current offset.
    pub fn position(&self) -> (r: usize)
        ensures
            r == self.pos(),
            self.wf() ==> r <= self.data().len(),
    {
        self.pos
    }

    /// Moves to the absolute offset `to`; fails, without moving, past the end.
    pub fn seek_to(&mut self, to: usize) -> (r: Result<(), DecodeError>)
        requires
            old(self).wf(),
        ensures
            final(self).wf(),
            final(self).data() == old(self).data(),
            r is Ok <==> to <= old(self).data().len(),
            r is Ok ==> final(self).pos() == to,
            r is Err ==> r == Err::<(), DecodeError>(DecodeError::TruncatedInput) && final(self).pos()
                == old(self).pos(),
    {
        if to <= self.data.len() {
            self.pos = to;
            Ok(())
        } else {
            Err(DecodeError::TruncatedInput)
        }
    }

    /// Moves forward by `n` bytes; fails, without moving, past the end.
    pub fn skip(&mut self, n: usize) -> (r: Result<(), DecodeError>)
        requires
            old(self).wf(),
        ensures
            final(self).wf(),
            final(self).data() == old(self).data(),
            r is Ok <==> old(self).pos() + n <= old(self).data().len(),
            r is Ok ==> final(self).pos() == old(self).pos() + n,
            r is Err ==> r == Err::<(), DecodeError>(DecodeError::TruncatedInput) && final(self).pos()
                == old(self).pos(),
    {
        if n <= self.data.len() - self.pos {
            self.pos = self.pos + n;
            Ok(())
        } else {
            Err(DecodeError::TruncatedInput)
        }
    }

    /// Reads one unsigned byte.
    pub fn read_u8(&mut self) -> (r: Result<u8, DecodeError>)
        requires
            old(self).wf(),
        ensures
            final(self).wf(),
            final(self).data() == old(self).data(),
            r is Ok <==> old(self).pos() + 1 <= old(self).data().len(),
            r is Ok ==> r->Ok_0 == old(self).data()[old(self).pos()] && final(self).pos()
                == old(self).pos() + 1,
            r is Err ==> r->Err_0 == DecodeError::TruncatedInput && final(self).pos()
                == old(self).pos(),
    {
        if self.pos < self.data.len() {
            let b = self.data[self.pos];
            self.pos = self.pos + 1;
            Ok(b)
        } else {
            Err(DecodeError::TruncatedInput)
        }
    }

    /// Reads one two's-complement signed byte.
    pub fn read_i8(&mut self) -> (r: Result<i8, DecodeError>)
        requires
            old(self).wf(),
        ensures
            final(self).wf(),
            final(self).data() == old(self).data(),
            r is Ok <==> old(self).pos() + 1 <= old(self).data().len(),
            r is Ok ==> r->Ok_0 == i8_of(old(self).data()[old(self).pos()]) && final(self).pos()
                == old(self).pos() + 1,
            r is Err ==> r->Err_0 == DecodeError::TruncatedInput && final(self).pos()
                == old(self).pos(),
    {
        let b = self.read_u8()?;
        if b < 128 {
            Ok(b as i8)
        } else {
            Ok((b as i16 - 256) as i8)
        }
    }

    /// Reads a little-endian `u16`.
    pub fn read_u16(&mut self) -> (r: Result<u16, DecodeError>)
        requires
            old(self).wf(),
        ensures
            final(self).wf(),
            final(self).data() == old(self).data(),
            r is Ok <==> old(self).pos() + 2 <= old(self).data().len(),
            r is Ok ==> r->Ok_0 == le_u16(old(self).data(), old(self).pos()) && final(self).pos()
                == old(self).pos() + 2,
            r is Err ==> r->Err_0 == DecodeError::TruncatedInput && final(self).pos()
                == old(self).pos(),
    {
        if self.data.len() - self.pos >= 2 {
            let b0 = self.data[self.pos] as u16;
            let b1 = self.data[self.pos + 1] as u16;
            self.pos = self.pos + 2;
            Ok(b0 + 256 * b1)
        } else {
            Err(DecodeError::TruncatedInput)
        }
    }

    /// Reads a little-endian `u32`.
    pub fn read_u32(&mut self) -> (r: Result<u32, DecodeError>)
        requires
            old(self).wf(),
        ensures
            final(self).wf(),
            final(self).data() == old(self).data(),
            r is Ok <==> old(self).pos() + 4 <= old(self).data().len(),
            r is Ok ==> r->Ok_0 == le_u32(old(self).data(), old(self).pos()) && final(self).pos()
                == old(self).pos() + 4,
            r is Err ==> r->Err_0 == DecodeError::TruncatedInput && final(self).pos()
                == old(self).pos(),
    {
        if self.data.len() - self.pos >= 4 {
            let b0 = self.data[self.pos] as u32;
            let b1 = self.data[self.pos + 1] as u32;
            let b2 = self.data[self.pos + 2] as u32;
            let b3 = self.data[self.pos + 3] as u32;
            self.pos = self.pos + 4;
            Ok(b0 + 256 * b1 + 65536 * b2 + 16777216 * b3)
        } else {
            Err(DecodeError::TruncatedInput)
        }
    }

    /// Reads a little-endian `u64`.
    pub fn read_u64(&mut self) -> (r: Result<u64, DecodeError>)
        requires
            old(self).wf(),
        ensures
            final(self).wf(),
            final(self).data() == old(self).data(),
            r is Ok <==> old(self).pos() + 8 <= old(self).data().len(),
            r is Ok ==> r->Ok_0 == le_u64(old(self).data(), old(self).pos()) && final(self).pos()
                == old(self).pos() + 8,
            r is Err ==> r->Err_0 == DecodeError::TruncatedInput && final(self).pos()
                == old(self).pos(),
    {
        if self.data.len() - self.pos < 8 {
            return Err(DecodeError::TruncatedInput);
        }
        let lo = self.read_u32()?;
        let hi = self.read_u32()?;
        Ok(lo as u64 + 4294967296 * hi as u64)
    }
}

/// Appends the eight little-endian bytes of `v`.
pub fn push_u64(out: &mut Vec<u8>, v: u64)
    ensures
        final(out)@ == old(out)@ + bytes_u64(v),
{
    push_u32(out, (v % 4294967296) as u32);
    push_u32(out, (v / 4294967296) as u32);
    assert(out@ =~= old(out)@ + bytes_u64(v));
}

/// Appends the two's-complement byte of `v`.
pub fn push_i8(out: &mut Vec<u8>, v: i8)
    ensures
        final(out)@ == old(out)@.push(byte_of_i8(v)),
{
    if v >= 0 {
        out.push(v as u8);
    } else {
        out.push((v as i16 + 256) as u8);
    }
}

/// Appends the two little-endian bytes of `v`.
pub fn push_u16(out: &mut Vec<u8>, v: u16)
    ensures
        final(out)@ == old(out)@ + bytes_u16(v),
{
    out.push((v % 256) as u8);
    out.push((v / 256) as u8);
    assert(out@ =~= old(out)@ + bytes_u16(v));
}

/// Appends the four little-endian bytes of `v`.
pub fn push_u32(out: &mut Vec<u8>, v: u32)
    ensures
        final(out)@ == old(out)@ + bytes_u32(v),
{
    out.push((v % 256) as u8);
    out.push((v / 256 % 256) as u8);
    out.push((v / 65536 % 256) as u8);
    out.push((v / 16777216) as u8);
    assert(out@ =~= old(out)@ + bytes_u32(v));
}

} // verus!
