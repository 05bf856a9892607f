//! Big-endian reads of fixed-width integers from a byte stream.
//!
//! A stream is modelled by the sequence of bytes it has yet to yield. Each
//! read either consumes exactly the width of what it reads and returns the
//! value, or fails with [`Error::EndOfStream`]; nothing is ever read short.
//! IEEE-754 values travel as their bit patterns: a 32-bit pattern is read with
//! `read_u32`, a 64-bit one with `read_u64`.

use crate::error::Error;
use vstd::prelude::*;
use vstd::slice::slice_subrange;
use vstd::slice::slice_to_vec;

verus! {

/// The unsigned value of the first byte of `s`.
pub open spec fn be_u8(s: Seq<u8>) -> u8 {
    s[0]
}

/// The unsigned value of the first two bytes of `s`, most significant first.
pub open spec fn be_u16(s: Seq<u8>) -> u16 {
    (s[0] as int * 0x100 + s[1] as int) as u16
}

/// The unsigned value of the first four bytes of `s`, most significant first.
pub open spec fn be_u32(s: Seq<u8>) -> u32 {
    (be_u16(s) as int * 0x1_0000 + be_u16(s.skip(2)) as int) as u32
}

/// The unsigned value of the first eight bytes of `s`, most significant first.
pub open spec fn be_u64(s: Seq<u8>) -> u64 {
    (be_u32(s) as int * 0x1_0000_0000 + be_u32(s.skip(4)) as int) as u64
}

/// The unsigned value of the first sixteen bytes of `s`, most significant
/// first.
pub open spec fn be_u128(s: Seq<u8>) -> u128 {
    (be_u64(s) as int * 0x1_0000_0000_0000_0000 + be_u64(s.skip(8)) as int) as u128
}

/// The two's-complement reading of an 8-bit pattern.
pub open spec fn signed8(v: u8) -> i8 {
    if v >= 0x80 {
        (v as int - 0x100) as i8
    } else {
        v as i8
    }
}

/// The two's-complement reading of a 16-bit pattern.
pub open spec fn signed16(v: u16) -> i16 {
    if v >= 0x8000 {
        (v as int - 0x1_0000) as i16
    } else {
        v as i16
    }
}

/// The two's-complement reading of a 32-bit pattern.
pub open spec fn signed32(v: u32) -> i32 {
    if v >= 0x8000_0000 {
        (v as int - 0x1_0000_0000) as i32
    } else {
        v as i32
    }
}

/// The two's-complement reading of a 64-bit pattern.
pub open spec fn signed64(v: u64) -> i64 {
    if v >= 0x8000_0000_0000_0000 {
        (v as int - 0x1_0000_0000_0000_0000) as i64
    } else {
        v as i64
    }
}

/// The two's-complement reading of a 128-bit pattern.
pub open spec fn signed128(v: u128) -> i128 {
    if v >= 0x8000_0000_0000_0000_0000_0000_0000_0000 {
        (v as int - 0x1_0000_0000_0000_0000_0000_0000_0000_0000) as i128
    } else {
        v as i128
    }
}

/// What reading `n` raw bytes from `s` yields: the bytes and the rest of the
/// stream, or `EndOfStream` when fewer than `n` are left.
pub open spec fn take_bytes(s: Seq<u8>, n: nat) -> Result<(Seq<u8>, Seq<u8>), Error> {
    if s.len() < n {
        Err(Error::EndOfStream)
    } else {
        Ok((s.take(n as int), s.skip(n as int)))
    }
}

/// What reading a `u8` from `s` yields.
pub open spec fn take_u8(s: Seq<u8>) -> Result<(u8, Seq<u8>), Error> {
    if s.len() < 1 {
        Err(Error::EndOfStream)
    } else {
        Ok((be_u8(s), s.skip(1)))
    }
}

/// What reading an `i8` from `s` yields.
pub open spec fn take_i8(s: Seq<u8>) -> Result<(i8, Seq<u8>), Error> {
    if s.len() < 1 {
        Err(Error::EndOfStream)
    } else {
        Ok((signed8(be_u8(s)), s.skip(1)))
    }
}

/// What reading a `u16` from `s` yields.
pub open spec fn take_u16(s: Seq<u8>) -> Result<(u16, Seq<u8>), Error> {
    if s.len() < 2 {
        Err(Error::EndOfStream)
    } else {
        Ok((be_u16(s), s.skip(2)))
    }
}

/// What reading an `i16` from `s` yields.
pub open spec fn take_i16(s: Seq<u8>) -> Result<(i16, Seq<u8>), Error> {
    if s.len() < 2 {
        Err(Error::EndOfStream)
    } else {
        Ok((signed16(be_u16(s)), s.skip(2)))
    }
}

/// What reading a `u32` from `s` yields.
pub open spec fn take_u32(s: Seq<u8>) -> Result<(u32, Seq<u8>), Error> {
    if s.len() < 4 {
        Err(Error::EndOfStream)
    } else {
        Ok((be_u32(s), s.skip(4)))
    }
}

/// What reading an `i32` from `s` yields.
pub open spec fn take_i32(s: Seq<u8>) -> Result<(i32, Seq<u8>), Error> {
    if s.len() < 4 {
        Err(Error::EndOfStream)
    } else {
        Ok((signed32(be_u32(s)), s.skip(4)))
    }
}

/// What reading a `u64` from `s` yields.
pub open spec fn take_u64(s: Seq<u8>) -> Result<(u64, Seq<u8>), Error> {
    if s.len() < 8 {
        Err(Error::EndOfStream)
    } else {
        Ok((be_u64(s), s.skip(8)))
    }
}

/// What reading an `i64` from `s` yields.
pub open spec fn take_i64(s: Seq<u8>) -> Result<(i64, Seq<u8>), Error> {
    if s.len() < 8 {
        Err(Error::EndOfStream)
    } else {
        Ok((signed64(be_u64(s)), s.skip(8)))
    }
}

/// What reading a `u128` from `s` yields.
pub open spec fn take_u128(s: Seq<u8>) -> Result<(u128, Seq<u8>), Error> {
    if s.len() < 16 {
        Err(Error::EndOfStream)
    } else {
        Ok((be_u128(s), s.skip(16)))
    }
}

/// What reading an `i128` from `s` yields.
pub open spec fn take_i128(s: Seq<u8>) -> Result<(i128, Seq<u8>), Error> {
    if s.len() < 16 {
        Err(Error::EndOfStream)
    } else {
        Ok((signed128(be_u128(s)), s.skip(16)))
    }
}

/// What reading `n` consecutive `u16` values from `s` yields.
pub open spec fn take_u16s(s: Seq<u8>, n: nat) -> Result<(Seq<u16>, Seq<u8>), Error> {
    if s.len() < 2 * n {
        Err(Error::EndOfStream)
    } else {
        Ok((Seq::new(n, |i: int| be_u16(s.skip(2 * i))), s.skip(2 * n as int)))
    }
}

/// Whether a read that was expected to behave as `expected` did so: on
/// success it returned the expected value and left the expected rest, on
/// failure it returned the expected error.
pub open spec fn read_as<T>(
    expected: Result<(T, Seq<u8>), Error>,
    got: Result<T, Error>,
    rest: Seq<u8>,
) -> bool {
    match expected {
        Ok((v, r)) => got == Ok::<T, Error>(v) && rest == r,
        Err(e) => got == Err::<T, Error>(e),
    }
}

/// A byte stream from which big-endian integers can be read.
pub trait ReadNum {
    /// The bytes that the stream has yet to yield.
    spec fn remaining(&self) -> Seq<u8>;

    /// Reads one byte.
    fn read_u8(&mut self) -> (res: Result<u8, Error>)
        ensures
            read_as(take_u8(old(self).remaining()), res, final(self).remaining()),
    ;

    /// Reads one byte as a signed value.
    fn read_i8(&mut self) -> (res: Result<i8, Error>)
        ensures
            read_as(take_i8(old(self).remaining()), res, final(self).remaining()),
    ;

    /// Reads two bytes.
    fn read_u16(&mut self) -> (res: Result<u16, Error>)
        ensures
            read_as(take_u16(old(self).remaining()), res, final(self).remaining()),
    ;

    /// Reads two bytes as a signed value.
    fn read_i16(&mut self) -> (res: Result<i16, Error>)
        ensures
            read_as(take_i16(old(self).remaining()), res, final(self).remaining()),
    ;

    /// Reads four bytes.
    fn read_u32(&mut self) -> (res: Result<u32, Error>)
        ensures
            read_as(take_u32(old(self).remaining()), res, final(self).remaining()),
    ;

    /// Reads four bytes as a signed value.
    fn read_i32(&mut self) -> (res: Result<i32, Error>)
        ensures
            read_as(take_i32(old(self).remaining()), res, final(self).remaining()),
    ;

    /// Reads eight bytes.
    fn read_u64(&mut self) -> (res: Result<u64, Error>)
        ensures
            read_as(take_u64(old(self).remaining()), res, final(self).remaining()),
    ;

    /// Reads eight bytes as a signed value.
    fn read_i64(&mut self) -> (res: Result<i64, Error>)
        ensures
            read_as(take_i64(old(self).remaining()), res, final(self).remaining()),
    ;

    /// Reads sixteen bytes.
    fn read_u128(&mut self) -> (res: Result<u128, Error>)
        ensures
            read_as(take_u128(old(self).remaining()), res, final(self).remaining()),
    ;

    /// Reads sixteen bytes as a signed value.
    fn read_i128(&mut self) -> (res: Result<i128, Error>)
        ensures
            read_as(take_i128(old(self).remaining()), res, final(self).remaining()),
    ;

    /// Reads `n` raw bytes.
    fn read_bytes(&mut self, n: usize) -> (res: Result<Vec<u8>, Error>)
        ensures
            match take_bytes(old(self).remaining(), n as nat) {
                Ok((bytes, rest)) => res matches Ok(v) && v@ == bytes && final(self).remaining()
                    == rest,
                Err(e) => res == Err::<Vec<u8>, Error>(e),
            },
    ;

    /// Whether the stream has no bytes left.
    fn is_exhausted(&self) -> (b: bool)
        ensures
            b == (self.remaining().len() == 0),
    ;
}

/// Reads `n` consecutive `u16` values.
pub fn read_u16s<R: ReadNum>(r: &mut R, n: usize) -> (res: Result<Vec<u16>, Error>)
    ensures
        match take_u16s((*old(r)).remaining(), n as nat) {
            Ok((words, rest)) => res matches Ok(v) && v@ == words && (*final(r)).remaining() == rest,
            Err(e) => res matches Err(g) && g == e,
        },
{
    let ghost all = r.remaining();
    let mut words: Vec<u16> = Vec::new();
    let mut i: usize = 0;
    assert(all.skip(0) =~= all);
    while i < n
        invariant
            i <= n,
            all == (*old(r)).remaining(),
            2 * i <= all.len(),
            r.remaining() == all.skip(2 * i),
            words@ == Seq::new(i as nat, |k: int| be_u16(all.skip(2 * k))),
        decreases n - i,
    {
        let ghost before = words@;
        let word = r.read_u16()?;
        words.push(word);
        assert(all.skip(2 * i).skip(2) =~= all.skip(2 * (i + 1)));
        i = i + 1;
        assert(words@ =~= Seq::new(i as nat, |k: int| be_u16(all.skip(2 * k))));
    }
    assert(words@ =~= Seq::new(n as nat, |k: int| be_u16(all.skip(2 * k))));
    Ok(words)
}

/// A stream over a borrowed slice of bytes.
pub struct ByteReader<'a> {
    rest: &'a [u8],
}

impl<'a> ByteReader<'a> {
    /// A stream that yields the bytes of `bytes` from the first to the last.
    pub fn new(bytes: &'a [u8]) -> (r: Self)
        ensures
            r.remaining() == bytes@,
    {
        ByteReader { rest: bytes }
    }

    /// The bytes not yet read, without consuming them.
    pub fn as_slice(&self) -> (s: &'a [u8])
        ensures
            s@ == self.remaining(),
    {
        self.rest
    }

    /// Reads `n` raw bytes without copying them.
    pub fn read_slice(&mut self, n: usize) -> (res: Result<&'a [u8], Error>)
        ensures
            match take_bytes(old(self).remaining(), n as nat) {
                Ok((bytes, rest)) => res matches Ok(v) && v@ == bytes && final(self).remaining()
                    == rest,
                Err(e) => res == Err::<&[u8], Error>(e),
            },
    {
        let len = self.rest.len();
        if len < n {
            return Err(Error::EndOfStream);
        }
        let head = slice_subrange(self.rest, 0, n);
        self.rest = slice_subrange(self.rest, n, len);
        Ok(head)
    }
}

impl<'a> ReadNum for ByteReader<'a> {
    closed spec fn remaining(&self) -> Seq<u8> {
        self.rest@
    }

    fn read_u8(&mut self) -> (res: Result<u8, Error>) {
        let len = self.rest.len();
        if len < 1 {
            return Err(Error::EndOfStream);
        }
        let v = self.rest[0];
        self.rest = slice_subrange(self.rest, 1, len);
        Ok(v)
    }

    fn read_i8(&mut self) -> (res: Result<i8, Error>) {
        let v = self.read_u8()?;
        if v >= 0x80 {
            Ok((v - 0x80) as i8 + i8::MIN)
        } else {
            Ok(v as i8)
        }
    }

    fn read_u16(&mut self) -> (res: Result<u16, Error>) {
        let len = self.rest.len();
        if len < 2 {
            return Err(Error::EndOfStream);
        }
        let v = self.rest[0] as u16 * 0x100 + self.rest[1] as u16;
        self.rest = slice_subrange(self.rest, 2, len);
        Ok(v)
    }

    fn read_i16(&mut self) -> (res: Result<i16, Error>) {
        let v = self.read_u16()?;
        if v >= 0x8000 {
            Ok((v - 0x8000) as i16 + i16::MIN)
        } else {
            Ok(v as i16)
        }
    }

    fn read_u32(&mut self) -> (res: Result<u32, Error>) {
        if self.rest.len() < 4 {
            return Err(Error::EndOfStream);
        }
        let ghost s = self.rest@;
        let hi = self.read_u16()?;
        let lo = self.read_u16()?;
        assert(s.skip(2).skip(2) == s.skip(4));
        Ok(hi as u32 * 0x1_0000 + lo as u32)
    }

    fn read_i32(&mut self) -> (res: Result<i32, Error>) {
        let v = self.read_u32()?;
        if v >= 0x8000_0000 {
            Ok((v - 0x8000_0000) as i32 + i32::MIN)
        } else {
            Ok(v as i32)
        }
    }

    fn read_u64(&mut self) -> (res: Result<u64, Error>) {
        if self.rest.len() < 8 {
            return Err(Error::EndOfStream);
        }
        let ghost s = self.rest@;
        let hi = self.read_u32()?;
        let lo = self.read_u32()?;
        assert(s.skip(4).skip(4) == s.skip(8));
        Ok(hi as u64 * 0x1_0000_0000 + lo as u64)
    }

    fn read_i64(&mut self) -> (res: Result<i64, Error>) {
        let v = self.read_u64()?;
        if v >= 0x8000_0000_0000_0000 {
            Ok((v - 0x8000_0000_0000_0000) as i64 + i64::MIN)
        } else {
            Ok(v as i64)
        }
    }

    fn read_u128(&mut self) -> (res: Result<u128, Error>) {
        if self.rest.len() < 16 {
            return Err(Error::EndOfStream);
        }
        let ghost s = self.rest@;
        let hi = self.read_u64()?;
        let lo = self.read_u64()?;
        assert(s.skip(8).skip(8) == s.skip(16));
        Ok(hi as u128 * 0x1_0000_0000_0000_0000 + lo as u128)
    }

    fn read_i128(&mut self) -> (res: Result<i128, Error>) {
        let v = self.read_u128()?;
        if v >= 0x8000_0000_0000_0000_0000_0000_0000_0000 {
            Ok((v - 0x8000_0000_0000_0000_0000_0000_0000_0000) as i128 + i128::MIN)
        } else {
            Ok(v as i128)
        }
    }

    fn read_bytes(&mut self, n: usize) -> (res: Result<Vec<u8>, Error>) {
        let head = self.read_slice(n)?;
        Ok(slice_to_vec(head))
    }

    fn is_exhausted(&self) -> (b: bool) {
        self.rest.len() == 0
    }
}

} // verus!
