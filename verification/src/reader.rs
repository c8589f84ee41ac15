//! Positioned little-endian reads over an in-memory byte stream.

use vstd::prelude::*;
use crate::error::ContainerError;

verus! {

/// Whether the `width` bytes starting at `at` all lie inside `data`.
pub open spec fn readable(data: Seq<u8>, at: int, width: int) -> bool {
    0 <= at && at + width <= data.len()
}

/// The little-endian value of the two bytes starting at `at`.
pub open spec fn le_u16_at(data: Seq<u8>, at: int) -> int {
    data[at] as int + 0x100 * (data[at + 1] as int)
}

/// The little-endian value of the four bytes starting at `at`.
pub open spec fn le_u32_at(data: Seq<u8>, at: int) -> int {
    data[at] as int + 0x100 * (data[at + 1] as int) + 0x1_0000 * (data[at + 2] as int)
        + 0x100_0000 * (data[at + 3] as int)
}

/// Where a seek is measured from.
#[derive(Clone, Copy, Debug, PartialEq, Eq, Structural)]
pub enum SeekTo {
    /// An absolute offset from the start of the stream.
    Start(u64),
    /// An offset relative to the current position.
    Current(i64),
    /// An offset relative to the end of the stream.
    End(i64),
}

/// The position a seek asks for, before any range check.
pub open spec fn seek_target(len: int, pos: int, to: SeekTo) -> int {
    match to {
        SeekTo::Start(offset) => offset as int,
        SeekTo::Current(delta) => pos + delta,
        SeekTo::End(delta) => len + delta,
    }
}

/// A read cursor over an immutable byte sequence.
///
/// The cursor may stand past the end of the data; a read there fails.
pub struct ByteStream<'a> {
    data: &'a [u8],
    pos: u64,
}

/// `base + delta`, where that is a `u64`.
fn offset_by(base: u64, delta: i64) -> (r: Option<u64>)
    ensures
        r == (if 0 <= base + delta <= u64::MAX {
            Some((base + delta) as u64)
        } else {
            None
        }),
{
    if delta >= 0 {
        let up: u64 = delta as u64;
        if up <= u64::MAX - base {
            Some(base + up)
        } else {
            None
        }
    } else {
        let down: u64 = ((-(delta + 1)) as u64) + 1;
        if down <= base {
            Some(base - down)
        } else {
            None
        }
    }
}

impl<'a> ByteStream<'a> {
    /// The bytes of the stream.
    pub closed spec fn bytes(&self) -> Seq<u8> {
        self.data@
    }

    /// The current read position.
    pub closed spec fn cursor(&self) -> int {
        self.pos as int
    }

    /// A stream over `data`, positioned at its start.
    pub fn new(data: &'a [u8]) -> (s: Self)
        ensures
            s.bytes() == data@,
            s.bytes().len() <= usize::MAX,
            s.cursor() == 0,
    {
        assert(data@.len() == data.len());
        ByteStream { data, pos: 0 }
    }

    /// The current read position.
    pub fn position(&self) -> (p: u64)
        ensures
            p == self.cursor(),
    {
        self.pos
    }

    /// Moves the cursor and returns the new position.
    ///
    /// Fails, leaving the cursor where it was, exactly when the target
    /// position is negative or does not fit in a `u64`.
    pub fn seek(&mut self, to: SeekTo) -> (r: Result<u64, ContainerError>)
        ensures
            final(self).bytes() == old(self).bytes(),
            ({
                let target = seek_target(old(self).bytes().len() as int, old(self).cursor(), to);
                if 0 <= target <= u64::MAX {
                    r == Ok::<u64, ContainerError>(target as u64) && final(self).cursor() == target
                } else {
                    r == Err::<u64, ContainerError>(ContainerError::InvalidSeek)
                        && final(self).cursor() == old(self).cursor()
                }
            }),
    {
        let target = match to {
            SeekTo::Start(offset) => Some(offset),
            SeekTo::Current(delta) => offset_by(self.pos, delta),
            SeekTo::End(delta) => offset_by(self.data.len() as u64, delta),
        };
        match target {
            Some(p) => {
                self.pos = p;
                Ok(p)
            },
            None => Err(ContainerError::InvalidSeek),
        }
    }

    /// Reads one byte at the cursor and steps over it.
    pub fn read_u8(&mut self) -> (r: Result<u8, ContainerError>)
        ensures
            final(self).bytes() == old(self).bytes(),
            ({
                let at = old(self).cursor();
                if readable(old(self).bytes(), at, 1) {
                    r == Ok::<u8, ContainerError>(old(self).bytes()[at])
                        && final(self).cursor() == at + 1
                } else {
                    r == Err::<u8, ContainerError>(ContainerError::Truncated)
                        && final(self).cursor() == at
                }
            }),
    {
        let len: u64 = self.data.len() as u64;
        if self.pos > len || len - self.pos < 1 {
            return Err(ContainerError::Truncated);
        }
        let at: usize = self.pos as usize;
        let value: u8 = self.data[at];
        self.pos = self.pos + 1;
        Ok(value)
    }
}

/// Reads a little-endian 16-bit value at the cursor and steps over it.
///
/// Fails with `Truncated`, leaving the cursor where it was, exactly when
/// fewer than two bytes remain.
pub fn read_u16(stream: &mut ByteStream) -> (r: Result<u16, ContainerError>)
    ensures
        final(stream).bytes() == old(stream).bytes(),
        ({
            let at = old(stream).cursor();
            if readable(old(stream).bytes(), at, 2) {
                r == Ok::<u16, ContainerError>(le_u16_at(old(stream).bytes(), at) as u16)
                    && final(stream).cursor() == at + 2
            } else {
                r == Err::<u16, ContainerError>(ContainerError::Truncated)
                    && final(stream).cursor() == at
            }
        }),
{
    let len: u64 = stream.data.len() as u64;
    if stream.pos > len || len - stream.pos < 2 {
        return Err(ContainerError::Truncated);
    }
    let at: usize = stream.pos as usize;
    let b0: u16 = stream.data[at] as u16;
    let b1: u16 = stream.data[at + 1] as u16;
    stream.pos = stream.pos + 2;
    Ok(b0 + 0x100 * b1)
}

/// Reads a little-endian 32-bit value at the cursor and steps over it.
///
/// Fails with `Truncated`, leaving the cursor where it was, exactly when
/// fewer than four bytes remain.
pub fn read_u32(stream: &mut ByteStream) -> (r: Result<u32, ContainerError>)
    ensures
        final(stream).bytes() == old(stream).bytes(),
        ({
            let at = old(stream).cursor();
            if readable(old(stream).bytes(), at, 4) {
                r == Ok::<u32, ContainerError>(le_u32_at(old(stream).bytes(), at) as u32)
                    && final(stream).cursor() == at + 4
            } else {
                r == Err::<u32, ContainerError>(ContainerError::Truncated)
                    && final(stream).cursor() == at
            }
        }),
{
    let len: u64 = stream.data.len() as u64;
    if stream.pos > len || len - stream.pos < 4 {
        return Err(ContainerError::Truncated);
    }
    let at: usize = stream.pos as usize;
    let b0: u32 = stream.data[at] as u32;
    let b1: u32 = stream.data[at + 1] as u32;
    let b2: u32 = stream.data[at + 2] as u32;
    let b3: u32 = stream.data[at + 3] as u32;
    stream.pos = stream.pos + 4;
    Ok(b0 + 0x100 * b1 + 0x1_0000 * b2 + 0x100_0000 * b3)
}

/// Reads exactly `count` bytes at the cursor and steps over them.
///
/// Fails with `Truncated`, leaving the cursor where it was, exactly when
/// fewer than `count` bytes remain.
pub fn read_bytes(stream: &mut ByteStream, count: u32) -> (r: Result<Vec<u8>, ContainerError>)
    ensures
        final(stream).bytes() == old(stream).bytes(),
        ({
            let at = old(stream).cursor();
            if readable(old(stream).bytes(), at, count as int) {
                r is Ok && r->Ok_0@ == old(stream).bytes().subrange(at, at + count)
                    && final(stream).cursor() == at + count
            } else {
                r == Err::<Vec<u8>, ContainerError>(ContainerError::Truncated)
                    && final(stream).cursor() == at
            }
        }),
{
    let size: usize = stream.data.len();
    let len: u64 = size as u64;
    if stream.pos > len || len - stream.pos < count as u64 {
        return Err(ContainerError::Truncated);
    }
    let first: usize = stream.pos as usize;
    let wanted: usize = count as usize;
    let mut out: Vec<u8> = Vec::new();
    let mut taken: usize = 0;
    while taken < wanted
        invariant
            taken <= wanted,
            size == stream.data@.len(),
            first + wanted <= size,
            out@ == stream.data@.subrange(first as int, first + taken),
        decreases wanted - taken,
    {
        out.push(stream.data[first + taken]);
        taken = taken + 1;
        assert(out@ =~= stream.data@.subrange(first as int, first + taken));
    }
    stream.pos = stream.pos + count as u64;
    Ok(out)
}

} // verus!
