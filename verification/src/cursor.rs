//! A sequential, forward-only reader over an immutable byte buffer. All
//! multi-byte reads are big-endian. No seeking or rewinding is exposed:
//! every component must consume exactly as many bytes as the format
//! declares, and the position only moves forward.

use vstd::prelude::*;

verus! {

use crate::error::DecodeError;

/// Big-endian value of the two bytes of `b` starting at `pos`.
pub open spec fn be16(b: Seq<u8>, pos: int) -> u16 {
    (b[pos] * 0x100 + b[pos + 1]) as u16
}

/// Big-endian value of the four bytes of `b` starting at `pos`.
pub open spec fn be32(b: Seq<u8>, pos: int) -> u32 {
    (b[pos] * 0x1000000 + b[pos + 1] * 0x10000 + b[pos + 2] * 0x100 + b[pos + 3]) as u32
}

/// Specification-level parse of `n` consecutive big-endian `u16` values,
/// appended to `acc` in order.
pub open spec fn s_u16s(b: Seq<u8>, pos: int, n: nat, acc: Seq<u16>) -> Result<
    (Seq<u16>, int),
    DecodeError,
>
    decreases n,
{
    if n == 0 {
        Ok((acc, pos))
    } else if pos + 2 > b.len() {
        Err(DecodeError::Truncated)
    } else {
        s_u16s(b, pos + 2, (n - 1) as nat, acc.push(be16(b, pos)))
    }
}

/// The forward-only read position over the input byte sequence, shared by
/// exclusive reference between all decoding steps.
pub struct ByteCursor {
    pub data: Vec<u8>,
    pub pos: usize,
}

impl ByteCursor {
    /// The position never runs past the end of the buffer.
    pub open spec fn wf(self) -> bool {
        self.pos <= self.data@.len()
    }

    /// The underlying byte sequence.
    pub open spec fn bytes(self) -> Seq<u8> {
        self.data@
    }

    pub fn new(data: Vec<u8>) -> (c: ByteCursor)
        ensures
            c.wf(),
            c.bytes() == data@,
            c.pos == 0,
    {
        ByteCursor { data, pos: 0 }
    }

    /// Read one byte and advance by one; `Truncated` at the end of the
    /// buffer, leaving the cursor unchanged.
    pub fn read_u8(&mut self) -> (r: Result<u8, DecodeError>)
        requires
            old(self).wf(),
        ensures
            final(self).wf(),
            final(self).bytes() == old(self).bytes(),
            (match r {
                Ok(v) => old(self).pos + 1 <= old(self).bytes().len()
                    && v == old(self).bytes()[old(self).pos as int]
                    && final(self).pos == old(self).pos + 1,
                Err(e) => e == DecodeError::Truncated
                    && old(self).bytes().len() < old(self).pos + 1
                    && *final(self) == *old(self),
            }),
    {
        if self.pos < self.data.len() {
            let v = self.data[self.pos];
            self.pos = self.pos + 1;
            Ok(v)
        } else {
            Err(DecodeError::Truncated)
        }
    }

    /// Read a big-endian `u16` and advance by two.
    pub fn read_u16(&mut self) -> (r: Result<u16, DecodeError>)
        requires
            old(self).wf(),
        ensures
            final(self).wf(),
            final(self).bytes() == old(self).bytes(),
            (match r {
                Ok(v) => old(self).pos + 2 <= old(self).bytes().len()
                    && v == be16(old(self).bytes(), old(self).pos as int)
                    && final(self).pos == old(self).pos + 2,
                Err(e) => e == DecodeError::Truncated
                    && old(self).bytes().len() < old(self).pos + 2
                    && *final(self) == *old(self),
            }),
    {
        if self.data.len() - self.pos >= 2 {
            let b0 = self.data[self.pos];
            let b1 = self.data[self.pos + 1];
            self.pos = self.pos + 2;
            Ok(b0 as u16 * 0x100 + b1 as u16)
        } else {
            Err(DecodeError::Truncated)
        }
    }

    /// Read a big-endian `u32` and advance by four.
    pub fn read_u32(&mut self) -> (r: Result<u32, DecodeError>)
        requires
            old(self).wf(),
        ensures
            final(self).wf(),
            final(self).bytes() == old(self).bytes(),
            (match r {
                Ok(v) => old(self).pos + 4 <= old(self).bytes().len()
                    && v == be32(old(self).bytes(), old(self).pos as int)
                    && final(self).pos == old(self).pos + 4,
                Err(e) => e == DecodeError::Truncated
                    && old(self).bytes().len() < old(self).pos + 4
                    && *final(self) == *old(self),
            }),
    {
        if self.data.len() - self.pos >= 4 {
            let b0 = self.data[self.pos];
            let b1 = self.data[self.pos + 1];
            let b2 = self.data[self.pos + 2];
            let b3 = self.data[self.pos + 3];
            self.pos = self.pos + 4;
            Ok(b0 as u32 * 0x1000000 + b1 as u32 * 0x10000 + b2 as u32 * 0x100 + b3 as u32)
        } else {
            Err(DecodeError::Truncated)
        }
    }

    /// Read `n` consecutive big-endian `u16` values.
    #[verifier::loop_isolation(false)]
    pub fn read_u16_list(&mut self, n: u16) -> (r: Result<Vec<u16>, DecodeError>)
        requires
            old(self).wf(),
        ensures
            final(self).wf(),
            final(self).bytes() == old(self).bytes(),
            old(self).pos <= final(self).pos,
            (match r {
                Ok(v) => s_u16s(old(self).bytes(), old(self).pos as int, n as nat, Seq::empty())
                    == Ok::<_, DecodeError>((v@, final(self).pos as int)),
                Err(e) => s_u16s(old(self).bytes(), old(self).pos as int, n as nat, Seq::empty())
                    == Err::<(Seq<u16>, int), _>(e),
            }),
    {
        let ghost b = self.bytes();
        let ghost start = self.pos as int;
        let mut out: Vec<u16> = Vec::new();
        let mut k: u16 = 0;
        while k < n
            invariant
                k <= n,
                self.wf(),
                self.bytes() == b,
                start <= self.pos,
                out@.len() == k as int,
                s_u16s(b, start, n as nat, Seq::empty())
                    == s_u16s(b, self.pos as int, (n - k) as nat, out@),
            decreases n - k,
        {
            let v = self.read_u16()?;
            out.push(v);
            k = k + 1;
        }
        Ok(out)
    }

    /// Read exactly `n` raw bytes and advance by `n`.
    pub fn read_bytes(&mut self, n: usize) -> (r: Result<Vec<u8>, DecodeError>)
        requires
            old(self).wf(),
        ensures
            final(self).wf(),
            final(self).bytes() == old(self).bytes(),
            (match r {
                Ok(v) => old(self).pos + n <= old(self).bytes().len()
                    && v@ == old(self).bytes().subrange(
                        old(self).pos as int,
                        old(self).pos + n,
                    )
                    && final(self).pos == old(self).pos + n,
                Err(e) => e == DecodeError::Truncated
                    && old(self).bytes().len() < old(self).pos + n
                    && *final(self) == *old(self),
            }),
    {
        if self.data.len() - self.pos >= n {
            let start = self.pos;
            let end = self.pos + n;
            let mut out: Vec<u8> = Vec::new();
            let mut p: usize = start;
            while p < end
                invariant
                    start <= p <= end,
                    end == start + n,
                    end <= self.data@.len(),
                    self.pos == start,
                    out@ == self.data@.subrange(start as int, p as int),
                decreases end - p,
            {
                out.push(self.data[p]);
                p = p + 1;
                proof {
                    assert(out@ =~= self.data@.subrange(start as int, p as int));
                }
            }
            self.pos = end;
            Ok(out)
        } else {
            Err(DecodeError::Truncated)
        }
    }
}

} // verus!
