use vstd::prelude::*;

verus! {

use crate::error::FormatError;

/// The outcome of decoding a value from the front of a byte sequence: the value and
/// the number of bytes it took, or why it failed.
pub type Decoded<T> = Result<(T, nat), FormatError>;

/// One byte.
pub open spec fn parse_u8(s: Seq<u8>) -> Decoded<u8> {
    if s.len() < 1 {
        Err(FormatError::TruncatedInput)
    } else {
        Ok((s[0], 1))
    }
}

/// Two bytes, least significant first.
pub open spec fn parse_u16(s: Seq<u8>) -> Decoded<u16> {
    if s.len() < 2 {
        Err(FormatError::TruncatedInput)
    } else {
        Ok(((s[0] as int + s[1] as int * 0x100) as u16, 2))
    }
}

/// Four bytes, least significant first.
pub open spec fn parse_u32(s: Seq<u8>) -> Decoded<u32> {
    if s.len() < 4 {
        Err(FormatError::TruncatedInput)
    } else {
        Ok(
            (
                (s[0] as int + s[1] as int * 0x100 + s[2] as int * 0x1_0000 + s[3] as int
                    * 0x100_0000) as u32,
                4,
            ),
        )
    }
}

/// `k` values decoded one after another by `item`, in order.
pub open spec fn parse_many<T>(item: spec_fn(Seq<u8>) -> Decoded<T>, s: Seq<u8>, k: nat) -> Decoded<
    Seq<T>,
>
    decreases k,
{
    if k == 0 {
        Ok((seq![], 0))
    } else {
        match parse_many(item, s, (k - 1) as nat) {
            Err(e) => Err(e),
            Ok((xs, n)) => match item(s.skip(n as int)) {
                Err(e) => Err(e),
                Ok((x, m)) => Ok((xs.push(x), n + m)),
            },
        }
    }
}

/// Once decoding `i` values fails, decoding more fails with the same error.
pub proof fn lemma_parse_many_err<T>(
    item: spec_fn(Seq<u8>) -> Decoded<T>,
    s: Seq<u8>,
    i: nat,
    k: nat,
)
    requires
        parse_many(item, s, i) is Err,
        i <= k,
    ensures
        parse_many(item, s, k) == parse_many(item, s, i),
    decreases k - i,
{
    if i < k {
        lemma_parse_many_err(item, s, i, (k - 1) as nat);
    }
}

/// `r` is what reading from `before` yields when the bytes from its position on decode
/// to `d` (a value seen through `view`), and `after` is the cursor it leaves.
pub open spec fn reads_as<T, V>(
    d: Decoded<V>,
    r: Result<T, FormatError>,
    view: spec_fn(T) -> V,
    before: ByteCode,
    after: ByteCode,
) -> bool {
    &&& after.wf()
    &&& after.data() == before.data()
    &&& match d {
        Ok((v, n)) => (r matches Ok(x) && view(x) == v) && after.position() == before.position() + n,
        Err(e) => r matches Err(x) && x == e,
    }
}

/// Moving a cursor forward drops the bytes passed over from the front of what is left.
pub proof fn lemma_advance(before: ByteCode, after: ByteCode)
    requires
        before.wf(),
        after.wf(),
        after.data() == before.data(),
        before.position() <= after.position(),
    ensures
        after.rest() == before.rest().skip(after.position() - before.position()),
{
    assert(after.rest() =~= before.rest().skip(after.position() - before.position()));
}

/// A read position over a byte buffer. Every read consumes bytes from the position on.
pub struct ByteCode {
    bytes: Vec<u8>,
    pos: usize,
}

impl ByteCode {
    /// The whole buffer.
    pub closed spec fn data(&self) -> Seq<u8> {
        self.bytes@
    }

    /// How many bytes have been consumed.
    pub closed spec fn position(&self) -> int {
        self.pos as int
    }

    /// The position never passes the end of the buffer.
    pub open spec fn wf(&self) -> bool {
        0 <= self.position() <= self.data().len()
    }

    /// The bytes not yet consumed.
    pub open spec fn rest(&self) -> Seq<u8> {
        self.data().subrange(self.position(), self.data().len() as int)
    }

    /// A cursor at the start of `bytes`.
    pub fn new(bytes: Vec<u8>) -> (r: ByteCode)
        ensures
            r.wf(),
            r.data() == bytes@,
            r.position() == 0,
    {
        ByteCode { bytes, pos: 0 }
    }

    /// How many bytes have been consumed.
    pub fn pos(&self) -> (r: usize)
        ensures
            r == self.position(),
    {
        self.pos
    }

    /// How many bytes are left.
    pub fn remaining(&self) -> (r: usize)
        requires
            self.wf(),
        ensures
            r == self.rest().len(),
    {
        self.bytes.len() - self.pos
    }

    /// Reads one byte; on failure the cursor does not move.
    pub fn read_u8(&mut self) -> (r: Result<u8, FormatError>)
        requires
            old(self).wf(),
        ensures
            final(self).wf(),
            final(self).data() == old(self).data(),
            match parse_u8(old(self).rest()) {
                Ok((v, n)) => r == Ok::<u8, FormatError>(v) && final(self).position() == old(self).position() + n,
                Err(e) => r == Err::<u8, FormatError>(e) && final(self).position() == old(self).position(),
            },
    {
        if self.pos >= self.bytes.len() {
            return Err(FormatError::TruncatedInput);
        }
        let b = self.bytes[self.pos];
        self.pos = self.pos + 1;
        Ok(b)
    }

    /// Reads a little-endian `u16`; on failure the cursor does not move.
    pub fn read_u16(&mut self) -> (r: Result<u16, FormatError>)
        requires
            old(self).wf(),
        ensures
            final(self).wf(),
            final(self).data() == old(self).data(),
            match parse_u16(old(self).rest()) {
                Ok((v, n)) => r == Ok::<u16, FormatError>(v) && final(self).position() == old(self).position() + n,
                Err(e) => r == Err::<u16, FormatError>(e) && final(self).position() == old(self).position(),
            },
    {
        if self.bytes.len() - self.pos < 2 {
            return Err(FormatError::TruncatedInput);
        }
        let b0 = self.bytes[self.pos] as u16;
        let b1 = self.bytes[self.pos + 1] as u16;
        self.pos = self.pos + 2;
        Ok(b0 + b1 * 0x100)
    }

    /// Reads a little-endian `u32`; on failure the cursor does not move.
    pub fn read_u32(&mut self) -> (r: Result<u32, FormatError>)
        requires
            old(self).wf(),
        ensures
            final(self).wf(),
            final(self).data() == old(self).data(),
            match parse_u32(old(self).rest()) {
                Ok((v, n)) => r == Ok::<u32, FormatError>(v) && final(self).position() == old(self).position() + n,
                Err(e) => r == Err::<u32, FormatError>(e) && final(self).position() == old(self).position(),
            },
    {
        if self.bytes.len() - self.pos < 4 {
            return Err(FormatError::TruncatedInput);
        }
        let b0 = self.bytes[self.pos] as u32;
        let b1 = self.bytes[self.pos + 1] as u32;
        let b2 = self.bytes[self.pos + 2] as u32;
        let b3 = self.bytes[self.pos + 3] as u32;
        self.pos = self.pos + 4;
        Ok(b0 + b1 * 0x100 + b2 * 0x1_0000 + b3 * 0x100_0000)
    }

    /// Copies out the next `n` bytes; on failure the cursor does not move.
    pub fn read_bytes(&mut self, n: usize) -> (r: Result<Vec<u8>, FormatError>)
        requires
            old(self).wf(),
        ensures
            final(self).wf(),
            final(self).data() == old(self).data(),
            n > old(self).rest().len() ==> r == Err::<Vec<u8>, FormatError>(FormatError::TruncatedInput)
                && final(self).position() == old(self).position(),
            n <= old(self).rest().len() ==> (r matches Ok(v) && v@ == old(self).rest().subrange(0, n as int))
                && final(self).position() == old(self).position() + n,
    {
        if self.bytes.len() - self.pos < n {
            return Err(FormatError::TruncatedInput);
        }
        let mut out: Vec<u8> = Vec::new();
        let mut i: usize = 0;
        while i < n
            invariant
                self.pos + n <= self.bytes.len(),
                i <= n,
                out@ == self.bytes@.subrange(self.pos as int, self.pos + i),
            decreases n - i,
        {
            out.push(self.bytes[self.pos + i]);
            i = i + 1;
            assert(out@ =~= self.bytes@.subrange(self.pos as int, self.pos + i));
        }
        self.pos = self.pos + n;
        assert(out@ =~= old(self).rest().subrange(0, n as int));
        Ok(out)
    }
}

} // verus!
