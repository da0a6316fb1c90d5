use crate::error::ProtocolError;
use crate::field::{read_bool_spec, read_string_spec};
use crate::num::{be_value, Integer};
use crate::packet::UncompressedPacket;
use crate::var_int::{varint_decode, VarInt};
use vstd::prelude::*;
use vstd::utf8::{decode_utf8, valid_utf8};

verus! {

/// Relies on std's `String::from_utf8`: the string whose UTF-8 encoding is
/// `bytes`, or `None` where `bytes` is not UTF-8.
#[verifier::external_body]
fn string_from_utf8(bytes: Vec<u8>) -> (r: Option<String>)
    ensures
        match r {
            Some(s) => valid_utf8(bytes@) && s@ == decode_utf8(bytes@),
            None => !valid_utf8(bytes@),
        },
{
    String::from_utf8(bytes).ok()
}

/// Reads the fields of a received packet's body in order. Its view is the part
/// of the body not read yet. A read that fails consumes nothing.
pub struct PacketReader {
    data: Vec<u8>,
    pos: usize,
}

impl View for PacketReader {
    type V = Seq<u8>;

    closed spec fn view(&self) -> Seq<u8> {
        self.data@.subrange(self.pos as int, self.data@.len() as int)
    }
}

impl PacketReader {
    #[verifier::type_invariant]
    spec fn inv(&self) -> bool {
        self.pos <= self.data@.len()
    }

    /// A reader positioned at the start of the packet's fields.
    pub fn new(packet: &UncompressedPacket) -> (r: Self)
        ensures
            r@ == packet.data@,
    {
        let r = PacketReader { data: packet.data.clone(), pos: 0 };
        assert(r.data@.subrange(0, r.data@.len() as int) =~= r.data@);
        r
    }

    /// Reads a VarInt.
    pub fn read_var_int(&mut self) -> (r: Result<VarInt, ProtocolError>)
        ensures
            match varint_decode(old(self)@) {
                Ok((v, n)) => r == Ok::<VarInt, ProtocolError>(VarInt(v)) && final(self)@ == old(
                    self,
                )@.skip(n as int),
                Err(e) => r == Err::<VarInt, ProtocolError>(e) && final(self)@ == old(self)@,
            },
    {
        proof {
            use_type_invariant(&*self);
        }
        let mut p = self.pos;
        let r = VarInt::read_sync(self.data.as_slice(), &mut p);
        self.pos = p;
        assert(self@ =~= old(self)@.skip((p - old(self).pos) as int));
        r
    }

    /// Reads a string: a VarInt byte length, then that many bytes of UTF-8.
    pub fn read_string(&mut self) -> (r: Result<String, ProtocolError>)
        ensures
            match read_string_spec(old(self)@) {
                Ok((t, n)) => r matches Ok(s) && s@ == t && final(self)@ == old(self)@.skip(
                    n as int,
                ),
                Err(e) => r == Err::<String, ProtocolError>(e) && final(self)@ == old(self)@,
            },
    {
        proof {
            use_type_invariant(&*self);
        }
        let start = self.pos;
        let mut p = start;
        assert(self.data@.subrange(start as int, self.data@.len() as int) == old(self)@);
        let len = VarInt::read_sync(self.data.as_slice(), &mut p)?;
        if len.0 < 0 {
            return Err(ProtocolError::NegativeLength);
        }
        let l = len.0 as usize;
        if l > self.data.len() - p {
            return Err(ProtocolError::UnexpectedEnd);
        }
        let bytes = vstd::slice::slice_to_vec(&self.data.as_slice()[p..p + l]);
        let ghost n = (p - start) as nat;
        assert(bytes@ =~= old(self)@.subrange(n as int, n + l));
        match string_from_utf8(bytes) {
            None => Err(ProtocolError::InvalidUtf8),
            Some(s) => {
                self.pos = p + l;
                assert(self@ =~= old(self)@.skip(n + l));
                Ok(s)
            },
        }
    }

    /// Reads a fixed-width big-endian integer.
    pub fn read_int<T: Integer>(&mut self) -> (r: Result<T, ProtocolError>)
        ensures
            if old(self)@.len() < T::width() {
                r == Err::<T, ProtocolError>(ProtocolError::UnexpectedEnd) && final(self)@ == old(
                    self,
                )@
            } else {
                r matches Ok(v) && v.bits() == be_value(old(self)@.take(T::width() as int))
                    && final(self)@ == old(self)@.skip(T::width() as int)
            },
    {
        proof {
            use_type_invariant(&*self);
        }
        let w = T::byte_len();
        if w > self.data.len() - self.pos {
            return Err(ProtocolError::UnexpectedEnd);
        }
        let v = T::from_bytes(&self.data.as_slice()[self.pos..self.pos + w]);
        assert(self.data@.subrange(self.pos as int, self.pos + w) =~= old(self)@.take(w as int));
        self.pos = self.pos + w;
        assert(self@ =~= old(self)@.skip(w as int));
        Ok(v)
    }

    /// Reads a boolean: the byte 0 or 1.
    pub fn read_bool(&mut self) -> (r: Result<bool, ProtocolError>)
        ensures
            match read_bool_spec(old(self)@) {
                Ok(b) => r == Ok::<bool, ProtocolError>(b) && final(self)@ == old(self)@.skip(1),
                Err(e) => r == Err::<bool, ProtocolError>(e) && final(self)@ == old(self)@,
            },
    {
        proof {
            use_type_invariant(&*self);
        }
        if self.pos >= self.data.len() {
            return Err(ProtocolError::UnexpectedEnd);
        }
        let byte = self.data[self.pos];
        assert(byte == old(self)@[0]);
        if byte == 0 || byte == 1 {
            self.pos = self.pos + 1;
            assert(self@ =~= old(self)@.skip(1));
            Ok(byte == 1)
        } else {
            Err(ProtocolError::InvalidBool)
        }
    }

    /// Copies as many unread bytes as fit into `buf`, or as are left, into the
    /// front of `buf`, and returns how many were copied.
    pub fn read_exact(&mut self, buf: &mut [u8]) -> (n: usize)
        ensures
            n == (if old(buf)@.len() <= old(self)@.len() {
                old(buf)@.len()
            } else {
                old(self)@.len()
            }),
            final(buf)@ == old(self)@.take(n as int) + old(buf)@.skip(n as int),
            final(self)@ == old(self)@.skip(n as int),
    {
        proof {
            use_type_invariant(&*self);
        }
        let start = self.pos;
        let total = self.data.len();
        let left = total - start;
        let n = if buf.len() <= left {
            buf.len()
        } else {
            left
        };
        let mut i: usize = 0;
        while i < n
            invariant
                n <= buf@.len(),
                n <= left,
                start + left == total,
                total == self.data@.len(),
                start == self.pos,
                self@ == old(self)@,
                buf@.len() == old(buf)@.len(),
                i <= n,
                buf@ == old(self)@.take(i as int) + old(buf)@.skip(i as int),
            decreases n - i,
        {
            buf[i] = self.data[start + i];
            i = i + 1;
            assert(buf@ =~= old(self)@.take(i as int) + old(buf)@.skip(i as int));
        }
        self.pos = self.pos + n;
        assert(self@ =~= old(self)@.skip(n as int));
        n
    }
}

} // verus!
