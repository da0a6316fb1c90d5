use crate::error::ProtocolError;
use vstd::prelude::*;

verus! {

/// A signed 32-bit integer in the protocol's variable-length encoding: seven
/// payload bits per byte, least significant group first, high bit set on every
/// byte but the last.
#[derive(Clone, Copy, Debug, PartialEq, Eq, Structural)]
pub struct VarInt(pub i32);

/// The encoding of the unsigned 32-bit pattern `u`.
pub open spec fn varint_bytes(u: u32) -> Seq<u8>
    decreases u,
{
    if u < 128 {
        seq![u as u8]
    } else {
        seq![(u % 128 + 128) as u8] + varint_bytes(u / 128)
    }
}

/// The encoding of `v`: its two's complement bit pattern, so a negative value
/// takes five bytes.
pub open spec fn varint_encode(v: i32) -> Seq<u8> {
    varint_bytes(v as u32)
}

/// The payload groups of `s` read as a number, the first byte least significant.
pub open spec fn group_value(s: Seq<u8>) -> nat
    decreases s.len(),
{
    if s.len() == 0 {
        0
    } else {
        (s[0] % 128) as nat + 128 * group_value(s.drop_first())
    }
}

/// `128` to the power `n`.
pub open spec fn pow128(n: nat) -> nat
    decreases n,
{
    if n == 0 {
        1
    } else {
        128 * pow128((n - 1) as nat)
    }
}

/// How many bytes the VarInt at the front of `s` takes, looking from index `i`
/// on: the first byte with a clear high bit ends it, and five bytes that all
/// carry the high bit are an error.
pub open spec fn varint_scan(s: Seq<u8>, i: nat) -> Result<nat, ProtocolError>
    decreases 5 - i,
{
    if i >= 5 {
        Err(ProtocolError::VarIntTooLong)
    } else if i >= s.len() {
        Err(ProtocolError::UnexpectedEnd)
    } else if s[i as int] < 128 {
        Ok(i + 1)
    } else {
        varint_scan(s, i + 1)
    }
}

/// The VarInt at the front of `s` and the number of bytes it takes. The groups
/// are combined into 32 bits, bits beyond the 32nd are dropped, and the pattern
/// is read as two's complement.
pub open spec fn varint_decode(s: Seq<u8>) -> Result<(i32, nat), ProtocolError> {
    match varint_scan(s, 0) {
        Ok(n) => Ok((((group_value(s.take(n as int)) % 0x1_0000_0000) as u32) as i32, n)),
        Err(e) => Err(e),
    }
}

proof fn lemma_group_bits(v: u32)
    by (bit_vector)
    ensures
        (v & !0x7Fu32 == 0) == (v < 128),
        (v & 0x7Fu32) | 0x80u32 == v % 128 + 128,
        v >> 7u32 == v / 128,
{
}

proof fn lemma_byte_bits(b: u8)
    by (bit_vector)
    ensures
        b & 0x7Fu8 == b % 128,
        (b & 0x80u8 == 0) == (b < 128),
{
}

proof fn lemma_group_value_push(s: Seq<u8>, b: u8)
    ensures
        group_value(s.push(b)) == group_value(s) + (b % 128) as nat * pow128(s.len()),
    decreases s.len(),
{
    if s.len() == 0 {
        assert(s.push(b).drop_first() =~= Seq::<u8>::empty());
        assert(s.push(b)[0] == b);
        assert(group_value(Seq::<u8>::empty()) == 0);
        assert(group_value(s) == 0);
        assert(pow128(0) == 1);
    } else {
        assert(s.push(b).drop_first() =~= s.drop_first().push(b));
        assert(s.push(b)[0] == s[0]);
        lemma_group_value_push(s.drop_first(), b);
        assert(pow128(s.len()) == 128 * pow128((s.len() - 1) as nat));
        let g = group_value(s.drop_first());
        let p = pow128((s.len() - 1) as nat);
        let c = (b % 128) as nat;
        assert(group_value(s.push(b)) == (s[0] % 128) as nat + 128 * (g + c * p));
        assert(group_value(s) == (s[0] % 128) as nat + 128 * g);
        assert(128 * (g + c * p) == 128 * g + c * (128 * p)) by (nonlinear_arith);
    }
}

proof fn lemma_varint_bytes_shape(u: u32)
    ensures
        1 <= varint_bytes(u).len() <= 5,
        group_value(varint_bytes(u)) == u,
        varint_bytes(u).last() < 128,
        forall|j: int| 0 <= j < varint_bytes(u).len() - 1 ==> varint_bytes(u)[j] >= 128,
        u < 0x80 ==> varint_bytes(u).len() == 1,
        u < 0x4000 ==> varint_bytes(u).len() <= 2,
        u < 0x20_0000 ==> varint_bytes(u).len() <= 3,
        u < 0x1000_0000 ==> varint_bytes(u).len() <= 4,
    decreases u,
{
    let s = varint_bytes(u);
    if u < 128 {
        assert(s.drop_first() =~= Seq::<u8>::empty());
        assert(group_value(Seq::<u8>::empty()) == 0);
        assert(s[0] == u);
    } else {
        lemma_varint_bytes_shape(u / 128);
        assert(s.drop_first() =~= varint_bytes(u / 128));
        assert(s[0] == (u % 128 + 128) as u8);
        assert(s[0] % 128 == u % 128);
        assert(u == u % 128 + 128 * (u / 128));
        assert(group_value(s) == (s[0] % 128) as nat + 128 * group_value(s.drop_first()));
        assert(forall|j: int| 1 <= j < s.len() ==> s[j] == varint_bytes(u / 128)[j - 1]);
    }
}

proof fn lemma_scan_of_prefix(s: Seq<u8>, t: Seq<u8>, i: nat)
    requires
        t.len() >= 1,
        t.len() <= 5,
        i < t.len(),
        t.last() < 128,
        forall|j: int| 0 <= j < t.len() - 1 ==> t[j] >= 128,
    ensures
        varint_scan(t + s, i) == Ok::<nat, ProtocolError>(t.len()),
    decreases t.len() - i,
{
    let w = t + s;
    assert(w[i as int] == t[i as int]);
    if i + 1 < t.len() {
        lemma_scan_of_prefix(s, t, i + 1);
    }
}

/// Decoding the encoding of any 32-bit value gives that value back and consumes
/// exactly the encoding, which takes one to five bytes; whatever follows the
/// encoding is left alone.
pub proof fn lemma_varint_round_trip(v: i32, rest: Seq<u8>)
    ensures
        varint_decode(varint_encode(v) + rest) == Ok::<(i32, nat), ProtocolError>(
            (v, varint_encode(v).len()),
        ),
        1 <= varint_encode(v).len() <= 5,
{
    let u = v as u32;
    let t = varint_bytes(u);
    lemma_varint_bytes_shape(u);
    lemma_scan_of_prefix(rest, t, 0);
    assert((t + rest).take(t.len() as int) =~= t);
    assert((u as nat % 0x1_0000_0000) as u32 == u);
    assert((u as i32) == v) by (bit_vector)
        requires
            u == v as u32,
    ;
}

/// Five leading bytes that all carry the continuation bit are refused, whatever
/// follows them.
pub proof fn lemma_varint_too_long(s: Seq<u8>)
    requires
        s.len() >= 5,
        forall|j: int| 0 <= j < 5 ==> s[j] >= 128,
    ensures
        varint_decode(s) == Err::<(i32, nat), ProtocolError>(ProtocolError::VarIntTooLong),
{
    assert(varint_scan(s, 4) == varint_scan(s, 5));
    assert(varint_scan(s, 3) == varint_scan(s, 4));
    assert(varint_scan(s, 2) == varint_scan(s, 3));
    assert(varint_scan(s, 1) == varint_scan(s, 2));
    assert(varint_scan(s, 0) == varint_scan(s, 1));
}

impl VarInt {
    /// Reads the VarInt that starts at `*pos` in `bytes` and moves `*pos` past
    /// it. On an error `*pos` is left where it was.
    pub fn read_sync(bytes: &[u8], pos: &mut usize) -> (r: Result<VarInt, ProtocolError>)
        requires
            *old(pos) <= bytes@.len(),
        ensures
            match varint_decode(bytes@.subrange(*old(pos) as int, bytes@.len() as int)) {
                Ok((v, n)) => r == Ok::<VarInt, ProtocolError>(VarInt(v)) && *final(pos) == *old(
                    pos,
                ) + n && *final(pos) <= bytes@.len(),
                Err(e) => r == Err::<VarInt, ProtocolError>(e) && *final(pos) == *old(pos),
            },
    {
        let start = *pos;
        let ghost rest = bytes@.subrange(start as int, bytes@.len() as int);
        let mut value: u64 = 0;
        let mut mult: u64 = 1;
        let mut i: usize = 0;
        while i < 5
            invariant
                start <= bytes@.len(),
                rest == bytes@.subrange(start as int, bytes@.len() as int),
                *pos == start,
                start == *old(pos),
                i <= 5,
                i <= rest.len(),
                value == group_value(rest.take(i as int)),
                value < pow128(i as nat),
                mult == pow128(i as nat),
                varint_scan(rest, i as nat) == varint_scan(rest, 0),
            decreases 5 - i,
        {
            if i >= bytes.len() - start {
                assert(varint_scan(rest, i as nat) == Err::<nat, ProtocolError>(
                    ProtocolError::UnexpectedEnd,
                ));
                assert(varint_decode(rest) == Err::<(i32, nat), ProtocolError>(
                    ProtocolError::UnexpectedEnd,
                ));
                return Err(ProtocolError::UnexpectedEnd);
            }
            let b = bytes[start + i];
            assert(b == rest[i as int]);
            proof {
                lemma_byte_bits(b);
                assert(rest.take(i as int + 1) =~= rest.take(i as int).push(b));
                lemma_group_value_push(rest.take(i as int), b);
                assert(rest.take(i as int).len() == i);
                assert(pow128(i as nat + 1) == 128 * pow128(i as nat));
                reveal_with_fuel(pow128, 5);
                assert(pow128(4) == 0x1000_0000);
                assert(mult <= 0x1000_0000) by {
                    if i == 0 {
                    } else if i == 1 {
                    } else if i == 2 {
                    } else if i == 3 {
                    } else {
                    }
                }
                assert((b % 128) as nat * mult <= 127 * mult) by (nonlinear_arith)
                    requires
                        b % 128 <= 127,
                ;
                assert(value + (b % 128) as nat * mult < 128 * mult) by (nonlinear_arith)
                    requires
                        value < mult,
                        (b % 128) as nat * mult <= 127 * mult,
                ;
            }
            value = value + ((b & 0x7F) as u64) * mult;
            if b & 0x80 == 0 {
                *pos = start + i + 1;
                let bits: u32 = (value % 0x1_0000_0000) as u32;
                proof {
                    assert(varint_scan(rest, i as nat) == Ok::<nat, ProtocolError>(i as nat + 1));
                }
                return Ok(VarInt(#[verifier::truncate] (bits as i32)));
            }
            i = i + 1;
            mult = mult * 128;
        }
        assert(varint_scan(rest, 5) == Err::<nat, ProtocolError>(ProtocolError::VarIntTooLong));
        assert(varint_decode(rest) == Err::<(i32, nat), ProtocolError>(
            ProtocolError::VarIntTooLong,
        ));
        Err(ProtocolError::VarIntTooLong)
    }

    /// Appends the encoding of this value to `writer`.
    pub fn write_sync(&self, writer: &mut Vec<u8>)
        ensures
            final(writer)@ == old(writer)@ + varint_encode(self.0),
    {
        let mut value: u32 = self.0 as u32;
        proof {
            lemma_group_bits(value);
        }
        while value & !0x7Fu32 != 0
            invariant
                writer@ + varint_bytes(value) == old(writer)@ + varint_encode(self.0),
                (value & !0x7Fu32 == 0) == (value < 128),
            decreases value,
        {
            proof {
                lemma_group_bits(value);
                assert(varint_bytes(value) == seq![(value % 128 + 128) as u8] + varint_bytes(
                    value / 128,
                ));
            }
            writer.push(((value & 0x7F) | 0x80) as u8);
            value = value >> 7;
            proof {
                lemma_group_bits(value);
                assert(writer@ + varint_bytes(value) =~= old(writer)@ + varint_encode(self.0));
            }
        }
        assert(varint_bytes(value) == seq![value as u8]);
        writer.push(value as u8);
        assert(writer@ =~= old(writer)@ + varint_encode(self.0));
    }
}

} // verus!
