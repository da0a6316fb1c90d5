use vstd::prelude::*;

verus! {

/// `256` to the power `w`.
pub open spec fn pow256(w: nat) -> nat
    decreases w,
{
    if w == 0 {
        1
    } else {
        256 * pow256((w - 1) as nat)
    }
}

/// The low `w` bytes of `u`, most significant first.
pub open spec fn be_bytes(u: nat, w: nat) -> Seq<u8>
    decreases w,
{
    if w == 0 {
        Seq::empty()
    } else {
        be_bytes(u / 256, (w - 1) as nat).push((u % 256) as u8)
    }
}

/// A big-endian byte sequence read as a number.
pub open spec fn be_value(s: Seq<u8>) -> nat
    decreases s.len(),
{
    if s.len() == 0 {
        0
    } else {
        be_value(s.drop_last()) * 256 + s.last() as nat
    }
}

/// Reading back the low `w` bytes of `u` gives `u` modulo `256^w`.
pub proof fn lemma_be_round_trip(u: nat, w: nat)
    ensures
        be_bytes(u, w).len() == w,
        be_value(be_bytes(u, w)) == u % pow256(w),
    decreases w,
{
    if w > 0 {
        lemma_be_round_trip(u / 256, (w - 1) as nat);
        let s = be_bytes(u, w);
        assert(s.drop_last() =~= be_bytes(u / 256, (w - 1) as nat));
        let p = pow256((w - 1) as nat);
        assert(p > 0) by {
            lemma_pow256_positive((w - 1) as nat);
        }
        assert((u / 256) % p * 256 + u % 256 == u % (256 * p)) by (nonlinear_arith)
            requires
                p > 0,
        {
            vstd::arithmetic::div_mod::lemma_breakdown(u as int, 256, p as int);
        }
    }
}

proof fn lemma_pow256_positive(w: nat)
    ensures
        pow256(w) > 0,
    decreases w,
{
    if w > 0 {
        lemma_pow256_positive((w - 1) as nat);
    }
}

/// A value read from `w` bytes is below `256^w`.
pub proof fn lemma_be_value_bound(s: Seq<u8>)
    ensures
        be_value(s) < pow256(s.len()),
    decreases s.len(),
{
    if s.len() > 0 {
        lemma_be_value_bound(s.drop_last());
        let v = be_value(s.drop_last());
        let p = pow256((s.len() - 1) as nat);
        assert(v * 256 + s.last() < 256 * p) by (nonlinear_arith)
            requires
                v < p,
                s.last() < 256,
        ;
    }
}

proof fn lemma_pow256_small()
    ensures
        pow256(1) == 0x100,
        pow256(2) == 0x1_0000,
        pow256(4) == 0x1_0000_0000,
        pow256(8) == 0x1_0000_0000_0000_0000,
        pow256(16) == 0x1_0000_0000_0000_0000_0000_0000_0000_0000,
{
    reveal_with_fuel(pow256, 17);
}

/// The low `w` bytes of `u`, most significant first.
fn be_encode(u: u128, w: usize) -> (r: Vec<u8>)
    requires
        w <= 16,
    ensures
        r@ == be_bytes(u as nat, w as nat),
{
    let mut out: Vec<u8> = Vec::new();
    let mut rest: u128 = u;
    let mut i: usize = 0;
    while i < w
        invariant
            i <= w,
            be_bytes(u as nat, w as nat) == be_bytes(rest as nat, (w - i) as nat) + out@,
        decreases w - i,
    {
        let ghost k = (w - i) as nat;
        let ghost before = out@;
        assert(be_bytes(rest as nat, k) == be_bytes(rest as nat / 256, (k - 1) as nat).push(
            (rest as nat % 256) as u8,
        ));
        out.insert(0, (rest % 256) as u8);
        assert(be_bytes(rest as nat, k) + before =~= be_bytes(rest as nat / 256, (k - 1) as nat)
            + out@);
        rest = rest / 256;
        i = i + 1;
    }
    assert(be_bytes(rest as nat, 0) + out@ =~= out@);
    out
}

proof fn lemma_pow256_monotone(a: nat, b: nat)
    requires
        a <= b,
    ensures
        pow256(a) <= pow256(b),
    decreases b,
{
    if a < b {
        lemma_pow256_monotone(a, (b - 1) as nat);
    }
}

/// A big-endian byte sequence of at most sixteen bytes read as a number.
fn be_decode(bytes: &[u8]) -> (r: u128)
    requires
        bytes@.len() <= 16,
    ensures
        r == be_value(bytes@),
{
    let mut value: u128 = 0;
    let mut i: usize = 0;
    while i < bytes.len()
        invariant
            i <= bytes@.len() <= 16,
            value == be_value(bytes@.take(i as int)),
        decreases bytes@.len() - i,
    {
        let ghost next = bytes@.take(i as int + 1);
        proof {
            assert(next.drop_last() =~= bytes@.take(i as int));
            lemma_be_value_bound(next);
            lemma_pow256_monotone(next.len(), 16);
            lemma_pow256_small();
        }
        value = value * 256 + bytes[i] as u128;
        i = i + 1;
    }
    assert(bytes@.take(i as int) =~= bytes@);
    value
}

/// A fixed-width integer with a big-endian wire form.
pub trait Integer: Sized {
    /// How many bytes the value takes on the wire.
    spec fn width() -> nat;

    /// The value's bit pattern read as an unsigned number.
    spec fn bits(&self) -> nat;

    /// The big-endian bytes of the value.
    fn to_bytes(&self) -> (r: Vec<u8>)
        ensures
            r@ == be_bytes(self.bits(), Self::width()),
    ;

    /// The value whose big-endian bytes are `bytes`.
    fn from_bytes(bytes: &[u8]) -> (r: Self)
        requires
            bytes@.len() == Self::width(),
        ensures
            r.bits() == be_value(bytes@),
    ;

    /// How many bytes the value takes on the wire.
    fn byte_len() -> (r: usize)
        ensures
            r as nat == Self::width(),
            1 <= r <= 16,
    ;

    /// The bit pattern fits the width and tells values apart.
    proof fn lemma_bits(a: Self, b: Self)
        ensures
            a.bits() < pow256(Self::width()),
            a.bits() == b.bits() ==> a == b,
    ;
}

/// Reading back the big-endian bytes of any fixed-width integer gives the same
/// integer, and the bytes are exactly as many as the width.
pub proof fn lemma_integer_round_trip<I: Integer>(x: I, y: I)
    requires
        y.bits() == be_value(be_bytes(x.bits(), I::width())),
    ensures
        y == x,
        be_bytes(x.bits(), I::width()).len() == I::width(),
{
    I::lemma_bits(x, y);
    lemma_be_round_trip(x.bits(), I::width());
    vstd::arithmetic::div_mod::lemma_small_mod(x.bits(), pow256(I::width()));
}

impl Integer for u8 {
    open spec fn width() -> nat {
        1
    }

    open spec fn bits(&self) -> nat {
        *self as nat
    }

    fn to_bytes(&self) -> (r: Vec<u8>) {
        be_encode(*self as u128, 1)
    }

    fn from_bytes(bytes: &[u8]) -> (r: u8) {
        proof {
            lemma_be_value_bound(bytes@);
            lemma_pow256_small();
        }
        be_decode(bytes) as u8
    }

    fn byte_len() -> (r: usize) {
        1
    }

    proof fn lemma_bits(a: u8, b: u8) {
        lemma_pow256_small();
    }
}

impl Integer for u16 {
    open spec fn width() -> nat {
        2
    }

    open spec fn bits(&self) -> nat {
        *self as nat
    }

    fn to_bytes(&self) -> (r: Vec<u8>) {
        be_encode(*self as u128, 2)
    }

    fn from_bytes(bytes: &[u8]) -> (r: u16) {
        proof {
            lemma_be_value_bound(bytes@);
            lemma_pow256_small();
        }
        be_decode(bytes) as u16
    }

    fn byte_len() -> (r: usize) {
        2
    }

    proof fn lemma_bits(a: u16, b: u16) {
        lemma_pow256_small();
    }
}

impl Integer for u32 {
    open spec fn width() -> nat {
        4
    }

    open spec fn bits(&self) -> nat {
        *self as nat
    }

    fn to_bytes(&self) -> (r: Vec<u8>) {
        be_encode(*self as u128, 4)
    }

    fn from_bytes(bytes: &[u8]) -> (r: u32) {
        proof {
            lemma_be_value_bound(bytes@);
            lemma_pow256_small();
        }
        be_decode(bytes) as u32
    }

    fn byte_len() -> (r: usize) {
        4
    }

    proof fn lemma_bits(a: u32, b: u32) {
        lemma_pow256_small();
    }
}

impl Integer for u64 {
    open spec fn width() -> nat {
        8
    }

    open spec fn bits(&self) -> nat {
        *self as nat
    }

    fn to_bytes(&self) -> (r: Vec<u8>) {
        be_encode(*self as u128, 8)
    }

    fn from_bytes(bytes: &[u8]) -> (r: u64) {
        proof {
            lemma_be_value_bound(bytes@);
            lemma_pow256_small();
        }
        be_decode(bytes) as u64
    }

    fn byte_len() -> (r: usize) {
        8
    }

    proof fn lemma_bits(a: u64, b: u64) {
        lemma_pow256_small();
    }
}

impl Integer for u128 {
    open spec fn width() -> nat {
        16
    }

    open spec fn bits(&self) -> nat {
        *self as nat
    }

    fn to_bytes(&self) -> (r: Vec<u8>) {
        be_encode(*self, 16)
    }

    fn from_bytes(bytes: &[u8]) -> (r: u128) {
        be_decode(bytes)
    }

    fn byte_len() -> (r: usize) {
        16
    }

    proof fn lemma_bits(a: u128, b: u128) {
        lemma_pow256_small();
    }
}

impl Integer for i8 {
    open spec fn width() -> nat {
        1
    }

    open spec fn bits(&self) -> nat {
        (*self as u8) as nat
    }

    fn to_bytes(&self) -> (r: Vec<u8>) {
        be_encode((#[verifier::truncate] (*self as u8)) as u128, 1)
    }

    fn from_bytes(bytes: &[u8]) -> (r: i8) {
        proof {
            lemma_be_value_bound(bytes@);
            lemma_pow256_small();
        }
        let u = be_decode(bytes) as u8;
        assert(((u as i8) as u8) == u) by (bit_vector);
        #[verifier::truncate] (u as i8)
    }

    fn byte_len() -> (r: usize) {
        1
    }

    proof fn lemma_bits(a: i8, b: i8) {
        lemma_pow256_small();
        assert((a as u8) == (b as u8) ==> a == b) by (bit_vector);
    }
}

impl Integer for i16 {
    open spec fn width() -> nat {
        2
    }

    open spec fn bits(&self) -> nat {
        (*self as u16) as nat
    }

    fn to_bytes(&self) -> (r: Vec<u8>) {
        be_encode((#[verifier::truncate] (*self as u16)) as u128, 2)
    }

    fn from_bytes(bytes: &[u8]) -> (r: i16) {
        proof {
            lemma_be_value_bound(bytes@);
            lemma_pow256_small();
        }
        let u = be_decode(bytes) as u16;
        assert(((u as i16) as u16) == u) by (bit_vector);
        #[verifier::truncate] (u as i16)
    }

    fn byte_len() -> (r: usize) {
        2
    }

    proof fn lemma_bits(a: i16, b: i16) {
        lemma_pow256_small();
        assert((a as u16) == (b as u16) ==> a == b) by (bit_vector);
    }
}

impl Integer for i32 {
    open spec fn width() -> nat {
        4
    }

    open spec fn bits(&self) -> nat {
        (*self as u32) as nat
    }

    fn to_bytes(&self) -> (r: Vec<u8>) {
        be_encode((#[verifier::truncate] (*self as u32)) as u128, 4)
    }

    fn from_bytes(bytes: &[u8]) -> (r: i32) {
        proof {
            lemma_be_value_bound(bytes@);
            lemma_pow256_small();
        }
        let u = be_decode(bytes) as u32;
        assert(((u as i32) as u32) == u) by (bit_vector);
        #[verifier::truncate] (u as i32)
    }

    fn byte_len() -> (r: usize) {
        4
    }

    proof fn lemma_bits(a: i32, b: i32) {
        lemma_pow256_small();
        assert((a as u32) == (b as u32) ==> a == b) by (bit_vector);
    }
}

impl Integer for i64 {
    open spec fn width() -> nat {
        8
    }

    open spec fn bits(&self) -> nat {
        (*self as u64) as nat
    }

    fn to_bytes(&self) -> (r: Vec<u8>) {
        be_encode((#[verifier::truncate] (*self as u64)) as u128, 8)
    }

    fn from_bytes(bytes: &[u8]) -> (r: i64) {
        proof {
            lemma_be_value_bound(bytes@);
            lemma_pow256_small();
        }
        let u = be_decode(bytes) as u64;
        assert(((u as i64) as u64) == u) by (bit_vector);
        #[verifier::truncate] (u as i64)
    }

    fn byte_len() -> (r: usize) {
        8
    }

    proof fn lemma_bits(a: i64, b: i64) {
        lemma_pow256_small();
        assert((a as u64) == (b as u64) ==> a == b) by (bit_vector);
    }
}

} // verus!
