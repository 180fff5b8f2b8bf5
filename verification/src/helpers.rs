//! Conversions between unsigned integers and their big-endian byte arrays,
//! and little-endian reads out of a byte buffer.

use crate::types::Byte;
use vstd::prelude::*;

verus! {

/// `256` raised to the power `n`: the number of values that `n` bytes can hold.
pub open spec fn byte_bound(n: nat) -> nat
    decreases n,
{
    if n == 0 {
        1
    } else {
        256 * byte_bound((n - 1) as nat)
    }
}

/// The value of `bytes` read as a big-endian unsigned integer
/// (the first byte is the most significant).
pub open spec fn be_value(bytes: Seq<u8>) -> nat
    decreases bytes.len(),
{
    if bytes.len() == 0 {
        0
    } else {
        be_value(bytes.drop_last()) * 256 + bytes.last() as nat
    }
}

/// The value of `bytes` read as a little-endian unsigned integer
/// (the first byte is the least significant).
pub open spec fn le_value(bytes: Seq<u8>) -> nat
    decreases bytes.len(),
{
    if bytes.len() == 0 {
        0
    } else {
        bytes[0] as nat + 256 * le_value(bytes.drop_first())
    }
}

/// The `n` bytes that write `v` in big-endian order (the value is taken modulo `256^n`).
pub open spec fn be_bytes(v: nat, n: nat) -> Seq<u8>
    decreases n,
{
    if n == 0 {
        Seq::empty()
    } else {
        be_bytes(v / 256, (n - 1) as nat).push((v % 256) as u8)
    }
}

/// `256^n` is at least one.
pub proof fn lemma_byte_bound_positive(n: nat)
    ensures
        byte_bound(n) >= 1,
    decreases n,
{
    if n > 0 {
        lemma_byte_bound_positive((n - 1) as nat);
    }
}

/// Byte `i` of the big-endian encoding of `v` in `n` bytes.
pub proof fn lemma_be_bytes_index(v: nat, n: nat, i: nat)
    requires
        i < n,
    ensures
        be_bytes(v, n).len() == n,
        be_bytes(v, n)[i as int] == ((v / byte_bound((n - 1 - i) as nat)) % 256) as u8,
    decreases n,
{
    lemma_be_bytes_len(v, n);
    if i + 1 == n {
        assert(byte_bound(0) == 1);
        assert(be_bytes(v, n)[i as int] == (v % 256) as u8);
        assert(v / byte_bound(0) == v);
    } else {
        lemma_be_bytes_index(v / 256, (n - 1) as nat, i);
        lemma_be_bytes_len(v / 256, (n - 1) as nat);
        let k = (n - 2 - i) as nat;
        lemma_byte_bound_positive(k);
        assert(byte_bound((k + 1) as nat) == 256 * byte_bound(k));
        vstd::arithmetic::div_mod::lemma_div_denominator(v as int, 256, byte_bound(k) as int);
        assert((n - 1 - i) as nat == (k + 1) as nat);
        assert(be_bytes(v, n)[i as int] == be_bytes(v / 256, (n - 1) as nat)[i as int]);
        assert(((n - 1) - 1 - i) as nat == k);
        assert((v / 256) / byte_bound(k) == v / byte_bound((k + 1) as nat));
    }
}

/// The encoding of a value in `n` bytes has `n` bytes.
pub proof fn lemma_be_bytes_len(v: nat, n: nat)
    ensures
        be_bytes(v, n).len() == n,
    decreases n,
{
    if n > 0 {
        lemma_be_bytes_len(v / 256, (n - 1) as nat);
    }
}

/// Reading back the big-endian encoding of a value that fits gives the value.
pub proof fn lemma_be_value_of_be_bytes(v: nat, n: nat)
    requires
        v < byte_bound(n),
    ensures
        be_value(be_bytes(v, n)) == v,
    decreases n,
{
    if n > 0 {
        let s = be_bytes(v / 256, (n - 1) as nat);
        lemma_be_value_of_be_bytes(v / 256, (n - 1) as nat);
        assert(s.push((v % 256) as u8).drop_last() =~= s);
    }
}

/// Encoding the big-endian value of a byte sequence, at its own length, gives the sequence back;
/// and that value fits in that many bytes.
pub proof fn lemma_be_bytes_of_be_value(s: Seq<u8>)
    ensures
        be_value(s) < byte_bound(s.len()),
        be_bytes(be_value(s), s.len()) == s,
    decreases s.len(),
{
    if s.len() > 0 {
        let t = s.drop_last();
        lemma_be_bytes_of_be_value(t);
        assert(t.push(s.last()) =~= s);
    }
}


/// An unsigned integer type that converts to and from its big-endian bytes.
pub trait BytesConversion: Sized {
    /// The byte array that holds a value of this type.
    type Bytes: View<V = Seq<u8>>;

    /// The number of bytes in [`Self::Bytes`].
    spec fn width() -> nat;

    /// The value as a mathematical integer.
    spec fn as_nat(&self) -> nat;

    /// Every array of this type's bytes has [`Self::width`] bytes.
    proof fn lemma_bytes_width(bytes: &Self::Bytes)
        ensures
            bytes@.len() == Self::width(),
    ;

    /// Every value fits in [`Self::width`] bytes.
    proof fn lemma_as_nat_fits(&self)
        ensures
            self.as_nat() < byte_bound(Self::width()),
    ;

    /// A value is determined by its integer value.
    proof fn lemma_as_nat_injective(a: &Self, b: &Self)
        ensures
            a.as_nat() == b.as_nat() ==> *a == *b,
    ;

    /// The big-endian bytes of `self`.
    fn to_bytes(self) -> (bytes: Self::Bytes)
        ensures
            bytes@ == be_bytes(self.as_nat(), Self::width()),
    ;

    /// The value whose big-endian bytes are `bytes`.
    fn from_bytes(bytes: Self::Bytes) -> (value: Self)
        ensures
            value.as_nat() == be_value(bytes@),
    ;
}

impl BytesConversion for u8 {
    type Bytes = [u8; 1];

    open spec fn width() -> nat {
        1
    }

    open spec fn as_nat(&self) -> nat {
        *self as nat
    }

    proof fn lemma_bytes_width(bytes: &[u8; 1]) {
    }

    proof fn lemma_as_nat_fits(&self) {
        reveal_with_fuel(byte_bound, 2);
    }

    proof fn lemma_as_nat_injective(a: &u8, b: &u8) {
    }

    fn to_bytes(self) -> (bytes: [u8; 1]) {
        let bytes: [u8; 1] = [self];
        proof {
            let v = self;
            reveal_with_fuel(byte_bound, 2);
            lemma_be_bytes_index(v as nat, 1, 0);
            assert(byte_bound(0) == 1);
            assert(bytes@ =~= be_bytes(v as nat, 1));
        }
        bytes
    }

    fn from_bytes(bytes: [u8; 1]) -> (value: u8) {
        let b0 = bytes[0];
        let value: u8 = b0;
        proof {
            reveal_with_fuel(byte_bound, 2);
            lemma_be_bytes_index(value as nat, 1, 0);
            assert(byte_bound(0) == 1);
            assert(bytes@ =~= be_bytes(value as nat, 1));
            lemma_be_value_of_be_bytes(value as nat, 1);
        }
        value
    }
}

impl BytesConversion for u16 {
    type Bytes = [u8; 2];

    open spec fn width() -> nat {
        2
    }

    open spec fn as_nat(&self) -> nat {
        *self as nat
    }

    proof fn lemma_bytes_width(bytes: &[u8; 2]) {
    }

    proof fn lemma_as_nat_fits(&self) {
        reveal_with_fuel(byte_bound, 3);
    }

    proof fn lemma_as_nat_injective(a: &u16, b: &u16) {
    }

    fn to_bytes(self) -> (bytes: [u8; 2]) {
        let bytes: [u8; 2] = [(self >> 8u16) as u8, self as u8];
        proof {
            let v = self;
            reveal_with_fuel(byte_bound, 3);
            lemma_be_bytes_index(v as nat, 2, 0);
            lemma_be_bytes_index(v as nat, 2, 1);
            assert(byte_bound(1) == 256);
            assert(byte_bound(0) == 1);
            assert((v >> 8u16) as u8 == ((v / 256) % 256) as u8) by (bit_vector);
            assert(v as u8 == ((v / 1) % 256) as u8) by (bit_vector);
            assert(bytes@ =~= be_bytes(v as nat, 2));
        }
        bytes
    }

    fn from_bytes(bytes: [u8; 2]) -> (value: u16) {
        let b0 = bytes[0];
        let b1 = bytes[1];
        let value: u16 = ((b0 as u16) << 8u16) | (b1 as u16);
        proof {
            reveal_with_fuel(byte_bound, 3);
            lemma_be_bytes_index(value as nat, 2, 0);
            lemma_be_bytes_index(value as nat, 2, 1);
            assert(byte_bound(1) == 256);
            assert(byte_bound(0) == 1);
            assert(b0 == ((value / 256) % 256) as u8 && b1 == ((value / 1) % 256) as u8) by (bit_vector)
                requires
                    value == ((b0 as u16) << 8u16) | (b1 as u16),
            ;
            assert(bytes@ =~= be_bytes(value as nat, 2));
            lemma_be_value_of_be_bytes(value as nat, 2);
        }
        value
    }
}

impl BytesConversion for u32 {
    type Bytes = [u8; 4];

    open spec fn width() -> nat {
        4
    }

    open spec fn as_nat(&self) -> nat {
        *self as nat
    }

    proof fn lemma_bytes_width(bytes: &[u8; 4]) {
    }

    proof fn lemma_as_nat_fits(&self) {
        reveal_with_fuel(byte_bound, 5);
    }

    proof fn lemma_as_nat_injective(a: &u32, b: &u32) {
    }

    fn to_bytes(self) -> (bytes: [u8; 4]) {
        let bytes: [u8; 4] = [(self >> 24u32) as u8, (self >> 16u32) as u8, (self >> 8u32) as u8, self as u8];
        proof {
            let v = self;
            reveal_with_fuel(byte_bound, 5);
            lemma_be_bytes_index(v as nat, 4, 0);
            lemma_be_bytes_index(v as nat, 4, 1);
            lemma_be_bytes_index(v as nat, 4, 2);
            lemma_be_bytes_index(v as nat, 4, 3);
            assert(byte_bound(3) == 16777216);
            assert(byte_bound(2) == 65536);
            assert(byte_bound(1) == 256);
            assert(byte_bound(0) == 1);
            assert((v >> 24u32) as u8 == ((v / 16777216) % 256) as u8) by (bit_vector);
            assert((v >> 16u32) as u8 == ((v / 65536) % 256) as u8) by (bit_vector);
            assert((v >> 8u32) as u8 == ((v / 256) % 256) as u8) by (bit_vector);
            assert(v as u8 == ((v / 1) % 256) as u8) by (bit_vector);
            assert(bytes@ =~= be_bytes(v as nat, 4));
        }
        bytes
    }

    fn from_bytes(bytes: [u8; 4]) -> (value: u32) {
        let b0 = bytes[0];
        let b1 = bytes[1];
        let b2 = bytes[2];
        let b3 = bytes[3];
        let value: u32 = ((b0 as u32) << 24u32) | ((b1 as u32) << 16u32) | ((b2 as u32) << 8u32) | (b3 as u32);
        proof {
            reveal_with_fuel(byte_bound, 5);
            lemma_be_bytes_index(value as nat, 4, 0);
            lemma_be_bytes_index(value as nat, 4, 1);
            lemma_be_bytes_index(value as nat, 4, 2);
            lemma_be_bytes_index(value as nat, 4, 3);
            assert(byte_bound(3) == 16777216);
            assert(byte_bound(2) == 65536);
            assert(byte_bound(1) == 256);
            assert(byte_bound(0) == 1);
            assert(b0 == ((value / 16777216) % 256) as u8 && b1 == ((value / 65536) % 256) as u8 && b2 == ((value / 256) % 256) as u8 && b3 == ((value / 1) % 256) as u8) by (bit_vector)
                requires
                    value == ((b0 as u32) << 24u32) | ((b1 as u32) << 16u32) | ((b2 as u32) << 8u32) | (b3 as u32),
            ;
            assert(bytes@ =~= be_bytes(value as nat, 4));
            lemma_be_value_of_be_bytes(value as nat, 4);
        }
        value
    }
}

impl BytesConversion for u64 {
    type Bytes = [u8; 8];

    open spec fn width() -> nat {
        8
    }

    open spec fn as_nat(&self) -> nat {
        *self as nat
    }

    proof fn lemma_bytes_width(bytes: &[u8; 8]) {
    }

    proof fn lemma_as_nat_fits(&self) {
        reveal_with_fuel(byte_bound, 9);
    }

    proof fn lemma_as_nat_injective(a: &u64, b: &u64) {
    }

    fn to_bytes(self) -> (bytes: [u8; 8]) {
        let bytes: [u8; 8] = [(self >> 56u64) as u8, (self >> 48u64) as u8, (self >> 40u64) as u8, (self >> 32u64) as u8, (self >> 24u64) as u8, (self >> 16u64) as u8, (self >> 8u64) as u8, self as u8];
        proof {
            let v = self;
            reveal_with_fuel(byte_bound, 9);
            lemma_be_bytes_index(v as nat, 8, 0);
            lemma_be_bytes_index(v as nat, 8, 1);
            lemma_be_bytes_index(v as nat, 8, 2);
            lemma_be_bytes_index(v as nat, 8, 3);
            lemma_be_bytes_index(v as nat, 8, 4);
            lemma_be_bytes_index(v as nat, 8, 5);
            lemma_be_bytes_index(v as nat, 8, 6);
            lemma_be_bytes_index(v as nat, 8, 7);
            assert(byte_bound(7) == 72057594037927936);
            assert(byte_bound(6) == 281474976710656);
            assert(byte_bound(5) == 1099511627776);
            assert(byte_bound(4) == 4294967296);
            assert(byte_bound(3) == 16777216);
            assert(byte_bound(2) == 65536);
            assert(byte_bound(1) == 256);
            assert(byte_bound(0) == 1);
            assert((v >> 56u64) as u8 == ((v / 72057594037927936) % 256) as u8) by (bit_vector);
            assert((v >> 48u64) as u8 == ((v / 281474976710656) % 256) as u8) by (bit_vector);
            assert((v >> 40u64) as u8 == ((v / 1099511627776) % 256) as u8) by (bit_vector);
            assert((v >> 32u64) as u8 == ((v / 4294967296) % 256) as u8) by (bit_vector);
            assert((v >> 24u64) as u8 == ((v / 16777216) % 256) as u8) by (bit_vector);
            assert((v >> 16u64) as u8 == ((v / 65536) % 256) as u8) by (bit_vector);
            assert((v >> 8u64) as u8 == ((v / 256) % 256) as u8) by (bit_vector);
            assert(v as u8 == ((v / 1) % 256) as u8) by (bit_vector);
            assert(bytes@ =~= be_bytes(v as nat, 8));
        }
        bytes
    }

    fn from_bytes(bytes: [u8; 8]) -> (value: u64) {
        let b0 = bytes[0];
        let b1 = bytes[1];
        let b2 = bytes[2];
        let b3 = bytes[3];
        let b4 = bytes[4];
        let b5 = bytes[5];
        let b6 = bytes[6];
        let b7 = bytes[7];
        let value: u64 = ((b0 as u64) << 56u64) | ((b1 as u64) << 48u64) | ((b2 as u64) << 40u64) | ((b3 as u64) << 32u64) | ((b4 as u64) << 24u64) | ((b5 as u64) << 16u64) | ((b6 as u64) << 8u64) | (b7 as u64);
        proof {
            reveal_with_fuel(byte_bound, 9);
            lemma_be_bytes_index(value as nat, 8, 0);
            lemma_be_bytes_index(value as nat, 8, 1);
            lemma_be_bytes_index(value as nat, 8, 2);
            lemma_be_bytes_index(value as nat, 8, 3);
            lemma_be_bytes_index(value as nat, 8, 4);
            lemma_be_bytes_index(value as nat, 8, 5);
            lemma_be_bytes_index(value as nat, 8, 6);
            lemma_be_bytes_index(value as nat, 8, 7);
            assert(byte_bound(7) == 72057594037927936);
            assert(byte_bound(6) == 281474976710656);
            assert(byte_bound(5) == 1099511627776);
            assert(byte_bound(4) == 4294967296);
            assert(byte_bound(3) == 16777216);
            assert(byte_bound(2) == 65536);
            assert(byte_bound(1) == 256);
            assert(byte_bound(0) == 1);
            assert(b0 == ((value / 72057594037927936) % 256) as u8 && b1 == ((value / 281474976710656) % 256) as u8 && b2 == ((value / 1099511627776) % 256) as u8 && b3 == ((value / 4294967296) % 256) as u8 && b4 == ((value / 16777216) % 256) as u8 && b5 == ((value / 65536) % 256) as u8 && b6 == ((value / 256) % 256) as u8 && b7 == ((value / 1) % 256) as u8) by (bit_vector)
                requires
                    value == ((b0 as u64) << 56u64) | ((b1 as u64) << 48u64) | ((b2 as u64) << 40u64) | ((b3 as u64) << 32u64) | ((b4 as u64) << 24u64) | ((b5 as u64) << 16u64) | ((b6 as u64) << 8u64) | (b7 as u64),
            ;
            assert(bytes@ =~= be_bytes(value as nat, 8));
            lemma_be_value_of_be_bytes(value as nat, 8);
        }
        value
    }
}


/// Converts `value` to its big-endian bytes.
pub fn to_bytes<T: BytesConversion>(value: T) -> (bytes: T::Bytes)
    ensures
        bytes@ == be_bytes(value.as_nat(), T::width()),
{
    value.to_bytes()
}

/// The value whose big-endian bytes are `bytes`.
pub fn from_bytes<T: BytesConversion>(bytes: T::Bytes) -> (value: T)
    ensures
        value.as_nat() == be_value(bytes@),
{
    T::from_bytes(bytes)
}

/// Converting a value to bytes and back gives the value.
pub proof fn lemma_from_bytes_undoes_to_bytes<T: BytesConversion>(value: T, bytes: T::Bytes, back: T)
    requires
        bytes@ == be_bytes(value.as_nat(), T::width()),
        back.as_nat() == be_value(bytes@),
    ensures
        back == value,
{
    value.lemma_as_nat_fits();
    lemma_be_value_of_be_bytes(value.as_nat(), T::width());
    T::lemma_as_nat_injective(&back, &value);
}

/// Converting bytes to a value and back gives the bytes.
pub proof fn lemma_to_bytes_undoes_from_bytes<T: BytesConversion>(bytes: T::Bytes, value: T, back: T::Bytes)
    requires
        value.as_nat() == be_value(bytes@),
        back@ == be_bytes(value.as_nat(), T::width()),
    ensures
        back@ == bytes@,
{
    T::lemma_bytes_width(&bytes);
    lemma_be_bytes_of_be_value(bytes@);
}

/// Reading bytes big-endian after reversing them is reading them little-endian.
pub proof fn lemma_be_value_of_reverse(s: Seq<u8>)
    ensures
        be_value(s.reverse()) == le_value(s),
    decreases s.len(),
{
    if s.len() > 0 {
        let t = s.drop_first();
        lemma_be_value_of_reverse(t);
        assert(s.reverse().drop_last() =~= t.reverse());
        assert(s.reverse().last() == s[0]);
    }
}

/// Reads the `N` bytes at `*pos` of `buf`, which hold a little-endian value,
/// returns them reversed (most significant first), and moves `*pos` past them.
pub fn read_n_bytes_le<const N: usize>(buf: &[u8], pos: &mut usize) -> (res: [Byte; N])
    requires
        *old(pos) + N <= buf@.len(),
    ensures
        *final(pos) == *old(pos) + N,
        res@ == buf@.subrange(*old(pos) as int, *old(pos) + N).reverse(),
        be_value(res@) == le_value(buf@.subrange(*old(pos) as int, *old(pos) + N)),
{
    let start = *pos;
    let len = buf.len();
    let mut res = [0u8; N];
    let mut i: usize = 0;
    while i < N
        invariant
            len == buf@.len(),
            start + N <= len,
            i <= N,
            res@.len() == N,
            forall|j: int| 0 <= j < i ==> res@[j] == buf@[start + N - 1 - j],
        decreases N - i,
    {
        res[i] = buf[start + N - 1 - i];
        i = i + 1;
    }
    *pos = start + N;
    proof {
        let field = buf@.subrange(start as int, start + N);
        assert(res@ =~= field.reverse());
        lemma_be_value_of_reverse(field);
    }
    res
}

} // verus!
