use vstd::prelude::*;

verus! {

/// Single-bit and bit-range access on unsigned integers.
///
/// Bits are numbered from the least significant bit (bit 0). A bit range
/// `start..end` covers the bits `start <= i < end`.
pub trait BitHelper: Sized {
    /// The number of bits of the integer type.
    spec fn bit_width() -> nat;

    /// Bit `i` of the value.
    spec fn spec_bit(&self, i: nat) -> bool;

    /// Sets bit `bit` to `value`, leaving every other bit unchanged.
    fn set_bit(&mut self, bit: usize, value: bool)
        requires
            bit < Self::bit_width(),
        ensures
            forall|i: nat|
                i < Self::bit_width() ==> #[trigger] final(self).spec_bit(i) == (if i == bit {
                    value
                } else {
                    old(self).spec_bit(i)
                }),
    ;

    /// Replaces the bits `bits.start..bits.end` with the low bits of `value`,
    /// leaving every other bit unchanged.
    fn set_bits(&mut self, bits: core::ops::Range<usize>, value: Self)
        requires
            bits.start < bits.end <= Self::bit_width(),
        ensures
            forall|i: nat|
                i < Self::bit_width() ==> #[trigger] final(self).spec_bit(i) == (if bits.start <= i
                    < bits.end {
                    value.spec_bit((i - bits.start) as nat)
                } else {
                    old(self).spec_bit(i)
                }),
    ;

    /// Returns bit `bit`.
    fn get_bit(&self, bit: usize) -> (r: bool)
        requires
            bit < Self::bit_width(),
        ensures
            r == self.spec_bit(bit as nat),
    ;

    /// Returns the bits `bits.start..bits.end`, shifted down to bit 0; all
    /// higher bits of the result are zero.
    fn get_bits(&self, bits: core::ops::Range<usize>) -> (r: Self)
        requires
            bits.start < bits.end <= Self::bit_width(),
        ensures
            forall|i: nat|
                i < Self::bit_width() ==> #[trigger] r.spec_bit(i) == (i < bits.end - bits.start
                    && self.spec_bit((i + bits.start) as nat)),
    ;
}

/// Reading a bit back after setting it gives the value that was set, and
/// every other bit keeps its value: `new` is `old` after `set_bit(bit,
/// value)`.
pub proof fn lemma_bit_read_after_write<T: BitHelper>(old: T, new: T, bit: nat, value: bool)
    requires
        bit < T::bit_width(),
        forall|i: nat| i < T::bit_width() ==> #[trigger] new.spec_bit(i) == (if i == bit { value } else { old.spec_bit(i) }),
    ensures
        new.spec_bit(bit) == value,
        forall|i: nat| i < T::bit_width() && i != bit ==> #[trigger] new.spec_bit(i) == old.spec_bit(i),
{
}

/// Reading a bit range back after writing it gives the low bits of the value
/// that was written: `new` is `old` after `set_bits(start..end, value)`, and
/// `read` is what `get_bits(start..end)` returns on `new`.
pub proof fn lemma_bits_read_after_write<T: BitHelper>(old: T, new: T, read: T, start: nat, end: nat, value: T)
    requires
        start < end <= T::bit_width(),
        forall|i: nat|
            i < T::bit_width() ==> #[trigger] new.spec_bit(i) == (if start <= i < end {
                value.spec_bit((i - start) as nat)
            } else {
                old.spec_bit(i)
            }),
        forall|i: nat|
            i < T::bit_width() ==> #[trigger] read.spec_bit(i) == (i < end - start && new.spec_bit((i + start) as nat)),
    ensures
        forall|i: nat| i < T::bit_width() ==> #[trigger] read.spec_bit(i) == (i < end - start && value.spec_bit(i)),
{
    assert forall|i: nat| i < T::bit_width() implies #[trigger] read.spec_bit(i) == (i < end - start && value.spec_bit(
        i,
    )) by {
        if i < end - start {
            assert(new.spec_bit((i + start) as nat) == value.spec_bit(i));
        }
    }
}

proof fn lemma_u8_set_bit(x: u8, b: u8, v: u8, r: u8)
    by (bit_vector)
    requires
        b < 8,
        v <= 1,
        r == (x & !(1u8 << b)) | (v << b),
    ensures
        forall|i: u8| i < 8 ==> (((r >> i) & 1u8 == 1u8) == (if i == b { v == 1u8 } else { (x >> i) & 1u8 == 1u8 })),
{
}

proof fn lemma_u8_set_bits(x: u8, s: u8, e: u8, v: u8, r: u8)
    by (bit_vector)
    requires
        s < e <= 8,
        r == (x & !((0xffu8 >> ((8u8 - (e - s)) as u8)) << s)) | ((v << s) & ((0xffu8 >> ((8u8 - (e - s)) as u8)) << s)),
    ensures
        forall|i: u8| i < 8 ==> (((r >> i) & 1u8 == 1u8) == (if s <= i && i < e { (v >> ((i - s) as u8)) & 1u8 == 1u8 } else { (x >> i) & 1u8 == 1u8 })),
{
}

proof fn lemma_u8_get_bits(x: u8, s: u8, e: u8, r: u8)
    by (bit_vector)
    requires
        s < e <= 8,
        r == ((x << ((8u8 - e) as u8)) >> ((8u8 - e) as u8)) >> s,
    ensures
        forall|i: u8| i < 8 ==> (((r >> i) & 1u8 == 1u8) == (i < e - s && (x >> ((i + s) as u8)) & 1u8 == 1u8)),
{
}

impl BitHelper for u8 {
    open spec fn bit_width() -> nat {
        8
    }

    open spec fn spec_bit(&self, i: nat) -> bool {
        (*self >> (i as u8)) & 1u8 == 1u8
    }

    fn set_bit(&mut self, bit: usize, value: bool) {
        let v: u8 = if value { 1 } else { 0 };
        let b: u8 = bit as u8;
        *self &= !(1u8 << b);
        *self |= v << b;
        proof {
            lemma_u8_set_bit(*old(self), b, v, *self);
        }
    }

    fn set_bits(&mut self, bits: core::ops::Range<usize>, value: Self) {
        let s: u8 = bits.start as u8;
        let e: u8 = bits.end as u8;
        let mask: u8 = (0xffu8 >> ((8u8 - (e - s)) as u8)) << s;
        *self &= !mask;
        *self |= (value << s) & mask;
        proof {
            lemma_u8_set_bits(*old(self), s, e, value, *self);
            assert forall|i: nat| i < 8 implies #[trigger] self.spec_bit(i) == (if bits.start <= i < bits.end {
                value.spec_bit((i - bits.start) as nat)
            } else {
                old(self).spec_bit(i)
            }) by {
                let j = i as u8;
                if s <= j && j < e {
                    assert((j - s) as u8 == ((i - bits.start) as nat) as u8);
                }
            }
        }
    }

    fn get_bit(&self, bit: usize) -> (r: bool) {
        let b: u8 = bit as u8;
        ((*self >> b) & 1) == 1
    }

    fn get_bits(&self, bits: core::ops::Range<usize>) -> (r: Self) {
        let s: u8 = bits.start as u8;
        let e: u8 = bits.end as u8;
        let truncated: u8 = (*self << (8u8 - e)) >> (8u8 - e);
        let r: u8 = truncated >> s;
        proof {
            lemma_u8_get_bits(*self, s, e, r);
            assert forall|i: nat| i < 8 implies #[trigger] r.spec_bit(i) == (i < bits.end - bits.start
                && self.spec_bit((i + bits.start) as nat)) by {
                let j = i as u8;
                if j < e - s {
                    assert((j + s) as u8 == (i + bits.start) as u8);
                }
            }
        }
        r
    }
}

proof fn lemma_u16_set_bit(x: u16, b: u8, v: u16, r: u16)
    by (bit_vector)
    requires
        b < 16,
        v <= 1,
        r == (x & !(1u16 << b)) | (v << b),
    ensures
        forall|i: u8| i < 16 ==> (((r >> i) & 1u16 == 1u16) == (if i == b { v == 1u16 } else { (x >> i) & 1u16 == 1u16 })),
{
}

proof fn lemma_u16_set_bits(x: u16, s: u8, e: u8, v: u16, r: u16)
    by (bit_vector)
    requires
        s < e <= 16,
        r == (x & !((0xffffu16 >> ((16u8 - (e - s)) as u8)) << s)) | ((v << s) & ((0xffffu16 >> ((16u8 - (e - s)) as u8)) << s)),
    ensures
        forall|i: u8| i < 16 ==> (((r >> i) & 1u16 == 1u16) == (if s <= i && i < e { (v >> ((i - s) as u8)) & 1u16 == 1u16 } else { (x >> i) & 1u16 == 1u16 })),
{
}

proof fn lemma_u16_get_bits(x: u16, s: u8, e: u8, r: u16)
    by (bit_vector)
    requires
        s < e <= 16,
        r == ((x << ((16u8 - e) as u8)) >> ((16u8 - e) as u8)) >> s,
    ensures
        forall|i: u8| i < 16 ==> (((r >> i) & 1u16 == 1u16) == (i < e - s && (x >> ((i + s) as u8)) & 1u16 == 1u16)),
{
}

impl BitHelper for u16 {
    open spec fn bit_width() -> nat {
        16
    }

    open spec fn spec_bit(&self, i: nat) -> bool {
        (*self >> (i as u8)) & 1u16 == 1u16
    }

    fn set_bit(&mut self, bit: usize, value: bool) {
        let v: u16 = if value { 1 } else { 0 };
        let b: u8 = bit as u8;
        *self &= !(1u16 << b);
        *self |= v << b;
        proof {
            lemma_u16_set_bit(*old(self), b, v, *self);
        }
    }

    fn set_bits(&mut self, bits: core::ops::Range<usize>, value: Self) {
        let s: u8 = bits.start as u8;
        let e: u8 = bits.end as u8;
        let mask: u16 = (0xffffu16 >> ((16u8 - (e - s)) as u8)) << s;
        *self &= !mask;
        *self |= (value << s) & mask;
        proof {
            lemma_u16_set_bits(*old(self), s, e, value, *self);
            assert forall|i: nat| i < 16 implies #[trigger] self.spec_bit(i) == (if bits.start <= i < bits.end {
                value.spec_bit((i - bits.start) as nat)
            } else {
                old(self).spec_bit(i)
            }) by {
                let j = i as u8;
                if s <= j && j < e {
                    assert((j - s) as u8 == ((i - bits.start) as nat) as u8);
                }
            }
        }
    }

    fn get_bit(&self, bit: usize) -> (r: bool) {
        let b: u8 = bit as u8;
        ((*self >> b) & 1) == 1
    }

    fn get_bits(&self, bits: core::ops::Range<usize>) -> (r: Self) {
        let s: u8 = bits.start as u8;
        let e: u8 = bits.end as u8;
        let truncated: u16 = (*self << (16u8 - e)) >> (16u8 - e);
        let r: u16 = truncated >> s;
        proof {
            lemma_u16_get_bits(*self, s, e, r);
            assert forall|i: nat| i < 16 implies #[trigger] r.spec_bit(i) == (i < bits.end - bits.start
                && self.spec_bit((i + bits.start) as nat)) by {
                let j = i as u8;
                if j < e - s {
                    assert((j + s) as u8 == (i + bits.start) as u8);
                }
            }
        }
        r
    }
}

proof fn lemma_u32_set_bit(x: u32, b: u8, v: u32, r: u32)
    by (bit_vector)
    requires
        b < 32,
        v <= 1,
        r == (x & !(1u32 << b)) | (v << b),
    ensures
        forall|i: u8| i < 32 ==> (((r >> i) & 1u32 == 1u32) == (if i == b { v == 1u32 } else { (x >> i) & 1u32 == 1u32 })),
{
}

proof fn lemma_u32_set_bits(x: u32, s: u8, e: u8, v: u32, r: u32)
    by (bit_vector)
    requires
        s < e <= 32,
        r == (x & !((0xffff_ffffu32 >> ((32u8 - (e - s)) as u8)) << s)) | ((v << s) & ((0xffff_ffffu32 >> ((32u8 - (e - s)) as u8)) << s)),
    ensures
        forall|i: u8| i < 32 ==> (((r >> i) & 1u32 == 1u32) == (if s <= i && i < e { (v >> ((i - s) as u8)) & 1u32 == 1u32 } else { (x >> i) & 1u32 == 1u32 })),
{
}

proof fn lemma_u32_get_bits(x: u32, s: u8, e: u8, r: u32)
    by (bit_vector)
    requires
        s < e <= 32,
        r == ((x << ((32u8 - e) as u8)) >> ((32u8 - e) as u8)) >> s,
    ensures
        forall|i: u8| i < 32 ==> (((r >> i) & 1u32 == 1u32) == (i < e - s && (x >> ((i + s) as u8)) & 1u32 == 1u32)),
{
}

impl BitHelper for u32 {
    open spec fn bit_width() -> nat {
        32
    }

    open spec fn spec_bit(&self, i: nat) -> bool {
        (*self >> (i as u8)) & 1u32 == 1u32
    }

    fn set_bit(&mut self, bit: usize, value: bool) {
        let v: u32 = if value { 1 } else { 0 };
        let b: u8 = bit as u8;
        *self &= !(1u32 << b);
        *self |= v << b;
        proof {
            lemma_u32_set_bit(*old(self), b, v, *self);
        }
    }

    fn set_bits(&mut self, bits: core::ops::Range<usize>, value: Self) {
        let s: u8 = bits.start as u8;
        let e: u8 = bits.end as u8;
        let mask: u32 = (0xffff_ffffu32 >> ((32u8 - (e - s)) as u8)) << s;
        *self &= !mask;
        *self |= (value << s) & mask;
        proof {
            lemma_u32_set_bits(*old(self), s, e, value, *self);
            assert forall|i: nat| i < 32 implies #[trigger] self.spec_bit(i) == (if bits.start <= i < bits.end {
                value.spec_bit((i - bits.start) as nat)
            } else {
                old(self).spec_bit(i)
            }) by {
                let j = i as u8;
                if s <= j && j < e {
                    assert((j - s) as u8 == ((i - bits.start) as nat) as u8);
                }
            }
        }
    }

    fn get_bit(&self, bit: usize) -> (r: bool) {
        let b: u8 = bit as u8;
        ((*self >> b) & 1) == 1
    }

    fn get_bits(&self, bits: core::ops::Range<usize>) -> (r: Self) {
        let s: u8 = bits.start as u8;
        let e: u8 = bits.end as u8;
        let truncated: u32 = (*self << (32u8 - e)) >> (32u8 - e);
        let r: u32 = truncated >> s;
        proof {
            lemma_u32_get_bits(*self, s, e, r);
            assert forall|i: nat| i < 32 implies #[trigger] r.spec_bit(i) == (i < bits.end - bits.start
                && self.spec_bit((i + bits.start) as nat)) by {
                let j = i as u8;
                if j < e - s {
                    assert((j + s) as u8 == (i + bits.start) as u8);
                }
            }
        }
        r
    }
}

proof fn lemma_u64_set_bit(x: u64, b: u8, v: u64, r: u64)
    by (bit_vector)
    requires
        b < 64,
        v <= 1,
        r == (x & !(1u64 << b)) | (v << b),
    ensures
        forall|i: u8| i < 64 ==> (((r >> i) & 1u64 == 1u64) == (if i == b { v == 1u64 } else { (x >> i) & 1u64 == 1u64 })),
{
}

proof fn lemma_u64_set_bits(x: u64, s: u8, e: u8, v: u64, r: u64)
    by (bit_vector)
    requires
        s < e <= 64,
        r == (x & !((0xffff_ffff_ffff_ffffu64 >> ((64u8 - (e - s)) as u8)) << s)) | ((v << s) & ((0xffff_ffff_ffff_ffffu64 >> ((64u8 - (e - s)) as u8)) << s)),
    ensures
        forall|i: u8| i < 64 ==> (((r >> i) & 1u64 == 1u64) == (if s <= i && i < e { (v >> ((i - s) as u8)) & 1u64 == 1u64 } else { (x >> i) & 1u64 == 1u64 })),
{
}

proof fn lemma_u64_get_bits(x: u64, s: u8, e: u8, r: u64)
    by (bit_vector)
    requires
        s < e <= 64,
        r == ((x << ((64u8 - e) as u8)) >> ((64u8 - e) as u8)) >> s,
    ensures
        forall|i: u8| i < 64 ==> (((r >> i) & 1u64 == 1u64) == (i < e - s && (x >> ((i + s) as u8)) & 1u64 == 1u64)),
{
}

impl BitHelper for u64 {
    open spec fn bit_width() -> nat {
        64
    }

    open spec fn spec_bit(&self, i: nat) -> bool {
        (*self >> (i as u8)) & 1u64 == 1u64
    }

    fn set_bit(&mut self, bit: usize, value: bool) {
        let v: u64 = if value { 1 } else { 0 };
        let b: u8 = bit as u8;
        *self &= !(1u64 << b);
        *self |= v << b;
        proof {
            lemma_u64_set_bit(*old(self), b, v, *self);
        }
    }

    fn set_bits(&mut self, bits: core::ops::Range<usize>, value: Self) {
        let s: u8 = bits.start as u8;
        let e: u8 = bits.end as u8;
        let mask: u64 = (0xffff_ffff_ffff_ffffu64 >> ((64u8 - (e - s)) as u8)) << s;
        *self &= !mask;
        *self |= (value << s) & mask;
        proof {
            lemma_u64_set_bits(*old(self), s, e, value, *self);
            assert forall|i: nat| i < 64 implies #[trigger] self.spec_bit(i) == (if bits.start <= i < bits.end {
                value.spec_bit((i - bits.start) as nat)
            } else {
                old(self).spec_bit(i)
            }) by {
                let j = i as u8;
                if s <= j && j < e {
                    assert((j - s) as u8 == ((i - bits.start) as nat) as u8);
                }
            }
        }
    }

    fn get_bit(&self, bit: usize) -> (r: bool) {
        let b: u8 = bit as u8;
        ((*self >> b) & 1) == 1
    }

    fn get_bits(&self, bits: core::ops::Range<usize>) -> (r: Self) {
        let s: u8 = bits.start as u8;
        let e: u8 = bits.end as u8;
        let truncated: u64 = (*self << (64u8 - e)) >> (64u8 - e);
        let r: u64 = truncated >> s;
        proof {
            lemma_u64_get_bits(*self, s, e, r);
            assert forall|i: nat| i < 64 implies #[trigger] r.spec_bit(i) == (i < bits.end - bits.start
                && self.spec_bit((i + bits.start) as nat)) by {
                let j = i as u8;
                if j < e - s {
                    assert((j + s) as u8 == (i + bits.start) as u8);
                }
            }
        }
        r
    }
}

proof fn lemma_u128_set_bit(x: u128, b: u8, v: u128, r: u128)
    by (bit_vector)
    requires
        b < 128,
        v <= 1,
        r == (x & !(1u128 << b)) | (v << b),
    ensures
        forall|i: u8| i < 128 ==> (((r >> i) & 1u128 == 1u128) == (if i == b { v == 1u128 } else { (x >> i) & 1u128 == 1u128 })),
{
}

#[verifier::rlimit(100)]
proof fn lemma_u128_set_bits(x: u128, s: u8, e: u8, v: u128, r: u128)
    by (bit_vector)
    requires
        s < e <= 128,
        r == (x & !((0xffff_ffff_ffff_ffff_ffff_ffff_ffff_ffffu128 >> ((128u8 - (e - s)) as u8)) << s)) | ((v << s) & ((0xffff_ffff_ffff_ffff_ffff_ffff_ffff_ffffu128 >> ((128u8 - (e - s)) as u8)) << s)),
    ensures
        forall|i: u8| i < 128 ==> (((r >> i) & 1u128 == 1u128) == (if s <= i && i < e { (v >> ((i - s) as u8)) & 1u128 == 1u128 } else { (x >> i) & 1u128 == 1u128 })),
{
}

#[verifier::rlimit(100)]
proof fn lemma_u128_get_bits(x: u128, s: u8, e: u8, r: u128)
    by (bit_vector)
    requires
        s < e <= 128,
        r == ((x << ((128u8 - e) as u8)) >> ((128u8 - e) as u8)) >> s,
    ensures
        forall|i: u8| i < 128 ==> (((r >> i) & 1u128 == 1u128) == (i < e - s && (x >> ((i + s) as u8)) & 1u128 == 1u128)),
{
}

impl BitHelper for u128 {
    open spec fn bit_width() -> nat {
        128
    }

    open spec fn spec_bit(&self, i: nat) -> bool {
        (*self >> (i as u8)) & 1u128 == 1u128
    }

    fn set_bit(&mut self, bit: usize, value: bool) {
        let v: u128 = if value { 1 } else { 0 };
        let b: u8 = bit as u8;
        *self &= !(1u128 << b);
        *self |= v << b;
        proof {
            lemma_u128_set_bit(*old(self), b, v, *self);
        }
    }

    fn set_bits(&mut self, bits: core::ops::Range<usize>, value: Self) {
        let s: u8 = bits.start as u8;
        let e: u8 = bits.end as u8;
        let mask: u128 = (0xffff_ffff_ffff_ffff_ffff_ffff_ffff_ffffu128 >> ((128u8 - (e - s)) as u8)) << s;
        *self &= !mask;
        *self |= (value << s) & mask;
        proof {
            lemma_u128_set_bits(*old(self), s, e, value, *self);
            assert forall|i: nat| i < 128 implies #[trigger] self.spec_bit(i) == (if bits.start <= i < bits.end {
                value.spec_bit((i - bits.start) as nat)
            } else {
                old(self).spec_bit(i)
            }) by {
                let j = i as u8;
                if s <= j && j < e {
                    assert((j - s) as u8 == ((i - bits.start) as nat) as u8);
                }
            }
        }
    }

    fn get_bit(&self, bit: usize) -> (r: bool) {
        let b: u8 = bit as u8;
        ((*self >> b) & 1) == 1
    }

    fn get_bits(&self, bits: core::ops::Range<usize>) -> (r: Self) {
        let s: u8 = bits.start as u8;
        let e: u8 = bits.end as u8;
        let truncated: u128 = (*self << (128u8 - e)) >> (128u8 - e);
        let r: u128 = truncated >> s;
        proof {
            lemma_u128_get_bits(*self, s, e, r);
            assert forall|i: nat| i < 128 implies #[trigger] r.spec_bit(i) == (i < bits.end - bits.start
                && self.spec_bit((i + bits.start) as nat)) by {
                let j = i as u8;
                if j < e - s {
                    assert((j + s) as u8 == (i + bits.start) as u8);
                }
            }
        }
        r
    }
}

} // verus!
