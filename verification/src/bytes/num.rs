//! Numbers of fixed width in a byte slice, in both byte orders.
//!
//! A number of `n` bytes is read by taking `n` bytes and giving them their
//! place values; where fewer than `n` bytes are left, the read fails and the
//! point stays where it was. Signed numbers are in two's complement.

use crate::bytes::BytePoint;
use crate::point::Point;
use crate::progress::{Progress, Status};
use vstd::prelude::*;

verus! {

/// The number that `bytes` spell with the least significant byte first.
pub open spec fn le_value(bytes: Seq<u8>) -> nat
    decreases bytes.len(),
{
    if bytes.len() == 0 {
        0
    } else {
        bytes[0] as nat + 256 * le_value(bytes.drop_first())
    }
}

/// The number that `bytes` spell with the most significant byte first.
pub open spec fn be_value(bytes: Seq<u8>) -> nat
    decreases bytes.len(),
{
    if bytes.len() == 0 {
        0
    } else {
        256 * be_value(bytes.drop_last()) + bytes.last() as nat
    }
}

/// The number that the first `width` of `bytes` spell in the given order.
pub open spec fn value_at(bytes: Seq<u8>, width: nat, big_endian: bool) -> nat {
    if big_endian {
        be_value(bytes.take(width as int))
    } else {
        le_value(bytes.take(width as int))
    }
}

/// How many numbers `width` bytes can spell: 256 to the power of `width`.
pub open spec fn span(width: nat) -> nat
    decreases width,
{
    if width == 0 {
        1
    } else {
        256 * span((width - 1) as nat)
    }
}

/// The signed number that has, in two's complement of `width` bytes, the
/// bits of the unsigned number `value`.
pub open spec fn as_signed(value: nat, width: nat) -> int {
    if 2 * value < span(width) {
        value as int
    } else {
        value - span(width)
    }
}

/// More bytes spell more numbers.
proof fn lemma_span_grows(a: nat, b: nat)
    requires
        a <= b,
    ensures
        0 < span(a) <= span(b),
    decreases b,
{
    if a < b {
        lemma_span_grows(a, (b - 1) as nat);
    } else if a > 0 {
        lemma_span_grows((a - 1) as nat, (a - 1) as nat);
    }
}

/// The spans of the widths that numbers come in.
proof fn lemma_spans()
    ensures
        span(1) == 0x100,
        span(2) == 0x1_0000,
        span(4) == 0x1_0000_0000,
        span(8) == 0x1_0000_0000_0000_0000,
        span(16) == 0x1_0000_0000_0000_0000_0000_0000_0000_0000,
{
    reveal_with_fuel(span, 17);
}

/// Turning the bytes round swaps the byte orders: what the bytes spell
/// least significant byte first, their reversal spells most significant
/// byte first, and the other way round.
pub proof fn lemma_byte_orders_mirror(bytes: Seq<u8>)
    ensures
        le_value(bytes) == be_value(bytes.reverse()),
        be_value(bytes) == le_value(bytes.reverse()),
    decreases bytes.len(),
{
    if bytes.len() > 0 {
        let turned = bytes.reverse();
        assert(turned.last() == bytes[0]);
        assert(turned.drop_last() =~= bytes.drop_first().reverse());
        lemma_byte_orders_mirror(bytes.drop_first());
        assert(turned[0] == bytes.last());
        assert(turned.drop_first() =~= bytes.drop_last().reverse());
        lemma_byte_orders_mirror(bytes.drop_last());
    }
}

/// A number is spelled in one way only: bytes of equal count that spell the
/// same number, most significant byte first, are the same bytes.
pub proof fn lemma_value_fixes_bytes(a: Seq<u8>, b: Seq<u8>)
    requires
        a.len() == b.len(),
        be_value(a) == be_value(b),
    ensures
        a == b,
    decreases a.len(),
{
    if a.len() > 0 {
        let x = be_value(a.drop_last());
        let y = be_value(b.drop_last());
        assert(256 * x + a.last() == 256 * y + b.last());
        assert(x == y && a.last() == b.last());
        lemma_value_fixes_bytes(a.drop_last(), b.drop_last());
        assert(a =~= a.drop_last().push(a.last()));
        assert(b =~= b.drop_last().push(b.last()));
    } else {
        assert(a =~= b);
    }
}

/// The two readings of the same bytes are byte reversals of each other: the
/// bytes that spell the little-endian reading most significant byte first,
/// which is how the big-endian reading is spelled by the bytes themselves,
/// are the bytes turned round.
pub proof fn lemma_readings_are_reversals(bytes: Seq<u8>, spelling: Seq<u8>)
    requires
        spelling.len() == bytes.len(),
        be_value(spelling) == le_value(bytes),
    ensures
        spelling == bytes.reverse(),
{
    lemma_byte_orders_mirror(bytes);
    lemma_value_fixes_bytes(spelling, bytes.reverse());
}

/// The bytes of a number, least significant first, as one number.
fn le_number(bytes: &[u8]) -> (v: u128)
    requires
        bytes@.len() <= 16,
    ensures
        v == le_value(bytes@),
        v < span(bytes@.len()),
{
    let mut v: u128 = 0;
    let mut i: usize = bytes.len();
    assert(bytes@.skip(i as int) =~= Seq::<u8>::empty());
    while i > 0
        invariant
            i <= bytes@.len() <= 16,
            v == le_value(bytes@.skip(i as int)),
            v < span((bytes@.len() - i) as nat),
        decreases i,
    {
        i -= 1;
        proof {
            let tail = bytes@.skip(i as int);
            assert(tail.drop_first() =~= bytes@.skip(i + 1));
            lemma_span_grows((bytes@.len() - i) as nat, 16);
            lemma_spans();
        }
        v = v * 256 + bytes[i] as u128;
    }
    assert(bytes@.skip(0) =~= bytes@);
    v
}

/// The bytes of a number, most significant first, as one number.
fn be_number(bytes: &[u8]) -> (v: u128)
    requires
        bytes@.len() <= 16,
    ensures
        v == be_value(bytes@),
        v < span(bytes@.len()),
{
    let mut v: u128 = 0;
    let mut i: usize = 0;
    while i < bytes.len()
        invariant
            i <= bytes@.len() <= 16,
            v == be_value(bytes@.take(i as int)),
            v < span(i as nat),
        decreases bytes@.len() - i,
    {
        proof {
            let head = bytes@.take(i + 1);
            assert(head.drop_last() =~= bytes@.take(i as int));
            lemma_span_grows((i + 1) as nat, 16);
            lemma_spans();
        }
        v = v * 256 + bytes[i] as u128;
        i += 1;
    }
    assert(bytes@.take(bytes@.len() as int) =~= bytes@);
    v
}

/// Reads the number that the next `width` bytes spell.
fn number<'a>(from: BytePoint<'a>, width: usize, big_endian: bool) -> (r: Progress<
    BytePoint<'a>,
    u128,
    (),
>)
    requires
        from.wf(),
        0 < width <= 16,
    ensures
        from.is_read(width as nat, r),
        r.status matches Status::Success(v) ==> v == value_at(from.s@, width as nat, big_endian)
            && v < span(width as nat),
{
    let taken = from.consume(width);
    match taken.status {
        Status::Success(bytes) => {
            let v = if big_endian {
                be_number(bytes)
            } else {
                le_number(bytes)
            };
            Progress { point: taken.point, status: Status::Success(v) }
        },
        Status::Failure(e) => Progress { point: taken.point, status: Status::Failure(e) },
    }
}

/// Reads an unsigned number of 1 byte.
fn read8<'a>(from: BytePoint<'a>, big_endian: bool) -> (r: Progress<BytePoint<'a>, u8, ()>)
    requires
        from.wf(),
    ensures
        from.is_read(1, r),
        r.status matches Status::Success(v) ==> v == value_at(from.s@, 1, big_endian),
{
    proof {
        lemma_spans();
    }
    let wide = number(from, 1, big_endian);
    match wide.status {
        Status::Success(v) => Progress { point: wide.point, status: Status::Success(v as u8) },
        Status::Failure(e) => Progress { point: wide.point, status: Status::Failure(e) },
    }
}

/// Reads an unsigned number of 2 bytes.
fn read16<'a>(from: BytePoint<'a>, big_endian: bool) -> (r: Progress<BytePoint<'a>, u16, ()>)
    requires
        from.wf(),
    ensures
        from.is_read(2, r),
        r.status matches Status::Success(v) ==> v == value_at(from.s@, 2, big_endian),
{
    proof {
        lemma_spans();
    }
    let wide = number(from, 2, big_endian);
    match wide.status {
        Status::Success(v) => Progress { point: wide.point, status: Status::Success(v as u16) },
        Status::Failure(e) => Progress { point: wide.point, status: Status::Failure(e) },
    }
}

/// Reads an unsigned number of 4 bytes.
fn read32<'a>(from: BytePoint<'a>, big_endian: bool) -> (r: Progress<BytePoint<'a>, u32, ()>)
    requires
        from.wf(),
    ensures
        from.is_read(4, r),
        r.status matches Status::Success(v) ==> v == value_at(from.s@, 4, big_endian),
{
    proof {
        lemma_spans();
    }
    let wide = number(from, 4, big_endian);
    match wide.status {
        Status::Success(v) => Progress { point: wide.point, status: Status::Success(v as u32) },
        Status::Failure(e) => Progress { point: wide.point, status: Status::Failure(e) },
    }
}

/// Reads an unsigned number of 8 bytes.
fn read64<'a>(from: BytePoint<'a>, big_endian: bool) -> (r: Progress<BytePoint<'a>, u64, ()>)
    requires
        from.wf(),
    ensures
        from.is_read(8, r),
        r.status matches Status::Success(v) ==> v == value_at(from.s@, 8, big_endian),
{
    proof {
        lemma_spans();
    }
    let wide = number(from, 8, big_endian);
    match wide.status {
        Status::Success(v) => Progress { point: wide.point, status: Status::Success(v as u64) },
        Status::Failure(e) => Progress { point: wide.point, status: Status::Failure(e) },
    }
}

/// Reads an unsigned number of 16 bytes.
fn read128<'a>(from: BytePoint<'a>, big_endian: bool) -> (r: Progress<BytePoint<'a>, u128, ()>)
    requires
        from.wf(),
    ensures
        from.is_read(16, r),
        r.status matches Status::Success(v) ==> v == value_at(from.s@, 16, big_endian),
{
    number(from, 16, big_endian)
}

/// The signed number with the bits of `v`.
fn sign8(v: u8) -> (r: i8)
    ensures
        r == as_signed(v as nat, 1),
{
    proof {
        lemma_spans();
    }
    if v < 0x80 {
        v as i8
    } else {
        (v - 0x80) as i8 + i8::MIN
    }
}

/// The signed number with the bits of `v`.
fn sign16(v: u16) -> (r: i16)
    ensures
        r == as_signed(v as nat, 2),
{
    proof {
        lemma_spans();
    }
    if v < 0x8000 {
        v as i16
    } else {
        (v - 0x8000) as i16 + i16::MIN
    }
}

/// The signed number with the bits of `v`.
fn sign32(v: u32) -> (r: i32)
    ensures
        r == as_signed(v as nat, 4),
{
    proof {
        lemma_spans();
    }
    if v < 0x8000_0000 {
        v as i32
    } else {
        (v - 0x8000_0000) as i32 + i32::MIN
    }
}

/// The signed number with the bits of `v`.
fn sign64(v: u64) -> (r: i64)
    ensures
        r == as_signed(v as nat, 8),
{
    proof {
        lemma_spans();
    }
    if v < 0x8000_0000_0000_0000 {
        v as i64
    } else {
        (v - 0x8000_0000_0000_0000) as i64 + i64::MIN
    }
}

/// The signed number with the bits of `v`.
fn sign128(v: u128) -> (r: i128)
    ensures
        r == as_signed(v as nat, 16),
{
    proof {
        lemma_spans();
    }
    if v < 0x8000_0000_0000_0000_0000_0000_0000_0000 {
        v as i128
    } else {
        (v - 0x8000_0000_0000_0000_0000_0000_0000_0000) as i128 + i128::MIN
    }
}

/// Parsers for the numeric primitives in both little-endian and big-endian
/// encodings.
pub trait ParseNumber: Point {
    /// The bytes that are left to read.
    spec fn input(&self) -> Seq<u8>;

    /// Whether the point can be moved over all that is left.
    spec fn sound(&self) -> bool;

    /// Whether `r` is the outcome of reading `width` bytes at this point: a
    /// success that has moved on by `width` bytes where so many are left,
    /// and else the failure at this point itself.
    open spec fn is_read<T>(self, width: nat, r: Progress<Self, T, ()>) -> bool {
        if self.input().len() >= width {
            &&& r.status is Success
            &&& r.point.depth() == self.depth() + width
            &&& r.point.input() == self.input().skip(width as int)
            &&& r.point.sound()
        } else {
            r == (Progress { point: self, status: Status::<T, ()>::Failure(()) })
        }
    }

    /// Parses a `u8` in little-endian encoding.
    fn u8_le(self) -> (r: Progress<Self, u8, ()>)
        requires
            self.sound(),
        ensures
            self.is_read(1, r),
            r.status matches Status::Success(v) ==> v == value_at(self.input(), 1, false),
    ;

    /// Parses a `u8` in big-endian encoding.
    fn u8_be(self) -> (r: Progress<Self, u8, ()>)
        requires
            self.sound(),
        ensures
            self.is_read(1, r),
            r.status matches Status::Success(v) ==> v == value_at(self.input(), 1, true),
    ;

    /// Parses a `u16` in little-endian encoding.
    fn u16_le(self) -> (r: Progress<Self, u16, ()>)
        requires
            self.sound(),
        ensures
            self.is_read(2, r),
            r.status matches Status::Success(v) ==> v == value_at(self.input(), 2, false),
    ;

    /// Parses a `u16` in big-endian encoding.
    fn u16_be(self) -> (r: Progress<Self, u16, ()>)
        requires
            self.sound(),
        ensures
            self.is_read(2, r),
            r.status matches Status::Success(v) ==> v == value_at(self.input(), 2, true),
    ;

    /// Parses a `u32` in little-endian encoding.
    fn u32_le(self) -> (r: Progress<Self, u32, ()>)
        requires
            self.sound(),
        ensures
            self.is_read(4, r),
            r.status matches Status::Success(v) ==> v == value_at(self.input(), 4, false),
    ;

    /// Parses a `u32` in big-endian encoding.
    fn u32_be(self) -> (r: Progress<Self, u32, ()>)
        requires
            self.sound(),
        ensures
            self.is_read(4, r),
            r.status matches Status::Success(v) ==> v == value_at(self.input(), 4, true),
    ;

    /// Parses a `u64` in little-endian encoding.
    fn u64_le(self) -> (r: Progress<Self, u64, ()>)
        requires
            self.sound(),
        ensures
            self.is_read(8, r),
            r.status matches Status::Success(v) ==> v == value_at(self.input(), 8, false),
    ;

    /// Parses a `u64` in big-endian encoding.
    fn u64_be(self) -> (r: Progress<Self, u64, ()>)
        requires
            self.sound(),
        ensures
            self.is_read(8, r),
            r.status matches Status::Success(v) ==> v == value_at(self.input(), 8, true),
    ;

    /// Parses a `u128` in little-endian encoding.
    fn u128_le(self) -> (r: Progress<Self, u128, ()>)
        requires
            self.sound(),
        ensures
            self.is_read(16, r),
            r.status matches Status::Success(v) ==> v == value_at(self.input(), 16, false),
    ;

    /// Parses a `u128` in big-endian encoding.
    fn u128_be(self) -> (r: Progress<Self, u128, ()>)
        requires
            self.sound(),
        ensures
            self.is_read(16, r),
            r.status matches Status::Success(v) ==> v == value_at(self.input(), 16, true),
    ;

    /// Parses an `i8` in little-endian encoding.
    fn i8_le(self) -> (r: Progress<Self, i8, ()>)
        requires
            self.sound(),
        ensures
            self.is_read(1, r),
            r.status matches Status::Success(v) ==> v == as_signed(
                value_at(self.input(), 1, false),
                1,
            ),
    ;

    /// Parses an `i8` in big-endian encoding.
    fn i8_be(self) -> (r: Progress<Self, i8, ()>)
        requires
            self.sound(),
        ensures
            self.is_read(1, r),
            r.status matches Status::Success(v) ==> v == as_signed(
                value_at(self.input(), 1, true),
                1,
            ),
    ;

    /// Parses an `i16` in little-endian encoding.
    fn i16_le(self) -> (r: Progress<Self, i16, ()>)
        requires
            self.sound(),
        ensures
            self.is_read(2, r),
            r.status matches Status::Success(v) ==> v == as_signed(
                value_at(self.input(), 2, false),
                2,
            ),
    ;

    /// Parses an `i16` in big-endian encoding.
    fn i16_be(self) -> (r: Progress<Self, i16, ()>)
        requires
            self.sound(),
        ensures
            self.is_read(2, r),
            r.status matches Status::Success(v) ==> v == as_signed(
                value_at(self.input(), 2, true),
                2,
            ),
    ;

    /// Parses an `i32` in little-endian encoding.
    fn i32_le(self) -> (r: Progress<Self, i32, ()>)
        requires
            self.sound(),
        ensures
            self.is_read(4, r),
            r.status matches Status::Success(v) ==> v == as_signed(
                value_at(self.input(), 4, false),
                4,
            ),
    ;

    /// Parses an `i32` in big-endian encoding.
    fn i32_be(self) -> (r: Progress<Self, i32, ()>)
        requires
            self.sound(),
        ensures
            self.is_read(4, r),
            r.status matches Status::Success(v) ==> v == as_signed(
                value_at(self.input(), 4, true),
                4,
            ),
    ;

    /// Parses an `i64` in little-endian encoding.
    fn i64_le(self) -> (r: Progress<Self, i64, ()>)
        requires
            self.sound(),
        ensures
            self.is_read(8, r),
            r.status matches Status::Success(v) ==> v == as_signed(
                value_at(self.input(), 8, false),
                8,
            ),
    ;

    /// Parses an `i64` in big-endian encoding.
    fn i64_be(self) -> (r: Progress<Self, i64, ()>)
        requires
            self.sound(),
        ensures
            self.is_read(8, r),
            r.status matches Status::Success(v) ==> v == as_signed(
                value_at(self.input(), 8, true),
                8,
            ),
    ;

    /// Parses an `i128` in little-endian encoding.
    fn i128_le(self) -> (r: Progress<Self, i128, ()>)
        requires
            self.sound(),
        ensures
            self.is_read(16, r),
            r.status matches Status::Success(v) ==> v == as_signed(
                value_at(self.input(), 16, false),
                16,
            ),
    ;

    /// Parses an `i128` in big-endian encoding.
    fn i128_be(self) -> (r: Progress<Self, i128, ()>)
        requires
            self.sound(),
        ensures
            self.is_read(16, r),
            r.status matches Status::Success(v) ==> v == as_signed(
                value_at(self.input(), 16, true),
                16,
            ),
    ;
}

impl ParseNumber for BytePoint<'_> {
    open spec fn input(&self) -> Seq<u8> {
        self.s@
    }

    open spec fn sound(&self) -> bool {
        self.wf()
    }

    #[inline]
    fn u8_le(self) -> (r: Progress<Self, u8, ()>) {
        read8(self, false)
    }

    #[inline]
    fn u8_be(self) -> (r: Progress<Self, u8, ()>) {
        read8(self, true)
    }

    #[inline]
    fn u16_le(self) -> (r: Progress<Self, u16, ()>) {
        read16(self, false)
    }

    #[inline]
    fn u16_be(self) -> (r: Progress<Self, u16, ()>) {
        read16(self, true)
    }

    #[inline]
    fn u32_le(self) -> (r: Progress<Self, u32, ()>) {
        read32(self, false)
    }

    #[inline]
    fn u32_be(self) -> (r: Progress<Self, u32, ()>) {
        read32(self, true)
    }

    #[inline]
    fn u64_le(self) -> (r: Progress<Self, u64, ()>) {
        read64(self, false)
    }

    #[inline]
    fn u64_be(self) -> (r: Progress<Self, u64, ()>) {
        read64(self, true)
    }

    #[inline]
    fn u128_le(self) -> (r: Progress<Self, u128, ()>) {
        read128(self, false)
    }

    #[inline]
    fn u128_be(self) -> (r: Progress<Self, u128, ()>) {
        read128(self, true)
    }

    #[inline]
    fn i8_le(self) -> (r: Progress<Self, i8, ()>) {
        read8(self, false).map(sign8)
    }

    #[inline]
    fn i8_be(self) -> (r: Progress<Self, i8, ()>) {
        read8(self, true).map(sign8)
    }

    #[inline]
    fn i16_le(self) -> (r: Progress<Self, i16, ()>) {
        read16(self, false).map(sign16)
    }

    #[inline]
    fn i16_be(self) -> (r: Progress<Self, i16, ()>) {
        read16(self, true).map(sign16)
    }

    #[inline]
    fn i32_le(self) -> (r: Progress<Self, i32, ()>) {
        read32(self, false).map(sign32)
    }

    #[inline]
    fn i32_be(self) -> (r: Progress<Self, i32, ()>) {
        read32(self, true).map(sign32)
    }

    #[inline]
    fn i64_le(self) -> (r: Progress<Self, i64, ()>) {
        read64(self, false).map(sign64)
    }

    #[inline]
    fn i64_be(self) -> (r: Progress<Self, i64, ()>) {
        read64(self, true).map(sign64)
    }

    #[inline]
    fn i128_le(self) -> (r: Progress<Self, i128, ()>) {
        read128(self, false).map(sign128)
    }

    #[inline]
    fn i128_be(self) -> (r: Progress<Self, i128, ()>) {
        read128(self, true).map(sign128)
    }
}

} // verus!
