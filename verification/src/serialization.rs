//! Fixed-width little-endian serialization of integers, and a buffer that turns a
//! stream of bytes back into values.

use vstd::prelude::*;

verus! {

/// `256` raised to the power `n`.
pub open spec fn pow256(n: nat) -> nat
    decreases n,
{
    if n == 0 {
        1
    } else {
        256 * pow256((n - 1) as nat)
    }
}

/// The number whose base-256 digits, least significant first, are `bytes`.
pub open spec fn le_value(bytes: Seq<u8>) -> nat
    decreases bytes.len(),
{
    if bytes.len() == 0 {
        0
    } else {
        le_value(bytes.drop_last()) + bytes.last() as nat * pow256((bytes.len() - 1) as nat)
    }
}

pub proof fn lemma_pow256_positive(n: nat)
    ensures
        pow256(n) >= 1,
    decreases n,
{
    if n > 0 {
        lemma_pow256_positive((n - 1) as nat);
    }
}

pub proof fn lemma_pow256_monotonic(a: nat, b: nat)
    requires
        a <= b,
    ensures
        pow256(a) <= pow256(b),
    decreases b,
{
    if a < b {
        lemma_pow256_monotonic(a, (b - 1) as nat);
        lemma_pow256_positive((b - 1) as nat);
    }
}

/// A little-endian number of `n` digits is below `256^n`.
pub proof fn lemma_le_value_bound(bytes: Seq<u8>)
    ensures
        le_value(bytes) < pow256(bytes.len()),
    decreases bytes.len(),
{
    if bytes.len() > 0 {
        let n = (bytes.len() - 1) as nat;
        lemma_le_value_bound(bytes.drop_last());
        let p = pow256(n);
        let d = bytes.last() as nat;
        assert(le_value(bytes.drop_last()) + d * p < 256 * p) by (nonlinear_arith)
            requires
                le_value(bytes.drop_last()) < p,
                d <= 255,
        ;
    }
}

/// Extending a prefix by one byte adds that byte at the next digit position.
proof fn lemma_le_value_take_step(bytes: Seq<u8>, i: int)
    requires
        0 <= i < bytes.len(),
    ensures
        le_value(bytes.take(i + 1)) == le_value(bytes.take(i)) + bytes[i] as nat * pow256(
            i as nat,
        ),
{
    assert(bytes.take(i + 1).drop_last() =~= bytes.take(i));
}

/// Two byte sequences of the same length with the same little-endian value are equal.
pub proof fn lemma_le_value_injective(a: Seq<u8>, b: Seq<u8>)
    requires
        a.len() == b.len(),
        le_value(a) == le_value(b),
    ensures
        a == b,
    decreases a.len(),
{
    if a.len() > 0 {
        let n = (a.len() - 1) as nat;
        let p = pow256(n);
        lemma_le_value_bound(a.drop_last());
        lemma_le_value_bound(b.drop_last());
        let x = le_value(a.drop_last());
        let y = le_value(b.drop_last());
        let da = a.last() as nat;
        let db = b.last() as nat;
        assert(da == db && x == y) by (nonlinear_arith)
            requires
                x + da * p == y + db * p,
                x < p,
                y < p,
        ;
        lemma_le_value_injective(a.drop_last(), b.drop_last());
        assert(a =~= a.drop_last().push(a.last()));
        assert(b =~= b.drop_last().push(b.last()));
    }
}

/// The powers of 256 up to the width of a `u128`.
pub proof fn lemma_pow256_16()
    ensures
        pow256(1) == 0x100,
        pow256(2) == 0x1_0000,
        pow256(4) == 0x1_0000_0000,
        pow256(8) == 0x1_0000_0000_0000_0000,
        pow256(15) == 0x1_00_0000_0000_0000_0000_0000_0000_0000,
        pow256(16) == 0x1_0000_0000_0000_0000_0000_0000_0000_0000,
{
    reveal_with_fuel(pow256, 17);
}

/// Splits `value` into `N` little-endian bytes.
fn le_bytes_of<const N: usize>(value: u128) -> (bytes: [u8; N])
    requires
        N <= 16,
        value < pow256(N as nat),
    ensures
        le_value(bytes@) == value,
{
    let mut bytes = [0u8; N];
    let mut rest = value;
    let mut i: usize = 0;
    proof {
        assert(bytes@.take(0) =~= Seq::<u8>::empty());
        assert(le_value(bytes@.take(0)) == 0);
        assert(pow256(0) == 1);
        assert(rest * pow256(0) == rest);
    }
    while i < N
        invariant
            i <= N,
            N <= 16,
            bytes@.len() == N,
            value == le_value(bytes@.take(i as int)) + rest * pow256(i as nat),
            rest * pow256(i as nat) < pow256(N as nat),
        decreases N - i,
    {
        let ghost before = bytes@;
        let ghost old_rest = rest;
        let digit = (rest % 256) as u8;
        bytes[i] = digit;
        rest = rest / 256;
        proof {
            assert(bytes@.take(i as int) =~= before.take(i as int));
            lemma_le_value_take_step(bytes@, i as int);
            let p = pow256(i as nat);
            assert(old_rest * p == digit as nat * p + rest * (256 * p)) by (nonlinear_arith)
                requires
                    old_rest == 256 * rest + digit,
            ;
            assert(pow256((i + 1) as nat) == 256 * p);
        }
        i = i + 1;
    }
    proof {
        assert(bytes@.take(N as int) =~= bytes@);
        lemma_pow256_positive(N as nat);
        assert(rest == 0) by (nonlinear_arith)
            requires
                rest * pow256(N as nat) < pow256(N as nat),
        ;
    }
    bytes
}

/// Reads the little-endian number held in `bytes`.
fn le_read<const N: usize>(bytes: &[u8; N]) -> (value: u128)
    requires
        N <= 16,
    ensures
        value == le_value(bytes@),
{
    let mut value: u128 = 0;
    let mut factor: u128 = 1;
    let mut i: usize = 0;
    proof {
        assert(bytes@.take(0) =~= Seq::<u8>::empty());
    }
    while i < N
        invariant
            i <= N,
            N <= 16,
            bytes@.len() == N,
            value == le_value(bytes@.take(i as int)),
            i < N ==> factor == pow256(i as nat),
        decreases N - i,
    {
        proof {
            lemma_le_value_take_step(bytes@, i as int);
            lemma_le_value_bound(bytes@.take(i as int + 1));
            lemma_pow256_monotonic((i + 1) as nat, 16);
            lemma_pow256_16();
        }
        value = value + (bytes[i] as u128) * factor;
        if i + 1 < N {
            proof {
                lemma_pow256_monotonic((i + 1) as nat, 15);
                lemma_pow256_16();
            }
            factor = factor * 256;
        }
        i = i + 1;
    }
    proof {
        assert(bytes@.take(N as int) =~= bytes@);
    }
    value
}

/// A value that serializes to exactly `BYTES` bytes, least significant byte first.
pub trait BitSerializable<const BYTES: usize>: Sized {
    /// The number in `0..256^BYTES` whose little-endian bytes encode the value
    /// (the two's complement bit pattern for signed integers).
    spec fn encoding(&self) -> nat;

    /// How many distinct values the type has: `256^BYTES`, except for the
    /// pointer-sized integers, whose range is set by the platform.
    spec fn encoding_modulus() -> nat;

    /// The width is between one and sixteen bytes, and the encodings fit into it.
    proof fn lemma_width()
        ensures
            0 < BYTES <= 16,
            0 < Self::encoding_modulus() <= pow256(BYTES as nat),
    ;

    /// Every encoding is below the modulus.
    proof fn lemma_encoding_bound(value: Self)
        ensures
            value.encoding() < Self::encoding_modulus(),
    ;

    /// No two values share an encoding.
    proof fn lemma_encoding_injective(a: Self, b: Self)
        requires
            a.encoding() == b.encoding(),
        ensures
            a == b,
    ;

    /// Writes the value into a fresh buffer.
    fn into_buffer(self) -> (buffer: [u8; BYTES])
        ensures
            le_value(buffer@) == self.encoding(),
    ;

    /// Reads the value back from a buffer.
    fn from_buffer(buffer: &[u8; BYTES]) -> (value: Self)
        ensures
            value.encoding() == le_value(buffer@) % Self::encoding_modulus(),
    ;
}

impl BitSerializable<1> for u8 {
    open spec fn encoding_modulus() -> nat {
        0x100nat
    }

    open spec fn encoding(&self) -> nat {
        *self as nat
    }

    proof fn lemma_width() {
        lemma_pow256_16();
    }

    proof fn lemma_encoding_bound(value: Self) {
        lemma_pow256_16();
    }

    proof fn lemma_encoding_injective(a: Self, b: Self) {
    }

    fn into_buffer(self) -> (buffer: [u8; 1]) {
        proof {
            lemma_pow256_16();
        }
        le_bytes_of::<1>(self as u128)
    }

    fn from_buffer(buffer: &[u8; 1]) -> (value: Self) {
        let raw = le_read(buffer);
        proof {
            lemma_le_value_bound(buffer@);
            lemma_pow256_16();
        }
        raw as u8
    }
}

impl BitSerializable<2> for u16 {
    open spec fn encoding_modulus() -> nat {
        0x1_0000nat
    }

    open spec fn encoding(&self) -> nat {
        *self as nat
    }

    proof fn lemma_width() {
        lemma_pow256_16();
    }

    proof fn lemma_encoding_bound(value: Self) {
        lemma_pow256_16();
    }

    proof fn lemma_encoding_injective(a: Self, b: Self) {
    }

    fn into_buffer(self) -> (buffer: [u8; 2]) {
        proof {
            lemma_pow256_16();
        }
        le_bytes_of::<2>(self as u128)
    }

    fn from_buffer(buffer: &[u8; 2]) -> (value: Self) {
        let raw = le_read(buffer);
        proof {
            lemma_le_value_bound(buffer@);
            lemma_pow256_16();
        }
        raw as u16
    }
}

impl BitSerializable<4> for u32 {
    open spec fn encoding_modulus() -> nat {
        0x1_0000_0000nat
    }

    open spec fn encoding(&self) -> nat {
        *self as nat
    }

    proof fn lemma_width() {
        lemma_pow256_16();
    }

    proof fn lemma_encoding_bound(value: Self) {
        lemma_pow256_16();
    }

    proof fn lemma_encoding_injective(a: Self, b: Self) {
    }

    fn into_buffer(self) -> (buffer: [u8; 4]) {
        proof {
            lemma_pow256_16();
        }
        le_bytes_of::<4>(self as u128)
    }

    fn from_buffer(buffer: &[u8; 4]) -> (value: Self) {
        let raw = le_read(buffer);
        proof {
            lemma_le_value_bound(buffer@);
            lemma_pow256_16();
        }
        raw as u32
    }
}

impl BitSerializable<8> for u64 {
    open spec fn encoding_modulus() -> nat {
        0x1_0000_0000_0000_0000nat
    }

    open spec fn encoding(&self) -> nat {
        *self as nat
    }

    proof fn lemma_width() {
        lemma_pow256_16();
    }

    proof fn lemma_encoding_bound(value: Self) {
        lemma_pow256_16();
    }

    proof fn lemma_encoding_injective(a: Self, b: Self) {
    }

    fn into_buffer(self) -> (buffer: [u8; 8]) {
        proof {
            lemma_pow256_16();
        }
        le_bytes_of::<8>(self as u128)
    }

    fn from_buffer(buffer: &[u8; 8]) -> (value: Self) {
        let raw = le_read(buffer);
        proof {
            lemma_le_value_bound(buffer@);
            lemma_pow256_16();
        }
        raw as u64
    }
}

impl BitSerializable<16> for u128 {
    open spec fn encoding_modulus() -> nat {
        0x1_0000_0000_0000_0000_0000_0000_0000_0000nat
    }

    open spec fn encoding(&self) -> nat {
        *self as nat
    }

    proof fn lemma_width() {
        lemma_pow256_16();
    }

    proof fn lemma_encoding_bound(value: Self) {
        lemma_pow256_16();
    }

    proof fn lemma_encoding_injective(a: Self, b: Self) {
    }

    fn into_buffer(self) -> (buffer: [u8; 16]) {
        proof {
            lemma_pow256_16();
        }
        le_bytes_of::<16>(self)
    }

    fn from_buffer(buffer: &[u8; 16]) -> (value: Self) {
        let raw = le_read(buffer);
        proof {
            lemma_le_value_bound(buffer@);
            lemma_pow256_16();
        }
        raw as u128
    }
}

impl BitSerializable<1> for i8 {
    open spec fn encoding_modulus() -> nat {
        0x100nat
    }

    open spec fn encoding(&self) -> nat {
        if *self < 0 {
            (*self as int + 0x100) as nat
        } else {
            *self as nat
        }
    }

    proof fn lemma_width() {
        lemma_pow256_16();
    }

    proof fn lemma_encoding_bound(value: Self) {
        lemma_pow256_16();
    }

    proof fn lemma_encoding_injective(a: Self, b: Self) {
    }

    fn into_buffer(self) -> (buffer: [u8; 1]) {
        let bits = self as u8;
        proof {
            lemma_pow256_16();
            let x = self;
            assert(bits as int == if x < 0 { x as int + 0x100 } else { x as int }) by (bit_vector)
                requires
                    bits == x as u8,
            ;
        }
        le_bytes_of::<1>(bits as u128)
    }

    fn from_buffer(buffer: &[u8; 1]) -> (value: Self) {
        let raw = le_read(buffer);
        proof {
            lemma_le_value_bound(buffer@);
            lemma_pow256_16();
        }
        let bits = raw as u8;
        let value = bits as i8;
        proof {
            assert(if value < 0 { value as int + 0x100 == bits as int } else { value as int == bits as int }) by (bit_vector)
                requires
                    value == bits as i8,
            ;
        }
        value
    }
}

impl BitSerializable<2> for i16 {
    open spec fn encoding_modulus() -> nat {
        0x1_0000nat
    }

    open spec fn encoding(&self) -> nat {
        if *self < 0 {
            (*self as int + 0x1_0000) as nat
        } else {
            *self as nat
        }
    }

    proof fn lemma_width() {
        lemma_pow256_16();
    }

    proof fn lemma_encoding_bound(value: Self) {
        lemma_pow256_16();
    }

    proof fn lemma_encoding_injective(a: Self, b: Self) {
    }

    fn into_buffer(self) -> (buffer: [u8; 2]) {
        let bits = self as u16;
        proof {
            lemma_pow256_16();
            let x = self;
            assert(bits as int == if x < 0 { x as int + 0x1_0000 } else { x as int }) by (bit_vector)
                requires
                    bits == x as u16,
            ;
        }
        le_bytes_of::<2>(bits as u128)
    }

    fn from_buffer(buffer: &[u8; 2]) -> (value: Self) {
        let raw = le_read(buffer);
        proof {
            lemma_le_value_bound(buffer@);
            lemma_pow256_16();
        }
        let bits = raw as u16;
        let value = bits as i16;
        proof {
            assert(if value < 0 { value as int + 0x1_0000 == bits as int } else { value as int == bits as int }) by (bit_vector)
                requires
                    value == bits as i16,
            ;
        }
        value
    }
}

impl BitSerializable<4> for i32 {
    open spec fn encoding_modulus() -> nat {
        0x1_0000_0000nat
    }

    open spec fn encoding(&self) -> nat {
        if *self < 0 {
            (*self as int + 0x1_0000_0000) as nat
        } else {
            *self as nat
        }
    }

    proof fn lemma_width() {
        lemma_pow256_16();
    }

    proof fn lemma_encoding_bound(value: Self) {
        lemma_pow256_16();
    }

    proof fn lemma_encoding_injective(a: Self, b: Self) {
    }

    fn into_buffer(self) -> (buffer: [u8; 4]) {
        let bits = self as u32;
        proof {
            lemma_pow256_16();
            let x = self;
            assert(bits as int == if x < 0 { x as int + 0x1_0000_0000 } else { x as int }) by (bit_vector)
                requires
                    bits == x as u32,
            ;
        }
        le_bytes_of::<4>(bits as u128)
    }

    fn from_buffer(buffer: &[u8; 4]) -> (value: Self) {
        let raw = le_read(buffer);
        proof {
            lemma_le_value_bound(buffer@);
            lemma_pow256_16();
        }
        let bits = raw as u32;
        let value = bits as i32;
        proof {
            assert(if value < 0 { value as int + 0x1_0000_0000 == bits as int } else { value as int == bits as int }) by (bit_vector)
                requires
                    value == bits as i32,
            ;
        }
        value
    }
}

impl BitSerializable<8> for i64 {
    open spec fn encoding_modulus() -> nat {
        0x1_0000_0000_0000_0000nat
    }

    open spec fn encoding(&self) -> nat {
        if *self < 0 {
            (*self as int + 0x1_0000_0000_0000_0000) as nat
        } else {
            *self as nat
        }
    }

    proof fn lemma_width() {
        lemma_pow256_16();
    }

    proof fn lemma_encoding_bound(value: Self) {
        lemma_pow256_16();
    }

    proof fn lemma_encoding_injective(a: Self, b: Self) {
    }

    fn into_buffer(self) -> (buffer: [u8; 8]) {
        let bits = self as u64;
        proof {
            lemma_pow256_16();
            let x = self;
            assert(bits as int == if x < 0 { x as int + 0x1_0000_0000_0000_0000 } else { x as int }) by (bit_vector)
                requires
                    bits == x as u64,
            ;
        }
        le_bytes_of::<8>(bits as u128)
    }

    fn from_buffer(buffer: &[u8; 8]) -> (value: Self) {
        let raw = le_read(buffer);
        proof {
            lemma_le_value_bound(buffer@);
            lemma_pow256_16();
        }
        let bits = raw as u64;
        let value = bits as i64;
        proof {
            assert(if value < 0 { value as int + 0x1_0000_0000_0000_0000 == bits as int } else { value as int == bits as int }) by (bit_vector)
                requires
                    value == bits as i64,
            ;
        }
        value
    }
}

impl BitSerializable<16> for i128 {
    open spec fn encoding_modulus() -> nat {
        0x1_0000_0000_0000_0000_0000_0000_0000_0000nat
    }

    open spec fn encoding(&self) -> nat {
        if *self < 0 {
            (*self as int + 0x1_0000_0000_0000_0000_0000_0000_0000_0000) as nat
        } else {
            *self as nat
        }
    }

    proof fn lemma_width() {
        lemma_pow256_16();
    }

    proof fn lemma_encoding_bound(value: Self) {
        lemma_pow256_16();
    }

    proof fn lemma_encoding_injective(a: Self, b: Self) {
    }

    fn into_buffer(self) -> (buffer: [u8; 16]) {
        let bits = self as u128;
        proof {
            lemma_pow256_16();
            let x = self;
            assert(bits as int == if x < 0 { x as int + 0x1_0000_0000_0000_0000_0000_0000_0000_0000 } else { x as int }) by (bit_vector)
                requires
                    bits == x as u128,
            ;
        }
        le_bytes_of::<16>(bits)
    }

    fn from_buffer(buffer: &[u8; 16]) -> (value: Self) {
        let raw = le_read(buffer);
        proof {
            lemma_le_value_bound(buffer@);
            lemma_pow256_16();
        }
        let bits = raw as u128;
        let value = bits as i128;
        proof {
            assert(if value < 0 { value as int + 0x1_0000_0000_0000_0000_0000_0000_0000_0000 == bits as int } else { value as int == bits as int }) by (bit_vector)
                requires
                    value == bits as i128,
            ;
        }
        value
    }
}

/// The number of bytes a pointer-sized integer occupies on the wire: its size on the
/// 64-bit targets the hosts run on.
pub const USIZE_BYTES: usize = 8;

/// A `usize` has at most `256^USIZE_BYTES` values.
pub proof fn lemma_usize_width()
    ensures
        usize::MAX as nat + 1 <= pow256(USIZE_BYTES as nat),
{
    lemma_pow256_16();
    assert(usize::MAX <= 0xffff_ffff_ffff_ffff);
}

/// Casting to `usize` keeps the value modulo the size of the `usize` range.
proof fn lemma_truncate_to_usize(raw: u128, value: usize)
    requires
        value == raw as usize,
    ensures
        value as int == raw as int % (usize::MAX as int + 1),
{
    assert(usize::BITS == 64 ==> value as u128 == raw % 0x1_0000_0000_0000_0000) by (bit_vector)
        requires
            value == raw as usize,
    ;
    assert(usize::BITS == 32 ==> value as u128 == raw % 0x1_0000_0000) by (bit_vector)
        requires
            value == raw as usize,
    ;
}

impl BitSerializable<USIZE_BYTES> for usize {
    open spec fn encoding_modulus() -> nat {
        usize::MAX as nat + 1
    }

    open spec fn encoding(&self) -> nat {
        *self as nat
    }

    proof fn lemma_width() {
        lemma_usize_width();
    }

    proof fn lemma_encoding_bound(value: Self) {
        lemma_usize_width();
    }

    proof fn lemma_encoding_injective(a: Self, b: Self) {
    }

    fn into_buffer(self) -> (buffer: [u8; USIZE_BYTES]) {
        proof {
            lemma_usize_width();
        }
        le_bytes_of::<USIZE_BYTES>(self as u128)
    }

    fn from_buffer(buffer: &[u8; USIZE_BYTES]) -> (value: Self) {
        let raw = le_read(buffer);
        let value = raw as usize;
        proof {
            lemma_truncate_to_usize(raw, value);
        }
        value
    }
}

/// The bits of an `isize` read as a `usize` are its two's complement encoding.
proof fn lemma_isize_bits(x: isize, bits: usize)
    requires
        bits == x as usize,
    ensures
        bits as int == if x < 0 {
            x as int + usize::MAX as int + 1
        } else {
            x as int
        },
{
    assert(usize::BITS == 64 ==> bits as int == if x < 0 {
        x as int + 0x1_0000_0000_0000_0000
    } else {
        x as int
    }) by (bit_vector)
        requires
            bits == x as usize,
    ;
    assert(usize::BITS == 32 ==> bits as int == if x < 0 {
        x as int + 0x1_0000_0000
    } else {
        x as int
    }) by (bit_vector)
        requires
            bits == x as usize,
    ;
}

/// Reading the bits of a `usize` as an `isize` inverts the two's complement encoding.
proof fn lemma_isize_from_bits(bits: usize, value: isize)
    requires
        value == bits as isize,
    ensures
        if value < 0 {
            value as int + usize::MAX as int + 1 == bits as int
        } else {
            value as int == bits as int
        },
{
    assert(usize::BITS == 64 ==> if value < 0 {
        value as int + 0x1_0000_0000_0000_0000 == bits as int
    } else {
        value as int == bits as int
    }) by (bit_vector)
        requires
            value == bits as isize,
    ;
    assert(usize::BITS == 32 ==> if value < 0 {
        value as int + 0x1_0000_0000 == bits as int
    } else {
        value as int == bits as int
    }) by (bit_vector)
        requires
            value == bits as isize,
    ;
}

impl BitSerializable<USIZE_BYTES> for isize {
    open spec fn encoding_modulus() -> nat {
        usize::MAX as nat + 1
    }

    open spec fn encoding(&self) -> nat {
        if *self < 0 {
            (*self as int + usize::MAX as int + 1) as nat
        } else {
            *self as nat
        }
    }

    proof fn lemma_width() {
        lemma_usize_width();
    }

    proof fn lemma_encoding_bound(value: Self) {
        lemma_usize_width();
        assert(isize::MIN == -(usize::MAX as int + 1) / 2);
    }

    proof fn lemma_encoding_injective(a: Self, b: Self) {
        assert(isize::MIN == -(usize::MAX as int + 1) / 2);
    }

    fn into_buffer(self) -> (buffer: [u8; USIZE_BYTES]) {
        let bits = self as usize;
        proof {
            lemma_usize_width();
            let x = self;
            lemma_isize_bits(x, bits);
        }
        le_bytes_of::<USIZE_BYTES>(bits as u128)
    }

    fn from_buffer(buffer: &[u8; USIZE_BYTES]) -> (value: Self) {
        let raw = le_read(buffer);
        let bits = raw as usize;
        let value = bits as isize;
        proof {
            lemma_truncate_to_usize(raw, bits);
            lemma_isize_from_bits(bits, value);
        }
        value
    }
}

/// The complete `width`-byte chunks at the front of `bytes`, in order.
pub open spec fn full_chunks(bytes: Seq<u8>, width: nat) -> Seq<Seq<u8>>
    decreases bytes.len(),
{
    if width == 0 || bytes.len() < width {
        Seq::empty()
    } else {
        seq![bytes.take(width as int)] + full_chunks(bytes.skip(width as int), width)
    }
}

/// What is left of `bytes` after its complete `width`-byte chunks.
pub open spec fn partial_chunk(bytes: Seq<u8>, width: nat) -> Seq<u8>
    decreases bytes.len(),
{
    if width == 0 || bytes.len() < width {
        bytes
    } else {
        partial_chunk(bytes.skip(width as int), width)
    }
}

/// The partial chunk is shorter than a chunk.
pub proof fn lemma_partial_chunk_short(bytes: Seq<u8>, width: nat)
    requires
        width > 0,
    ensures
        partial_chunk(bytes, width).len() < width,
    decreases bytes.len(),
{
    if bytes.len() >= width {
        lemma_partial_chunk_short(bytes.skip(width as int), width);
    }
}

/// Appending one byte either completes the partial chunk or extends it.
pub proof fn lemma_chunks_push(bytes: Seq<u8>, byte: u8, width: nat)
    requires
        width > 0,
    ensures
        ({
            let rest = partial_chunk(bytes, width).push(byte);
            if rest.len() == width {
                &&& full_chunks(bytes.push(byte), width) == full_chunks(bytes, width).push(rest)
                &&& partial_chunk(bytes.push(byte), width) == Seq::<u8>::empty()
            } else {
                &&& full_chunks(bytes.push(byte), width) == full_chunks(bytes, width)
                &&& partial_chunk(bytes.push(byte), width) == rest
            }
        }),
    decreases bytes.len(),
{
    let longer = bytes.push(byte);
    if bytes.len() < width {
        assert(partial_chunk(bytes, width) == bytes);
        assert(full_chunks(bytes, width) =~= Seq::<Seq<u8>>::empty());
        if longer.len() == width {
            assert(longer.take(width as int) =~= longer);
            assert(longer.skip(width as int) =~= Seq::<u8>::empty());
            assert(full_chunks(longer.skip(width as int), width) =~= Seq::<Seq<u8>>::empty());
            assert(full_chunks(longer, width) =~= seq![longer]);
            assert(partial_chunk(longer.skip(width as int), width) =~= Seq::<u8>::empty());
        } else {
            assert(full_chunks(longer, width) =~= Seq::<Seq<u8>>::empty());
            assert(partial_chunk(longer, width) == longer);
        }
    } else {
        let tail = bytes.skip(width as int);
        lemma_chunks_push(tail, byte, width);
        assert(longer.take(width as int) =~= bytes.take(width as int));
        assert(longer.skip(width as int) =~= tail.push(byte));
        let rest = partial_chunk(bytes, width).push(byte);
        assert(partial_chunk(bytes, width) == partial_chunk(tail, width));
        assert(partial_chunk(longer, width) == partial_chunk(tail.push(byte), width));
        assert(full_chunks(bytes, width) == seq![bytes.take(width as int)] + full_chunks(tail, width));
        assert(full_chunks(longer, width) == seq![bytes.take(width as int)] + full_chunks(
            tail.push(byte),
            width,
        ));
        if rest.len() == width {
            assert(full_chunks(longer, width) =~= full_chunks(bytes, width).push(rest));
        } else {
            assert(full_chunks(longer, width) =~= full_chunks(bytes, width));
        }
    }
}

/// Feeding bytes in two portions yields the same chunks as feeding them at once.
pub proof fn lemma_chunks_split(pending: Seq<u8>, data: Seq<u8>, width: nat)
    requires
        width > 0,
    ensures
        full_chunks(pending + data, width) == full_chunks(pending, width) + full_chunks(
            partial_chunk(pending, width) + data,
            width,
        ),
        partial_chunk(pending + data, width) == partial_chunk(
            partial_chunk(pending, width) + data,
            width,
        ),
    decreases data.len(),
{
    let rest = partial_chunk(pending, width);
    if data.len() == 0 {
        assert(pending + data =~= pending);
        assert(rest + data =~= rest);
        lemma_partial_chunk_short(pending, width);
        assert(full_chunks(rest, width) =~= Seq::<Seq<u8>>::empty());
        assert(partial_chunk(rest, width) == rest);
        assert(full_chunks(pending, width) + full_chunks(rest, width) =~= full_chunks(
            pending,
            width,
        ));
    } else {
        let front = data.drop_last();
        let byte = data.last();
        lemma_chunks_split(pending, front, width);
        assert(pending + data =~= (pending + front).push(byte));
        assert(rest + data =~= (rest + front).push(byte));
        lemma_chunks_push(pending + front, byte, width);
        lemma_chunks_push(rest + front, byte, width);
        let a = full_chunks(pending, width);
        let b = full_chunks(rest + front, width);
        let r = partial_chunk(rest + front, width);
        if r.push(byte).len() == width {
            assert(a + b.push(r.push(byte)) =~= (a + b).push(r.push(byte)));
        }
    }
}

/// Collects bytes until a full value has arrived, then decodes it.
pub struct BitSerializableBuffer<T: BitSerializable<BYTES>, const BYTES: usize> {
    buffer: [u8; BYTES],
    current_length: usize,
    _data: core::marker::PhantomData<T>,
}

impl<T: BitSerializable<BYTES>, const BYTES: usize> View for BitSerializableBuffer<T, BYTES> {
    type V = Seq<u8>;

    /// The bytes received so far that do not yet form a complete value.
    closed spec fn view(&self) -> Seq<u8> {
        self.buffer@.take(self.current_length as int)
    }
}

impl<T: BitSerializable<BYTES>, const BYTES: usize> BitSerializableBuffer<T, BYTES> {
    #[verifier::type_invariant]
    spec fn holds_partial_value(&self) -> bool {
        &&& 0 < BYTES <= 16
        &&& self.current_length < BYTES
    }

    /// Creates an empty buffer.
    pub fn new() -> (buffer: Self)
        ensures
            buffer@ == Seq::<u8>::empty(),
    {
        proof {
            T::lemma_width();
        }
        let buffer = Self {
            buffer: [0u8; BYTES],
            current_length: 0,
            _data: core::marker::PhantomData,
        };
        assert(buffer@ =~= Seq::<u8>::empty());
        buffer
    }

    /// Feeds `data` into the buffer and returns every value it completes, in order.
    pub fn append(&mut self, data: &[u8]) -> (values: Vec<T>)
        ensures
            ({
                let received = old(self)@ + data@;
                let chunks = full_chunks(received, BYTES as nat);
                &&& values@.len() == chunks.len()
                &&& forall|k: int|
                    0 <= k < chunks.len() ==> (#[trigger] values@[k]).encoding() == le_value(
                        chunks[k],
                    ) % T::encoding_modulus()
                &&& final(self)@ == partial_chunk(received, BYTES as nat)
            }),
    {
        proof {
            use_type_invariant(&*self);
        }
        let ghost start = self@;
        let mut out: Vec<T> = Vec::new();
        let mut i: usize = 0;
        proof {
            assert(start + data@.take(0) =~= start);
            assert(full_chunks(start, BYTES as nat) =~= Seq::<Seq<u8>>::empty());
            assert(partial_chunk(start, BYTES as nat) == start);
        }
        while i < data.len()
            invariant
                0 < BYTES <= 16,
                i <= data@.len(),
                self.current_length < BYTES,
                ({
                    let received = start + data@.take(i as int);
                    let chunks = full_chunks(received, BYTES as nat);
                    &&& out@.len() == chunks.len()
                    &&& forall|k: int|
                        0 <= k < chunks.len() ==> (#[trigger] out@[k]).encoding() == le_value(
                            chunks[k],
                        ) % T::encoding_modulus()
                    &&& self@ == partial_chunk(received, BYTES as nat)
                }),
            decreases data@.len() - i,
        {
            let byte = data[i];
            let ghost received = start + data@.take(i as int);
            let ghost before = self@;
            proof {
                assert(start + data@.take(i + 1) =~= received.push(byte));
                lemma_chunks_push(received, byte, BYTES as nat);
            }
            let position = self.current_length;
            self.buffer[position] = byte;
            let next = position + 1;
            if next == BYTES {
                proof {
                    assert(self.buffer@ =~= before.push(byte));
                }
                let value = T::from_buffer(&self.buffer);
                out.push(value);
                self.current_length = 0;
                proof {
                    assert(self@ =~= Seq::<u8>::empty());
                }
            } else {
                self.current_length = next;
                proof {
                    assert(self@ =~= before.push(byte));
                }
            }
            i = i + 1;
        }
        proof {
            assert(data@.take(data@.len() as int) =~= data@);
        }
        out
    }

    /// The number of bytes still missing for the next value.
    pub fn unfilled_len(&self) -> (missing: usize)
        ensures
            missing == BYTES - self@.len(),
            missing > 0,
    {
        proof {
            use_type_invariant(self);
        }
        BYTES - self.current_length
    }

    /// Takes the bytes that one read delivered into the unfilled part of the buffer,
    /// and returns the value if it is now complete.
    pub fn read_from(&mut self, received: &[u8]) -> (value: Option<T>)
        requires
            old(self)@.len() + received@.len() <= BYTES,
        ensures
            ({
                let all = old(self)@ + received@;
                if all.len() == BYTES {
                    &&& value matches Some(v) && v.encoding() == le_value(all)
                        % T::encoding_modulus()
                    &&& final(self)@ == Seq::<u8>::empty()
                } else {
                    &&& value is None
                    &&& final(self)@ == all
                }
            }),
    {
        proof {
            use_type_invariant(&*self);
        }
        let ghost start = self@;
        let count = received.len();
        let base = self.current_length;
        let mut i: usize = 0;
        while i < count
            invariant
                0 < BYTES <= 16,
                base == self.current_length,
                base < BYTES,
                count == received@.len(),
                base + count <= BYTES,
                i <= count,
                start == self.buffer@.take(base as int),
                self.buffer@.subrange(base as int, base + i) == received@.take(i as int),
            decreases count - i,
        {
            let ghost before = self.buffer@;
            self.buffer[base + i] = received[i];
            proof {
                assert(self.buffer@.take(base as int) =~= before.take(base as int));
                assert(self.buffer@.subrange(base as int, base + i + 1) =~= received@.take(
                    i + 1,
                ));
            }
            i = i + 1;
        }
        let total = base + count;
        proof {
            assert(received@.take(count as int) =~= received@);
            assert(self.buffer@.take(total as int) =~= start + received@);
        }
        if total == BYTES {
            proof {
                assert(self.buffer@ =~= self.buffer@.take(total as int));
            }
            let value = T::from_buffer(&self.buffer);
            self.current_length = 0;
            proof {
                assert(self@ =~= Seq::<u8>::empty());
            }
            Some(value)
        } else {
            self.current_length = total;
            None
        }
    }

    /// Discards the bytes of an incomplete value.
    pub fn clear(&mut self)
        ensures
            final(self)@ == Seq::<u8>::empty(),
    {
        proof {
            use_type_invariant(&*self);
        }
        self.current_length = 0;
        assert(self@ =~= Seq::<u8>::empty());
    }
}

/// Serializing a value and reading the bytes back gives the same value.
pub proof fn lemma_serialization_preserves_value<T: BitSerializable<BYTES>, const BYTES: usize>(
    value: T,
    buffer: [u8; BYTES],
    decoded: T,
)
    requires
        le_value(buffer@) == value.encoding(),
        decoded.encoding() == le_value(buffer@) % T::encoding_modulus(),
    ensures
        decoded == value,
{
    T::lemma_encoding_bound(value);
    vstd::arithmetic::div_mod::lemma_small_mod(
        value.encoding(),
        T::encoding_modulus(),
    );
    T::lemma_encoding_injective(decoded, value);
}

/// For types with `256^BYTES` values, decoding any buffer and serializing the
/// result gives back the same bytes.
pub proof fn lemma_buffer_preserves_bytes<T: BitSerializable<BYTES>, const BYTES: usize>(
    buffer: [u8; BYTES],
    decoded: T,
    rebuilt: [u8; BYTES],
)
    requires
        T::encoding_modulus() == pow256(BYTES as nat),
        decoded.encoding() == le_value(buffer@) % T::encoding_modulus(),
        le_value(rebuilt@) == decoded.encoding(),
    ensures
        rebuilt@ == buffer@,
{
    lemma_le_value_bound(buffer@);
    vstd::arithmetic::div_mod::lemma_small_mod(le_value(buffer@), T::encoding_modulus());
    lemma_le_value_injective(rebuilt@, buffer@);
}

/// The bytes of exactly one value form one chunk and leave nothing pending.
pub proof fn lemma_one_value_one_chunk(bytes: Seq<u8>, width: nat)
    requires
        width > 0,
        bytes.len() == width,
    ensures
        full_chunks(bytes, width) == seq![bytes],
        partial_chunk(bytes, width) == Seq::<u8>::empty(),
{
    assert(bytes.take(width as int) =~= bytes);
    assert(bytes.skip(width as int) =~= Seq::<u8>::empty());
    assert(full_chunks(bytes.skip(width as int), width) =~= Seq::<Seq<u8>>::empty());
    assert(full_chunks(bytes, width) =~= seq![bytes]);
    assert(partial_chunk(bytes.skip(width as int), width) =~= Seq::<u8>::empty());
}

/// Buffer for `u8` values.
pub type BitSerializableU8Buffer = BitSerializableBuffer<u8, 1>;

/// Buffer for `i8` values.
pub type BitSerializableI8Buffer = BitSerializableBuffer<i8, 1>;

/// Buffer for `u16` values.
pub type BitSerializableU16Buffer = BitSerializableBuffer<u16, 2>;

/// Buffer for `i16` values.
pub type BitSerializableI16Buffer = BitSerializableBuffer<i16, 2>;

/// Buffer for `u32` values.
pub type BitSerializableU32Buffer = BitSerializableBuffer<u32, 4>;

/// Buffer for `i32` values.
pub type BitSerializableI32Buffer = BitSerializableBuffer<i32, 4>;

/// Buffer for `u64` values.
pub type BitSerializableU64Buffer = BitSerializableBuffer<u64, 8>;

/// Buffer for `i64` values.
pub type BitSerializableI64Buffer = BitSerializableBuffer<i64, 8>;

/// Buffer for `u128` values.
pub type BitSerializableU128Buffer = BitSerializableBuffer<u128, 16>;

/// Buffer for `i128` values.
pub type BitSerializableI128Buffer = BitSerializableBuffer<i128, 16>;

/// Buffer for `usize` values.
pub type BitSerializableUsizeBuffer = BitSerializableBuffer<usize, USIZE_BYTES>;

/// Buffer for `isize` values.
pub type BitSerializableIsizeBuffer = BitSerializableBuffer<isize, USIZE_BYTES>;

} // verus!
