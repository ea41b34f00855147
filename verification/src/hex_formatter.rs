use vstd::prelude::*;

verus! {

/// The ASCII code of the lowercase hexadecimal digit that stands for `n`,
/// where `0 <= n < 16`.
pub open spec fn hex_digit(n: int) -> u8 {
    if n < 10 {
        (0x30 + n) as u8
    } else {
        (0x61 + (n - 10)) as u8
    }
}

/// Whether `c` is the ASCII code of one of `0`..`9`, `a`..`f`.
pub open spec fn is_lower_hex(c: u8) -> bool {
    0x30 <= c <= 0x39 || 0x61 <= c <= 0x66
}

/// The number that the lowercase hexadecimal digit `c` stands for.
pub open spec fn hex_value(c: u8) -> int {
    if c <= 0x39 {
        c - 0x30
    } else {
        c - 0x61 + 10
    }
}

/// The table entry of `byte`: its two hexadecimal digits and a space.
pub open spec fn hex_text(byte: u8) -> Seq<u8> {
    seq![hex_digit(byte as int / 16), hex_digit(byte as int % 16), 0x20u8]
}

/// The entry that stands for a position without a byte: three spaces.
pub open spec fn blank_text() -> Seq<u8> {
    seq![0x20u8, 0x20u8, 0x20u8]
}

/// The `count` least significant hexadecimal digits of `value`, the most
/// significant of them first.
pub open spec fn hex_digits(value: nat, count: nat) -> Seq<u8>
    decreases count,
{
    if count == 0 {
        Seq::empty()
    } else {
        hex_digits(value / 16, (count - 1) as nat).push(hex_digit((value % 16) as int))
    }
}

/// How many of the eight hexadecimal digits of `value` are zeros in front of
/// the first digit that is not zero; eight when `value` is zero.
pub open spec fn leading_zero_digits(value: u32) -> nat {
    if value == 0 {
        8
    } else if value < 0x10 {
        7
    } else if value < 0x100 {
        6
    } else if value < 0x1000 {
        5
    } else if value < 0x1_0000 {
        4
    } else if value < 0x10_0000 {
        3
    } else if value < 0x100_0000 {
        2
    } else if value < 0x1000_0000 {
        1
    } else {
        0
    }
}

/// `count` times the digit `0`.
pub open spec fn zero_digits(count: nat) -> Seq<u8> {
    Seq::new(count, |i: int| 0x30u8)
}

/// The rendering of a 32-bit offset: its eight hexadecimal digits, of which
/// the leading zeros stand between the grey escape and the reset escape, and
/// the others follow the reset escape.
pub open spec fn offset_text(offset: u32) -> Seq<u8> {
    let zeros = leading_zero_digits(offset);
    HexFormatter::GREY@ + zero_digits(zeros) + HexFormatter::COLOR_RESET@ + hex_digits(
        offset as nat,
        8,
    ).subrange(zeros as int, 8)
}

/// 16 to the power of `exponent`.
pub open spec fn pow16(exponent: nat) -> nat
    decreases exponent,
{
    if exponent == 0 {
        1
    } else {
        16 * pow16((exponent - 1) as nat)
    }
}

/// `hex_digits` has as many digits as asked for.
pub proof fn lemma_hex_digits_len(value: nat, count: nat)
    ensures
        hex_digits(value, count).len() == count,
    decreases count,
{
    if count > 0 {
        lemma_hex_digits_len(value / 16, (count - 1) as nat);
    }
}

/// The digit at position `i` of `hex_digits(value, count)` is the digit of
/// `value` that has the weight `16^(count - 1 - i)`.
pub proof fn lemma_hex_digits_index(value: nat, count: nat, i: int)
    requires
        0 <= i < count,
    ensures
        hex_digits(value, count)[i] == hex_digit(
            ((value / pow16((count - 1 - i) as nat)) % 16) as int,
        ),
    decreases count,
{
    let front = hex_digits(value / 16, (count - 1) as nat);
    lemma_hex_digits_len(value / 16, (count - 1) as nat);
    assert(hex_digits(value, count) == front.push(hex_digit((value % 16) as int)));
    if i < count - 1 {
        lemma_hex_digits_index(value / 16, (count - 1) as nat, i);
        let e = (count - 2 - i) as nat;
        let p = pow16(e);
        assert(pow16((count - 1 - i) as nat) == 16 * p);
        lemma_pow16_positive(e);
        vstd::arithmetic::div_mod::lemma_div_denominator(value as int, 16, p as int);
        assert((value / 16) / p == value / (16 * p));
        assert(hex_digits(value, count)[i] == front[i]);
    } else {
        let p = pow16((count - 1 - i) as nat);
        assert(p == 1);
        assert(value / p == value);
    }
}

/// A power of 16 is at least 1.
pub proof fn lemma_pow16_positive(exponent: nat)
    ensures
        pow16(exponent) >= 1,
    decreases exponent,
{
    if exponent > 0 {
        lemma_pow16_positive((exponent - 1) as nat);
    }
}

/// The number that a sequence of hexadecimal digits stands for, the most
/// significant digit first.
pub open spec fn digits_value(digits: Seq<u8>) -> nat
    decreases digits.len(),
{
    if digits.len() == 0 {
        0
    } else {
        (digits_value(digits.drop_last()) * 16 + hex_value(digits.last())) as nat
    }
}

/// Every entry of the table has three characters: two lowercase hexadecimal
/// digits, which read as the byte's value, and a space.
pub proof fn lemma_hex_text(byte: u8)
    ensures
        hex_text(byte).len() == 3,
        is_lower_hex(hex_text(byte)[0]),
        is_lower_hex(hex_text(byte)[1]),
        hex_text(byte)[2] == 0x20,
        hex_value(hex_text(byte)[0]) * 16 + hex_value(hex_text(byte)[1]) == byte,
{
}

/// A hexadecimal digit is a lowercase digit and stands for its number.
pub proof fn lemma_hex_digit(n: int)
    requires
        0 <= n < 16,
    ensures
        is_lower_hex(hex_digit(n)),
        hex_value(hex_digit(n)) == n,
        hex_digit(n) == 0x30 <==> n == 0,
{
}

/// The digits of `hex_digits(value, count)` read as `value`, as far as
/// `count` digits can hold it.
pub proof fn lemma_hex_digits_value(value: nat, count: nat)
    ensures
        digits_value(hex_digits(value, count)) == value % pow16(count),
    decreases count,
{
    lemma_pow16_positive(count);
    if count > 0 {
        let front = hex_digits(value / 16, (count - 1) as nat);
        let digits = hex_digits(value, count);
        lemma_hex_digits_value(value / 16, (count - 1) as nat);
        lemma_hex_digit((value % 16) as int);
        assert(digits.drop_last() =~= front);
        let p = pow16((count - 1) as nat);
        lemma_pow16_positive((count - 1) as nat);
        vstd::arithmetic::div_mod::lemma_breakdown(value as int, 16, p as int);
        assert(pow16(count) == 16 * p);
    } else {
        assert(pow16(0) == 1);
    }
}

/// Without its two escape sequences the rendering of an offset is the
/// offset in eight hexadecimal digits, which read as the offset; the digits
/// between the escape sequences are the leading zeros, all of them.
pub proof fn lemma_offset_text(offset: u32)
    ensures
        zero_digits(leading_zero_digits(offset)) + hex_digits(offset as nat, 8).subrange(
            leading_zero_digits(offset) as int,
            8,
        ) == hex_digits(offset as nat, 8),
        hex_digits(offset as nat, 8).len() == 8,
        digits_value(hex_digits(offset as nat, 8)) == offset,
        forall|i: int|
            0 <= i < leading_zero_digits(offset) ==> hex_digits(offset as nat, 8)[i] == 0x30,
        leading_zero_digits(offset) < 8 ==> hex_digits(offset as nat, 8)[leading_zero_digits(
            offset,
        ) as int] != 0x30,
{
    let digits = hex_digits(offset as nat, 8);
    let zeros = leading_zero_digits(offset);
    let v = offset as nat;
    lemma_hex_digits_len(v, 8);
    lemma_hex_digits_value(v, 8);
    reveal_with_fuel(pow16, 9);
    assert(pow16(8) == 0x1_0000_0000);
    lemma_hex_digits_index(v, 8, 0);
    lemma_hex_digits_index(v, 8, 1);
    lemma_hex_digits_index(v, 8, 2);
    lemma_hex_digits_index(v, 8, 3);
    lemma_hex_digits_index(v, 8, 4);
    lemma_hex_digits_index(v, 8, 5);
    lemma_hex_digits_index(v, 8, 6);
    lemma_hex_digits_index(v, 8, 7);
    assert(pow16(0) == 1 && pow16(1) == 0x10 && pow16(2) == 0x100 && pow16(3) == 0x1000 && pow16(4)
        == 0x1_0000 && pow16(5) == 0x10_0000 && pow16(6) == 0x100_0000 && pow16(7)
        == 0x1000_0000);
    assert(digits[0] == hex_digit(((v / 0x1000_0000) % 16) as int));
    assert(digits[1] == hex_digit(((v / 0x100_0000) % 16) as int));
    assert(digits[2] == hex_digit(((v / 0x10_0000) % 16) as int));
    assert(digits[3] == hex_digit(((v / 0x1_0000) % 16) as int));
    assert(digits[4] == hex_digit(((v / 0x1000) % 16) as int));
    assert(digits[5] == hex_digit(((v / 0x100) % 16) as int));
    assert(digits[6] == hex_digit(((v / 0x10) % 16) as int));
    assert(digits[7] == hex_digit(((v / 1) % 16) as int));
    assert(zero_digits(zeros) + digits.subrange(zeros as int, 8) =~= digits);
}

/// Hexadecimal text of bytes and of offsets, through a table that is
/// computed once.
pub struct HexFormatter {
    hex_lookup: [[u8; 3]; 256],
}

impl HexFormatter {
    /// The escape sequence that dims the leading zeros of an offset.
    pub const GREY: [u8; 5] = [0x1b, 0x5b, 0x39, 0x30, 0x6d];

    /// The escape sequence that ends the dimmed part.
    pub const COLOR_RESET: [u8; 4] = [0x1b, 0x5b, 0x30, 0x6d];

    /// The alphabet of hexadecimal digits, `0` to `9` and `a` to `f`.
    pub const HEX_CHARS: [u8; 16] = [
        0x30, 0x31, 0x32, 0x33, 0x34, 0x35, 0x36, 0x37, 0x38, 0x39, 0x61, 0x62, 0x63, 0x64, 0x65, 0x66,
    ];

    /// The three spaces that stand for a position without a byte.
    pub const HEX_SPACE: [u8; 3] = [0x20, 0x20, 0x20];

    #[verifier::type_invariant]
    spec fn well_formed(self) -> bool {
        forall|b: int| 0 <= b < 256 ==> (#[trigger] self.hex_lookup[b])@ == hex_text(b as u8)
    }

    /// The entry that the table holds for `byte`.
    pub closed spec fn entry(&self, byte: u8) -> Seq<u8> {
        self.hex_lookup[byte as int]@
    }

    /// Builds the table of all 256 entries.
    pub fn new() -> (formatter: Self)
        ensures
            forall|byte: u8| #[trigger] formatter.entry(byte) == hex_text(byte),
    {
        let mut hex_lookup = [[0u8; 3]; 256];
        let mut i: usize = 0;
        while i < 256
            invariant
                i <= 256,
                forall|b: int| 0 <= b < i ==> (#[trigger] hex_lookup[b])@ == hex_text(b as u8),
            decreases 256 - i,
        {
            assert(i >> 4 == i / 16 && i & 0xf == i % 16) by (bit_vector)
                requires
                    i < 256,
            ;
            let item = [Self::HEX_CHARS[i >> 4], Self::HEX_CHARS[i & 0xf], 0x20];
            assert(item@ =~= hex_text(i as u8));
            hex_lookup[i] = item;
            i += 1;
        }
        Self { hex_lookup }
    }

    /// The table entry of `byte`.
    pub fn hex_byte(&self, byte: u8) -> (text: &[u8; 3])
        ensures
            text@ == hex_text(byte),
            text@ == self.entry(byte),
    {
        proof {
            use_type_invariant(self);
        }
        &self.hex_lookup[byte as usize]
    }

    /// The entry for a position without a byte.
    pub fn hex_space() -> (text: &'static [u8; 3])
        ensures
            text@ == blank_text(),
    {
        assert(Self::HEX_SPACE@ =~= blank_text());
        &Self::HEX_SPACE
    }

    /// Appends the rendering of `offset` to `buf`.
    pub fn write_offset(&self, buf: &mut Vec<u8>, offset: u32)
        ensures
            final(buf)@ == old(buf)@ + offset_text(offset),
    {
        let zero_bits: u32 = offset.leading_zeros();
        let num_leading_hex_zeroes: u32 = zero_bits / 4;
        proof {
            vstd::std_specs::bits::axiom_u32_leading_zeros(offset);
            lemma_leading_zero_bits(offset, zero_bits);
            lemma_hex_digits_len(offset as nat, 8);
        }
        buf.extend_from_slice(&Self::GREY);

        let mut k: u32 = 0;
        while k < num_leading_hex_zeroes
            invariant
                k <= num_leading_hex_zeroes <= 8,
                buf@ == old(buf)@ + Self::GREY@ + zero_digits(k as nat),
            decreases num_leading_hex_zeroes - k,
        {
            buf.push(0x30);
            k += 1;
            assert(zero_digits(k as nat) =~= zero_digits((k - 1) as nat).push(0x30u8));
        }
        buf.extend_from_slice(&Self::COLOR_RESET);

        let ghost head = old(buf)@ + Self::GREY@ + zero_digits(num_leading_hex_zeroes as nat)
            + Self::COLOR_RESET@;
        let ghost digits = hex_digits(offset as nat, 8);
        let mut i: u32 = num_leading_hex_zeroes;
        assert(digits.subrange(i as int, i as int) =~= Seq::<u8>::empty());
        while i < 8
            invariant
                num_leading_hex_zeroes <= i <= 8,
                digits == hex_digits(offset as nat, 8),
                digits.len() == 8,
                buf@ == head + digits.subrange(num_leading_hex_zeroes as int, i as int),
            decreases 8 - i,
        {
            let shift: u32 = 32 - i * 4 - 4;
            let n: u32 = offset >> shift;
            proof {
                lemma_hex_digits_index(offset as nat, 8, i as int);
                lemma_shifted_digit(offset, i);
            }
            let digit = Self::HEX_CHARS[(n & 0xf) as usize];
            buf.push(digit);
            assert(digits.subrange(num_leading_hex_zeroes as int, i + 1) =~= digits.subrange(
                num_leading_hex_zeroes as int,
                i as int,
            ).push(digits[i as int]));
            i += 1;
        }
    }
}

impl Default for HexFormatter {
    fn default() -> (formatter: Self)
        ensures
            forall|byte: u8| #[trigger] formatter.entry(byte) == hex_text(byte),
    {
        Self::new()
    }
}

/// What the count of leading zero bits says of the leading zero digits.
proof fn lemma_leading_zero_bits(value: u32, zero_bits: u32)
    requires
        zero_bits <= 32,
        value == 0 <==> zero_bits == 32,
        zero_bits < 32 ==> (value >> ((31 - zero_bits) as u32)) & 1u32 != 0u32,
        0 < zero_bits ==> value >> ((32 - zero_bits) as u32) == 0,
    ensures
        zero_bits / 4 == leading_zero_digits(value),
{
    let q: u32 = zero_bits / 4;
    if zero_bits < 32 {
        assert({
            &&& q == 7 ==> 0 < value < 0x10
            &&& q == 6 ==> 0x10 <= value < 0x100
            &&& q == 5 ==> 0x100 <= value < 0x1000
            &&& q == 4 ==> 0x1000 <= value < 0x1_0000
            &&& q == 3 ==> 0x1_0000 <= value < 0x10_0000
            &&& q == 2 ==> 0x10_0000 <= value < 0x100_0000
            &&& q == 1 ==> 0x100_0000 <= value < 0x1000_0000
            &&& q == 0 ==> 0x1000_0000 <= value
        }) by (bit_vector)
            requires
                zero_bits < 32,
                q == zero_bits / 4,
                (value >> ((31 - zero_bits) as u32)) & 1u32 != 0u32,
                0 < zero_bits ==> value >> ((32 - zero_bits) as u32) == 0,
        ;
    }
}

/// The digit that a shift and a mask take out of `value` is the digit of
/// weight `16^(7 - i)`.
proof fn lemma_shifted_digit(value: u32, i: u32)
    requires
        i < 8,
    ensures
        (value >> ((28 - 4 * i) as u32)) & 0xf == (value as nat / pow16((7 - i) as nat)) % 16,
        (value >> ((28 - 4 * i) as u32)) & 0xf < 16,
{
    let shift = (28 - 4 * i) as u32;
    assert((value >> shift) & 0xf == (value / (1u32 << shift)) % 16 && (value >> shift) & 0xf < 16
        && (1u32 << shift) > 0) by (bit_vector)
        requires
            shift < 32,
    ;
    reveal_with_fuel(pow16, 9);
    assert((1u32 << 0u32) == 1 && (1u32 << 4u32) == 0x10 && (1u32 << 8u32) == 0x100 && (1u32
        << 12u32) == 0x1000 && (1u32 << 16u32) == 0x1_0000 && (1u32 << 20u32) == 0x10_0000 && (1u32
        << 24u32) == 0x100_0000 && (1u32 << 28u32) == 0x1000_0000) by (bit_vector);
    assert(pow16((7 - i) as nat) == (1u32 << shift));
}

} // verus!
