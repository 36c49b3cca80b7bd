//! Pure bit-level helpers: packing transport words into 32-bit payload words,
//! the wrapping transport checksum, and the SMI frame encoders.
//!
//! The SMI encoders place a 2-bit opcode in bits 0-1, the bit-reversed 5-bit
//! PHY address in bits 2-6 and the bit-reversed 5-bit register address in
//! bits 7-11.  The reversal exists because the device's shift register emits
//! bits in the opposite order from the MDIO clause-22 wire format.

use vstd::prelude::*;

verus! {

/// Whether bit `i` of `v` is set.
pub open spec fn bit32(v: u32, i: u32) -> bool {
    (v >> i) & 1 == 1
}

/// The low five bits of `v`, in reversed order (bit 0 becomes bit 4, and so
/// on).  Bits 5-7 of `v` are ignored.
pub open spec fn rev5(v: u8) -> u8 {
    ((v & 1) << 4) | (((v >> 1) & 1) << 3) | (((v >> 2) & 1) << 2) | (((v >> 3) & 1) << 1) | ((v
        >> 4) & 1)
}

/// All eight bits of `v`, in reversed order.
pub open spec fn rev8(v: u8) -> u8 {
    ((v & 1) << 7) | (((v >> 1) & 1) << 6) | (((v >> 2) & 1) << 5) | (((v >> 3) & 1) << 4) | (((v
        >> 4) & 1) << 3) | (((v >> 5) & 1) << 2) | (((v >> 6) & 1) << 1) | ((v >> 7) & 1)
}

/// The device-channel word for an SMI read: read opcode in bits 0-1,
/// reversed PHY address in bits 2-6, reversed register address in bits 7-11.
pub open spec fn smi_read_frame(phy_addr: u8, reg_addr: u8) -> u32 {
    2u32 | ((rev5(phy_addr) as u32) << 2) | ((rev5(reg_addr) as u32) << 7)
}

/// The device-channel word for an SMI write: write opcode in bits 0-1, the
/// two reversed addresses as in a read, and the 16-bit data field in
/// bits 12-27.
pub open spec fn smi_write_frame(phy_addr: u8, reg_addr: u8, data: u16) -> u32 {
    1u32 | ((rev5(phy_addr) as u32) << 2) | ((rev5(reg_addr) as u32) << 7) | ((data as u32) << 12)
}

/// The wrapping byte-sum of a byte sequence.
pub open spec fn checksum_spec(s: Seq<u8>) -> u8
    decreases s.len(),
{
    if s.len() == 0 {
        0u8
    } else {
        ((checksum_spec(s.drop_last()) + s.last()) % 256) as u8
    }
}

/// Reverses the bits of an 8-bit value.
pub fn reverse_bits(value: u8) -> (r: u8)
    ensures
        r == rev8(value),
{
    let v1: u8 = ((value & 0xF0) >> 4) | ((value & 0x0F) << 4);
    let v2: u8 = ((v1 & 0xCC) >> 2) | ((v1 & 0x33) << 2);
    let v3: u8 = ((v2 & 0xAA) >> 1) | ((v2 & 0x55) << 1);
    proof {
        assert(v3 == rev8(value)) by (bit_vector)
            requires
                v1 == ((value & 0xF0) >> 4) | ((value & 0x0F) << 4),
                v2 == ((v1 & 0xCC) >> 2) | ((v1 & 0x33) << 2),
                v3 == ((v2 & 0xAA) >> 1) | ((v2 & 0x55) << 1),
        ;
    }
    v3
}

/// Reverses the bits of a 32-bit word.
pub fn reverse_first_16_bit(num: u32) -> (r: u32)
    ensures
        forall|i: u32| i < 32 ==> bit32(r, i) == bit32(num, (31 - i) as u32),
{
    let r1: u32 = ((num & 0xFFFF0000) >> 16) | ((num & 0x0000FFFF) << 16);
    let r2: u32 = ((r1 & 0xFF00FF00) >> 8) | ((r1 & 0x00FF00FF) << 8);
    let r3: u32 = ((r2 & 0xF0F0F0F0) >> 4) | ((r2 & 0x0F0F0F0F) << 4);
    let r4: u32 = ((r3 & 0xCCCCCCCC) >> 2) | ((r3 & 0x33333333) << 2);
    let r5: u32 = ((r4 & 0xAAAAAAAA) >> 1) | ((r4 & 0x55555555) << 1);
    proof {
        assert(forall|i: u32|
            i < 32 ==> ((r5 >> i) & 1 == 1) == ((num >> ((31 - i) as u32)) & 1 == 1)) by (bit_vector)
            requires
                r1 == ((num & 0xFFFF0000) >> 16) | ((num & 0x0000FFFF) << 16),
                r2 == ((r1 & 0xFF00FF00) >> 8) | ((r1 & 0x00FF00FF) << 8),
                r3 == ((r2 & 0xF0F0F0F0) >> 4) | ((r2 & 0x0F0F0F0F) << 4),
                r4 == ((r3 & 0xCCCCCCCC) >> 2) | ((r3 & 0x33333333) << 2),
                r5 == ((r4 & 0xAAAAAAAA) >> 1) | ((r4 & 0x55555555) << 1),
        ;
    }
    r5
}

/// Builds the SMI read command word from a PHY address and a register
/// address; only the low five bits of each address are used.
pub fn encode_smi_read(phy_addr: u8, reg_addr: u8) -> (r: u32)
    ensures
        r == smi_read_frame(phy_addr, reg_addr),
{
    let rev_phy = reverse_bits(phy_addr);
    let rev_reg = reverse_bits(reg_addr);
    let packet: u32 = (2u32 & 0b11) | ((((rev_phy >> 3) as u32) & 0b11111) << 2) | ((((rev_reg
        >> 3) as u32) & 0b11111) << 7);
    proof {
        assert((2u32 & 0b11) | ((((rev_phy >> 3) as u32) & 0b11111) << 2) | ((((rev_reg >> 3) as u32)
            & 0b11111) << 7) == smi_read_frame(phy_addr, reg_addr)) by (bit_vector)
            requires
                rev_phy == rev8(phy_addr),
                rev_reg == rev8(reg_addr),
        ;
    }
    packet
}

/// Builds the SMI write command word from a PHY address, a register address
/// and a 16-bit data word; only the low five bits of each address are used.
pub fn encode_smi_write(phy_addr: u8, reg_addr: u8, data: u16) -> (r: u32)
    ensures
        r == smi_write_frame(phy_addr, reg_addr, data),
{
    let rev_phy = reverse_bits(phy_addr);
    let rev_reg = reverse_bits(reg_addr);
    let packet: u32 = (1u32 & 0b11) | ((((rev_phy >> 3) as u32) & 0b11111) << 2) | ((((rev_reg
        >> 3) as u32) & 0b11111) << 7) | ((data as u32) << 12);
    proof {
        assert((1u32 & 0b11) | ((((rev_phy >> 3) as u32) & 0b11111) << 2) | ((((rev_reg >> 3) as u32)
            & 0b11111) << 7) | ((data as u32) << 12) == smi_write_frame(phy_addr, reg_addr, data))
            by (bit_vector)
            requires
                rev_phy == rev8(phy_addr),
                rev_reg == rev8(reg_addr),
        ;
    }
    packet
}

/// The read opcode occupies bits 0-1 of a read frame, and reversing the two
/// address fields again recovers the addresses exactly.
pub proof fn lemma_smi_read_round_trip(phy_addr: u8, reg_addr: u8)
    requires
        phy_addr < 32,
        reg_addr < 32,
    ensures
        smi_read_frame(phy_addr, reg_addr) & 3 == 2,
        rev5(((smi_read_frame(phy_addr, reg_addr) >> 2) & 0b11111) as u8) == phy_addr,
        rev5(((smi_read_frame(phy_addr, reg_addr) >> 7) & 0b11111) as u8) == reg_addr,
{
    assert(smi_read_frame(phy_addr, reg_addr) & 3 == 2 && rev5(((smi_read_frame(phy_addr, reg_addr)
        >> 2) & 0b11111) as u8) == phy_addr && rev5(((smi_read_frame(phy_addr, reg_addr) >> 7)
        & 0b11111) as u8) == reg_addr) by (bit_vector)
        requires
            phy_addr < 32,
            reg_addr < 32,
    ;
}

/// The four payload words packed from a sequence of 16-bit words, the
/// earlier narrow word in the low half of each payload word; slots past the
/// input are zero.
pub open spec fn packed16(s: Seq<u16>) -> Seq<u32> {
    Seq::new(
        4,
        |j: int|
            if j < s.len() / 2 {
                (s[2 * j] as u32) | ((s[2 * j + 1] as u32) << 16)
            } else {
                0u32
            },
    )
}

/// The four payload words packed from a byte sequence, the earliest byte in
/// the lowest eight bits of each payload word; slots past the input are
/// zero.
pub open spec fn packed8(s: Seq<u8>) -> Seq<u32> {
    Seq::new(
        4,
        |j: int|
            if j < s.len() / 4 {
                (s[4 * j] as u32) | ((s[4 * j + 1] as u32) << 8) | ((s[4 * j + 2] as u32) << 16) | (
                (s[4 * j + 3] as u32) << 24)
            } else {
                0u32
            },
    )
}

/// Packs pairs of 16-bit words into up to four 32-bit payload words, the
/// earlier narrow word in the low half of each payload word.
pub fn combine_u16_to_u32(values: &[u16]) -> (r: [u32; 4])
    requires
        values@.len() % 2 == 0,
        values@.len() <= 8,
    ensures
        r@ == packed16(values@),
{
    let mut result: [u32; 4] = [0u32; 4];
    let mut i: usize = 0;
    while i < values.len() / 2
        invariant
            values@.len() % 2 == 0,
            values@.len() <= 8,
            i <= values@.len() / 2,
            forall|j: int|
                0 <= j < i ==> result@[j] == (values@[2 * j] as u32) | ((values@[2 * j
                    + 1] as u32) << 16),
            forall|j: int| i <= j < 4 ==> result@[j] == 0,
        decreases values@.len() / 2 - i,
    {
        let lo = values[2 * i];
        let hi = values[2 * i + 1];
        result[i] = (lo as u32) | ((hi as u32) << 16);
        i += 1;
    }
    proof {
        assert(result@ =~= packed16(values@));
    }
    result
}

/// Packs groups of four bytes into up to four 32-bit payload words, the
/// earliest byte in the lowest eight bits of each payload word.
pub fn combine_u8_to_u32(values: &[u8]) -> (r: [u32; 4])
    requires
        values@.len() % 4 == 0,
        values@.len() <= 16,
    ensures
        r@ == packed8(values@),
{
    let mut result: [u32; 4] = [0u32; 4];
    let mut i: usize = 0;
    while i < values.len() / 4
        invariant
            values@.len() % 4 == 0,
            values@.len() <= 16,
            i <= values@.len() / 4,
            forall|j: int|
                0 <= j < i ==> result@[j] == (values@[4 * j] as u32) | ((values@[4 * j
                    + 1] as u32) << 8) | ((values@[4 * j + 2] as u32) << 16) | ((values@[4 * j
                    + 3] as u32) << 24),
            forall|j: int| i <= j < 4 ==> result@[j] == 0,
        decreases values@.len() / 4 - i,
    {
        let b0 = values[4 * i];
        let b1 = values[4 * i + 1];
        let b2 = values[4 * i + 2];
        let b3 = values[4 * i + 3];
        result[i] = (b0 as u32) | ((b1 as u32) << 8) | ((b2 as u32) << 16) | ((b3 as u32) << 24);
        i += 1;
    }
    proof {
        assert(result@ =~= packed8(values@));
    }
    result
}

/// Computes the wrapping byte-sum of a buffer, the transport checksum.
pub fn sum_checksum(bytes: &[u8]) -> (r: u8)
    ensures
        r == checksum_spec(bytes@),
{
    let mut acc: u8 = 0;
    let mut i: usize = 0;
    while i < bytes.len()
        invariant
            i <= bytes@.len(),
            acc == checksum_spec(bytes@.take(i as int)),
        decreases bytes@.len() - i,
    {
        let b = bytes[i];
        proof {
            assert(bytes@.take(i + 1).drop_last() =~= bytes@.take(i as int));
            assert(bytes@.take(i + 1).last() == bytes@[i as int]);
        }
        acc = acc.wrapping_add(b);
        i += 1;
    }
    proof {
        assert(bytes@.take(bytes@.len() as int) =~= bytes@);
    }
    acc
}

/// The checksum of a concatenation is the wrapping sum of the two parts'
/// checksums.
pub proof fn lemma_checksum_concat(a: Seq<u8>, b: Seq<u8>)
    ensures
        checksum_spec(a + b) == ((checksum_spec(a) + checksum_spec(b)) % 256) as u8,
    decreases b.len(),
{
    if b.len() == 0 {
        assert(a + b =~= a);
    } else {
        lemma_checksum_concat(a, b.drop_last());
        assert((a + b).drop_last() =~= a + b.drop_last());
        let ca = checksum_spec(a);
        let cbd = checksum_spec(b.drop_last());
        let bl = b.last();
        assert(((((ca + cbd) % 256) as u8) + bl) % 256 == (ca + (((cbd + bl) % 256) as u8))
            % 256) by (bit_vector);
    }
}

} // verus!
