//! Pure bit-field extraction from a 32-bit instruction word, and the five
//! immediate forms, sign-extended.

use vstd::prelude::*;

verus! {

pub open spec fn opcode_of(inst: u32) -> u32 {
    inst & 0x7F
}

pub open spec fn rd_of(inst: u32) -> u32 {
    (inst >> 7) & 0x1F
}

pub open spec fn funct3_of(inst: u32) -> u32 {
    (inst >> 12) & 0x7
}

pub open spec fn rs1_of(inst: u32) -> u32 {
    (inst >> 15) & 0x1F
}

pub open spec fn rs2_of(inst: u32) -> u32 {
    (inst >> 20) & 0x1F
}

pub open spec fn funct7_of(inst: u32) -> u32 {
    (inst >> 25) & 0x7F
}

pub open spec fn csr_addr_of(inst: u32) -> u16 {
    ((inst >> 20) & 0xFFF) as u16
}

/// The I-form immediate: bits 31..20, read as a signed 12-bit value.
pub open spec fn imm_i_val(inst: u32) -> int {
    if inst >= 0x80000000 {
        (inst >> 20) - 4096
    } else {
        (inst >> 20) as int
    }
}

/// The S-form immediate: bits 31..25 and 11..7, read as a signed 12-bit value.
pub open spec fn imm_s_val(inst: u32) -> int {
    let bits = ((inst >> 25) & 0x7F) * 32 + ((inst >> 7) & 0x1F);
    if inst >= 0x80000000 {
        bits - 4096
    } else {
        bits as int
    }
}

/// The B-form immediate: a signed 13-bit branch offset with bit 0 zero.
pub open spec fn imm_b_val(inst: u32) -> int {
    let bits = (inst >> 31) * 4096 + ((inst >> 7) & 0x1) * 2048 + ((inst >> 25) & 0x3F) * 32 + ((
    inst >> 8) & 0xF) * 2;
    if inst >= 0x80000000 {
        bits - 8192
    } else {
        bits as int
    }
}

/// The U-form immediate: bits 31..12 shifted left by 12, read signed.
pub open spec fn imm_u_val(inst: u32) -> int {
    crate::bits::s32(inst & 0xFFFFF000)
}

/// The J-form immediate: a signed 21-bit jump offset with bit 0 zero.
pub open spec fn imm_j_val(inst: u32) -> int {
    let bits = (inst >> 31) * 0x100000 + ((inst >> 12) & 0xFF) * 0x1000 + ((inst >> 20) & 0x1)
        * 0x800 + ((inst >> 21) & 0x3FF) * 2;
    if inst >= 0x80000000 {
        bits - 0x200000
    } else {
        bits as int
    }
}

/// The I-form immediate as the 64-bit word the execute engine adds.
pub open spec fn imm_i_u64(inst: u32) -> u64 {
    if inst >= 0x80000000 {
        ((inst >> 20) as u64) | 0xFFFFFFFFFFFFF000
    } else {
        (inst >> 20) as u64
    }
}

/// The S-form immediate as a 64-bit word.
pub open spec fn imm_s_u64(inst: u32) -> u64 {
    let bits = (((inst >> 25) & 0x7F) * 32 + ((inst >> 7) & 0x1F)) as u64;
    if inst >= 0x80000000 {
        bits | 0xFFFFFFFFFFFFF000
    } else {
        bits
    }
}

/// The B-form immediate as a 64-bit word.
pub open spec fn imm_b_u64(inst: u32) -> u64 {
    let bits = ((inst >> 31) * 4096 + ((inst >> 7) & 0x1) * 2048 + ((inst >> 25) & 0x3F) * 32 + ((
    inst >> 8) & 0xF) * 2) as u64;
    if inst >= 0x80000000 {
        bits | 0xFFFFFFFFFFFFE000
    } else {
        bits
    }
}

/// The U-form immediate as a 64-bit word.
pub open spec fn imm_u_u64(inst: u32) -> u64 {
    crate::bits::sext32(inst & 0xFFFFF000)
}

/// The J-form immediate as a 64-bit word.
pub open spec fn imm_j_u64(inst: u32) -> u64 {
    let bits = ((inst >> 31) * 0x100000 + ((inst >> 12) & 0xFF) * 0x1000 + ((inst >> 20) & 0x1)
        * 0x800 + ((inst >> 21) & 0x3FF) * 2) as u64;
    if inst >= 0x80000000 {
        bits | 0xFFFFFFFFFFE00000
    } else {
        bits
    }
}

pub fn opcode(inst: u32) -> (r: u32)
    ensures
        r == opcode_of(inst),
        r < 0x80,
{
    proof {
        lemma_field_bounds(inst);
    }
    inst & 0x7F
}

pub fn rd(inst: u32) -> (r: u32)
    ensures
        r == rd_of(inst),
        r < 32,
{
    proof {
        lemma_field_bounds(inst);
    }
    (inst >> 7) & 0x1F
}

pub fn funct3(inst: u32) -> (r: u32)
    ensures
        r == funct3_of(inst),
        r < 8,
{
    proof {
        lemma_field_bounds(inst);
    }
    (inst >> 12) & 0x7
}

pub fn rs1(inst: u32) -> (r: u32)
    ensures
        r == rs1_of(inst),
        r < 32,
{
    proof {
        lemma_field_bounds(inst);
    }
    (inst >> 15) & 0x1F
}

pub fn rs2(inst: u32) -> (r: u32)
    ensures
        r == rs2_of(inst),
        r < 32,
{
    proof {
        lemma_field_bounds(inst);
    }
    (inst >> 20) & 0x1F
}

pub fn funct7(inst: u32) -> (r: u32)
    ensures
        r == funct7_of(inst),
        r < 0x80,
{
    proof {
        lemma_field_bounds(inst);
    }
    (inst >> 25) & 0x7F
}

pub fn csr_addr(inst: u32) -> (r: u16)
    ensures
        r == csr_addr_of(inst),
        r < 0x1000,
{
    proof {
        lemma_field_bounds(inst);
    }
    ((inst >> 20) & 0xFFF) as u16
}

pub fn imm_i(inst: u32) -> (r: i32)
    ensures
        r as int == imm_i_val(inst),
        r as u64 == imm_i_u64(inst),
{
    proof {
        assert(((inst as i32) >> 20u32) as int == imm_i_val(inst) && ((inst as i32) >> 20u32) as u64
            == imm_i_u64(inst)) by (bit_vector);
    }
    #[verifier::truncate] (inst as i32) >> 20u32
}

pub fn imm_s(inst: u32) -> (r: i32)
    ensures
        r as int == imm_s_val(inst),
        r as u64 == imm_s_u64(inst),
{
    let imm_4_0: u32 = (inst >> 7) & 0x1F;
    let imm_11_5: u32 = (inst >> 25) & 0x7F;
    let imm: u32 = (imm_11_5 << 5u32) | imm_4_0;
    proof {
        assert({
            let imm_4_0 = (inst >> 7) & 0x1F;
            let imm_11_5 = (inst >> 25) & 0x7F;
            let imm = (imm_11_5 << 5u32) | imm_4_0;
            &&& (((imm as i32) << 20u32) >> 20u32) as int == imm_s_val(inst)
            &&& (((imm as i32) << 20u32) >> 20u32) as u64 == imm_s_u64(inst)
        }) by (bit_vector);
    }
    (#[verifier::truncate] (imm as i32) << 20u32) >> 20u32
}

pub fn imm_b(inst: u32) -> (r: i32)
    ensures
        r as int == imm_b_val(inst),
        r as u64 == imm_b_u64(inst),
{
    let imm_12: u32 = (inst >> 31) & 0x1;
    let imm_11: u32 = (inst >> 7) & 0x1;
    let imm_10_5: u32 = (inst >> 25) & 0x3F;
    let imm_4_1: u32 = (inst >> 8) & 0xF;
    let imm: u32 = (imm_12 << 12u32) | (imm_11 << 11u32) | (imm_10_5 << 5u32) | (imm_4_1 << 1u32);
    proof {
        assert({
            let imm_12 = (inst >> 31) & 0x1;
            let imm_11 = (inst >> 7) & 0x1;
            let imm_10_5 = (inst >> 25) & 0x3F;
            let imm_4_1 = (inst >> 8) & 0xF;
            let imm = (imm_12 << 12u32) | (imm_11 << 11u32) | (imm_10_5 << 5u32) | (imm_4_1
                << 1u32);
            &&& (((imm as i32) << 19u32) >> 19u32) as int == imm_b_val(inst)
            &&& (((imm as i32) << 19u32) >> 19u32) as u64 == imm_b_u64(inst)
        }) by (bit_vector);
    }
    (#[verifier::truncate] (imm as i32) << 19u32) >> 19u32
}

pub fn imm_u(inst: u32) -> (r: i32)
    ensures
        r as int == imm_u_val(inst),
        r as u64 == imm_u_u64(inst),
{
    proof {
        assert(((inst & 0xFFFFF000) as i32) as int == imm_u_val(inst) && ((inst
            & 0xFFFFF000) as i32) as u64 == imm_u_u64(inst)) by (bit_vector);
    }
    #[verifier::truncate] ((inst & 0xFFFFF000) as i32)
}

pub fn imm_j(inst: u32) -> (r: i32)
    ensures
        r as int == imm_j_val(inst),
        r as u64 == imm_j_u64(inst),
{
    let imm_20: u32 = (inst >> 31) & 0x1;
    let imm_19_12: u32 = (inst >> 12) & 0xFF;
    let imm_11: u32 = (inst >> 20) & 0x1;
    let imm_10_1: u32 = (inst >> 21) & 0x3FF;
    let imm: u32 = (imm_20 << 20u32) | (imm_19_12 << 12u32) | (imm_11 << 11u32) | (imm_10_1
        << 1u32);
    proof {
        assert({
            let imm_20 = (inst >> 31) & 0x1;
            let imm_19_12 = (inst >> 12) & 0xFF;
            let imm_11 = (inst >> 20) & 0x1;
            let imm_10_1 = (inst >> 21) & 0x3FF;
            let imm = (imm_20 << 20u32) | (imm_19_12 << 12u32) | (imm_11 << 11u32) | (imm_10_1
                << 1u32);
            &&& (((imm as i32) << 11u32) >> 11u32) as int == imm_j_val(inst)
            &&& (((imm as i32) << 11u32) >> 11u32) as u64 == imm_j_u64(inst)
        }) by (bit_vector);
    }
    (#[verifier::truncate] (imm as i32) << 11u32) >> 11u32
}

/// Bounds of the fixed bit fields, needed wherever a field indexes a table.
proof fn lemma_field_bounds(inst: u32)
    by (bit_vector)
    ensures
        inst & 0x7F < 0x80,
        (inst >> 7) & 0x1F < 32,
        (inst >> 12) & 0x7 < 8,
        (inst >> 15) & 0x1F < 32,
        (inst >> 20) & 0x1F < 32,
        (inst >> 25) & 0x7F < 0x80,
        (inst >> 20) & 0xFFF < 0x1000,
{
}

} // verus!
