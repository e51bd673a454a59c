use riscv_emulator::cpu::{Cpu, PrivilegeMode};
use riscv_emulator::csr::{
    BREAKPOINT, ECALL_FROM_M, ECALL_FROM_S, MCAUSE, MEPC, MHARTID, MIE, MISA, MSTATUS, MSTATUS_MIE, MSTATUS_MPIE, MSTATUS_MPP, MTVEC,
    SEPC, SSTATUS, SSTATUS_SIE, SSTATUS_SPIE, SSTATUS_SPP,
};

use std::collections::VecDeque;

use riscv_emulator::terminal::Terminal;

/// An in-memory terminal double: collects output and serves queued input.
pub struct MockTerminal {
    pub output: Vec<u8>,
    pub input: VecDeque<u8>,
}

impl MockTerminal {
    pub fn new() -> Self {
        MockTerminal { output: Vec::new(), input: VecDeque::new() }
    }

    pub fn push_input(&mut self, data: u8) {
        self.input.push_back(data);
    }

    pub fn output_as_string(&self) -> String {
        String::from_utf8_lossy(&self.output).to_string()
    }
}

impl Terminal for MockTerminal {
    fn write(&mut self, data: u8) {
        self.output.push(data);
    }

    fn read(&mut self) -> Option<u8> {
        self.input.pop_front()
    }
}

fn mk_cpu() -> Cpu<MockTerminal> {
    Cpu::new(MockTerminal::new())
}

#[test]
    fn cpu_test_cpu_init() {
        let cpu = mk_cpu();
        for i in 0..32 {
            assert_eq!(cpu.regs[i], 0);
        }
        assert_eq!(cpu.pc, 0x80000000);
    }

#[test]
    fn cpu_test_misa_init() {
        let cpu = mk_cpu();
        let misa = cpu.csr.read(MISA);

        // MXL = 2 (64-bit)
        assert_eq!(misa >> 62, 2);

        // I extension (bit 8)
        assert_ne!(misa & (1 << 8), 0);

        // S extension (bit 18)
        assert_ne!(misa & (1 << 18), 0);

        // U extension (bit 20)
        assert_ne!(misa & (1 << 20), 0);
    }

#[test]
    fn cpu_test_mhartid_init() {
        let cpu = mk_cpu();
        assert_eq!(cpu.csr.read(MHARTID), 0); // single core
    }

#[test]
    fn cpu_test_x0_always_zero() {
        let mut cpu = mk_cpu();
        cpu.write_reg(0, 100);
        assert_eq!(cpu.read_reg(0), 0);
    }

#[test]
    fn cpu_test_fetch() {
        let mut cpu = mk_cpu();
        cpu.bus.write32(0x80000000, 0x02A00093).unwrap();
        let instruction = cpu.fetch().unwrap();
        assert_eq!(instruction, 0x02A00093);
    }

#[test]
    fn cpu_test_addi() {
        let mut cpu = mk_cpu();
        cpu.bus.write32(0x80000000, 0x02A00093).unwrap();
        cpu.step().unwrap();
        assert_eq!(cpu.read_reg(1), 42);
        assert_eq!(cpu.pc, 0x80000004);
    }

#[test]
    fn cpu_test_addi_negative() {
        let mut cpu = mk_cpu();
        cpu.bus.write32(0x80000000, 0xFFF00093).unwrap();
        cpu.step().unwrap();
        assert_eq!(cpu.read_reg(1), 0xFFFFFFFFFFFFFFFF);
    }

#[test]
    fn cpu_test_add() {
        let mut cpu = mk_cpu();
        cpu.write_reg(1, 10);
        cpu.write_reg(2, 20);
        cpu.bus.write32(0x80000000, 0x002081B3).unwrap();
        cpu.step().unwrap();
        assert_eq!(cpu.read_reg(3), 30);
    }

#[test]
    fn cpu_test_sub() {
        let mut cpu = mk_cpu();
        cpu.write_reg(1, 100);
        cpu.write_reg(2, 30);
        cpu.bus.write32(0x80000000, 0x402081B3).unwrap();
        cpu.step().unwrap();
        assert_eq!(cpu.read_reg(3), 70);
    }

#[test]
    fn cpu_test_and() {
        let mut cpu = mk_cpu();
        cpu.write_reg(1, 0b1100);
        cpu.write_reg(2, 0b1010);
        cpu.bus.write32(0x80000000, 0x0020F1B3).unwrap();
        cpu.step().unwrap();
        assert_eq!(cpu.read_reg(3), 0b1000);
    }

#[test]
    fn cpu_test_or() {
        let mut cpu = mk_cpu();
        cpu.write_reg(1, 0b1100);
        cpu.write_reg(2, 0b1010);
        cpu.bus.write32(0x80000000, 0x0020E1B3).unwrap();
        cpu.step().unwrap();
        assert_eq!(cpu.read_reg(3), 0b1110);
    }

#[test]
    fn cpu_test_or_with_zero() {
        let mut cpu = mk_cpu();
        cpu.write_reg(1, 0x12345678);
        cpu.write_reg(2, 0);
        cpu.bus.write32(0x80000000, 0x0020E1B3).unwrap();
        cpu.step().unwrap();
        assert_eq!(cpu.read_reg(3), 0x12345678);
    }

#[test]
    fn cpu_test_xor() {
        let mut cpu = mk_cpu();
        cpu.write_reg(1, 0b1100);
        cpu.write_reg(2, 0b1010);
        cpu.bus.write32(0x80000000, 0x0020C1B3).unwrap();
        cpu.step().unwrap();
        assert_eq!(cpu.read_reg(3), 0b0110);
    }

#[test]
    fn cpu_test_andi() {
        let mut cpu = mk_cpu();
        cpu.write_reg(1, 0xFF);
        cpu.bus.write32(0x80000000, 0x00F0F113).unwrap();
        cpu.step().unwrap();
        assert_eq!(cpu.read_reg(2), 0x0F);
    }

#[test]
    fn cpu_test_andi_sign_extended() {
        let mut cpu = mk_cpu();
        cpu.write_reg(1, 0xFFFFFFFF);
        cpu.bus.write32(0x80000000, 0xFFF0F113).unwrap();
        cpu.step().unwrap();
        assert_eq!(cpu.read_reg(2), 0xFFFFFFFF);
    }

#[test]
    fn cpu_test_ori() {
        let mut cpu = mk_cpu();
        cpu.write_reg(1, 0xF0);
        cpu.bus.write32(0x80000000, 0x00F0E113).unwrap();
        cpu.step().unwrap();
        assert_eq!(cpu.read_reg(2), 0xFF);
    }

#[test]
    fn cpu_test_xori() {
        let mut cpu = mk_cpu();
        cpu.write_reg(1, 0xFF);
        cpu.bus.write32(0x80000000, 0x0FF0C113).unwrap();
        cpu.step().unwrap();
        assert_eq!(cpu.read_reg(2), 0);
    }

#[test]
    fn cpu_test_xori_sign_extended() {
        let mut cpu = mk_cpu();
        cpu.write_reg(1, 0xFF);
        cpu.bus.write32(0x80000000, 0xFFF0C113).unwrap();
        cpu.step().unwrap();
        assert_eq!(cpu.read_reg(2), 0xFFFFFFFFFFFFFF00);
    }

#[test]
    fn cpu_test_sll() {
        let mut cpu = mk_cpu();
        cpu.write_reg(1, 1);
        cpu.write_reg(2, 4);
        cpu.bus.write32(0x80000000, 0x002091B3).unwrap();
        cpu.step().unwrap();
        assert_eq!(cpu.read_reg(3), 16);
    }

#[test]
    fn cpu_test_srl() {
        let mut cpu = mk_cpu();
        cpu.write_reg(1, 0x80000000);
        cpu.write_reg(2, 4);
        cpu.bus.write32(0x80000000, 0x0020D1B3).unwrap();
        cpu.step().unwrap();
        assert_eq!(cpu.read_reg(3), 0x08000000);
    }

#[test]
    fn cpu_test_srl_shamt_wrap() {
        let mut cpu = mk_cpu();
        cpu.write_reg(1, 0x8000000000000000);
        cpu.write_reg(2, 68);
        cpu.bus.write32(0x80000000, 0x0020D1B3).unwrap();
        cpu.step().unwrap();
        assert_eq!(cpu.read_reg(3), 0x0800000000000000);
    }

#[test]
    fn cpu_test_sra() {
        let mut cpu = mk_cpu();
        cpu.write_reg(1, 0x8000000000000000);
        cpu.write_reg(2, 4);
        cpu.bus.write32(0x80000000, 0x4020D1B3).unwrap();
        cpu.step().unwrap();
        assert_eq!(cpu.read_reg(3), 0xF800000000000000);
    }

#[test]
    fn cpu_test_slli() {
        let mut cpu = mk_cpu();
        cpu.write_reg(1, 1);
        cpu.bus.write32(0x80000000, 0x00409113).unwrap();
        cpu.step().unwrap();
        assert_eq!(cpu.read_reg(2), 16);
    }

#[test]
    fn cpu_test_srli() {
        let mut cpu = mk_cpu();
        cpu.write_reg(1, 0x80000000);
        cpu.bus.write32(0x80000000, 0x0040D113).unwrap();
        cpu.step().unwrap();
        assert_eq!(cpu.read_reg(2), 0x08000000);
    }

#[test]
    fn cpu_test_srai() {
        let mut cpu = mk_cpu();
        cpu.write_reg(1, 0x8000000000000000);
        cpu.bus.write32(0x80000000, 0x4040D113).unwrap();
        cpu.step().unwrap();
        assert_eq!(cpu.read_reg(2), 0xF800000000000000);
    }

#[test]
    fn cpu_test_slt_signed() {
        let mut cpu = mk_cpu();
        cpu.write_reg(1, (-5_i32) as u64);
        cpu.write_reg(2, 5);
        cpu.bus.write32(0x80000000, 0x0020A1B3).unwrap();
        cpu.step().unwrap();
        assert_eq!(cpu.read_reg(3), 1);
    }

#[test]
    fn cpu_test_sltu_unsigned() {
        let mut cpu = mk_cpu();
        cpu.write_reg(1, (-5_i32) as u64);
        cpu.write_reg(2, 5);
        cpu.bus.write32(0x80000000, 0x0020B1B3).unwrap();
        cpu.step().unwrap();
        assert_eq!(cpu.read_reg(3), 0);
    }

#[test]
    fn cpu_test_slti() {
        let mut cpu = mk_cpu();
        cpu.write_reg(1, 5);
        cpu.bus.write32(0x80000000, 0x00A0A113).unwrap();
        cpu.step().unwrap();
        assert_eq!(cpu.read_reg(2), 1);
    }

#[test]
    fn cpu_test_sltiu() {
        let mut cpu = mk_cpu();
        cpu.write_reg(1, 5);
        cpu.bus.write32(0x80000000, 0xFFF0B113).unwrap();
        cpu.step().unwrap();
        assert_eq!(cpu.read_reg(2), 1);
    }

#[test]
    fn cpu_test_sw_lw() {
        let mut cpu = mk_cpu();
        cpu.write_reg(1, 0x80001000);
        cpu.write_reg(2, 0xDEADBEEF);
        cpu.bus.write32(0x80000000, 0x0020A023).unwrap();
        cpu.step().unwrap();
        cpu.bus.write32(0x80000004, 0x0000A183).unwrap();
        cpu.step().unwrap();
        assert_eq!(cpu.read_reg(3), 0xFFFFFFFFDEADBEEF);
    }

#[test]
    fn cpu_test_lb_sign_extend() {
        let mut cpu = mk_cpu();
        cpu.write_reg(1, 0x80001000);
        cpu.bus.write8(0x80001000, 0x80).unwrap();
        cpu.bus.write32(0x80000000, 0x00008103).unwrap();
        cpu.step().unwrap();
        assert_eq!(cpu.read_reg(2), 0xFFFFFFFFFFFFFF80);
    }

#[test]
    fn cpu_test_lbu_zero_extend() {
        let mut cpu = mk_cpu();
        cpu.write_reg(1, 0x80001000);
        cpu.bus.write8(0x80001000, 0x80).unwrap();
        cpu.bus.write32(0x80000000, 0x0000C103).unwrap();
        cpu.step().unwrap();
        assert_eq!(cpu.read_reg(2), 0x00000080);
    }

#[test]
    fn cpu_test_lh_sign_extend() {
        let mut cpu = mk_cpu();
        cpu.write_reg(1, 0x80001000);
        cpu.bus.write16(0x80001000, 0x8000).unwrap();
        cpu.bus.write32(0x80000000, 0x00009103).unwrap();
        cpu.step().unwrap();
        assert_eq!(cpu.read_reg(2), 0xFFFFFFFFFFFF8000);
    }

#[test]
    fn cpu_test_lhu_zero_extend() {
        let mut cpu = mk_cpu();
        cpu.write_reg(1, 0x80001000);
        cpu.bus.write16(0x80001000, 0x8000).unwrap();
        cpu.bus.write32(0x80000000, 0x0000D103).unwrap();
        cpu.step().unwrap();
        assert_eq!(cpu.read_reg(2), 0x00008000);
    }

#[test]
    fn cpu_test_ld() {
        let mut cpu = mk_cpu();
        cpu.write_reg(1, 0x80001000);
        cpu.bus.write64(0x80001000, 0xDEADBEEFCAFEBABE).unwrap();
        cpu.bus.write32(0x80000000, 0x0000B103).unwrap();
        cpu.step().unwrap();
        assert_eq!(cpu.read_reg(2), 0xDEADBEEFCAFEBABE);
    }

#[test]
    fn cpu_test_sd() {
        let mut cpu = mk_cpu();
        cpu.write_reg(1, 0x80001000);
        cpu.write_reg(2, 0x123456789ABCDEF0);
        cpu.bus.write32(0x80000000, 0x0020B023).unwrap();
        cpu.step().unwrap();
        assert_eq!(cpu.bus.read64(0x80001000).unwrap(), 0x123456789ABCDEF0);
    }

#[test]
    fn cpu_test_sd_ld() {
        let mut cpu = mk_cpu();
        cpu.write_reg(1, 0x80001000);
        cpu.write_reg(2, 0xFEDCBA9876543210);
        cpu.bus.write32(0x80000000, 0x0020B023).unwrap();
        cpu.step().unwrap();
        cpu.bus.write32(0x80000004, 0x0000B183).unwrap();
        cpu.step().unwrap();
        assert_eq!(cpu.read_reg(3), 0xFEDCBA9876543210);
    }

#[test]
    fn cpu_test_lwu() {
        let mut cpu = mk_cpu();
        cpu.write_reg(1, 0x80001000);
        cpu.bus.write32(0x80001000, 0xDEADBEEF).unwrap();
        cpu.bus.write32(0x80000000, 0x0000E103).unwrap();
        cpu.step().unwrap();
        assert_eq!(cpu.read_reg(2), 0x00000000DEADBEEF);
    }

#[test]
    fn cpu_test_sb() {
        let mut cpu = mk_cpu();
        cpu.write_reg(1, 0x80001000);
        cpu.write_reg(2, 0xDEADBEEF);
        cpu.bus.write32(0x80000000, 0x00208023).unwrap();
        cpu.step().unwrap();
        assert_eq!(cpu.bus.read8(0x80001000).unwrap(), 0xEF);
    }

#[test]
    fn cpu_test_sh() {
        let mut cpu = mk_cpu();
        cpu.write_reg(1, 0x80001000);
        cpu.write_reg(2, 0xDEADBEEF);
        cpu.bus.write32(0x80000000, 0x00209023).unwrap();
        cpu.step().unwrap();
        assert_eq!(cpu.bus.read16(0x80001000).unwrap(), 0xBEEF);
    }

#[test]
    fn cpu_test_beq_taken() {
        let mut cpu = mk_cpu();
        cpu.write_reg(1, 100);
        cpu.write_reg(2, 100);
        cpu.bus.write32(0x80000000, 0x00208463).unwrap();
        cpu.step().unwrap();
        assert_eq!(cpu.pc, 0x80000008);
    }

#[test]
    fn cpu_test_beq_not_taken() {
        let mut cpu = mk_cpu();
        cpu.write_reg(1, 100);
        cpu.write_reg(2, 200);
        cpu.bus.write32(0x80000000, 0x00208463).unwrap();
        cpu.step().unwrap();
        assert_eq!(cpu.pc, 0x80000004);
    }

#[test]
    fn cpu_test_bne_taken() {
        let mut cpu = mk_cpu();
        cpu.write_reg(1, 100);
        cpu.write_reg(2, 200);
        cpu.bus.write32(0x80000000, 0x00209463).unwrap();
        cpu.step().unwrap();
        assert_eq!(cpu.pc, 0x80000008);
    }

#[test]
    fn cpu_test_blt_signed() {
        let mut cpu = mk_cpu();
        cpu.write_reg(1, (-5_i32) as u64);
        cpu.write_reg(2, 5);
        cpu.bus.write32(0x80000000, 0x0020C463).unwrap();
        cpu.step().unwrap();
        assert_eq!(cpu.pc, 0x80000008);
    }

#[test]
    fn cpu_test_bge_signed() {
        let mut cpu = mk_cpu();
        cpu.write_reg(1, 5);
        cpu.write_reg(2, (-5_i32) as u64);
        cpu.bus.write32(0x80000000, 0x0020D463).unwrap();
        cpu.step().unwrap();
        assert_eq!(cpu.pc, 0x80000008);
    }

#[test]
    fn cpu_test_bltu_unsigned() {
        let mut cpu = mk_cpu();
        cpu.write_reg(1, 5);
        cpu.write_reg(2, (-1_i32) as u64);
        cpu.bus.write32(0x80000000, 0x0020E463).unwrap();
        cpu.step().unwrap();
        assert_eq!(cpu.pc, 0x80000008);
    }

#[test]
    fn cpu_test_bgeu_unsigned() {
        let mut cpu = mk_cpu();
        cpu.write_reg(1, (-1_i32) as u64);
        cpu.write_reg(2, 5);
        cpu.bus.write32(0x80000000, 0x0020F463).unwrap();
        cpu.step().unwrap();
        assert_eq!(cpu.pc, 0x80000008);
    }

#[test]
    fn cpu_test_branch_backward() {
        let mut cpu = mk_cpu();
        cpu.pc = 0x80000008;
        cpu.write_reg(1, 1);
        cpu.write_reg(2, 1);
        cpu.bus.write32(0x80000008, 0xFE208CE3).unwrap();
        cpu.step().unwrap();
        assert_eq!(cpu.pc, 0x80000000);
    }

#[test]
    fn cpu_test_jal() {
        let mut cpu = mk_cpu();
        cpu.bus.write32(0x80000000, 0x008000EF).unwrap();
        cpu.step().unwrap();
        assert_eq!(cpu.read_reg(1), 0x80000004);
        assert_eq!(cpu.pc, 0x80000008);
    }

#[test]
    fn cpu_test_jal_backward() {
        let mut cpu = mk_cpu();
        cpu.pc = 0x80000008;
        cpu.bus.write32(0x80000008, 0xFFDFF0EF).unwrap();
        cpu.step().unwrap();
        assert_eq!(cpu.read_reg(1), 0x8000000C);
        assert_eq!(cpu.pc, 0x80000004);
    }

#[test]
    fn cpu_test_jalr() {
        let mut cpu = mk_cpu();
        cpu.write_reg(2, 0x80001000);
        cpu.bus.write32(0x80000000, 0x000100E7).unwrap();
        cpu.step().unwrap();
        assert_eq!(cpu.read_reg(1), 0x80000004);
        assert_eq!(cpu.pc, 0x80001000);
    }

#[test]
    fn cpu_test_jalr_with_offset() {
        let mut cpu = mk_cpu();
        cpu.write_reg(2, 0x80001000);
        cpu.bus.write32(0x80000000, 0x004100E7).unwrap();
        cpu.step().unwrap();
        assert_eq!(cpu.read_reg(1), 0x80000004);
        assert_eq!(cpu.pc, 0x80001004);
    }

#[test]
    fn cpu_test_jalr_clears_lsb() {
        let mut cpu = mk_cpu();
        cpu.write_reg(2, 0x80001001);
        cpu.bus.write32(0x80000000, 0x000100E7).unwrap();
        cpu.step().unwrap();
        assert_eq!(cpu.pc, 0x80001000);
    }

#[test]
    fn cpu_test_lui() {
        let mut cpu = mk_cpu();
        cpu.bus.write32(0x80000000, 0x123450B7).unwrap();
        cpu.step().unwrap();
        assert_eq!(cpu.read_reg(1), 0x12345000);
    }

#[test]
    fn cpu_test_lui_high_bit() {
        let mut cpu = mk_cpu();
        cpu.bus.write32(0x80000000, 0x800000B7).unwrap();
        cpu.step().unwrap();
        assert_eq!(cpu.read_reg(1), 0xFFFFFFFF80000000);
    }

#[test]
    fn cpu_test_auipc() {
        let mut cpu = mk_cpu();
        cpu.bus.write32(0x80000000, 0x12345097).unwrap();
        cpu.step().unwrap();
        assert_eq!(cpu.read_reg(1), 0x80000000 + 0x12345000);
    }

#[test]
    fn cpu_test_auipc_different_pc() {
        let mut cpu = mk_cpu();
        cpu.pc = 0x80001000;
        cpu.bus.write32(0x80001000, 0x00001097).unwrap();
        cpu.step().unwrap();
        assert_eq!(cpu.read_reg(1), 0x80001000 + 0x1000);
    }

#[test]
    fn cpu_test_ecall_from_m_mode() {
        let mut cpu = mk_cpu();
        cpu.csr.write(MTVEC, 0x80001000);
        cpu.bus.write32(0x80000000, 0x00000073).unwrap(); // ecall
        cpu.step().unwrap();

        assert_eq!(cpu.pc, 0x80001000); // jumped to mtvec
        assert_eq!(cpu.csr.read(MEPC), 0x80000000); // saved old PC
        assert_eq!(cpu.csr.read(MCAUSE), ECALL_FROM_M); // cause = 11
        assert_eq!(cpu.mode, PrivilegeMode::Machine);
    }

#[test]
    fn cpu_test_ecall_from_s_mode() {
        let mut cpu = mk_cpu();
        cpu.mode = PrivilegeMode::Supervisor;
        cpu.csr.write(MTVEC, 0x80001000);
        cpu.bus.write32(0x80000000, 0x00000073).unwrap(); // ecall
        cpu.step().unwrap();

        assert_eq!(cpu.pc, 0x80001000);
        assert_eq!(cpu.csr.read(MCAUSE), ECALL_FROM_S); // cause = 9
        assert_eq!(cpu.mode, PrivilegeMode::Machine); // switched to M
    }

#[test]
    fn cpu_test_ebreak() {
        let mut cpu = mk_cpu();
        cpu.csr.write(MTVEC, 0x80001000);
        cpu.bus.write32(0x80000000, 0x00100073).unwrap(); // ebreak
        cpu.step().unwrap();

        assert_eq!(cpu.pc, 0x80001000);
        assert_eq!(cpu.csr.read(MEPC), 0x80000000);
        assert_eq!(cpu.csr.read(MCAUSE), BREAKPOINT); // cause = 3
    }

#[test]
    fn cpu_test_trap_saves_mstatus() {
        let mut cpu = mk_cpu();
        cpu.csr.write(MTVEC, 0x80001000);
        cpu.csr.write(MSTATUS, MSTATUS_MIE); // MIE = 1
        cpu.bus.write32(0x80000000, 0x00000073).unwrap(); // ecall
        cpu.step().unwrap();

        let mstatus = cpu.csr.read(MSTATUS);
        assert_eq!(mstatus & MSTATUS_MPIE, MSTATUS_MPIE); // MPIE = old MIE
        assert_eq!(mstatus & MSTATUS_MIE, 0); // MIE = 0
        assert_eq!(mstatus & MSTATUS_MPP, MSTATUS_MPP); // MPP = Machine (3)
    }

#[test]
    fn cpu_test_trap_mpp_stores_previous_mode() {
        let mut cpu = mk_cpu();
        cpu.mode = PrivilegeMode::Supervisor;
        cpu.csr.write(MTVEC, 0x80001000);
        cpu.bus.write32(0x80000000, 0x00000073).unwrap(); // ecall
        cpu.step().unwrap();

        let mstatus = cpu.csr.read(MSTATUS);
        // MPP should be 1 (Supervisor)
        assert_eq!((mstatus & MSTATUS_MPP) >> 11, 1);
    }

#[test]
    fn cpu_test_ecall_no_pc_increment() {
        let mut cpu = mk_cpu();
        cpu.csr.write(MTVEC, 0x80001000);
        cpu.bus.write32(0x80000000, 0x00000073).unwrap(); // ecall
        cpu.step().unwrap();

        // PC should be mtvec, not mtvec + 4
        assert_eq!(cpu.pc, 0x80001000);
        // mepc should be the ecall instruction address
        assert_eq!(cpu.csr.read(MEPC), 0x80000000);
    }

#[test]
    fn cpu_test_trap_mtvec_direct_mode() {

        let mut cpu = mk_cpu();
        cpu.csr.write(MTVEC, 0x80001000); // mode = 0
        cpu.bus.write32(0x80000000, 0x00000073).unwrap(); // ecall
        cpu.step().unwrap();

        assert_eq!(cpu.pc, 0x80001000);
    }

#[test]
    fn cpu_test_trap_mtvec_direct_mode_strips_mode_bits() {

        let mut cpu = mk_cpu();
        cpu.csr.write(MTVEC, 0x80001000 | 0x0);
        cpu.bus.write32(0x80000000, 0x00000073).unwrap(); // ecall
        cpu.step().unwrap();

        assert_eq!(cpu.pc, 0x80001000);
    }

#[test]
    fn cpu_test_trap_mtvec_vectored_mode_exception() {

        let mut cpu = mk_cpu();
        cpu.csr.write(MTVEC, 0x80001000 | 0x1); // mode = 1 (Vectored)
        cpu.bus.write32(0x80000000, 0x00000073).unwrap();
        cpu.step().unwrap();


        assert_eq!(cpu.pc, 0x80001000);
    }

#[test]
    fn cpu_test_trap_mtvec_vectored_mode_extracts_base() {

        let mut cpu = mk_cpu();
        cpu.csr.write(MTVEC, 0x80001001); // base=0x80001000, mode=1
        cpu.bus.write32(0x80000000, 0x00100073).unwrap(); // ebreak
        cpu.step().unwrap();

        // base = mtvec & !0x3 = 0x80001000
        assert_eq!(cpu.pc, 0x80001000);
    }

#[test]
    fn cpu_test_mret_restores_pc() {
        let mut cpu = mk_cpu();
        cpu.csr.write(MEPC, 0x80002000);
        cpu.csr.write(MSTATUS, MSTATUS_MPP); // MPP = Machine (3)
        cpu.bus.write32(0x80000000, 0x30200073).unwrap(); // mret
        cpu.step().unwrap();

        assert_eq!(cpu.pc, 0x80002000);
    }

#[test]
    fn cpu_test_mret_restores_mode_from_mpp() {
        let mut cpu = mk_cpu();
        cpu.csr.write(MEPC, 0x80002000);
        // MPP = Supervisor (1 << 11)
        cpu.csr.write(MSTATUS, 1 << 11);
        cpu.bus.write32(0x80000000, 0x30200073).unwrap(); // mret
        cpu.step().unwrap();

        assert_eq!(cpu.mode, PrivilegeMode::Supervisor);
    }

#[test]
    fn cpu_test_mret_restores_mie_from_mpie() {
        let mut cpu = mk_cpu();
        cpu.csr.write(MEPC, 0x80002000);
        cpu.csr.write(MSTATUS, MSTATUS_MPIE | MSTATUS_MPP); // MPIE=1
        cpu.bus.write32(0x80000000, 0x30200073).unwrap(); // mret
        cpu.step().unwrap();

        let mstatus = cpu.csr.read(MSTATUS);
        assert_eq!(mstatus & MSTATUS_MIE, MSTATUS_MIE); // MIE = 1
        assert_eq!(mstatus & MSTATUS_MPIE, MSTATUS_MPIE); // MPIE = 1
    }

#[test]
    fn cpu_test_mret_clears_mpp() {
        let mut cpu = mk_cpu();
        cpu.csr.write(MEPC, 0x80002000);
        cpu.csr.write(MSTATUS, MSTATUS_MPP); // MPP = Machine
        cpu.bus.write32(0x80000000, 0x30200073).unwrap(); // mret
        cpu.step().unwrap();

        let mstatus = cpu.csr.read(MSTATUS);
        assert_eq!(mstatus & MSTATUS_MPP, 0); // MPP cleared
    }

#[test]
    fn cpu_test_sret_restores_pc() {
        let mut cpu = mk_cpu();
        cpu.mode = PrivilegeMode::Supervisor;
        cpu.csr.write(SEPC, 0x80003000);
        cpu.csr.write(SSTATUS, SSTATUS_SPP); // SPP = Supervisor
        cpu.bus.write32(0x80000000, 0x10200073).unwrap(); // sret
        cpu.step().unwrap();

        assert_eq!(cpu.pc, 0x80003000);
    }

#[test]
    fn cpu_test_sret_restores_mode_from_spp() {
        let mut cpu = mk_cpu();
        cpu.mode = PrivilegeMode::Supervisor;
        cpu.csr.write(SEPC, 0x80003000);
        cpu.csr.write(SSTATUS, 0); // SPP = 0 (User)
        cpu.bus.write32(0x80000000, 0x10200073).unwrap(); // sret
        cpu.step().unwrap();

        assert_eq!(cpu.mode, PrivilegeMode::User);
    }

#[test]
    fn cpu_test_sret_restores_sie_from_spie() {
        let mut cpu = mk_cpu();
        cpu.mode = PrivilegeMode::Supervisor;
        cpu.csr.write(SEPC, 0x80003000);
        cpu.csr.write(SSTATUS, SSTATUS_SPIE | SSTATUS_SPP); // SPIE=1, SPP=S
        cpu.bus.write32(0x80000000, 0x10200073).unwrap(); // sret
        cpu.step().unwrap();

        let sstatus = cpu.csr.read(SSTATUS);
        assert_eq!(sstatus & SSTATUS_SIE, SSTATUS_SIE); // SIE = 1 (from SPIE)
        assert_eq!(sstatus & SSTATUS_SPIE, SSTATUS_SPIE); // SPIE = 1
    }

#[test]
    fn cpu_test_sret_clears_spp() {
        let mut cpu = mk_cpu();
        cpu.mode = PrivilegeMode::Supervisor;
        cpu.csr.write(SEPC, 0x80003000);
        cpu.csr.write(SSTATUS, SSTATUS_SPP); // SPP = Supervisor
        cpu.bus.write32(0x80000000, 0x10200073).unwrap(); // sret
        cpu.step().unwrap();

        let sstatus = cpu.csr.read(SSTATUS);
        assert_eq!(sstatus & SSTATUS_SPP, 0); // SPP cleared
    }

#[test]
    fn cpu_test_mret_no_pc_increment() {
        let mut cpu = mk_cpu();
        cpu.csr.write(MEPC, 0x80002000);
        cpu.csr.write(MSTATUS, MSTATUS_MPP);
        cpu.bus.write32(0x80000000, 0x30200073).unwrap(); // mret
        cpu.step().unwrap();

        // PC should be mepc, not mepc + 4
        assert_eq!(cpu.pc, 0x80002000);
    }

#[test]
    fn cpu_test_addiw() {
        let mut cpu = mk_cpu();
        cpu.write_reg(1, 10);
        cpu.bus.write32(0x80000000, 0x0140811B).unwrap();
        cpu.step().unwrap();
        assert_eq!(cpu.read_reg(2), 30);
    }

#[test]
    fn cpu_test_addiw_overflow() {
        let mut cpu = mk_cpu();
        cpu.write_reg(1, 0x7FFFFFFF);
        cpu.bus.write32(0x80000000, 0x0010811B).unwrap();
        cpu.step().unwrap();
        assert_eq!(cpu.read_reg(2), 0xFFFFFFFF80000000);
    }

#[test]
    fn cpu_test_addiw_negative() {
        let mut cpu = mk_cpu();
        cpu.write_reg(1, 0);
        cpu.bus.write32(0x80000000, 0xFFF0811B).unwrap();
        cpu.step().unwrap();
        assert_eq!(cpu.read_reg(2), 0xFFFFFFFFFFFFFFFF);
    }

#[test]
    fn cpu_test_addiw_ignores_upper_bits() {
        let mut cpu = mk_cpu();
        cpu.write_reg(1, 0xFFFFFFFF00000005);
        cpu.bus.write32(0x80000000, 0x0030811B).unwrap();
        cpu.step().unwrap();
        assert_eq!(cpu.read_reg(2), 8);
    }

#[test]
    fn cpu_test_slliw() {
        let mut cpu = mk_cpu();
        cpu.write_reg(1, 1);
        cpu.bus.write32(0x80000000, 0x0040911B).unwrap();
        cpu.step().unwrap();
        assert_eq!(cpu.read_reg(2), 16);
    }

#[test]
    fn cpu_test_slliw_sign_extend() {
        let mut cpu = mk_cpu();
        cpu.write_reg(1, 0x40000000);
        cpu.bus.write32(0x80000000, 0x0010911B).unwrap();
        cpu.step().unwrap();
        assert_eq!(cpu.read_reg(2), 0xFFFFFFFF80000000);
    }

#[test]
    fn cpu_test_srliw() {
        let mut cpu = mk_cpu();
        cpu.write_reg(1, 0x80000000);
        cpu.bus.write32(0x80000000, 0x0040D11B).unwrap();
        cpu.step().unwrap();
        assert_eq!(cpu.read_reg(2), 0x08000000);
    }

#[test]
    fn cpu_test_srliw_upper_ignored() {
        let mut cpu = mk_cpu();
        cpu.write_reg(1, 0xFFFFFFFF80000000);
        cpu.bus.write32(0x80000000, 0x0040D11B).unwrap();
        cpu.step().unwrap();
        assert_eq!(cpu.read_reg(2), 0x08000000);
    }

#[test]
    fn cpu_test_sraiw() {
        let mut cpu = mk_cpu();
        cpu.write_reg(1, 0x80000000);
        cpu.bus.write32(0x80000000, 0x4040D11B).unwrap();
        cpu.step().unwrap();
        assert_eq!(cpu.read_reg(2), 0xFFFFFFFFF8000000);
    }

#[test]
    fn cpu_test_sraiw_positive() {
        let mut cpu = mk_cpu();
        cpu.write_reg(1, 0x40000000);
        cpu.bus.write32(0x80000000, 0x4040D11B).unwrap();
        cpu.step().unwrap();
        assert_eq!(cpu.read_reg(2), 0x04000000);
    }

#[test]
    fn cpu_test_addw() {
        let mut cpu = mk_cpu();
        cpu.write_reg(1, 10);
        cpu.write_reg(2, 20);
        cpu.bus.write32(0x80000000, 0x002081BB).unwrap();
        cpu.step().unwrap();
        assert_eq!(cpu.read_reg(3), 30);
    }

#[test]
    fn cpu_test_addw_overflow() {
        let mut cpu = mk_cpu();
        cpu.write_reg(1, 0x7FFFFFFF);
        cpu.write_reg(2, 1);
        cpu.bus.write32(0x80000000, 0x002081BB).unwrap();
        cpu.step().unwrap();
        assert_eq!(cpu.read_reg(3), 0xFFFFFFFF80000000);
    }

#[test]
    fn cpu_test_subw() {
        let mut cpu = mk_cpu();
        cpu.write_reg(1, 100);
        cpu.write_reg(2, 30);
        cpu.bus.write32(0x80000000, 0x402081BB).unwrap();
        cpu.step().unwrap();
        assert_eq!(cpu.read_reg(3), 70);
    }

#[test]
    fn cpu_test_subw_underflow() {
        let mut cpu = mk_cpu();
        cpu.write_reg(1, 0);
        cpu.write_reg(2, 1);
        cpu.bus.write32(0x80000000, 0x402081BB).unwrap();
        cpu.step().unwrap();
        assert_eq!(cpu.read_reg(3), 0xFFFFFFFFFFFFFFFF);
    }

#[test]
    fn cpu_test_sllw() {
        let mut cpu = mk_cpu();
        cpu.write_reg(1, 1);
        cpu.write_reg(2, 4);
        cpu.bus.write32(0x80000000, 0x002091BB).unwrap();
        cpu.step().unwrap();
        assert_eq!(cpu.read_reg(3), 16);
    }

#[test]
    fn cpu_test_sllw_sign_extend() {
        let mut cpu = mk_cpu();
        cpu.write_reg(1, 0x40000000);
        cpu.write_reg(2, 1);
        cpu.bus.write32(0x80000000, 0x002091BB).unwrap();
        cpu.step().unwrap();
        assert_eq!(cpu.read_reg(3), 0xFFFFFFFF80000000);
    }

#[test]
    fn cpu_test_srlw() {
        let mut cpu = mk_cpu();
        cpu.write_reg(1, 0x80000000);
        cpu.write_reg(2, 4);
        cpu.bus.write32(0x80000000, 0x0020D1BB).unwrap();
        cpu.step().unwrap();
        assert_eq!(cpu.read_reg(3), 0x08000000);
    }

#[test]
    fn cpu_test_sraw() {
        let mut cpu = mk_cpu();
        cpu.write_reg(1, 0x80000000);
        cpu.write_reg(2, 4);
        cpu.bus.write32(0x80000000, 0x4020D1BB).unwrap();
        cpu.step().unwrap();
        assert_eq!(cpu.read_reg(3), 0xFFFFFFFFF8000000);
    }

#[test]
    fn cpu_test_sraw_positive() {
        let mut cpu = mk_cpu();
        cpu.write_reg(1, 0x40000000);
        cpu.write_reg(2, 4);
        cpu.bus.write32(0x80000000, 0x4020D1BB).unwrap();
        cpu.step().unwrap();
        assert_eq!(cpu.read_reg(3), 0x04000000);
    }

#[test]
    fn cpu_test_csrrw() {
        // CSRRW x1, 0x300, x2
        let mut cpu = mk_cpu();
        cpu.csr.write(0x300, 0xAAAA);
        cpu.write_reg(2, 0xBBBB);
        cpu.bus.write32(0x80000000, 0x300110F3).unwrap();
        cpu.step().unwrap();
        assert_eq!(cpu.read_reg(1), 0xAAAA); // rd = old CSR
        assert_eq!(cpu.csr.read(0x300), 0xBBBB); // CSR = rs1
    }

#[test]
    fn cpu_test_csrrw_rd_x0() {
        // CSRRW x0, 0x300, x2 (rd=x0, just write)
        let mut cpu = mk_cpu();
        cpu.csr.write(0x300, 0xAAAA);
        cpu.write_reg(2, 0xBBBB);
        cpu.bus.write32(0x80000000, 0x30011073).unwrap();
        cpu.step().unwrap();
        assert_eq!(cpu.read_reg(0), 0); // x0 always 0
        assert_eq!(cpu.csr.read(0x300), 0xBBBB); // CSR = rs1
    }

#[test]
    fn cpu_test_csrrs() {
        // CSRRS x1, 0x300, x2
        let mut cpu = mk_cpu();
        cpu.csr.write(0x300, 0b1100);
        cpu.write_reg(2, 0b0011);
        cpu.bus.write32(0x80000000, 0x300120F3).unwrap();
        cpu.step().unwrap();
        assert_eq!(cpu.read_reg(1), 0b1100); // rd = old CSR
        assert_eq!(cpu.csr.read(0x300), 0b1111); // CSR = CSR | rs1
    }

#[test]
    fn cpu_test_csrrs_rs1_x0() {
        // CSRRS x1, 0x300, x0 (read only, no modify)
        let mut cpu = mk_cpu();
        cpu.csr.write(0x300, 0xAAAA);
        cpu.bus.write32(0x80000000, 0x300020F3).unwrap();
        cpu.step().unwrap();
        assert_eq!(cpu.read_reg(1), 0xAAAA); // rd = CSR
        assert_eq!(cpu.csr.read(0x300), 0xAAAA); // CSR unchanged
    }

#[test]
    fn cpu_test_csrrc() {
        // CSRRC x1, 0x300, x2
        let mut cpu = mk_cpu();
        cpu.csr.write(0x300, 0b1111);
        cpu.write_reg(2, 0b0011);
        cpu.bus.write32(0x80000000, 0x300130F3).unwrap();
        cpu.step().unwrap();
        assert_eq!(cpu.read_reg(1), 0b1111); // rd = old CSR
        assert_eq!(cpu.csr.read(0x300), 0b1100); // CSR = CSR & ~rs1
    }

#[test]
    fn cpu_test_csrrc_rs1_x0() {
        // CSRRC x1, 0x300, x0 (read only, no modify)
        let mut cpu = mk_cpu();
        cpu.csr.write(0x300, 0xAAAA);
        cpu.bus.write32(0x80000000, 0x300030F3).unwrap();
        cpu.step().unwrap();
        assert_eq!(cpu.read_reg(1), 0xAAAA); // rd = CSR
        assert_eq!(cpu.csr.read(0x300), 0xAAAA); // CSR unchanged
    }

#[test]
    fn cpu_test_csrrwi() {
        // CSRRWI x1, 0x300, 0x1F (zimm=31)
        let mut cpu = mk_cpu();
        cpu.csr.write(0x300, 0xAAAA);
        cpu.bus.write32(0x80000000, 0x300FD0F3).unwrap();
        cpu.step().unwrap();
        assert_eq!(cpu.read_reg(1), 0xAAAA); // rd = old CSR
        assert_eq!(cpu.csr.read(0x300), 0x1F); // CSR = zimm
    }

#[test]
    fn cpu_test_csrrsi() {
        // CSRRSI x1, 0x300, 0x03 (zimm=3)
        let mut cpu = mk_cpu();
        cpu.csr.write(0x300, 0b1100);
        cpu.bus.write32(0x80000000, 0x3001E0F3).unwrap();
        cpu.step().unwrap();
        assert_eq!(cpu.read_reg(1), 0b1100); // rd = old CSR
        assert_eq!(cpu.csr.read(0x300), 0b1111); // CSR = CSR | zimm
    }

#[test]
    fn cpu_test_csrrsi_zimm_0() {
        // CSRRSI x1, 0x300, 0 (read only)
        let mut cpu = mk_cpu();
        cpu.csr.write(0x300, 0xAAAA);
        cpu.bus.write32(0x80000000, 0x300060F3).unwrap();
        cpu.step().unwrap();
        assert_eq!(cpu.read_reg(1), 0xAAAA); // rd = CSR
        assert_eq!(cpu.csr.read(0x300), 0xAAAA); // CSR unchanged
    }

#[test]
    fn cpu_test_csrrci() {
        // CSRRCI x1, 0x300, 0x03 (zimm=3)
        let mut cpu = mk_cpu();
        cpu.csr.write(0x300, 0b1111);
        cpu.bus.write32(0x80000000, 0x3001F0F3).unwrap();
        cpu.step().unwrap();
        assert_eq!(cpu.read_reg(1), 0b1111); // rd = old CSR
        assert_eq!(cpu.csr.read(0x300), 0b1100); // CSR = CSR & ~zimm
    }

#[test]
    fn cpu_test_csrrci_zimm_0() {
        // CSRRCI x1, 0x300, 0 (read only)
        let mut cpu = mk_cpu();
        cpu.csr.write(0x300, 0xAAAA);
        cpu.bus.write32(0x80000000, 0x300070F3).unwrap();
        cpu.step().unwrap();
        assert_eq!(cpu.read_reg(1), 0xAAAA); // rd = CSR
        assert_eq!(cpu.csr.read(0x300), 0xAAAA); // CSR unchanged
    }

#[test]
    fn cpu_test_ecall_mret_roundtrip() {

        let mut cpu = mk_cpu();
        cpu.csr.write(MTVEC, 0x80001000); // trap handler at 0x80001000
        cpu.csr.write(MSTATUS, MSTATUS_MIE); // MIE = 1

        // Main code at 0x80000000
        cpu.bus.write32(0x80000000, 0x00000073).unwrap(); // ecall

        // Handler at 0x80001000: just mret
        cpu.bus.write32(0x80001000, 0x30200073).unwrap(); // mret

        // Step 1: ecall
        cpu.step().unwrap();
        assert_eq!(cpu.pc, 0x80001000); // jumped to handler
        assert_eq!(cpu.csr.read(MEPC), 0x80000000); // saved PC
        assert_eq!(cpu.csr.read(MCAUSE), ECALL_FROM_M);
        let mstatus = cpu.csr.read(MSTATUS);
        assert_eq!(mstatus & MSTATUS_MPIE, MSTATUS_MPIE); // MPIE = old MIE
        assert_eq!(mstatus & MSTATUS_MIE, 0); // MIE = 0

        // Step 2: mret
        cpu.step().unwrap();
        assert_eq!(cpu.pc, 0x80000000); // returned to ecall
        let mstatus = cpu.csr.read(MSTATUS);
        assert_eq!(mstatus & MSTATUS_MIE, MSTATUS_MIE); // MIE restored
    }

#[test]
    fn cpu_test_ecall_mret_roundtrip_from_supervisor() {

        let mut cpu = mk_cpu();
        cpu.mode = PrivilegeMode::Supervisor;
        cpu.csr.write(MTVEC, 0x80001000);

        cpu.bus.write32(0x80000000, 0x00000073).unwrap(); // ecall
        cpu.bus.write32(0x80001000, 0x30200073).unwrap(); // mret

        // Step 1: ecall from S-mode
        cpu.step().unwrap();
        assert_eq!(cpu.mode, PrivilegeMode::Machine);
        assert_eq!(cpu.csr.read(MCAUSE), ECALL_FROM_S);
        let mpp = (cpu.csr.read(MSTATUS) & MSTATUS_MPP) >> 11;
        assert_eq!(mpp, 1); // MPP = Supervisor

        // Step 2: mret
        cpu.step().unwrap();
        assert_eq!(cpu.mode, PrivilegeMode::Supervisor); // restored to S
        assert_eq!(cpu.pc, 0x80000000);
    }

#[test]
    fn cpu_test_uart_output_rv64() {

        let mut cpu = mk_cpu();
        cpu.csr.write(MTVEC, 0x80002000); // ecall handler

        let program: Vec<u32> = vec![
            // x1 = 0x10000000 (UART address)
            0x100000B7, // lui x1, 0x10000
            // 'R' output
            0x05200113, // addi x2, x0, 82
            0x00208023, // sb x2, 0(x1)
            // 'V' output
            0x05600113, // addi x2, x0, 86
            0x00208023, // sb x2, 0(x1)
            // '6' output
            0x03600113, // addi x2, x0, 54
            0x00208023, // sb x2, 0(x1)
            // '4' output
            0x03400113, // addi x2, x0, 52
            0x00208023, // sb x2, 0(x1)
            // 64-bit arithmetic test: -1 + 2 = 1
            0xFFF00193, // addi x3, x0, -1        # x3 = 0xFFFFFFFFFFFFFFFF
            0x00218213, // addi x4, x3, 2         # x4 = 1
            // '!' output
            0x02100113, // addi x2, x0, 33
            0x00208023, // sb x2, 0(x1)
            // '\n' output
            0x00A00113, // addi x2, x0, 10
            0x00208023, // sb x2, 0(x1)
            // halt via ecall
            0x00000073, // ecall
        ];

        cpu.load_program(&program);

        // Run until ecall (16 instructions)
        for _ in 0..16 {
            cpu.step().unwrap();
        }

        // Verify 64-bit arithmetic
        assert_eq!(cpu.read_reg(3), 0xFFFFFFFFFFFFFFFF);
        assert_eq!(cpu.read_reg(4), 1);

        // Verify we hit ecall (PC jumped to mtvec)
        assert_eq!(cpu.pc, 0x80002000);
    }

#[test]
    fn cpu_test_sum_1_to_10_loop() {

        // sum = 0; i = 1
        // while (i < 11) { sum += i; i++; }
        // result: sum = 55

        let mut cpu = mk_cpu();
        cpu.csr.write(MTVEC, 0x80002000);

        // x1 = sum, x2 = i, x3 = limit
        let program: Vec<u32> = vec![
            // Initialize
            0x00000093, // addi x1, x0, 0      # sum = 0
            0x00100113, // addi x2, x0, 1      # i = 1
            0x00B00193, // addi x3, x0, 11     # limit = 11
            // Loop:
            0x002080B3, // add x1, x1, x2      # sum += i
            0x00110113, // addi x2, x2, 1      # i++
            0xFE314CE3, // blt x2, x3, -8      # if i < 11, loop
            // Done
            0x00000073, // ecall
        ];

        cpu.load_program(&program);

        // Run until trap
        let mut count = 0;
        while cpu.pc != 0x80002000 && count < 100 {
            cpu.step().unwrap();
            count += 1;
        }

        assert_eq!(cpu.read_reg(1), 55); // sum = 1+2+...+10 = 55
        assert_eq!(cpu.read_reg(2), 11); // i = 11 (loop ended)
        assert_eq!(cpu.pc, 0x80002000);
    }
