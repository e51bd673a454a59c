use riscv_emulator::bus::Bus;

use std::collections::VecDeque;

use riscv_emulator::terminal::Terminal;

/// An in-memory terminal double: collects output and serves queued input.
pub struct MockTerminal {
    pub output: Vec<u8>,
    pub input: VecDeque<u8>,
}

impl MockTerminal {
    pub fn new() -> Self {
        MockTerminal { output: Vec::new(), input: VecDeque::new() }
    }

    pub fn push_input(&mut self, data: u8) {
        self.input.push_back(data);
    }

    pub fn output_as_string(&self) -> String {
        String::from_utf8_lossy(&self.output).to_string()
    }
}

impl Terminal for MockTerminal {
    fn write(&mut self, data: u8) {
        self.output.push(data);
    }

    fn read(&mut self) -> Option<u8> {
        self.input.pop_front()
    }
}

#[test]
    fn test_bus_new() {
        let _bus = Bus::new(MockTerminal::new());
    }

#[test]
    fn test_bus_dram_read_write8() {
        let mut bus = Bus::new(MockTerminal::new());
        bus.write8(0x80000000, 0xAB).unwrap();
        assert_eq!(bus.read8(0x80000000).unwrap(), 0xAB);
    }

#[test]
    fn test_bus_dram_read_write16() {
        let mut bus = Bus::new(MockTerminal::new());
        bus.write16(0x80000000, 0xABCD).unwrap();
        assert_eq!(bus.read16(0x80000000).unwrap(), 0xABCD);
    }

#[test]
    fn test_bus_dram_read_write32() {
        let mut bus = Bus::new(MockTerminal::new());
        bus.write32(0x80000000, 0xDEADBEEF).unwrap();
        assert_eq!(bus.read32(0x80000000).unwrap(), 0xDEADBEEF);
    }

#[test]
    fn test_bus_uart_read8() {
        let mut bus = Bus::new(MockTerminal::new());
        assert_eq!(bus.read8(0x10000000).unwrap(), 0); // UART read returns 0
    }

#[test]
    fn test_bus_uart_write8() {
        let mut bus = Bus::new(MockTerminal::new());
        bus.write8(0x10000000, b'X').unwrap();
    }

#[test]
    fn test_bus_check_uart_interrupt() {
        let mut bus = Bus::new(MockTerminal::new());


        assert!(!bus.check_uart_interrupt());


        bus.write8(0x10000001, 0x01).unwrap();


        bus.push_uart_input(b'A');

        assert!(bus.check_uart_interrupt());
    }

#[test]
    fn test_bus_clint_mtime() {
        let mut bus = Bus::new(MockTerminal::new());
        bus.write64(0x200BFF8, 12345).unwrap(); // CLINT_BASE + MTIME_OFFSET
        assert_eq!(bus.read64(0x200BFF8).unwrap(), 12345);
    }

#[test]
    fn test_bus_clint_mtimecmp() {
        let mut bus = Bus::new(MockTerminal::new());
        bus.write64(0x2004000, 99999).unwrap(); // CLINT_BASE + MTIMECMP_OFFSET
        assert_eq!(bus.read64(0x2004000).unwrap(), 99999);
    }

#[test]
    fn test_bus_clint_msip() {
        let mut bus = Bus::new(MockTerminal::new());
        bus.write32(0x2000000, 1).unwrap(); // CLINT_BASE + MSIP_OFFSET
        assert_eq!(bus.read32(0x2000000).unwrap(), 1);
    }

#[test]
    fn test_reserve_and_check() {
        let mut bus = Bus::new(MockTerminal::new());
        let hart_id = 0;
        let addr = 0x80001000;


        assert!(!bus.check_reservation(hart_id, addr));


        bus.reserve(hart_id, addr);
        assert!(bus.check_reservation(hart_id, addr));


        assert!(!bus.check_reservation(hart_id, 0x80002000));
    }

#[test]
    fn test_clear_reservation() {
        let mut bus = Bus::new(MockTerminal::new());
        let hart_id = 0;
        let addr = 0x80001000;

        bus.reserve(hart_id, addr);
        assert!(bus.check_reservation(hart_id, addr));

        bus.clear_reservation(hart_id);
        assert!(!bus.check_reservation(hart_id, addr));
    }

#[test]
    fn test_invalidate_reservations_on_write() {
        let mut bus = Bus::new(MockTerminal::new());
        let hart_id = 0;
        let addr = 0x80001000;

        bus.reserve(hart_id, addr);
        assert!(bus.check_reservation(hart_id, addr));


        bus.write32(addr, 0x12345678).unwrap();
        assert!(!bus.check_reservation(hart_id, addr));
    }

#[test]
    fn test_invalidate_does_not_affect_other_addresses() {
        let mut bus = Bus::new(MockTerminal::new());
        let hart_id = 0;
        let addr1 = 0x80001000;
        let addr2 = 0x80002000;

        bus.reserve(hart_id, addr1);


        bus.write32(addr2, 0x12345678).unwrap();
        assert!(bus.check_reservation(hart_id, addr1));
    }

#[test]
    fn test_multi_hart_reservations() {
        let mut bus = Bus::new(MockTerminal::new());
        let hart0 = 0;
        let hart1 = 1;
        let addr = 0x80001000;


        bus.reserve(hart0, addr);
        bus.reserve(hart1, addr);

        assert!(bus.check_reservation(hart0, addr));
        assert!(bus.check_reservation(hart1, addr));


        bus.write32(addr, 0xDEADBEEF).unwrap();
        assert!(!bus.check_reservation(hart0, addr));
        assert!(!bus.check_reservation(hart1, addr));
    }

#[test]
    fn test_reserve_overwrites_previous() {
        let mut bus = Bus::new(MockTerminal::new());
        let hart_id = 0;
        let addr1 = 0x80001000;
        let addr2 = 0x80002000;

        bus.reserve(hart_id, addr1);
        assert!(bus.check_reservation(hart_id, addr1));


        bus.reserve(hart_id, addr2);
        assert!(!bus.check_reservation(hart_id, addr1));
        assert!(bus.check_reservation(hart_id, addr2));
    }

#[test]
    fn test_write8_invalidates_reservation() {
        let mut bus = Bus::new(MockTerminal::new());
        bus.reserve(0, 0x80001000);
        bus.write8(0x80001000, 0xFF).unwrap();
        assert!(!bus.check_reservation(0, 0x80001000));
    }

#[test]
    fn test_write16_invalidates_reservation() {
        let mut bus = Bus::new(MockTerminal::new());
        bus.reserve(0, 0x80001000);
        bus.write16(0x80001000, 0xFFFF).unwrap();
        assert!(!bus.check_reservation(0, 0x80001000));
    }

#[test]
    fn test_write64_invalidates_reservation() {
        let mut bus = Bus::new(MockTerminal::new());
        bus.reserve(0, 0x80001000);
        bus.write64(0x80001000, 0xFFFFFFFFFFFFFFFF).unwrap();
        assert!(!bus.check_reservation(0, 0x80001000));
    }
