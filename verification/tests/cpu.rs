use nes_emulator::c6502::{
    C6502Debugger, CpuState, DebuggerReply, Operation, C6502, ADDRESS_TEST_PROGRAM,
};
use nes_emulator::mapper::{AccessType, AddressSpace, LoggedAddressSpace, Ram};

fn create_test_cpu(program: &Vec<u8>) -> C6502<LoggedAddressSpace<Ram>> {
    let mut memory = Ram::new(65536);
    for (byte, idx) in program.iter().zip(0..65536) {
        memory
            .poke(ADDRESS_TEST_PROGRAM + idx as u16, *byte)
            .unwrap();
    }
    let logged_memory = LoggedAddressSpace::new(memory);
    C6502 {
        state: CpuState {
            acc: 0,
            x: 0,
            y: 0,
            pc: ADDRESS_TEST_PROGRAM,
            sp: 0xfd,
            carry: false,
            zero: false,
            interruptd: true,
            decimal: false,
            overflow: false,
            negative: false,
            counter: 0,
            clocks: 0,
            is_tracing: false,
            clocks_to_pause: 0,
            halted: false,
            halt_code: 0,
            open_bus: 0,
        },
        mapper: logged_memory,
    }
}

#[test]
fn test_bit() {
    let program: Vec<u8> = vec![
        0xa9, 0xff, // LDA #255
        0x85, 0x01, // STA $01
        0x24, 0x01, // BIT $01
    ];
    let mut c = create_test_cpu(&program);
    c.run_instructions(3);
    assert!(c.state.overflow);
}

#[test]
fn test_subroutine() {
    let program: Vec<u8> = vec![
        0x20, 0x03, 0xC0, // JSR $C003
        0x60, // RTS
    ];
    let mut c = create_test_cpu(&program);
    c.state.is_tracing = true;
    c.run_instructions(2);
    assert_eq!(c.state.pc, 0xC003);
}

#[test]
fn test_flags() {
    let program: Vec<u8> = vec![
        0xA9, 0xFF, // LDA #$FF
        0x85, 0x01, // STA $01 = 00
        0x24, 0x01, // BIT $01 = FF
        0xa9, 0x00, // LDA #$00
        0x38, // SEC
        0x78, // SEI
        0xf8, // SED
        0x08, // PHP
        0x68, // PLA
    ];
    let mut c = create_test_cpu(&program);
    c.run_instructions(9);
    // PHP pushes the flags with bit 4 set as well; the flags themselves are 111.
    assert_eq!(c.state.acc & !0x10, 111);
    assert_eq!(c.state.acc, 0x7f);
}

#[test]
fn test_adc() {
    let program: Vec<u8> = vec![
        0xA9, 0x00, // LDA #$00
        0x69, 0x69, // ADC #$69
    ];
    let mut c = create_test_cpu(&program);
    c.set_status_register_from_byte(0x6E);
    c.run_instructions(2);
    assert_eq!(c.status_register_byte(true), 0x2c);
}

#[test]
fn test_bcc() {
    let program: Vec<u8> = vec![0x90, 0x09]; // BCC #$09
    let mut c = create_test_cpu(&program);
    c.set_status_register_from_byte(0xf9);
    assert_eq!(c.state.carry, true);
    let pc = c.state.pc;
    c.run_instructions(1);
    assert_eq!(c.state.pc - pc, 2); // Branch not taken
}

#[test]
fn test_cmp() {
    let program: Vec<u8> = vec![0xc9, 0x4d]; // CMP #$4D
    let mut c = create_test_cpu(&program);
    c.state.acc = 0x4D;
    c.set_status_register_from_byte(0x27);
    c.clock();
    assert_eq!(c.status_register_byte(true), 0x27);
}

#[test]
fn test_jsr() {
    let program: Vec<u8> = vec![
        0x20, 0x03, 0xc0, // JSR $c003
        0x68, // PLA
    ];
    let mut c = create_test_cpu(&program);
    c.run_instructions(2);
    assert_eq!(c.state.acc, 0x02);
}

#[test]
fn test_lsr() {
    let program: Vec<u8> = vec![
        0xa9, 0x01, // LDA #$01
        0x4a,
    ]; // LSR
    let mut c = create_test_cpu(&program);
    c.set_status_register_from_byte(0x65);
    c.run_instructions(2);
    assert_eq!(c.status_register_byte(true), 0x67);
}

#[test]
fn test_asl() {
    let program: Vec<u8> = vec![
        0xa9, 0x80, // LDA #$80
        0xa,
    ]; // ASL
    let mut c = create_test_cpu(&program);
    c.state.is_tracing = true;
    c.set_status_register_from_byte(0xe5);
    c.run_instructions(2);
    assert_eq!(c.state.acc, 0);
    assert_eq!(c.status_register_byte(true), 0x67);
}

#[test]
fn test_ror() {
    let program: Vec<u8> = vec![
        0xa9, 0x55, // LDA #$55
        0x6a,
    ]; // ROR
    let mut c = create_test_cpu(&program);
    c.set_status_register_from_byte(0x24);
    c.run_instructions(2);
    assert_eq!(c.state.acc, 0x2A);
    assert_eq!(c.status_register_byte(true), 0x25);
}

#[test]
fn test_sta_no_read() {
    let program: Vec<u8> = vec![
        0xa9, 0x05, // LDA #$05
        0x8d, 0x00, 0x00, // STA $0000
    ];
    let mut c = create_test_cpu(&program);
    c.run_instructions(2);
    assert_eq!(
        c.mapper.copy_log(),
        [
            (0, AccessType::Read, ADDRESS_TEST_PROGRAM + 0, 0xa9),
            (1, AccessType::Read, ADDRESS_TEST_PROGRAM + 1, 0x05),
            (2, AccessType::Read, ADDRESS_TEST_PROGRAM + 2, 0x8d),
            (3, AccessType::Read, ADDRESS_TEST_PROGRAM + 3, 0x00),
            (4, AccessType::Read, ADDRESS_TEST_PROGRAM + 4, 0x00),
            (5, AccessType::Write, 0, 5)
        ]
    );
}

fn run(program: &[u8], n: usize) -> C6502<LoggedAddressSpace<Ram>> {
    let mut c = create_test_cpu(&program.to_vec());
    c.run_instructions(n);
    c
}

#[test]
fn bit_sets_overflow_negative_and_clears_zero() {
    let c = run(&[0xa9, 0xff, 0x85, 0x01, 0x24, 0x01], 3);
    assert!(c.state.overflow);
    assert!(c.state.negative);
    assert!(!c.state.zero);
}

#[test]
fn jsr_lands_at_target_and_pushes_return_address() {
    let mut c = run(&[0x20, 0x03, 0xc0, 0x60], 1);
    assert_eq!(c.state.pc, 0xC003);
    assert_eq!(c.state.sp, 0xfb);
    assert_eq!(c.peek(0x01fd), 0xC0);
    assert_eq!(c.peek(0x01fc), 0x02);
}

#[test]
fn php_pushes_bit_five_set() {
    let mut c = run(&[0x38, 0x08], 2);
    let pushed = c.peek(0x01fd);
    assert_eq!(pushed & 0x30, 0x30);
    assert_eq!(pushed & 0xcf, 0x05);
    assert_eq!(c.pushed_status_byte(), 0x35);
}

#[test]
fn adc_without_carry_or_overflow() {
    let mut c = create_test_cpu(&vec![0x69, 0x69]);
    c.state.acc = 0x00;
    c.set_status_register_from_byte(0x6E);
    c.run_instructions(1);
    assert_eq!(c.state.acc, 0x69);
    assert_eq!(c.status_register_byte(true), 0x2C);
    assert!(!c.state.carry);
    assert!(!c.state.overflow);
    assert!(c.state.decimal);
    assert!(c.state.interruptd);
}

#[test]
fn adc_sets_overflow_when_signs_agree_and_result_differs() {
    let mut c = create_test_cpu(&vec![0x69, 0x50]);
    c.state.acc = 0x50;
    c.state.carry = false;
    c.run_instructions(1);
    assert_eq!(c.state.acc, 0xA0);
    assert!(c.state.overflow);
    assert!(!c.state.carry);
    assert!(c.state.negative);
}

#[test]
fn adc_sets_carry_past_a_byte() {
    let mut c = create_test_cpu(&vec![0x69, 0x01]);
    c.state.acc = 0xFF;
    c.state.carry = true;
    c.run_instructions(1);
    assert_eq!(c.state.acc, 0x01);
    assert!(c.state.carry);
    assert!(!c.state.overflow);
}

#[test]
fn sbc_is_adc_of_the_complement() {
    let mut c = create_test_cpu(&vec![0xe9, 0x01]);
    c.state.acc = 0x00;
    c.state.carry = true;
    c.run_instructions(1);
    assert_eq!(c.state.acc, 0xFF);
    assert!(!c.state.carry);
    assert!(c.state.negative);
    assert!(!c.state.overflow);
}

#[test]
fn ror_rotates_carry_through() {
    let mut c = create_test_cpu(&vec![0x6a]);
    c.state.acc = 0x55;
    c.set_status_register_from_byte(0x24);
    c.run_instructions(1);
    assert_eq!(c.state.acc, 0x2A);
    assert_eq!(c.status_register_byte(true), 0x25);
}

#[test]
fn rol_takes_carry_into_bit_zero() {
    let mut c = create_test_cpu(&vec![0x2a]);
    c.state.acc = 0x80;
    c.state.carry = true;
    c.run_instructions(1);
    assert_eq!(c.state.acc, 0x01);
    assert!(c.state.carry);
}

#[test]
fn compare_sets_carry_zero_negative() {
    let mut c = create_test_cpu(&vec![0xc9, 0x10, 0xc9, 0x30, 0xc9, 0x20]);
    c.state.acc = 0x20;
    c.run_instructions(1);
    assert!(c.state.carry && !c.state.zero && !c.state.negative);
    c.run_instructions(1);
    assert!(!c.state.carry && !c.state.zero && c.state.negative);
    c.run_instructions(1);
    assert!(c.state.carry && c.state.zero && !c.state.negative);
}

#[test]
fn asl_on_memory_takes_flags_from_the_result() {
    let mut c = create_test_cpu(&vec![0x06, 0x10]);
    c.poke(0x0010, 0x40);
    c.state.acc = 0x00;
    c.run_instructions(1);
    assert_eq!(c.peek(0x0010), 0x80);
    assert!(c.state.negative);
    assert!(!c.state.zero);
    assert!(!c.state.carry);
}

#[test]
fn taken_branch_costs_a_cycle_and_a_page_crossing_another() {
    let mut c = create_test_cpu(&vec![0xd0, 0x02]);
    c.state.zero = false;
    c.run_instructions(1);
    assert_eq!(c.state.pc, 0xC004);
    assert_eq!(c.state.clocks_to_pause, 2);

    let mut c = create_test_cpu(&vec![0xd0, 0x80]);
    c.state.zero = false;
    c.run_instructions(1);
    assert_eq!(c.state.pc, 0xBF82);
    assert_eq!(c.state.clocks_to_pause, 3);

    let mut c = create_test_cpu(&vec![0xd0, 0x02]);
    c.state.zero = true;
    c.run_instructions(1);
    assert_eq!(c.state.pc, 0xC002);
    assert_eq!(c.state.clocks_to_pause, 1);
}

#[test]
fn indexed_read_across_a_page_costs_a_cycle() {
    let mut c = create_test_cpu(&vec![0xbd, 0xff, 0x10, 0xbd, 0x00, 0x10]);
    c.state.x = 1;
    c.poke(0x1100, 0x77);
    c.run_instructions(1);
    assert_eq!(c.state.acc, 0x77);
    assert_eq!(c.state.clocks_to_pause, 4);
    c.run_instructions(1);
    assert_eq!(c.state.clocks_to_pause, 3);
}

#[test]
fn indirect_jump_wraps_within_the_page() {
    let mut c = create_test_cpu(&vec![0x6c, 0xff, 0x02]);
    c.poke(0x02ff, 0x34);
    c.poke(0x0200, 0x12);
    c.poke(0x0300, 0x56);
    c.run_instructions(1);
    assert_eq!(c.state.pc, 0x1234);
}

#[test]
fn zero_page_indexing_wraps() {
    let mut c = create_test_cpu(&vec![0xb5, 0xff, 0xa1, 0xff]);
    c.state.x = 2;
    c.poke(0x0001, 0x99);
    c.run_instructions(1);
    assert_eq!(c.state.acc, 0x99);
    c.state.x = 0;
    c.poke(0x00ff, 0x00);
    c.poke(0x0000, 0x03);
    c.poke(0x0300, 0x42);
    c.run_instructions(1);
    assert_eq!(c.state.acc, 0x42);
}

#[test]
fn stack_stays_in_its_page() {
    let mut c = create_test_cpu(&vec![0x48, 0x68, 0x68]);
    c.state.sp = 0x00;
    c.state.acc = 0x5a;
    c.run_instructions(1);
    assert_eq!(c.state.sp, 0xff);
    assert_eq!(c.peek(0x0100), 0x5a);
    c.run_instructions(1);
    assert_eq!(c.state.sp, 0x00);
    assert_eq!(c.state.acc, 0x5a);
}

#[test]
fn kil_halts_for_good() {
    let mut c = create_test_cpu(&vec![0x02, 0xa9, 0x05]);
    c.run_instructions(1);
    assert!(c.state.halted);
    assert_eq!(c.state.halt_code, 0x02);
    let pc = c.state.pc;
    c.run_instructions(5);
    assert!(c.state.halted);
    assert_eq!(c.state.pc, pc);
    assert_eq!(c.state.acc, 0);
}

#[test]
fn brk_and_rti() {
    let mut c = create_test_cpu(&vec![0x00]);
    c.poke(0xfffe, 0x00);
    c.poke(0xffff, 0xd0);
    c.poke(0xd000, 0x40);
    c.set_status_register_from_byte(0x01);
    c.run_instructions(1);
    assert_eq!(c.state.pc, 0xd000);
    assert!(c.state.interruptd);
    assert_eq!(c.peek(0x01fd), 0xc0);
    assert_eq!(c.peek(0x01fc), 0x01);
    assert_eq!(c.peek(0x01fb), 0x31);
    c.run_instructions(1);
    assert_eq!(c.state.pc, 0xc001);
    assert!(!c.state.interruptd);
    assert!(c.state.carry);
}

#[test]
fn nmi_and_masked_irq() {
    let mut c = create_test_cpu(&vec![0xea]);
    c.poke(0xfffa, 0x34);
    c.poke(0xfffb, 0x12);
    c.poke(0xfffe, 0x78);
    c.poke(0xffff, 0x56);
    c.state.interruptd = true;
    c.irq();
    assert_eq!(c.state.pc, 0xc000);
    c.state.interruptd = false;
    c.irq();
    assert_eq!(c.state.pc, 0x5678);
    assert!(c.state.interruptd);
    c.nmi();
    assert_eq!(c.state.pc, 0x1234);
    assert_eq!(c.peek(0x01fa), 0x56);
    assert_eq!(c.peek(0x01f9), 0x78);
    assert_eq!(c.peek(0x01f8), 0x04);
}

#[test]
fn unmapped_read_yields_open_bus() {
    let memory = Ram::new(0x100);
    let mut c = C6502::new(memory);
    assert_eq!(c.state.pc, 0);
    c.poke(0x0010, 0xab);
    assert_eq!(c.peek(0x4000), 0xab);
    assert_eq!(c.peek(0x0010), 0xab);
    c.poke(0x5000, 0x11);
    assert_eq!(c.peek(0x5000), 0x11);
    assert_eq!(c.peek(0x0011), 0x00);
}

#[test]
fn clock_pays_owed_cycles_first() {
    let mut c = create_test_cpu(&vec![0xa9, 0x07]);
    c.pause(6);
    assert_eq!(c.state.clocks_to_pause, 6);
    for _ in 0..6 {
        c.clock();
    }
    assert_eq!(c.state.acc, 0);
    assert_eq!(c.state.clocks_to_pause, 0);
    c.clock();
    assert_eq!(c.state.acc, 7);
    assert_eq!(c.state.clocks_to_pause, 1);
    assert_eq!(c.state.counter, 7);
}

#[test]
fn undocumented_operations() {
    // LAX zp, SAX zp, DCP zp, ISC zp
    let mut c = create_test_cpu(&vec![0xa7, 0x10, 0x87, 0x11, 0xc7, 0x12, 0xe7, 0x13]);
    c.poke(0x0010, 0x3c);
    c.poke(0x0012, 0x3d);
    c.poke(0x0013, 0x00);
    c.run_instructions(1);
    assert_eq!(c.state.acc, 0x3c);
    assert_eq!(c.state.x, 0x3c);
    c.run_instructions(1);
    assert_eq!(c.peek(0x0011), 0x3c);
    c.run_instructions(1);
    assert_eq!(c.peek(0x0012), 0x3c);
    assert!(c.state.zero && c.state.carry);
    c.run_instructions(1);
    assert_eq!(c.peek(0x0013), 0x01);
    assert_eq!(c.state.acc, 0x3b);
}

#[test]
fn status_byte_round_trip() {
    let mut c = create_test_cpu(&vec![0xea]);
    for v in 0..=255u8 {
        c.set_status_register_from_byte(v);
        assert_eq!(c.status_register_byte(false), v & 0xCF);
        assert_eq!(c.status_register_byte(true), (v & 0xCF) | 0x20);
    }
}

#[test]
fn debugger_prompt() {
    let mut d = C6502Debugger::new();
    assert!(!d.on_step() && !d.on_nmi() && !d.on_irq());
    assert_eq!(d.prompt(b"s\n"), DebuggerReply::Resume);
    assert!(d.on_step());
    assert_eq!(d.prompt(b"v\n"), DebuggerReply::Resume);
    assert!(d.on_nmi() && !d.on_step());
    assert_eq!(d.prompt(b"sc\n"), DebuggerReply::Resume);
    assert!(d.on_irq() && !d.on_nmi());
    assert_eq!(d.prompt(b"\n"), DebuggerReply::Resume);
    assert!(d.on_step());
    assert_eq!(d.prompt(b"c\n"), DebuggerReply::Resume);
    assert!(!d.on_step() && !d.on_nmi() && !d.on_irq());
    assert_eq!(d.prompt(b"e\n"), DebuggerReply::Quit);
    assert_eq!(d.prompt(b"what\n"), DebuggerReply::Unknown);
}

#[test]
fn a_new_processor_starts_at_the_reset_vector() {
    let mut memory = Ram::new(65536);
    memory.poke(0xfffc, 0x34).unwrap();
    memory.poke(0xfffd, 0x12).unwrap();
    let c = C6502::new(LoggedAddressSpace::new(memory));
    assert_eq!(c.state.pc, 0x1234);
    assert_eq!((c.state.acc, c.state.x, c.state.y, c.state.sp), (0, 0, 0, 0xfd));
    assert!(c.state.interruptd);
    assert!(!c.state.carry && !c.state.zero && !c.state.decimal);
    assert!(!c.state.overflow && !c.state.negative);
    assert_eq!((c.state.counter, c.state.clocks, c.state.clocks_to_pause), (0, 0, 0));
    assert!(!c.state.is_tracing && !c.state.halted);
    let log = c.mapper.copy_log();
    assert_eq!(log.len(), 2);
    assert_eq!(log[0], (0, AccessType::Read, 0xfffc, 0x34));
    assert_eq!(log[1], (1, AccessType::Read, 0xfffd, 0x12));
}

#[test]
fn combined_operations_on_an_immediate() {
    // ANC #$F0
    let mut c = create_test_cpu(&vec![0x0b, 0xf0]);
    c.state.acc = 0x8f;
    c.run_instructions(1);
    assert_eq!(c.state.acc, 0x80);
    assert!(c.state.carry && c.state.negative && !c.state.zero && !c.state.halted);
    // ALR #$0F
    let mut c = create_test_cpu(&vec![0x4b, 0x0f]);
    c.state.acc = 0xf7;
    c.run_instructions(1);
    assert_eq!(c.state.acc, 0x03);
    assert!(c.state.carry && !c.state.negative && !c.state.zero && !c.state.halted);
    // ARR #$FF with carry set
    let mut c = create_test_cpu(&vec![0x6b, 0xff]);
    c.state.acc = 0x81;
    c.state.carry = true;
    c.run_instructions(1);
    assert_eq!(c.state.acc, 0xc0);
    assert!(c.state.carry && c.state.overflow && c.state.negative && !c.state.halted);
    // AXS #$05
    let mut c = create_test_cpu(&vec![0xcb, 0x05]);
    c.state.acc = 0x0f;
    c.state.x = 0x3c;
    c.run_instructions(1);
    assert_eq!(c.state.x, 0x07);
    assert_eq!(c.state.acc, 0x0f);
    assert!(c.state.carry && !c.state.zero && !c.state.negative && !c.state.halted);
    // AXS with a borrow
    let mut c = create_test_cpu(&vec![0xcb, 0x10]);
    c.state.acc = 0x0f;
    c.state.x = 0x0c;
    c.run_instructions(1);
    assert_eq!(c.state.x, 0xfc);
    assert!(!c.state.carry && c.state.negative);
}

#[test]
fn unstable_operations_halt_with_their_opcode() {
    for opcode in [0x8bu8, 0x93, 0x9b, 0x9c, 0x9e, 0xbb] {
        let mut c = create_test_cpu(&vec![opcode, 0x00, 0x00]);
        c.run_instructions(1);
        assert!(c.state.halted);
        assert_eq!(c.state.halt_code, opcode);
    }
}

#[test]
fn a_traced_cycle_returns_its_record() {
    let mut c = create_test_cpu(&vec![0xa9, 0x07, 0xea]);
    c.state.acc = 0x11;
    c.state.x = 0x22;
    c.state.carry = true;
    assert_eq!(c.clock_traced(), None);
    assert_eq!(c.state.acc, 7);
    c.state.is_tracing = true;
    assert_eq!(c.clock_traced(), None);
    c.state.clocks_to_pause = 0;
    let record = c.clock_traced().unwrap();
    assert_eq!(record.counter, 3);
    assert_eq!(record.pc, 0xc002);
    assert_eq!(record.num_bytes, 1);
    assert_eq!(record.instruction.opcode, 0xea);
    assert_eq!(record.instruction.op, Operation::NOP);
    assert_eq!((record.acc, record.x, record.y, record.sp), (7, 0x22, 0, 0xfd));
    assert_eq!(record.status, 0x25);
}
