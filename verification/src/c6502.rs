//! The processor: a 6502 without decimal arithmetic, stepped one cycle at a
//! time against any address space.

use crate::mapper::{add_offset, make_word, next_address, offset_address, word_of, AddressSpace};
use crate::common::{clocked_times, Clocked};
use vstd::prelude::*;

verus! {

/// Where the processor finds the address of its non-maskable interrupt handler.
pub const ADDRESS_NMI: u16 = 0xFFFA;

/// Where the processor finds the address it starts at.
pub const ADDRESS_RESET: u16 = 0xFFFC;

/// Where the processor finds the address of its BRK and IRQ handler.
pub const ADDRESS_BRK: u16 = 0xFFFE;

/// Where a freshly built processor starts before `initialize`.
pub const ADDRESS_TEST_PROGRAM: u16 = 0xC000;

/// The page that holds the stack.
pub const STACK_PAGE: u16 = 0x0100;

/// What an instruction does: the documented operations, then the
/// undocumented ones.
#[allow(non_camel_case_types)]
#[derive(Copy, Clone, Debug, PartialEq, Eq, Structural)]
pub enum Operation {
    ADC,
    AND,
    ASL,
    BCC,
    BCS,
    BEQ,
    BIT,
    BMI,
    BNE,
    BPL,
    BRK,
    BVC,
    BVS,
    CLC,
    CLD,
    CLI,
    CLV,
    CMP,
    CPX,
    CPY,
    DEC,
    DEX,
    DEY,
    EOR,
    INC,
    INX,
    INY,
    JMP,
    JSR,
    LDA,
    LDX,
    LDY,
    LSR,
    NOP,
    ORA,
    PHA,
    PHP,
    PLA,
    PLP,
    ROL,
    ROR,
    RTI,
    RTS,
    SBC,
    SEC,
    SED,
    SEI,
    STA,
    STX,
    STY,
    TAX,
    TAY,
    TSX,
    TXA,
    TXS,
    TYA,
    KIL,
    ISC,
    DCP,
    AXS,
    LAS,
    LAX,
    AHX,
    SAX,
    XAA,
    SHX,
    RRA,
    TAS,
    SHY,
    ARR,
    SRE,
    ALR,
    RLA,
    ANC,
    SLO,
}

/// How an instruction finds its operand.
#[derive(Copy, Clone, Debug, PartialEq, Eq, Structural)]
pub enum AddressingMode {
    Immediate,
    ZeroPage,
    ZeroPageX,
    ZeroPageY,
    Absolute,
    AbsoluteX,
    AbsoluteY,
    Indirect,
    IndirectX,
    IndirectY,
    Relative,
    Accumulator,
    Implicit,
}

/// For each opcode byte: the operation, the addressing mode, the cycles the
/// instruction takes, and the cycles it takes more when its operand
/// address crosses a page.
pub const OPCODE_TABLE: [(Operation, AddressingMode, u8, u8); 256] = [
    // 0x
    (Operation::BRK, AddressingMode::Implicit, 7, 0),
    (Operation::ORA, AddressingMode::IndirectX, 6, 0),
    (Operation::KIL, AddressingMode::Implicit, 0, 0),
    (Operation::SLO, AddressingMode::IndirectX, 8, 0),
    (Operation::NOP, AddressingMode::ZeroPage, 3, 0),
    (Operation::ORA, AddressingMode::ZeroPage, 3, 0),
    (Operation::ASL, AddressingMode::ZeroPage, 5, 0),
    (Operation::SLO, AddressingMode::ZeroPage, 5, 0),
    (Operation::PHP, AddressingMode::Implicit, 3, 0),
    (Operation::ORA, AddressingMode::Immediate, 2, 0),
    (Operation::ASL, AddressingMode::Accumulator, 2, 0),
    (Operation::ANC, AddressingMode::Immediate, 2, 0),
    (Operation::NOP, AddressingMode::Absolute, 4, 0),
    (Operation::ORA, AddressingMode::Absolute, 4, 0),
    (Operation::ASL, AddressingMode::Absolute, 6, 0),
    (Operation::SLO, AddressingMode::Absolute, 6, 0),
    // 1x
    (Operation::BPL, AddressingMode::Relative, 2, 1),
    (Operation::ORA, AddressingMode::IndirectY, 5, 1),
    (Operation::KIL, AddressingMode::Implicit, 0, 0),
    (Operation::SLO, AddressingMode::IndirectY, 8, 0),
    (Operation::NOP, AddressingMode::ZeroPageX, 4, 0),
    (Operation::ORA, AddressingMode::ZeroPageX, 4, 0),
    (Operation::ASL, AddressingMode::ZeroPageX, 6, 0),
    (Operation::SLO, AddressingMode::ZeroPageX, 6, 0),
    (Operation::CLC, AddressingMode::Implicit, 2, 0),
    (Operation::ORA, AddressingMode::AbsoluteY, 4, 1),
    (Operation::NOP, AddressingMode::Implicit, 2, 0),
    (Operation::SLO, AddressingMode::AbsoluteY, 7, 0),
    (Operation::NOP, AddressingMode::AbsoluteX, 4, 1),
    (Operation::ORA, AddressingMode::AbsoluteX, 4, 1),
    (Operation::ASL, AddressingMode::AbsoluteX, 7, 0),
    (Operation::SLO, AddressingMode::AbsoluteX, 7, 0),
    // 2x
    (Operation::JSR, AddressingMode::Absolute, 6, 0),
    (Operation::AND, AddressingMode::IndirectX, 6, 0),
    (Operation::KIL, AddressingMode::Implicit, 0, 0),
    (Operation::RLA, AddressingMode::IndirectX, 8, 0),
    (Operation::BIT, AddressingMode::ZeroPage, 3, 0),
    (Operation::AND, AddressingMode::ZeroPage, 3, 0),
    (Operation::ROL, AddressingMode::ZeroPage, 5, 0),
    (Operation::RLA, AddressingMode::ZeroPage, 5, 0),
    (Operation::PLP, AddressingMode::Implicit, 4, 0),
    (Operation::AND, AddressingMode::Immediate, 2, 0),
    (Operation::ROL, AddressingMode::Accumulator, 2, 0),
    (Operation::ANC, AddressingMode::Immediate, 2, 0),
    (Operation::BIT, AddressingMode::Absolute, 4, 0),
    (Operation::AND, AddressingMode::Absolute, 4, 0),
    (Operation::ROL, AddressingMode::Absolute, 6, 0),
    (Operation::RLA, AddressingMode::Absolute, 6, 0),
    // 3x
    (Operation::BMI, AddressingMode::Relative, 2, 1),
    (Operation::AND, AddressingMode::IndirectY, 5, 1),
    (Operation::KIL, AddressingMode::Implicit, 0, 0),
    (Operation::RLA, AddressingMode::IndirectY, 8, 0),
    (Operation::NOP, AddressingMode::ZeroPageX, 4, 0),
    (Operation::AND, AddressingMode::ZeroPageX, 4, 0),
    (Operation::ROL, AddressingMode::ZeroPageX, 6, 0),
    (Operation::RLA, AddressingMode::ZeroPageX, 6, 0),
    (Operation::SEC, AddressingMode::Implicit, 2, 0),
    (Operation::AND, AddressingMode::AbsoluteY, 4, 1),
    (Operation::NOP, AddressingMode::Implicit, 2, 0),
    (Operation::RLA, AddressingMode::AbsoluteY, 7, 0),
    (Operation::NOP, AddressingMode::AbsoluteX, 4, 1),
    (Operation::AND, AddressingMode::AbsoluteX, 4, 1),
    (Operation::ROL, AddressingMode::AbsoluteX, 7, 0),
    (Operation::RLA, AddressingMode::AbsoluteX, 7, 0),
    // 4x
    (Operation::RTI, AddressingMode::Implicit, 6, 0),
    (Operation::EOR, AddressingMode::IndirectX, 6, 0),
    (Operation::KIL, AddressingMode::Implicit, 0, 0),
    (Operation::SRE, AddressingMode::IndirectX, 8, 0),
    (Operation::NOP, AddressingMode::ZeroPage, 3, 0),
    (Operation::EOR, AddressingMode::ZeroPage, 3, 0),
    (Operation::LSR, AddressingMode::ZeroPage, 5, 0),
    (Operation::SRE, AddressingMode::ZeroPage, 5, 0),
    (Operation::PHA, AddressingMode::Implicit, 3, 0),
    (Operation::EOR, AddressingMode::Immediate, 2, 0),
    (Operation::LSR, AddressingMode::Implicit, 2, 0),
    (Operation::ALR, AddressingMode::Immediate, 2, 0),
    (Operation::JMP, AddressingMode::Absolute, 3, 0),
    (Operation::EOR, AddressingMode::Absolute, 4, 0),
    (Operation::LSR, AddressingMode::Absolute, 6, 0),
    (Operation::SRE, AddressingMode::Absolute, 6, 0),
    // 5x
    (Operation::BVC, AddressingMode::Relative, 2, 1),
    (Operation::EOR, AddressingMode::IndirectY, 5, 1),
    (Operation::KIL, AddressingMode::Implicit, 0, 0),
    (Operation::SRE, AddressingMode::IndirectY, 8, 0),
    (Operation::NOP, AddressingMode::ZeroPageX, 4, 0),
    (Operation::EOR, AddressingMode::ZeroPageX, 4, 0),
    (Operation::LSR, AddressingMode::ZeroPageX, 6, 0),
    (Operation::SRE, AddressingMode::ZeroPageX, 6, 0),
    (Operation::CLI, AddressingMode::Implicit, 2, 0),
    (Operation::EOR, AddressingMode::AbsoluteY, 4, 1),
    (Operation::NOP, AddressingMode::Implicit, 2, 0),
    (Operation::SRE, AddressingMode::AbsoluteY, 7, 0),
    (Operation::NOP, AddressingMode::AbsoluteX, 4, 1),
    (Operation::EOR, AddressingMode::AbsoluteX, 4, 1),
    (Operation::LSR, AddressingMode::AbsoluteX, 7, 0),
    (Operation::SRE, AddressingMode::AbsoluteX, 7, 0),
    // 6x
    (Operation::RTS, AddressingMode::Implicit, 6, 0),
    (Operation::ADC, AddressingMode::IndirectX, 6, 0),
    (Operation::KIL, AddressingMode::Implicit, 0, 0),
    (Operation::RRA, AddressingMode::IndirectX, 8, 0),
    (Operation::NOP, AddressingMode::ZeroPage, 3, 0),
    (Operation::ADC, AddressingMode::ZeroPage, 3, 0),
    (Operation::ROR, AddressingMode::ZeroPage, 5, 0),
    (Operation::RRA, AddressingMode::ZeroPage, 5, 0),
    (Operation::PLA, AddressingMode::Implicit, 4, 0),
    (Operation::ADC, AddressingMode::Immediate, 2, 0),
    (Operation::ROR, AddressingMode::Implicit, 2, 0),
    (Operation::ARR, AddressingMode::Immediate, 2, 0),
    (Operation::JMP, AddressingMode::Indirect, 5, 0),
    (Operation::ADC, AddressingMode::Absolute, 4, 0),
    (Operation::ROR, AddressingMode::Absolute, 6, 0),
    (Operation::RRA, AddressingMode::Absolute, 6, 0),
    // 7x
    (Operation::BVS, AddressingMode::Relative, 2, 1),
    (Operation::ADC, AddressingMode::IndirectY, 5, 1),
    (Operation::KIL, AddressingMode::Implicit, 0, 0),
    (Operation::RRA, AddressingMode::IndirectY, 8, 0),
    (Operation::NOP, AddressingMode::ZeroPageX, 4, 0),
    (Operation::ADC, AddressingMode::ZeroPageX, 4, 0),
    (Operation::ROR, AddressingMode::ZeroPageX, 6, 0),
    (Operation::RRA, AddressingMode::ZeroPageX, 6, 0),
    (Operation::SEI, AddressingMode::Implicit, 2, 0),
    (Operation::ADC, AddressingMode::AbsoluteY, 4, 1),
    (Operation::NOP, AddressingMode::Implicit, 2, 0),
    (Operation::RRA, AddressingMode::AbsoluteY, 7, 0),
    (Operation::NOP, AddressingMode::AbsoluteX, 4, 1),
    (Operation::ADC, AddressingMode::AbsoluteX, 4, 1),
    (Operation::ROR, AddressingMode::AbsoluteX, 7, 0),
    (Operation::RRA, AddressingMode::AbsoluteX, 7, 0),
    // 8x
    (Operation::NOP, AddressingMode::Immediate, 2, 0),
    (Operation::STA, AddressingMode::IndirectX, 6, 0),
    (Operation::NOP, AddressingMode::Immediate, 2, 0),
    (Operation::SAX, AddressingMode::IndirectX, 6, 0),
    (Operation::STY, AddressingMode::ZeroPage, 3, 0),
    (Operation::STA, AddressingMode::ZeroPage, 3, 0),
    (Operation::STX, AddressingMode::ZeroPage, 3, 0),
    (Operation::SAX, AddressingMode::ZeroPage, 3, 0),
    (Operation::DEY, AddressingMode::Implicit, 2, 0),
    (Operation::NOP, AddressingMode::Immediate, 2, 0),
    (Operation::TXA, AddressingMode::Implicit, 2, 0),
    (Operation::XAA, AddressingMode::Immediate, 2, 1),
    (Operation::STY, AddressingMode::Absolute, 4, 0),
    (Operation::STA, AddressingMode::Absolute, 4, 0),
    (Operation::STX, AddressingMode::Absolute, 4, 0),
    (Operation::SAX, AddressingMode::Absolute, 4, 0),
    // 9x
    (Operation::BCC, AddressingMode::Relative, 2, 1),
    (Operation::STA, AddressingMode::IndirectY, 6, 0),
    (Operation::KIL, AddressingMode::Implicit, 0, 0),
    (Operation::AHX, AddressingMode::IndirectY, 6, 0),
    (Operation::STY, AddressingMode::ZeroPageX, 4, 0),
    (Operation::STA, AddressingMode::ZeroPageX, 4, 0),
    (Operation::STX, AddressingMode::ZeroPageY, 4, 0),
    (Operation::SAX, AddressingMode::ZeroPageY, 4, 0),
    (Operation::TYA, AddressingMode::Implicit, 2, 0),
    (Operation::STA, AddressingMode::AbsoluteY, 5, 0),
    (Operation::TXS, AddressingMode::Implicit, 2, 0),
    (Operation::TAS, AddressingMode::AbsoluteY, 5, 0),
    (Operation::SHY, AddressingMode::AbsoluteX, 5, 0),
    (Operation::STA, AddressingMode::AbsoluteX, 5, 0),
    (Operation::SHX, AddressingMode::AbsoluteY, 5, 0),
    (Operation::AHX, AddressingMode::AbsoluteY, 5, 0),
    // Ax
    (Operation::LDY, AddressingMode::Immediate, 2, 0),
    (Operation::LDA, AddressingMode::IndirectX, 6, 0),
    (Operation::LDX, AddressingMode::Immediate, 2, 0),
    (Operation::LAX, AddressingMode::IndirectX, 6, 0),
    (Operation::LDY, AddressingMode::ZeroPage, 3, 0),
    (Operation::LDA, AddressingMode::ZeroPage, 3, 0),
    (Operation::LDX, AddressingMode::ZeroPage, 3, 0),
    (Operation::LAX, AddressingMode::ZeroPage, 3, 0),
    (Operation::TAY, AddressingMode::Implicit, 2, 0),
    (Operation::LDA, AddressingMode::Immediate, 2, 0),
    (Operation::TAX, AddressingMode::Implicit, 2, 0),
    (Operation::LAX, AddressingMode::Immediate, 2, 0),
    (Operation::LDY, AddressingMode::Absolute, 4, 0),
    (Operation::LDA, AddressingMode::Absolute, 4, 0),
    (Operation::LDX, AddressingMode::Absolute, 4, 0),
    (Operation::LAX, AddressingMode::Absolute, 4, 0),
    // Bx
    (Operation::BCS, AddressingMode::Relative, 2, 1),
    (Operation::LDA, AddressingMode::IndirectY, 5, 1),
    (Operation::KIL, AddressingMode::Implicit, 0, 0),
    (Operation::LAX, AddressingMode::IndirectY, 5, 1),
    (Operation::LDY, AddressingMode::ZeroPageX, 4, 0),
    (Operation::LDA, AddressingMode::ZeroPageX, 4, 0),
    (Operation::LDX, AddressingMode::ZeroPageY, 4, 0),
    (Operation::LAX, AddressingMode::ZeroPageY, 4, 0),
    (Operation::CLV, AddressingMode::Implicit, 2, 0),
    (Operation::LDA, AddressingMode::AbsoluteY, 4, 1),
    (Operation::TSX, AddressingMode::Implicit, 2, 0),
    (Operation::LAS, AddressingMode::AbsoluteY, 4, 1),
    (Operation::LDY, AddressingMode::AbsoluteX, 4, 1),
    (Operation::LDA, AddressingMode::AbsoluteX, 4, 1),
    (Operation::LDX, AddressingMode::AbsoluteY, 4, 1),
    (Operation::LAX, AddressingMode::AbsoluteY, 4, 1),
    // Cx
    (Operation::CPY, AddressingMode::Immediate, 2, 0),
    (Operation::CMP, AddressingMode::IndirectX, 6, 0),
    (Operation::NOP, AddressingMode::Immediate, 2, 0),
    (Operation::DCP, AddressingMode::IndirectX, 8, 0),
    (Operation::CPY, AddressingMode::ZeroPage, 3, 0),
    (Operation::CMP, AddressingMode::ZeroPage, 3, 0),
    (Operation::DEC, AddressingMode::ZeroPage, 5, 0),
    (Operation::DCP, AddressingMode::ZeroPage, 5, 0),
    (Operation::INY, AddressingMode::Implicit, 2, 0),
    (Operation::CMP, AddressingMode::Immediate, 2, 0),
    (Operation::DEX, AddressingMode::Implicit, 2, 0),
    (Operation::AXS, AddressingMode::Immediate, 2, 0),
    (Operation::CPY, AddressingMode::Absolute, 4, 0),
    (Operation::CMP, AddressingMode::Absolute, 4, 0),
    (Operation::DEC, AddressingMode::Absolute, 6, 0),
    (Operation::DCP, AddressingMode::Absolute, 6, 0),
    // Dx
    (Operation::BNE, AddressingMode::Relative, 2, 1),
    (Operation::CMP, AddressingMode::IndirectY, 5, 1),
    (Operation::KIL, AddressingMode::Implicit, 0, 0),
    (Operation::DCP, AddressingMode::IndirectY, 8, 0),
    (Operation::NOP, AddressingMode::ZeroPageX, 4, 0),
    (Operation::CMP, AddressingMode::ZeroPageX, 4, 0),
    (Operation::DEC, AddressingMode::ZeroPageX, 6, 0),
    (Operation::DCP, AddressingMode::ZeroPageX, 6, 0),
    (Operation::CLD, AddressingMode::Implicit, 2, 0),
    (Operation::CMP, AddressingMode::AbsoluteY, 4, 1),
    (Operation::NOP, AddressingMode::Implicit, 2, 0),
    (Operation::DCP, AddressingMode::AbsoluteY, 7, 0),
    (Operation::NOP, AddressingMode::AbsoluteX, 4, 1),
    (Operation::CMP, AddressingMode::AbsoluteX, 4, 1),
    (Operation::DEC, AddressingMode::AbsoluteX, 7, 0),
    (Operation::DCP, AddressingMode::AbsoluteX, 7, 0),
    // Ex
    (Operation::CPX, AddressingMode::Immediate, 2, 0),
    (Operation::SBC, AddressingMode::IndirectX, 6, 0),
    (Operation::NOP, AddressingMode::Immediate, 2, 0),
    (Operation::ISC, AddressingMode::IndirectX, 8, 0),
    (Operation::CPX, AddressingMode::ZeroPage, 3, 0),
    (Operation::SBC, AddressingMode::ZeroPage, 3, 0),
    (Operation::INC, AddressingMode::ZeroPage, 5, 0),
    (Operation::ISC, AddressingMode::ZeroPage, 5, 0),
    (Operation::INX, AddressingMode::Implicit, 2, 0),
    (Operation::SBC, AddressingMode::Immediate, 2, 0),
    (Operation::NOP, AddressingMode::Implicit, 2, 0),
    (Operation::SBC, AddressingMode::Immediate, 2, 0),
    (Operation::CPX, AddressingMode::Absolute, 4, 0),
    (Operation::SBC, AddressingMode::Absolute, 4, 0),
    (Operation::INC, AddressingMode::Absolute, 6, 0),
    (Operation::ISC, AddressingMode::Absolute, 6, 0),
    // Fx
    (Operation::BEQ, AddressingMode::Relative, 2, 1),
    (Operation::SBC, AddressingMode::IndirectY, 5, 1),
    (Operation::KIL, AddressingMode::Implicit, 0, 0),
    (Operation::ISC, AddressingMode::IndirectY, 8, 0),
    (Operation::NOP, AddressingMode::ZeroPageX, 4, 0),
    (Operation::SBC, AddressingMode::ZeroPageX, 4, 0),
    (Operation::INC, AddressingMode::ZeroPageX, 6, 0),
    (Operation::ISC, AddressingMode::ZeroPageX, 6, 0),
    (Operation::SED, AddressingMode::Implicit, 2, 0),
    (Operation::SBC, AddressingMode::AbsoluteY, 4, 1),
    (Operation::NOP, AddressingMode::Implicit, 2, 0),
    (Operation::ISC, AddressingMode::AbsoluteY, 7, 0),
    (Operation::NOP, AddressingMode::AbsoluteX, 4, 1),
    (Operation::SBC, AddressingMode::AbsoluteX, 4, 1),
    (Operation::INC, AddressingMode::AbsoluteX, 7, 0),
    (Operation::ISC, AddressingMode::AbsoluteX, 7, 0),
];


/// The registers, flags and counters of the processor.
#[derive(Copy, Clone, Debug, PartialEq, Eq, Structural)]
pub struct CpuState {
    pub acc: u8,
    pub x: u8,
    pub y: u8,
    pub pc: u16,
    /// The stack pointer: the next free slot is at `$0100 + sp`.
    pub sp: u8,
    pub carry: bool,
    pub zero: bool,
    pub interruptd: bool,
    pub decimal: bool,
    pub overflow: bool,
    pub negative: bool,
    /// Cycles clocked so far, modulo the width of the counter.
    pub counter: u64,
    pub clocks: u64,
    pub is_tracing: bool,
    /// Cycles still owed before the next instruction starts.
    pub clocks_to_pause: u16,
    /// Set for good once an instruction without defined behaviour was met.
    pub halted: bool,
    /// The opcode that halted the processor; zero until then.
    pub halt_code: u8,
    /// The last byte that was driven on the data bus.
    pub open_bus: u8,
}

/// The state of a processor together with the state of its bus.
pub struct Machine<V> {
    pub cpu: CpuState,
    pub bus: V,
}

/// A processor and the address space it reads and writes.
pub struct C6502<M: AddressSpace> {
    pub state: CpuState,
    pub mapper: M,
}

impl<M: AddressSpace> View for C6502<M> {
    type V = Machine<M::V>;

    open spec fn view(&self) -> Machine<M::V> {
        Machine { cpu: self.state, bus: self.mapper@ }
    }
}

/// The state of a processor at power-on, before the reset vector is read.
pub open spec fn power_on_state() -> CpuState {
    CpuState {
        acc: 0,
        x: 0,
        y: 0,
        pc: 0,
        sp: 0xfd,
        carry: false,
        zero: false,
        interruptd: true,
        decimal: false,
        overflow: false,
        negative: false,
        counter: 0,
        clocks: 0,
        is_tracing: false,
        clocks_to_pause: 0,
        halted: false,
        halt_code: 0,
        open_bus: 0,
    }
}

/// Whether a byte is negative when read as a signed number.
pub open spec fn negative_byte(v: u8) -> bool {
    v >= 128
}

/// Whether a byte is negative when read as a signed number.
pub fn is_negative(v: u8) -> (r: bool)
    ensures
        r == negative_byte(v),
{
    v >= 128
}

/// `s` with the zero and negative flags taken from the result `v`.
pub open spec fn with_result_flags(s: CpuState, v: u8) -> CpuState {
    CpuState { zero: v == 0, negative: v >= 128, ..s }
}

/// One if the flag is set, else zero.
pub open spec fn flag_bit(f: bool) -> int {
    if f {
        1
    } else {
        0
    }
}

/// The status register as a byte: carry, zero, interrupt-disable, decimal
/// in bits 0 to 3, bit 4 clear, bit 5 set when an instruction looks at the
/// register, overflow and negative in bits 6 and 7.
pub open spec fn status_byte(s: CpuState, is_instruction: bool) -> u8 {
    (flag_bit(s.carry) + 2 * flag_bit(s.zero) + 4 * flag_bit(s.interruptd) + 8 * flag_bit(
        s.decimal,
    ) + 32 * flag_bit(is_instruction) + 64 * flag_bit(s.overflow) + 128 * flag_bit(
        s.negative,
    )) as u8
}

/// The status byte that an instruction pushes: the flags, with bits 4 and
/// 5 both set.
pub open spec fn pushed_status(s: CpuState) -> u8 {
    (status_byte(s, true) + 16) as u8
}

/// The status byte pushed on entry to an interrupt handler: bits 4 and 5
/// are set where an instruction entered it, and clear where a device did.
pub open spec fn entry_status(s: CpuState, is_instruction: bool) -> u8 {
    if is_instruction {
        pushed_status(s)
    } else {
        status_byte(s, false)
    }
}

/// `s` with its six flags taken from the status byte `v`; bits 4 and 5 are ignored.
pub open spec fn with_status(s: CpuState, v: u8) -> CpuState {
    CpuState {
        carry: v % 2 == 1,
        zero: (v / 2) % 2 == 1,
        interruptd: (v / 4) % 2 == 1,
        decimal: (v / 8) % 2 == 1,
        overflow: (v / 64) % 2 == 1,
        negative: v >= 128,
        ..s
    }
}

/// Add with carry, binary mode: the accumulator becomes the low byte of
/// `acc + v + carry`, carry is set when that sum exceeds 255, overflow when
/// both operands have one sign and the result the other.
pub open spec fn adc_state(s: CpuState, v: u8) -> CpuState {
    let sum = s.acc + v + flag_bit(s.carry);
    let result = (sum % 256) as u8;
    with_result_flags(
        CpuState {
            acc: result,
            carry: sum > 255,
            overflow: (s.acc >= 128) == (v >= 128) && (result >= 128) != (s.acc >= 128),
            ..s
        },
        result,
    )
}

/// Subtract with borrow: add with carry of the complement of `v`, so that
/// carry afterwards means that no borrow was needed.
pub open spec fn sbc_state(s: CpuState, v: u8) -> CpuState {
    adc_state(s, (255 - v) as u8)
}

/// The state after comparing register value `a` with `m`.
pub open spec fn compare_state(s: CpuState, a: u8, m: u8) -> CpuState {
    CpuState { carry: a >= m, zero: a == m, negative: ((a - m) % 256) >= 128, ..s }
}

/// The state after BIT of `v`: negative and overflow are bits 7 and 6 of
/// `v`, zero says whether `v` and the accumulator share no bit.
pub open spec fn bit_state(s: CpuState, v: u8) -> CpuState {
    CpuState { negative: v >= 128, overflow: (v / 64) % 2 == 1, zero: (v & s.acc) == 0, ..s }
}

/// `v` shifted left by one, within a byte.
pub open spec fn shifted_left(v: u8) -> u8 {
    ((v * 2) % 256) as u8
}

/// `v` shifted right by one.
pub open spec fn shifted_right(v: u8) -> u8 {
    v / 2
}

/// `v` rotated left through the carry `c`.
pub open spec fn rotated_left(v: u8, c: bool) -> u8 {
    ((v * 2) % 256 + flag_bit(c)) as u8
}

/// `v` rotated right through the carry `c`.
pub open spec fn rotated_right(v: u8, c: bool) -> u8 {
    (v / 2 + 128 * flag_bit(c)) as u8
}

/// `v + 1` within a byte.
pub open spec fn incremented(v: u8) -> u8 {
    ((v + 1) % 256) as u8
}

/// `v - 1` within a byte.
pub open spec fn decremented(v: u8) -> u8 {
    ((v + 255) % 256) as u8
}

/// Whether two addresses lie on different 256-byte pages.
pub open spec fn pages_differ(ptr1: u16, ptr2: u16) -> bool {
    ptr1 / 256 != ptr2 / 256
}

/// The address a branch with operand `v` goes to from `pc`: `pc` moved by
/// `v` read as a signed byte, within sixteen bits.
pub open spec fn branch_target(pc: u16, v: u8) -> u16 {
    ((pc + (if v >= 128 {
        v - 256
    } else {
        v as int
    })) % 0x1_0000) as u16
}

/// `a + b`, held at the largest value a pause counter can take.
pub open spec fn pause_sum(a: u16, b: int) -> u16 {
    if a + b > 0xFFFF {
        0xFFFFu16
    } else {
        (a + b) as u16
    }
}

/// The state after a taken branch with operand `v`: one more cycle is
/// owed, and a second one when the target lies on another page.
pub open spec fn branch_state(s: CpuState, v: u8) -> CpuState {
    CpuState {
        pc: branch_target(s.pc, v),
        clocks_to_pause: pause_sum(
            s.clocks_to_pause,
            if pages_differ(branch_target(s.pc, v), s.pc) {
                2
            } else {
                1
            },
        ),
        ..s
    }
}

/// The state after a branch with operand `v` that is taken only if `taken`.
pub open spec fn branch_if(s: CpuState, taken: bool, v: u8) -> CpuState {
    if taken {
        branch_state(s, v)
    } else {
        s
    }
}


/// A read of `ptr`: the byte on the bus afterwards, which is the byte
/// mapped there or, where nothing is mapped, the byte the bus held
/// before; and the machine after the read.
pub open spec fn m_read<M: AddressSpace>(m: Machine<M::V>, ptr: u16) -> (u8, Machine<M::V>) {
    let v = if M::maps(m.bus, ptr) {
        M::value_at(m.bus, ptr)
    } else {
        m.cpu.open_bus
    };
    (v, Machine { cpu: CpuState { open_bus: v, ..m.cpu }, bus: M::after_peek(m.bus, ptr) })
}

/// The machine after `v` was written to `ptr`. Where nothing is mapped the
/// bus decides what becomes of the write; the byte stays on the data bus
/// either way.
pub open spec fn m_write<M: AddressSpace>(m: Machine<M::V>, ptr: u16, v: u8) -> Machine<M::V> {
    Machine { cpu: CpuState { open_bus: v, ..m.cpu }, bus: M::after_poke(m.bus, ptr, v) }
}

/// Two reads, of `lo` and then of `hi`, joined into a little-endian word.
pub open spec fn m_read_pair<M: AddressSpace>(m: Machine<M::V>, lo: u16, hi: u16) -> (
    u16,
    Machine<M::V>,
) {
    let (l, m1) = m_read::<M>(m, lo);
    let (h, m2) = m_read::<M>(m1, hi);
    (word_of(l, h), m2)
}

/// The address after `ptr` on the same page.
pub open spec fn next_on_page(ptr: u16) -> u16 {
    ((ptr / 256) * 256 + (ptr % 256 + 1) % 256) as u16
}

/// The machine after `v` was pushed: written to the slot `sp` names, and
/// `sp` moved down by one within the stack page.
pub open spec fn m_push<M: AddressSpace>(m: Machine<M::V>, v: u8) -> Machine<M::V> {
    let m1 = m_write::<M>(m, (STACK_PAGE + m.cpu.sp) as u16, v);
    Machine { cpu: CpuState { sp: decremented(m.cpu.sp), ..m1.cpu }, bus: m1.bus }
}

/// A pull: `sp` moves up by one within the stack page, and the slot it then
/// names is read.
pub open spec fn m_pop<M: AddressSpace>(m: Machine<M::V>) -> (u8, Machine<M::V>) {
    let sp = incremented(m.cpu.sp);
    m_read::<M>(
        Machine { cpu: CpuState { sp: sp, ..m.cpu }, bus: m.bus },
        (STACK_PAGE + sp) as u16,
    )
}

/// The machine after the word `v` was pushed, high byte first.
pub open spec fn m_push16<M: AddressSpace>(m: Machine<M::V>, v: u16) -> Machine<M::V> {
    m_push::<M>(m_push::<M>(m, (v / 256) as u8), (v % 256) as u8)
}

/// A pull of a word, low byte first.
pub open spec fn m_pop16<M: AddressSpace>(m: Machine<M::V>) -> (u16, Machine<M::V>) {
    let (l, m1) = m_pop::<M>(m);
    let (h, m2) = m_pop::<M>(m1);
    (word_of(l, h), m2)
}

/// `m` with the processor state replaced.
pub open spec fn with_cpu<V>(m: Machine<V>, cpu: CpuState) -> Machine<V> {
    Machine { cpu: cpu, bus: m.bus }
}

/// Computes [`indexed`].
pub fn index_address(base: u16, index: u8) -> (r: u16)
    ensures
        r == indexed(base, index),
{
    base.wrapping_add(index as u16)
}

/// Computes [`zero_page_indexed`].
pub fn index_zero_page(base: u8, index: u8) -> (r: u8)
    ensures
        r == zero_page_indexed(base, index),
{
    base.wrapping_add(index)
}

/// Computes [`offset_pc`].
pub fn advance_pc(pc: u16, n: u16) -> (r: u16)
    ensures
        r == offset_pc(pc, n),
{
    pc.wrapping_add(n)
}

/// Adds the cycles an instruction of `num_clocks` cycles takes beyond its
/// first to the cycles owed.
pub fn add_pause(owed: u16, num_clocks: u8) -> (r: u16)
    ensures
        r == pause_sum(owed, cycles_after_first(num_clocks)),
{
    let extra: u16 = if num_clocks > 0 {
        (num_clocks - 1) as u16
    } else {
        0
    };
    owed.saturating_add(extra)
}

/// The signed offset a branch operand stands for.
pub fn branch_offset(v: u8) -> (os: i16)
    ensures
        os == (if v >= 128 {
            v - 256
        } else {
            v as int
        }),
{
    if v >= 128 {
        v as i16 - 256
    } else {
        v as i16
    }
}

impl<M: AddressSpace> C6502<M> {
    /// A processor at power-on on the bus `mapper`: the registers are
    /// cleared, the stack pointer stands at `$FD`, interrupts are disabled,
    /// and the program counter was read from the reset vector.
    pub fn new(mapper: M) -> (r: C6502<M>)
        ensures
            r@ == m_reset::<M>(Machine { cpu: power_on_state(), bus: mapper@ }),
    {
        let mut cpu = C6502 {
            state: CpuState {
                acc: 0,
                x: 0,
                y: 0,
                pc: 0,
                sp: 0xfd,
                carry: false,
                zero: false,
                interruptd: true,
                decimal: false,
                overflow: false,
                negative: false,
                counter: 0,
                clocks: 0,
                is_tracing: false,
                clocks_to_pause: 0,
                halted: false,
                halt_code: 0,
                open_bus: 0,
            },
            mapper: mapper,
        };
        cpu.initialize();
        cpu
    }

    /// Loads the program counter from the reset vector.
    pub fn initialize(&mut self)
        ensures
            final(self)@ == m_reset::<M>(old(self)@),
    {
        self.state.pc = self.peek16(ADDRESS_RESET);
    }

    /// Reads `ptr` from the bus; an unmapped address yields the byte the
    /// data bus still holds.
    pub fn peek(&mut self, ptr: u16) -> (v: u8)
        ensures
            (v, final(self)@) == m_read::<M>(old(self)@, ptr),
    {
        let v = match self.mapper.peek(ptr) {
            Ok(v) => v,
            Err(_) => self.state.open_bus,
        };
        self.state.open_bus = v;
        v
    }

    /// Writes `v` to `ptr` on the bus.
    pub fn poke(&mut self, ptr: u16, v: u8)
        ensures
            final(self)@ == m_write::<M>(old(self)@, ptr, v),
    {
        let _ = self.mapper.poke(ptr, v);
        self.state.open_bus = v;
    }

    /// Reads the little-endian word at `ptr`.
    pub fn peek16(&mut self, ptr: u16) -> (r: u16)
        ensures
            (r, final(self)@) == m_read_pair::<M>(old(self)@, ptr, next_address(ptr)),
    {
        let low = self.peek(ptr);
        let high = self.peek(ptr.wrapping_add(1));
        make_word(low, high)
    }

    /// Reads the byte at `ptr + os`.
    pub fn peek_offset(&mut self, ptr: u16, os: i16) -> (v: u8)
        ensures
            (v, final(self)@) == m_read::<M>(old(self)@, offset_address(ptr, os)),
    {
        self.peek(add_offset(ptr, os))
    }

    /// Reads the little-endian word at `ptr + os`.
    pub fn peek_offset16(&mut self, ptr: u16, os: i16) -> (r: u16)
        ensures
            (r, final(self)@) == m_read_pair::<M>(
                old(self)@,
                offset_address(ptr, os),
                next_address(offset_address(ptr, os)),
            ),
    {
        self.peek16(add_offset(ptr, os))
    }

    /// Writes `v` to `ptr + os`.
    pub fn poke_offset(&mut self, ptr: u16, os: i16, v: u8)
        ensures
            final(self)@ == m_write::<M>(old(self)@, offset_address(ptr, os), v),
    {
        self.poke(add_offset(ptr, os), v)
    }

    /// Reads a word from the zero page: the high byte comes from
    /// `(ptr + 1) mod 256`.
    pub fn peek_zero16(&mut self, ptr: u8) -> (r: u16)
        ensures
            (r, final(self)@) == m_read_pair::<M>(
                old(self)@,
                ptr as u16,
                zero_page_indexed(ptr, 1),
            ),
    {
        let lsb = self.peek(ptr as u16);
        let msb = self.peek(index_zero_page(ptr, 1) as u16);
        make_word(lsb, msb)
    }

    /// Reads a word whose high byte comes from the same page as the low
    /// byte, as an indirect jump does.
    pub fn peek16_pagewrap(&mut self, ptr: u16) -> (r: u16)
        ensures
            (r, final(self)@) == m_read_pair::<M>(old(self)@, ptr, next_on_page(ptr)),
    {
        let lsb = self.peek(ptr);
        let msb = self.peek((ptr / 256) * 256 + (ptr % 256 + 1) % 256);
        make_word(lsb, msb)
    }

    /// Whether two addresses lie on different pages.
    pub fn crossed_page_boundary(ptr1: u16, ptr2: u16) -> (r: bool)
        ensures
            r == pages_differ(ptr1, ptr2),
    {
        (ptr1 / 256) != (ptr2 / 256)
    }

    /// Pushes `v` on the stack.
    pub fn push_stack(&mut self, v: u8)
        ensures
            final(self)@ == m_push::<M>(old(self)@, v),
    {
        let sp = self.state.sp;
        self.poke(STACK_PAGE + sp as u16, v);
        self.state.sp = sp.wrapping_sub(1);
    }

    /// Pulls a byte from the stack.
    pub fn pop_stack(&mut self) -> (v: u8)
        ensures
            (v, final(self)@) == m_pop::<M>(old(self)@),
    {
        self.state.sp = self.state.sp.wrapping_add(1);
        self.peek(STACK_PAGE + self.state.sp as u16)
    }

    /// Pushes a word on the stack, high byte first.
    pub fn push_stack16(&mut self, v: u16)
        ensures
            final(self)@ == m_push16::<M>(old(self)@, v),
    {
        self.push_stack((v / 256) as u8);
        self.push_stack((v % 256) as u8);
    }

    /// Pulls a word from the stack, low byte first.
    pub fn pop_stack16(&mut self) -> (r: u16)
        ensures
            (r, final(self)@) == m_pop16::<M>(old(self)@),
    {
        let lsb = self.pop_stack();
        let msb = self.pop_stack();
        make_word(lsb, msb)
    }

    /// Takes the zero and negative flags from `v`.
    pub fn update_result_flags(&mut self, v: u8)
        ensures
            final(self)@ == with_cpu(old(self)@, with_result_flags(old(self)@.cpu, v)),
    {
        self.state.zero = v == 0;
        self.state.negative = is_negative(v);
    }

    /// Takes the zero and negative flags from the accumulator.
    pub fn update_accumulator_flags(&mut self)
        ensures
            final(self)@ == with_cpu(old(self)@, with_result_flags(old(self)@.cpu, old(self)@.cpu.acc)),
    {
        let x = self.state.acc;
        self.update_result_flags(x);
    }

    /// The flags as a status byte; bit 5 is set when an instruction asks.
    pub fn status_register_byte(&self, is_instruction: bool) -> (r: u8)
        ensures
            r == status_byte(self@.cpu, is_instruction),
    {
        let mut result: u8 = 0;
        if self.state.carry {
            result = result + 1;
        }
        if self.state.zero {
            result = result + 2;
        }
        if self.state.interruptd {
            result = result + 4;
        }
        if self.state.decimal {
            result = result + 8;
        }
        if is_instruction {
            result = result + 32;
        }
        if self.state.overflow {
            result = result + 64;
        }
        if self.state.negative {
            result = result + 128;
        }
        result
    }

    /// The status byte that PHP and BRK push: bits 4 and 5 are both set.
    pub fn pushed_status_byte(&self) -> (r: u8)
        ensures
            r == pushed_status(self@.cpu),
            r & 0x30 == 0x30,
            r & 0xCF == status_byte(self@.cpu, false),
    {
        let flags = self.status_register_byte(false);
        proof {
            lemma_status_bits(self.state);
            assert(flags & 0x30 == 0 ==> (flags + 48) as u8 & 0x30 == 0x30 && (flags + 48) as u8
                & 0xCF == flags) by (bit_vector);
        }
        flags + 48
    }

    /// Sets the six flags from a status byte.
    pub fn set_status_register_from_byte(&mut self, v: u8)
        ensures
            final(self)@ == with_cpu(old(self)@, with_status(old(self)@.cpu, v)),
    {
        self.state.carry = v % 2 == 1;
        self.state.zero = (v / 2) % 2 == 1;
        self.state.interruptd = (v / 4) % 2 == 1;
        self.state.decimal = (v / 8) % 2 == 1;
        self.state.overflow = (v / 64) % 2 == 1;
        self.state.negative = v >= 128;
    }

    /// Replaces the registers, flags and counters.
    pub fn set_state(&mut self, state: CpuState)
        ensures
            final(self)@ == with_cpu(old(self)@, state),
    {
        self.state = state;
    }

    /// Owes `cycles` more cycles before the next instruction.
    pub fn stall(&mut self, cycles: u16)
        ensures
            final(self)@ == with_cpu(
                old(self)@,
                CpuState {
                    clocks_to_pause: pause_sum(old(self)@.cpu.clocks_to_pause, cycles as int),
                    ..old(self)@.cpu
                },
            ),
    {
        self.state.clocks_to_pause = self.state.clocks_to_pause.saturating_add(cycles);
    }

    /// Owes `num_clocks` cycles before the next instruction.
    pub fn pause(&mut self, num_clocks: u16)
        ensures
            final(self)@ == with_cpu(
                old(self)@,
                CpuState { clocks_to_pause: num_clocks, ..old(self)@.cpu },
            ),
    {
        self.state.clocks_to_pause = num_clocks;
    }
}


/// The state after the accumulator was loaded with `v`.
pub open spec fn load_acc_state(s: CpuState, v: u8) -> CpuState {
    with_result_flags(CpuState { acc: v, ..s }, v)
}

/// The state after ASL of `v`: carry takes bit 7, the flags follow the result.
pub open spec fn asl_state(s: CpuState, v: u8) -> CpuState {
    with_result_flags(CpuState { carry: v >= 128, ..s }, shifted_left(v))
}

/// The state after LSR of `v`: carry takes bit 0, the flags follow the result.
pub open spec fn lsr_state(s: CpuState, v: u8) -> CpuState {
    with_result_flags(CpuState { carry: v % 2 == 1, ..s }, shifted_right(v))
}

/// The state after ROL of `v`: carry takes bit 7, the flags follow the result.
pub open spec fn rol_state(s: CpuState, v: u8) -> CpuState {
    with_result_flags(CpuState { carry: v >= 128, ..s }, rotated_left(v, s.carry))
}

/// The state after ANC of `v`.
pub open spec fn anc_state(s: CpuState, v: u8) -> CpuState {
    load_acc_state(CpuState { carry: (s.acc & v) >= 128, ..s }, s.acc & v)
}

/// The state after ALR of `v`.
pub open spec fn alr_state(s: CpuState, v: u8) -> CpuState {
    load_acc_state(CpuState { carry: (s.acc & v) % 2 == 1, ..s }, shifted_right(s.acc & v))
}

/// The state after ARR of `v`.
pub open spec fn arr_state(s: CpuState, v: u8) -> CpuState {
    let r = rotated_right(s.acc & v, s.carry);
    load_acc_state(
        CpuState {
            carry: (r / 64) % 2 == 1,
            overflow: ((r / 64) % 2 == 1) != ((r / 32) % 2 == 1),
            ..s
        },
        r,
    )
}

/// The state after AXS of `v`.
pub open spec fn axs_state(s: CpuState, v: u8) -> CpuState {
    let t = s.acc & s.x;
    let r = ((t + 256 - v) % 256) as u8;
    with_result_flags(CpuState { x: r, carry: t >= v, ..s }, r)
}

/// The state of a processor that halted on the opcode `code`.
pub open spec fn halted_state(s: CpuState, code: u8) -> CpuState {
    CpuState { halted: true, halt_code: code, ..s }
}

/// The state after ROR of `v`: carry takes bit 0, the flags follow the result.
pub open spec fn ror_state(s: CpuState, v: u8) -> CpuState {
    with_result_flags(CpuState { carry: v % 2 == 1, ..s }, rotated_right(v, s.carry))
}

/// The machine after the program counter was loaded from the reset vector
/// at `$FFFC`, low byte first.
pub open spec fn m_reset<M: AddressSpace>(m: Machine<M::V>) -> Machine<M::V> {
    let (pc, m1) = m_read_pair::<M>(m, ADDRESS_RESET, next_address(ADDRESS_RESET));
    with_cpu(m1, CpuState { pc: pc, ..m1.cpu })
}

/// The machine after an interrupt was entered through `vector`: the program
/// counter is pushed, high byte first, then the status byte, with bits 4
/// and 5 set where an instruction entered and both clear otherwise; further
/// interrupts are disabled and the program counter is loaded from `vector`.
pub open spec fn m_interrupt<M: AddressSpace>(
    m: Machine<M::V>,
    vector: u16,
    is_instruction: bool,
) -> Machine<M::V> {
    let m1 = m_push16::<M>(m, m.cpu.pc);
    let m2 = m_push::<M>(m1, entry_status(m.cpu, is_instruction));
    let (pc, m3) = m_read_pair::<M>(m2, vector, next_address(vector));
    with_cpu(m3, CpuState { pc: pc, interruptd: true, ..m3.cpu })
}

/// The machine after JSR to `ptr`: the address of the last byte of the
/// instruction is pushed.
pub open spec fn m_jsr<M: AddressSpace>(m: Machine<M::V>, ptr: u16) -> Machine<M::V> {
    let m1 = m_push16::<M>(m, offset_address(m.cpu.pc, -1i16));
    with_cpu(m1, CpuState { pc: ptr, ..m1.cpu })
}

/// The machine after RTS: the pulled word plus one becomes the program counter.
pub open spec fn m_rts<M: AddressSpace>(m: Machine<M::V>) -> Machine<M::V> {
    let (pc, m1) = m_pop16::<M>(m);
    with_cpu(m1, CpuState { pc: next_address(pc), ..m1.cpu })
}

/// The machine after RTI: the flags are pulled, then the program counter.
pub open spec fn m_rti<M: AddressSpace>(m: Machine<M::V>) -> Machine<M::V> {
    let (p, m1) = m_pop::<M>(m);
    let (pc, m2) = m_pop16::<M>(with_cpu(m1, with_status(m1.cpu, p)));
    with_cpu(m2, CpuState { pc: pc, ..m2.cpu })
}

/// The machine after PLA.
pub open spec fn m_pla<M: AddressSpace>(m: Machine<M::V>) -> Machine<M::V> {
    let (v, m1) = m_pop::<M>(m);
    with_cpu(m1, load_acc_state(m1.cpu, v))
}

/// The machine after PLP.
pub open spec fn m_plp<M: AddressSpace>(m: Machine<M::V>) -> Machine<M::V> {
    let (v, m1) = m_pop::<M>(m);
    with_cpu(m1, with_status(m1.cpu, v))
}

// The instructions, one function each. Those that return a byte compute
// the value that a read-modify-write instruction stores back.
impl<M: AddressSpace> C6502<M> {
    /// ADC: adds the operand and the carry to the accumulator.
    pub fn execute_adc(&mut self, v: u8)
        ensures
            final(self)@ == with_cpu(old(self)@, adc_state(old(self)@.cpu, v)),
    {
        let a = self.state.acc;
        let c: u16 = if self.state.carry {
            1
        } else {
            0
        };
        let sum: u16 = a as u16 + v as u16 + c;
        let result: u8 = (sum % 256) as u8;
        self.state.carry = sum > 255;
        self.state.overflow = ((a >= 128) == (v >= 128)) && ((result >= 128) != (a >= 128));
        self.state.acc = result;
        self.update_accumulator_flags();
    }

    /// AND: the accumulator and the operand, bit by bit.
    pub fn execute_and(&mut self, v: u8)
        ensures
            final(self)@ == with_cpu(
                old(self)@,
                load_acc_state(old(self)@.cpu, old(self)@.cpu.acc & v),
            ),
    {
        self.state.acc = self.state.acc & v;
        self.update_accumulator_flags();
    }

    /// ASL: shifts the byte left by one.
    pub fn execute_asl(&mut self, v: u8) -> (r: u8)
        ensures
            r == shifted_left(v),
            final(self)@ == with_cpu(old(self)@, asl_state(old(self)@.cpu, v)),
    {
        let x: u8 = ((v as u16 * 2) % 256) as u8;
        self.state.carry = v >= 128;
        self.update_result_flags(x);
        x
    }

    /// Takes a branch: moves the program counter by the signed operand.
    pub fn execute_branch(&mut self, v: u8)
        ensures
            final(self)@ == with_cpu(old(self)@, branch_state(old(self)@.cpu, v)),
    {
        let old_pc = self.state.pc;
        self.state.pc = add_offset(old_pc, branch_offset(v));
        self.state.clocks_to_pause = self.state.clocks_to_pause.saturating_add(1);
        if Self::crossed_page_boundary(self.state.pc, old_pc) {
            self.state.clocks_to_pause = self.state.clocks_to_pause.saturating_add(1);
        }
    }

    /// BCC: branches if carry is clear.
    pub fn execute_bcc(&mut self, v: u8)
        ensures
            final(self)@ == with_cpu(
                old(self)@,
                branch_if(old(self)@.cpu, !old(self)@.cpu.carry, v),
            ),
    {
        if !self.state.carry {
            self.execute_branch(v);
        }
    }

    /// BCS: branches if carry is set.
    pub fn execute_bcs(&mut self, v: u8)
        ensures
            final(self)@ == with_cpu(
                old(self)@,
                branch_if(old(self)@.cpu, old(self)@.cpu.carry, v),
            ),
    {
        if self.state.carry {
            self.execute_branch(v);
        }
    }

    /// BEQ: branches if zero is set.
    pub fn execute_beq(&mut self, v: u8)
        ensures
            final(self)@ == with_cpu(old(self)@, branch_if(old(self)@.cpu, old(self)@.cpu.zero, v)),
    {
        if self.state.zero {
            self.execute_branch(v);
        }
    }

    /// BIT: tests the operand against the accumulator.
    pub fn execute_bit(&mut self, v: u8)
        ensures
            final(self)@ == with_cpu(old(self)@, bit_state(old(self)@.cpu, v)),
    {
        let x = v & self.state.acc;
        self.state.negative = v >= 128;
        self.state.overflow = (v / 64) % 2 == 1;
        self.state.zero = x == 0;
    }

    /// BMI: branches if negative is set.
    pub fn execute_bmi(&mut self, v: u8)
        ensures
            final(self)@ == with_cpu(
                old(self)@,
                branch_if(old(self)@.cpu, old(self)@.cpu.negative, v),
            ),
    {
        if self.state.negative {
            self.execute_branch(v);
        }
    }

    /// BNE: branches if zero is clear.
    pub fn execute_bne(&mut self, v: u8)
        ensures
            final(self)@ == with_cpu(
                old(self)@,
                branch_if(old(self)@.cpu, !old(self)@.cpu.zero, v),
            ),
    {
        if !self.state.zero {
            self.execute_branch(v);
        }
    }

    /// BPL: branches if negative is clear.
    pub fn execute_bpl(&mut self, v: u8)
        ensures
            final(self)@ == with_cpu(
                old(self)@,
                branch_if(old(self)@.cpu, !old(self)@.cpu.negative, v),
            ),
    {
        if !self.state.negative {
            self.execute_branch(v);
        }
    }

    /// BRK: enters the interrupt handler as an instruction; the status
    /// byte it pushes has bits 4 and 5 set.
    pub fn execute_brk(&mut self)
        ensures
            final(self)@ == m_interrupt::<M>(old(self)@, ADDRESS_BRK, true),
            entry_status(old(self)@.cpu, true) & 0x30 == 0x30,
            entry_status(old(self)@.cpu, true) & 0xCF == status_byte(old(self)@.cpu, false),
    {
        let pc = self.state.pc;
        let sr = self.pushed_status_byte();
        self.push_stack16(pc);
        self.push_stack(sr);
        self.state.interruptd = true;
        self.state.pc = self.peek16(ADDRESS_BRK);
    }

    /// BVC: branches if overflow is clear.
    pub fn execute_bvc(&mut self, v: u8)
        ensures
            final(self)@ == with_cpu(
                old(self)@,
                branch_if(old(self)@.cpu, !old(self)@.cpu.overflow, v),
            ),
    {
        if !self.state.overflow {
            self.execute_branch(v);
        }
    }

    /// BVS: branches if overflow is set.
    pub fn execute_bvs(&mut self, v: u8)
        ensures
            final(self)@ == with_cpu(
                old(self)@,
                branch_if(old(self)@.cpu, old(self)@.cpu.overflow, v),
            ),
    {
        if self.state.overflow {
            self.execute_branch(v);
        }
    }

    /// CLC: clears carry.
    pub fn execute_clc(&mut self)
        ensures
            final(self)@ == with_cpu(old(self)@, CpuState { carry: false, ..old(self)@.cpu }),
    {
        self.state.carry = false;
    }

    /// CLD: clears decimal.
    pub fn execute_cld(&mut self)
        ensures
            final(self)@ == with_cpu(old(self)@, CpuState { decimal: false, ..old(self)@.cpu }),
    {
        self.state.decimal = false;
    }

    /// CLI: enables interrupts.
    pub fn execute_cli(&mut self)
        ensures
            final(self)@ == with_cpu(old(self)@, CpuState { interruptd: false, ..old(self)@.cpu }),
    {
        self.state.interruptd = false;
    }

    /// CLV: clears overflow.
    pub fn execute_clv(&mut self)
        ensures
            final(self)@ == with_cpu(old(self)@, CpuState { overflow: false, ..old(self)@.cpu }),
    {
        self.state.overflow = false;
    }

    /// Compares a register value with the operand.
    pub fn execute_compare(&mut self, v1: u8, v2: u8)
        ensures
            final(self)@ == with_cpu(old(self)@, compare_state(old(self)@.cpu, v1, v2)),
    {
        let result = v1.wrapping_sub(v2);
        self.state.carry = v1 >= v2;
        self.state.zero = v1 == v2;
        self.state.negative = is_negative(result);
    }

    /// CMP: compares the accumulator with the operand.
    pub fn execute_cmp(&mut self, v: u8)
        ensures
            final(self)@ == with_cpu(
                old(self)@,
                compare_state(old(self)@.cpu, old(self)@.cpu.acc, v),
            ),
    {
        let a = self.state.acc;
        self.execute_compare(a, v);
    }

    /// CPX: compares X with the operand.
    pub fn execute_cpx(&mut self, v: u8)
        ensures
            final(self)@ == with_cpu(
                old(self)@,
                compare_state(old(self)@.cpu, old(self)@.cpu.x, v),
            ),
    {
        let x = self.state.x;
        self.execute_compare(x, v);
    }

    /// CPY: compares Y with the operand.
    pub fn execute_cpy(&mut self, v: u8)
        ensures
            final(self)@ == with_cpu(
                old(self)@,
                compare_state(old(self)@.cpu, old(self)@.cpu.y, v),
            ),
    {
        let y = self.state.y;
        self.execute_compare(y, v);
    }

    /// DEC: the byte less one.
    pub fn execute_dec(&mut self, v: u8) -> (r: u8)
        ensures
            r == decremented(v),
            final(self)@ == with_cpu(old(self)@, with_result_flags(old(self)@.cpu, decremented(v))),
    {
        let ret = v.wrapping_sub(1);
        self.update_result_flags(ret);
        ret
    }

    /// DEX: X less one.
    pub fn execute_dex(&mut self)
        ensures
            final(self)@ == with_cpu(
                old(self)@,
                with_result_flags(
                    CpuState { x: decremented(old(self)@.cpu.x), ..old(self)@.cpu },
                    decremented(old(self)@.cpu.x),
                ),
            ),
    {
        let x = self.state.x;
        self.state.x = self.execute_dec(x);
    }

    /// DEY: Y less one.
    pub fn execute_dey(&mut self)
        ensures
            final(self)@ == with_cpu(
                old(self)@,
                with_result_flags(
                    CpuState { y: decremented(old(self)@.cpu.y), ..old(self)@.cpu },
                    decremented(old(self)@.cpu.y),
                ),
            ),
    {
        let y = self.state.y;
        self.state.y = self.execute_dec(y);
    }

    /// EOR: the accumulator or else the operand, bit by bit.
    pub fn execute_eor(&mut self, v: u8)
        ensures
            final(self)@ == with_cpu(
                old(self)@,
                load_acc_state(old(self)@.cpu, old(self)@.cpu.acc ^ v),
            ),
    {
        self.state.acc = self.state.acc ^ v;
        self.update_accumulator_flags();
    }

    /// INC: the byte plus one.
    pub fn execute_inc(&mut self, v: u8) -> (r: u8)
        ensures
            r == incremented(v),
            final(self)@ == with_cpu(old(self)@, with_result_flags(old(self)@.cpu, incremented(v))),
    {
        let ret = v.wrapping_add(1);
        self.update_result_flags(ret);
        ret
    }

    /// INX: X plus one.
    pub fn execute_inx(&mut self)
        ensures
            final(self)@ == with_cpu(
                old(self)@,
                with_result_flags(
                    CpuState { x: incremented(old(self)@.cpu.x), ..old(self)@.cpu },
                    incremented(old(self)@.cpu.x),
                ),
            ),
    {
        let x = self.state.x;
        self.state.x = self.execute_inc(x);
    }

    /// INY: Y plus one.
    pub fn execute_iny(&mut self)
        ensures
            final(self)@ == with_cpu(
                old(self)@,
                with_result_flags(
                    CpuState { y: incremented(old(self)@.cpu.y), ..old(self)@.cpu },
                    incremented(old(self)@.cpu.y),
                ),
            ),
    {
        let y = self.state.y;
        self.state.y = self.execute_inc(y);
    }

    /// JMP: goes to `ptr`.
    pub fn execute_jmp(&mut self, ptr: u16)
        ensures
            final(self)@ == with_cpu(old(self)@, CpuState { pc: ptr, ..old(self)@.cpu }),
    {
        self.state.pc = ptr;
    }

    /// JSR: calls the subroutine at `ptr`.
    pub fn execute_jsr(&mut self, ptr: u16)
        ensures
            final(self)@ == m_jsr::<M>(old(self)@, ptr),
    {
        let pc = self.state.pc;
        self.push_stack16(add_offset(pc, -1));
        self.state.pc = ptr;
    }

    /// LDA: loads the accumulator.
    pub fn execute_lda(&mut self, v: u8)
        ensures
            final(self)@ == with_cpu(old(self)@, load_acc_state(old(self)@.cpu, v)),
    {
        self.state.acc = v;
        self.update_accumulator_flags();
    }

    /// LDX: loads X.
    pub fn execute_ldx(&mut self, v: u8)
        ensures
            final(self)@ == with_cpu(
                old(self)@,
                with_result_flags(CpuState { x: v, ..old(self)@.cpu }, v),
            ),
    {
        self.state.x = v;
        self.update_result_flags(v);
    }

    /// LDY: loads Y.
    pub fn execute_ldy(&mut self, v: u8)
        ensures
            final(self)@ == with_cpu(
                old(self)@,
                with_result_flags(CpuState { y: v, ..old(self)@.cpu }, v),
            ),
    {
        self.state.y = v;
        self.update_result_flags(v);
    }

    /// LSR: shifts the byte right by one.
    pub fn execute_lsr(&mut self, v: u8) -> (r: u8)
        ensures
            r == shifted_right(v),
            final(self)@ == with_cpu(old(self)@, lsr_state(old(self)@.cpu, v)),
    {
        self.state.carry = v % 2 == 1;
        let ret = v / 2;
        self.update_result_flags(ret);
        ret
    }

    /// NOP: does nothing.
    pub fn execute_nop(&mut self)
        ensures
            final(self)@ == old(self)@,
    {
    }

    /// ORA: the accumulator or the operand, bit by bit.
    pub fn execute_ora(&mut self, v: u8)
        ensures
            final(self)@ == with_cpu(
                old(self)@,
                load_acc_state(old(self)@.cpu, old(self)@.cpu.acc | v),
            ),
    {
        self.state.acc = self.state.acc | v;
        self.update_accumulator_flags();
    }

    /// PHA: pushes the accumulator.
    pub fn execute_pha(&mut self)
        ensures
            final(self)@ == m_push::<M>(old(self)@, old(self)@.cpu.acc),
    {
        let x = self.state.acc;
        self.push_stack(x);
    }

    /// PHP: pushes the status byte, bits 4 and 5 set; the flags and the
    /// other registers stay.
    pub fn execute_php(&mut self)
        ensures
            final(self)@ == m_push::<M>(old(self)@, pushed_status(old(self)@.cpu)),
            pushed_status(old(self)@.cpu) & 0x30 == 0x30,
            pushed_status(old(self)@.cpu) & 0xCF == status_byte(old(self)@.cpu, false),
    {
        let x = self.pushed_status_byte();
        self.push_stack(x);
    }

    /// PLA: pulls the accumulator.
    pub fn execute_pla(&mut self)
        ensures
            final(self)@ == m_pla::<M>(old(self)@),
    {
        self.state.acc = self.pop_stack();
        self.update_accumulator_flags();
    }

    /// PLP: pulls the flags.
    pub fn execute_plp(&mut self)
        ensures
            final(self)@ == m_plp::<M>(old(self)@),
    {
        let x = self.pop_stack();
        self.set_status_register_from_byte(x);
    }

    /// ROL: rotates the byte left through carry.
    pub fn execute_rol(&mut self, v: u8) -> (r: u8)
        ensures
            r == rotated_left(v, old(self)@.cpu.carry),
            final(self)@ == with_cpu(old(self)@, rol_state(old(self)@.cpu, v)),
    {
        let old_carry: u16 = if self.state.carry {
            1
        } else {
            0
        };
        self.state.carry = v >= 128;
        let ret: u8 = ((v as u16 * 2) % 256 + old_carry) as u8;
        self.update_result_flags(ret);
        ret
    }

    /// ROR: rotates the byte right through carry.
    pub fn execute_ror(&mut self, v: u8) -> (r: u8)
        ensures
            r == rotated_right(v, old(self)@.cpu.carry),
            final(self)@ == with_cpu(old(self)@, ror_state(old(self)@.cpu, v)),
    {
        let ret: u8 = if self.state.carry {
            v / 2 + 128
        } else {
            v / 2
        };
        self.state.carry = v % 2 == 1;
        self.update_result_flags(ret);
        ret
    }

    /// RTI: returns from an interrupt.
    pub fn execute_rti(&mut self)
        ensures
            final(self)@ == m_rti::<M>(old(self)@),
    {
        let x = self.pop_stack();
        self.set_status_register_from_byte(x);
        self.state.pc = self.pop_stack16();
    }

    /// RTS: returns from a subroutine.
    pub fn execute_rts(&mut self)
        ensures
            final(self)@ == m_rts::<M>(old(self)@),
    {
        self.state.pc = self.pop_stack16().wrapping_add(1);
    }

    /// SBC: subtracts the operand and the borrow from the accumulator.
    pub fn execute_sbc(&mut self, v: u8)
        ensures
            final(self)@ == with_cpu(old(self)@, sbc_state(old(self)@.cpu, v)),
    {
        self.execute_adc(255 - v);
    }

    /// SEC: sets carry.
    pub fn execute_sec(&mut self)
        ensures
            final(self)@ == with_cpu(old(self)@, CpuState { carry: true, ..old(self)@.cpu }),
    {
        self.state.carry = true;
    }

    /// SED: sets decimal.
    pub fn execute_sed(&mut self)
        ensures
            final(self)@ == with_cpu(old(self)@, CpuState { decimal: true, ..old(self)@.cpu }),
    {
        self.state.decimal = true;
    }

    /// SEI: disables interrupts.
    pub fn execute_sei(&mut self)
        ensures
            final(self)@ == with_cpu(old(self)@, CpuState { interruptd: true, ..old(self)@.cpu }),
    {
        self.state.interruptd = true;
    }

    /// TAX: copies the accumulator to X.
    pub fn execute_tax(&mut self)
        ensures
            final(self)@ == with_cpu(
                old(self)@,
                with_result_flags(
                    CpuState { x: old(self)@.cpu.acc, ..old(self)@.cpu },
                    old(self)@.cpu.acc,
                ),
            ),
    {
        self.state.x = self.state.acc;
        let x = self.state.x;
        self.update_result_flags(x);
    }

    /// TAY: copies the accumulator to Y.
    pub fn execute_tay(&mut self)
        ensures
            final(self)@ == with_cpu(
                old(self)@,
                with_result_flags(
                    CpuState { y: old(self)@.cpu.acc, ..old(self)@.cpu },
                    old(self)@.cpu.acc,
                ),
            ),
    {
        self.state.y = self.state.acc;
        let y = self.state.y;
        self.update_result_flags(y);
    }

    /// TSX: copies the stack pointer to X.
    pub fn execute_tsx(&mut self)
        ensures
            final(self)@ == with_cpu(
                old(self)@,
                with_result_flags(
                    CpuState { x: old(self)@.cpu.sp, ..old(self)@.cpu },
                    old(self)@.cpu.sp,
                ),
            ),
    {
        self.state.x = self.state.sp;
        let x = self.state.x;
        self.update_result_flags(x);
    }

    /// TXA: copies X to the accumulator.
    pub fn execute_txa(&mut self)
        ensures
            final(self)@ == with_cpu(old(self)@, load_acc_state(old(self)@.cpu, old(self)@.cpu.x)),
    {
        self.state.acc = self.state.x;
        self.update_accumulator_flags();
    }

    /// TXS: copies X to the stack pointer.
    pub fn execute_txs(&mut self)
        ensures
            final(self)@ == with_cpu(
                old(self)@,
                CpuState { sp: old(self)@.cpu.x, ..old(self)@.cpu },
            ),
    {
        self.state.sp = self.state.x;
    }

    /// TYA: copies Y to the accumulator.
    pub fn execute_tya(&mut self)
        ensures
            final(self)@ == with_cpu(old(self)@, load_acc_state(old(self)@.cpu, old(self)@.cpu.y)),
    {
        self.state.acc = self.state.y;
        self.update_accumulator_flags();
    }

    /// LAX: loads the accumulator and X.
    pub fn execute_lax(&mut self, v: u8)
        ensures
            final(self)@ == with_cpu(
                old(self)@,
                load_acc_state(CpuState { x: v, ..old(self)@.cpu }, v),
            ),
    {
        self.state.acc = v;
        self.state.x = v;
        self.update_accumulator_flags();
    }

    /// SAX: the accumulator and X, bit by bit, to be stored.
    pub fn execute_sax(&mut self) -> (r: u8)
        ensures
            r == old(self)@.cpu.acc & old(self)@.cpu.x,
            final(self)@ == old(self)@,
    {
        self.state.acc & self.state.x
    }

    /// DCP: decrements the byte, then compares the accumulator with it.
    pub fn execute_dcp(&mut self, v: u8) -> (r: u8)
        ensures
            r == decremented(v),
            final(self)@ == with_cpu(
                old(self)@,
                compare_state(old(self)@.cpu, old(self)@.cpu.acc, decremented(v)),
            ),
    {
        let ret = self.execute_dec(v);
        self.execute_cmp(ret);
        ret
    }

    /// ISC: increments the byte, then subtracts it from the accumulator.
    pub fn execute_isc(&mut self, v: u8) -> (r: u8)
        ensures
            r == incremented(v),
            final(self)@ == with_cpu(old(self)@, sbc_state(old(self)@.cpu, incremented(v))),
    {
        let x = self.execute_inc(v);
        self.execute_sbc(x);
        x
    }

    /// RLA: rotates the byte left, then ands it into the accumulator.
    pub fn execute_rla(&mut self, v: u8) -> (r: u8)
        ensures
            r == rotated_left(v, old(self)@.cpu.carry),
            final(self)@ == with_cpu(
                old(self)@,
                load_acc_state(
                    rol_state(old(self)@.cpu, v),
                    old(self)@.cpu.acc & rotated_left(v, old(self)@.cpu.carry),
                ),
            ),
    {
        let x = self.execute_rol(v);
        self.execute_and(x);
        x
    }

    /// RRA: rotates the byte right, then adds it to the accumulator.
    pub fn execute_rra(&mut self, v: u8) -> (r: u8)
        ensures
            r == rotated_right(v, old(self)@.cpu.carry),
            final(self)@ == with_cpu(
                old(self)@,
                adc_state(ror_state(old(self)@.cpu, v), rotated_right(v, old(self)@.cpu.carry)),
            ),
    {
        let x = self.execute_ror(v);
        self.execute_adc(x);
        x
    }

    /// SLO: shifts the byte left, then ors it into the accumulator.
    pub fn execute_slo(&mut self, v: u8) -> (r: u8)
        ensures
            r == shifted_left(v),
            final(self)@ == with_cpu(
                old(self)@,
                load_acc_state(asl_state(old(self)@.cpu, v), old(self)@.cpu.acc | shifted_left(v)),
            ),
    {
        let x = self.execute_asl(v);
        self.execute_ora(x);
        x
    }

    /// SRE: shifts the byte right, then exclusive-ors it into the accumulator.
    pub fn execute_sre(&mut self, v: u8) -> (r: u8)
        ensures
            r == shifted_right(v),
            final(self)@ == with_cpu(
                old(self)@,
                load_acc_state(lsr_state(old(self)@.cpu, v), old(self)@.cpu.acc ^ shifted_right(v)),
            ),
    {
        let x = self.execute_lsr(v);
        self.execute_eor(x);
        x
    }

    /// ANC: the accumulator and the operand, bit by bit; carry takes bit 7
    /// of the result.
    pub fn execute_anc(&mut self, v: u8)
        ensures
            final(self)@ == with_cpu(old(self)@, anc_state(old(self)@.cpu, v)),
    {
        let r = self.state.acc & v;
        self.state.carry = r >= 128;
        self.state.acc = r;
        self.update_accumulator_flags();
    }

    /// ALR: the accumulator and the operand, bit by bit, then shifted
    /// right by one.
    pub fn execute_alr(&mut self, v: u8)
        ensures
            final(self)@ == with_cpu(old(self)@, alr_state(old(self)@.cpu, v)),
    {
        let t = self.state.acc & v;
        self.state.carry = t % 2 == 1;
        self.state.acc = t / 2;
        self.update_accumulator_flags();
    }

    /// ARR: the accumulator and the operand, bit by bit, then rotated
    /// right through carry; carry takes bit 6 of the result, and overflow
    /// says whether bits 6 and 5 differ.
    pub fn execute_arr(&mut self, v: u8)
        ensures
            final(self)@ == with_cpu(old(self)@, arr_state(old(self)@.cpu, v)),
    {
        let t = self.state.acc & v;
        let r: u8 = if self.state.carry {
            t / 2 + 128
        } else {
            t / 2
        };
        self.state.carry = (r / 64) % 2 == 1;
        self.state.overflow = ((r / 64) % 2 == 1) != ((r / 32) % 2 == 1);
        self.state.acc = r;
        self.update_accumulator_flags();
    }

    /// AXS: X takes the bits that the accumulator and X share, less the
    /// operand; carry says that no borrow was needed.
    pub fn execute_axs(&mut self, v: u8)
        ensures
            final(self)@ == with_cpu(old(self)@, axs_state(old(self)@.cpu, v)),
    {
        let t = self.state.acc & self.state.x;
        let r: u8 = if t >= v {
            t - v
        } else {
            (255 - v) + t + 1
        };
        self.state.carry = t >= v;
        self.state.x = r;
        self.update_result_flags(r);
    }

    /// Halts the processor on the opcode `code`, which has no defined
    /// behaviour, and keeps the opcode to be read back.
    pub fn execute_unimplemented(&mut self, code: u8)
        ensures
            final(self)@ == with_cpu(old(self)@, halted_state(old(self)@.cpu, code)),
    {
        self.state.halted = true;
        self.state.halt_code = code;
    }
}


/// What an addressing mode yields: the operand byte (zero where none was
/// read), the effective address, the bytes that follow the opcode, and
/// whether indexing carried into another page.
#[derive(Copy, Clone, Debug, PartialEq, Eq, Structural)]
pub struct Operand {
    pub value: u8,
    pub target: Option<u16>,
    pub num_bytes: u16,
    pub oops_cycle: bool,
}

/// A decoded instruction.
#[derive(Copy, Clone, Debug, PartialEq, Eq, Structural)]
pub struct Instruction {
    /// The byte that was decoded.
    pub opcode: u8,
    pub op: Operation,
    pub mode: AddressingMode,
    pub mode_args: u8,
    pub write_target: Option<u16>,
    pub num_clocks: u8,
    pub oops_cycle: bool,
}

/// Whether decoding reads the operand: every operation but the three
/// plain stores does.
pub open spec fn generates_read(op: Operation) -> bool {
    op != Operation::STA && op != Operation::STX && op != Operation::STY
}

/// The operand byte at `addr`, read only if `read`.
pub open spec fn m_operand<M: AddressSpace>(m: Machine<M::V>, addr: u16, read: bool) -> (
    u8,
    Machine<M::V>,
) {
    if read {
        m_read::<M>(m, addr)
    } else {
        (0u8, m)
    }
}

/// `base + index` within sixteen bits.
pub open spec fn indexed(base: u16, index: u8) -> u16 {
    ((base + index) % 0x1_0000) as u16
}

/// `base + index` within the zero page.
pub open spec fn zero_page_indexed(base: u8, index: u8) -> u16 {
    ((base + index) % 256) as u16
}

/// The operand of an instruction whose operand bytes start at `ptr`, and
/// the machine after the reads that finding it took, in their order.
pub open spec fn m_decode_mode<M: AddressSpace>(
    m: Machine<M::V>,
    mode: AddressingMode,
    ptr: u16,
    read: bool,
) -> (Operand, Machine<M::V>) {
    match mode {
        AddressingMode::Immediate | AddressingMode::Relative => {
            let (v, m1) = m_operand::<M>(m, ptr, read);
            (Operand { value: v, target: Some(ptr), num_bytes: 1, oops_cycle: false }, m1)
        },
        AddressingMode::ZeroPage => {
            let (a, m1) = m_read::<M>(m, ptr);
            let (v, m2) = m_operand::<M>(m1, a as u16, read);
            (Operand { value: v, target: Some(a as u16), num_bytes: 1, oops_cycle: false }, m2)
        },
        AddressingMode::ZeroPageX => {
            let (a, m1) = m_read::<M>(m, ptr);
            let addr = zero_page_indexed(a, m.cpu.x);
            let (v, m2) = m_operand::<M>(m1, addr, read);
            (Operand { value: v, target: Some(addr), num_bytes: 1, oops_cycle: false }, m2)
        },
        AddressingMode::ZeroPageY => {
            let (a, m1) = m_read::<M>(m, ptr);
            let addr = zero_page_indexed(a, m.cpu.y);
            let (v, m2) = m_operand::<M>(m1, addr, read);
            (Operand { value: v, target: Some(addr), num_bytes: 1, oops_cycle: false }, m2)
        },
        AddressingMode::Absolute => {
            let (addr, m1) = m_read_pair::<M>(m, ptr, next_address(ptr));
            let (v, m2) = m_operand::<M>(m1, addr, read);
            (Operand { value: v, target: Some(addr), num_bytes: 2, oops_cycle: false }, m2)
        },
        AddressingMode::AbsoluteX => {
            let (base, m1) = m_read_pair::<M>(m, ptr, next_address(ptr));
            let addr = indexed(base, m.cpu.x);
            let (v, m2) = m_operand::<M>(m1, addr, read);
            (
                Operand {
                    value: v,
                    target: Some(addr),
                    num_bytes: 2,
                    oops_cycle: pages_differ(base, addr),
                },
                m2,
            )
        },
        AddressingMode::AbsoluteY => {
            let (base, m1) = m_read_pair::<M>(m, ptr, next_address(ptr));
            let addr = indexed(base, m.cpu.y);
            let (v, m2) = m_operand::<M>(m1, addr, read);
            (
                Operand {
                    value: v,
                    target: Some(addr),
                    num_bytes: 2,
                    oops_cycle: pages_differ(base, addr),
                },
                m2,
            )
        },
        AddressingMode::Indirect => {
            let (addr, m1) = m_read_pair::<M>(m, ptr, next_address(ptr));
            let (jmp_ptr, m2) = m_read_pair::<M>(m1, addr, next_on_page(addr));
            (Operand { value: 0, target: Some(jmp_ptr), num_bytes: 2, oops_cycle: false }, m2)
        },
        AddressingMode::IndirectX => {
            let (a, m1) = m_read::<M>(m, ptr);
            let zp = zero_page_indexed(a, m.cpu.x);
            let (addr, m2) = m_read_pair::<M>(m1, zp, zero_page_indexed(zp as u8, 1));
            let (v, m3) = m_operand::<M>(m2, addr, read);
            (Operand { value: v, target: Some(addr), num_bytes: 1, oops_cycle: false }, m3)
        },
        AddressingMode::IndirectY => {
            let (zp, m1) = m_read::<M>(m, ptr);
            let (base, m2) = m_read_pair::<M>(m1, zp as u16, zero_page_indexed(zp, 1));
            let addr = indexed(base, m.cpu.y);
            let (v, m3) = m_operand::<M>(m2, addr, read);
            (
                Operand {
                    value: v,
                    target: Some(addr),
                    num_bytes: 1,
                    oops_cycle: pages_differ(base, addr),
                },
                m3,
            )
        },
        AddressingMode::Accumulator => (
            Operand { value: m.cpu.acc, target: None, num_bytes: 0, oops_cycle: false },
            m,
        ),
        AddressingMode::Implicit => (
            Operand { value: 0, target: None, num_bytes: 0, oops_cycle: false },
            m,
        ),
    }
}

/// The cycles an instruction takes: those of its table entry, and the
/// page-crossing penalty of the entry where indexing carried into another page.
pub open spec fn instruction_clocks(clocks: u8, page_clocks: u8, oops_cycle: bool) -> u8 {
    if oops_cycle && clocks + page_clocks <= 255 {
        (clocks + page_clocks) as u8
    } else {
        clocks
    }
}

/// The instruction at the program counter, its length in bytes, and the
/// machine after the reads that decoding took.
#[verifier::opaque]
pub open spec fn m_decode<M: AddressSpace>(m: Machine<M::V>) -> (Instruction, u16, Machine<M::V>) {
    let (opcode, m1) = m_read::<M>(m, m.cpu.pc);
    let entry = OPCODE_TABLE[opcode as int];
    let (operand, m2) = m_decode_mode::<M>(
        m1,
        entry.1,
        next_address(m.cpu.pc),
        generates_read(entry.0),
    );
    (
        Instruction {
            opcode: opcode,
            op: entry.0,
            mode: entry.1,
            mode_args: operand.value,
            write_target: operand.target,
            num_clocks: instruction_clocks(entry.2, entry.3, operand.oops_cycle),
            oops_cycle: operand.oops_cycle,
        },
        (1 + operand.num_bytes) as u16,
        m2,
    )
}

/// The byte a read-modify-write instruction works on: the accumulator, or
/// the byte read at its effective address.
pub open spec fn m_target_read<M: AddressSpace>(m: Machine<M::V>, target: Option<u16>) -> (
    u8,
    Machine<M::V>,
) {
    match target {
        None => (m.cpu.acc, m),
        Some(ptr) => m_read::<M>(m, ptr),
    }
}

/// The machine after `v` was stored in the accumulator or at the effective address.
pub open spec fn m_target_write<M: AddressSpace>(
    m: Machine<M::V>,
    v: u8,
    target: Option<u16>,
) -> Machine<M::V> {
    match target {
        None => with_cpu(m, CpuState { acc: v, ..m.cpu }),
        Some(ptr) => m_write::<M>(m, ptr, v),
    }
}

impl<M: AddressSpace> C6502<M> {
    /// The plain stores compute an address without reading it.
    pub fn should_generate_read(&self, op: Operation) -> (r: bool)
        ensures
            r == generates_read(op),
    {
        match op {
            Operation::STA => false,
            Operation::STX => false,
            Operation::STY => false,
            _ => true,
        }
    }

    fn read_operand(&mut self, addr: u16, read: bool) -> (v: u8)
        ensures
            (v, final(self)@) == m_operand::<M>(old(self)@, addr, read),
    {
        if read {
            self.peek(addr)
        } else {
            0
        }
    }

    fn decode_immediate(&mut self, ptr: u16, read: bool) -> (r: Operand)
        ensures
            (r, final(self)@) == m_decode_mode::<M>(old(self)@, AddressingMode::Immediate, ptr, read),
    {
        let v = self.read_operand(ptr, read);
        Operand { value: v, target: Some(ptr), num_bytes: 1, oops_cycle: false }
    }

    fn decode_zero_page(&mut self, ptr: u16, read: bool) -> (r: Operand)
        ensures
            (r, final(self)@) == m_decode_mode::<M>(old(self)@, AddressingMode::ZeroPage, ptr, read),
    {
        let addr = self.peek(ptr) as u16;
        let v = self.read_operand(addr, read);
        Operand { value: v, target: Some(addr), num_bytes: 1, oops_cycle: false }
    }

    fn decode_zero_page_x(&mut self, ptr: u16, read: bool) -> (r: Operand)
        ensures
            (r, final(self)@) == m_decode_mode::<M>(old(self)@, AddressingMode::ZeroPageX, ptr, read),
    {
        let base = self.peek(ptr);
        let addr = index_zero_page(base, self.state.x) as u16;
        let v = self.read_operand(addr, read);
        Operand { value: v, target: Some(addr), num_bytes: 1, oops_cycle: false }
    }

    fn decode_zero_page_y(&mut self, ptr: u16, read: bool) -> (r: Operand)
        ensures
            (r, final(self)@) == m_decode_mode::<M>(old(self)@, AddressingMode::ZeroPageY, ptr, read),
    {
        let base = self.peek(ptr);
        let addr = index_zero_page(base, self.state.y) as u16;
        let v = self.read_operand(addr, read);
        Operand { value: v, target: Some(addr), num_bytes: 1, oops_cycle: false }
    }

    fn decode_absolute(&mut self, ptr: u16, read: bool) -> (r: Operand)
        ensures
            (r, final(self)@) == m_decode_mode::<M>(old(self)@, AddressingMode::Absolute, ptr, read),
    {
        let addr = self.peek16(ptr);
        let v = self.read_operand(addr, read);
        Operand { value: v, target: Some(addr), num_bytes: 2, oops_cycle: false }
    }

    fn decode_absolute_x(&mut self, ptr: u16, read: bool) -> (r: Operand)
        ensures
            (r, final(self)@) == m_decode_mode::<M>(old(self)@, AddressingMode::AbsoluteX, ptr, read),
    {
        let base_addr = self.peek16(ptr);
        let addr = index_address(base_addr, self.state.x);
        let v = self.read_operand(addr, read);
        Operand {
            value: v,
            target: Some(addr),
            num_bytes: 2,
            oops_cycle: Self::crossed_page_boundary(base_addr, addr),
        }
    }

    fn decode_absolute_y(&mut self, ptr: u16, read: bool) -> (r: Operand)
        ensures
            (r, final(self)@) == m_decode_mode::<M>(old(self)@, AddressingMode::AbsoluteY, ptr, read),
    {
        let base_addr = self.peek16(ptr);
        let addr = index_address(base_addr, self.state.y);
        let v = self.read_operand(addr, read);
        Operand {
            value: v,
            target: Some(addr),
            num_bytes: 2,
            oops_cycle: Self::crossed_page_boundary(base_addr, addr),
        }
    }

    fn decode_indirect(&mut self, ptr: u16, read: bool) -> (r: Operand)
        ensures
            (r, final(self)@) == m_decode_mode::<M>(old(self)@, AddressingMode::Indirect, ptr, read),
    {
        let addr = self.peek16(ptr);
        let jmp_ptr = self.peek16_pagewrap(addr);
        Operand { value: 0, target: Some(jmp_ptr), num_bytes: 2, oops_cycle: false }
    }

    fn decode_indirect_x(&mut self, ptr: u16, read: bool) -> (r: Operand)
        ensures
            (r, final(self)@) == m_decode_mode::<M>(old(self)@, AddressingMode::IndirectX, ptr, read),
    {
        let base = self.peek(ptr);
        let zp_addr = index_zero_page(base, self.state.x);
        let addr = self.peek_zero16(zp_addr);
        let v = self.read_operand(addr, read);
        Operand { value: v, target: Some(addr), num_bytes: 1, oops_cycle: false }
    }

    fn decode_indirect_y(&mut self, ptr: u16, read: bool) -> (r: Operand)
        ensures
            (r, final(self)@) == m_decode_mode::<M>(old(self)@, AddressingMode::IndirectY, ptr, read),
    {
        let zp_addr = self.peek(ptr);
        let base_addr = self.peek_zero16(zp_addr);
        let addr = index_address(base_addr, self.state.y);
        let v = self.read_operand(addr, read);
        Operand {
            value: v,
            target: Some(addr),
            num_bytes: 1,
            oops_cycle: Self::crossed_page_boundary(base_addr, addr),
        }
    }

    fn decode_relative(&mut self, ptr: u16, read: bool) -> (r: Operand)
        ensures
            (r, final(self)@) == m_decode_mode::<M>(old(self)@, AddressingMode::Relative, ptr, read),
    {
        let v = self.read_operand(ptr, read);
        Operand { value: v, target: Some(ptr), num_bytes: 1, oops_cycle: false }
    }

    fn decode_accumulator(&mut self, ptr: u16, read: bool) -> (r: Operand)
        ensures
            (r, final(self)@) == m_decode_mode::<M>(old(self)@, AddressingMode::Accumulator, ptr, read),
    {
        Operand {
            value: self.state.acc,
            target: None,
            num_bytes: 0,
            oops_cycle: false,
        }
    }

    fn decode_implicit(&mut self, ptr: u16, read: bool) -> (r: Operand)
        ensures
            (r, final(self)@) == m_decode_mode::<M>(old(self)@, AddressingMode::Implicit, ptr, read),
    {
        Operand {
            value: 0,
            target: None,
            num_bytes: 0,
            oops_cycle: false,
        }
    }

    /// Finds the operand of an instruction whose operand bytes start at `ptr`.
    pub fn decode_addressing_mode(&mut self, mode: AddressingMode, ptr: u16, read: bool) -> (r:
        Operand)
        ensures
            (r, final(self)@) == m_decode_mode::<M>(old(self)@, mode, ptr, read),
    {
        match mode {
            AddressingMode::Immediate => self.decode_immediate(ptr, read),
            AddressingMode::ZeroPage => self.decode_zero_page(ptr, read),
            AddressingMode::ZeroPageX => self.decode_zero_page_x(ptr, read),
            AddressingMode::ZeroPageY => self.decode_zero_page_y(ptr, read),
            AddressingMode::Absolute => self.decode_absolute(ptr, read),
            AddressingMode::AbsoluteX => self.decode_absolute_x(ptr, read),
            AddressingMode::AbsoluteY => self.decode_absolute_y(ptr, read),
            AddressingMode::Indirect => self.decode_indirect(ptr, read),
            AddressingMode::IndirectX => self.decode_indirect_x(ptr, read),
            AddressingMode::IndirectY => self.decode_indirect_y(ptr, read),
            AddressingMode::Relative => self.decode_relative(ptr, read),
            AddressingMode::Accumulator => self.decode_accumulator(ptr, read),
            AddressingMode::Implicit => self.decode_implicit(ptr, read),
        }
    }

    /// Decodes the instruction at the program counter; returns it with its
    /// length in bytes.
    pub fn decode_instruction(&mut self) -> (r: (Instruction, u16))
        ensures
            (r.0, r.1, final(self)@) == m_decode::<M>(old(self)@),
            1 <= r.1 <= 3,
    {
        reveal(m_decode);
        let ptr = self.state.pc;
        let code = self.peek(ptr);
        let opcode = code as usize;
        let (op, mode, clocks, page_clocks) = OPCODE_TABLE[opcode];
        let generate_read = self.should_generate_read(op);
        let operand = self.decode_addressing_mode(mode, ptr.wrapping_add(1), generate_read);
        let num_clocks = if operand.oops_cycle && clocks as u16 + page_clocks as u16 <= 255 {
            clocks + page_clocks
        } else {
            clocks
        };
        let instruction = Instruction {
            opcode: code,
            op,
            mode,
            mode_args: operand.value,
            write_target: operand.target,
            num_clocks,
            oops_cycle: operand.oops_cycle,
        };
        (instruction, 1 + operand.num_bytes)
    }

    /// The byte a read-modify-write instruction works on.
    pub fn read_write_target(&mut self, write_target: Option<u16>) -> (v: u8)
        ensures
            (v, final(self)@) == m_target_read::<M>(old(self)@, write_target),
    {
        match write_target {
            None => self.state.acc,
            Some(ptr) => self.peek(ptr),
        }
    }

    /// Stores `v` in the accumulator or at the effective address.
    pub fn store_write_target(&mut self, v: u8, write_target: Option<u16>)
        ensures
            final(self)@ == m_target_write::<M>(old(self)@, v, write_target),
    {
        match write_target {
            None => {
                self.state.acc = v;
            },
            Some(ptr) => {
                self.poke(ptr, v);
            },
        }
    }
}


/// Whether an operation reads a byte from its target, changes it and
/// stores it back.
pub open spec fn is_modify(op: Operation) -> bool {
    match op {
        Operation::ASL
        | Operation::DEC
        | Operation::INC
        | Operation::LSR
        | Operation::ROL
        | Operation::ROR
        | Operation::SAX
        | Operation::DCP
        | Operation::ISC
        | Operation::RLA
        | Operation::RRA
        | Operation::SLO
        | Operation::SRE => true,
        _ => false,
    }
}

/// For an operation that modifies its target: the processor state
/// afterwards and the byte stored back, given the byte `r` that was read.
pub open spec fn modify_result(op: Operation, s: CpuState, r: u8) -> (CpuState, u8) {
    match op {
        Operation::ASL => (asl_state(s, r), shifted_left(r)),
        Operation::DEC => (with_result_flags(s, decremented(r)), decremented(r)),
        Operation::INC => (with_result_flags(s, incremented(r)), incremented(r)),
        Operation::LSR => (lsr_state(s, r), shifted_right(r)),
        Operation::ROL => (rol_state(s, r), rotated_left(r, s.carry)),
        Operation::ROR => (ror_state(s, r), rotated_right(r, s.carry)),
        Operation::SAX => (s, s.acc & s.x),
        Operation::DCP => (compare_state(s, s.acc, decremented(r)), decremented(r)),
        Operation::ISC => (sbc_state(s, incremented(r)), incremented(r)),
        Operation::RLA => (
            load_acc_state(rol_state(s, r), s.acc & rotated_left(r, s.carry)),
            rotated_left(r, s.carry),
        ),
        Operation::RRA => (
            adc_state(ror_state(s, r), rotated_right(r, s.carry)),
            rotated_right(r, s.carry),
        ),
        Operation::SLO => (
            load_acc_state(asl_state(s, r), s.acc | shifted_left(r)),
            shifted_left(r),
        ),
        Operation::SRE => (
            load_acc_state(lsr_state(s, r), s.acc ^ shifted_right(r)),
            shifted_right(r),
        ),
        _ => (s, r),
    }
}

/// The machine after an operation that modifies its target.
pub open spec fn m_modify<M: AddressSpace>(
    m: Machine<M::V>,
    op: Operation,
    target: Option<u16>,
) -> Machine<M::V> {
    let (r, m1) = m_target_read::<M>(m, target);
    let (s, w) = modify_result(op, m1.cpu, r);
    m_target_write::<M>(with_cpu(m1, s), w, target)
}

/// Whether an operation halts the processor: KIL, and the six whose
/// result depends on the state of the bus lines.
pub open spec fn halts(op: Operation) -> bool {
    match op {
        Operation::KIL
        | Operation::LAS
        | Operation::AHX
        | Operation::XAA
        | Operation::SHX
        | Operation::TAS
        | Operation::SHY => true,
        _ => false,
    }
}

/// Whether `op` combines two operations on the accumulator or X with an
/// immediate operand.
pub open spec fn is_combined(op: Operation) -> bool {
    match op {
        Operation::ANC | Operation::ALR | Operation::ARR | Operation::AXS => true,
        _ => false,
    }
}

/// The processor state after a combined operation with operand byte `v`.
pub open spec fn combined_result(op: Operation, s: CpuState, v: u8) -> CpuState {
    match op {
        Operation::ANC => anc_state(s, v),
        Operation::ALR => alr_state(s, v),
        Operation::ARR => arr_state(s, v),
        Operation::AXS => axs_state(s, v),
        _ => s,
    }
}

/// Whether `op` is a conditional branch.
pub open spec fn is_branch(op: Operation) -> bool {
    match op {
        Operation::BCC
        | Operation::BCS
        | Operation::BEQ
        | Operation::BMI
        | Operation::BNE
        | Operation::BPL
        | Operation::BVC
        | Operation::BVS => true,
        _ => false,
    }
}

/// The processor state after a conditional branch with operand byte `v`.
pub open spec fn branch_result(op: Operation, s: CpuState, v: u8) -> CpuState {
    match op {
        Operation::BCC => branch_if(s, !s.carry, v),
        Operation::BCS => branch_if(s, s.carry, v),
        Operation::BEQ => branch_if(s, s.zero, v),
        Operation::BMI => branch_if(s, s.negative, v),
        Operation::BNE => branch_if(s, !s.zero, v),
        Operation::BPL => branch_if(s, !s.negative, v),
        Operation::BVC => branch_if(s, !s.overflow, v),
        Operation::BVS => branch_if(s, s.overflow, v),
        _ => s,
    }
}

/// Whether `op` is an operation that sets or clears one flag, or does nothing.
pub open spec fn is_flag(op: Operation) -> bool {
    match op {
        Operation::CLC
        | Operation::CLD
        | Operation::CLI
        | Operation::CLV
        | Operation::SEC
        | Operation::SED
        | Operation::SEI
        | Operation::NOP => true,
        _ => false,
    }
}

/// The processor state after an operation that sets or clears one flag, or does nothing with operand byte `v`.
pub open spec fn flag_result(op: Operation, s: CpuState, v: u8) -> CpuState {
    match op {
        Operation::CLC => CpuState { carry: false, ..s },
        Operation::CLD => CpuState { decimal: false, ..s },
        Operation::CLI => CpuState { interruptd: false, ..s },
        Operation::CLV => CpuState { overflow: false, ..s },
        Operation::SEC => CpuState { carry: true, ..s },
        Operation::SED => CpuState { decimal: true, ..s },
        Operation::SEI => CpuState { interruptd: true, ..s },
        Operation::NOP => s,
        _ => s,
    }
}

/// Whether `op` is a load or a transfer between registers.
pub open spec fn is_transfer(op: Operation) -> bool {
    match op {
        Operation::LDA
        | Operation::LDX
        | Operation::LDY
        | Operation::TAX
        | Operation::TAY
        | Operation::TSX
        | Operation::TXA
        | Operation::TXS
        | Operation::TYA
        | Operation::LAX => true,
        _ => false,
    }
}

/// The processor state after a load or a transfer between registers with operand byte `v`.
pub open spec fn transfer_result(op: Operation, s: CpuState, v: u8) -> CpuState {
    match op {
        Operation::LDA => load_acc_state(s, v),
        Operation::LDX => with_result_flags(CpuState { x: v, ..s }, v),
        Operation::LDY => with_result_flags(CpuState { y: v, ..s }, v),
        Operation::TAX => with_result_flags(CpuState { x: s.acc, ..s }, s.acc),
        Operation::TAY => with_result_flags(CpuState { y: s.acc, ..s }, s.acc),
        Operation::TSX => with_result_flags(CpuState { x: s.sp, ..s }, s.sp),
        Operation::TXA => load_acc_state(s, s.x),
        Operation::TXS => CpuState { sp: s.x, ..s },
        Operation::TYA => load_acc_state(s, s.y),
        Operation::LAX => load_acc_state(CpuState { x: v, ..s }, v),
        _ => s,
    }
}

/// Whether `op` is an arithmetic, logical or comparing operation.
pub open spec fn is_arithmetic(op: Operation) -> bool {
    match op {
        Operation::ADC
        | Operation::AND
        | Operation::BIT
        | Operation::CMP
        | Operation::CPX
        | Operation::CPY
        | Operation::DEX
        | Operation::DEY
        | Operation::EOR
        | Operation::INX
        | Operation::INY
        | Operation::ORA
        | Operation::SBC => true,
        _ => false,
    }
}

/// The processor state after an arithmetic, logical or comparing operation with operand byte `v`.
pub open spec fn arithmetic_result(op: Operation, s: CpuState, v: u8) -> CpuState {
    match op {
        Operation::ADC => adc_state(s, v),
        Operation::AND => load_acc_state(s, s.acc & v),
        Operation::BIT => bit_state(s, v),
        Operation::CMP => compare_state(s, s.acc, v),
        Operation::CPX => compare_state(s, s.x, v),
        Operation::CPY => compare_state(s, s.y, v),
        Operation::DEX => with_result_flags(CpuState { x: decremented(s.x), ..s }, decremented(s.x)),
        Operation::DEY => with_result_flags(CpuState { y: decremented(s.y), ..s }, decremented(s.y)),
        Operation::EOR => load_acc_state(s, s.acc ^ v),
        Operation::INX => with_result_flags(CpuState { x: incremented(s.x), ..s }, incremented(s.x)),
        Operation::INY => with_result_flags(CpuState { y: incremented(s.y), ..s }, incremented(s.y)),
        Operation::ORA => load_acc_state(s, s.acc | v),
        Operation::SBC => sbc_state(s, v),
        _ => s,
    }
}

/// For an operation that touches registers and flags only: the processor
/// state afterwards, given the operand byte `v`.
pub open spec fn register_result(op: Operation, s: CpuState, v: u8) -> CpuState {
    if is_branch(op) {
        branch_result(op, s, v)
    } else if is_flag(op) {
        flag_result(op, s, v)
    } else if is_transfer(op) {
        transfer_result(op, s, v)
    } else if is_arithmetic(op) {
        arithmetic_result(op, s, v)
    } else if is_combined(op) {
        combined_result(op, s, v)
    } else {
        s
    }
}

/// The machine after a jump to the effective address, where there is one.
pub open spec fn m_jump<M: AddressSpace>(m: Machine<M::V>, target: Option<u16>, call: bool) -> Machine<
    M::V,
> {
    match target {
        None => m,
        Some(ptr) => if call {
            m_jsr::<M>(m, ptr)
        } else {
            with_cpu(m, CpuState { pc: ptr, ..m.cpu })
        },
    }
}

/// The machine after the decoded instruction `i` was carried out, the
/// program counter already standing behind the instruction.
#[verifier::opaque]
pub open spec fn m_execute<M: AddressSpace>(m: Machine<M::V>, i: Instruction) -> Machine<M::V> {
    if is_modify(i.op) {
        m_modify::<M>(m, i.op, i.write_target)
    } else if halts(i.op) {
        with_cpu(m, halted_state(m.cpu, i.opcode))
    } else {
        match i.op {
            Operation::BRK => m_interrupt::<M>(m, ADDRESS_BRK, true),
            Operation::JMP => m_jump::<M>(m, i.write_target, false),
            Operation::JSR => m_jump::<M>(m, i.write_target, true),
            Operation::PHA => m_push::<M>(m, m.cpu.acc),
            Operation::PHP => m_push::<M>(m, pushed_status(m.cpu)),
            Operation::PLA => m_pla::<M>(m),
            Operation::PLP => m_plp::<M>(m),
            Operation::RTI => m_rti::<M>(m),
            Operation::RTS => m_rts::<M>(m),
            Operation::STA => m_target_write::<M>(m, m.cpu.acc, i.write_target),
            Operation::STX => m_target_write::<M>(m, m.cpu.x, i.write_target),
            Operation::STY => m_target_write::<M>(m, m.cpu.y, i.write_target),
            _ => with_cpu(m, register_result(i.op, m.cpu, i.mode_args)),
        }
    }
}

/// The cycles that stay owed after the first cycle of an instruction.
pub open spec fn cycles_after_first(num_clocks: u8) -> int {
    if num_clocks > 0 {
        num_clocks - 1
    } else {
        0
    }
}

/// The machine after the instruction at the program counter was decoded,
/// the program counter moved behind it, and the instruction carried out:
/// the cycles it takes beyond its first become owed, unless it halted the
/// processor.
pub open spec fn m_step<M: AddressSpace>(m: Machine<M::V>) -> Machine<M::V> {
    let (i, num_bytes, m1) = m_decode::<M>(m);
    let m2 = with_cpu(m1, CpuState { pc: offset_pc(m1.cpu.pc, num_bytes), ..m1.cpu });
    let m3 = m_execute::<M>(m2, i);
    if m3.cpu.halted {
        m3
    } else {
        with_cpu(
            m3,
            CpuState {
                clocks_to_pause: pause_sum(m3.cpu.clocks_to_pause, cycles_after_first(i.num_clocks)),
                ..m3.cpu
            },
        )
    }
}

/// The machine after one cycle. The cycle counter advances. A halted
/// processor does nothing more. While cycles are owed, one of them is paid.
/// Otherwise the next instruction is carried out at once.
pub open spec fn m_clock<M: AddressSpace>(m: Machine<M::V>) -> Machine<M::V> {
    let counted = CpuState { counter: m.cpu.counter.wrapping_add(1), ..m.cpu };
    if m.cpu.halted {
        with_cpu(m, counted)
    } else if m.cpu.clocks_to_pause > 0 {
        with_cpu(m, CpuState { clocks_to_pause: (m.cpu.clocks_to_pause - 1) as u16, ..counted })
    } else {
        m_step::<M>(with_cpu(m, counted))
    }
}

/// What a trace line shows of an instruction that is about to be carried
/// out: the cycle count, the address and length of the instruction, the
/// instruction as decoded, and the registers before it takes effect.
#[derive(Copy, Clone, Debug, PartialEq, Eq, Structural)]
pub struct TraceRecord {
    pub counter: u64,
    pub pc: u16,
    pub num_bytes: u16,
    pub instruction: Instruction,
    pub acc: u8,
    pub x: u8,
    pub y: u8,
    pub status: u8,
    pub sp: u8,
}

/// The trace record of the instruction `i`, `num_bytes` long, decoded in state `s`.
pub open spec fn trace_of(s: CpuState, i: Instruction, num_bytes: u16) -> TraceRecord {
    TraceRecord {
        counter: s.counter,
        pc: s.pc,
        num_bytes: num_bytes,
        instruction: i,
        acc: s.acc,
        x: s.x,
        y: s.y,
        status: status_byte(s, true),
        sp: s.sp,
    }
}

/// The trace record of the instruction at the program counter.
pub open spec fn m_step_trace<M: AddressSpace>(m: Machine<M::V>) -> TraceRecord {
    let (i, num_bytes, m1) = m_decode::<M>(m);
    trace_of(m1.cpu, i, num_bytes)
}

/// What one cycle gives to trace: the record of the instruction it
/// starts, if tracing is on and it starts one.
pub open spec fn m_clock_trace<M: AddressSpace>(m: Machine<M::V>) -> Option<TraceRecord> {
    if m.cpu.halted || m.cpu.clocks_to_pause > 0 || !m.cpu.is_tracing {
        None
    } else {
        Some(
            m_step_trace::<M>(
                with_cpu(m, CpuState { counter: m.cpu.counter.wrapping_add(1), ..m.cpu }),
            ),
        )
    }
}

/// `pc + n` within sixteen bits.
pub open spec fn offset_pc(pc: u16, n: u16) -> u16 {
    ((pc + n) % 0x1_0000) as u16
}

/// The machine after `n` instructions were run back to back, none waiting
/// for the cycles the one before it took.
pub open spec fn m_run<M: AddressSpace>(m: Machine<M::V>, n: nat) -> Machine<M::V>
    decreases n,
{
    if n == 0 {
        m
    } else {
        m_run::<M>(
            m_clock::<M>(with_cpu(m, CpuState { clocks_to_pause: 0, ..m.cpu })),
            (n - 1) as nat,
        )
    }
}

impl<M: AddressSpace> C6502<M> {
    fn execute_modify(&mut self, i: Instruction)
        requires
            is_modify(i.op),
        ensures
            final(self)@ == m_modify::<M>(old(self)@, i.op, i.write_target),
    {
        let r = self.read_write_target(i.write_target);
        let w = match i.op {
            Operation::ASL => self.execute_asl(r),
            Operation::DEC => self.execute_dec(r),
            Operation::INC => self.execute_inc(r),
            Operation::LSR => self.execute_lsr(r),
            Operation::ROL => self.execute_rol(r),
            Operation::ROR => self.execute_ror(r),
            Operation::SAX => self.execute_sax(),
            Operation::DCP => self.execute_dcp(r),
            Operation::ISC => self.execute_isc(r),
            Operation::RLA => self.execute_rla(r),
            Operation::RRA => self.execute_rra(r),
            Operation::SLO => self.execute_slo(r),
            _ => self.execute_sre(r),
        };
        self.store_write_target(w, i.write_target);
    }

    fn execute_branch_op(&mut self, op: Operation, v: u8)
        ensures
            final(self)@ == with_cpu(old(self)@, branch_result(op, old(self)@.cpu, v)),
    {
        match op {
            Operation::BCC => self.execute_bcc(v),
            Operation::BCS => self.execute_bcs(v),
            Operation::BEQ => self.execute_beq(v),
            Operation::BMI => self.execute_bmi(v),
            Operation::BNE => self.execute_bne(v),
            Operation::BPL => self.execute_bpl(v),
            Operation::BVC => self.execute_bvc(v),
            Operation::BVS => self.execute_bvs(v),
            _ => {},
        }
    }

    fn execute_flag(&mut self, op: Operation, v: u8)
        ensures
            final(self)@ == with_cpu(old(self)@, flag_result(op, old(self)@.cpu, v)),
    {
        match op {
            Operation::CLC => self.execute_clc(),
            Operation::CLD => self.execute_cld(),
            Operation::CLI => self.execute_cli(),
            Operation::CLV => self.execute_clv(),
            Operation::SEC => self.execute_sec(),
            Operation::SED => self.execute_sed(),
            Operation::SEI => self.execute_sei(),
            Operation::NOP => self.execute_nop(),
            _ => {},
        }
    }

    fn execute_transfer(&mut self, op: Operation, v: u8)
        ensures
            final(self)@ == with_cpu(old(self)@, transfer_result(op, old(self)@.cpu, v)),
    {
        match op {
            Operation::LDA => self.execute_lda(v),
            Operation::LDX => self.execute_ldx(v),
            Operation::LDY => self.execute_ldy(v),
            Operation::TAX => self.execute_tax(),
            Operation::TAY => self.execute_tay(),
            Operation::TSX => self.execute_tsx(),
            Operation::TXA => self.execute_txa(),
            Operation::TXS => self.execute_txs(),
            Operation::TYA => self.execute_tya(),
            Operation::LAX => self.execute_lax(v),
            _ => {},
        }
    }

    fn execute_arithmetic(&mut self, op: Operation, v: u8)
        ensures
            final(self)@ == with_cpu(old(self)@, arithmetic_result(op, old(self)@.cpu, v)),
    {
        match op {
            Operation::ADC => self.execute_adc(v),
            Operation::AND => self.execute_and(v),
            Operation::BIT => self.execute_bit(v),
            Operation::CMP => self.execute_cmp(v),
            Operation::CPX => self.execute_cpx(v),
            Operation::CPY => self.execute_cpy(v),
            Operation::DEX => self.execute_dex(),
            Operation::DEY => self.execute_dey(),
            Operation::EOR => self.execute_eor(v),
            Operation::INX => self.execute_inx(),
            Operation::INY => self.execute_iny(),
            Operation::ORA => self.execute_ora(v),
            Operation::SBC => self.execute_sbc(v),
            _ => {},
        }
    }

    fn execute_combined(&mut self, op: Operation, v: u8)
        ensures
            final(self)@ == with_cpu(old(self)@, combined_result(op, old(self)@.cpu, v)),
    {
        match op {
            Operation::ANC => self.execute_anc(v),
            Operation::ALR => self.execute_alr(v),
            Operation::ARR => self.execute_arr(v),
            Operation::AXS => self.execute_axs(v),
            _ => {},
        }
    }

    fn execute_register(&mut self, op: Operation, v: u8)
        ensures
            final(self)@ == with_cpu(old(self)@, register_result(op, old(self)@.cpu, v)),
    {
        match op {
            Operation::BCC
            | Operation::BCS
            | Operation::BEQ
            | Operation::BMI
            | Operation::BNE
            | Operation::BPL
            | Operation::BVC
            | Operation::BVS => self.execute_branch_op(op, v),
            Operation::CLC
            | Operation::CLD
            | Operation::CLI
            | Operation::CLV
            | Operation::SEC
            | Operation::SED
            | Operation::SEI
            | Operation::NOP => self.execute_flag(op, v),
            Operation::LDA
            | Operation::LDX
            | Operation::LDY
            | Operation::TAX
            | Operation::TAY
            | Operation::TSX
            | Operation::TXA
            | Operation::TXS
            | Operation::TYA
            | Operation::LAX => self.execute_transfer(op, v),
            Operation::ADC
            | Operation::AND
            | Operation::BIT
            | Operation::CMP
            | Operation::CPX
            | Operation::CPY
            | Operation::DEX
            | Operation::DEY
            | Operation::EOR
            | Operation::INX
            | Operation::INY
            | Operation::ORA
            | Operation::SBC => self.execute_arithmetic(op, v),
            Operation::ANC | Operation::ALR | Operation::ARR | Operation::AXS => self.execute_combined(
                op,
                v,
            ),
            _ => {},
        }
    }

    fn execute_jump(&mut self, target: Option<u16>, call: bool)
        ensures
            final(self)@ == m_jump::<M>(old(self)@, target, call),
    {
        match target {
            None => {},
            Some(ptr) => {
                if call {
                    self.execute_jsr(ptr)
                } else {
                    self.execute_jmp(ptr)
                }
            },
        }
    }

    /// Carries out a decoded instruction.
    pub fn execute_instruction(&mut self, i: Instruction)
        ensures
            final(self)@ == m_execute::<M>(old(self)@, i),
    {
        reveal(m_execute);
        let v = i.mode_args;
        match i.op {
            Operation::ASL
            | Operation::DEC
            | Operation::INC
            | Operation::LSR
            | Operation::ROL
            | Operation::ROR
            | Operation::SAX
            | Operation::DCP
            | Operation::ISC
            | Operation::RLA
            | Operation::RRA
            | Operation::SLO
            | Operation::SRE => self.execute_modify(i),
            Operation::KIL
            | Operation::LAS
            | Operation::AHX
            | Operation::XAA
            | Operation::SHX
            | Operation::TAS
            | Operation::SHY => self.execute_unimplemented(i.opcode),
            Operation::BRK => self.execute_brk(),
            Operation::JMP => self.execute_jump(i.write_target, false),
            Operation::JSR => self.execute_jump(i.write_target, true),
            Operation::PHA => self.execute_pha(),
            Operation::PHP => self.execute_php(),
            Operation::PLA => self.execute_pla(),
            Operation::PLP => self.execute_plp(),
            Operation::RTI => self.execute_rti(),
            Operation::RTS => self.execute_rts(),
            Operation::STA => {
                let w = self.state.acc;
                self.store_write_target(w, i.write_target)
            },
            Operation::STX => {
                let w = self.state.x;
                self.store_write_target(w, i.write_target)
            },
            Operation::STY => {
                let w = self.state.y;
                self.store_write_target(w, i.write_target)
            },
            _ => self.execute_register(i.op, v),
        }
    }

    /// What a trace line shows of the decoded instruction `i`, `num_bytes`
    /// long, while the program counter still stands at its opcode.
    pub fn trace_record(&self, num_bytes: u16, i: Instruction) -> (r: TraceRecord)
        ensures
            r == trace_of(self@.cpu, i, num_bytes),
    {
        TraceRecord {
            counter: self.state.counter,
            pc: self.state.pc,
            num_bytes: num_bytes,
            instruction: i,
            acc: self.state.acc,
            x: self.state.x,
            y: self.state.y,
            status: self.status_register_byte(true),
            sp: self.state.sp,
        }
    }

    /// Decodes and carries out the instruction at the program counter, and
    /// returns what a trace line shows of it.
    pub fn step_traced(&mut self) -> (r: TraceRecord)
        ensures
            final(self)@ == m_step::<M>(old(self)@),
            r == m_step_trace::<M>(old(self)@),
    {
        let (i, num_bytes) = self.decode_instruction();
        let r = self.trace_record(num_bytes, i);
        self.state.pc = advance_pc(self.state.pc, num_bytes);
        self.execute_instruction(i);
        if !self.state.halted {
            self.state.clocks_to_pause = add_pause(self.state.clocks_to_pause, i.num_clocks);
        }
        r
    }

    /// Decodes and carries out the instruction at the program counter.
    pub fn step(&mut self)
        ensures
            final(self)@ == m_step::<M>(old(self)@),
    {
        let _ = self.step_traced();
    }

    /// Advances the processor by one cycle. While tracing is on, a cycle
    /// that starts an instruction returns its trace record.
    pub fn clock_traced(&mut self) -> (r: Option<TraceRecord>)
        ensures
            final(self)@ == m_clock::<M>(old(self)@),
            r == m_clock_trace::<M>(old(self)@),
    {
        self.state.counter = self.state.counter.wrapping_add(1);
        if self.state.halted {
            return None;
        }
        if self.state.clocks_to_pause > 0 {
            self.state.clocks_to_pause = self.state.clocks_to_pause - 1;
            return None;
        }
        let tracing = self.state.is_tracing;
        let r = self.step_traced();
        if tracing {
            Some(r)
        } else {
            None
        }
    }

    /// Advances the processor by one cycle.
    pub fn clock(&mut self)
        ensures
            final(self)@ == m_clock::<M>(old(self)@),
    {
        let _ = self.clock_traced();
    }

    /// Runs `n` instructions back to back.
    pub fn run_instructions(&mut self, n: usize)
        ensures
            final(self)@ == m_run::<M>(old(self)@, n as nat),
    {
        let mut i: usize = 0;
        while i < n
            invariant
                i <= n,
                m_run::<M>(self@, (n - i) as nat) == m_run::<M>(old(self)@, n as nat),
            decreases n - i,
        {
            self.state.clocks_to_pause = 0;
            self.clock();
            i = i + 1;
        }
    }

    /// Enters the non-maskable interrupt handler.
    pub fn nmi(&mut self)
        ensures
            final(self)@ == m_interrupt::<M>(old(self)@, ADDRESS_NMI, false),
    {
        let pc = self.state.pc;
        let status = self.status_register_byte(false);
        self.push_stack16(pc);
        self.push_stack(status);
        self.state.interruptd = true;
        self.state.pc = self.peek16(ADDRESS_NMI);
    }

    /// Enters the interrupt handler unless interrupts are disabled.
    pub fn irq(&mut self)
        ensures
            final(self)@ == (if old(self)@.cpu.interruptd {
                old(self)@
            } else {
                m_interrupt::<M>(old(self)@, ADDRESS_BRK, false)
            }),
    {
        if self.state.interruptd {
            return ;
        }
        let pc = self.state.pc;
        let status = self.status_register_byte(false);
        self.push_stack16(pc);
        self.push_stack(status);
        self.state.interruptd = true;
        self.state.pc = self.peek16(ADDRESS_BRK);
    }
}


impl<M: AddressSpace> Clocked for C6502<M> {
    open spec fn clocked(v: Machine<M::V>) -> Machine<M::V> {
        m_clock::<M>(v)
    }

    fn clock(&mut self) {
        C6502::clock(self)
    }
}


/// The break points of the debugger: whether to stop at the next
/// instruction, at the next non-maskable interrupt, at the next interrupt.
#[derive(Copy, Clone, Debug, PartialEq, Eq, Structural)]
pub struct C6502Debugger {
    pub break_step: bool,
    pub break_nmi: bool,
    pub break_irq: bool,
}

/// What the debugger makes of a line typed at its prompt.
#[derive(Copy, Clone, Debug, PartialEq, Eq, Structural)]
pub enum DebuggerReply {
    /// Go on running.
    Resume,
    /// End the program.
    Quit,
    /// The line is no command: ask again.
    Unknown,
}

/// The break points after the line `line` was typed: all are cleared,
/// then `s` or an empty line sets the step break, `v` the break at the
/// non-maskable interrupt, `sc` the break at the interrupt.
pub open spec fn debugger_after(line: Seq<u8>) -> C6502Debugger {
    C6502Debugger {
        break_step: line == seq![0x73u8, 0x0Au8] || line == seq![0x0Au8],
        break_nmi: line == seq![0x76u8, 0x0Au8],
        break_irq: line == seq![0x73u8, 0x63u8, 0x0Au8],
    }
}

/// What the debugger answers to the line `line`: `e` quits, `s`, `v`,
/// `sc`, `c` and the empty line resume, anything else is unknown.
pub open spec fn debugger_reply(line: Seq<u8>) -> DebuggerReply {
    if line == seq![0x65u8, 0x0Au8] {
        DebuggerReply::Quit
    } else if line == seq![0x73u8, 0x0Au8] || line == seq![0x0Au8] || line == seq![0x76u8, 0x0Au8]
        || line == seq![0x73u8, 0x63u8, 0x0Au8] || line == seq![0x63u8, 0x0Au8] {
        DebuggerReply::Resume
    } else {
        DebuggerReply::Unknown
    }
}

impl C6502Debugger {
    /// A debugger without break points.
    pub fn new() -> (r: C6502Debugger)
        ensures
            r == (C6502Debugger { break_step: false, break_nmi: false, break_irq: false }),
    {
        C6502Debugger { break_step: false, break_nmi: false, break_irq: false }
    }

    /// Takes a line typed at the prompt, with its line feed.
    pub fn prompt(&mut self, line: &[u8]) -> (r: DebuggerReply)
        ensures
            *final(self) == debugger_after(line@),
            r == debugger_reply(line@),
    {
        self.break_step = false;
        self.break_nmi = false;
        self.break_irq = false;
        let n = line.len();
        if n == 1 && line[0] == 0x0A {
            proof {
                assert(line@ =~= seq![0x0Au8]);
            }
            self.break_step = true;
            DebuggerReply::Resume
        } else if n == 2 && line[1] == 0x0A {
            proof {
                assert(line@ =~= seq![line@[0], 0x0Au8]);
            }
            if line[0] == 0x65 {
                DebuggerReply::Quit
            } else if line[0] == 0x73 {
                self.break_step = true;
                DebuggerReply::Resume
            } else if line[0] == 0x76 {
                self.break_nmi = true;
                DebuggerReply::Resume
            } else if line[0] == 0x63 {
                DebuggerReply::Resume
            } else {
                DebuggerReply::Unknown
            }
        } else if n == 3 && line[0] == 0x73 && line[1] == 0x63 && line[2] == 0x0A {
            proof {
                assert(line@ =~= seq![0x73u8, 0x63u8, 0x0Au8]);
            }
            self.break_irq = true;
            DebuggerReply::Resume
        } else {
            proof {
                assert(line@ != seq![0x0Au8]) by {
                    if line@ == seq![0x0Au8] {
                        assert(seq![0x0Au8].len() == 1);
                        assert(seq![0x0Au8][0] == 0x0A);
                    }
                }
                assert forall|a: u8| line@ != #[trigger] seq![a, 0x0Au8] by {
                    if line@ == seq![a, 0x0Au8] {
                        assert(seq![a, 0x0Au8].len() == 2);
                        assert(seq![a, 0x0Au8][1] == 0x0A);
                    }
                }
                assert(line@ != seq![0x73u8, 0x63u8, 0x0Au8]) by {
                    if line@ == seq![0x73u8, 0x63u8, 0x0Au8] {
                        assert(seq![0x73u8, 0x63u8, 0x0Au8].len() == 3);
                        assert(seq![0x73u8, 0x63u8, 0x0Au8][0] == 0x73);
                        assert(seq![0x73u8, 0x63u8, 0x0Au8][1] == 0x63);
                        assert(seq![0x73u8, 0x63u8, 0x0Au8][2] == 0x0A);
                    }
                }
            }
            DebuggerReply::Unknown
        }
    }

    /// Whether to stop for the prompt before the next instruction.
    pub fn on_step(&self) -> (r: bool)
        ensures
            r == self.break_step,
    {
        self.break_step
    }

    /// Whether to stop for the prompt at a non-maskable interrupt.
    pub fn on_nmi(&self) -> (r: bool)
        ensures
            r == self.break_nmi,
    {
        self.break_nmi
    }

    /// Whether to stop for the prompt at an interrupt.
    pub fn on_irq(&self) -> (r: bool)
        ensures
            r == self.break_irq,
    {
        self.break_irq
    }
}


/// Whatever the bus, one instruction leaves the stack pointer within a
/// byte and the program counter within sixteen bits, and every slot the
/// stack pointer can name lies in the stack page.
pub proof fn lemma_registers_stay_in_range<M: AddressSpace>(m: Machine<M::V>)
    ensures
        0 <= m_step::<M>(m).cpu.sp <= 255,
        0 <= m_step::<M>(m).cpu.pc <= 65535,
        0x0100 <= STACK_PAGE + m_step::<M>(m).cpu.sp <= 0x01FF,
        0 <= m_clock::<M>(m).cpu.sp <= 255,
        0 <= m_clock::<M>(m).cpu.pc <= 65535,
        0x0100 <= STACK_PAGE + m_clock::<M>(m).cpu.sp <= 0x01FF,
{
}

/// A push writes into the stack page and a pull reads from it.
pub proof fn lemma_stack_stays_in_page<M: AddressSpace>(m: Machine<M::V>, v: u8)
    ensures
        m_push::<M>(m, v) == (Machine {
            cpu: CpuState { sp: decremented(m.cpu.sp), open_bus: v, ..m.cpu },
            bus: M::after_poke(m.bus, (0x0100 + m.cpu.sp) as u16, v),
        }),
        m_pop::<M>(m).1.bus == M::after_peek(m.bus, (0x0100 + incremented(m.cpu.sp)) as u16),
        m_pop::<M>(m).1.cpu.sp == incremented(m.cpu.sp),
        0x0100 <= 0x0100 + m.cpu.sp <= 0x01FF,
        0x0100 <= 0x0100 + incremented(m.cpu.sp) <= 0x01FF,
{
}

/// The status register as a byte has bits 4 and 5 clear when no
/// instruction looks at it.
pub proof fn lemma_status_bits(s: CpuState)
    ensures
        status_byte(s, false) & 0x30 == 0,
        status_byte(s, false) <= 207,
{
    let c = flag_bit(s.carry) as u8;
    let z = flag_bit(s.zero) as u8;
    let i = flag_bit(s.interruptd) as u8;
    let d = flag_bit(s.decimal) as u8;
    let v = flag_bit(s.overflow) as u8;
    let n = flag_bit(s.negative) as u8;
    assert(c <= 1 && z <= 1 && i <= 1 && d <= 1 && v <= 1 && n <= 1 ==> ((c + 2 * z + 4 * i + 8 * d
        + 64 * v + 128 * n) as u8) & 0x30 == 0) by (bit_vector);
}

/// The status byte that PHP and BRK push has bits 4 and 5 set and holds
/// the six flags in the other bits; the one pushed when a device
/// interrupts has bits 4 and 5 clear. Either gives the flags back when it
/// is pulled.
pub proof fn lemma_pushed_status(s: CpuState, t: CpuState)
    ensures
        pushed_status(t) & 0x30 == 0x30,
        pushed_status(t) & 0xCF == status_byte(t, false),
        entry_status(t, true) == pushed_status(t),
        entry_status(t, false) & 0x30 == 0,
        with_status(s, pushed_status(t)).carry == t.carry,
        with_status(s, pushed_status(t)).zero == t.zero,
        with_status(s, pushed_status(t)).interruptd == t.interruptd,
        with_status(s, pushed_status(t)).decimal == t.decimal,
        with_status(s, pushed_status(t)).overflow == t.overflow,
        with_status(s, pushed_status(t)).negative == t.negative,
{
    lemma_status_bits(t);
    let flags = status_byte(t, false);
    assert(flags & 0x30 == 0 ==> (flags + 48) as u8 & 0x30 == 0x30 && (flags + 48) as u8 & 0xCF
        == flags) by (bit_vector);
}

/// The flags read back from a status byte are the flags it was made of;
/// the status register as a byte has bit 4 clear, and bit 5 set exactly
/// when an instruction looks at it.
pub proof fn lemma_status_round_trip(s: CpuState, t: CpuState, is_instruction: bool)
    ensures
        with_status(s, status_byte(t, is_instruction)).carry == t.carry,
        with_status(s, status_byte(t, is_instruction)).zero == t.zero,
        with_status(s, status_byte(t, is_instruction)).interruptd == t.interruptd,
        with_status(s, status_byte(t, is_instruction)).decimal == t.decimal,
        with_status(s, status_byte(t, is_instruction)).overflow == t.overflow,
        with_status(s, status_byte(t, is_instruction)).negative == t.negative,
        (status_byte(t, is_instruction) / 32) % 2 == flag_bit(is_instruction),
        (status_byte(t, is_instruction) / 16) % 2 == 0,
        with_status(s, status_byte(t, is_instruction)).acc == s.acc,
        with_status(s, status_byte(t, is_instruction)).pc == s.pc,
        with_status(s, status_byte(t, is_instruction)).sp == s.sp,
{
}

/// The flags of an addition: carry says that the sum left a byte, and
/// overflow is bit 7 of `(a ^ result) & (m ^ result)`.
pub proof fn lemma_adc_flags(s: CpuState, m: u8)
    ensures
        adc_state(s, m).carry == (s.acc + m + flag_bit(s.carry) > 0xFF),
        adc_state(s, m).acc == (s.acc + m + flag_bit(s.carry)) % 256,
        adc_state(s, m).overflow == (((s.acc ^ adc_state(s, m).acc) & (m ^ adc_state(s, m).acc)
            & 0x80) != 0),
        adc_state(s, m).zero == (adc_state(s, m).acc == 0),
        adc_state(s, m).negative == (adc_state(s, m).acc >= 0x80),
        adc_state(s, m).decimal == s.decimal,
        adc_state(s, m).interruptd == s.interruptd,
{
    let a = s.acc;
    let r = adc_state(s, m).acc;
    assert((((a ^ r) & (m ^ r) & 0x80) != 0) == ((a >= 128) == (m >= 128) && (r >= 128) != (a
        >= 128))) by (bit_vector);
}

/// The flags of a subtraction: it is the addition of the complement, so
/// the accumulator becomes `a - m - (1 - carry)` within a byte and carry
/// says that no borrow was needed.
pub proof fn lemma_sbc_flags(s: CpuState, m: u8)
    ensures
        sbc_state(s, m).acc == (s.acc - m - (1 - flag_bit(s.carry))) % 256,
        sbc_state(s, m).carry == (s.acc - m - (1 - flag_bit(s.carry)) >= 0),
{
}

/// The flags of a comparison: carry says `a >= m`, zero says `a == m`,
/// negative is bit 7 of `a - m` within a byte.
pub proof fn lemma_compare_flags(s: CpuState, a: u8, m: u8)
    ensures
        compare_state(s, a, m).carry == (a >= m),
        compare_state(s, a, m).zero == (a == m),
        compare_state(s, a, m).negative == ((a.wrapping_sub(m) & 0x80) != 0),
{
    let d = a.wrapping_sub(m);
    assert(((d & 0x80) != 0) == (d >= 128)) by (bit_vector);
}

/// A rotation to the right takes the carry into bit 7 and gives bit 0 to
/// the carry; a rotation to the left takes the carry into bit 0 and gives
/// bit 7 to the carry. Nine rotations in one direction restore the byte
/// and the carry; here: one to the left undoes one to the right.
pub proof fn lemma_rotate_inverse(s: CpuState, v: u8)
    ensures
        rotated_left(rotated_right(v, s.carry), ror_state(s, v).carry) == v,
        rol_state(ror_state(s, v), rotated_right(v, s.carry)).carry == s.carry,
        rotated_right(rotated_left(v, s.carry), rol_state(s, v).carry) == v,
        ror_state(rol_state(s, v), rotated_left(v, s.carry)).carry == s.carry,
{
}

/// While cycles are owed and the processor is not halted, `k` cycles pay
/// `k` of them and do nothing else: no instruction is decoded, no register
/// and no byte of the bus changes.
pub proof fn lemma_paused_clocks<M: AddressSpace>(m: Machine<M::V>, k: nat)
    requires
        !m.cpu.halted,
        k <= m.cpu.clocks_to_pause,
    ensures
        clocked_times::<C6502<M>>(m, k).bus == m.bus,
        clocked_times::<C6502<M>>(m, k).cpu == (CpuState {
            clocks_to_pause: (m.cpu.clocks_to_pause - k) as u16,
            counter: clocked_times::<C6502<M>>(m, k).cpu.counter,
            ..m.cpu
        }),
    decreases k,
{
    if k > 0 {
        lemma_paused_clocks::<M>(m_clock::<M>(m), (k - 1) as nat);
    }
}

/// A halted processor stays halted: its cycles only count.
pub proof fn lemma_halted_stays<M: AddressSpace>(m: Machine<M::V>, k: nat)
    requires
        m.cpu.halted,
    ensures
        clocked_times::<C6502<M>>(m, k).bus == m.bus,
        clocked_times::<C6502<M>>(m, k).cpu == (CpuState {
            counter: clocked_times::<C6502<M>>(m, k).cpu.counter,
            ..m.cpu
        }),
    decreases k,
{
    if k > 0 {
        lemma_halted_stays::<M>(m_clock::<M>(m), (k - 1) as nat);
    }
}

/// Every opcode has an entry; an entry takes at most eight cycles and at
/// most one more for a page crossing, and the entries of the operations
/// that halt the processor are the only ones that take fewer than two.
pub proof fn lemma_table_covers(opcode: u8)
    ensures
        !halts(OPCODE_TABLE[opcode as int].0) ==> OPCODE_TABLE[opcode as int].2 >= 2,
        OPCODE_TABLE[opcode as int].2 <= 8,
        OPCODE_TABLE[opcode as int].3 <= 1,
{
}


/// What was pushed is pulled again, and the stack pointer is back where
/// it was, on every bus that keeps the byte written to the stack slot.
pub proof fn lemma_push_then_pull<M: AddressSpace>(m: Machine<M::V>, v: u8)
    requires
        M::maps(
            M::after_poke(m.bus, (STACK_PAGE + m.cpu.sp) as u16, v),
            (STACK_PAGE + m.cpu.sp) as u16,
        ),
        M::value_at(
            M::after_poke(m.bus, (STACK_PAGE + m.cpu.sp) as u16, v),
            (STACK_PAGE + m.cpu.sp) as u16,
        ) == v,
    ensures
        m_pop::<M>(m_push::<M>(m, v)).0 == v,
        m_pop::<M>(m_push::<M>(m, v)).1.cpu.sp == m.cpu.sp,
{
}

/// A word is the word of its low and its high byte.
pub proof fn lemma_word_of_bytes(v: u16)
    ensures
        word_of((v % 256) as u8, (v / 256) as u8) == v,
{
}

/// On a memory that holds the stack page, a subroutine call followed by a
/// return leaves the program counter and the stack pointer where they were
/// before the call: at the instruction behind the call.
pub proof fn lemma_call_then_return(m: Machine<Seq<u8>>, ptr: u16)
    requires
        m.bus.len() >= 0x0200,
    ensures
        m_rts::<crate::mapper::Ram>(m_jsr::<crate::mapper::Ram>(m, ptr)).cpu.pc == m.cpu.pc,
        m_rts::<crate::mapper::Ram>(m_jsr::<crate::mapper::Ram>(m, ptr)).cpu.sp == m.cpu.sp,
        m_jsr::<crate::mapper::Ram>(m, ptr).cpu.pc == ptr,
        m_jsr::<crate::mapper::Ram>(m, ptr).bus.len() == m.bus.len(),
{
    let pushed = offset_address(m.cpu.pc, -1i16);
    lemma_word_of_bytes(pushed);
    let high = (pushed / 256) as u8;
    let low = (pushed % 256) as u8;
    let m1 = m_push::<crate::mapper::Ram>(m, high);
    let m2 = m_push::<crate::mapper::Ram>(m1, low);
    assert(m2 == m_push16::<crate::mapper::Ram>(m, pushed));
    let called = with_cpu(m2, CpuState { pc: ptr, ..m2.cpu });
    let (l, m3) = m_pop::<crate::mapper::Ram>(called);
    assert(l == low);
    let (h, m4) = m_pop::<crate::mapper::Ram>(m3);
    assert(h == high);
    assert(m_pop16::<crate::mapper::Ram>(called).0 == pushed);
}

/// Whether every read and every write on the bus `M` keeps the property `inv`.
pub open spec fn bus_keeps<M: AddressSpace>(inv: spec_fn(M::V) -> bool) -> bool {
    &&& forall|v: M::V, p: u16| inv(v) ==> inv(#[trigger] M::after_peek(v, p))
    &&& forall|v: M::V, p: u16, x: u8| inv(v) ==> inv(#[trigger] M::after_poke(v, p, x))
}

/// Finding an operand keeps what every read and write keeps.
pub proof fn lemma_decode_mode_keeps<M: AddressSpace>(
    inv: spec_fn(M::V) -> bool,
    m: Machine<M::V>,
    mode: AddressingMode,
    ptr: u16,
    read: bool,
)
    requires
        bus_keeps::<M>(inv),
        inv(m.bus),
    ensures
        inv(m_decode_mode::<M>(m, mode, ptr, read).1.bus),
{
}

/// Entering an interrupt handler keeps what every read and write keeps.
pub proof fn lemma_interrupt_keeps<M: AddressSpace>(
    inv: spec_fn(M::V) -> bool,
    m: Machine<M::V>,
    vector: u16,
    is_instruction: bool,
)
    requires
        bus_keeps::<M>(inv),
        inv(m.bus),
    ensures
        inv(m_interrupt::<M>(m, vector, is_instruction).bus),
{
}

/// A read-modify-write keeps what every read and write keeps.
pub proof fn lemma_modify_keeps<M: AddressSpace>(
    inv: spec_fn(M::V) -> bool,
    m: Machine<M::V>,
    op: Operation,
    target: Option<u16>,
)
    requires
        bus_keeps::<M>(inv),
        inv(m.bus),
    ensures
        inv(m_modify::<M>(m, op, target).bus),
{
}

/// The operations on the stack, the jumps and the stores keep what every
/// read and write keeps.
pub proof fn lemma_stack_keeps<M: AddressSpace>(
    inv: spec_fn(M::V) -> bool,
    m: Machine<M::V>,
    target: Option<u16>,
    v: u8,
    call: bool,
)
    requires
        bus_keeps::<M>(inv),
        inv(m.bus),
    ensures
        inv(m_push::<M>(m, v).bus),
        inv(m_pla::<M>(m).bus),
        inv(m_plp::<M>(m).bus),
        inv(m_rti::<M>(m).bus),
        inv(m_rts::<M>(m).bus),
        inv(m_jump::<M>(m, target, call).bus),
        inv(m_target_write::<M>(m, v, target).bus),
{
}

/// Carrying out an instruction keeps what every read and write keeps.
pub proof fn lemma_execute_keeps<M: AddressSpace>(
    inv: spec_fn(M::V) -> bool,
    m: Machine<M::V>,
    i: Instruction,
)
    requires
        bus_keeps::<M>(inv),
        inv(m.bus),
    ensures
        inv(m_execute::<M>(m, i).bus),
{
    let after = m_execute::<M>(m, i);
    assert(after == m_modify::<M>(m, i.op, i.write_target) || after.bus == m.bus || after
        == m_interrupt::<M>(m, ADDRESS_BRK, true) || after == m_jump::<M>(m, i.write_target, false)
        || after == m_jump::<M>(m, i.write_target, true) || after == m_push::<M>(m, m.cpu.acc)
        || after == m_push::<M>(m, pushed_status(m.cpu)) || after == m_pla::<M>(m) || after
        == m_plp::<M>(m) || after == m_rti::<M>(m) || after == m_rts::<M>(m) || after
        == m_target_write::<M>(m, m.cpu.acc, i.write_target) || after == m_target_write::<M>(
        m,
        m.cpu.x,
        i.write_target,
    ) || after == m_target_write::<M>(m, m.cpu.y, i.write_target)) by {
        reveal(m_execute);
    }
    lemma_modify_keeps::<M>(inv, m, i.op, i.write_target);
    lemma_interrupt_keeps::<M>(inv, m, ADDRESS_BRK, true);
    lemma_stack_keeps::<M>(inv, m, i.write_target, m.cpu.acc, false);
    lemma_stack_keeps::<M>(inv, m, i.write_target, m.cpu.x, true);
    lemma_stack_keeps::<M>(inv, m, i.write_target, m.cpu.y, true);
    lemma_stack_keeps::<M>(inv, m, i.write_target, pushed_status(m.cpu), true);
}

/// A cycle of the processor keeps whatever every read and every write on
/// its bus keeps: the processor touches the bus by reads and writes only.
pub proof fn lemma_clock_keeps<M: AddressSpace>(inv: spec_fn(M::V) -> bool, m: Machine<M::V>)
    requires
        bus_keeps::<M>(inv),
        inv(m.bus),
    ensures
        inv(m_clock::<M>(m).bus),
{
    reveal(m_decode);
    let counted = with_cpu(m, CpuState { counter: m.cpu.counter.wrapping_add(1), ..m.cpu });
    let (opcode, m1) = m_read::<M>(counted, counted.cpu.pc);
    let entry = OPCODE_TABLE[opcode as int];
    lemma_decode_mode_keeps::<M>(
        inv,
        m1,
        entry.1,
        next_address(counted.cpu.pc),
        generates_read(entry.0),
    );
    let (i, num_bytes, m2) = m_decode::<M>(counted);
    let m3 = with_cpu(m2, CpuState { pc: offset_pc(m2.cpu.pc, num_bytes), ..m2.cpu });
    lemma_execute_keeps::<M>(inv, m3, i);
}

/// Carrying out an instruction leaves the cycle counter alone.
pub proof fn lemma_execute_keeps_counter<M: AddressSpace>(m: Machine<M::V>, i: Instruction)
    ensures
        m_execute::<M>(m, i).cpu.counter == m.cpu.counter,
{
    reveal(m_execute);
}

/// Every cycle counts: whatever the processor does in a cycle, the cycle
/// counter advances by one, within its width.
pub proof fn lemma_clock_counts<M: AddressSpace>(m: Machine<M::V>)
    ensures
        m_clock::<M>(m).cpu.counter == m.cpu.counter.wrapping_add(1),
{
    reveal(m_decode);
    let counted = with_cpu(m, CpuState { counter: m.cpu.counter.wrapping_add(1), ..m.cpu });
    let (i, num_bytes, m2) = m_decode::<M>(counted);
    let m3 = with_cpu(m2, CpuState { pc: offset_pc(m2.cpu.pc, num_bytes), ..m2.cpu });
    lemma_execute_keeps_counter::<M>(m3, i);
}

} // verus!
