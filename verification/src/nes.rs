//! The console: the processor bus with everything that sits on it, the
//! clock driver, and the cartridge binding.

use crate::apu::{apu_clocked, Apu, ApuView};
use crate::common::{clocked_times, run_clocks, Clocked};
use crate::c6502::{
    bus_keeps, lemma_clock_keeps, m_clock_trace, m_reset, TraceRecord,
    m_clock, m_interrupt, m_read_pair, pause_sum, with_cpu, C6502, CpuState, Machine, ADDRESS_BRK,
    ADDRESS_NMI, ADDRESS_RESET,
};
use crate::joystick::{joystick_after_read, joystick_after_write, strobed, Joystick};
use crate::mapper::{
    mapper_maps, mapper_value, next_address, AddressSpace, BusError, Device, DeviceView, Mapper,
    MappingView, MirroredAddressSpace, MirroredView, Ram, Rom,
};
use crate::ppu::{
    bus_latched, dma_written, lemma_dma_fills_oam, port_read, port_value, port_written, ppu_dot,
    ppu_dots, ppu_port_at, ticked, ticks, CpuPpuInterconnect, PaletteControl, Ppu, PpuPort,
    PpuState, PpuView,
};
use crate::mapper::{
    lemma_mapper_round_trip, mapper_bytes, mapper_decoded, table_fits, tables_alike,
};
use crate::ppu::SpriteSlot;
use crate::savestate::{
    apu_core_at, apu_core_bytes, cpu_state_at, cpu_state_bytes, get_apu_core, get_cpu_state,
    get_joystick, get_ppu_state, get_sprite_slot, joystick_at, joystick_bytes,
    lemma_apu_core_at, lemma_cpu_state_at, lemma_joystick_at, lemma_ppu_state_at,
    lemma_sprite_slot_at, ppu_state_at,
    ppu_state_bytes, put_apu_core, put_cpu_state, put_joystick, put_ppu_state, put_sprite_slot,
    sprite_slot_at, sprite_slot_bytes, APU_CORE_SIZE, CPU_STATE_SIZE, JOYSTICK_SIZE,
    PPU_STATE_SIZE, SPRITE_SLOT_SIZE,
};
use crate::serialization::{
    blob_at, blob_bytes, flag_at, flag_bytes, get_blob, get_flag, get_u32, get_u64, le_bytes,
    lemma_blob_at, lemma_concat_assoc, lemma_number_at, put_blob, put_flag, put_u32, put_u64, u32_at, u64_at,
    LoadError,
};
use vstd::prelude::*;

verus! {

/// Everything the processor reaches through its bus: the 2 KiB of work
/// memory, the picture processor behind its bridge, the audio processor,
/// the two controllers and the cartridge.
pub struct CpuBus {
    pub ram: Ram,
    pub bridge: CpuPpuInterconnect,
    pub apu: Apu,
    pub joystick1: Joystick,
    pub joystick2: Joystick,
    pub cartridge: Mapper,
    /// Raised by a write to `$4014` until the clock driver has stalled the
    /// processor for the transfer.
    pub dma_pending: bool,
}

/// The mathematical state of a [`CpuBus`].
pub struct CpuBusView {
    pub ram: Seq<u8>,
    pub ppu: PpuView,
    pub apu: ApuView,
    pub joystick1: Joystick,
    pub joystick2: Joystick,
    pub cartridge: Seq<MappingView>,
    pub dma_pending: bool,
}

impl View for CpuBus {
    type V = CpuBusView;

    open spec fn view(&self) -> CpuBusView {
        CpuBusView {
            ram: self.ram@,
            ppu: self.bridge@,
            apu: self.apu@,
            joystick1: self.joystick1,
            joystick2: self.joystick2,
            cartridge: self.cartridge@,
            dma_pending: self.dma_pending,
        }
    }
}

/// What sits at an address of the processor bus.
#[derive(Copy, Clone, Debug, PartialEq, Eq, Structural)]
pub enum Region {
    /// `$0000..=$1FFF`: the work memory, repeated every `$800`.
    WorkRam,
    /// `$2000..=$3FFF`: the eight registers of the picture processor, repeated.
    PpuRegisters,
    /// `$4000..=$4013` and `$4015`; writes to `$4017` go here too.
    ApuRegisters,
    /// `$4014`: the trigger of the sprite transfer.
    OamDma,
    /// `$4016`: the first controller, and on writes the strobe of both.
    Joystick1,
    /// `$4017` on reads: the second controller.
    Joystick2,
    /// `$4018..=$401F`: reads as zero, writes are dropped.
    Reserved,
    /// `$4020..=$FFFF`.
    Cartridge,
}

/// What answers a read of `ptr`.
pub open spec fn region_of(ptr: u16) -> Region {
    if ptr < 0x2000 {
        Region::WorkRam
    } else if ptr < 0x4000 {
        Region::PpuRegisters
    } else if ptr == 0x4014 {
        Region::OamDma
    } else if ptr == 0x4016 {
        Region::Joystick1
    } else if ptr == 0x4017 {
        Region::Joystick2
    } else if ptr < 0x4018 {
        Region::ApuRegisters
    } else if ptr < 0x4020 {
        Region::Reserved
    } else {
        Region::Cartridge
    }
}

/// Computes [`region_of`].
pub fn find_region(ptr: u16) -> (r: Region)
    ensures
        r == region_of(ptr),
{
    if ptr < 0x2000 {
        Region::WorkRam
    } else if ptr < 0x4000 {
        Region::PpuRegisters
    } else if ptr == 0x4014 {
        Region::OamDma
    } else if ptr == 0x4016 {
        Region::Joystick1
    } else if ptr == 0x4017 {
        Region::Joystick2
    } else if ptr < 0x4018 {
        Region::ApuRegisters
    } else if ptr < 0x4020 {
        Region::Reserved
    } else {
        Region::Cartridge
    }
}

/// The register of the picture processor that `ptr` in `$2000..=$3FFF` names.
pub open spec fn mirrored_port(ptr: u16) -> PpuPort {
    ppu_port_at((0x2000 + ptr % 8) as u16)->0
}

/// Whether the bus answers at `ptr`.
pub open spec fn bus_maps(v: CpuBusView, ptr: u16) -> bool {
    match region_of(ptr) {
        Region::WorkRam => ptr % 0x800 < v.ram.len(),
        Region::Cartridge => mapper_maps(v.cartridge, ptr),
        _ => true,
    }
}

/// The byte a read of the mapped address `ptr` returns.
pub open spec fn bus_value(v: CpuBusView, ptr: u16) -> u8 {
    match region_of(ptr) {
        Region::WorkRam => v.ram[(ptr % 0x800) as int],
        Region::PpuRegisters => port_value(v.ppu, mirrored_port(ptr)),
        Region::OamDma => v.ppu.state.open_bus,
        Region::Joystick1 => strobed(v.joystick1).buttons_register % 2,
        Region::Joystick2 => strobed(v.joystick2).buttons_register % 2,
        Region::ApuRegisters => <Apu as AddressSpace>::value_at(v.apu, ptr),
        Region::Reserved => 0,
        Region::Cartridge => mapper_value(v.cartridge, ptr),
    }
}

/// The bus after a read of `ptr`.
pub open spec fn bus_after_read(v: CpuBusView, ptr: u16) -> CpuBusView {
    match region_of(ptr) {
        Region::PpuRegisters => CpuBusView { ppu: port_read(v.ppu, mirrored_port(ptr)), ..v },
        Region::Joystick1 => CpuBusView { joystick1: joystick_after_read(v.joystick1), ..v },
        Region::Joystick2 => CpuBusView { joystick2: joystick_after_read(v.joystick2), ..v },
        _ => v,
    }
}

/// What a sprite transfer reads at `ptr`: the byte a read would return at
/// this moment, or, where nothing is mapped, the byte `open` that the
/// data bus still holds. The read changes nothing.
pub open spec fn bus_probe(v: CpuBusView, ptr: u16, open: u8) -> u8 {
    if bus_maps(v, ptr) {
        bus_value(v, ptr)
    } else {
        open
    }
}

/// The 256 bytes of page `page` as a sprite transfer reads them. The data
/// bus holds the page number, which was written last.
pub open spec fn dma_page(v: CpuBusView, page: u8) -> Seq<u8> {
    Seq::new(256, |i: int| bus_probe(v, (page * 256 + i) as u16, page))
}

/// Work memory after `value` was written through `ptr` in `$0000..=$1FFF`.
pub open spec fn ram_after_write(ram: Seq<u8>, ptr: u16, value: u8) -> Seq<u8> {
    if ptr % 0x800 < ram.len() {
        ram.update((ptr % 0x800) as int, value)
    } else {
        ram
    }
}

/// The bus after `value` was written to `ptr`. A write to `$4014` copies
/// the page `value` into sprite memory and raises `dma_pending`; a write
/// to `$4016` strobes both controllers; a write to `$4017` goes to the
/// frame counter; the cartridge takes writes as its components decide.
pub open spec fn bus_after_write(v: CpuBusView, ptr: u16, value: u8) -> CpuBusView {
    match region_of(ptr) {
        Region::WorkRam => CpuBusView { ram: ram_after_write(v.ram, ptr, value), ..v },
        Region::PpuRegisters => CpuBusView {
            ppu: port_written(v.ppu, mirrored_port(ptr), value),
            ..v
        },
        Region::OamDma => CpuBusView {
            ppu: dma_written(bus_latched(v.ppu, value), dma_page(v, value), 0),
            dma_pending: true,
            ..v
        },
        Region::Joystick1 => CpuBusView {
            joystick1: joystick_after_write(v.joystick1, value),
            joystick2: joystick_after_write(v.joystick2, value),
            ..v
        },
        Region::Joystick2 | Region::ApuRegisters => CpuBusView {
            apu: <Apu as AddressSpace>::after_poke(v.apu, ptr, value),
            ..v
        },
        Region::Reserved => v,
        Region::Cartridge => CpuBusView {
            cartridge: crate::mapper::mapper_written(v.cartridge, ptr, value),
            ..v
        },
    }
}

impl CpuBus {
    /// A bus with 2 KiB of zeroed work memory around the given parts.
    pub fn new(ppu: Ppu, apu: Apu, joystick1: Joystick, joystick2: Joystick, cartridge: Mapper) -> (r:
        CpuBus)
        ensures
            r@ == (CpuBusView {
                ram: Seq::new(0x800, |i: int| 0u8),
                ppu: ppu@,
                apu: apu@,
                joystick1: joystick1,
                joystick2: joystick2,
                cartridge: cartridge@,
                dma_pending: false,
            }),
    {
        CpuBus {
            ram: Ram::new(0x800),
            bridge: CpuPpuInterconnect::new(ppu),
            apu: apu,
            joystick1: joystick1,
            joystick2: joystick2,
            cartridge: cartridge,
            dma_pending: false,
        }
    }

    /// The register of the picture processor that `ptr` in `$2000..=$3FFF` names.
    pub fn mirror_port(ptr: u16) -> (r: PpuPort)
        requires
            0x2000 <= ptr < 0x4000,
        ensures
            r == mirrored_port(ptr),
    {
        let k = ptr % 8;
        if k == 0 {
            PpuPort::PPUCTRL
        } else if k == 1 {
            PpuPort::PPUMASK
        } else if k == 2 {
            PpuPort::PPUSTATUS
        } else if k == 3 {
            PpuPort::OAMADDR
        } else if k == 4 {
            PpuPort::OAMDATA
        } else if k == 5 {
            PpuPort::PPUSCROLL
        } else if k == 6 {
            PpuPort::PPUADDR
        } else {
            PpuPort::PPUDATA
        }
    }

    /// What a read of `ptr` would return at this moment, without reading;
    /// `open` where nothing is mapped.
    pub fn probe(&self, ptr: u16, open: u8) -> (r: u8)
        ensures
            r == bus_probe(self@, ptr, open),
    {
        match find_region(ptr) {
            Region::WorkRam => match self.ram.read(ptr % 0x800) {
                Ok(v) => v,
                Err(_) => open,
            },
            Region::PpuRegisters => self.bridge.ppu.probe_port(Self::mirror_port(ptr)),
            Region::OamDma => self.bridge.ppu.state.open_bus,
            Region::Joystick1 => if self.joystick1.strobe_active {
                self.joystick1.buttons % 2
            } else {
                self.joystick1.buttons_register % 2
            },
            Region::Joystick2 => if self.joystick2.strobe_active {
                self.joystick2.buttons % 2
            } else {
                self.joystick2.buttons_register % 2
            },
            Region::ApuRegisters => if ptr == 0x4015 {
                self.apu.read_status()
            } else {
                0
            },
            Region::Reserved => 0,
            Region::Cartridge => match self.cartridge.read(ptr) {
                Ok(v) => v,
                Err(_) => open,
            },
        }
    }

    /// The 256 bytes of page `page` as a sprite transfer reads them.
    pub fn read_page(&self, page: u8) -> (r: Vec<u8>)
        ensures
            r@ == dma_page(self@, page),
    {
        let mut r: Vec<u8> = Vec::new();
        let base: u16 = (page as u16) * 256;
        let mut i: u16 = 0;
        while i < 256
            invariant
                i <= 256,
                base == page * 256,
                r@.len() == i,
                forall|j: int|
                    0 <= j < i ==> r@[j] == bus_probe(self@, (page * 256 + j) as u16, page),
            decreases 256 - i,
        {
            r.push(self.probe(base + i, page));
            i = i + 1;
        }
        proof {
            assert(r@ =~= dma_page(self@, page));
        }
        r
    }

    /// Carries out the sprite transfer that a write of `page` to `$4014` asks for.
    pub fn start_dma(&mut self, page: u8)
        ensures
            final(self)@ == bus_after_write(old(self)@, 0x4014, page),
    {
        let bytes = self.read_page(page);
        self.bridge.write_port(PpuPort::OAMDMA, page);
        self.bridge.oam_dma(&bytes);
        self.dma_pending = true;
    }

    /// Reports whether a sprite transfer is waiting for its stall, and
    /// lowers the flag.
    pub fn take_dma(&mut self) -> (r: bool)
        ensures
            r == old(self)@.dma_pending,
            final(self)@ == (CpuBusView { dma_pending: false, ..old(self)@ }),
    {
        let r = self.dma_pending;
        self.dma_pending = false;
        r
    }

    /// Advances the picture processor by the three dots of one cycle.
    pub fn clock_ppu(&mut self)
        ensures
            final(self)@ == (CpuBusView { ppu: ppu_dots(old(self)@.ppu, 3), ..old(self)@ }),
    {
        self.bridge.ppu.clock();
        self.bridge.ppu.clock();
        self.bridge.ppu.clock();
        proof {
            reveal_with_fuel(ppu_dots, 4);
        }
    }

    /// Advances the audio processor by one cycle.
    pub fn clock_apu(&mut self)
        ensures
            final(self)@ == (CpuBusView { apu: apu_clocked(old(self)@.apu), ..old(self)@ }),
    {
        self.apu.clock();
    }

    /// Reports whether the picture processor asks for its interrupt, and
    /// lowers the request.
    pub fn take_nmi(&mut self) -> (r: bool)
        ensures
            r == old(self)@.ppu.state.is_vblank_nmi,
            final(self)@ == (CpuBusView { ppu: nmi_cleared(old(self)@.ppu), ..old(self)@ }),
    {
        self.bridge.ppu.take_nmi()
    }

    /// Reports whether a scanline interrupt is asked for, and lowers the request.
    pub fn take_irq(&mut self) -> (r: bool)
        ensures
            r == old(self)@.ppu.state.is_scanline_irq,
            final(self)@ == (CpuBusView { ppu: irq_cleared(old(self)@.ppu), ..old(self)@ }),
    {
        self.bridge.ppu.take_irq()
    }
}

/// `v` with the request for the non-maskable interrupt lowered.
pub open spec fn nmi_cleared(v: PpuView) -> PpuView {
    PpuView { state: PpuState { is_vblank_nmi: false, ..v.state }, ..v }
}

/// `v` with the request for the scanline interrupt lowered.
pub open spec fn irq_cleared(v: PpuView) -> PpuView {
    PpuView { state: PpuState { is_scanline_irq: false, ..v.state }, ..v }
}

impl AddressSpace for CpuBus {
    open spec fn maps(v: CpuBusView, ptr: u16) -> bool {
        bus_maps(v, ptr)
    }

    open spec fn value_at(v: CpuBusView, ptr: u16) -> u8 {
        bus_value(v, ptr)
    }

    open spec fn after_peek(v: CpuBusView, ptr: u16) -> CpuBusView {
        bus_after_read(v, ptr)
    }

    open spec fn after_poke(v: CpuBusView, ptr: u16, value: u8) -> CpuBusView {
        bus_after_write(v, ptr, value)
    }

    fn peek(&mut self, ptr: u16) -> (r: Result<u8, BusError>) {
        match find_region(ptr) {
            Region::WorkRam => self.ram.read(ptr % 0x800),
            Region::PpuRegisters => Ok(self.bridge.read_port(Self::mirror_port(ptr))),
            Region::OamDma => Ok(self.bridge.ppu.state.open_bus),
            Region::Joystick1 => self.joystick1.peek(ptr),
            Region::Joystick2 => self.joystick2.peek(ptr),
            Region::ApuRegisters => self.apu.peek(ptr),
            Region::Reserved => Ok(0),
            Region::Cartridge => self.cartridge.read(ptr),
        }
    }

    fn poke(&mut self, ptr: u16, v: u8) -> (r: Result<(), BusError>) {
        match find_region(ptr) {
            Region::WorkRam => self.ram.write(ptr % 0x800, v),
            Region::PpuRegisters => {
                self.bridge.write_port(Self::mirror_port(ptr), v);
                Ok(())
            },
            Region::OamDma => {
                self.start_dma(v);
                Ok(())
            },
            Region::Joystick1 => {
                let _ = self.joystick1.poke(ptr, v);
                self.joystick2.poke(ptr, v)
            },
            Region::Joystick2 | Region::ApuRegisters => self.apu.poke(ptr, v),
            Region::Reserved => Ok(()),
            Region::Cartridge => self.cartridge.write(ptr, v),
        }
    }
}


/// The console: a processor on the console bus.
pub struct Nes {
    pub cpu: C6502<CpuBus>,
}

impl View for Nes {
    type V = Machine<CpuBusView>;

    open spec fn view(&self) -> Machine<CpuBusView> {
        self.cpu@
    }
}

/// The cycles a sprite transfer stalls the processor: 513, and one more
/// when the transfer starts on an odd cycle.
pub open spec fn dma_cycles(counter: u64) -> int {
    if counter % 2 == 1 {
        514
    } else {
        513
    }
}

/// The console after a waiting sprite transfer was charged to the
/// processor: the stall is added to the cycles owed, so that no
/// instruction starts before it has passed.
pub open spec fn dma_stalled(m: Machine<CpuBusView>) -> Machine<CpuBusView> {
    if m.bus.dma_pending {
        Machine {
            cpu: CpuState {
                clocks_to_pause: pause_sum(m.cpu.clocks_to_pause, dma_cycles(m.cpu.counter)),
                ..m.cpu
            },
            bus: CpuBusView { dma_pending: false, ..m.bus },
        }
    } else {
        m
    }
}

/// The console after the picture processor ran the three dots of a cycle.
pub open spec fn dots_run(m: Machine<CpuBusView>) -> Machine<CpuBusView> {
    Machine { cpu: m.cpu, bus: CpuBusView { ppu: ppu_dots(m.bus.ppu, 3), ..m.bus } }
}

/// The console after the interrupt requests were served: the
/// non-maskable interrupt of the picture processor first; a scanline
/// interrupt only if there is none, and only while interrupts are enabled.
/// A request that is served or masked is lowered.
pub open spec fn interrupts_served(m: Machine<CpuBusView>) -> Machine<CpuBusView> {
    if m.bus.ppu.state.is_vblank_nmi {
        m_interrupt::<CpuBus>(
            Machine { cpu: m.cpu, bus: CpuBusView { ppu: nmi_cleared(m.bus.ppu), ..m.bus } },
            ADDRESS_NMI,
            false,
        )
    } else if m.bus.ppu.state.is_scanline_irq {
        let lowered = Machine {
            cpu: m.cpu,
            bus: CpuBusView { ppu: irq_cleared(m.bus.ppu), ..m.bus },
        };
        if m.cpu.interruptd {
            lowered
        } else {
            m_interrupt::<CpuBus>(lowered, ADDRESS_BRK, false)
        }
    } else {
        m
    }
}

/// The console after the audio processor ran one cycle.
pub open spec fn sound_run(m: Machine<CpuBusView>) -> Machine<CpuBusView> {
    Machine { cpu: m.cpu, bus: CpuBusView { apu: apu_clocked(m.bus.apu), ..m.bus } }
}

/// The console after one tick: the processor advances one cycle, a sprite
/// transfer it started is charged, the picture processor advances three
/// dots, interrupts are served, and the audio processor advances one cycle.
pub open spec fn nes_clocked(m: Machine<CpuBusView>) -> Machine<CpuBusView> {
    sound_run(interrupts_served(dots_run(dma_stalled(m_clock::<CpuBus>(m)))))
}

/// The console after `n` ticks.
pub open spec fn nes_run(m: Machine<CpuBusView>, n: nat) -> Machine<CpuBusView>
    decreases n,
{
    if n == 0 {
        m
    } else {
        nes_run(nes_clocked(m), (n - 1) as nat)
    }
}

/// The console after it was ticked until the frame counter of the picture
/// processor left `frame`, and no further; `n` ticks at most.
pub open spec fn frame_run(m: Machine<CpuBusView>, frame: u32, n: nat) -> Machine<CpuBusView>
    decreases n,
{
    if n == 0 {
        m
    } else if nes_clocked(m).bus.ppu.state.frame != frame {
        nes_clocked(m)
    } else {
        frame_run(nes_clocked(m), frame, (n - 1) as nat)
    }
}

/// The ticks that [`frame_run`] takes.
pub open spec fn frame_ticks(m: Machine<CpuBusView>, frame: u32, n: nat) -> nat
    decreases n,
{
    if n == 0 {
        0
    } else if nes_clocked(m).bus.ppu.state.frame != frame {
        1
    } else {
        1 + frame_ticks(nes_clocked(m), frame, (n - 1) as nat)
    }
}

/// The ticks after which a frame is over wherever it started: a frame has
/// 89342 dots at most, and a tick is three dots.
pub const CLOCKS_PER_FRAME: u32 = 29781;

/// An upper bound on the dots until the next frame begins: the dots left
/// on the line and on the lines below it, were no dot skipped.
pub open spec fn dots_left(s: PpuState) -> int {
    let on_line = if s.cycle >= 340 {
        1int
    } else {
        341 - s.cycle
    };
    if s.scanline >= 261 {
        on_line
    } else {
        (261 - s.scanline) * 341 + on_line
    }
}

/// What a tick gave to those who watch the console: whether it started
/// an instruction, the trace record of that instruction while tracing is
/// on, and whether it entered the handler of the non-maskable or of the
/// maskable interrupt.
#[derive(Copy, Clone, Debug, PartialEq, Eq, Structural)]
pub struct TickReport {
    pub started: bool,
    pub trace: Option<TraceRecord>,
    pub nmi: bool,
    pub irq: bool,
}

/// What the tick from `m` gives to those who watch.
pub open spec fn tick_report(m: Machine<CpuBusView>) -> TickReport {
    let d = dots_run(dma_stalled(m_clock::<CpuBus>(m)));
    TickReport {
        started: !m.cpu.halted && m.cpu.clocks_to_pause == 0,
        trace: m_clock_trace::<CpuBus>(m),
        nmi: d.bus.ppu.state.is_vblank_nmi,
        irq: !d.bus.ppu.state.is_vblank_nmi && d.bus.ppu.state.is_scanline_irq
            && !d.cpu.interruptd,
    }
}

impl Nes {
    /// A console around the processor bus `bus`, at power-on: the program
    /// counter is loaded from the reset vector.
    pub fn new(bus: CpuBus) -> (r: Nes)
        ensures
            r@ == console_at_reset(bus@),
    {
        Nes { cpu: C6502::new(bus) }
    }

    fn stall_for_dma(&mut self)
        ensures
            final(self)@ == dma_stalled(old(self)@),
    {
        if self.cpu.mapper.take_dma() {
            let cycles: u16 = if self.cpu.state.counter % 2 == 1 {
                514
            } else {
                513
            };
            self.cpu.stall(cycles);
        }
    }

    fn run_dots(&mut self)
        ensures
            final(self)@ == dots_run(old(self)@),
    {
        self.cpu.mapper.clock_ppu();
    }

    fn serve_interrupts(&mut self) -> (r: (bool, bool))
        ensures
            final(self)@ == interrupts_served(old(self)@),
            r.0 == old(self)@.bus.ppu.state.is_vblank_nmi,
            r.1 == (!old(self)@.bus.ppu.state.is_vblank_nmi
                && old(self)@.bus.ppu.state.is_scanline_irq && !old(self)@.cpu.interruptd),
    {
        if self.cpu.mapper.bridge.ppu.state.is_vblank_nmi {
            let _ = self.cpu.mapper.take_nmi();
            self.cpu.nmi();
            (true, false)
        } else if self.cpu.mapper.bridge.ppu.state.is_scanline_irq {
            let entered = !self.cpu.state.interruptd;
            let _ = self.cpu.mapper.take_irq();
            self.cpu.irq();
            (false, entered)
        } else {
            (false, false)
        }
    }

    fn run_sound(&mut self)
        ensures
            final(self)@ == sound_run(old(self)@),
    {
        self.cpu.mapper.clock_apu();
    }

    /// Advances the console by one tick, and reports what a watcher of
    /// the processor wants to know of it.
    pub fn clock_watched(&mut self) -> (r: TickReport)
        ensures
            final(self)@ == nes_clocked(old(self)@),
            r == tick_report(old(self)@),
    {
        let started = !self.cpu.state.halted && self.cpu.state.clocks_to_pause == 0;
        let trace = self.cpu.clock_traced();
        self.stall_for_dma();
        self.run_dots();
        let (nmi, irq) = self.serve_interrupts();
        self.run_sound();
        TickReport { started: started, trace: trace, nmi: nmi, irq: irq }
    }

    /// Advances the console by one tick.
    pub fn clock(&mut self)
        ensures
            final(self)@ == nes_clocked(old(self)@),
    {
        let _ = self.clock_watched();
    }

    /// Advances the console by `n` ticks.
    pub fn run(&mut self, n: u32)
        ensures
            final(self)@ == nes_run(old(self)@, n as nat),
    {
        let mut i: u32 = 0;
        while i < n
            invariant
                i <= n,
                nes_run(self@, (n - i) as nat) == nes_run(old(self)@, n as nat),
            decreases n - i,
        {
            self.clock();
            i = i + 1;
        }
    }

    /// Runs the console to the end of the frame: it is ticked until the
    /// frame counter of the picture processor has advanced, and no
    /// further. That takes the least number of ticks whose dots reach the
    /// first dot of the next frame, which is never more than 29781: one
    /// tick less falls short of the dots that are left, and the ticks taken
    /// reach them, or miss them by the one dot that an odd frame with
    /// rendering enabled skips.
    pub fn run_frame(&mut self)
        ensures
            final(self)@ == frame_run(
                old(self)@,
                old(self)@.bus.ppu.state.frame,
                CLOCKS_PER_FRAME as nat,
            ),
            final(self)@.bus.ppu.state.frame == old(self)@.bus.ppu.state.frame.wrapping_add(1),
            final(self)@.cpu.counter == (old(self)@.cpu.counter + frame_ticks(
                old(self)@,
                old(self)@.bus.ppu.state.frame,
                CLOCKS_PER_FRAME as nat,
            )) % 0x1_0000_0000_0000_0000,
            3 * (frame_ticks(
                old(self)@,
                old(self)@.bus.ppu.state.frame,
                CLOCKS_PER_FRAME as nat,
            ) - 1) < dots_left(old(self)@.bus.ppu.state) <= 3 * frame_ticks(
                old(self)@,
                old(self)@.bus.ppu.state.frame,
                CLOCKS_PER_FRAME as nat,
            ) + 1,
    {
        proof {
            lemma_frame_run_counts(
                old(self)@,
                old(self)@.bus.ppu.state.frame,
                CLOCKS_PER_FRAME as nat,
            );
            lemma_tick_nears_frame(old(self)@);
            lemma_frame_run_ticks(old(self)@, CLOCKS_PER_FRAME as nat);
        }
        let start = self.current_frame();
        let mut i: u32 = 0;
        let mut done = false;
        while !done && i < CLOCKS_PER_FRAME
            invariant
                i <= CLOCKS_PER_FRAME,
                start == old(self)@.bus.ppu.state.frame,
                !done ==> self@.bus.ppu.state.frame == start,
                !done ==> frame_run(self@, start, (CLOCKS_PER_FRAME - i) as nat) == frame_run(
                    old(self)@,
                    start,
                    CLOCKS_PER_FRAME as nat,
                ),
                !done ==> dots_left(self@.bus.ppu.state) + 3 * i <= 89342,
                done ==> self@ == frame_run(old(self)@, start, CLOCKS_PER_FRAME as nat),
                done ==> self@.bus.ppu.state.frame == start.wrapping_add(1),
            decreases CLOCKS_PER_FRAME - i,
        {
            proof {
                lemma_tick_nears_frame(self@);
            }
            self.clock();
            i = i + 1;
            done = self.current_frame() != start;
        }
    }

    /// Switches the taking of sound samples on or off.
    pub fn set_recording(&mut self, on: bool)
        ensures
            final(self)@ == (Machine {
                cpu: old(self)@.cpu,
                bus: CpuBusView {
                    apu: ApuView {
                        core: crate::apu::ApuCore { is_recording: on, ..old(self)@.bus.apu.core },
                        ..old(self)@.bus.apu
                    },
                    ..old(self)@.bus
                },
            }),
    {
        self.cpu.mapper.apu.set_recording(on);
    }

    /// Sets the buttons held on controller `id`: 0 is the first, 1 the
    /// second; any other number names none.
    pub fn set_buttons(&mut self, id: u8, mask: u8)
        ensures
            final(self)@ == (if id == 0 {
                Machine {
                    cpu: old(self)@.cpu,
                    bus: CpuBusView {
                        joystick1: Joystick { buttons: mask, ..old(self)@.bus.joystick1 },
                        ..old(self)@.bus
                    },
                }
            } else if id == 1 {
                Machine {
                    cpu: old(self)@.cpu,
                    bus: CpuBusView {
                        joystick2: Joystick { buttons: mask, ..old(self)@.bus.joystick2 },
                        ..old(self)@.bus
                    },
                }
            } else {
                old(self)@
            }),
    {
        if id == 0 {
            self.cpu.mapper.joystick1.set_buttons(mask);
        } else if id == 1 {
            self.cpu.mapper.joystick2.set_buttons(mask);
        }
    }

    /// The number of frames the picture processor has completed.
    pub fn current_frame(&self) -> (r: u32)
        ensures
            r == self@.bus.ppu.state.frame,
    {
        self.cpu.mapper.bridge.ppu.current_frame()
    }
}

/// The cycles the processor runs for line `line` of a frame without
/// picture: 114 and 113 in turn.
pub open spec fn headless_cycles(line: nat) -> nat {
    if line % 2 == 0 {
        114
    } else {
        113
    }
}

/// The number of lines of a frame.
pub const LINES_PER_FRAME: u32 = 262;

/// The console after line `line` of a frame without picture: the
/// processor alone runs the cycles of the line; before line 241 it enters
/// the non-maskable interrupt.
pub open spec fn headless_line(m: Machine<CpuBusView>, line: nat) -> Machine<CpuBusView> {
    clocked_times::<C6502<CpuBus>>(
        if line == 241 {
            m_interrupt::<CpuBus>(m, ADDRESS_NMI, false)
        } else {
            m
        },
        headless_cycles(line),
    )
}

/// The console after the lines from `line` on of a frame without picture.
pub open spec fn headless_from(m: Machine<CpuBusView>, line: nat) -> Machine<CpuBusView>
    decreases 262 - line,
{
    if line >= 262 {
        m
    } else {
        headless_from(headless_line(m, line), line + 1)
    }
}

impl Nes {
    fn run_line_headless(&mut self, line: u32)
        ensures
            final(self)@ == headless_line(old(self)@, line as nat),
    {
        if line == 241 {
            self.cpu.nmi();
        }
        let cycles: u32 = if line % 2 == 0 {
            114
        } else {
            113
        };
        run_clocks(&mut self.cpu, cycles);
    }

    /// Advances the console by one frame without drawing it: the picture
    /// and audio processors stand still.
    pub fn run_frame_headless(&mut self)
        ensures
            final(self)@ == headless_from(old(self)@, 0),
    {
        let mut line: u32 = 0;
        while line < LINES_PER_FRAME
            invariant
                line <= 262,
                headless_from(self@, line as nat) == headless_from(old(self)@, 0),
            decreases 262 - line,
        {
            self.run_line_headless(line);
            line = line + 1;
        }
    }
}

impl Clocked for Nes {
    open spec fn clocked(v: Machine<CpuBusView>) -> Machine<CpuBusView> {
        nes_clocked(v)
    }

    fn clock(&mut self) {
        Nes::clock(self)
    }
}


/// A cartridge image: the fields of its header and its program and
/// character data.
pub struct Ines {
    pub num_prg_chunks: u8,
    pub num_chr_chunks: u8,
    pub mapper: u8,
    /// Set for vertical nametable mirroring, clear for horizontal.
    pub mirroring: bool,
    pub has_battery_backed_ram: bool,
    pub has_trainer: bool,
    pub has_four_screen_vram: bool,
    pub is_vs_unisystem: bool,
    pub is_playchoice10: bool,
    pub prg_rom: Vec<u8>,
    pub chr_rom: Vec<u8>,
}

/// The mathematical value of an [`Ines`].
pub struct InesView {
    pub num_prg_chunks: u8,
    pub num_chr_chunks: u8,
    pub mapper: u8,
    pub mirroring: bool,
    pub has_battery_backed_ram: bool,
    pub has_trainer: bool,
    pub has_four_screen_vram: bool,
    pub is_vs_unisystem: bool,
    pub is_playchoice10: bool,
    pub prg_rom: Seq<u8>,
    pub chr_rom: Seq<u8>,
}

impl View for Ines {
    type V = InesView;

    open spec fn view(&self) -> InesView {
        InesView {
            num_prg_chunks: self.num_prg_chunks,
            num_chr_chunks: self.num_chr_chunks,
            mapper: self.mapper,
            mirroring: self.mirroring,
            has_battery_backed_ram: self.has_battery_backed_ram,
            has_trainer: self.has_trainer,
            has_four_screen_vram: self.has_four_screen_vram,
            is_vs_unisystem: self.is_vs_unisystem,
            is_playchoice10: self.is_playchoice10,
            prg_rom: self.prg_rom@,
            chr_rom: self.chr_rom@,
        }
    }
}

/// Why a cartridge image is refused.
#[derive(Copy, Clone, Debug, PartialEq, Eq, Structural)]
pub enum RomError {
    /// The image is shorter than a header or does not start with `NES\x1A`.
    InvalidRom,
    /// The image ends before the data its header announces.
    Truncated,
    /// The cartridge needs a mapper other than 0.
    UnsupportedMapper,
    /// The cartridge has neither one nor two banks of program data.
    UnsupportedPrgSize,
}

/// Whether `bytes` start with the sixteen bytes of a header.
pub open spec fn has_header(bytes: Seq<u8>) -> bool {
    bytes.len() >= 16 && bytes[0] == 0x4e && bytes[1] == 0x45 && bytes[2] == 0x53 && bytes[3]
        == 0x1a
}

/// Where the program data starts: behind the header and the trainer, if
/// bit 2 of byte 6 announces one.
pub open spec fn prg_start(bytes: Seq<u8>) -> int {
    if (bytes[6] / 4) % 2 == 1 {
        528
    } else {
        16
    }
}

/// Where the character data starts.
pub open spec fn chr_start(bytes: Seq<u8>) -> int {
    prg_start(bytes) + 16384 * bytes[4]
}

/// Where the character data ends.
pub open spec fn chr_end(bytes: Seq<u8>) -> int {
    chr_start(bytes) + 8192 * bytes[5]
}

/// The cartridge that the image `bytes` holds.
pub open spec fn ines_parsed(bytes: Seq<u8>) -> Result<InesView, RomError> {
    if !has_header(bytes) {
        Err(RomError::InvalidRom)
    } else if bytes.len() < chr_end(bytes) {
        Err(RomError::Truncated)
    } else {
        Ok(
            InesView {
                num_prg_chunks: bytes[4],
                num_chr_chunks: bytes[5],
                mirroring: bytes[6] % 2 == 1,
                has_battery_backed_ram: (bytes[6] / 2) % 2 == 1,
                has_trainer: (bytes[6] / 4) % 2 == 1,
                has_four_screen_vram: (bytes[6] / 8) % 2 == 1,
                is_playchoice10: false,
                is_vs_unisystem: false,
                mapper: (bytes[6] / 16 + (bytes[7] / 16) * 16) as u8,
                prg_rom: bytes.subrange(prg_start(bytes), chr_start(bytes)),
                chr_rom: bytes.subrange(chr_start(bytes), chr_end(bytes)),
            },
        )
    }
}

/// Copies `bytes[start..end]` into a fresh vector.
pub fn copy_range(bytes: &[u8], start: usize, end: usize) -> (v: Vec<u8>)
    requires
        start <= end <= bytes@.len(),
    ensures
        v@ == bytes@.subrange(start as int, end as int),
{
    let mut v: Vec<u8> = Vec::new();
    let mut i: usize = start;
    while i < end
        invariant
            start <= i <= end <= bytes@.len(),
            v@ == bytes@.subrange(start as int, i as int),
        decreases end - i,
    {
        v.push(bytes[i]);
        proof {
            assert(v@ =~= bytes@.subrange(start as int, i + 1));
        }
        i = i + 1;
    }
    v
}

/// Reads a cartridge image.
pub fn parse_ines(bytes: &[u8]) -> (r: Result<Ines, RomError>)
    ensures
        match r {
            Ok(rom) => ines_parsed(bytes@) == Ok::<InesView, RomError>(rom@),
            Err(e) => ines_parsed(bytes@) == Err::<InesView, RomError>(e),
        },
{
    if bytes.len() < 16 || bytes[0] != 0x4e || bytes[1] != 0x45 || bytes[2] != 0x53 || bytes[3]
        != 0x1a {
        return Err(RomError::InvalidRom);
    }
    let num_prg_chunks = bytes[4];
    let num_chr_chunks = bytes[5];
    let has_trainer = (bytes[6] / 4) % 2 == 1;
    let prg_begin: usize = if has_trainer {
        16 + 512
    } else {
        16
    };
    let chr_begin: usize = prg_begin + 16384 * (num_prg_chunks as usize);
    let chr_finish: usize = chr_begin + 8192 * (num_chr_chunks as usize);
    if bytes.len() < chr_finish {
        return Err(RomError::Truncated);
    }
    Ok(
        Ines {
            num_prg_chunks: num_prg_chunks,
            num_chr_chunks: num_chr_chunks,
            mirroring: bytes[6] % 2 == 1,
            has_battery_backed_ram: (bytes[6] / 2) % 2 == 1,
            has_trainer: has_trainer,
            has_four_screen_vram: (bytes[6] / 8) % 2 == 1,
            is_playchoice10: false,
            is_vs_unisystem: false,
            mapper: bytes[6] / 16 + (bytes[7] / 16) * 16,
            prg_rom: copy_range(bytes, prg_begin, chr_begin),
            chr_rom: copy_range(bytes, chr_begin, chr_finish),
        },
    )
}

/// The cartridge side of the processor bus: the program data at
/// `$8000..=$FFFF`, one bank of 16 KiB repeated or two banks in a row.
pub open spec fn cartridge_view(prg: Seq<u8>, two_banks: bool) -> Seq<MappingView> {
    seq![
        MappingView {
            begin: 0x8000,
            end: 0xFFFF,
            space: DeviceView::Mirrored(
                Box::new(
                    MirroredView {
                        base: DeviceView::Rom(prg),
                        begin: 0,
                        end: if two_banks {
                            0x7FFF
                        } else {
                            0x3FFF
                        },
                        extended_begin: 0x8000,
                        extended_end: 0xFFFF,
                        keep_original: true,
                    },
                ),
            ),
            keep_original: true,
        },
    ]
}

/// One nametable of 1 KiB that answers in the kilobyte at `begin` and in
/// the kilobyte behind it.
pub open spec fn doubled_nametable(begin: u16) -> MappingView {
    MappingView {
        begin: begin,
        end: (begin + 0x7FF) as u16,
        space: DeviceView::Mirrored(
            Box::new(
                MirroredView {
                    base: DeviceView::Ram(Seq::new(0x400, |i: int| 0u8)),
                    begin: begin,
                    end: (begin + 0x3FF) as u16,
                    extended_begin: begin,
                    extended_end: (begin + 0x7FF) as u16,
                    keep_original: false,
                },
            ),
        ),
        keep_original: true,
    }
}

/// The nametables at `$2000..=$3EFF`. With vertical mirroring the 2 KiB
/// repeat as they are, so that `$2800` shows `$2000`; with horizontal
/// mirroring each kilobyte shows twice in a row, so that `$2400` shows
/// `$2000`, and the 4 KiB so made repeat.
pub open spec fn nametable_view(vertical: bool) -> MappingView {
    MappingView {
        begin: 0x2000,
        end: 0x3EFF,
        space: DeviceView::Mirrored(
            Box::new(
                if vertical {
                    MirroredView {
                        base: DeviceView::Ram(Seq::new(0x800, |i: int| 0u8)),
                        begin: 0x2000,
                        end: 0x27FF,
                        extended_begin: 0x2000,
                        extended_end: 0x3EFF,
                        keep_original: false,
                    }
                } else {
                    MirroredView {
                        base: DeviceView::Mapper(
                            seq![doubled_nametable(0x2000), doubled_nametable(0x2800)],
                        ),
                        begin: 0x2000,
                        end: 0x2FFF,
                        extended_begin: 0x2000,
                        extended_end: 0x3EFF,
                        keep_original: true,
                    }
                },
            ),
        ),
        keep_original: true,
    }
}

/// The bus of the picture processor: the character data at
/// `$0000..=$1FFF`, the nametables through `$3EFF`, and the palette at
/// `$3F00..=$3F1F` repeated through `$3FFF`.
pub open spec fn ppu_bus_view(chr: Seq<u8>, vertical: bool) -> Seq<MappingView> {
    seq![
        MappingView { begin: 0, end: 0x1FFF, space: DeviceView::Rom(chr), keep_original: true },
        nametable_view(vertical),
        MappingView {
            begin: 0x3f00,
            end: 0x3fff,
            space: DeviceView::Mirrored(
                Box::new(
                    MirroredView {
                        base: DeviceView::Palette(Seq::new(32, |i: int| 0u8)),
                        begin: 0x3f00,
                        end: 0x3f1f,
                        extended_begin: 0x3f00,
                        extended_end: 0x3fff,
                        keep_original: true,
                    },
                ),
            ),
            keep_original: true,
        },
    ]
}

/// Builds the cartridge side of the processor bus.
pub fn map_cartridge(prg: Vec<u8>, two_banks: bool) -> (r: Mapper)
    ensures
        r@ == cartridge_view(prg@, two_banks),
{
    let mut mapper = Mapper::new();
    let end: u16 = if two_banks {
        0x7FFF
    } else {
        0x3FFF
    };
    mapper.map_mirrored(0x0000, end, 0x8000, 0xFFFF, Device::rom(Rom::new(prg)), true);
    proof {
        assert(mapper@ =~= cartridge_view(prg@, two_banks));
    }
    mapper
}

fn map_doubled_nametable(mapper: &mut Mapper, begin: u16)
    requires
        begin == 0x2000 || begin == 0x2800,
    ensures
        final(mapper)@ == old(mapper)@.push(doubled_nametable(begin)),
{
    mapper.map_mirrored(
        begin,
        begin + 0x3FF,
        begin,
        begin + 0x7FF,
        Device::ram(Ram::new(0x400)),
        false,
    );
}

fn map_nametables(mapper: &mut Mapper, vertical: bool)
    ensures
        final(mapper)@ == old(mapper)@.push(nametable_view(vertical)),
{
    if vertical {
        mapper.map_mirrored(0x2000, 0x27FF, 0x2000, 0x3EFF, Device::ram(Ram::new(0x800)), false);
    } else {
        let mut tables = Mapper::new();
        map_doubled_nametable(&mut tables, 0x2000);
        map_doubled_nametable(&mut tables, 0x2800);
        proof {
            assert(tables@ =~= seq![doubled_nametable(0x2000), doubled_nametable(0x2800)]);
        }
        mapper.map_mirrored(0x2000, 0x2FFF, 0x2000, 0x3EFF, Device::mapper(tables), true);
    }
}

/// Builds the bus of the picture processor.
pub fn map_nes_ppu(chr: Vec<u8>, vertical: bool) -> (r: Mapper)
    ensures
        r@ == ppu_bus_view(chr@, vertical),
{
    let mut mapper = Mapper::new();
    mapper.map_address_space(0x0000, 0x1FFF, Device::rom(Rom::new(chr)), true);
    map_nametables(&mut mapper, vertical);
    mapper.map_mirrored(
        0x3f00,
        0x3f1f,
        0x3f00,
        0x3fff,
        Device::palette(PaletteControl::new()),
        true,
    );
    proof {
        assert(mapper@ =~= ppu_bus_view(chr@, vertical));
    }
    mapper
}

/// The bus of a console with the cartridge `rom` in it, at power-on.
pub open spec fn console_bus(rom: InesView, joystick1: Joystick, joystick2: Joystick) -> CpuBusView {
    CpuBusView {
        ram: Seq::new(0x800, |i: int| 0u8),
        ppu: PpuView {
            bus: ppu_bus_view(rom.chr_rom, rom.mirroring),
            ..power_on_ppu_view()
        },
        apu: ApuView { samples: Seq::empty(), core: crate::apu::power_on_apu() },
        joystick1: joystick1,
        joystick2: joystick2,
        cartridge: cartridge_view(rom.prg_rom, rom.num_prg_chunks == 2),
        dma_pending: false,
    }
}

/// A picture processor at power-on, with nothing on its bus.
pub open spec fn power_on_ppu_view() -> PpuView {
    PpuView {
        state: crate::ppu::power_on_ppu(),
        display: Seq::new(crate::ppu::UNRENDER_SIZE as nat, |i: int| 0u8),
        oam: Seq::new(256, |i: int| 0u8),
        sprites: Seq::empty(),
        bus: Seq::empty(),
    }
}

/// The console at power-on, with the program counter loaded from the
/// reset vector.
pub open spec fn console_at_reset(bus: CpuBusView) -> Machine<CpuBusView> {
    m_reset::<CpuBus>(Machine { cpu: crate::c6502::power_on_state(), bus: bus })
}

/// Builds a console around a cartridge. Only mapper 0 with one or two
/// banks of program data is supported.
pub fn load_ines(rom: Ines, joystick1: Joystick, joystick2: Joystick) -> (r: Result<Nes, RomError>)
    ensures
        match r {
            Ok(nes) => rom@.mapper == 0 && (rom@.num_prg_chunks == 1 || rom@.num_prg_chunks == 2)
                && nes@ == console_at_reset(console_bus(rom@, joystick1, joystick2)),
            Err(e) => e == (if rom@.mapper != 0 {
                RomError::UnsupportedMapper
            } else {
                RomError::UnsupportedPrgSize
            }) && (rom@.mapper != 0 || (rom@.num_prg_chunks != 1 && rom@.num_prg_chunks != 2)),
        },
{
    if rom.mapper != 0 {
        return Err(RomError::UnsupportedMapper);
    }
    if rom.num_prg_chunks != 1 && rom.num_prg_chunks != 2 {
        return Err(RomError::UnsupportedPrgSize);
    }
    let two_banks = rom.num_prg_chunks == 2;
    let vertical = rom.mirroring;
    let cartridge = map_cartridge(rom.prg_rom, two_banks);
    let mut ppu = Ppu::new();
    ppu.set_mapper(map_nes_ppu(rom.chr_rom, vertical));
    let bus = CpuBus::new(ppu, Apu::new(), joystick1, joystick2, cartridge);
    Ok(Nes::new(bus))
}

/// A recording of the buttons held in each frame.
pub struct Tas {
    pub inputs: Vec<u8>,
}

impl View for Tas {
    type V = Seq<u8>;

    open spec fn view(&self) -> Seq<u8> {
        self.inputs@
    }
}

impl Tas {
    /// An empty recording.
    pub fn new() -> (r: Tas)
        ensures
            r@ == Seq::<u8>::empty(),
    {
        Tas { inputs: Vec::new() }
    }

    /// The buttons recorded for `frame`, if the recording reaches that far.
    pub fn get_inputs(&self, frame: usize) -> (r: Option<u8>)
        ensures
            r == (if frame < self@.len() {
                Some(self@[frame as int])
            } else {
                None
            }),
    {
        if frame >= self.inputs.len() {
            None
        } else {
            Some(self.inputs[frame])
        }
    }

    /// Appends the bytes that stand for the recording: its length in 64
    /// bits, then one byte for each frame.
    pub fn save(&self, out: &mut Vec<u8>)
        ensures
            final(out)@ == old(out)@ + blob_bytes(self@),
    {
        put_blob(out, &self.inputs);
    }

    /// Replaces the recording by the one that `input` holds at `at`;
    /// returns the position behind it. On an error the recording stays.
    pub fn load(&mut self, input: &[u8], at: usize) -> (r: Result<usize, LoadError>)
        requires
            at <= input@.len(),
        ensures
            match blob_at(input@, at as int) {
                Ok((bs, next)) => r == Ok::<usize, LoadError>(next as usize) && next
                    <= input@.len() && final(self)@ == bs,
                Err(e) => r == Err::<usize, LoadError>(e) && final(self)@ == old(self)@,
            },
    {
        match get_blob(input, at) {
            Ok((bs, next)) => {
                self.inputs = bs;
                Ok(next)
            },
            Err(e) => Err(e),
        }
    }

    /// Records `buttons` for `frame`: the recording is cut off at `frame`
    /// and `buttons` appended.
    pub fn record_frame(&mut self, frame: usize, buttons: u8)
        ensures
            final(self)@ == (if frame < old(self)@.len() {
                old(self)@.subrange(0, frame as int)
            } else {
                old(self)@
            }).push(buttons),
    {
        self.inputs.truncate(frame);
        self.inputs.push(buttons);
    }
}


/// A write of `page` to `$4014` with a sprite memory of 256 bytes fills
/// sprite memory with the 256 bytes that the bus shows at `page * 256`
/// at that moment, byte `i` at the sprite address plus `i` within a byte,
/// and asks for the stall. From sprite address 0, sprite memory equals
/// that page. Nothing else on the bus changes but the open bus of the
/// picture processor.
pub proof fn lemma_dma_copies_page(v: CpuBusView, page: u8)
    requires
        v.ppu.oam.len() == 256,
    ensures
        bus_after_write(v, 0x4014, page).dma_pending,
        bus_after_write(v, 0x4014, page).ppu.oam.len() == 256,
        forall|i: int|
            0 <= i < 256 ==> bus_after_write(v, 0x4014, page).ppu.oam[(v.ppu.state.oam_ptr + i)
                % 256] == #[trigger] dma_page(v, page)[i],
        forall|i: int|
            0 <= i < 256 ==> #[trigger] dma_page(v, page)[i] == bus_probe(
                v,
                (page * 256 + i) as u16,
                page,
            ),
        v.ppu.state.oam_ptr == 0 ==> bus_after_write(v, 0x4014, page).ppu.oam == dma_page(v, page),
        bus_after_write(v, 0x4014, page).ppu.state == (PpuState {
            open_bus: page,
            ..v.ppu.state
        }),
        bus_after_write(v, 0x4014, page).ram == v.ram,
        bus_after_write(v, 0x4014, page).cartridge == v.cartridge,
        bus_after_write(v, 0x4014, page).apu == v.apu,
{
    lemma_dma_fills_oam(bus_latched(v.ppu, page), dma_page(v, page));
}

/// A sprite transfer stalls the processor for 513 cycles, or 514 if it
/// started on an odd cycle: the stall is added to the cycles owed, and
/// until they are paid the processor retires no instruction.
pub proof fn lemma_dma_stall(m: Machine<CpuBusView>, k: nat)
    requires
        m.bus.dma_pending,
        !m.cpu.halted,
        m.cpu.clocks_to_pause + 514 <= 0xFFFF,
        k <= m.cpu.clocks_to_pause + dma_cycles(m.cpu.counter),
    ensures
        dma_stalled(m).cpu.clocks_to_pause == m.cpu.clocks_to_pause + dma_cycles(m.cpu.counter),
        dma_cycles(m.cpu.counter) == 513 || dma_cycles(m.cpu.counter) == 514,
        dma_cycles(m.cpu.counter) == 514 <==> m.cpu.counter % 2 == 1,
        !dma_stalled(m).bus.dma_pending,
        clocked_times::<C6502<CpuBus>>(dma_stalled(m), k).bus == dma_stalled(m).bus,
        clocked_times::<C6502<CpuBus>>(dma_stalled(m), k).cpu.pc == m.cpu.pc,
        clocked_times::<C6502<CpuBus>>(dma_stalled(m), k).cpu.acc == m.cpu.acc,
        clocked_times::<C6502<CpuBus>>(dma_stalled(m), k).cpu.clocks_to_pause
            == m.cpu.clocks_to_pause + dma_cycles(m.cpu.counter) - k,
{
    crate::c6502::lemma_paused_clocks::<CpuBus>(dma_stalled(m), k);
}

/// Each tick of the console moves the picture processor by exactly three
/// dots from where the processor cycle of the tick left it.
pub proof fn lemma_three_dots_per_cycle(m: Machine<CpuBusView>)
    ensures
        ({
            let before = dma_stalled(m_clock::<CpuBus>(m)).bus.ppu;
            let after = nes_clocked(m).bus.ppu;
            &&& after.state.scanline == ppu_dots(before, 3).state.scanline
            &&& after.state.cycle == ppu_dots(before, 3).state.cycle
            &&& after.state.frame == ppu_dots(before, 3).state.frame
            &&& after.display == ppu_dots(before, 3).display
            &&& ppu_dots(before, 3) == ppu_dot(ppu_dot(ppu_dot(before)))
        }),
{
    let before = dma_stalled(m_clock::<CpuBus>(m)).bus.ppu;
    reveal_with_fuel(ppu_dots, 4);
    assert(ppu_dots(before, 3) == ppu_dot(ppu_dot(ppu_dot(before))));
    let dotted = dots_run(dma_stalled(m_clock::<CpuBus>(m)));
    lemma_interrupt_keeps_picture(dotted);
}

/// Serving the interrupts does not move the picture processor: the stack
/// and the vectors lie in work memory and the cartridge.
#[verifier::rlimit(60)]
pub proof fn lemma_interrupt_keeps_picture(m: Machine<CpuBusView>)
    ensures
        interrupts_served(m).bus.ppu.state.scanline == m.bus.ppu.state.scanline,
        interrupts_served(m).bus.ppu.state.cycle == m.bus.ppu.state.cycle,
        interrupts_served(m).bus.ppu.state.frame == m.bus.ppu.state.frame,
        interrupts_served(m).bus.ppu.display == m.bus.ppu.display,
        interrupts_served(m).bus.ppu.oam == m.bus.ppu.oam,
{
}

/// Whether the position in the frame and the frame counter of the
/// picture processor on the bus `b` are `scanline`, `cycle` and `frame`.
pub open spec fn stands_at(b: CpuBusView, scanline: u16, cycle: u16, frame: u32) -> bool {
    b.ppu.state.scanline == scanline && b.ppu.state.cycle == cycle && b.ppu.state.frame == frame
}

/// No read and no write on the processor bus moves the picture processor
/// within the frame.
pub proof fn lemma_bus_keeps_position(scanline: u16, cycle: u16, frame: u32)
    ensures
        bus_keeps::<CpuBus>(|b: CpuBusView| stands_at(b, scanline, cycle, frame)),
{
    let inv = |b: CpuBusView| stands_at(b, scanline, cycle, frame);
    assert forall|v: CpuBusView, p: u16| inv(v) implies inv(
        #[trigger] <CpuBus as AddressSpace>::after_peek(v, p),
    ) by {}
    assert forall|v: CpuBusView, p: u16, x: u8| inv(v) implies inv(
        #[trigger] <CpuBus as AddressSpace>::after_poke(v, p, x),
    ) by {
        crate::ppu::lemma_dma_touches_oam_only(bus_latched(v.ppu, x), dma_page(v, x), 0);
    }
}

/// A cycle of the processor does not move the picture processor within
/// the frame.
pub proof fn lemma_cycle_keeps_position(m: Machine<CpuBusView>)
    ensures
        m_clock::<CpuBus>(m).bus.ppu.state.scanline == m.bus.ppu.state.scanline,
        m_clock::<CpuBus>(m).bus.ppu.state.cycle == m.bus.ppu.state.cycle,
        m_clock::<CpuBus>(m).bus.ppu.state.frame == m.bus.ppu.state.frame,
{
    let s = m.bus.ppu.state;
    let inv = |b: CpuBusView| stands_at(b, s.scanline, s.cycle, s.frame);
    lemma_bus_keeps_position(s.scanline, s.cycle, s.frame);
    assert(inv(m.bus));
    lemma_clock_keeps::<CpuBus>(inv, m);
    assert(inv(m_clock::<CpuBus>(m).bus));
}

/// Whether `b` is in the frame after that of `a`, at its first dot, with
/// `a` at most two dots before it, or in the same frame and one dot nearer
/// to the next.
pub open spec fn one_dot_nearer(a: PpuState, b: PpuState) -> bool {
    b.frame == a.frame.wrapping_add(1) && dots_left(b) == 89342 && dots_left(a) <= 2 || b.frame
        == a.frame && dots_left(b) + 1 == dots_left(a)
}

/// Whether `b` is in the frame after that of `a`, with `a` at most four
/// dots before it, or in the same frame and three dots nearer to the next.
pub open spec fn three_dots_nearer(a: PpuState, b: PpuState) -> bool {
    b.frame == a.frame.wrapping_add(1) && dots_left(a) <= 4 || b.frame == a.frame && dots_left(b)
        + 3 == dots_left(a)
}

/// One dot either begins the next frame or brings it one dot nearer.
pub proof fn lemma_dot_nears_frame(v: PpuView)
    ensures
        1 <= dots_left(v.state) <= 89342,
        one_dot_nearer(v.state, ppu_dot(v).state),
{
    crate::ppu::lemma_dot_position(v);
}

/// Three steps, each one dot nearer, are three dots nearer or lead into
/// the next frame: a frame is longer than three dots.
pub proof fn lemma_thrice_nearer(a: PpuState, b: PpuState, c: PpuState, d: PpuState)
    requires
        one_dot_nearer(a, b),
        one_dot_nearer(b, c),
        one_dot_nearer(c, d),
        1 <= dots_left(d),
    ensures
        three_dots_nearer(a, d),
{
}

/// Three dots either lead into the next frame or bring it three dots nearer.
pub proof fn lemma_dots_near_frame(v: PpuView)
    ensures
        1 <= dots_left(v.state) <= 89342,
        three_dots_nearer(v.state, ppu_dots(v, 3).state),
{
    let v1 = ppu_dot(v);
    let v2 = ppu_dot(v1);
    let v3 = ppu_dot(v2);
    assert(ppu_dots(v, 3) == v3) by {
        reveal_with_fuel(ppu_dots, 4);
    }
    assert(one_dot_nearer(v.state, v1.state) && 1 <= dots_left(v.state) <= 89342) by {
        lemma_dot_nears_frame(v);
    }
    assert(one_dot_nearer(v1.state, v2.state)) by {
        lemma_dot_nears_frame(v1);
    }
    assert(one_dot_nearer(v2.state, v3.state)) by {
        lemma_dot_nears_frame(v2);
    }
    assert(1 <= dots_left(v3.state)) by {
        lemma_dot_nears_frame(v3);
    }
    lemma_thrice_nearer(v.state, v1.state, v2.state, v3.state);
}

/// One tick either takes the picture processor into the next frame, or
/// leaves it in its frame and brings the next frame three dots nearer.
#[verifier::rlimit(60)]
pub proof fn lemma_tick_nears_frame(m: Machine<CpuBusView>)
    ensures
        1 <= dots_left(m.bus.ppu.state) <= 89342,
        three_dots_nearer(m.bus.ppu.state, nes_clocked(m).bus.ppu.state),
{
    let c = dma_stalled(m_clock::<CpuBus>(m));
    let d = dots_run(c);
    let e = interrupts_served(d);
    assert(c.bus.ppu.state.scanline == m.bus.ppu.state.scanline && c.bus.ppu.state.cycle
        == m.bus.ppu.state.cycle && c.bus.ppu.state.frame == m.bus.ppu.state.frame) by {
        lemma_cycle_keeps_position(m);
    }
    assert(three_dots_nearer(c.bus.ppu.state, d.bus.ppu.state) && 1 <= dots_left(
        c.bus.ppu.state,
    ) <= 89342) by {
        lemma_dots_near_frame(c.bus.ppu);
    }
    assert(e.bus.ppu.state.scanline == d.bus.ppu.state.scanline && e.bus.ppu.state.cycle
        == d.bus.ppu.state.cycle && e.bus.ppu.state.frame == d.bus.ppu.state.frame) by {
        lemma_interrupt_keeps_picture(d);
    }
    assert(nes_clocked(m).bus.ppu == e.bus.ppu);
}

/// A frame run ends in the next frame, wherever in its frame the console
/// stood: with the ticks that are left and the dots that are left in
/// step, the run from `m` leaves the frame `frame`.
pub proof fn lemma_frame_run_ends(m: Machine<CpuBusView>, n: nat)
    requires
        dots_left(m.bus.ppu.state) <= 3 * n - 1,
    ensures
        frame_run(m, m.bus.ppu.state.frame, n).bus.ppu.state.frame
            == m.bus.ppu.state.frame.wrapping_add(1),
    decreases n,
{
    lemma_tick_nears_frame(m);
    if n > 0 && nes_clocked(m).bus.ppu.state.frame == m.bus.ppu.state.frame {
        lemma_frame_run_ends(nes_clocked(m), (n - 1) as nat);
    }
}

/// A frame run is a run of `frame_ticks` ticks, and no tick before the
/// last has left the frame: the run stops with the first tick that does.
pub proof fn lemma_frame_run_least(m: Machine<CpuBusView>, frame: u32, n: nat)
    ensures
        frame_run(m, frame, n) == nes_run(m, frame_ticks(m, frame, n)),
        frame_ticks(m, frame, n) <= n,
        forall|k: nat|
            0 < k < frame_ticks(m, frame, n) ==> (#[trigger] nes_run(m, k)).bus.ppu.state.frame
                == frame,
    decreases n,
{
    let m1 = nes_clocked(m);
    assert(nes_run(m, 1) == m1) by {
        reveal_with_fuel(nes_run, 2);
    }
    if n > 0 && m1.bus.ppu.state.frame == frame {
        lemma_frame_run_least(m1, frame, (n - 1) as nat);
        let t = frame_ticks(m1, frame, (n - 1) as nat);
        assert(nes_run(m, 1 + t) == nes_run(m1, t));
        assert forall|k: nat| 0 < k < 1 + t implies (#[trigger] nes_run(m, k)).bus.ppu.state.frame
            == frame by {
            if k > 1 {
                assert(nes_run(m, k) == nes_run(m1, (k - 1) as nat));
            }
        }
    }
}

/// A frame run takes the least number of ticks whose dots complete the
/// frame: with `c` ticks taken, `c - 1` ticks fall short of the dots that
/// are left, and `c` ticks reach them, or miss them by the one dot that an
/// odd frame with rendering enabled skips.
pub proof fn lemma_frame_run_ticks(m: Machine<CpuBusView>, n: nat)
    requires
        dots_left(m.bus.ppu.state) <= 3 * n - 1,
    ensures
        1 <= frame_ticks(m, m.bus.ppu.state.frame, n) <= n,
        3 * (frame_ticks(m, m.bus.ppu.state.frame, n) - 1) < dots_left(m.bus.ppu.state),
        dots_left(m.bus.ppu.state) <= 3 * frame_ticks(m, m.bus.ppu.state.frame, n) + 1,
    decreases n,
{
    lemma_tick_nears_frame(m);
    if n > 0 && nes_clocked(m).bus.ppu.state.frame == m.bus.ppu.state.frame {
        lemma_frame_run_ticks(nes_clocked(m), (n - 1) as nat);
    }
}

/// Every tick of the console is one cycle of the processor.
pub proof fn lemma_tick_counts(m: Machine<CpuBusView>)
    ensures
        nes_clocked(m).cpu.counter == m.cpu.counter.wrapping_add(1),
{
    crate::c6502::lemma_clock_counts::<CpuBus>(m);
    let d = dots_run(dma_stalled(m_clock::<CpuBus>(m)));
    assert(interrupts_served(d).cpu.counter == d.cpu.counter);
}

/// A frame run advances the cycle counter of the processor by the ticks
/// it takes, within the width of the counter.
pub proof fn lemma_frame_run_counts(m: Machine<CpuBusView>, frame: u32, n: nat)
    ensures
        frame_run(m, frame, n).cpu.counter == (m.cpu.counter + frame_ticks(m, frame, n))
            % 0x1_0000_0000_0000_0000,
    decreases n,
{
    let m1 = nes_clocked(m);
    lemma_tick_counts(m);
    if n > 0 && m1.bus.ppu.state.frame == frame {
        let t = frame_ticks(m1, frame, (n - 1) as nat);
        lemma_frame_run_counts(m1, frame, (n - 1) as nat);
        if m.cpu.counter == u64::MAX {
            vstd::arithmetic::div_mod::lemma_mod_add_multiples_vanish(
                t as int,
                0x1_0000_0000_0000_0000,
            );
        }
    }
}

/// From the first dot of a frame, a frame run takes 29781 ticks: 29780
/// ticks are 89340 dots, two short of the 89342 dots of a frame and one
/// short of the 89341 of an odd frame with rendering enabled.
pub proof fn lemma_frame_run_dots(s: PpuState)
    ensures
        3 * (CLOCKS_PER_FRAME - 1) < crate::ppu::frame_dots(s) <= 3 * CLOCKS_PER_FRAME,
{
}


/// The bytes that stand for the sprite slots from `from` on.
pub open spec fn slots_bytes(slots: Seq<SpriteSlot>, from: int) -> Seq<u8>
    decreases slots.len() - from,
{
    if from < 0 || from >= slots.len() {
        Seq::empty()
    } else {
        sprite_slot_bytes(slots[from]) + slots_bytes(slots, from + 1)
    }
}

/// The bytes that stand for the sprite slots: their number in 64 bits,
/// then the slots.
pub open spec fn sprites_bytes(slots: Seq<SpriteSlot>) -> Seq<u8> {
    le_bytes(slots.len() as u64, 8) + slots_bytes(slots, 0)
}

/// The sprite slots that `b` holds at offset `o`, with the offset behind them.
pub open spec fn sprites_at(b: Seq<u8>, o: int) -> Result<(Seq<SpriteSlot>, int), LoadError> {
    if o < 0 || o + 8 > b.len() {
        Err(LoadError::UnexpectedEnd)
    } else if o + 8 + 6 * u64_at(b, o) > b.len() {
        Err(LoadError::UnexpectedEnd)
    } else {
        Ok(
            (
                Seq::new(u64_at(b, o) as nat, |i: int| sprite_slot_at(b, o + 8 + 6 * i)),
                o + 8 + 6 * u64_at(b, o),
            ),
        )
    }
}

/// Appends the bytes that stand for sprite slots.
pub fn put_sprites(out: &mut Vec<u8>, slots: &Vec<SpriteSlot>)
    ensures
        final(out)@ == old(out)@ + sprites_bytes(slots@),
{
    put_u64(out, slots.len() as u64);
    let ghost mid = out@;
    let mut i: usize = 0;
    while i < slots.len()
        invariant
            i <= slots.len(),
            out@ + slots_bytes(slots@, i as int) == mid + slots_bytes(slots@, 0),
        decreases slots.len() - i,
    {
        let ghost before = out@;
        put_sprite_slot(out, &slots[i]);
        proof {
            assert(out@ + slots_bytes(slots@, i + 1) =~= before + slots_bytes(slots@, i as int));
        }
        i = i + 1;
    }
    proof {
        assert(out@ + slots_bytes(slots@, slots.len() as int) =~= out@);
        assert(out@ =~= old(out)@ + sprites_bytes(slots@));
    }
}

/// Reads the sprite slots that `input` holds at `at`.
pub fn get_sprites(input: &[u8], at: usize) -> (r: Result<(Vec<SpriteSlot>, usize), LoadError>)
    requires
        at <= input@.len(),
    ensures
        match sprites_at(input@, at as int) {
            Ok((slots, next)) => r is Ok && r->Ok_0.0@ == slots && r->Ok_0.1 == next && at <= next
                <= input@.len(),
            Err(e) => r == Err::<(Vec<SpriteSlot>, usize), LoadError>(e),
        },
{
    if input.len() - at < 8 {
        return Err(LoadError::UnexpectedEnd);
    }
    let count = get_u64(input, at);
    let room = (input.len() - at - 8) as u64;
    if count > room / 6 {
        return Err(LoadError::UnexpectedEnd);
    }
    let count = count as usize;
    let mut slots: Vec<SpriteSlot> = Vec::new();
    let mut i: usize = 0;
    while i < count
        invariant
            i <= count,
            at + 8 + 6 * count <= input@.len() <= usize::MAX,
            slots@.len() == i,
            forall|j: int| 0 <= j < i ==> slots@[j] == sprite_slot_at(input@, at + 8 + 6 * j),
        decreases count - i,
    {
        slots.push(get_sprite_slot(input, at + 8 + 6 * i));
        i = i + 1;
    }
    proof {
        assert(slots@ =~= sprites_at(input@, at as int)->Ok_0.0);
    }
    Ok((slots, at + 8 + 6 * count))
}

/// The bytes that stand for the picture processor in a saved state: its
/// registers and counters, its bus, sprite memory, the frame, and the
/// sprite slots.
#[verifier::opaque]
pub open spec fn ppu_bytes(v: PpuView) -> Seq<u8> {
    ppu_state_bytes(v.state) + mapper_bytes(v.bus) + blob_bytes(v.oam) + blob_bytes(v.display)
        + sprites_bytes(v.sprites)
}

/// The picture processor that `b` holds at offset `o`, its bus built as
/// that of `shape` is.
pub open spec fn ppu_decoded(shape: PpuView, b: Seq<u8>, o: int) -> Result<(PpuView, int), LoadError> {
    if o < 0 || o + 48 > b.len() {
        Err(LoadError::UnexpectedEnd)
    } else {
        match mapper_decoded(shape.bus, b, o + 48) {
            Err(e) => Err(e),
            Ok((bus, o1)) => match blob_at(b, o1) {
                Err(e) => Err(e),
                Ok((oam, o2)) => match blob_at(b, o2) {
                    Err(e) => Err(e),
                    Ok((display, o3)) => match sprites_at(b, o3) {
                        Err(e) => Err(e),
                        Ok((sprites, o4)) => Ok(
                            (
                                PpuView {
                                    state: ppu_state_at(b, o),
                                    display: display,
                                    oam: oam,
                                    sprites: sprites,
                                    bus: bus,
                                },
                                o4,
                            ),
                        ),
                    },
                },
            },
        }
    }
}

/// Appends the bytes that stand for the picture processor.
pub fn put_ppu(out: &mut Vec<u8>, ppu: &Ppu)
    ensures
        final(out)@ == old(out)@ + ppu_bytes(ppu@),
{
    put_ppu_state(out, &ppu.state);
    ppu.mapper.save(out);
    put_blob(out, &ppu.oam);
    put_blob(out, &ppu.display);
    put_sprites(out, &ppu.sprites);
    proof {
        reveal(ppu_bytes);
        assert(out@ =~= old(out)@ + ppu_bytes(ppu@));
    }
}

/// Builds the picture processor that `input` holds at `at`, its bus as
/// that of `shape` is built.
pub fn get_ppu(shape: &Ppu, input: &[u8], at: usize) -> (r: Result<(Ppu, usize), LoadError>)
    requires
        at <= input@.len(),
    ensures
        match ppu_decoded(shape@, input@, at as int) {
            Ok((v, next)) => r is Ok && r->Ok_0.0@ == v && r->Ok_0.1 == next && at <= next
                <= input@.len(),
            Err(e) => r == Err::<(Ppu, usize), LoadError>(e),
        },
{
    if input.len() - at < PPU_STATE_SIZE {
        return Err(LoadError::UnexpectedEnd);
    }
    let state = get_ppu_state(input, at);
    let (mapper, o1) = match shape.mapper.load(input, at + PPU_STATE_SIZE) {
        Ok(pair) => pair,
        Err(e) => {
            return Err(e);
        },
    };
    let (oam, o2) = match get_blob(input, o1) {
        Ok(pair) => pair,
        Err(e) => {
            return Err(e);
        },
    };
    let (display, o3) = match get_blob(input, o2) {
        Ok(pair) => pair,
        Err(e) => {
            return Err(e);
        },
    };
    let (sprites, o4) = match get_sprites(input, o3) {
        Ok(pair) => pair,
        Err(e) => {
            return Err(e);
        },
    };
    Ok((Ppu { state, display, oam, sprites, mapper }, o4))
}

/// The bytes that stand for the processor bus in a saved state: work
/// memory, the cartridge, the controllers, the transfer flag, the picture
/// processor and the channels of the audio processor.
#[verifier::opaque]
pub open spec fn bus_bytes(v: CpuBusView) -> Seq<u8> {
    blob_bytes(v.ram) + mapper_bytes(v.cartridge) + joystick_bytes(v.joystick1) + joystick_bytes(
        v.joystick2,
    ) + flag_bytes(v.dma_pending) + ppu_bytes(v.ppu) + apu_core_bytes(v.apu.core)
}

/// The processor bus that `b` holds at offset `o`, built as `shape` is.
/// The samples taken so far are kept.
pub open spec fn bus_decoded(shape: CpuBusView, b: Seq<u8>, o: int) -> Result<
    (CpuBusView, int),
    LoadError,
> {
    match blob_at(b, o) {
        Err(e) => Err(e),
        Ok((ram, o1)) => match mapper_decoded(shape.cartridge, b, o1) {
            Err(e) => Err(e),
            Ok((cartridge, o2)) => if o2 < 0 || o2 + 7 > b.len() {
                Err(LoadError::UnexpectedEnd)
            } else {
                match ppu_decoded(shape.ppu, b, o2 + 7) {
                    Err(e) => Err(e),
                    Ok((ppu, o3)) => if o3 < 0 || o3 + 102 > b.len() {
                        Err(LoadError::UnexpectedEnd)
                    } else {
                        Ok(
                            (
                                CpuBusView {
                                    ram: ram,
                                    ppu: ppu,
                                    apu: ApuView { core: apu_core_at(b, o3), ..shape.apu },
                                    joystick1: joystick_at(b, o2),
                                    joystick2: joystick_at(b, o2 + 3),
                                    cartridge: cartridge,
                                    dma_pending: flag_at(b, o2 + 6),
                                },
                                o3 + 102,
                            ),
                        )
                    },
                }
            },
        },
    }
}

/// The footer of a saved state.
pub const STATE_FOOTER: u32 = 0xF00F;

/// The bytes of a saved state: the processor, its bus, and the footer.
pub open spec fn state_bytes(m: Machine<CpuBusView>) -> Seq<u8> {
    cpu_state_bytes(m.cpu) + bus_bytes(m.bus) + le_bytes(STATE_FOOTER as u64, 4)
}

/// The console that the saved state `b` holds, built as `shape` is.
pub open spec fn state_decoded(shape: Machine<CpuBusView>, b: Seq<u8>) -> Result<
    Machine<CpuBusView>,
    LoadError,
> {
    if b.len() < 34 {
        Err(LoadError::UnexpectedEnd)
    } else {
        match bus_decoded(shape.bus, b, 34) {
            Err(e) => Err(e),
            Ok((bus, o)) => if o < 0 || o + 4 > b.len() {
                Err(LoadError::UnexpectedEnd)
            } else if u32_at(b, o) != STATE_FOOTER {
                Err(LoadError::BadFooter)
            } else {
                Ok(Machine { cpu: cpu_state_at(b, 0), bus: bus })
            },
        }
    }
}

impl CpuBus {
    /// Appends the bytes that stand for the bus in a saved state.
    pub fn save(&self, out: &mut Vec<u8>)
        ensures
            final(out)@ == old(out)@ + bus_bytes(self@),
    {
        self.ram.save(out);
        self.cartridge.save(out);
        put_joystick(out, &self.joystick1);
        put_joystick(out, &self.joystick2);
        put_flag(out, self.dma_pending);
        put_ppu(out, &self.bridge.ppu);
        put_apu_core(out, &self.apu.core);
        proof {
            reveal(bus_bytes);
            assert(out@ =~= old(out)@ + bus_bytes(self@));
        }
    }

    /// Builds the bus that `input` holds at `at`, as this one is built,
    /// with no samples taken; returns it with the position behind it.
    pub fn decode(&self, input: &[u8], at: usize) -> (r: Result<(CpuBus, usize), LoadError>)
        requires
            at <= input@.len(),
        ensures
            match bus_decoded(self@, input@, at as int) {
                Ok((v, next)) => r is Ok && r->Ok_0.1 == next && at <= next <= input@.len()
                    && r->Ok_0.0@ == without_samples(v),
                Err(e) => r == Err::<(CpuBus, usize), LoadError>(e),
            },
    {
        let (ram, o1) = match Ram::load(input, at) {
            Ok(pair) => pair,
            Err(e) => {
                return Err(e);
            },
        };
        proof {
            assert(o1 >= at);
        }
        let (cartridge, o2) = match self.cartridge.load(input, o1) {
            Ok(pair) => pair,
            Err(e) => {
                return Err(e);
            },
        };
        if input.len() - o2 < 7 {
            return Err(LoadError::UnexpectedEnd);
        }
        let joystick1 = get_joystick(input, o2);
        let joystick2 = get_joystick(input, o2 + 3);
        let dma_pending = get_flag(input, o2 + 6);
        let (ppu, o3) = match get_ppu(&self.bridge.ppu, input, o2 + 7) {
            Ok(pair) => pair,
            Err(e) => {
                return Err(e);
            },
        };
        if input.len() - o3 < APU_CORE_SIZE {
            return Err(LoadError::UnexpectedEnd);
        }
        let core = get_apu_core(input, o3);
        let mut apu = Apu::new();
        apu.set_core(core);
        Ok(
            (
                CpuBus {
                    ram: ram,
                    bridge: CpuPpuInterconnect::new(ppu),
                    apu: apu,
                    joystick1: joystick1,
                    joystick2: joystick2,
                    cartridge: cartridge,
                    dma_pending: dma_pending,
                },
                o3 + APU_CORE_SIZE,
            ),
        )
    }

    /// Takes the place of this bus with `other`, but keeps the samples
    /// taken so far.
    pub fn adopt(&mut self, other: CpuBus)
        ensures
            final(self)@ == (CpuBusView {
                apu: ApuView { samples: old(self)@.apu.samples, ..other@.apu },
                ..other@
            }),
    {
        let samples = self.apu.take_samples();
        let mut other = other;
        other.apu.set_samples(samples);
        *self = other;
    }

    /// Replaces the bus by the one that `input` holds at `at`; returns
    /// the position behind it. On an error the bus stays as it was.
    #[verifier::rlimit(60)]
    pub fn load(&mut self, input: &[u8], at: usize) -> (r: Result<usize, LoadError>)
        requires
            at <= input@.len(),
        ensures
            match bus_decoded(old(self)@, input@, at as int) {
                Ok((v, next)) => r == Ok::<usize, LoadError>(next as usize) && at <= next
                    <= input@.len() && final(self)@ == v,
                Err(e) => r == Err::<usize, LoadError>(e) && final(self)@ == old(self)@,
            },
    {
        match self.decode(input, at) {
            Ok((bus, next)) => {
                self.adopt(bus);
                Ok(next)
            },
            Err(e) => Err(e),
        }
    }
}

/// `v` with no samples taken.
pub open spec fn without_samples(v: CpuBusView) -> CpuBusView {
    CpuBusView { apu: ApuView { samples: Seq::empty(), ..v.apu }, ..v }
}

impl Nes {
    /// The bytes of a saved state of the console.
    pub fn save_state(&self) -> (out: Vec<u8>)
        ensures
            out@ == state_bytes(self@),
    {
        let mut out: Vec<u8> = Vec::new();
        put_cpu_state(&mut out, &self.cpu.state);
        self.cpu.mapper.save(&mut out);
        put_u32(&mut out, STATE_FOOTER);
        proof {
            assert(out@ =~= state_bytes(self@));
        }
        out
    }

    /// Restores the console from a saved state. A state that is refused
    /// leaves the console as it was.
    pub fn load_state(&mut self, input: &[u8]) -> (r: Result<(), LoadError>)
        ensures
            match state_decoded(old(self)@, input@) {
                Ok(m) => r == Ok::<(), LoadError>(()) && final(self)@ == m,
                Err(e) => r == Err::<(), LoadError>(e) && final(self)@ == old(self)@,
            },
    {
        if input.len() < CPU_STATE_SIZE {
            return Err(LoadError::UnexpectedEnd);
        }
        let state = get_cpu_state(input, 0);
        let (bus, next) = match self.cpu.mapper.decode(input, CPU_STATE_SIZE) {
            Ok(pair) => pair,
            Err(e) => {
                return Err(e);
            },
        };
        if input.len() - next < 4 {
            return Err(LoadError::UnexpectedEnd);
        }
        if get_u32(input, next) != STATE_FOOTER {
            return Err(LoadError::BadFooter);
        }
        self.cpu.mapper.adopt(bus);
        self.cpu.set_state(state);
        Ok(())
    }
}


/// The slots from `from` on are read back from where their bytes stand.
pub proof fn lemma_slots_round_trip(slots: Seq<SpriteSlot>, from: int, pre: Seq<u8>, post: Seq<u8>)
    requires
        0 <= from <= slots.len(),
    ensures
        slots_bytes(slots, from).len() == 6 * (slots.len() - from),
        forall|i: int|
            from <= i < slots.len() ==> sprite_slot_at(
                pre + slots_bytes(slots, from) + post,
                pre.len() + 6 * (i - from),
            ) == #[trigger] slots[i],
    decreases slots.len() - from,
{
    let whole = pre + slots_bytes(slots, from) + post;
    if from < slots.len() {
        let one = sprite_slot_bytes(slots[from]);
        let rest = slots_bytes(slots, from + 1);
        assert(slots_bytes(slots, from) =~= one + rest);
        lemma_sprite_slot_at(pre, slots[from], rest + post);
        assert(whole =~= pre + one + (rest + post));
        lemma_slots_round_trip(slots, from + 1, pre + one, post);
        assert(whole =~= (pre + one) + rest + post);
        assert forall|i: int| from <= i < slots.len() implies sprite_slot_at(
            whole,
            pre.len() + 6 * (i - from),
        ) == #[trigger] slots[i] by {
            if i > from {
                assert((pre + one).len() + 6 * (i - (from + 1)) == pre.len() + 6 * (i - from));
            }
        }
    } else {
        assert(slots_bytes(slots, from) =~= Seq::<u8>::empty());
    }
}

/// Sprite slots are read back from where their bytes stand.
pub proof fn lemma_sprites_round_trip(slots: Seq<SpriteSlot>, pre: Seq<u8>, post: Seq<u8>)
    requires
        slots.len() <= usize::MAX,
    ensures
        sprites_at(pre + sprites_bytes(slots) + post, pre.len() as int) == Ok::<
            (Seq<SpriteSlot>, int),
            LoadError,
        >((slots, pre.len() as int + sprites_bytes(slots).len())),
        sprites_bytes(slots).len() == 8 + 6 * slots.len(),
{
    let whole = pre + sprites_bytes(slots) + post;
    let count = le_bytes(slots.len() as u64, 8);
    let items = slots_bytes(slots, 0);
    lemma_number_at(pre, slots.len() as u64, 8, items + post);
    assert(whole =~= pre + count + (items + post));
    lemma_slots_round_trip(slots, 0, pre + count, post);
    assert(whole =~= (pre + count) + items + post);
    let o = pre.len() as int;
    assert(u64_at(whole, o) == slots.len());
    let read = Seq::new(slots.len(), |i: int| sprite_slot_at(whole, o + 8 + 6 * i));
    assert forall|i: int| 0 <= i < slots.len() implies read[i] == slots[i] by {
        assert((pre + count).len() + 6 * (i - 0) == o + 8 + 6 * i);
    }
    assert(read =~= slots);
}

/// Whether every length in `v` can be held by this machine.
pub open spec fn ppu_fits(v: PpuView) -> bool {
    table_fits(v.bus) && v.oam.len() <= usize::MAX && v.display.len() <= usize::MAX
        && v.sprites.len() <= usize::MAX
}

/// A picture processor is read back from where its bytes stand, by one
/// whose bus is built alike.
#[verifier::rlimit(60)]
pub proof fn lemma_ppu_round_trip(shape: PpuView, v: PpuView, pre: Seq<u8>, post: Seq<u8>)
    requires
        tables_alike(shape.bus, v.bus),
        ppu_fits(v),
    ensures
        ppu_decoded(shape, pre + ppu_bytes(v) + post, pre.len() as int) == Ok::<
            (PpuView, int),
            LoadError,
        >((v, pre.len() as int + ppu_bytes(v).len())),
{
    let whole = pre + ppu_bytes(v) + post;
    let a = ppu_state_bytes(v.state);
    let b = mapper_bytes(v.bus);
    let c = blob_bytes(v.oam);
    let d = blob_bytes(v.display);
    let e = sprites_bytes(v.sprites);
    reveal(ppu_bytes);
    assert(ppu_bytes(v) == a + b + c + d + e);
    assert(whole == pre + (a + b + c + d + e) + post);
    let q1 = a;
    let q2 = q1 + b;
    let q3 = q2 + c;
    let q4 = q3 + d;
    let q5 = q4 + e;
    let before0 = pre;
    let before1 = before0 + a;
    let before2 = before1 + b;
    let before3 = before2 + c;
    let before4 = before3 + d;
    let after4 = post;
    let after3 = e + after4;
    let after2 = d + after3;
    let after1 = c + after2;
    let after0 = b + after1;
    lemma_concat_assoc(pre, q1, b);
    assert(pre + q2 == before1 + b);
    lemma_concat_assoc(pre, q2, c);
    assert(pre + q3 == before2 + c);
    lemma_concat_assoc(pre, q3, d);
    assert(pre + q4 == before3 + d);
    lemma_concat_assoc(pre, q4, e);
    assert(pre + q5 == before4 + e);
    assert(whole == before4 + e + after4);
    lemma_concat_assoc(before3 + d, e, after4);
    assert(whole == before3 + d + after3);
    lemma_concat_assoc(before2 + c, d, after3);
    assert(whole == before2 + c + after2);
    lemma_concat_assoc(before1 + b, c, after2);
    assert(whole == before1 + b + after1);
    lemma_concat_assoc(before0 + a, b, after1);
    assert(whole == before0 + a + after0);
    lemma_ppu_state_at(before0, v.state, after0);
    lemma_mapper_round_trip(shape.bus, v.bus, before1, after1);
    lemma_blob_at(before2, v.oam, after2);
    lemma_blob_at(before3, v.display, after3);
    lemma_sprites_round_trip(v.sprites, before4, after4);
    assert(before1.len() == pre.len() + 48);
    assert(ppu_bytes(v).len() == a.len() + b.len() + c.len() + d.len() + e.len());
}

/// Whether `v` is built as `shape` is: the tables of both buses have as
/// many entries, with devices built alike.
pub open spec fn consoles_alike(shape: CpuBusView, v: CpuBusView) -> bool {
    tables_alike(shape.cartridge, v.cartridge) && tables_alike(shape.ppu.bus, v.ppu.bus)
}

/// Whether every length in `v` can be held by this machine.
pub open spec fn bus_fits(v: CpuBusView) -> bool {
    v.ram.len() <= usize::MAX && table_fits(v.cartridge) && ppu_fits(v.ppu)
}

/// `v` with the samples taken so far replaced.
pub open spec fn with_samples(v: CpuBusView, samples: Seq<crate::apu::Mix>) -> CpuBusView {
    CpuBusView { apu: ApuView { samples: samples, ..v.apu }, ..v }
}

/// Each part of a processor bus is read back from where its bytes stand:
/// work memory, the cartridge, the controllers, the transfer flag, the
/// picture processor and the channels of the audio processor, one behind
/// the other.
#[verifier::rlimit(60)]
pub proof fn lemma_bus_parts(shape: CpuBusView, v: CpuBusView, pre: Seq<u8>, post: Seq<u8>)
    requires
        consoles_alike(shape, v),
        bus_fits(v),
    ensures
        ({
            let whole = pre + bus_bytes(v) + post;
            let o1: int = pre.len() as int + blob_bytes(v.ram).len();
            let o2: int = o1 + mapper_bytes(v.cartridge).len();
            let o3: int = o2 + 7 + ppu_bytes(v.ppu).len();
            &&& blob_at(whole, pre.len() as int) == Ok::<(Seq<u8>, int), LoadError>((v.ram, o1))
            &&& mapper_decoded(shape.cartridge, whole, o1) == Ok::<
                (Seq<MappingView>, int),
                LoadError,
            >((v.cartridge, o2))
            &&& joystick_at(whole, o2) == v.joystick1
            &&& joystick_at(whole, o2 + 3) == v.joystick2
            &&& flag_at(whole, o2 + 6) == v.dma_pending
            &&& ppu_decoded(shape.ppu, whole, o2 + 7) == Ok::<(PpuView, int), LoadError>(
                (v.ppu, o3),
            )
            &&& apu_core_at(whole, o3) == v.apu.core
            &&& o3 + 102 == pre.len() + bus_bytes(v).len()
            &&& o3 + 102 <= whole.len()
        }),
{
    let whole = pre + bus_bytes(v) + post;
    let a = blob_bytes(v.ram);
    let b = mapper_bytes(v.cartridge);
    let c = joystick_bytes(v.joystick1);
    let d = joystick_bytes(v.joystick2);
    let e = flag_bytes(v.dma_pending);
    let f = ppu_bytes(v.ppu);
    let g = apu_core_bytes(v.apu.core);
    reveal(bus_bytes);
    assert(bus_bytes(v) == a + b + c + d + e + f + g);
    assert(whole == pre + (a + b + c + d + e + f + g) + post);
    let q1 = a;
    let q2 = q1 + b;
    let q3 = q2 + c;
    let q4 = q3 + d;
    let q5 = q4 + e;
    let q6 = q5 + f;
    let q7 = q6 + g;
    let before0 = pre;
    let before1 = before0 + a;
    let before2 = before1 + b;
    let before3 = before2 + c;
    let before4 = before3 + d;
    let before5 = before4 + e;
    let before6 = before5 + f;
    let after6 = post;
    let after5 = g + after6;
    let after4 = f + after5;
    let after3 = e + after4;
    let after2 = d + after3;
    let after1 = c + after2;
    let after0 = b + after1;
    lemma_concat_assoc(pre, q1, b);
    assert(pre + q2 == before1 + b);
    lemma_concat_assoc(pre, q2, c);
    assert(pre + q3 == before2 + c);
    lemma_concat_assoc(pre, q3, d);
    assert(pre + q4 == before3 + d);
    lemma_concat_assoc(pre, q4, e);
    assert(pre + q5 == before4 + e);
    lemma_concat_assoc(pre, q5, f);
    assert(pre + q6 == before5 + f);
    lemma_concat_assoc(pre, q6, g);
    assert(pre + q7 == before6 + g);
    assert(whole == before6 + g + after6);
    lemma_concat_assoc(before5 + f, g, after6);
    assert(whole == before5 + f + after5);
    lemma_concat_assoc(before4 + e, f, after5);
    assert(whole == before4 + e + after4);
    lemma_concat_assoc(before3 + d, e, after4);
    assert(whole == before3 + d + after3);
    lemma_concat_assoc(before2 + c, d, after3);
    assert(whole == before2 + c + after2);
    lemma_concat_assoc(before1 + b, c, after2);
    assert(whole == before1 + b + after1);
    lemma_concat_assoc(before0 + a, b, after1);
    assert(whole == before0 + a + after0);
    lemma_blob_at(before0, v.ram, after0);
    lemma_mapper_round_trip(shape.cartridge, v.cartridge, before1, after1);
    lemma_joystick_at(before2, v.joystick1, after2);
    lemma_joystick_at(before3, v.joystick2, after3);
    assert((before4 + e + after4)[before4.len() as int] == e[0]) by {
        assert(e.len() == 1);
    }
    lemma_ppu_round_trip(shape.ppu, v.ppu, before5, after5);
    lemma_apu_core_at(before6, v.apu.core, after6);
    assert(before2.len() + 7 == before5.len());
    assert(bus_bytes(v).len() == a.len() + b.len() + 7 + f.len() + g.len());
    assert(a.len() == blob_bytes(v.ram).len());
    assert(g.len() == 102);
    assert(before5.len() == before2.len() + 7);
    assert(before6.len() == before5.len() + f.len());
    assert(whole.len() == before6.len() + g.len() + after6.len());
}

/// A processor bus is read back from where its bytes stand, by one built
/// alike; the samples taken are those of the bus that reads.
pub proof fn lemma_bus_round_trip(shape: CpuBusView, v: CpuBusView, pre: Seq<u8>, post: Seq<u8>)
    requires
        consoles_alike(shape, v),
        bus_fits(v),
    ensures
        bus_decoded(shape, pre + bus_bytes(v) + post, pre.len() as int) == Ok::<
            (CpuBusView, int),
            LoadError,
        >((with_samples(v, shape.apu.samples), pre.len() as int + bus_bytes(v).len())),
{
    lemma_bus_parts(shape, v, pre, post);
}

/// A saved state, loaded into a console that is built alike, restores the
/// console that was saved: its processor, its memories, its picture and
/// audio processors and its controllers. The samples taken stay those of
/// the console that loads.
#[verifier::rlimit(60)]
pub proof fn lemma_state_round_trip(shape: Machine<CpuBusView>, m: Machine<CpuBusView>)
    requires
        consoles_alike(shape.bus, m.bus),
        bus_fits(m.bus),
    ensures
        state_decoded(shape, state_bytes(m)) == Ok::<Machine<CpuBusView>, LoadError>(
            Machine { cpu: m.cpu, bus: with_samples(m.bus, shape.bus.apu.samples) },
        ),
{
    let whole = state_bytes(m);
    let a = cpu_state_bytes(m.cpu);
    let b = bus_bytes(m.bus);
    let c = le_bytes(STATE_FOOTER as u64, 4);
    let pre = Seq::<u8>::empty();
    let post = Seq::<u8>::empty();
    assert(whole =~= pre + a + b + c + post);
    let before0 = pre;
    let before1 = before0 + a;
    let before2 = before1 + b;
    let after2 = post;
    let after1 = c + after2;
    let after0 = b + after1;
    assert(whole =~= before2 + c + after2);
    assert(before1 + b + after1 =~= before2 + c + after2);
    assert(before0 + a + after0 =~= before1 + b + after1);
    lemma_cpu_state_at(before0, m.cpu, after0);
    lemma_bus_round_trip(shape.bus, m.bus, before1, after1);
    lemma_number_at(before2, STATE_FOOTER as u64, 4, after2);
    assert(before1.len() == 34);
}

/// Every console built from a cartridge is built alike, whatever it has
/// run since, as long as its tables were not replaced.
pub proof fn lemma_built_alike(rom: InesView, other: InesView)
    requires
        rom.mirroring == other.mirroring,
    ensures
        tables_alike(
            cartridge_view(rom.prg_rom, rom.num_prg_chunks == 2),
            cartridge_view(other.prg_rom, other.num_prg_chunks == 2),
        ),
        tables_alike(
            ppu_bus_view(rom.chr_rom, rom.mirroring),
            ppu_bus_view(other.chr_rom, other.mirroring),
        ),
{
    reveal_with_fuel(crate::mapper::same_build, 4);
    reveal_with_fuel(tables_alike, 4);
    let a = ppu_bus_view(rom.chr_rom, rom.mirroring);
    let b = ppu_bus_view(other.chr_rom, other.mirroring);
    assert(a.len() == 3 && b.len() == 3);
    if !rom.mirroring {
        let x = seq![doubled_nametable(0x2000), doubled_nametable(0x2800)];
        assert(tables_alike(x, x));
    }
}


/// On the processor bus, two reads in a row of `$2002` or one of its
/// mirrors while VBlank is up return bit 7 set and then bit 7 clear.
pub proof fn lemma_status_read_on_bus(v: CpuBusView, ptr: u16)
    requires
        0x2000 <= ptr < 0x4000,
        ptr % 8 == 2,
        v.ppu.state.nmi_occurred,
    ensures
        bus_maps(v, ptr),
        bus_value(v, ptr) >= 128,
        bus_value(bus_after_read(v, ptr), ptr) < 128,
        !bus_after_read(v, ptr).ppu.state.nmi_occurred,
        !bus_after_read(v, ptr).ppu.state.registers.w,
{
    crate::ppu::lemma_status_read_clears_vblank(v.ppu);
}

/// A write to work memory is read back under each of its four addresses,
/// and reads of work memory change nothing.
pub proof fn lemma_work_ram_mirrors(v: CpuBusView, ptr: u16, other: u16, value: u8)
    requires
        v.ram.len() == 0x800,
        ptr < 0x2000,
        other < 0x2000,
        other % 0x800 == ptr % 0x800,
    ensures
        bus_maps(v, ptr),
        bus_value(bus_after_write(v, ptr, value), other) == value,
        bus_after_read(v, ptr) == v,
        bus_after_write(v, ptr, value).ram.len() == 0x800,
        bus_after_write(v, ptr, value).ppu == v.ppu,
        bus_after_write(v, ptr, value).cartridge == v.cartridge,
{
}

} // verus!
