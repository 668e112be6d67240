use nes_emulator::common::{get_bit, run_clocks, ternary};
use nes_emulator::joystick::Joystick;
use nes_emulator::mapper::{AddressSpace, BusError};
use nes_emulator::nes::{
    find_region, load_ines, parse_ines, Nes, Region, RomError, Tas, CLOCKS_PER_FRAME,
};
use nes_emulator::serialization::LoadError;

/// A cartridge image with one bank of program data that holds `program`
/// at `$8000` and the three vectors.
fn image(program: &[u8], flags6: u8, prg_banks: u8) -> Vec<u8> {
    let mut bytes = vec![0x4e, 0x45, 0x53, 0x1a, prg_banks, 1, flags6, 0];
    bytes.extend_from_slice(&[0; 8]);
    if flags6 & 0x04 != 0 {
        bytes.extend_from_slice(&[0xee; 512]);
    }
    let mut prg = vec![0xea; 16384 * prg_banks as usize];
    prg[..program.len()].copy_from_slice(program);
    let top = prg.len();
    prg[top - 6] = 0x00; // NMI -> $9000
    prg[top - 5] = 0x90;
    prg[top - 4] = 0x00; // reset -> $8000
    prg[top - 3] = 0x80;
    prg[top - 2] = 0x00; // IRQ -> $A000
    prg[top - 1] = 0xa0;
    bytes.extend_from_slice(&prg);
    bytes.extend_from_slice(&[0x55; 8192]);
    bytes
}

fn console(program: &[u8]) -> Nes {
    let rom = parse_ines(&image(program, 0, 1)).unwrap();
    load_ines(rom, Joystick::new(), Joystick::new()).ok().unwrap()
}

#[test]
fn small_helpers() {
    assert_eq!(get_bit(0b0100_0000, 6), 1);
    assert_eq!(get_bit(0b0100_0000, 5), 0);
    assert_eq!(ternary(true, 1, 2), 1);
    assert_eq!(ternary(false, 1, 2), 2);
}

#[test]
fn cartridge_images_are_parsed() {
    let rom = parse_ines(&image(&[0xa9, 0x01], 0x13, 1)).unwrap();
    assert_eq!(rom.num_prg_chunks, 1);
    assert_eq!(rom.num_chr_chunks, 1);
    assert_eq!(rom.mapper, 1);
    assert!(rom.mirroring);
    assert!(rom.has_battery_backed_ram);
    assert!(!rom.has_trainer);
    assert!(!rom.has_four_screen_vram);
    assert_eq!(rom.prg_rom.len(), 16384);
    assert_eq!(&rom.prg_rom[..2], &[0xa9, 0x01]);
    assert_eq!(rom.chr_rom, vec![0x55; 8192]);

    let mut high = image(&[], 0x20, 2);
    high[7] = 0x40;
    let rom = parse_ines(&high).unwrap();
    assert_eq!(rom.mapper, 0x42);
    assert_eq!(rom.prg_rom.len(), 32768);

    let with_trainer = parse_ines(&image(&[0x38], 0x04, 1)).unwrap();
    assert!(with_trainer.has_trainer);
    assert_eq!(with_trainer.prg_rom[0], 0x38);
}

#[test]
fn bad_cartridge_images_are_refused() {
    assert_eq!(parse_ines(&[]).err(), Some(RomError::InvalidRom));
    assert_eq!(parse_ines(&[0x4e, 0x45, 0x53]).err(), Some(RomError::InvalidRom));
    let mut wrong = image(&[], 0, 1);
    wrong[3] = 0x1b;
    assert_eq!(parse_ines(&wrong).err(), Some(RomError::InvalidRom));
    let whole = image(&[], 0, 1);
    assert_eq!(parse_ines(&whole[..whole.len() - 1]).err(), Some(RomError::Truncated));

    let mapper_one = parse_ines(&image(&[], 0x10, 1)).unwrap();
    assert_eq!(
        load_ines(mapper_one, Joystick::new(), Joystick::new()).err(),
        Some(RomError::UnsupportedMapper)
    );
    let mut three = image(&[], 0, 2);
    three[4] = 3;
    three.extend_from_slice(&[0; 16384]);
    let three_banks = parse_ines(&three).unwrap();
    assert_eq!(
        load_ines(three_banks, Joystick::new(), Joystick::new()).err(),
        Some(RomError::UnsupportedPrgSize)
    );
}

#[test]
fn the_console_starts_at_the_reset_vector() {
    let nes = console(&[0xa9, 0x05]);
    assert_eq!(nes.cpu.state.pc, 0x8000);
    assert_eq!(nes.cpu.state.sp, 0xfd);
    assert!(nes.cpu.state.interruptd);
    assert_eq!(nes.cpu.state.clocks_to_pause, 0);
    assert_eq!((nes.cpu.state.acc, nes.cpu.state.x, nes.cpu.state.y), (0, 0, 0));
    assert_eq!(nes.cpu.state.counter, 0);
    assert_eq!(nes.current_frame(), 0);
}

#[test]
fn one_bank_of_program_data_shows_twice() {
    let mut nes = console(&[0xa9, 0x05]);
    assert_eq!(nes.cpu.peek(0x8000), 0xa9);
    assert_eq!(nes.cpu.peek(0xc000), 0xa9);
    assert_eq!(nes.cpu.peek(0xfffc), 0x00);
    assert_eq!(nes.cpu.peek(0xfffd), 0x80);

    let rom = parse_ines(&image(&[0x01], 0, 2)).unwrap();
    let mut two = load_ines(rom, Joystick::new(), Joystick::new()).ok().unwrap();
    assert_eq!(two.cpu.peek(0x8000), 0x01);
    assert_eq!(two.cpu.peek(0xc000), 0xea);
    assert_eq!(two.cpu.state.pc, 0x8000);
}

#[test]
fn the_bus_is_laid_out_in_regions() {
    assert_eq!(find_region(0x0000), Region::WorkRam);
    assert_eq!(find_region(0x1fff), Region::WorkRam);
    assert_eq!(find_region(0x2000), Region::PpuRegisters);
    assert_eq!(find_region(0x3fff), Region::PpuRegisters);
    assert_eq!(find_region(0x4000), Region::ApuRegisters);
    assert_eq!(find_region(0x4013), Region::ApuRegisters);
    assert_eq!(find_region(0x4014), Region::OamDma);
    assert_eq!(find_region(0x4015), Region::ApuRegisters);
    assert_eq!(find_region(0x4016), Region::Joystick1);
    assert_eq!(find_region(0x4017), Region::Joystick2);
    assert_eq!(find_region(0x4018), Region::Reserved);
    assert_eq!(find_region(0x401f), Region::Reserved);
    assert_eq!(find_region(0x4020), Region::Cartridge);
    assert_eq!(find_region(0xffff), Region::Cartridge);
}

#[test]
fn work_memory_and_picture_registers_repeat() {
    let mut nes = console(&[]);
    nes.cpu.poke(0x0001, 0x11);
    assert_eq!(nes.cpu.peek(0x0801), 0x11);
    assert_eq!(nes.cpu.peek(0x1801), 0x11);
    nes.cpu.poke(0x1fff, 0x22);
    assert_eq!(nes.cpu.peek(0x07ff), 0x22);
    nes.cpu.poke(0x3ffb, 0x33); // the sprite address register, seven mirrors up
    assert_eq!(nes.cpu.mapper.bridge.ppu.state.oam_ptr, 0x33);
    nes.cpu.poke(0x2004, 0x44);
    assert_eq!(nes.cpu.mapper.bridge.ppu.oam[0x33], 0x44);
    assert_eq!(nes.cpu.peek(0x4018), 0);
    nes.cpu.poke(0x8000, 0x99);
    assert_eq!(nes.cpu.peek(0x8000), 0xea);
}

#[test]
fn unmapped_cartridge_space_reads_as_open_bus() {
    let mut nes = console(&[]);
    assert_eq!(nes.cpu.mapper.peek(0x5000), Err(BusError::UnmappedRead));
    assert_eq!(nes.cpu.mapper.poke(0x5000, 1), Err(BusError::UnmappedWrite));
    nes.cpu.poke(0x0000, 0x77);
    assert_eq!(nes.cpu.peek(0x5000), 0x77);
    assert_eq!(nes.cpu.mapper.probe(0x5000, 0x42), 0x42);
    assert_eq!(nes.cpu.mapper.probe(0x0000, 0x42), 0x77);
}

#[test]
fn controllers_shift_out_their_buttons() {
    let mut nes = console(&[]);
    nes.set_buttons(0, 0b1000_0101);
    nes.set_buttons(1, 0b0000_0010);
    nes.set_buttons(2, 0xff);
    nes.cpu.poke(0x4016, 1);
    assert_eq!(nes.cpu.peek(0x4016), 1);
    assert_eq!(nes.cpu.peek(0x4016), 1);
    nes.cpu.poke(0x4016, 0);
    let first: Vec<u8> = (0..9).map(|_| nes.cpu.peek(0x4016)).collect();
    assert_eq!(first, vec![1, 0, 1, 0, 0, 0, 0, 1, 0]);
    let second: Vec<u8> = (0..3).map(|_| nes.cpu.peek(0x4017)).collect();
    assert_eq!(second, vec![0, 1, 0]);
}

#[test]
fn a_controller_on_its_own() {
    let mut j = Joystick::new();
    j.set_buttons(0x03);
    assert_eq!(j.peek(0), Ok(0));
    assert_eq!(j.poke(0, 0x01), Ok(()));
    assert!(j.strobe_active);
    j.set_buttons(0x02);
    assert_eq!(j.peek(0), Ok(0));
    j.set_buttons(0x03);
    assert_eq!(j.poke(0, 0xfe), Ok(()));
    assert!(!j.strobe_active);
    j.set_buttons(0x00);
    assert_eq!(j.peek(0), Ok(1));
    assert_eq!(j.peek(0), Ok(1));
    assert_eq!(j.peek(0), Ok(0));
    assert_eq!(j.get_next_button(), 0);
}

#[test]
fn a_write_to_4017_reaches_the_frame_counter() {
    let mut nes = console(&[]);
    nes.cpu.poke(0x4017, 0x80);
    assert!(nes.cpu.mapper.apu.core.frame_counter.mode);
    nes.cpu.poke(0x4015, 0x01);
    assert_eq!(nes.cpu.peek(0x4015), 0x01);
}

#[test]
fn sprite_transfer_copies_a_page_and_stalls_the_processor() {
    // LDA #$02; STA $4014; LDX #$07
    let mut nes = console(&[0xa9, 0x02, 0x8d, 0x14, 0x40, 0xa2, 0x07]);
    for i in 0..256u16 {
        nes.cpu.poke(0x0200 + i, i as u8);
    }
    for _ in 0..2 {
        nes.clock();
    }
    assert_eq!(nes.cpu.state.acc, 0x02);
    assert_eq!(nes.cpu.state.pc, 0x8002);
    nes.clock();
    assert_eq!(nes.cpu.state.counter, 3);
    assert_eq!(nes.cpu.state.pc, 0x8005);
    assert_eq!(nes.cpu.state.clocks_to_pause, 3 + 514);
    assert!(!nes.cpu.mapper.dma_pending);
    let page: Vec<u8> = (0..=255u8).collect();
    assert_eq!(nes.cpu.mapper.bridge.ppu.oam, page);
    for _ in 0..517 {
        nes.clock();
        assert_eq!(nes.cpu.state.pc, 0x8005);
        assert_eq!(nes.cpu.state.x, 0);
    }
    nes.clock();
    assert_eq!(nes.cpu.state.x, 7);
    assert_eq!(nes.cpu.state.counter, 3 + 517 + 1);
}

#[test]
fn sprite_transfer_from_an_even_cycle_stalls_513() {
    // NOP x 2 (2 cycles each) ... then STA $4014 on cycle 10.
    let mut nes = console(&[0xea, 0x8d, 0x14, 0x40]);
    nes.cpu.pause(7);
    for _ in 0..7 {
        nes.clock();
    }
    nes.clock(); // NOP, two cycles, on cycle 8
    nes.clock();
    assert_eq!(nes.cpu.state.counter, 9);
    nes.clock(); // STA on cycle 10
    assert_eq!(nes.cpu.state.counter, 10);
    assert_eq!(nes.cpu.state.clocks_to_pause, 3 + 513);
}

#[test]
fn sprite_transfer_on_the_bus_alone() {
    let mut nes = console(&[]);
    nes.cpu.mapper.poke(0x0300, 0xab).unwrap();
    nes.cpu.mapper.poke(0x2003, 0x80).unwrap();
    nes.cpu.mapper.poke(0x4014, 0x03).unwrap();
    assert!(nes.cpu.mapper.dma_pending);
    assert_eq!(nes.cpu.mapper.bridge.ppu.oam[0x80], 0xab);
    assert_eq!(nes.cpu.mapper.bridge.ppu.state.oam_ptr, 0x80);
    assert_eq!(nes.cpu.mapper.read_page(0x03)[0], 0xab);
    assert!(nes.cpu.mapper.take_dma());
    assert!(!nes.cpu.mapper.take_dma());
}

#[test]
fn three_dots_pass_with_every_tick() {
    let mut nes = console(&[]);
    for n in 1..=400u32 {
        nes.clock();
        let state = nes.cpu.mapper.bridge.ppu.state;
        assert_eq!(state.scanline as u32 * 341 + state.cycle as u32, 3 * n);
    }
    assert_eq!(nes.cpu.mapper.apu.core.cycle, 400);
}

#[test]
fn a_frame_run_ends_in_the_next_frame() {
    let mut nes = console(&[]);
    nes.run_frame();
    assert_eq!(CLOCKS_PER_FRAME, 29781);
    // 89342 dots to the next frame: 29780 ticks fall two dots short.
    assert_eq!(nes.cpu.state.counter, 29781);
    let state = nes.cpu.mapper.bridge.ppu.state;
    assert_eq!((state.scanline, state.cycle, state.frame), (0, 1, 1));
    nes.run_frame();
    assert_eq!(nes.cpu.state.counter, 2 * 29781);
    let state = nes.cpu.mapper.bridge.ppu.state;
    assert_eq!((state.scanline, state.cycle, state.frame), (0, 2, 2));
    // 89340 dots to the next frame: 29780 ticks reach it.
    nes.run_frame();
    assert_eq!(nes.cpu.state.counter, 2 * 29781 + 29780);
    let state = nes.cpu.mapper.bridge.ppu.state;
    assert_eq!((state.scanline, state.cycle, state.frame), (0, 0, 3));
    assert_eq!(nes.current_frame(), 3);

    let mut other = console(&[]);
    run_clocks(&mut other, 29780);
    assert_eq!(other.current_frame(), 0);
    let state = other.cpu.mapper.bridge.ppu.state;
    assert_eq!((state.scanline, state.cycle), (261, 339));
    run_clocks(&mut other, 1);
    assert_eq!(other.current_frame(), 1);
}

#[test]
fn a_frame_run_from_the_middle_of_a_frame_stops_at_its_end() {
    let mut nes = console(&[]);
    nes.run(20000);
    assert_eq!(nes.current_frame(), 0);
    nes.run_frame();
    assert_eq!(nes.current_frame(), 1);
    assert_eq!(nes.cpu.state.counter, 29781);
}

#[test]
fn an_odd_frame_with_rendering_is_a_dot_shorter() {
    // LDA #$08; STA $2001; JMP $8005
    let mut nes = console(&[0xa9, 0x08, 0x8d, 0x01, 0x20, 0x4c, 0x05, 0x80]);
    nes.run_frame();
    assert_eq!(nes.cpu.state.counter, 29781);
    let state = nes.cpu.mapper.bridge.ppu.state;
    assert_eq!((state.scanline, state.cycle, state.frame), (0, 1, 1));
    assert!(state.frame_parity);
    assert!(state.registers.background_enabled);
    // 89340 dots are left of an odd frame of 89341.
    nes.run_frame();
    assert_eq!(nes.cpu.state.counter, 29781 + 29780);
    let state = nes.cpu.mapper.bridge.ppu.state;
    assert_eq!((state.scanline, state.cycle, state.frame), (0, 0, 2));
}

#[test]
fn a_tick_reports_what_it_did() {
    // LDA #$80; STA $2000; JMP $8005
    let mut nes = console(&[0xa9, 0x80, 0x8d, 0x00, 0x20, 0x4c, 0x05, 0x80]);
    nes.cpu.state.is_tracing = true;
    let report = nes.clock_watched();
    let record = report.trace.unwrap();
    assert_eq!((record.pc, record.counter, record.instruction.opcode), (0x8000, 1, 0xa9));
    assert!(!report.nmi && !report.irq);
    assert_eq!(nes.clock_watched().trace, None);
    let mut entered: u32 = 0;
    for _ in 0..CLOCKS_PER_FRAME {
        if nes.clock_watched().nmi {
            entered += 1;
            assert_eq!(nes.cpu.state.pc, 0x9000);
        }
    }
    assert_eq!(entered, 1);
}

#[test]
fn vblank_interrupts_the_processor() {
    // LDA #$80; STA $2000; JMP $8005
    let mut nes = console(&[0xa9, 0x80, 0x8d, 0x00, 0x20, 0x4c, 0x05, 0x80]);
    let mut entered = false;
    for _ in 0..CLOCKS_PER_FRAME {
        nes.clock();
        if nes.cpu.state.pc == 0x9000 {
            entered = true;
            break;
        }
    }
    assert!(entered);
    let state = nes.cpu.mapper.bridge.ppu.state;
    assert_eq!(state.scanline, 241);
    assert!(state.cycle >= 16 && state.cycle <= 18);
    assert!(!state.is_vblank_nmi);
    assert_eq!(nes.cpu.state.sp, 0xfa);
}

#[test]
fn a_frame_without_picture_runs_the_processor_alone() {
    // INX; JMP $8000
    let mut nes = console(&[0xe8, 0x4c, 0x00, 0x80]);
    nes.run_frame_headless();
    assert_eq!(nes.cpu.state.counter, 131 * 114 + 131 * 113);
    let state = nes.cpu.mapper.bridge.ppu.state;
    assert_eq!((state.scanline, state.cycle), (0, 0));
    assert_eq!(nes.cpu.mapper.apu.core.cycle, 0);
    assert_eq!(nes.cpu.state.sp, 0xfa);
    assert!(nes.cpu.state.pc >= 0x9000 && nes.cpu.state.pc < 0xa000);
}

#[test]
fn recordings() {
    let mut tas = Tas::new();
    assert_eq!(tas.get_inputs(0), None);
    tas.record_frame(0, 0x01);
    tas.record_frame(1, 0x02);
    tas.record_frame(2, 0x04);
    assert_eq!(tas.get_inputs(1), Some(0x02));
    assert_eq!(tas.get_inputs(3), None);
    tas.record_frame(1, 0x80);
    assert_eq!(tas.inputs, vec![0x01, 0x80]);
    tas.record_frame(5, 0x40);
    assert_eq!(tas.inputs, vec![0x01, 0x80, 0x40]);
    let mut saved = Vec::new();
    tas.save(&mut saved);
    assert_eq!(saved, vec![3, 0, 0, 0, 0, 0, 0, 0, 0x01, 0x80, 0x40]);
    let mut loaded = Tas::new();
    assert_eq!(loaded.load(&saved, 0), Ok(11));
    assert_eq!(loaded.inputs, tas.inputs);
    assert_eq!(loaded.load(&saved[..10], 0), Err(LoadError::UnexpectedEnd));
    assert_eq!(loaded.inputs, tas.inputs);
}

#[test]
fn a_saved_state_restores_the_console() {
    // INX; STX $10; JMP $8000
    let program = [0xe8, 0x86, 0x10, 0x4c, 0x00, 0x80];
    let mut nes = console(&program);
    nes.set_buttons(0, 0x81);
    nes.cpu.poke(0x2006, 0x21);
    nes.cpu.poke(0x2006, 0x08);
    nes.cpu.poke(0x2007, 0x5c);
    nes.cpu.poke(0x2003, 0x07);
    nes.cpu.poke(0x2004, 0x66);
    nes.cpu.poke(0x4000, 0x3f);
    nes.run(1000);
    let saved = nes.save_state();
    assert_eq!(&saved[saved.len() - 4..], &[0x0f, 0xf0, 0x00, 0x00]);
    assert_eq!(saved.len(), 34 + (8 + 0x800) + (8 + 4 + (8 + 16384 + 9) + 1) + 3 + 3 + 1
        + (48 + (8 + (4 + (8 + 8192) + 1) + (4 + ((8 + 2 * (4 + (8 + 0x400 + 9) + 1)) + 9) + 1)
            + (4 + (8 + 32 + 9) + 1))
            + (8 + 256) + (8 + 61440) + 8)
        + 102 + 4);

    let mut other = console(&program);
    assert_eq!(other.load_state(&saved), Ok(()));
    assert_eq!(other.cpu.state, nes.cpu.state);
    assert_eq!(other.cpu.mapper.bridge.ppu.state, nes.cpu.mapper.bridge.ppu.state);
    assert_eq!(other.cpu.mapper.bridge.ppu.oam, nes.cpu.mapper.bridge.ppu.oam);
    assert_eq!(other.cpu.mapper.apu.core, nes.cpu.mapper.apu.core);
    assert_eq!(other.cpu.mapper.joystick1, nes.cpu.mapper.joystick1);
    assert_eq!(other.cpu.mapper.bridge.ppu.fetch(0x2108), 0x5c);
    assert_eq!(other.cpu.peek(0x0010), nes.cpu.peek(0x0010));
    assert_eq!(other.save_state(), nes.save_state());
    nes.run(500);
    other.run(500);
    assert_eq!(other.cpu.state, nes.cpu.state);
    assert_eq!(other.save_state(), nes.save_state());
}

#[test]
fn a_bad_saved_state_leaves_the_console_alone() {
    let mut nes = console(&[0xe8, 0x4c, 0x00, 0x80]);
    nes.run(100);
    let saved = nes.save_state();
    let before = nes.cpu.state;
    let mut other = console(&[0xe8, 0x4c, 0x00, 0x80]);
    let fresh = other.save_state();
    assert_eq!(other.load_state(&saved[..saved.len() - 1]), Err(LoadError::UnexpectedEnd));
    assert_eq!(other.load_state(&saved[..20]), Err(LoadError::UnexpectedEnd));
    let mut bad_footer = saved.clone();
    let at = bad_footer.len() - 4;
    bad_footer[at] = 0x0e;
    assert_eq!(other.load_state(&bad_footer), Err(LoadError::BadFooter));
    assert_eq!(other.save_state(), fresh);
    assert_eq!(nes.cpu.state, before);
}
