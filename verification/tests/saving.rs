use nes_emulator::savestate::{
    get_apu_core, get_cpu_state, get_ppu_state, put_apu_core, put_cpu_state, put_joystick,
    put_ppu_state, put_sprite_slot, APU_CORE_SIZE, CPU_STATE_SIZE, JOYSTICK_SIZE, PPU_STATE_SIZE,
    SPRITE_SLOT_SIZE,
};
use nes_emulator::serialization::{
    get_blob, get_flag, get_u16, get_u32, get_u64, get_u8, push_le, put_blob, put_flag, put_u16,
    put_u32, put_u64, put_u8, read_le, read_value, LoadError, Savable,
};

#[test]
fn numbers_are_saved_low_byte_first() {
    let mut out = Vec::new();
    true.save(&mut out);
    false.save(&mut out);
    0xabu8.save(&mut out);
    0x1234u16.save(&mut out);
    0x89abcdefu32.save(&mut out);
    0x0102030405060708u64.save(&mut out);
    0x11223344usize.save(&mut out);
    assert_eq!(
        out,
        vec![
            1, 0, 0xab, 0x34, 0x12, 0xef, 0xcd, 0xab, 0x89, 8, 7, 6, 5, 4, 3, 2, 1, 0x44, 0x33,
            0x22, 0x11, 0, 0, 0, 0
        ]
    );
    let mut flag = false;
    assert_eq!(flag.load(&out, 0), Ok(1));
    assert!(flag);
    assert_eq!(flag.load(&out, 1), Ok(2));
    assert!(!flag);
    assert_eq!(flag.load(&out, 2), Ok(3));
    assert!(flag);
    let mut byte = 0u8;
    assert_eq!(byte.load(&out, 2), Ok(3));
    assert_eq!(byte, 0xab);
    let mut half = 0u16;
    assert_eq!(half.load(&out, 3), Ok(5));
    assert_eq!(half, 0x1234);
    let mut word = 0u32;
    assert_eq!(word.load(&out, 5), Ok(9));
    assert_eq!(word, 0x89abcdef);
    let mut long = 0u64;
    assert_eq!(long.load(&out, 9), Ok(17));
    assert_eq!(long, 0x0102030405060708);
    let mut size = 0usize;
    assert_eq!(size.load(&out, 17), Ok(25));
    assert_eq!(size, 0x11223344);
}

#[test]
fn short_input_is_an_error_and_changes_nothing() {
    let bytes = [1u8, 2, 3];
    let mut half = 7u16;
    assert_eq!(half.load(&bytes, 2), Err(LoadError::UnexpectedEnd));
    assert_eq!(half, 7);
    let mut word = 7u32;
    assert_eq!(word.load(&bytes, 0), Err(LoadError::UnexpectedEnd));
    assert_eq!(word, 7);
    let mut long = 7u64;
    assert_eq!(long.load(&bytes, 0), Err(LoadError::UnexpectedEnd));
    let mut size = 7usize;
    assert_eq!(size.load(&bytes, 3), Err(LoadError::UnexpectedEnd));
    let mut byte = 7u8;
    assert_eq!(byte.load(&bytes, 3), Err(LoadError::UnexpectedEnd));
    let mut flag = true;
    assert_eq!(flag.load(&bytes, 3), Err(LoadError::UnexpectedEnd));
    assert!(flag);
    assert_eq!(read_value(0u16, &bytes, 1), Ok((0x0302, 3)));
    assert_eq!(read_value(0u16, &bytes, 2), Err(LoadError::UnexpectedEnd));
}

#[test]
fn byte_strings_are_saved_behind_their_length() {
    let mut out = vec![0xff];
    vec![9u8, 8, 7].save(&mut out);
    assert_eq!(out, vec![0xff, 3, 0, 0, 0, 0, 0, 0, 0, 9, 8, 7]);
    let mut bytes: Vec<u8> = vec![1];
    assert_eq!(bytes.load(&out, 1), Ok(12));
    assert_eq!(bytes, vec![9, 8, 7]);
    assert_eq!(bytes.load(&out[..11], 1), Err(LoadError::UnexpectedEnd));
    assert_eq!(bytes.load(&out[..5], 1), Err(LoadError::UnexpectedEnd));
    assert_eq!(bytes, vec![9, 8, 7]);
    let huge = [0xffu8; 8];
    assert!(bytes.load(&huge, 0).is_err());
    let mut blob = Vec::new();
    put_blob(&mut blob, &vec![5, 6]);
    assert_eq!(blob, vec![2, 0, 0, 0, 0, 0, 0, 0, 5, 6]);
    assert_eq!(get_blob(&blob, 0), Ok((vec![5, 6], 10)));
    assert_eq!(get_blob(&blob[..9], 0), Err(LoadError::UnexpectedEnd));
}

#[test]
fn fixed_offset_reads_and_writes() {
    let mut out = Vec::new();
    put_u8(&mut out, 0x11);
    put_flag(&mut out, true);
    put_u16(&mut out, 0x2233);
    put_u32(&mut out, 0x44556677);
    put_u64(&mut out, 0x8899aabbccddeeff);
    push_le(&mut out, 0x010203, 3);
    assert_eq!(out.len(), 1 + 1 + 2 + 4 + 8 + 3);
    assert_eq!(get_u8(&out, 0), 0x11);
    assert!(get_flag(&out, 1));
    assert!(!get_flag(&[0], 0));
    assert_eq!(get_u16(&out, 2), 0x2233);
    assert_eq!(get_u32(&out, 4), 0x44556677);
    assert_eq!(get_u64(&out, 8), 0x8899aabbccddeeff);
    assert_eq!(read_le(&out, 16, 3), Ok(0x010203));
    assert_eq!(read_le(&out, 17, 3), Err(LoadError::UnexpectedEnd));
    assert_eq!(read_le(&out, 0, 0), Ok(0));
}

#[test]
fn the_parts_of_the_console_have_fixed_sizes() {
    assert_eq!(CPU_STATE_SIZE, 34);
    assert_eq!(PPU_STATE_SIZE, 48);
    assert_eq!(APU_CORE_SIZE, 102);
    assert_eq!(JOYSTICK_SIZE, 3);
    assert_eq!(SPRITE_SLOT_SIZE, 6);
    let mut cpu = nes_emulator::c6502::C6502::new(nes_emulator::mapper::Ram::new(16));
    cpu.state.acc = 0x12;
    cpu.state.pc = 0xbeef;
    cpu.state.carry = true;
    cpu.state.counter = 0x0102030405;
    cpu.state.clocks_to_pause = 0x0607;
    cpu.state.open_bus = 0x99;
    let mut out = Vec::new();
    put_cpu_state(&mut out, &cpu.state);
    let mut expected = vec![0x12, 0, 0, 0xef, 0xbe, 0xfd];
    expected.extend_from_slice(&[1, 0, 1, 0, 0, 0]);
    expected.extend_from_slice(&[5, 4, 3, 2, 1, 0, 0, 0]);
    expected.extend_from_slice(&[0; 8]);
    expected.extend_from_slice(&[0, 0x07, 0x06, 0, 0, 0x99]);
    assert_eq!(out, expected);
    assert_eq!(get_cpu_state(&out, 0), cpu.state);
    let mut state = nes_emulator::c6502::C6502::new(nes_emulator::mapper::Ram::new(16)).state;
    assert_eq!(state.load(&out, 0), Ok(34));
    assert_eq!(state, cpu.state);
    assert_eq!(state.load(&out[..33], 0), Err(LoadError::UnexpectedEnd));

    let ppu = nes_emulator::ppu::Ppu::new();
    let mut ppu_state = ppu.state;
    ppu_state.registers.v = 0x1234;
    ppu_state.frame = 0x01020304;
    ppu_state.tile_pattern_high = 0x77;
    ppu_state.nmi_occurred = true;
    let mut out = Vec::new();
    put_ppu_state(&mut out, &ppu_state);
    assert_eq!(out.len(), 48);
    assert_eq!(&out[0..2], &[0x34, 0x12]);
    assert_eq!(out[47], 0x77);
    assert_eq!(get_ppu_state(&out, 0), ppu_state);

    let apu = nes_emulator::apu::Apu::new();
    let mut core = apu.core;
    core.pulse2.sweep.negation = true;
    core.noise.feedback = 0x4001;
    core.cycle = 77;
    core.dmc.enabled = true;
    let mut out = vec![0xee];
    put_apu_core(&mut out, &core);
    assert_eq!(out.len(), 1 + 102);
    assert_eq!(out[102], 1);
    assert_eq!(get_apu_core(&out, 1), core);

    let mut out = Vec::new();
    put_joystick(
        &mut out,
        &nes_emulator::joystick::Joystick { buttons: 1, buttons_register: 2, strobe_active: true },
    );
    put_sprite_slot(
        &mut out,
        &nes_emulator::ppu::SpriteSlot { pattern: 0x0102, palette: 5, x: 6, is_front: true, index: 9 },
    );
    assert_eq!(out, vec![1, 2, 1, 0x02, 0x01, 5, 6, 1, 9]);
}
