use nes_emulator::ppu::{combine_bitplanes, reverse_bits};

#[test]
fn test_combine_bitplanes() {
    let a = 0b10011110;
    let b = 0b01101100;
    let o = 0b1001011011111000;
    assert_eq!(combine_bitplanes(a, b), o);
}

#[test]
fn test_reverse_bits() {
    let a = 0b10011110;
    let o = 0b01111001;
    assert_eq!(reverse_bits(a), o);
}

fn ppu_with_memory() -> nes_emulator::ppu::Ppu {
    let mut ppu = nes_emulator::ppu::Ppu::new();
    ppu.set_mapper(nes_emulator::nes::map_nes_ppu(vec![0; 8192], true));
    ppu
}

fn set_address(ppu: &mut nes_emulator::ppu::Ppu, address: u16) {
    ppu.read_status();
    ppu.write_address((address >> 8) as u8);
    ppu.write_address((address & 0xff) as u8);
}

#[test]
fn data_register_reads_are_buffered_below_the_palette() {
    let mut ppu = ppu_with_memory();
    set_address(&mut ppu, 0x2005);
    ppu.write_data(0x5a);
    assert_eq!(ppu.state.registers.v, 0x2006);
    set_address(&mut ppu, 0x2005);
    let first = ppu.read_data();
    let second = ppu.read_data();
    assert_eq!(first, 0x00);
    assert_eq!(second, 0x5a);
    assert_eq!(ppu.state.registers.v, 0x2007);
}

#[test]
fn data_register_reads_the_palette_at_once() {
    let mut ppu = ppu_with_memory();
    set_address(&mut ppu, 0x3f01);
    ppu.write_data(0x2c);
    set_address(&mut ppu, 0x3f01);
    assert_eq!(ppu.read_data(), 0x2c);
    set_address(&mut ppu, 0x3f10);
    ppu.write_data(0x0f);
    set_address(&mut ppu, 0x3f00);
    assert_eq!(ppu.read_data(), 0x0f);
    set_address(&mut ppu, 0x3f21);
    assert_eq!(ppu.read_data(), 0x2c);
}

#[test]
fn data_register_steps_by_thirty_two() {
    let mut ppu = ppu_with_memory();
    ppu.write_control(0x04);
    set_address(&mut ppu, 0x2000);
    ppu.write_data(1);
    assert_eq!(ppu.state.registers.v, 0x2020);
    set_address(&mut ppu, 0x3fff);
    ppu.write_data(1);
    assert_eq!(ppu.state.registers.v, 0x001f);
}

#[test]
fn nametables_mirror_as_the_cartridge_says() {
    let mut vertical = ppu_with_memory();
    set_address(&mut vertical, 0x2000);
    vertical.write_data(0x11);
    assert_eq!(vertical.fetch(0x2800), 0x11);
    assert_eq!(vertical.fetch(0x2400), 0x00);
    assert_eq!(vertical.fetch(0x3000), 0x11);

    let mut horizontal = nes_emulator::ppu::Ppu::new();
    horizontal.set_mapper(nes_emulator::nes::map_nes_ppu(vec![0; 8192], false));
    set_address(&mut horizontal, 0x2000);
    horizontal.write_data(0x22);
    assert_eq!(horizontal.fetch(0x2400), 0x22);
    assert_eq!(horizontal.fetch(0x2800), 0x00);
    assert_eq!(horizontal.fetch(0x3000), 0x22);
    set_address(&mut horizontal, 0x2c01);
    horizontal.write_data(0x33);
    assert_eq!(horizontal.fetch(0x2801), 0x33);
    assert_eq!(horizontal.fetch(0x3c01), 0x33);
}

#[test]
fn status_read_clears_vblank() {
    let mut ppu = nes_emulator::ppu::Ppu::new();
    ppu.set_vblank(true);
    ppu.state.open_bus = 0xff;
    ppu.state.sprite0_hit = true;
    ppu.write_scroll(0);
    assert!(ppu.state.registers.w);
    let first = ppu.read_status();
    let second = ppu.read_status();
    assert_eq!(first, 0x80 | 0x40 | 0x1f);
    assert_eq!(second & 0x80, 0);
    assert_eq!(second, 0x40 | 0x1f);
    assert!(!ppu.state.registers.w);
}

#[test]
fn scroll_and_address_writes_follow_the_register_layout() {
    let mut r = nes_emulator::ppu::PpuRegisters::new();
    r.write_control(0x03);
    assert_eq!(r.t, 0x0c00);
    r.write_scroll(0x7d);
    assert_eq!(r.t, 0x0c0f);
    assert_eq!(r.x, 5);
    assert!(r.w);
    r.write_scroll(0x5e);
    assert_eq!(r.t, 0x6d6f);
    assert!(!r.w);
    r.write_address(0x3d);
    assert_eq!(r.t, 0x3d6f);
    assert!(r.w);
    r.write_address(0xf0);
    assert_eq!(r.t, 0x3df0);
    assert_eq!(r.v, 0x3df0);
    assert!(!r.w);
    r.write_address(0xff);
    assert_eq!(r.t, 0x3ff0);
    assert_eq!(r.v, 0x3df0);
}

#[test]
fn scroll_increments_wrap_as_the_layout_says() {
    let mut r = nes_emulator::ppu::PpuRegisters::new();
    r.v = 0x001f;
    r.increment_x();
    assert_eq!(r.v, 0x0400);
    r.v = 0x041e;
    r.increment_x();
    assert_eq!(r.v, 0x041f);
    r.v = 0x0000;
    r.increment_y();
    assert_eq!(r.v, 0x1000);
    r.v = 0x7000 | (29 << 5);
    r.increment_y();
    assert_eq!(r.v, 0x0800);
    r.v = 0x7000 | (31 << 5);
    r.increment_y();
    assert_eq!(r.v, 0x0000);
    r.v = 0x7000 | (5 << 5) | 3;
    r.increment_y();
    assert_eq!(r.v, (6 << 5) | 3);
    r.v = 0;
    r.t = 0x7fff;
    r.copy_x();
    assert_eq!(r.v, 0x041f);
    r.copy_y();
    assert_eq!(r.v, 0x7fff);
    assert_eq!(r.fine_y(), 7);
    assert_eq!(r.tile_x(), 31);
    assert_eq!(r.tile_y(), 31);
    assert_eq!(r.scanline(), 255);
    r.v = 0x2abc & 0x7fff;
    assert_eq!(r.tile_address(), 0x2000 | 0x0abc);
    assert_eq!(r.attribute_address(), 0x23c0 | 0x0800 | 0x28 | 0x07);
}

#[test]
fn mask_and_control_bits() {
    let mut ppu = nes_emulator::ppu::Ppu::new();
    ppu.write_mask(0b0001_1010);
    assert!(ppu.is_background_enabled());
    assert!(ppu.is_sprites_enabled());
    assert!(ppu.is_rendering_enabled());
    assert!(ppu.state.registers.show_leftmost_background);
    assert!(!ppu.state.registers.show_leftmost_sprite);
    assert!(!ppu.state.registers.is_greyscale);
    ppu.write_control(0b1011_1000);
    assert!(ppu.state.sprite_pattern_table);
    assert!(ppu.state.background_pattern_table);
    assert!(ppu.state.sprite_size);
    assert!(ppu.state.generate_vblank_nmi);
    assert!(!ppu.state.registers.vram_increment);
}

#[test]
fn enabling_the_interrupt_during_vblank_raises_it_at_once() {
    let mut ppu = nes_emulator::ppu::Ppu::new();
    ppu.set_vblank(true);
    assert!(!ppu.state.is_vblank_nmi);
    ppu.write_control(0x80);
    assert!(ppu.state.is_vblank_nmi);
    assert!(ppu.take_nmi());
    assert!(!ppu.take_nmi());
    ppu.write_control(0x80);
    assert!(!ppu.state.is_vblank_nmi);
}

#[test]
fn oam_port_post_increments_on_writes() {
    let mut ppu = nes_emulator::ppu::Ppu::new();
    ppu.write_oam_address(0xfe);
    ppu.write_oam_data(1);
    ppu.write_oam_data(2);
    ppu.write_oam_data(3);
    assert_eq!(ppu.oam[0xfe], 1);
    assert_eq!(ppu.oam[0xff], 2);
    assert_eq!(ppu.oam[0x00], 3);
    assert_eq!(ppu.state.oam_ptr, 1);
    ppu.write_oam_address(0xff);
    assert_eq!(ppu.read_oam_data(), 2);
    assert_eq!(ppu.state.oam_ptr, 0xff);
}

#[test]
fn sprite_transfer_fills_sprite_memory() {
    let mut bridge = nes_emulator::ppu::CpuPpuInterconnect::new(nes_emulator::ppu::Ppu::new());
    let page: Vec<u8> = (0..=255u8).collect();
    bridge.oam_dma(&page);
    assert_eq!(bridge.ppu.oam, page);
    assert_eq!(bridge.ppu.state.oam_ptr, 0);
    bridge.write_port(nes_emulator::ppu::PpuPort::OAMADDR, 0x10);
    bridge.oam_dma(&page);
    assert_eq!(bridge.ppu.oam[0x10], 0);
    assert_eq!(bridge.ppu.oam[0x0f], 255);
    assert_eq!(bridge.ppu.state.oam_ptr, 0x10);
}

#[test]
fn register_ports_through_the_bridge() {
    use_bridge();
}

fn use_bridge() {
    let mut bridge = nes_emulator::ppu::CpuPpuInterconnect::new(ppu_with_memory());
    assert_eq!(nes_emulator::ppu::map_ppu_port(0x2002), Some(nes_emulator::ppu::PpuPort::PPUSTATUS));
    assert_eq!(nes_emulator::ppu::map_ppu_port(0x4014), Some(nes_emulator::ppu::PpuPort::OAMDMA));
    assert_eq!(nes_emulator::ppu::map_ppu_port(0x2008), None);
    assert_eq!(nes_emulator::mapper::AddressSpace::poke(&mut bridge, 0x2003, 0x42), Ok(()));
    assert_eq!(bridge.ppu.state.oam_ptr, 0x42);
    assert_eq!(bridge.ppu.state.open_bus, 0x42);
    assert_eq!(nes_emulator::mapper::AddressSpace::peek(&mut bridge, 0x2000), Ok(0x42));
    assert_eq!(nes_emulator::mapper::AddressSpace::peek(&mut bridge, 0x2005), Ok(0x42));
    assert_eq!(
        nes_emulator::mapper::AddressSpace::peek(&mut bridge, 0x2008),
        Err(nes_emulator::mapper::BusError::UnmappedRead)
    );
    assert_eq!(
        nes_emulator::mapper::AddressSpace::poke(&mut bridge, 0x2008, 1),
        Err(nes_emulator::mapper::BusError::UnmappedWrite)
    );
}

#[test]
fn a_frame_has_89342_dots_and_an_odd_rendered_one_89341() {
    let mut ppu = nes_emulator::ppu::Ppu::new();
    for _ in 0..89341 {
        ppu.clock();
    }
    assert_eq!((ppu.state.scanline, ppu.state.cycle, ppu.state.frame), (261, 340, 0));
    ppu.clock();
    assert_eq!((ppu.state.scanline, ppu.state.cycle, ppu.state.frame), (0, 0, 1));
    assert!(ppu.state.frame_parity);

    ppu.write_mask(0x08);
    for _ in 0..89340 {
        ppu.clock();
    }
    assert_eq!((ppu.state.scanline, ppu.state.cycle, ppu.state.frame), (261, 339, 1));
    ppu.clock();
    assert_eq!((ppu.state.scanline, ppu.state.cycle, ppu.state.frame), (0, 0, 2));
    assert!(!ppu.state.frame_parity);

    for _ in 0..89342 {
        ppu.clock();
    }
    assert_eq!((ppu.state.scanline, ppu.state.cycle, ppu.state.frame), (0, 0, 3));
}

#[test]
fn vblank_rises_at_line_241_and_falls_at_the_pre_render_line() {
    let mut ppu = nes_emulator::ppu::Ppu::new();
    ppu.write_control(0x80);
    for _ in 0..(241 * 341) {
        ppu.clock();
    }
    assert_eq!((ppu.state.scanline, ppu.state.cycle), (241, 0));
    assert!(!ppu.state.nmi_occurred);
    ppu.clock();
    assert!(ppu.state.nmi_occurred);
    assert!(!ppu.state.is_vblank_nmi);
    for _ in 0..14 {
        ppu.clock();
    }
    assert!(!ppu.state.is_vblank_nmi);
    ppu.clock();
    assert!(ppu.state.is_vblank_nmi);
    ppu.state.sprite0_hit = true;
    ppu.state.sprite_overflow = true;
    while !(ppu.state.scanline == 261 && ppu.state.cycle == 1) {
        assert!(ppu.state.nmi_occurred);
        ppu.clock();
    }
    assert!(!ppu.state.nmi_occurred);
    assert!(!ppu.state.sprite0_hit);
    assert!(!ppu.state.sprite_overflow);
}

#[test]
fn a_status_read_in_the_window_suppresses_the_interrupt() {
    let mut ppu = nes_emulator::ppu::Ppu::new();
    ppu.write_control(0x80);
    for _ in 0..(241 * 341 + 1) {
        ppu.clock();
    }
    assert!(ppu.state.nmi_occurred);
    assert_eq!(ppu.read_status() & 0x80, 0x80);
    for _ in 0..40 {
        ppu.clock();
    }
    assert!(!ppu.state.is_vblank_nmi);
}

#[test]
fn palette_colors() {
    let c = nes_emulator::ppu::PaletteColor::new_from_parts(5, 2);
    assert_eq!(c.color, 22);
    assert_eq!(c.palette(), 5);
    assert_eq!(c.palette_color(), 2);
    assert_eq!(c.address(), 0x3f16);
    assert!(c.is_opaque());
    assert!(!c.is_transparent());
    let t = nes_emulator::ppu::PaletteColor::new_from_parts(3, 0);
    assert!(t.is_transparent());
    assert_eq!(t.address(), 0x3f0c);
}

#[test]
fn attribute_quadrants() {
    let entry = 0b11_10_01_00;
    assert_eq!(nes_emulator::ppu::split_attribute_entry(entry, 0, 0), 0);
    assert_eq!(nes_emulator::ppu::split_attribute_entry(entry, 2, 1), 1);
    assert_eq!(nes_emulator::ppu::split_attribute_entry(entry, 1, 2), 2);
    assert_eq!(nes_emulator::ppu::split_attribute_entry(entry, 3, 3), 3);
    assert_eq!(nes_emulator::ppu::split_attribute_entry(entry, 4, 4), 0);
}

#[test]
fn pattern_rows_and_pixels() {
    assert_eq!(nes_emulator::ppu::locate_pattern_row(false, 2, 3), (0x0023, 0x002b));
    assert_eq!(nes_emulator::ppu::locate_pattern_row(true, 0xff, 7), (0x1ff7, 0x1fff));
    let pattern = combine_bitplanes(0b1000_0001, 0b0100_0001);
    assert_eq!(nes_emulator::ppu::pattern_pixel_at(pattern, 0), 2);
    assert_eq!(nes_emulator::ppu::pattern_pixel_at(pattern, 1), 1);
    assert_eq!(nes_emulator::ppu::pattern_pixel_at(pattern, 2), 0);
    assert_eq!(nes_emulator::ppu::pattern_pixel_at(pattern, 7), 3);
    assert_eq!(nes_emulator::ppu::find_sprite_row(10, 8, 8, false), Some(2));
    assert_eq!(nes_emulator::ppu::find_sprite_row(10, 8, 8, true), Some(5));
    assert_eq!(nes_emulator::ppu::find_sprite_row(16, 8, 8, false), None);
    assert_eq!(nes_emulator::ppu::find_sprite_row(16, 8, 16, false), Some(8));
    assert_eq!(nes_emulator::ppu::find_sprite_row(7, 8, 8, false), None);
}

fn ppu_with_tiles() -> nes_emulator::ppu::Ppu {
    // Tile 1: every pixel colour 1. Tile 2: left half colour 3, right half colour 0.
    let mut chr = vec![0u8; 8192];
    for row in 0..8 {
        chr[16 + row] = 0xff;
        chr[32 + row] = 0xf0;
        chr[32 + 8 + row] = 0xf0;
    }
    let mut ppu = nes_emulator::ppu::Ppu::new();
    ppu.set_mapper(nes_emulator::nes::map_nes_ppu(chr, true));
    ppu
}

#[test]
fn sprites_are_found_for_the_line_and_a_ninth_sets_overflow() {
    let mut ppu = ppu_with_tiles();
    for i in 0..9 {
        ppu.oam[i * 4] = 20;
        ppu.oam[i * 4 + 1] = 2;
        ppu.oam[i * 4 + 2] = 0x21;
        ppu.oam[i * 4 + 3] = (i * 10) as u8;
    }
    for i in 9..64 {
        ppu.oam[i * 4] = 200;
    }
    ppu.state.scanline = 22;
    ppu.evaluate_sprites();
    assert_eq!(ppu.sprites.len(), 8);
    assert!(ppu.state.sprite_overflow);
    assert_eq!(ppu.sprites[3].x, 30);
    assert_eq!(ppu.sprites[3].index, 3);
    assert_eq!(ppu.sprites[3].palette, 5);
    assert!(!ppu.sprites[3].is_front);
    assert_eq!(ppu.sprites[3].pattern, 0xff00);

    ppu.oam[2] = 0x40;
    ppu.state.sprite_overflow = false;
    ppu.state.scanline = 27;
    ppu.evaluate_sprites();
    assert_eq!(ppu.sprites[0].pattern, 0x00ff);
    assert!(ppu.sprites[0].is_front);
    assert!(ppu.state.sprite_overflow);
    ppu.state.sprite_overflow = false;
    ppu.state.scanline = 28;
    ppu.evaluate_sprites();
    assert_eq!(ppu.sprites.len(), 0);
    assert!(!ppu.state.sprite_overflow);
}

#[test]
fn tall_sprites_take_table_and_half_from_tile_and_row() {
    let mut ppu = ppu_with_tiles();
    ppu.write_control(0x20);
    for i in 0..64 {
        ppu.oam[i * 4] = 200;
    }
    ppu.oam[0] = 10;
    ppu.oam[1] = 0x00;
    ppu.oam[2] = 0;
    ppu.oam[3] = 0;
    ppu.state.scanline = 12;
    ppu.evaluate_sprites();
    assert_eq!(ppu.sprites.len(), 1);
    assert_eq!(ppu.sprites[0].pattern, 0x0000);
    ppu.state.scanline = 19;
    ppu.evaluate_sprites();
    assert_eq!(ppu.sprites[0].pattern, 0x5555);
    ppu.state.scanline = 26;
    ppu.evaluate_sprites();
    assert_eq!(ppu.sprites.len(), 0);
}

#[test]
fn pixels_mix_sprite_and_background() {
    let mut ppu = ppu_with_tiles();
    ppu.write_mask(0x1e);
    // Background: colour 1 of palette 2 in the top bit of the shifters.
    ppu.state.tile_pattern_low_shift = 0x8000;
    ppu.state.tile_pattern_high_shift = 0x0000;
    ppu.state.tile_palette_shift = 0b10_00;
    ppu.sprites = vec![nes_emulator::ppu::SpriteSlot {
        pattern: 0xc000,
        palette: 4,
        x: 9,
        is_front: false,
        index: 0,
    }];
    assert_eq!(ppu.background_pixel(9).color, 9);
    assert_eq!(ppu.sprite_pixel(9).map(|(i, c)| (i, c.color)), Some((0, 19)));
    assert_eq!(ppu.sprite_pixel(10), None);
    let (color, hit) = ppu.mix_pixel(9);
    assert_eq!(color.color, 9);
    assert!(hit);
    ppu.sprites[0].is_front = true;
    assert_eq!(ppu.mix_pixel(9).0.color, 19);
    ppu.state.tile_pattern_low_shift = 0;
    ppu.sprites[0].is_front = false;
    let (color, hit) = ppu.mix_pixel(9);
    assert_eq!(color.color, 19);
    assert!(!hit);
    assert_eq!(ppu.mix_pixel(30).0.color, 0);
}

#[test]
fn sprite_zero_hit_needs_both_pixels_and_the_right_column() {
    let mut ppu = ppu_with_tiles();
    ppu.write_mask(0x1e);
    ppu.state.tile_pattern_low_shift = 0x8000;
    ppu.sprites = vec![nes_emulator::ppu::SpriteSlot {
        pattern: 0xffff,
        palette: 4,
        x: 0,
        is_front: true,
        index: 0,
    }];
    assert!(!ppu.mix_pixel(0).1);
    assert!(ppu.mix_pixel(1).1);
    ppu.write_mask(0x18);
    assert!(!ppu.mix_pixel(7).1);
    ppu.sprites[0].x = 4;
    assert!(ppu.mix_pixel(8).1);
    ppu.sprites[0].index = 1;
    assert!(!ppu.mix_pixel(8).1);
    ppu.sprites[0].index = 0;
    ppu.state.scanline = 5;
    ppu.render_pixel(8);
    assert!(ppu.state.sprite0_hit);
}

#[test]
fn pixels_land_in_the_frame_and_render_as_rgb() {
    let mut ppu = ppu_with_memory();
    ppu.write_system_pixel(3, 2, 0x21);
    ppu.write_system_pixel(256, 0, 0x30);
    ppu.write_system_pixel(0, 240, 0x30);
    assert_eq!(ppu.display[2 * 256 + 3], 0x21);
    assert_eq!(ppu.display.iter().filter(|&&c| c != 0).count(), 1);
    let rgb = ppu.render();
    assert_eq!(rgb.len(), 256 * 240 * 3);
    assert_eq!(&rgb[0..3], &[124, 124, 124]);
    let at = (2 * 256 + 3) * 3;
    assert_eq!(&rgb[at..at + 3], &[60, 188, 252]);
    assert_eq!(nes_emulator::ppu::Ppu::lookup_system_pixel(0x61), (60, 188, 252));
}

#[test]
fn a_rendered_line_draws_the_background_from_the_nametable() {
    let mut ppu = ppu_with_tiles();
    // Every tile of the first nametable is tile 1; palette entry 1 is colour 0x2a.
    set_address(&mut ppu, 0x2000);
    for _ in 0..960 {
        ppu.write_data(1);
    }
    set_address(&mut ppu, 0x3f01);
    ppu.write_data(0x2a);
    set_address(&mut ppu, 0x0000);
    ppu.write_mask(0x0a);
    for _ in 0..(3 * 341) {
        ppu.clock();
    }
    assert_eq!(ppu.state.scanline, 3);
    for x in 0..256 {
        assert_eq!(ppu.display[2 * 256 + x], 0x2a);
    }
    assert_eq!(ppu.current_frame(), 0);
}

#[test]
fn an_unmapped_fetch_yields_what_the_bus_still_holds() {
    let mut ppu = nes_emulator::ppu::Ppu::new();
    assert_eq!(ppu.fetch(0x1234), 0);
    ppu.state.open_bus = 0x5a;
    assert_eq!(ppu.fetch(0x1234), 0x5a);
    let mut mapped = ppu_with_memory();
    mapped.state.open_bus = 0x5a;
    assert_eq!(mapped.fetch(0x1234), 0);
}
