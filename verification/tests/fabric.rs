use nes_emulator::mapper::{AddressSpace, Device, Mapper, Rom};

#[test]
fn test_rom() {
    let mut mapper = Mapper::new();
    let bs = [1, 2, 3];
    mapper.map_rom(0x1000, 0x1002, &bs);
    assert_eq!(mapper.peek(0x1001), Ok(2));
}

#[test]
fn test_mirrored() {
    let mut mapper = Mapper::new();
    let bs = vec![1, 2, 3];
    let rom: Rom = Rom::new(bs);
    mapper.map_mirrored(0x1000, 0x1002, 0x5000, 0x6000, Device::rom(rom), false);
    assert_eq!(mapper.peek(0x5002), Ok(3));
    assert_eq!(mapper.peek(0x5005), Ok(3));
}

#[test]
fn ram_reads_back_what_was_written() {
    let mut ram = nes_emulator::mapper::Ram::new(4);
    assert_eq!(ram.len(), 4);
    assert_eq!(ram.peek(3), Ok(0));
    assert_eq!(ram.poke(3, 9), Ok(()));
    assert_eq!(ram.peek(3), Ok(9));
    assert_eq!(ram.peek(4), Err(nes_emulator::mapper::BusError::UnmappedRead));
    assert_eq!(ram.poke(4, 1), Err(nes_emulator::mapper::BusError::UnmappedWrite));
}

#[test]
fn rom_drops_writes() {
    let mut rom = Rom::new(vec![7, 8]);
    assert_eq!(rom.poke(1, 0), Ok(()));
    assert_eq!(rom.peek(1), Ok(8));
    assert_eq!(rom.peek(2), Err(nes_emulator::mapper::BusError::UnmappedRead));
}

#[test]
fn null_space_reads_zero() {
    let mut null = nes_emulator::mapper::NullAddressSpace::new();
    assert_eq!(null.peek(0x1234), Ok(0));
    assert_eq!(null.poke(0x1234, 5), Ok(()));
    assert_eq!(null.peek(0x1234), Ok(0));
}

#[test]
fn first_matching_range_wins() {
    let mut mapper = Mapper::new();
    mapper.map_rom(0x0000, 0x00ff, &[1; 256]);
    mapper.map_rom(0x0080, 0x017f, &[2; 256]);
    assert_eq!(mapper.len(), 2);
    assert_eq!(mapper.peek(0x0080), Ok(1));
    assert_eq!(mapper.peek(0x0100), Ok(2));
    assert_eq!(mapper.lookup_address_space(0x0080), Some((0, 0x0080)));
    assert_eq!(mapper.lookup_address_space(0x0100), Some((1, 0x0080)));
    assert_eq!(mapper.lookup_address_space(0x0200), None);
    assert_eq!(mapper.peek(0x0200), Err(nes_emulator::mapper::BusError::UnmappedRead));
    assert_eq!(mapper.poke(0x0200, 1), Err(nes_emulator::mapper::BusError::UnmappedWrite));
}

#[test]
fn mapped_ram_is_addressed_from_zero() {
    let mut mapper = Mapper::new();
    mapper.map_ram(0x6000, 0x6010);
    assert_eq!(mapper.poke(0x6005, 0x42), Ok(()));
    assert_eq!(mapper.peek(0x6005), Ok(0x42));
    assert_eq!(mapper.peek(0x600f), Ok(0));
    assert_eq!(mapper.poke(0x6010, 0x43), Ok(()));
    assert_eq!(mapper.peek(0x6010), Ok(0x43));
    assert_eq!(mapper.peek(0x6011), Err(nes_emulator::mapper::BusError::UnmappedRead));
    let mut saved = Vec::new();
    mapper.save(&mut saved);
    assert_eq!(saved.len(), 8 + 4 + (8 + 0x11) + 1);
    mapper.map_null(0x7000, 0x7fff);
    assert_eq!(mapper.peek(0x7abc), Ok(0));
}

#[test]
fn mirror_folds_by_the_width_of_its_base() {
    let mut mapper = Mapper::new();
    let ram = nes_emulator::mapper::Ram::new(0x800);
    mapper.map_mirrored(0x0000, 0x07ff, 0x0000, 0x1fff, Device::ram(ram), false);
    assert_eq!(mapper.poke(0x0801, 0x5a), Ok(()));
    assert_eq!(mapper.peek(0x0001), Ok(0x5a));
    assert_eq!(mapper.peek(0x1001), Ok(0x5a));
    assert_eq!(mapper.peek(0x1801), Ok(0x5a));
    assert_eq!(mapper.peek(0x2000), Err(nes_emulator::mapper::BusError::UnmappedRead));
}

#[test]
fn mirror_with_original_addresses() {
    let mirror = nes_emulator::mapper::MirroredAddressSpace::new(
        Device::rom(Rom::new((0..=255u8).collect())),
        0x0010,
        0x0013,
        0x1000,
        0x100f,
        true,
    );
    assert_eq!(mirror.map_address(0x1000), Some(0x0010));
    assert_eq!(mirror.map_address(0x1005), Some(0x0011));
    assert_eq!(mirror.map_address(0x100f), Some(0x0013));
    assert_eq!(mirror.map_address(0x0fff), None);
    assert_eq!(mirror.map_address(0x1010), None);
    assert_eq!(mirror.read(0x1006), Ok(0x12));
}

#[test]
fn tables_nest() {
    let mut inner = Mapper::new();
    inner.map_ram(0x0000, 0x0010);
    let mut outer = Mapper::new();
    outer.map_address_space(0x4000, 0x400f, Device::mapper(inner), false);
    assert_eq!(outer.poke(0x4003, 7), Ok(()));
    assert_eq!(outer.peek(0x4003), Ok(7));
    assert_eq!(outer.peek(0x4002), Ok(0));
}

#[test]
fn palette_aliases() {
    let mut palette = nes_emulator::ppu::PaletteControl::new();
    for (low, high) in [(0x3f00u16, 0x3f10u16), (0x3f04, 0x3f14), (0x3f08, 0x3f18), (0x3f0c, 0x3f1c)]
    {
        assert_eq!(palette.poke(high, 0x21), Ok(()));
        assert_eq!(palette.peek(low), Ok(0x21));
        assert_eq!(palette.poke(low, 0x17), Ok(()));
        assert_eq!(palette.peek(high), Ok(0x17));
    }
    assert_eq!(palette.poke(0x3f11, 0x05), Ok(()));
    assert_eq!(palette.peek(0x3f01), Ok(0));
    assert_eq!(palette.peek(0x3f11), Ok(0x05));
    assert_eq!(palette.peek(0x3f20), Err(nes_emulator::mapper::BusError::UnmappedRead));
    assert_eq!(palette.poke(0x3eff, 1), Err(nes_emulator::mapper::BusError::UnmappedWrite));
}

#[test]
fn word_reads_and_offsets() {
    let mut ram = nes_emulator::mapper::Ram::new(0x10000);
    ram.poke(0x00ff, 0x34).unwrap();
    ram.poke(0x0100, 0x12).unwrap();
    ram.poke(0xffff, 0xcd).unwrap();
    ram.poke(0x0000, 0xab).unwrap();
    assert_eq!(ram.peek16(0x00ff), Ok(0x1234));
    assert_eq!(ram.peek16(0xffff), Ok(0xabcd));
    assert_eq!(ram.peek_offset(0x0101, -1), Ok(0x12));
    assert_eq!(ram.peek_offset16(0x0100, -1), Ok(0x1234));
    assert_eq!(ram.poke_offset(0x0000, -1, 0x77), Ok(()));
    assert_eq!(ram.peek(0xffff), Ok(0x77));
    assert_eq!(nes_emulator::mapper::add_offset(0xfffe, 3), 0x0001);
    assert_eq!(nes_emulator::mapper::make_word(0x34, 0x12), 0x1234);
}

#[test]
fn logged_space_records_every_access() {
    use_logged();
}

fn use_logged() {
    let mut logged =
        nes_emulator::mapper::LoggedAddressSpace::new(nes_emulator::mapper::Ram::new(2));
    assert_eq!(logged.poke(1, 9), Ok(()));
    assert_eq!(logged.peek(1), Ok(9));
    assert_eq!(logged.peek(5), Err(nes_emulator::mapper::BusError::UnmappedRead));
    assert_eq!(
        logged.copy_log(),
        vec![
            (0, nes_emulator::mapper::AccessType::Write, 1, 9),
            (1, nes_emulator::mapper::AccessType::Read, 1, 9),
            (2, nes_emulator::mapper::AccessType::Read, 5, 0),
        ]
    );
}

#[test]
fn devices_save_and_load() {
    let mut table = Mapper::new();
    table.map_ram(0x0000, 0x0004);
    table.map_rom(0x0010, 0x0011, &[5, 6]);
    table.map_null(0x0020, 0x002f);
    table.map_mirrored(
        0x0000,
        0x0001,
        0x0100,
        0x01ff,
        Device::palette(nes_emulator::ppu::PaletteControl::new()),
        true,
    );
    table.poke(0x0002, 0xaa).unwrap();
    let mut saved = Vec::new();
    table.save(&mut saved);

    let mut blank = Mapper::new();
    blank.map_ram(0, 0);
    blank.map_rom(0, 0, &[]);
    blank.map_null(0, 0);
    blank.map_mirrored(0, 0, 0, 0, Device::palette(nes_emulator::ppu::PaletteControl::new()), false);
    let (mut loaded, next) = blank.load(&saved, 0).unwrap();
    assert_eq!(next, saved.len());
    assert_eq!(loaded.peek(0x0002), Ok(0xaa));
    assert_eq!(loaded.peek(0x0011), Ok(6));
    assert_eq!(loaded.peek(0x0025), Ok(0));
    let mut again = Vec::new();
    loaded.save(&mut again);
    assert_eq!(again, saved);

    let short = Mapper::new();
    assert_eq!(
        short.load(&saved, 0).err(),
        Some(nes_emulator::serialization::LoadError::Mismatch)
    );
    assert_eq!(
        blank.load(&saved[..saved.len() - 1], 0).err(),
        Some(nes_emulator::serialization::LoadError::UnexpectedEnd)
    );
}
