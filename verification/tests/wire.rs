use nes_emulator::savable::{load, save, NewSavable};
use nes_emulator::serialization::LoadError;

#[test]
fn the_byte_order_crate_writes_low_byte_first() {
    let mut out = Vec::new();
    save(&mut out, true);
    save(&mut out, 0x7fu8);
    save(&mut out, 0x1234u16);
    save(&mut out, 0x89abcdefu32);
    save(&mut out, 0x0102030405060708u64);
    save(&mut out, 0x0a0busize);
    assert_eq!(
        out,
        vec![
            1, 0x7f, 0x34, 0x12, 0xef, 0xcd, 0xab, 0x89, 8, 7, 6, 5, 4, 3, 2, 1, 0x0b, 0x0a, 0, 0,
            0, 0, 0, 0
        ]
    );
}

#[test]
fn the_byte_order_crate_reads_low_byte_first() {
    let bytes = [2u8, 0x7f, 0x34, 0x12, 0xef, 0xcd, 0xab, 0x89, 8, 7, 6, 5, 4, 3, 2, 1];
    assert_eq!(load::<bool>(&bytes, 0), Ok((true, 1)));
    assert_eq!(load::<u8>(&bytes, 1), Ok((0x7f, 2)));
    assert_eq!(load::<u16>(&bytes, 2), Ok((0x1234, 4)));
    assert_eq!(load::<u32>(&bytes, 4), Ok((0x89abcdef, 8)));
    assert_eq!(load::<u64>(&bytes, 8), Ok((0x0102030405060708, 16)));
    assert_eq!(load::<usize>(&bytes, 8), Ok((0x0102030405060708, 16)));
    assert_eq!(load::<u8>(&bytes, 16), Err(LoadError::UnexpectedEnd));
    assert_eq!(load::<bool>(&bytes, 16), Err(LoadError::UnexpectedEnd));
    assert_eq!(load::<u16>(&bytes, 15), Err(LoadError::UnexpectedEnd));
    assert_eq!(load::<u32>(&bytes, 13), Err(LoadError::UnexpectedEnd));
    assert_eq!(load::<u64>(&bytes, 9), Err(LoadError::UnexpectedEnd));
    assert_eq!(load::<usize>(&bytes, 9), Err(LoadError::UnexpectedEnd));
}

#[test]
fn sequences_go_through_the_byte_order_crate() {
    let mut out = Vec::new();
    save(&mut out, vec![0x0102u16, 0x0304, 0x0506]);
    assert_eq!(out, vec![3, 0, 0, 0, 0, 0, 0, 0, 2, 1, 4, 3, 6, 5]);
    assert_eq!(load::<Vec<u16>>(&out, 0), Ok((vec![0x0102, 0x0304, 0x0506], 14)));
    assert_eq!(load::<Vec<u16>>(&out[..13], 0), Err(LoadError::UnexpectedEnd));
    assert_eq!(load::<Vec<u16>>(&out[..7], 0), Err(LoadError::UnexpectedEnd));
    let nested = vec![vec![1u8, 2], vec![], vec![3]];
    let mut bytes = Vec::new();
    NewSavable::save(&nested, &mut bytes);
    assert_eq!(bytes.len(), 8 + (8 + 2) + 8 + (8 + 1));
    assert_eq!(load::<Vec<Vec<u8>>>(&bytes, 0), Ok((nested, bytes.len())));
    assert_eq!(<Vec<bool> as NewSavable>::load(&[1, 0, 0, 0, 0, 0, 0, 0, 5], 0), Ok((vec![true], 9)));
}

