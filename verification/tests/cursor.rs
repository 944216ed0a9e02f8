use gbarom::rom::{Rom, RomError};

fn sample_rom() -> Rom {
    Rom::new(vec![0x11, 0x22, 0x33, 0x44, 0x55, 0x66, 0x77, 0x88])
}

#[test]
fn seek_to_null_fails() {
    let mut rom = sample_rom();
    assert_eq!(rom.seek_to(0), Err(RomError::SeekToNullError));
}

#[test]
fn seek_past_end_fails_out_of_bounds() {
    let mut rom = sample_rom();
    assert_eq!(rom.seek_to(8), Err(RomError::OutOfBoundsError(8)));
    assert_eq!(rom.seek_to(1000), Err(RomError::OutOfBoundsError(1000)));
    assert_eq!(rom.seek_to(7), Ok(()));
}

#[test]
fn seek_virtual_matches_physical_reads() {
    // a virtual pointer and its translated flat offset land on the same bytes
    let mut rom = sample_rom();
    rom.seek_to(0x8000000 + 5).unwrap();
    let via_virtual = rom.read_u8().unwrap();
    rom.seek_to(5).unwrap();
    let via_physical = rom.read_u8().unwrap();
    assert_eq!(via_virtual, via_physical);
    assert_eq!(via_virtual, 0x66);
}

#[test]
fn seek_virtual_out_of_bounds_fails() {
    let mut rom = sample_rom();
    assert_eq!(
        rom.seek_to(0x8000000 + 9),
        Err(RomError::OutOfBoundsError(0x8000009))
    );
}

#[test]
fn read_scalars_little_endian() {
    let mut rom = sample_rom();
    rom.seek_to(1).unwrap();
    assert_eq!(rom.read_u8(), Ok(0x22));
    assert_eq!(rom.read_u16(), Ok(0x4433));
    assert_eq!(rom.read_u32(), Ok(0x88776655));
}

#[test]
fn read_past_end_fails() {
    let mut rom = sample_rom();
    rom.seek_to(7).unwrap();
    assert_eq!(rom.read_u16(), Err(RomError::OutOfBoundsError(8)));
    assert_eq!(rom.read_u32(), Err(RomError::OutOfBoundsError(10)));
    assert_eq!(rom.read_u8(), Ok(0x88));
    assert_eq!(rom.read_u8(), Err(RomError::OutOfBoundsError(8)));
}

#[test]
fn read_address_zero_is_no_address() {
    let mut rom = Rom::new(vec![0, 0, 0, 0]);
    assert_eq!(rom.read_address(), Ok(0));
}

#[test]
fn read_address_translates_virtual_pointer() {
    // 0x08000644 little-endian
    let mut rom = Rom::new(vec![0x44, 0x06, 0x00, 0x08]);
    assert_eq!(rom.read_address(), Ok(0x644));
}

#[test]
fn read_address_rejects_raw_word_and_rewinds() {
    let mut rom = Rom::new(vec![0x01, 0x02, 0x03, 0x04]);
    assert_eq!(
        rom.read_address(),
        Err(RomError::InvalidAddress(0, 0x04030201))
    );
    // the cursor was rewound: the word can be re-read as raw data
    assert_eq!(rom.read_u32(), Ok(0x04030201));
}

#[test]
fn seek_to_address_read_follows_pointer() {
    let mut rom = Rom::new(vec![0x05, 0x00, 0x00, 0x08, 0x00, 0xAB, 0xCD, 0xEF]);
    rom.seek_to_address_read().unwrap();
    assert_eq!(rom.read_u8(), Ok(0xAB));
}

#[test]
fn write_scalars_little_endian() {
    let mut rom = Rom::new(vec![0; 8]);
    rom.seek_to(1).unwrap();
    rom.write_u8(0xAA).unwrap();
    rom.write_u16(0xBBCC).unwrap();
    rom.write_u32(0x11223344).unwrap();
    assert_eq!(
        rom.get_data(),
        vec![0x00, 0xAA, 0xCC, 0xBB, 0x44, 0x33, 0x22, 0x11]
    );
}

#[test]
fn write_past_end_fails_and_changes_nothing() {
    let mut rom = Rom::new(vec![0; 4]);
    rom.seek_to(3).unwrap();
    assert_eq!(rom.write_u16(0xFFFF), Err(RomError::OutOfBoundsError(4)));
    assert_eq!(rom.write_u32(0xFFFFFFFF), Err(RomError::OutOfBoundsError(6)));
    assert_eq!(rom.get_data(), vec![0, 0, 0, 0]);
}

#[test]
fn read_data_copies_and_advances() {
    let mut rom = sample_rom();
    rom.seek_to(2).unwrap();
    assert_eq!(rom.read_data(3), Ok(vec![0x33, 0x44, 0x55]));
    assert_eq!(rom.read_u8(), Ok(0x66));
}

#[test]
fn read_data_past_end_fails() {
    let mut rom = sample_rom();
    rom.seek_to(6).unwrap();
    assert_eq!(rom.read_data(3), Err(RomError::OutOfBoundsError(6)));
}

#[test]
fn get_data_returns_buffer_copy() {
    let rom = Rom::new(vec![1, 2, 3]);
    assert_eq!(rom.get_data(), vec![1, 2, 3]);
}
