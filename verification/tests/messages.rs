use gbarom::error::Error;
use gbarom::lz77::LzError;
use gbarom::mapping::InvalidBlock;
use gbarom::rom::RomError;

#[test]
fn rom_error_messages_read_as_expected() {
    assert_eq!(
        RomError::SeekToNullError.message(),
        "Cannot seek to null address!"
    );
    assert_eq!(
        RomError::OutOfBoundsError(16).message(),
        format!("Cannot access address at {:#08x} (out of bounds)!", 16)
    );
    assert_eq!(
        RomError::OutOfBoundsError(0x12345678).message(),
        format!(
            "Cannot access address at {:#08x} (out of bounds)!",
            0x12345678usize
        )
    );
    assert_eq!(
        RomError::InvalidAddress(3, 0x04030201).message(),
        format!(
            "Cannot read \"{:02x} {:02x} {:02x} {:02x}\" at {:#08x} as address!",
            1, 2, 3, 4, 3
        )
    );
}

#[test]
fn block_error_messages_name_field_and_value() {
    assert_eq!(
        InvalidBlock::InvalidTerrain(5).message(),
        format!("Unknown terrain ({:#x}) (expected 0, 1, 2, or 3)!", 5)
    );
    assert_eq!(
        InvalidBlock::InvalidBackground(1).message(),
        format!("Unknown background ({:#x}) (expected 0, 2, 3, or 4)!", 1)
    );
    assert_eq!(
        InvalidBlock::InvalidEncounter(7).message(),
        format!("Unknown encounter ({:#x}) (expected 0, 1, or 2)!", 7)
    );
}

#[test]
fn wrapped_error_messages_pass_through() {
    assert_eq!(
        LzError::DecompressionError.message(),
        "Error performing LZ-decompression on data!"
    );
    assert_eq!(
        LzError::RomError(RomError::SeekToNullError).message(),
        "Cannot seek to null address!"
    );
    assert_eq!(
        Error::LzError(LzError::DecompressionError).message(),
        "Error performing LZ-decompression on data!"
    );
    assert_eq!(
        Error::from(RomError::OutOfBoundsError(8)).message(),
        RomError::OutOfBoundsError(8).message()
    );
    assert_eq!(
        Error::from(InvalidBlock::InvalidTerrain(5)).message(),
        InvalidBlock::InvalidTerrain(5).message()
    );
    assert_eq!(
        LzError::from(RomError::SeekToNullError),
        LzError::RomError(RomError::SeekToNullError)
    );
}
