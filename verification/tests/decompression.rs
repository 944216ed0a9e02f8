use gbarom::lz77::{lz77_decompress, LzError};
use gbarom::rom::{Rom, RomError};

fn rom_with_stream_at_one(stream: &[u8]) -> Rom {
    // one pad byte so that the stream does not sit at the null address
    let mut data = vec![0u8];
    data.extend_from_slice(stream);
    Rom::new(data)
}

#[test]
fn literal_only_stream_round_trips() {
    // a conforming literal-only encoder: an all-zero bitfield byte before
    // each group of up to eight literals
    let payload: Vec<u8> = (1..=13).collect();
    let mut stream = vec![0x10, 13, 0, 0];
    stream.push(0x00);
    stream.extend_from_slice(&payload[0..8]);
    stream.push(0x00);
    stream.extend_from_slice(&payload[8..13]);
    let mut rom = rom_with_stream_at_one(&stream);
    assert_eq!(lz77_decompress(1, &mut rom), Ok(payload));
}

#[test]
fn empty_stream_decodes_to_nothing() {
    let mut rom = rom_with_stream_at_one(&[0x10, 0, 0, 0]);
    assert_eq!(lz77_decompress(1, &mut rom), Ok(vec![]));
}

#[test]
fn overlapping_back_reference_repeats_pattern() {
    // one literal 0xAA, then a token with run_length 4 and run_offset 1:
    // the self-referential run must replicate the byte, not truncate
    let mut rom = rom_with_stream_at_one(&[0x10, 5, 0, 0, 0x40, 0xAA, 0x10, 0x00]);
    assert_eq!(
        lz77_decompress(1, &mut rom),
        Ok(vec![0xAA, 0xAA, 0xAA, 0xAA, 0xAA])
    );
}

#[test]
fn back_reference_copies_earlier_bytes() {
    // literals 1 2 3, then run_length 3 / run_offset 3
    let mut rom = rom_with_stream_at_one(&[0x10, 6, 0, 0, 0b0001_0000, 1, 2, 3, 0x00, 0x02]);
    assert_eq!(lz77_decompress(1, &mut rom), Ok(vec![1, 2, 3, 1, 2, 3]));
}

#[test]
fn back_reference_before_output_start_fails() {
    // the very first token is a back-reference: nothing written yet
    let mut rom = rom_with_stream_at_one(&[0x10, 4, 0, 0, 0x80, 0x10, 0x00]);
    assert_eq!(
        lz77_decompress(1, &mut rom),
        Err(LzError::DecompressionError)
    );
}

#[test]
fn bad_header_tag_fails() {
    let mut rom = rom_with_stream_at_one(&[0x11, 1, 0, 0, 0x00, 0xAA]);
    assert_eq!(
        lz77_decompress(1, &mut rom),
        Err(LzError::DecompressionError)
    );
}

#[test]
fn nonzero_trailing_bitfield_bits_fail() {
    // output fills after one literal; the remaining bitfield bits are not zero
    let mut rom = rom_with_stream_at_one(&[0x10, 1, 0, 0, 0x40, 0xAA]);
    assert_eq!(
        lz77_decompress(1, &mut rom),
        Err(LzError::DecompressionError)
    );
}

#[test]
fn run_past_declared_length_fails() {
    // declared length 2, but the overlapping run would produce 5 bytes
    let mut rom = rom_with_stream_at_one(&[0x10, 2, 0, 0, 0x40, 0xAA, 0x10, 0x00]);
    assert_eq!(
        lz77_decompress(1, &mut rom),
        Err(LzError::DecompressionError)
    );
}

#[test]
fn truncated_stream_fails_out_of_bounds() {
    // header declares 4 bytes but the input ends after one literal
    let mut rom = rom_with_stream_at_one(&[0x10, 4, 0, 0, 0x00, 0xAA]);
    assert_eq!(
        lz77_decompress(1, &mut rom),
        Err(LzError::RomError(RomError::OutOfBoundsError(7)))
    );
}

#[test]
fn decompress_at_null_address_fails() {
    let mut rom = rom_with_stream_at_one(&[0x10, 0, 0, 0]);
    assert_eq!(
        lz77_decompress(0, &mut rom),
        Err(LzError::RomError(RomError::SeekToNullError))
    );
}
