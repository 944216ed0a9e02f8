//! The LZ77 decompression engine: expands a compressed stream read through
//! the binary cursor into a byte sequence whose length the stream header
//! declares. Malformed input is rejected; no read or write ever leaves the
//! output's bounds.

use vstd::prelude::*;

use crate::rom::{spec_read_u8_at, spec_rom_error_message, spec_seek, Rom, RomError};

verus! {

/// Errors raised by the decompression engine.
#[derive(Clone, Copy, Debug, PartialEq, Eq)]
pub enum LzError {
    /// The stream is malformed: a bad header tag, a back-reference past the
    /// start of output, a run past the declared length, nonzero trailing
    /// bitfield bits, or a length mismatch.
    DecompressionError,
    /// The cursor failed underneath the engine.
    RomError(RomError),
}

/// What a decompression error reads as.
pub open spec fn spec_lz_error_message(e: LzError) -> Seq<char> {
    match e {
        LzError::DecompressionError => "Error performing LZ-decompression on data!"@,
        LzError::RomError(re) => spec_rom_error_message(re),
    }
}

impl LzError {
    /// The error as readable text.
    pub fn message(&self) -> (r: String)
        ensures
            r@ == spec_lz_error_message(*self),
    {
        match *self {
            LzError::DecompressionError => {
                proof {
                    reveal_strlit("Error performing LZ-decompression on data!");
                }
                let mut s = String::new();
                s.append("Error performing LZ-decompression on data!");
                s
            },
            LzError::RomError(re) => re.message(),
        }
    }
}

impl From<RomError> for LzError {
    fn from(e: RomError) -> (r: LzError) {
        LzError::RomError(e)
    }
}

impl vstd::std_specs::convert::FromSpecImpl<RomError> for LzError {
    open spec fn obeys_from_spec() -> bool {
        true
    }

    open spec fn from_spec(e: RomError) -> LzError {
        LzError::RomError(e)
    }
}

/// The outcome of decompressing at a given position: the produced bytes and
/// the input position just past the stream, or the error.
pub enum LzOutcome {
    Done(Seq<u8>, int),
    Fail(LzError),
}

/// `out` extended by `run_length` bytes, each copied from `run_offset`
/// positions back, one at a time, so an overlapping run replicates its
/// short repeating pattern.
pub open spec fn spec_back_extend(out: Seq<u8>, run_length: nat, run_offset: nat) -> Seq<u8>
    decreases run_length,
{
    if run_length == 0 {
        out
    } else {
        spec_back_extend(
            out.push(out[out.len() - run_offset]),
            (run_length - 1) as nat,
            run_offset,
        )
    }
}

/// What reading a two-byte back-reference token at `pos` yields:
/// `(run_length, run_offset)`.
pub open spec fn spec_read_token(data: Seq<u8>, pos: int) -> Result<(usize, usize), LzError> {
    match spec_read_u8_at(data, pos) {
        Err(e) => Err(LzError::RomError(e)),
        Ok(b1) => match spec_read_u8_at(data, pos + 1) {
            Err(e) => Err(LzError::RomError(e)),
            Ok(b2) => Ok(
                ((((b1 >> 4) + 3) as usize, ((b1 & 0xF) * 0x100 + b2 + 1) as usize)),
            ),
        },
    }
}

/// What reading the stream header at `pos` yields: the declared uncompressed
/// length, behind a mandatory `0x10` format tag.
pub open spec fn spec_uncompressed_length(data: Seq<u8>, pos: int) -> Result<usize, LzError> {
    match spec_read_u8_at(data, pos) {
        Err(e) => Err(LzError::RomError(e)),
        Ok(tag) => if tag != 0x10 {
            Err(LzError::DecompressionError)
        } else {
            match spec_read_u8_at(data, pos + 1) {
                Err(e) => Err(LzError::RomError(e)),
                Ok(b1) => match spec_read_u8_at(data, pos + 2) {
                    Err(e) => Err(LzError::RomError(e)),
                    Ok(b2) => match spec_read_u8_at(data, pos + 3) {
                        Err(e) => Err(LzError::RomError(e)),
                        Ok(b3) => Ok((b1 + b2 * 0x100 + b3 * 0x10000) as usize),
                    },
                },
            }
        },
    }
}

/// The token loop of the engine, one recursion step per consumed bitfield
/// bit or bitfield byte. `bitfield` holds the `bits` bits not yet consumed,
/// most significant first; `out` is what has been produced so far; `target`
/// is the declared output length. Once the output is full, any remaining
/// bits of the current bitfield byte must be zero.
pub open spec fn spec_lz_tokens(
    data: Seq<u8>,
    pos: int,
    bitfield: u8,
    bits: nat,
    out: Seq<u8>,
    target: nat,
) -> LzOutcome
    decreases target - out.len(), 8 - bits,
    via spec_lz_tokens_decreases
{
    if out.len() >= target {
        if bitfield == 0 {
            LzOutcome::Done(out, pos)
        } else {
            LzOutcome::Fail(LzError::DecompressionError)
        }
    } else if bits == 0 {
        match spec_read_u8_at(data, pos) {
            Err(e) => LzOutcome::Fail(LzError::RomError(e)),
            Ok(b) => spec_lz_tokens(data, pos + 1, b, 8, out, target),
        }
    } else if bitfield & 0x80 == 0 {
        match spec_read_u8_at(data, pos) {
            Err(e) => LzOutcome::Fail(LzError::RomError(e)),
            Ok(b) => spec_lz_tokens(
                data,
                pos + 1,
                bitfield << 1,
                (bits - 1) as nat,
                out.push(b),
                target,
            ),
        }
    } else {
        match spec_read_token(data, pos) {
            Err(e) => LzOutcome::Fail(e),
            Ok((run_length, run_offset)) => if run_offset > out.len() {
                LzOutcome::Fail(LzError::DecompressionError)
            } else if out.len() + run_length > target {
                LzOutcome::Fail(LzError::DecompressionError)
            } else {
                spec_lz_tokens(
                    data,
                    pos + 2,
                    bitfield << 1,
                    (bits - 1) as nat,
                    spec_back_extend(out, run_length as nat, run_offset as nat),
                    target,
                )
            },
        }
    }
}

#[via_fn]
proof fn spec_lz_tokens_decreases(
    data: Seq<u8>,
    pos: int,
    bitfield: u8,
    bits: nat,
    out: Seq<u8>,
    target: nat,
) {
    if out.len() < target && bits != 0 && bitfield & 0x80 != 0 {
        match spec_read_token(data, pos) {
            Ok((run_length, run_offset)) => {
                lemma_back_extend_len(out, run_length as nat, run_offset as nat);
            },
            Err(_) => {},
        }
    }
}

/// What decompressing a stream whose header starts at `pos` yields.
pub open spec fn spec_lz_stream(data: Seq<u8>, pos: int) -> LzOutcome {
    match spec_uncompressed_length(data, pos) {
        Err(e) => LzOutcome::Fail(e),
        Ok(target) => spec_lz_tokens(data, pos + 4, 0, 0, Seq::empty(), target as nat),
    }
}

/// What `lz77_decompress` yields: a seek to `address`, then the stream there.
pub open spec fn spec_lz77_decompress(data: Seq<u8>, address: usize) -> LzOutcome {
    match spec_seek(data.len(), address) {
        Err(e) => LzOutcome::Fail(LzError::RomError(e)),
        Ok(p) => spec_lz_stream(data, p as int),
    }
}

/// A back-extension grows the output by exactly the run length.
proof fn lemma_back_extend_len(out: Seq<u8>, run_length: nat, run_offset: nat)
    ensures
        spec_back_extend(out, run_length, run_offset).len() == out.len() + run_length,
    decreases run_length,
{
    if run_length > 0 {
        lemma_back_extend_len(
            out.push(out[out.len() - run_offset]),
            (run_length - 1) as nat,
            run_offset,
        );
    }
}

/// Extending by one more byte appends the byte `run_offset` back from the
/// end of the already-extended output.
proof fn lemma_back_extend_step(out: Seq<u8>, j: nat, run_offset: nat)
    requires
        1 <= run_offset <= out.len(),
    ensures
        spec_back_extend(out, j + 1, run_offset) == spec_back_extend(out, j, run_offset).push(
            spec_back_extend(out, j, run_offset)[out.len() + j - run_offset],
        ),
    decreases j,
{
    lemma_back_extend_len(out, j, run_offset);
    let pushed = out.push(out[out.len() - run_offset]);
    assert(spec_back_extend(out, j + 1, run_offset) == spec_back_extend(pushed, j, run_offset));
    if j == 0 {
        assert(spec_back_extend(pushed, 0, run_offset) == pushed);
        assert(spec_back_extend(out, 0, run_offset) == out);
    } else {
        lemma_back_extend_step(pushed, (j - 1) as nat, run_offset);
        assert(spec_back_extend(out, j, run_offset) == spec_back_extend(
            pushed,
            (j - 1) as nat,
            run_offset,
        ));
    }
}

/// The body a conforming literal-only encoder produces for `s`: an all-zero
/// bitfield byte before each group of up to eight literal bytes.
pub open spec fn spec_literal_groups(s: Seq<u8>) -> Seq<u8>
    decreases s.len(),
{
    if s.len() == 0 {
        Seq::empty()
    } else if s.len() <= 8 {
        seq![0u8] + s
    } else {
        seq![0u8] + s.take(8) + spec_literal_groups(s.skip(8))
    }
}

/// The whole stream a conforming literal-only encoder produces for `s`: the
/// `0x10` tag, the length of `s` as three little-endian bytes, then the
/// literal groups.
pub open spec fn spec_encode_literals(s: Seq<u8>) -> Seq<u8> {
    seq![
        0x10u8,
        (s.len() % 0x100) as u8,
        ((s.len() / 0x100) % 0x100) as u8,
        ((s.len() / 0x10000) % 0x100) as u8,
    ] + spec_literal_groups(s)
}

/// What remains of a literal-only stream when `bits` bits of the current
/// all-zero bitfield byte are still unconsumed and the bytes of `s` are
/// still owed: up to `bits` literals first, then whole groups.
spec fn spec_literal_rest(bits: nat, s: Seq<u8>) -> Seq<u8> {
    if bits == 0 {
        spec_literal_groups(s)
    } else if s.len() <= bits {
        s
    } else {
        s.take(bits as int) + spec_literal_groups(s.skip(bits as int))
    }
}

/// Token-loop half of the literal round trip: from any reached state whose
/// remaining input encodes `s` as literal groups, the loop produces exactly
/// the owed bytes and stops at the end of the stream.
proof fn lemma_literal_tokens(data: Seq<u8>, pos: int, bits: nat, out: Seq<u8>, s: Seq<u8>)
    requires
        bits <= 8,
        0 <= pos,
        pos + spec_literal_rest(bits, s).len() <= data.len(),
        data.subrange(pos, pos + spec_literal_rest(bits, s).len()) == spec_literal_rest(bits, s),
    ensures
        spec_lz_tokens(data, pos, 0, bits, out, (out.len() + s.len()) as nat) == LzOutcome::Done(
            out + s,
            pos + spec_literal_rest(bits, s).len(),
        ),
    decreases s.len(), 8 - bits,
{
    let target = (out.len() + s.len()) as nat;
    let rest = spec_literal_rest(bits, s);
    if s.len() == 0 {
        assert(out + s =~= out);
    } else if bits == 0 {
        // the loop reads the zero bitfield byte and goes on with eight bits
        assert(data[pos] == rest[0]);
        assert(rest[0] == 0);
        let rest8 = spec_literal_rest(8, s);
        assert(rest =~= seq![0u8] + rest8);
        assert(data.subrange(pos + 1, pos + 1 + rest8.len()) =~= rest8) by {
            assert forall|i: int| 0 <= i < rest8.len() implies data.subrange(
                pos + 1,
                pos + 1 + rest8.len(),
            )[i] == rest8[i] by {
                assert(data.subrange(pos, pos + rest.len())[i + 1] == rest[i + 1]);
            }
        }
        lemma_literal_tokens(data, pos + 1, 8, out, s);
    } else {
        // one literal bit: the loop copies s[0] and consumes one bit
        assert((0u8 & 0x80) == 0 && (0u8 << 1) == 0u8) by (bit_vector);
        let s1 = s.skip(1);
        let rest1 = spec_literal_rest((bits - 1) as nat, s1);
        assert(rest =~= seq![s[0]] + rest1) by {
            if s.len() <= bits {
                assert(spec_literal_rest((bits - 1) as nat, s1) =~= s1);
            } else {
                assert(s.take(bits as int) =~= seq![s[0]] + s1.take(bits - 1));
                assert(s.skip(bits as int) =~= s1.skip(bits - 1));
            }
        }
        assert(data[pos] == rest[0]);
        assert(data.subrange(pos + 1, pos + 1 + rest1.len()) =~= rest1) by {
            assert forall|i: int| 0 <= i < rest1.len() implies data.subrange(
                pos + 1,
                pos + 1 + rest1.len(),
            )[i] == rest1[i] by {
                assert(data.subrange(pos, pos + rest.len())[i + 1] == rest[i + 1]);
            }
        }
        lemma_literal_tokens(data, pos + 1, (bits - 1) as nat, out.push(s[0]), s1);
        assert(out.push(s[0]) + s1 =~= out + s);
    }
}

/// The LZ77 round trip for conforming literal-only encoders: wherever the
/// buffer holds `spec_encode_literals(s)`, decompressing there reproduces
/// exactly `s` and consumes exactly the encoded stream.
pub proof fn lemma_lz77_literal_roundtrip(data: Seq<u8>, pos: int, s: Seq<u8>)
    requires
        s.len() < 0x1000000,
        0 <= pos,
        pos + spec_encode_literals(s).len() <= data.len(),
        data.subrange(pos, pos + spec_encode_literals(s).len()) == spec_encode_literals(s),
    ensures
        spec_lz_stream(data, pos) == LzOutcome::Done(s, pos + spec_encode_literals(s).len()),
{
    let enc = spec_encode_literals(s);
    let n = s.len() as int;
    assert forall|i: int| 0 <= i < 4 implies data[pos + i] == enc[i] by {
        assert(data.subrange(pos, pos + enc.len())[i] == enc[i]);
    }
    assert(n % 0x100 + (n / 0x100 % 0x100) * 0x100 + (n / 0x10000 % 0x100) * 0x10000 == n) by {
        vstd::arithmetic::div_mod::lemma_fundamental_div_mod(n, 0x100);
        vstd::arithmetic::div_mod::lemma_fundamental_div_mod(n / 0x100, 0x100);
        vstd::arithmetic::div_mod::lemma_div_denominator(n, 0x100, 0x100);
        assert(n / 0x10000 < 0x100) by {
            vstd::arithmetic::div_mod::lemma_div_is_ordered_by_denominator(n, 0x10000, 0x10000);
        }
        assert(n / 0x10000 % 0x100 == n / 0x10000) by {
            vstd::arithmetic::div_mod::lemma_small_mod((n / 0x10000) as nat, 0x100);
        }
    }
    assert(enc[0] == 0x10u8 && enc[1] == (s.len() % 0x100) as u8 && enc[2] == ((s.len() / 0x100)
        % 0x100) as u8 && enc[3] == ((s.len() / 0x10000) % 0x100) as u8);
    assert(data[pos] == enc[0] && data[pos + 1] == enc[1] && data[pos + 2] == enc[2] && data[pos
        + 3] == enc[3]);
    assert(spec_uncompressed_length(data, pos) == Ok::<usize, LzError>(s.len() as usize));
    let groups = spec_literal_groups(s);
    assert(groups == spec_literal_rest(0, s));
    assert(data.subrange(pos + 4, pos + 4 + groups.len()) =~= groups) by {
        assert forall|i: int| 0 <= i < groups.len() implies data.subrange(
            pos + 4,
            pos + 4 + groups.len(),
        )[i] == groups[i] by {
            assert(data.subrange(pos, pos + enc.len())[i + 4] == enc[i + 4]);
        }
    }
    lemma_literal_tokens(data, pos + 4, 0, Seq::empty(), s);
    assert(Seq::<u8>::empty() + s =~= s);
}

/// Reads the stream header: a `0x10` tag byte, then the uncompressed length
/// as three little-endian bytes.
fn get_uncompressed_length(rom: &mut Rom) -> (r: Result<usize, LzError>)
    ensures
        final(rom).bytes() == old(rom).bytes(),
        r == spec_uncompressed_length(old(rom).bytes(), old(rom).position()),
        r is Ok ==> final(rom).position() == old(rom).position() + 4,
{
    let tag = match rom.read_u8() {
        Ok(b) => b,
        Err(e) => {
            return Err(LzError::RomError(e));
        },
    };
    if tag != 0x10 {
        return Err(LzError::DecompressionError);
    }
    let b1 = match rom.read_u8() {
        Ok(b) => b,
        Err(e) => {
            return Err(LzError::RomError(e));
        },
    };
    let b2 = match rom.read_u8() {
        Ok(b) => b,
        Err(e) => {
            return Err(LzError::RomError(e));
        },
    };
    let b3 = match rom.read_u8() {
        Ok(b) => b,
        Err(e) => {
            return Err(LzError::RomError(e));
        },
    };
    Ok(b1 as usize + b2 as usize * 0x100 + b3 as usize * 0x10000)
}

/// Reads a two-byte back-reference token and unpacks it into
/// `(run_length, run_offset)` with `run_length` in 3..=18 and `run_offset`
/// in 1..=4096.
fn read_compressed_token(rom: &mut Rom) -> (r: Result<(usize, usize), LzError>)
    ensures
        final(rom).bytes() == old(rom).bytes(),
        r == spec_read_token(old(rom).bytes(), old(rom).position()),
        r is Ok ==> final(rom).position() == old(rom).position() + 2,
{
    let byte1 = match rom.read_u8() {
        Ok(b) => b,
        Err(e) => {
            return Err(LzError::RomError(e));
        },
    };
    let byte2 = match rom.read_u8() {
        Ok(b) => b,
        Err(e) => {
            return Err(LzError::RomError(e));
        },
    };
    let run_length = (byte1 >> 4) as usize + 3;
    let run_offset = (byte1 & 0xF) as usize * 0x100 + byte2 as usize + 1;
    Ok((run_length, run_offset))
}

/// Decompresses the LZ77 stream at `address`: reads the header, then
/// consumes bitfield bytes whose bits select literal or back-reference
/// tokens until the declared number of bytes has been produced. Every
/// length and offset is validated before use; malformed input fails with
/// `DecompressionError` and never reads or writes out of bounds.
pub fn lz77_decompress(address: usize, rom: &mut Rom) -> (r: Result<Vec<u8>, LzError>)
    ensures
        final(rom).bytes() == old(rom).bytes(),
        match r {
            Ok(v) => spec_lz77_decompress(old(rom).bytes(), address) matches LzOutcome::Done(
                s,
                p,
            ) && v@ == s && final(rom).position() == p,
            Err(e) => spec_lz77_decompress(old(rom).bytes(), address) == LzOutcome::Fail(e),
        },
{
    let ghost data = old(rom).bytes();
    match rom.seek_to(address) {
        Ok(()) => {},
        Err(e) => {
            return Err(LzError::RomError(e));
        },
    }
    let length = match get_uncompressed_length(rom) {
        Ok(l) => l,
        Err(e) => {
            return Err(e);
        },
    };
    let ghost full = spec_lz_tokens(data, rom.position(), 0, 0, Seq::empty(), length as nat);
    let mut output: Vec<u8> = Vec::new();
    let mut bitfield: u8 = 0;
    let mut bits: usize = 0;
    while output.len() < length
        invariant
            rom.bytes() == data,
            bits <= 8,
            output@.len() <= length,
            spec_lz_tokens(
                data,
                rom.position(),
                bitfield,
                bits as nat,
                output@,
                length as nat,
            ) == full,
            spec_lz77_decompress(data, address) == full,
            old(rom).bytes() == data,
        decreases length - output@.len(), 8 - bits,
    {
        if bits == 0 {
            bitfield = match rom.read_u8() {
                Ok(b) => b,
                Err(e) => {
                    return Err(LzError::RomError(e));
                },
            };
            bits = 8;
        } else if bitfield & 0x80 == 0 {
            let b = match rom.read_u8() {
                Ok(b) => b,
                Err(e) => {
                    return Err(LzError::RomError(e));
                },
            };
            output.push(b);
            bitfield = bitfield << 1;
            bits = bits - 1;
        } else {
            let (run_length, run_offset) = match read_compressed_token(rom) {
                Ok(t) => t,
                Err(e) => {
                    return Err(e);
                },
            };
            if run_offset > output.len() {
                return Err(LzError::DecompressionError);
            }
            if run_length > length - output.len() {
                return Err(LzError::DecompressionError);
            }
            let ghost out0 = output@;
            let mut j: usize = 0;
            while j < run_length
                invariant
                    j <= run_length,
                    1 <= run_offset <= out0.len(),
                    out0.len() + run_length <= length,
                    output@ == spec_back_extend(out0, j as nat, run_offset as nat),
                    output@.len() == out0.len() + j,
                decreases run_length - j,
            {
                proof {
                    lemma_back_extend_step(out0, j as nat, run_offset as nat);
                }
                let b = output[output.len() - run_offset];
                output.push(b);
                j = j + 1;
            }
            proof {
                lemma_back_extend_len(out0, run_length as nat, run_offset as nat);
            }
            bitfield = bitfield << 1;
            bits = bits - 1;
        }
    }
    if bitfield != 0 {
        return Err(LzError::DecompressionError);
    }
    Ok(output)
}

} // verus!
