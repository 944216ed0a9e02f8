//! The binary cursor: an owned byte buffer with a current position,
//! bounds-checked little-endian scalar reads and writes, and the
//! translation rule between GBA virtual pointers and flat file offsets.

use vstd::prelude::*;

use crate::error::{spec_rom_error, Error};
use crate::mapping::map_header::{spec_read_map_header, MapHeader};

verus! {

/// Physical offset of the bank-table pointer in this cartridge revision.
pub const MAP_BANK_TABLE_POINTER: usize = 0x05524C;

/// First address of the GBA virtual-pointer range.
pub const GBA_PTR_BASE: usize = 0x8000000;

/// Last address of the GBA virtual-pointer range.
pub const GBA_PTR_TOP: usize = 0xA000000;

/// Errors raised by the binary cursor.
#[derive(Clone, Copy, Debug, PartialEq, Eq)]
pub enum RomError {
    /// A seek to address zero was attempted.
    SeekToNullError,
    /// A seek, read or write would leave the buffer; carries the offending offset.
    OutOfBoundsError(usize),
    /// A 32-bit word expected to be a pointer was neither zero nor in the
    /// virtual range; carries the word's position and its raw value.
    InvalidAddress(usize, u32),
}

/// Whether `address` lies in the GBA virtual-pointer range.
pub open spec fn spec_in_virtual_range(address: usize) -> bool {
    GBA_PTR_BASE <= address <= GBA_PTR_TOP
}

/// The physical offset that a virtual pointer stands for.
pub open spec fn spec_translate(address: usize) -> usize {
    (address - GBA_PTR_BASE) as usize
}

/// What seeking to `address` yields on a buffer of length `len`: the new
/// position, or the error.
pub open spec fn spec_seek(len: nat, address: usize) -> Result<usize, RomError> {
    if address == 0 {
        Err(RomError::SeekToNullError)
    } else if spec_in_virtual_range(address) {
        if spec_translate(address) < len {
            Ok(spec_translate(address))
        } else {
            Err(RomError::OutOfBoundsError(address))
        }
    } else if address < len {
        Ok(address)
    } else {
        Err(RomError::OutOfBoundsError(address))
    }
}

/// The value of two bytes read little-endian.
pub open spec fn spec_le16(b0: u8, b1: u8) -> u16 {
    (b0 + b1 * 0x100) as u16
}

/// The value of four bytes read little-endian.
pub open spec fn spec_le32(b0: u8, b1: u8, b2: u8, b3: u8) -> u32 {
    (b0 + b1 * 0x100 + b2 * 0x10000 + b3 * 0x1000000) as u32
}

/// What a one-byte read at `pos` yields.
pub open spec fn spec_read_u8_at(data: Seq<u8>, pos: int) -> Result<u8, RomError> {
    if pos + 1 <= data.len() {
        Ok(data[pos])
    } else {
        Err(RomError::OutOfBoundsError(pos as usize))
    }
}

/// What a two-byte little-endian read at `pos` yields.
pub open spec fn spec_read_u16_at(data: Seq<u8>, pos: int) -> Result<u16, RomError> {
    if pos + 2 <= data.len() {
        Ok(spec_le16(data[pos], data[pos + 1]))
    } else {
        Err(RomError::OutOfBoundsError((pos + 1) as usize))
    }
}

/// What a four-byte little-endian read at `pos` yields.
pub open spec fn spec_read_u32_at(data: Seq<u8>, pos: int) -> Result<u32, RomError> {
    if pos + 4 <= data.len() {
        Ok(spec_le32(data[pos], data[pos + 1], data[pos + 2], data[pos + 3]))
    } else {
        Err(RomError::OutOfBoundsError((pos + 3) as usize))
    }
}

/// What interpreting the 32-bit word at `pos` as an address yields: zero for
/// the "no address" sentinel, the translated physical offset for a virtual
/// pointer, and `InvalidAddress` for any other nonzero word.
pub open spec fn spec_read_address_at(data: Seq<u8>, pos: int) -> Result<usize, RomError> {
    match spec_read_u32_at(data, pos) {
        Err(e) => Err(e),
        Ok(w) => if w == 0 {
            Ok(0)
        } else if GBA_PTR_BASE <= w <= GBA_PTR_TOP {
            Ok((w - GBA_PTR_BASE) as usize)
        } else {
            Err(RomError::InvalidAddress(pos as usize, w))
        },
    }
}

/// The buffer after writing the two little-endian bytes of `v` at `pos`.
pub open spec fn spec_write_le16(data: Seq<u8>, pos: int, v: u16) -> Seq<u8> {
    data.update(pos, (v & 0xFF) as u8).update(pos + 1, ((v >> 8) & 0xFF) as u8)
}

/// The buffer after writing the four little-endian bytes of `v` at `pos`.
pub open spec fn spec_write_le32(data: Seq<u8>, pos: int, v: u32) -> Seq<u8> {
    data.update(pos, (v & 0xFF) as u8)
        .update(pos + 1, ((v >> 8) & 0xFF) as u8)
        .update(pos + 2, ((v >> 16) & 0xFF) as u8)
        .update(pos + 3, ((v >> 24) & 0xFF) as u8)
}

/// A byte buffer holding a cartridge image, with a cursor position. All
/// reads and writes are bounds-checked against the fixed buffer size.
pub struct Rom {
    data: Vec<u8>,
    pos: usize,
}

impl Rom {
    /// The bytes of the backing buffer.
    pub closed spec fn bytes(&self) -> Seq<u8> {
        self.data@
    }

    /// The cursor position.
    pub closed spec fn position(&self) -> int {
        self.pos as int
    }

    #[verifier::type_invariant]
    spec fn cursor_inv(&self) -> bool {
        self.pos <= self.data@.len() && self.data@.len() + 8 <= usize::MAX
    }

    /// Wraps `data` in a cursor positioned at offset zero.
    pub fn new(data: Vec<u8>) -> (rom: Rom)
        requires
            data@.len() + 8 <= usize::MAX,
        ensures
            rom.bytes() == data@,
            rom.position() == 0,
    {
        Rom { data, pos: 0 }
    }

    /// Returns a copy of the backing buffer.
    pub fn get_data(&self) -> (r: Vec<u8>)
        ensures
            r@ == self.bytes(),
    {
        proof {
            use_type_invariant(&*self);
        }
        let mut out: Vec<u8> = Vec::new();
        let mut i: usize = 0;
        while i < self.data.len()
            invariant
                i <= self.data@.len(),
                out@ == self.data@.take(i as int),
            decreases self.data@.len() - i,
        {
            out.push(self.data[i]);
            i = i + 1;
            proof {
                assert(out@ =~= self.data@.take(i as int));
            }
        }
        proof {
            assert(out@ =~= self.data@);
        }
        out
    }

    /// Moves the cursor: address zero is refused as null, a virtual pointer
    /// is translated by subtracting the range base, and the result must lie
    /// within the buffer.
    pub fn seek_to(&mut self, address: usize) -> (r: Result<(), RomError>)
        ensures
            final(self).bytes() == old(self).bytes(),
            old(self).bytes().len() + 8 <= usize::MAX,
            match r {
                Ok(()) => {
                    &&& spec_seek(old(self).bytes().len(), address) == Ok::<usize, RomError>(
                        final(self).position() as usize,
                    )
                    &&& final(self).position() == spec_seek(old(self).bytes().len(), address)->Ok_0
                },
                Err(e) => {
                    &&& spec_seek(old(self).bytes().len(), address) == Err::<usize, RomError>(e)
                    &&& final(self).position() == old(self).position()
                },
            },
    {
        proof {
            use_type_invariant(&*self);
        }
        if address == 0 {
            return Err(RomError::SeekToNullError);
        }
        if GBA_PTR_BASE <= address && address <= GBA_PTR_TOP {
            let target = address - GBA_PTR_BASE;
            if target < self.data.len() {
                self.pos = target;
                Ok(())
            } else {
                Err(RomError::OutOfBoundsError(address))
            }
        } else if address < self.data.len() {
            self.pos = address;
            Ok(())
        } else {
            Err(RomError::OutOfBoundsError(address))
        }
    }

    /// Reads one byte at the cursor and advances past it.
    pub fn read_u8(&mut self) -> (r: Result<u8, RomError>)
        ensures
            final(self).bytes() == old(self).bytes(),
            r == spec_read_u8_at(old(self).bytes(), old(self).position()),
            final(self).position() == match r {
                Ok(_) => old(self).position() + 1,
                Err(_) => old(self).position(),
            },
    {
        proof {
            use_type_invariant(&*self);
        }
        if self.data.len() - self.pos < 1 {
            return Err(RomError::OutOfBoundsError(self.pos));
        }
        let value = self.data[self.pos];
        self.pos = self.pos + 1;
        Ok(value)
    }

    /// Reads two little-endian bytes at the cursor and advances past them.
    pub fn read_u16(&mut self) -> (r: Result<u16, RomError>)
        ensures
            final(self).bytes() == old(self).bytes(),
            r == spec_read_u16_at(old(self).bytes(), old(self).position()),
            final(self).position() == match r {
                Ok(_) => old(self).position() + 2,
                Err(_) => old(self).position(),
            },
    {
        proof {
            use_type_invariant(&*self);
        }
        if self.data.len() - self.pos < 2 {
            return Err(RomError::OutOfBoundsError(self.pos + 1));
        }
        let b0 = self.data[self.pos];
        let b1 = self.data[self.pos + 1];
        self.pos = self.pos + 2;
        Ok(b0 as u16 + b1 as u16 * 0x100)
    }

    /// Reads four little-endian bytes at the cursor and advances past them.
    pub fn read_u32(&mut self) -> (r: Result<u32, RomError>)
        ensures
            final(self).bytes() == old(self).bytes(),
            r == spec_read_u32_at(old(self).bytes(), old(self).position()),
            final(self).position() == match r {
                Ok(_) => old(self).position() + 4,
                Err(_) => old(self).position(),
            },
    {
        proof {
            use_type_invariant(&*self);
        }
        if self.data.len() - self.pos < 4 {
            return Err(RomError::OutOfBoundsError(self.pos + 3));
        }
        let b0 = self.data[self.pos];
        let b1 = self.data[self.pos + 1];
        let b2 = self.data[self.pos + 2];
        let b3 = self.data[self.pos + 3];
        self.pos = self.pos + 4;
        Ok(b0 as u32 + b1 as u32 * 0x100 + b2 as u32 * 0x10000 + b3 as u32 * 0x1000000)
    }

    /// Reads a 32-bit word as an address: zero stays the "no address"
    /// sentinel, a virtual pointer becomes a physical offset, and any other
    /// nonzero word is `InvalidAddress`. On that error the cursor is rewound
    /// by four bytes so the word can be re-read as raw data.
    pub fn read_address(&mut self) -> (r: Result<usize, RomError>)
        ensures
            final(self).bytes() == old(self).bytes(),
            r == spec_read_address_at(old(self).bytes(), old(self).position()),
            final(self).position() == match r {
                Ok(_) => old(self).position() + 4,
                Err(_) => old(self).position(),
            },
    {
        proof {
            use_type_invariant(&*self);
        }
        let start = self.pos;
        let word = match self.read_u32() {
            Ok(w) => w,
            Err(e) => {
                return Err(e);
            },
        };
        if word == 0 {
            Ok(0)
        } else if word >= 0x8000000 && word <= 0xA000000 {
            Ok((word - 0x8000000) as usize)
        } else {
            self.pos = start;
            Err(RomError::InvalidAddress(start, word))
        }
    }

    /// Reads a 32-bit address and seeks to it.
    pub fn seek_to_address_read(&mut self) -> (r: Result<(), RomError>)
        ensures
            final(self).bytes() == old(self).bytes(),
            match spec_read_address_at(old(self).bytes(), old(self).position()) {
                Err(e) => r == Err::<(), RomError>(e),
                Ok(a) => match spec_seek(old(self).bytes().len(), a) {
                    Ok(p) => r is Ok && final(self).position() == p,
                    Err(e) => r == Err::<(), RomError>(e),
                },
            },
    {
        let address = match self.read_address() {
            Ok(a) => a,
            Err(e) => {
                return Err(e);
            },
        };
        self.seek_to(address)
    }

    /// Returns a copy of `length` bytes at the cursor and advances past
    /// them. A range that would leave the buffer is refused as out of
    /// bounds, with the cursor position as the offending offset.
    pub fn read_data(&mut self, length: usize) -> (r: Result<Vec<u8>, RomError>)
        ensures
            final(self).bytes() == old(self).bytes(),
            if old(self).position() + length <= old(self).bytes().len() {
                match r {
                    Ok(v) => {
                        &&& v@ == old(self).bytes().subrange(
                            old(self).position(),
                            old(self).position() + length,
                        )
                        &&& final(self).position() == old(self).position() + length
                    },
                    Err(_) => false,
                }
            } else {
                r == Err::<Vec<u8>, RomError>(
                    RomError::OutOfBoundsError(old(self).position() as usize),
                ) && final(self).position() == old(self).position()
            },
    {
        proof {
            use_type_invariant(&*self);
        }
        if self.data.len() - self.pos < length {
            return Err(RomError::OutOfBoundsError(self.pos));
        }
        let mut out: Vec<u8> = Vec::new();
        let mut i: usize = 0;
        while i < length
            invariant
                i <= length,
                self.pos + length <= self.data@.len(),
                self.data@.len() + 8 <= usize::MAX,
                out@ == self.data@.subrange(self.pos as int, self.pos + i),
            decreases length - i,
        {
            out.push(self.data[self.pos + i]);
            i = i + 1;
            proof {
                assert(out@ =~= self.data@.subrange(self.pos as int, self.pos + i));
            }
        }
        self.pos = self.pos + length;
        Ok(out)
    }

    /// Writes one byte at the cursor and advances past it.
    pub fn write_u8(&mut self, value: u8) -> (r: Result<(), RomError>)
        ensures
            match r {
                Ok(()) => {
                    &&& old(self).position() + 1 <= old(self).bytes().len()
                    &&& final(self).bytes() == old(self).bytes().update(old(self).position(), value)
                    &&& final(self).position() == old(self).position() + 1
                },
                Err(e) => {
                    &&& old(self).position() + 1 > old(self).bytes().len()
                    &&& e == RomError::OutOfBoundsError(old(self).position() as usize)
                    &&& final(self).bytes() == old(self).bytes()
                    &&& final(self).position() == old(self).position()
                },
            },
    {
        proof {
            use_type_invariant(&*self);
        }
        if self.data.len() - self.pos < 1 {
            return Err(RomError::OutOfBoundsError(self.pos));
        }
        self.data[self.pos] = value;
        self.pos = self.pos + 1;
        Ok(())
    }

    /// Writes two little-endian bytes at the cursor and advances past them.
    pub fn write_u16(&mut self, value: u16) -> (r: Result<(), RomError>)
        ensures
            match r {
                Ok(()) => {
                    &&& old(self).position() + 2 <= old(self).bytes().len()
                    &&& final(self).bytes() == spec_write_le16(
                        old(self).bytes(),
                        old(self).position(),
                        value,
                    )
                    &&& final(self).position() == old(self).position() + 2
                },
                Err(e) => {
                    &&& old(self).position() + 2 > old(self).bytes().len()
                    &&& e == RomError::OutOfBoundsError((old(self).position() + 1) as usize)
                    &&& final(self).bytes() == old(self).bytes()
                    &&& final(self).position() == old(self).position()
                },
            },
    {
        proof {
            use_type_invariant(&*self);
        }
        if self.data.len() - self.pos < 2 {
            return Err(RomError::OutOfBoundsError(self.pos + 1));
        }
        self.data[self.pos] = (value & 0x00FF) as u8;
        self.data[self.pos + 1] = ((value & 0xFF00) >> 8) as u8;
        self.pos = self.pos + 2;
        proof {
            assert((value & 0x00FF) == (value & 0xFF) && ((value & 0xFF00) >> 8) == ((value >> 8)
                & 0xFF)) by (bit_vector);
        }
        Ok(())
    }

    /// Writes four little-endian bytes at the cursor and advances past them.
    pub fn write_u32(&mut self, value: u32) -> (r: Result<(), RomError>)
        ensures
            match r {
                Ok(()) => {
                    &&& old(self).position() + 4 <= old(self).bytes().len()
                    &&& final(self).bytes() == spec_write_le32(
                        old(self).bytes(),
                        old(self).position(),
                        value,
                    )
                    &&& final(self).position() == old(self).position() + 4
                },
                Err(e) => {
                    &&& old(self).position() + 4 > old(self).bytes().len()
                    &&& e == RomError::OutOfBoundsError((old(self).position() + 3) as usize)
                    &&& final(self).bytes() == old(self).bytes()
                    &&& final(self).position() == old(self).position()
                },
            },
    {
        proof {
            use_type_invariant(&*self);
        }
        if self.data.len() - self.pos < 4 {
            return Err(RomError::OutOfBoundsError(self.pos + 3));
        }
        self.data[self.pos] = (value & 0x000000FF) as u8;
        self.data[self.pos + 1] = ((value & 0x0000FF00) >> 8) as u8;
        self.data[self.pos + 2] = ((value & 0x00FF0000) >> 16) as u8;
        self.data[self.pos + 3] = ((value & 0xFF000000) >> 24) as u8;
        self.pos = self.pos + 4;
        proof {
            assert((value & 0x000000FF) == (value & 0xFF) && ((value & 0x0000FF00) >> 8) == ((value
                >> 8) & 0xFF) && ((value & 0x00FF0000) >> 16) == ((value >> 16) & 0xFF) && ((value
                & 0xFF000000) >> 24) == ((value >> 24) & 0xFF)) by (bit_vector);
        }
        Ok(())
    }

    /// Chases the bank and map tables to the header of map `map_num` of
    /// bank `bank_num` and leaves the cursor there.
    fn seek_to_map(&mut self, bank_num: usize, map_num: usize) -> (r: Result<(), RomError>)
        requires
            4 * bank_num + 0x2000000 <= usize::MAX,
            4 * map_num + 0x2000000 <= usize::MAX,
        ensures
            final(self).bytes() == old(self).bytes(),
            match spec_seek_to_map(old(self).bytes(), bank_num, map_num) {
                Ok(p) => r is Ok && final(self).position() == p,
                Err(e) => r == Err::<(), RomError>(e),
            },
    {
        match self.seek_to(MAP_BANK_TABLE_POINTER) {
            Ok(()) => {},
            Err(e) => {
                return Err(e);
            },
        }
        let a1 = match self.read_address() {
            Ok(v) => v,
            Err(e) => {
                return Err(e);
            },
        };
        let bank_addr_pointer = a1 + bank_num * 4;
        match self.seek_to(bank_addr_pointer) {
            Ok(()) => {},
            Err(e) => {
                return Err(e);
            },
        }
        let a2 = match self.read_address() {
            Ok(v) => v,
            Err(e) => {
                return Err(e);
            },
        };
        let map_addr_pointer = a2 + map_num * 4;
        match self.seek_to(map_addr_pointer) {
            Ok(()) => {},
            Err(e) => {
                return Err(e);
            },
        }
        self.seek_to_address_read()
    }

    /// Looks the map header of `(bank_num, map_num)` up through the bank
    /// and map tables and decodes it.
    pub fn get_map_header(&mut self, bank_num: usize, map_num: usize) -> (r: Result<
        MapHeader,
        Error,
    >)
        requires
            4 * bank_num + 0x2000000 <= usize::MAX,
            4 * map_num + 0x2000000 <= usize::MAX,
        ensures
            final(self).bytes() == old(self).bytes(),
            match spec_seek_to_map(old(self).bytes(), bank_num, map_num) {
                Err(e) => r == Err::<MapHeader, Error>(spec_rom_error(e)),
                Ok(p) => r == spec_read_map_header(old(self).bytes(), p, bank_num, map_num),
            },
    {
        match self.seek_to_map(bank_num, map_num) {
            Ok(()) => {},
            Err(e) => {
                return Err(Error::from(e));
            },
        }
        let address = self.pos;
        MapHeader::read(address, self, bank_num, map_num)
    }

    /// Walks every bank and map of the bank table and lists, per bank,
    /// the position of each map's header written in hexadecimal.
    pub fn get_map_banks_names(&mut self) -> (r: Result<Vec<Vec<String>>, RomError>)
        ensures
            final(self).bytes() == old(self).bytes(),
            match r {
                Ok(v) => spec_banks_names(old(self).bytes(), 0) == Ok::<
                    Seq<Seq<Seq<char>>>,
                    RomError,
                >(v.deep_view()),
                Err(e) => spec_banks_names(old(self).bytes(), 0) == Err::<
                    Seq<Seq<Seq<char>>>,
                    RomError,
                >(e),
            },
    {
        let ghost data = old(self).bytes();
        let ghost full = spec_banks_names(data, 0);
        let mut banks: Vec<Vec<String>> = Vec::new();
        let mut bank: usize = 0;
        proof {
            assert(banks.deep_view() =~~= Seq::<Seq<Seq<char>>>::empty());
        }
        while bank < NUM_MAP_BANKS
            invariant
                bank <= NUM_MAP_BANKS,
                self.bytes() == data,
                old(self).bytes() == data,
                full == spec_banks_names(data, 0),
                match spec_banks_names(data, bank as nat) {
                    Ok(rest) => full == Ok::<Seq<Seq<Seq<char>>>, RomError>(
                        banks.deep_view() + rest,
                    ),
                    Err(e) => full == Err::<Seq<Seq<Seq<char>>>, RomError>(e),
                },
            decreases NUM_MAP_BANKS - bank,
        {
            let size = bank_size(bank) as usize;
            let mut names: Vec<String> = Vec::new();
            let mut map: usize = 0;
            proof {
                assert(names.deep_view() =~~= Seq::<Seq<char>>::empty());
                assert(Seq::<Seq<char>>::empty() + spec_map_names(data, bank as nat, 0)->Ok_0
                    =~~= spec_map_names(data, bank as nat, 0)->Ok_0);
            }
            while map < size
                invariant
                    map <= size,
                    bank < NUM_MAP_BANKS,
                    size == spec_bank_size(bank as int),
                    self.bytes() == data,
                    old(self).bytes() == data,
                    full == spec_banks_names(data, 0),
                    match spec_banks_names(data, bank as nat) {
                        Ok(rest) => full == Ok::<Seq<Seq<Seq<char>>>, RomError>(
                            banks.deep_view() + rest,
                        ),
                        Err(e) => full == Err::<Seq<Seq<Seq<char>>>, RomError>(e),
                    },
                    match spec_map_names(data, bank as nat, map as nat) {
                        Ok(rest) => spec_map_names(data, bank as nat, 0) matches Ok(whole)
                            && whole =~~= names.deep_view() + rest,
                        Err(e) => spec_map_names(data, bank as nat, 0) == Err::<
                            Seq<Seq<char>>,
                            RomError,
                        >(e),
                    },
                decreases size - map,
            {
                match self.seek_to_map(bank, map) {
                    Ok(()) => {},
                    Err(e) => {
                        return Err(e);
                    },
                }
                let name = hex_string(self.pos);
                let ghost names_pre = names.deep_view();
                let ghost names_seq_pre = names@;
                names.push(name);
                proof {
                    assert(names.deep_view() =~~= names_pre.push(
                        spec_hex_str(self.position() as nat),
                    )) by {
                        assert forall|i: int| 0 <= i < names@.len() implies names.deep_view()[i]
                            == names_pre.push(spec_hex_str(self.position() as nat))[i] by {
                            assert(names.deep_view()[i] == names@[i].deep_view());
                            if i < names_seq_pre.len() {
                                assert(names@[i] == names_seq_pre[i]);
                                assert(names_pre[i] == names_seq_pre[i].deep_view());
                            }
                        }
                    }
                    match spec_map_names(data, bank as nat, (map + 1) as nat) {
                        Ok(rest) => {
                            assert(names.deep_view() + rest =~~= names_pre + (seq![
                                spec_hex_str(self.position() as nat),
                            ] + rest));
                        },
                        Err(_) => {},
                    }
                }
                map = map + 1;
            }
            let ghost banks_pre = banks.deep_view();
            let ghost banks_seq_pre = banks@;
            let ghost names_final = names.deep_view();
            proof {
                assert(spec_map_names(data, bank as nat, size as nat) == Ok::<
                    Seq<Seq<char>>,
                    RomError,
                >(Seq::empty()));
                assert(names.deep_view() + Seq::<Seq<char>>::empty() =~~= names.deep_view());
            }
            banks.push(names);
            proof {
                assert(banks.deep_view() =~~= banks_pre.push(names_final)) by {
                    assert forall|i: int| 0 <= i < banks@.len() implies banks.deep_view()[i]
                        == banks_pre.push(names_final)[i] by {
                        assert(banks.deep_view()[i] == banks@[i].deep_view());
                        if i < banks_seq_pre.len() {
                            assert(banks@[i] == banks_seq_pre[i]);
                            assert(banks_pre[i] == banks_seq_pre[i].deep_view());
                        }
                    }
                }
                match spec_banks_names(data, (bank + 1) as nat) {
                    Ok(rest) => {
                        assert(banks.deep_view() + rest =~~= banks_pre + (seq![names_final]
                            + rest));
                    },
                    Err(_) => {},
                }
            }
            bank = bank + 1;
        }
        proof {
            assert(spec_banks_names(data, NUM_MAP_BANKS as nat) == Ok::<
                Seq<Seq<Seq<char>>>,
                RomError,
            >(Seq::empty()));
            assert(banks.deep_view() + Seq::<Seq<Seq<char>>>::empty() =~~= banks.deep_view());
        }
        Ok(banks)
    }
}


/// The hexadecimal digits of `n` left-padded with zeros to at least
/// `width` characters.
pub open spec fn spec_hex_pad(n: nat, width: nat) -> Seq<char>
    decreases n, width,
{
    if n < 16 && width <= 1 {
        seq![spec_hex_digit(n as int)]
    } else {
        spec_hex_pad(n / 16, if width == 0 {
            0
        } else {
            (width - 1) as nat
        }).push(spec_hex_digit((n % 16) as int))
    }
}

/// Appends the hexadecimal digits of `n`, zero-padded to at least `width`
/// characters, to `s`.
fn push_hex_pad(n: usize, width: usize, s: &mut String)
    ensures
        final(s)@ == old(s)@ + spec_hex_pad(n as nat, width as nat),
    decreases n, width,
{
    let ghost s0 = old(s)@;
    if n >= 16 || width > 1 {
        push_hex_pad(n / 16, if width == 0 {
            0
        } else {
            width - 1
        }, s);
    }
    let c = hex_digit_str(n % 16);
    s.append(c);
    proof {
        assert(s@ =~= s0 + spec_hex_pad(n as nat, width as nat));
    }
}

/// What a cursor error reads as: the failed operation and the offending
/// offset, written in hexadecimal.
pub open spec fn spec_rom_error_message(e: RomError) -> Seq<char> {
    match e {
        RomError::SeekToNullError => "Cannot seek to null address!"@,
        RomError::OutOfBoundsError(a) => "Cannot access address at "@ + seq!['0', 'x']
            + spec_hex_pad(a as nat, 6) + " (out of bounds)!"@,
        RomError::InvalidAddress(a, v) => "Cannot read \""@ + spec_hex_pad((v & 0xFF) as nat, 2)
            + seq![' '] + spec_hex_pad(((v >> 8) & 0xFF) as nat, 2) + seq![' '] + spec_hex_pad(
            ((v >> 16) & 0xFF) as nat,
            2,
        ) + seq![' '] + spec_hex_pad(((v >> 24) & 0xFF) as nat, 2) + "\" at "@ + seq!['0', 'x']
            + spec_hex_pad(a as nat, 6) + " as address!"@,
    }
}

impl RomError {
    /// The error as readable text.
    pub fn message(&self) -> (r: String)
        ensures
            r@ == spec_rom_error_message(*self),
    {
        let mut s = String::new();
        match *self {
            RomError::SeekToNullError => {
                proof {
                    reveal_strlit("Cannot seek to null address!");
                }
                s.append("Cannot seek to null address!");
            },
            RomError::OutOfBoundsError(a) => {
                proof {
                    reveal_strlit("Cannot access address at ");
                    reveal_strlit("0x");
                    reveal_strlit(" (out of bounds)!");
                }
                s.append("Cannot access address at ");
                s.append("0x");
                push_hex_pad(a, 6, &mut s);
                s.append(" (out of bounds)!");
            },
            RomError::InvalidAddress(a, v) => {
                proof {
                    reveal_strlit("Cannot read \"");
                    reveal_strlit(" ");
                    reveal_strlit("\" at ");
                    reveal_strlit("0x");
                    reveal_strlit(" as address!");
                }
                s.append("Cannot read \"");
                push_hex_pad((v & 0xFF) as usize, 2, &mut s);
                s.append(" ");
                push_hex_pad(((v >> 8) & 0xFF) as usize, 2, &mut s);
                s.append(" ");
                push_hex_pad(((v >> 16) & 0xFF) as usize, 2, &mut s);
                s.append(" ");
                push_hex_pad(((v >> 24) & 0xFF) as usize, 2, &mut s);
                s.append("\" at ");
                s.append("0x");
                push_hex_pad(a, 6, &mut s);
                s.append(" as address!");
            },
        }
        proof {
            assert(s@ =~= spec_rom_error_message(*self));
        }
        s
    }
}

/// What seeking to the header of map `map_num` of bank `bank_num` yields:
/// the bank table's address is read behind `MAP_BANK_TABLE_POINTER`, the
/// bank's slot picks the map table, the map's slot picks the header, and
/// the position of the header is the result.
pub open spec fn spec_seek_to_map(data: Seq<u8>, bank_num: usize, map_num: usize) -> Result<
    usize,
    RomError,
> {
    match spec_seek(data.len(), MAP_BANK_TABLE_POINTER) {
        Err(e) => Err(e),
        Ok(p0) => match spec_read_address_at(data, p0 as int) {
            Err(e) => Err(e),
            Ok(a1) => match spec_seek(data.len(), (a1 + bank_num * 4) as usize) {
                Err(e) => Err(e),
                Ok(p1) => match spec_read_address_at(data, p1 as int) {
                    Err(e) => Err(e),
                    Ok(a2) => match spec_seek(data.len(), (a2 + map_num * 4) as usize) {
                        Err(e) => Err(e),
                        Ok(p2) => match spec_read_address_at(data, p2 as int) {
                            Err(e) => Err(e),
                            Ok(a3) => spec_seek(data.len(), a3),
                        },
                    },
                },
            },
        },
    }
}


/// Number of map banks in this cartridge revision.
pub const NUM_MAP_BANKS: usize = 43;

/// How many maps each bank holds in this cartridge revision; banks past
/// the table hold none.
pub open spec fn spec_bank_size(bank: int) -> u8 {
    if bank == 0 {
        5
    } else if bank == 1 {
        123
    } else if bank == 2 {
        60
    } else if bank == 3 {
        66
    } else if bank == 4 {
        4
    } else if bank == 5 {
        6
    } else if bank == 6 {
        8
    } else if bank == 7 {
        10
    } else if bank == 8 {
        6
    } else if bank == 9 {
        8
    } else if bank == 10 {
        20
    } else if bank == 11 {
        10
    } else if bank == 12 {
        8
    } else if bank == 13 {
        2
    } else if bank == 14 {
        10
    } else if bank == 15 {
        4
    } else if bank == 16 {
        2
    } else if bank == 17 {
        2
    } else if bank == 18 {
        2
    } else if bank == 19 {
        1
    } else if bank == 20 {
        1
    } else if bank == 21 {
        2
    } else if bank == 22 {
        2
    } else if bank == 23 {
        3
    } else if bank == 24 {
        2
    } else if bank == 25 {
        3
    } else if bank == 26 {
        2
    } else if bank == 27 {
        1
    } else if bank == 28 {
        1
    } else if bank == 29 {
        1
    } else if bank == 30 {
        1
    } else if bank == 31 {
        7
    } else if bank == 32 {
        5
    } else if bank == 33 {
        5
    } else if bank == 34 {
        8
    } else if bank == 35 {
        8
    } else if bank == 36 {
        5
    } else if bank == 37 {
        5
    } else if bank == 38 {
        1
    } else if bank == 39 {
        1
    } else if bank == 40 {
        1
    } else if bank == 41 {
        2
    } else if bank == 42 {
        1
    } else {
        0
    }
}

/// Executable twin of `spec_bank_size`.
fn bank_size(bank: usize) -> (n: u8)
    ensures
        n == spec_bank_size(bank as int),
{
    match bank {
        0 => 5,
        1 => 123,
        2 => 60,
        3 => 66,
        4 => 4,
        5 => 6,
        6 => 8,
        7 => 10,
        8 => 6,
        9 => 8,
        10 => 20,
        11 => 10,
        12 => 8,
        13 => 2,
        14 => 10,
        15 => 4,
        16 => 2,
        17 => 2,
        18 => 2,
        19 => 1,
        20 => 1,
        21 => 2,
        22 => 2,
        23 => 3,
        24 => 2,
        25 => 3,
        26 => 2,
        27 => 1,
        28 => 1,
        29 => 1,
        30 => 1,
        31 => 7,
        32 => 5,
        33 => 5,
        34 => 8,
        35 => 8,
        36 => 5,
        37 => 5,
        38 => 1,
        39 => 1,
        40 => 1,
        41 => 2,
        42 => 1,
        _ => 0,
    }
}

/// The lower-case hexadecimal digit of a value below sixteen.
pub open spec fn spec_hex_digit(d: int) -> char {
    if d == 0 {
        '0'
    } else if d == 1 {
        '1'
    } else if d == 2 {
        '2'
    } else if d == 3 {
        '3'
    } else if d == 4 {
        '4'
    } else if d == 5 {
        '5'
    } else if d == 6 {
        '6'
    } else if d == 7 {
        '7'
    } else if d == 8 {
        '8'
    } else if d == 9 {
        '9'
    } else if d == 10 {
        'a'
    } else if d == 11 {
        'b'
    } else if d == 12 {
        'c'
    } else if d == 13 {
        'd'
    } else if d == 14 {
        'e'
    } else {
        'f'
    }
}

/// The lower-case hexadecimal digits of `n`, most significant first,
/// without leading zeros (zero itself is "0").
pub open spec fn spec_hex_digits(n: nat) -> Seq<char>
    decreases n,
{
    if n < 16 {
        seq![spec_hex_digit(n as int)]
    } else {
        spec_hex_digits(n / 16).push(spec_hex_digit((n % 16) as int))
    }
}

/// `n` written as "0x" followed by its hexadecimal digits.
pub open spec fn spec_hex_str(n: nat) -> Seq<char> {
    seq!['0', 'x'] + spec_hex_digits(n)
}

/// One hexadecimal digit as a string slice.
fn hex_digit_str(d: usize) -> (c: &'static str)
    requires
        d < 16,
    ensures
        c@ == seq![spec_hex_digit(d as int)],
{
    if d == 0 {
        proof {
            reveal_strlit("0");
        }
        "0"
    } else if d == 1 {
        proof {
            reveal_strlit("1");
        }
        "1"
    } else if d == 2 {
        proof {
            reveal_strlit("2");
        }
        "2"
    } else if d == 3 {
        proof {
            reveal_strlit("3");
        }
        "3"
    } else if d == 4 {
        proof {
            reveal_strlit("4");
        }
        "4"
    } else if d == 5 {
        proof {
            reveal_strlit("5");
        }
        "5"
    } else if d == 6 {
        proof {
            reveal_strlit("6");
        }
        "6"
    } else if d == 7 {
        proof {
            reveal_strlit("7");
        }
        "7"
    } else if d == 8 {
        proof {
            reveal_strlit("8");
        }
        "8"
    } else if d == 9 {
        proof {
            reveal_strlit("9");
        }
        "9"
    } else if d == 10 {
        proof {
            reveal_strlit("a");
        }
        "a"
    } else if d == 11 {
        proof {
            reveal_strlit("b");
        }
        "b"
    } else if d == 12 {
        proof {
            reveal_strlit("c");
        }
        "c"
    } else if d == 13 {
        proof {
            reveal_strlit("d");
        }
        "d"
    } else if d == 14 {
        proof {
            reveal_strlit("e");
        }
        "e"
    } else {
        proof {
            reveal_strlit("f");
        }
        "f"
    }
}

/// Appends the hexadecimal digits of `n` to `s`.
fn push_hex_digits(n: usize, s: &mut String)
    ensures
        final(s)@ == old(s)@ + spec_hex_digits(n as nat),
    decreases n,
{
    let ghost s0 = old(s)@;
    if n >= 16 {
        push_hex_digits(n / 16, s);
    }
    let c = hex_digit_str(n % 16);
    s.append(c);
    proof {
        if n >= 16 {
            assert(s@ =~= s0 + spec_hex_digits(n as nat));
        } else {
            assert(s@ =~= s0 + spec_hex_digits(n as nat));
        }
    }
}

/// `n` formatted as a lower-case hexadecimal string with a "0x" prefix.
pub(crate) fn hex_string(n: usize) -> (s: String)
    ensures
        s@ == spec_hex_str(n as nat),
{
    let mut s = String::new();
    proof {
        reveal_strlit("0x");
    }
    s.append("0x");
    push_hex_digits(n, &mut s);
    proof {
        assert(s@ =~= spec_hex_str(n as nat));
    }
    s
}

/// What listing one bank's maps yields, from map index `map` on: the
/// position of each map's header, written in hexadecimal.
pub open spec fn spec_map_names(data: Seq<u8>, bank: nat, map: nat) -> Result<
    Seq<Seq<char>>,
    RomError,
>
    decreases spec_bank_size(bank as int) - map,
{
    if map >= spec_bank_size(bank as int) {
        Ok(Seq::empty())
    } else {
        match spec_seek_to_map(data, bank as usize, map as usize) {
            Err(e) => Err(e),
            Ok(p) => match spec_map_names(data, bank, map + 1) {
                Err(e) => Err(e),
                Ok(rest) => Ok(seq![spec_hex_str(p as nat)] + rest),
            },
        }
    }
}

/// What listing all banks yields, from bank index `bank` on.
pub open spec fn spec_banks_names(data: Seq<u8>, bank: nat) -> Result<
    Seq<Seq<Seq<char>>>,
    RomError,
>
    decreases NUM_MAP_BANKS - bank,
{
    if bank >= NUM_MAP_BANKS {
        Ok(Seq::empty())
    } else {
        match spec_map_names(data, bank, 0) {
            Err(e) => Err(e),
            Ok(names) => match spec_banks_names(data, bank + 1) {
                Err(e) => Err(e),
                Ok(rest) => Ok(seq![names] + rest),
            },
        }
    }
}

/// The virtual-to-physical agreement behind seeking: for every address in
/// the virtual-pointer range whose translated offset is nonzero, a seek to
/// the virtual address and a seek to the translated physical offset succeed
/// on exactly the same buffers, land on the same position, and a scalar
/// read at that position then returns the same bytes either way.
pub proof fn lemma_seek_virtual_matches_physical(data: Seq<u8>, address: usize)
    requires
        spec_in_virtual_range(address),
        spec_translate(address) != 0,
    ensures
        spec_seek(data.len(), address) is Ok <==> spec_seek(
            data.len(),
            spec_translate(address),
        ) is Ok,
        spec_seek(data.len(), address) is Ok ==> {
            &&& spec_seek(data.len(), address) == spec_seek(data.len(), spec_translate(address))
            &&& spec_read_u8_at(data, spec_seek(data.len(), address)->Ok_0 as int)
                == spec_read_u8_at(
                data,
                spec_seek(data.len(), spec_translate(address))->Ok_0 as int,
            )
            &&& spec_read_u16_at(data, spec_seek(data.len(), address)->Ok_0 as int)
                == spec_read_u16_at(
                data,
                spec_seek(data.len(), spec_translate(address))->Ok_0 as int,
            )
            &&& spec_read_u32_at(data, spec_seek(data.len(), address)->Ok_0 as int)
                == spec_read_u32_at(
                data,
                spec_seek(data.len(), spec_translate(address))->Ok_0 as int,
            )
        },
{
    assert(!spec_in_virtual_range(spec_translate(address)));
}

/// Null and out-of-range seeking: address zero always fails as null, and an
/// address at or past the end of the buffer that is not a virtual pointer
/// always fails as out of bounds. (A virtual address is excluded: it is
/// compared against the buffer only after translation.)
pub proof fn lemma_seek_rejects_null_and_out_of_bounds(len: nat, address: usize)
    ensures
        address == 0 ==> spec_seek(len, address) == Err::<usize, RomError>(
            RomError::SeekToNullError,
        ),
        address != 0 && !spec_in_virtual_range(address) && address >= len ==> spec_seek(
            len,
            address,
        ) == Err::<usize, RomError>(RomError::OutOfBoundsError(address)),
{
}

} // verus!
