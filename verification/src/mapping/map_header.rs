//! The map header: the two leading pointers of a map's header record,
//! located by bank and map number.

use vstd::prelude::*;

use crate::error::{spec_rom_error, Error};
use crate::mapping::map_layout::{spec_read_layout, MapLayout};
use crate::rom::{spec_read_address_at, spec_seek, Rom};

verus! {

/// A map header: which bank and map it was looked up under, and the
/// addresses of its layout and its events.
#[derive(Clone, Copy, Debug, PartialEq, Eq)]
pub struct MapHeader {
    pub bank_num: usize,
    pub map_num: usize,
    pub layout_addr: usize,
    pub events_addr: usize,
}

/// What reading a map header at `address` yields: two pointer words.
pub open spec fn spec_read_map_header(
    data: Seq<u8>,
    address: usize,
    bank_num: usize,
    map_num: usize,
) -> Result<MapHeader, Error> {
    match spec_seek(data.len(), address) {
        Err(e) => Err(spec_rom_error(e)),
        Ok(p) => match spec_read_address_at(data, p as int) {
            Err(e) => Err(spec_rom_error(e)),
            Ok(layout_addr) => match spec_read_address_at(data, p + 4) {
                Err(e) => Err(spec_rom_error(e)),
                Ok(events_addr) => Ok(MapHeader { bank_num, map_num, layout_addr, events_addr }),
            },
        },
    }
}

impl MapHeader {
    /// Reads the header record at `address`, tagging it with the bank and
    /// map number it was looked up under.
    pub fn read(address: usize, rom: &mut Rom, bank_num: usize, map_num: usize) -> (r: Result<
        MapHeader,
        Error,
    >)
        ensures
            final(rom).bytes() == old(rom).bytes(),
            r == spec_read_map_header(old(rom).bytes(), address, bank_num, map_num),
    {
        match rom.seek_to(address) {
            Ok(()) => {},
            Err(e) => {
                return Err(Error::from(e));
            },
        }
        let layout_addr = match rom.read_address() {
            Ok(v) => v,
            Err(e) => {
                return Err(Error::from(e));
            },
        };
        let events_addr = match rom.read_address() {
            Ok(v) => v,
            Err(e) => {
                return Err(Error::from(e));
            },
        };
        Ok(MapHeader { bank_num, map_num, layout_addr, events_addr })
    }

    /// Reads the layout this header points at.
    pub fn get_map_layout(&self, rom: &mut Rom) -> (r: Result<MapLayout, Error>)
        ensures
            final(rom).bytes() == old(rom).bytes(),
            r == spec_read_layout(old(rom).bytes(), self.layout_addr),
    {
        MapLayout::read(self.layout_addr, rom)
    }
}

} // verus!
