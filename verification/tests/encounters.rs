use gbarom::encounter::{EncounterEntry, EncounterTable, EncounterTables, EncounterType};
use gbarom::rom::Rom;

fn put_u32(data: &mut Vec<u8>, at: usize, v: u32) {
    for k in 0..4 {
        data[at + k] = ((v >> (8 * k)) & 0xFF) as u8;
    }
}

fn put_ptr(data: &mut Vec<u8>, at: usize, target: u32) {
    put_u32(data, at, 0x8000000 + target);
}

/// A buffer whose table-of-tables holds one descriptor for (1, 2) and
/// then the (255, 255) sentinel; grass and fishing tables are populated.
fn build_encounter_buffer() -> Vec<u8> {
    let mut data = vec![0u8; 0x3CA000];
    let base = 0x3C9CB8;
    // descriptor for bank 1, map 2
    data[base] = 1;
    data[base + 1] = 2;
    put_ptr(&mut data, base + 4, 0x1000); // grass
    put_u32(&mut data, base + 8, 0); // surf: none
    put_u32(&mut data, base + 12, 0); // rock smash: none
    put_ptr(&mut data, base + 16, 0x1100); // fishing
    // sentinel
    data[base + 20] = 0xFF;
    data[base + 21] = 0xFF;
    // grass table: rate 7, entries at 0x2000
    put_u32(&mut data, 0x1000, 7);
    put_ptr(&mut data, 0x1004, 0x2000);
    for i in 0..12u8 {
        let at = 0x2000 + 4 * i as usize;
        data[at] = i;
        data[at + 1] = i + 1;
        data[at + 2] = 100 + i;
    }
    // fishing table: rate 9, entries at 0x2100 (old/good/super rod share it)
    put_u32(&mut data, 0x1100, 9);
    put_ptr(&mut data, 0x1104, 0x2100);
    for i in 0..10u8 {
        let at = 0x2100 + 4 * i as usize;
        data[at] = 10 + i;
        data[at + 1] = 20 + i;
        data[at + 2] = 200 + i as u8;
    }
    data
}

#[test]
fn scan_finds_descriptor_before_sentinel() {
    let mut rom = Rom::new(build_encounter_buffer());
    let tables = EncounterTables::get(&mut rom, 1, 2).unwrap().unwrap();
    assert_eq!(tables.bank_num, 1);
    assert_eq!(tables.map_num, 2);
    assert_eq!(tables.grass_address, 0x1000);
    assert_eq!(tables.surf_address, 0);
    assert_eq!(tables.fishing_address, 0x1100);
}

#[test]
fn scan_absent_pair_returns_none() {
    let mut rom = Rom::new(build_encounter_buffer());
    assert_eq!(EncounterTables::get(&mut rom, 9, 9), Ok(None));
}

#[test]
fn grass_table_reads_rate_and_entries() {
    let mut rom = Rom::new(build_encounter_buffer());
    let tables = EncounterTables::get(&mut rom, 1, 2).unwrap().unwrap();
    let table = tables.get_grass_encounter_table(&mut rom).unwrap().unwrap();
    assert_eq!(table.encounter_rate, 7);
    assert_eq!(table.entries_address, 0x2000);
    let entries = table.get_entries(&mut rom).unwrap();
    assert_eq!(entries.len(), 12);
    assert_eq!(
        entries[3],
        EncounterEntry {
            min_level: 3,
            max_level: 4,
            species: 103
        }
    );
}

#[test]
fn null_table_address_means_no_table() {
    let mut rom = Rom::new(build_encounter_buffer());
    let tables = EncounterTables::get(&mut rom, 1, 2).unwrap().unwrap();
    assert_eq!(tables.get_surf_encounter_table(&mut rom), Ok(None));
}

#[test]
fn kind_none_means_no_table() {
    let mut rom = Rom::new(build_encounter_buffer());
    let tables = EncounterTables::get(&mut rom, 1, 2).unwrap().unwrap();
    assert_eq!(
        tables.get_encounter_table(&mut rom, EncounterType::NoEncounter),
        Ok(None)
    );
    assert_eq!(
        EncounterTable::read(0x1000, &mut rom, EncounterType::NoEncounter),
        Ok(None)
    );
}

#[test]
fn rod_kinds_share_the_fishing_array_by_offset() {
    let mut rom = Rom::new(build_encounter_buffer());
    let tables = EncounterTables::get(&mut rom, 1, 2).unwrap().unwrap();
    let old_rod = tables
        .get_old_rod_encounter_table(&mut rom)
        .unwrap()
        .unwrap();
    let good_rod = tables
        .get_good_rod_encounter_table(&mut rom)
        .unwrap()
        .unwrap();
    let super_rod = tables
        .get_super_rod_encounter_table(&mut rom)
        .unwrap()
        .unwrap();
    assert_eq!(old_rod.entries_address, good_rod.entries_address);
    let old_entries = old_rod.get_entries(&mut rom).unwrap();
    let good_entries = good_rod.get_entries(&mut rom).unwrap();
    let super_entries = super_rod.get_entries(&mut rom).unwrap();
    assert_eq!(old_entries.len(), 2);
    assert_eq!(good_entries.len(), 3);
    assert_eq!(super_entries.len(), 5);
    // old rod covers entries 0-1, good rod 2-4, super rod 5-9
    assert_eq!(old_entries[0].min_level, 10);
    assert_eq!(good_entries[0].min_level, 12);
    assert_eq!(super_entries[0].min_level, 15);
    assert_eq!(super_entries[4].species, 209);
}

#[test]
fn entry_writes_back_and_rereads() {
    let mut rom = Rom::new(vec![0u8; 16]);
    let entry = EncounterEntry {
        min_level: 5,
        max_level: 9,
        species: 0x1234,
    };
    entry.write(4, &mut rom).unwrap();
    assert_eq!(EncounterEntry::read(4, &mut rom), Ok(entry));
    assert_eq!(rom.get_data()[4..8], [5, 9, 0x34, 0x12]);
}

#[test]
fn default_encounter_kind_is_none() {
    assert!(matches!(
        EncounterType::default(),
        EncounterType::NoEncounter
    ));
}
