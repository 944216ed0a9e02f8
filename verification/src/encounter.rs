//! Wildlife-encounter records: per-map tables of species with level
//! ranges, located by a pointer-chasing lookup keyed on bank and map.

pub mod constants;
pub mod encounter_entry;
pub mod encounter_table;
pub mod encounter_tables;

pub use self::encounter_entry::EncounterEntry;
pub use self::encounter_table::EncounterTable;
pub use self::encounter_table::EncounterType;
pub use self::encounter_tables::EncounterTables;
