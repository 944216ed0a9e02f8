//! Entry counts of the fixed-size encounter tables, by kind. The three
//! fishing-rod kinds share one physical array, distinguished by offset.

use vstd::prelude::*;

verus! {

/// Entries in a grass encounter table.
pub const ENCOUNTER_TABLE_SIZE_GRASS: usize = 12;

/// Entries in a surf encounter table.
pub const ENCOUNTER_TABLE_SIZE_SURF: usize = 5;

/// Entries in a rock-smash encounter table.
pub const ENCOUNTER_TABLE_SIZE_ROCK_SMASH: usize = 5;

/// Entries in the old-rod slice of the fishing table.
pub const ENCOUNTER_TABLE_SIZE_OLD_ROD: usize = 2;

/// Entries in the good-rod slice of the fishing table.
pub const ENCOUNTER_TABLE_SIZE_GOOD_ROD: usize = 3;

/// Entries in the super-rod slice of the fishing table.
pub const ENCOUNTER_TABLE_SIZE_SUPER_ROD: usize = 5;

} // verus!
