//! The fixed catalog of decoration keys.

use vstd::prelude::*;

verus! {

/// Every decoration key that the economy can hand out.
pub const DECOR_KEYS: [&'static str; 18] = [
    "heart_01",
    "eye_01",
    "cac_01",
    "star_01",
    "paw_01",
    "board_01",
    "board_02",
    "rainbow_01",
    "cat_01",
    "face_01",
    "leaf_01",
    "shroom_01",
    "star_02",
    "lights_01",
    "cac_02",
    "weird_01",
    "char_01",
    "board_03",
];

/// Whether `key` is the text of a catalog entry.
pub open spec fn is_catalog_key(key: Seq<char>) -> bool {
    exists|i: int| 0 <= i < 18 && #[trigger] DECOR_KEYS[i]@ == key
}

} // verus!
