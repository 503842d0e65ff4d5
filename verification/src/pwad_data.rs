//! The reference catalog of recognised add-on archives.

use vstd::prelude::*;
use crate::iwad_data::{
    find_row, first_match, has_row, row_for, distinct_keys, lemma_first_match_exists,
    lemma_row_found, lemma_title_is_single, spec_lookup_primary, CatalogRow, IWadID, IWAD_HASHMAP,
    UDOOM,
};

verus! {

/// What the catalog knows of one recognised add-on archive.
#[derive(Clone, Copy, Debug)]
pub struct PWadData {
    /// The title that the add-on belongs to.
    pub id: IWadID,
    pub name: &'static str,
    pub description: &'static str,
}

impl PWadData {
    pub fn id(&self) -> (id: IWadID)
        ensures
            id == self.id,
    {
        self.id
    }

    pub fn name(&self) -> (name: &str)
        ensures
            name == self.name,
    {
        self.name
    }

    pub fn description(&self) -> (description: &str)
        ensures
            description == self.description,
    {
        self.description
    }
}

/// The recognised add-on archives, keyed by checksum.
pub const PWAD_HASHMAP: [CatalogRow; 3] = [
    (0xf9216574, UDOOM, "SIGIL", "SIGIL main PWAD"),
    (0xb7679050, UDOOM, "SIGIL", "SIGIL compatibility PWAD"),
    (0xd210db36, UDOOM, "SIGIL II", "SIGIL II main PWAD"),
];

/// The catalog entry that a row stands for.
pub open spec fn pwad_of_row(row: CatalogRow) -> PWadData {
    PWadData { id: IWadID { bits: row.1 }, name: row.2, description: row.3 }
}

/// The add-on archive with the given checksum, if the catalog has one.
pub open spec fn spec_lookup_addon(checksum: u32) -> Option<PWadData> {
    if has_row(PWAD_HASHMAP@, checksum) {
        Some(pwad_of_row(row_for(PWAD_HASHMAP@, checksum)))
    } else {
        None
    }
}

/// Identifies an add-on archive by the checksum of its content.
pub fn lookup_addon(checksum: u32) -> (found: Option<PWadData>)
    ensures
        found == spec_lookup_addon(checksum),
        found is Some ==> found->0.id.is_title(),
{
    match find_row(PWAD_HASHMAP.as_slice(), checksum) {
        Some(row) => {
            proof {
                lemma_addon_is_title(checksum);
            }
            Some(PWadData { id: IWadID { bits: row.1 }, name: row.2, description: row.3 })
        },
        None => None,
    }
}

/// An add-on archive that the catalog identifies belongs to exactly one
/// title, which is a single bit.
pub proof fn lemma_addon_is_title(checksum: u32)
    ensures
        spec_lookup_addon(checksum) matches Some(data) ==> data.id.is_title()
            && data.id.is_single(),
{
    if has_row(PWAD_HASHMAP@, checksum) {
        let w = choose|i: int| 0 <= i < PWAD_HASHMAP@.len() && PWAD_HASHMAP@[i].0 == checksum;
        lemma_first_match_exists(PWAD_HASHMAP@, checksum, w);
        let i = choose|i: int| first_match(PWAD_HASHMAP@, checksum, i);
        let id = IWadID { bits: PWAD_HASHMAP@[i].1 };
        assert(id.bits == UDOOM);
        lemma_title_is_single(id);
    }
}

/// No checksum stands for two add-on archives.
pub proof fn lemma_addon_keys_distinct()
    ensures
        distinct_keys(PWAD_HASHMAP@),
{
}

/// Each row of the catalog of add-on archives is what its own checksum
/// identifies.
pub proof fn lemma_addon_row_found(i: int)
    requires
        0 <= i < PWAD_HASHMAP@.len(),
    ensures
        spec_lookup_addon(PWAD_HASHMAP@[i].0) == Some(pwad_of_row(PWAD_HASHMAP@[i])),
{
    lemma_addon_keys_distinct();
    lemma_row_found(PWAD_HASHMAP@, i);
}

/// No checksum is both a primary archive and an add-on: the two catalogs
/// never identify the same content.
pub proof fn lemma_catalogs_disjoint(checksum: u32)
    ensures
        !(spec_lookup_primary(checksum) is Some && spec_lookup_addon(checksum) is Some),
{
    if has_row(PWAD_HASHMAP@, checksum) && has_row(IWAD_HASHMAP@, checksum) {
        let i = choose|i: int| 0 <= i < IWAD_HASHMAP@.len() && IWAD_HASHMAP@[i].0 == checksum;
        let j = choose|j: int| 0 <= j < PWAD_HASHMAP@.len() && PWAD_HASHMAP@[j].0 == checksum;
        assert(IWAD_HASHMAP@[i].0 != PWAD_HASHMAP@[j].0);
    }
}

} // verus!
