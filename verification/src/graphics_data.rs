//! High-resolution replacement graphics: which asset files belong to which
//! title.

use vstd::prelude::*;
use crate::iwad_data::{IWadID, DOOM, DOOM2, HERETIC, HEXEN, PLUTONIA, TNT, UDOOM};

verus! {

/// The folder that holds the asset files.
pub const GRAPHICS_PATH: &'static str = "/usr/share/d-launcher/graphics/";

/// One asset file of a title; a title's files are loaded in table order.
pub type GraphicsRow = (u32, &'static str);

/// The asset files of each title that has any.
pub const GRAPHICS_MAP: [GraphicsRow; 37] = [
    (UDOOM, "hires-doom-a.pk3"),
    (UDOOM, "hires-doom-b.pk3"),
    (UDOOM, "objects.pk3"),
    (UDOOM, "monsters.pk3"),
    (UDOOM, "jfo-udoom.pk3"),
    (UDOOM, "hud-stuff.pk3"),
    (DOOM, "hires-doom-a.pk3"),
    (DOOM, "hires-doom-b.pk3"),
    (DOOM, "objects.pk3"),
    (DOOM, "monsters.pk3"),
    (DOOM, "jfo-doom.pk3"),
    (DOOM, "hud-stuff.pk3"),
    (DOOM2, "hires-doom-a.pk3"),
    (DOOM2, "hires-doom-b.pk3"),
    (DOOM2, "hires-doom2.pk3"),
    (DOOM2, "objects.pk3"),
    (DOOM2, "monsters.pk3"),
    (DOOM2, "jfo-doom2.pk3"),
    (DOOM2, "hud-stuff.pk3"),
    (PLUTONIA, "hires-doom-a.pk3"),
    (PLUTONIA, "hires-doom-b.pk3"),
    (PLUTONIA, "hires-doom2.pk3"),
    (PLUTONIA, "hires-plut.pk3"),
    (PLUTONIA, "objects.pk3"),
    (PLUTONIA, "monsters.pk3"),
    (PLUTONIA, "jfo-plut.pk3"),
    (PLUTONIA, "hud-stuff.pk3"),
    (TNT, "hires-doom-a.pk3"),
    (TNT, "hires-doom-b.pk3"),
    (TNT, "hires-doom2.pk3"),
    (TNT, "hires-tnt.pk3"),
    (TNT, "objects.pk3"),
    (TNT, "monsters.pk3"),
    (TNT, "jfo-tnt.pk3"),
    (TNT, "hud-stuff.pk3"),
    (HERETIC, "hires-heretic.pk3"),
    (HEXEN, "hires-hexen.pk3"),
];

/// The asset files registered for exactly the title `variant`, in table
/// order; empty where none is registered.
pub open spec fn bundle_of(rows: Seq<GraphicsRow>, variant: IWadID) -> Seq<&'static str> {
    rows.filter(|row: GraphicsRow| row.0 == variant.bits).map_values(|row: GraphicsRow| row.1)
}

/// The asset files of `variant` in the table of this library.
pub open spec fn spec_hires_files(variant: IWadID) -> Seq<&'static str> {
    bundle_of(GRAPHICS_MAP@, variant)
}

/// Lists the asset files registered for the title `variant`.
pub fn hires_files(variant: IWadID) -> (files: Vec<&'static str>)
    ensures
        files@ == spec_hires_files(variant),
{
    let mut files: Vec<&'static str> = Vec::new();
    let ghost rows = GRAPHICS_MAP@;
    let ghost wanted = |row: GraphicsRow| row.0 == variant.bits;
    let ghost name = |row: GraphicsRow| row.1;
    let mut i: usize = 0;
    proof {
        reveal(Seq::filter);
        assert(rows.take(0) =~= Seq::<GraphicsRow>::empty());
    }
    while i < GRAPHICS_MAP.len()
        invariant
            i <= rows.len(),
            rows == GRAPHICS_MAP@,
            wanted == |row: GraphicsRow| row.0 == variant.bits,
            name == |row: GraphicsRow| row.1,
            files@ == rows.take(i as int).filter(wanted).map_values(name),
        decreases GRAPHICS_MAP.len() - i,
    {
        let row = GRAPHICS_MAP[i];
        proof {
            reveal(Seq::filter);
            assert(rows.take(i + 1).drop_last() =~= rows.take(i as int));
            assert(rows.take(i + 1).last() == row);
        }
        if row.0 == variant.bits {
            files.push(row.1);
            assert(files@ =~= rows.take(i + 1).filter(wanted).map_values(name));
        }
        i = i + 1;
    }
    assert(rows.take(i as int) =~= rows);
    files
}

/// Every row of the table belongs to exactly one title.
pub proof fn lemma_graphics_rows_are_titles()
    ensures
        forall|i: int|
            0 <= i < GRAPHICS_MAP@.len() ==> (IWadID { bits: (#[trigger] GRAPHICS_MAP@[i]).0 }).is_title(),
{
}

} // verus!
