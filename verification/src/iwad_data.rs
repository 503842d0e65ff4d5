//! Game variants and the reference catalog of primary archives.

use vstd::prelude::*;
use crate::text::{ascending, insert_name, join_names, comma_list};

verus! {

/// Folders that are always searched for game data, in search order.
pub const IWAD_PATHS: [&'static str; 4] = [
    "/usr/share/games/doom",
    "/usr/share/games/heretic",
    "/usr/share/games/hexen",
    "/usr/share/games/strife",
];

/// Doom, the releases before The Ultimate Doom.
pub const DOOM: u32 = 0b0000_0000_0000_0001;

/// The Ultimate Doom.
pub const UDOOM: u32 = 0b0000_0000_0000_0010;

/// Doom II.
pub const DOOM2: u32 = 0b0000_0000_0000_0100;

/// Final Doom: The Plutonia Experiment.
pub const PLUTONIA: u32 = 0b0000_0000_0000_1000;

/// Final Doom: TNT: Evilution.
pub const TNT: u32 = 0b0000_0000_0001_0000;

/// FreeDoom, phase 1.
pub const FREEDOOM1: u32 = 0b0000_0000_0010_0000;

/// FreeDoom, phase 2.
pub const FREEDOOM2: u32 = 0b0000_0000_0100_0000;

/// Heretic.
pub const HERETIC: u32 = 0b0000_0000_1000_0000;

/// Hexen.
pub const HEXEN: u32 = 0b0000_0001_0000_0000;

/// Strife.
pub const STRIFE: u32 = 0b0000_0010_0000_0000;

/// Every title that runs on a Doom engine proper.
pub const DOOM_ONLY: u32 = DOOM | UDOOM | DOOM2 | PLUTONIA | TNT | FREEDOOM1 | FREEDOOM2;

/// Every title but Strife.
pub const ALL_NO_STRIFE: u32 = DOOM_ONLY | HERETIC | HEXEN;

/// Every title.
pub const ALL: u32 = ALL_NO_STRIFE | STRIFE;

/// A set of game titles, one bit per title.
///
/// A primary archive carries exactly one title; an engine's list of games
/// may carry several.
#[derive(Clone, Copy, PartialEq, Eq, Structural, Debug, Hash)]
pub struct IWadID {
    pub bits: u32,
}

impl IWadID {
    /// Exactly one bit is set.
    pub open spec fn is_single(self) -> bool {
        exists|k: u32| k < 32 && self.bits == 1u32 << k
    }

    /// The value names one of the ten known titles.
    pub open spec fn is_title(self) -> bool {
        ||| self.bits == DOOM
        ||| self.bits == UDOOM
        ||| self.bits == DOOM2
        ||| self.bits == PLUTONIA
        ||| self.bits == TNT
        ||| self.bits == FREEDOOM1
        ||| self.bits == FREEDOOM2
        ||| self.bits == HERETIC
        ||| self.bits == HEXEN
        ||| self.bits == STRIFE
    }

    /// The two sets share a title.
    pub open spec fn spec_intersects(self, other: IWadID) -> bool {
        self.bits & other.bits != 0
    }

    /// Every title of `other` is in `self`.
    pub open spec fn spec_contains(self, other: IWadID) -> bool {
        self.bits & other.bits == other.bits
    }

    pub fn from_bits(bits: u32) -> (id: IWadID)
        ensures
            id.bits == bits,
    {
        IWadID { bits }
    }

    pub fn bits(&self) -> (bits: u32)
        ensures
            bits == self.bits,
    {
        self.bits
    }

    pub fn empty() -> (id: IWadID)
        ensures
            id.bits == 0,
    {
        IWadID { bits: 0 }
    }

    pub fn is_empty(&self) -> (b: bool)
        ensures
            b == (self.bits == 0),
    {
        self.bits == 0
    }

    #[verifier::when_used_as_spec(spec_intersects)]
    pub fn intersects(self, other: IWadID) -> (b: bool)
        ensures
            b == self.spec_intersects(other),
    {
        self.bits & other.bits != 0
    }

    #[verifier::when_used_as_spec(spec_contains)]
    pub fn contains(self, other: IWadID) -> (b: bool)
        ensures
            b == self.spec_contains(other),
    {
        self.bits & other.bits == other.bits
    }

    pub fn union(self, other: IWadID) -> (id: IWadID)
        ensures
            id.bits == self.bits | other.bits,
    {
        IWadID { bits: self.bits | other.bits }
    }

    pub fn intersection(self, other: IWadID) -> (id: IWadID)
        ensures
            id.bits == self.bits & other.bits,
    {
        IWadID { bits: self.bits & other.bits }
    }

    /// Tells whether exactly one bit is set, by trying each of the 32.
    pub fn has_single_bit(&self) -> (b: bool)
        ensures
            b == self.is_single(),
    {
        let mut k: u32 = 0;
        while k < 32
            invariant
                k <= 32,
                forall|j: u32| j < k ==> self.bits != 1u32 << j,
            decreases 32 - k,
        {
            if self.bits == 1u32 << k {
                return true;
            }
            k = k + 1;
        }
        false
    }

    /// Tells whether the value names one of the ten known titles.
    pub fn names_title(&self) -> (b: bool)
        ensures
            b == self.is_title(),
    {
        let b = self.bits;
        b == DOOM || b == UDOOM || b == DOOM2 || b == PLUTONIA || b == TNT || b == FREEDOOM1
            || b == FREEDOOM2 || b == HERETIC || b == HEXEN || b == STRIFE
    }
}

impl Default for IWadID {
    fn default() -> (id: IWadID)
        ensures
            id.bits == 0,
    {
        IWadID { bits: 0 }
    }
}

/// Each of the ten titles is a single bit.
pub proof fn lemma_title_is_single(id: IWadID)
    requires
        id.is_title(),
    ensures
        id.is_single(),
{
    assert(DOOM == 1u32 << 0u32 && UDOOM == 1u32 << 1u32 && DOOM2 == 1u32 << 2u32 && PLUTONIA == 1u32
        << 3u32 && TNT == 1u32 << 4u32 && FREEDOOM1 == 1u32 << 5u32 && FREEDOOM2 == 1u32 << 6u32
        && HERETIC == 1u32 << 7u32 && HEXEN == 1u32 << 8u32 && STRIFE == 1u32 << 9u32)
        by (bit_vector);
    let k: u32 = if id.bits == DOOM {
        0
    } else if id.bits == UDOOM {
        1
    } else if id.bits == DOOM2 {
        2
    } else if id.bits == PLUTONIA {
        3
    } else if id.bits == TNT {
        4
    } else if id.bits == FREEDOOM1 {
        5
    } else if id.bits == FREEDOOM2 {
        6
    } else if id.bits == HERETIC {
        7
    } else if id.bits == HEXEN {
        8
    } else {
        9
    };
    assert(k < 32 && id.bits == 1u32 << k);
}

/// A single title lies in a set of titles exactly when the two intersect.
pub proof fn lemma_single_intersects_iff_contained(games: IWadID, id: IWadID)
    requires
        id.is_single(),
    ensures
        games.spec_intersects(id) <==> games.spec_contains(id),
{
    let k = choose|k: u32| k < 32 && id.bits == 1u32 << k;
    let g = games.bits;
    let b = id.bits;
    assert((g & b != 0) <==> (g & b == b)) by (bit_vector)
        requires
            k < 32,
            b == 1u32 << k,
    ;
}

/// The named groups are the unions of their titles: a title intersects
/// `DOOM_ONLY` unless it is Heretic, Hexen or Strife, `ALL_NO_STRIFE` unless
/// it is Strife, and `ALL` always.
pub proof fn lemma_groups(id: IWadID)
    requires
        id.is_title(),
    ensures
        (IWadID { bits: DOOM_ONLY }).spec_intersects(id) <==> !(id.bits == HERETIC || id.bits
            == HEXEN || id.bits == STRIFE),
        (IWadID { bits: ALL_NO_STRIFE }).spec_intersects(id) <==> id.bits != STRIFE,
        (IWadID { bits: ALL }).spec_intersects(id),
{
    let b = id.bits;
    assert(DOOM_ONLY == 0x7f && ALL_NO_STRIFE == 0x1ff && ALL == 0x3ff) by (bit_vector);
    assert((b == 1 || b == 2 || b == 4 || b == 8 || b == 16 || b == 32 || b == 64 || b == 128 || b
        == 256 || b == 512) ==> (((0x7fu32 & b != 0) <==> !(b == 128 || b == 256 || b == 512))
        && ((0x1ffu32 & b != 0) <==> b != 512) && (0x3ffu32 & b != 0))) by (bit_vector);
}

/// One line of a reference catalog: checksum, title bits, display name and
/// a second label (the version of a primary archive, the description of an
/// add-on).
pub type CatalogRow = (u32, u32, &'static str, &'static str);

/// Row `i` is the first row with the given checksum.
pub open spec fn first_match(table: Seq<CatalogRow>, checksum: u32, i: int) -> bool {
    &&& 0 <= i < table.len()
    &&& table[i].0 == checksum
    &&& forall|j: int| 0 <= j < i ==> table[j].0 != checksum
}

/// Some row has the given checksum.
pub open spec fn has_row(table: Seq<CatalogRow>, checksum: u32) -> bool {
    exists|i: int| 0 <= i < table.len() && table[i].0 == checksum
}

/// The first row with the given checksum; meaningful when `has_row` holds.
pub open spec fn row_for(table: Seq<CatalogRow>, checksum: u32) -> CatalogRow {
    table[choose|i: int| first_match(table, checksum, i)]
}

/// No checksum occurs in two rows.
pub open spec fn distinct_keys(table: Seq<CatalogRow>) -> bool {
    forall|i: int, j: int| 0 <= i < j < table.len() ==> table[i].0 != table[j].0
}

/// Looks a checksum up in a catalog, front to back.
pub fn find_row(table: &[CatalogRow], checksum: u32) -> (found: Option<CatalogRow>)
    ensures
        found is Some <==> has_row(table@, checksum),
        found is Some ==> found->0 == row_for(table@, checksum),
{
    let mut i: usize = 0;
    while i < table.len()
        invariant
            i <= table.len(),
            forall|j: int| 0 <= j < i ==> table@[j].0 != checksum,
        decreases table.len() - i,
    {
        let row = table[i];
        if row.0 == checksum {
            assert(first_match(table@, checksum, i as int));
            return Some(row);
        }
        i = i + 1;
    }
    None
}

/// What the catalog knows of one release of a primary archive.
#[derive(Clone, Copy, Debug)]
pub struct IWadData {
    pub id: IWadID,
    pub name: &'static str,
    pub version: &'static str,
}

impl IWadData {
    pub fn id(&self) -> (id: IWadID)
        ensures
            id == self.id,
    {
        self.id
    }

    pub fn name(&self) -> (name: &str)
        ensures
            name == self.name,
    {
        self.name
    }

    pub fn version(&self) -> (version: &str)
        ensures
            version == self.version,
    {
        self.version
    }
}

/// The known releases of the primary archives, keyed by checksum. Several
/// releases of one title share its name and differ in their version.
pub const IWAD_HASHMAP: [CatalogRow; 39] = [
    (0x66457ab9, DOOM, "Doom", "v1.1"),
    (0xa5da8930, DOOM, "Doom", "v1.2"),
    (0xf756aab5, DOOM, "Doom", "v1.666"),
    (0x8d242df9, DOOM, "Doom", "v1.8"),
    (0x723e60f9, DOOM, "Doom", "v1.9"),
    (0xbf0eaac0, UDOOM, "Doom - The Ultimate Doom", "v1.9ud"),
    (0x5efa677e, UDOOM, "Doom - The Ultimate Doom", "v1.9ud (BFG Edition)"),
    (0x75c3b7bf, UDOOM, "Doom - The Ultimate Doom", "v1.9ud (Doom I Enhanced)"),
    (0xcff03d9f, UDOOM, "Doom - The Ultimate Doom", "Doom + Doom II"),
    (0xd5f8c089, UDOOM, "Doom - The Ultimate Doom", "Doom + Doom II"),
    (0xc08005f7, DOOM2, "Doom II", "v1.666 (German)"),
    (0xe2a683bd, DOOM2, "Doom II", "v1.666"),
    (0x47daeb2e, DOOM2, "Doom II", "v1.7"),
    (0x952f6baa, DOOM2, "Doom II", "v1.7a"),
    (0x27eaae69, DOOM2, "Doom II", "v1.8 (French)"),
    (0x31bd3bc0, DOOM2, "Doom II", "v1.8"),
    (0xec8725db, DOOM2, "Doom II", "v1.9"),
    (0xdbaa4a2b, DOOM2, "Doom II", "v1.9 (PC-98)"),
    (0x927a778a, DOOM2, "Doom II", "v1.9 (BFG Edition)"),
    (0xf1d1ad55, DOOM2, "Doom II", "v1.9 (Doom II Enhanced)"),
    (0x09b8a6ae, DOOM2, "Doom II", "Doom + Doom II"),
    (0x151b8a96, DOOM2, "Doom II", "Doom + Doom II"),
    (0x48d1453c, PLUTONIA, "Final Doom - The Plutonia Experiment", "v1.9"),
    (0x15cd1448, PLUTONIA, "Final Doom - The Plutonia Experiment", "v1.9 (Fixed)"),
    (0x903dcc27, TNT, "Final Doom - TNT: Evilution", "v1.9"),
    (0xd4bb05c0, TNT, "Final Doom - TNT: Evilution", "v1.9 (Fixed)"),
    (0x070682b7, FREEDOOM1, "FreeDoom: Phase 1", "v0.12."),
    (0xde6ddb27, FREEDOOM1, "FreeDoom: Phase 1", "v0.12.1"),
    (0xe42df22f, FREEDOOM1, "FreeDoom: Phase 1", "v0.13.0"),
    (0xb66d9e8d, FREEDOOM2, "FreeDoom: Phase 2", "v0.12.0"),
    (0x212e1cf9, FREEDOOM2, "FreeDoom: Phase 2", "v0.12.1"),
    (0xa0bfeb53, FREEDOOM2, "FreeDoom: Phase 2", "v0.13.0"),
    (0x77482d1e, HERETIC, "Heretic", "v1.0"),
    (0x54759180, HERETIC, "Heretic", "v1.2"),
    (0x5b16049e, HERETIC, "Heretic: Shadow of the Serpent Riders", "v1.3"),
    (0xeece0236, HEXEN, "HeXen: Beyond Heretic", "v1.0"),
    (0xdca9114c, HEXEN, "HeXen: Beyond Heretic", "v1.1"),
    (0xb7581abd, STRIFE, "Strife", "v1.1"),
    (0x4234ace5, STRIFE, "Strife", "v1.2-1.31"),
];

/// The catalog entry that a row stands for.
pub open spec fn iwad_of_row(row: CatalogRow) -> IWadData {
    IWadData { id: IWadID { bits: row.1 }, name: row.2, version: row.3 }
}

/// The primary archive with the given checksum, if the catalog has one.
pub open spec fn spec_lookup_primary(checksum: u32) -> Option<IWadData> {
    if has_row(IWAD_HASHMAP@, checksum) {
        Some(iwad_of_row(row_for(IWAD_HASHMAP@, checksum)))
    } else {
        None
    }
}

/// Identifies a primary archive by the checksum of its content.
pub fn lookup_primary(checksum: u32) -> (found: Option<IWadData>)
    ensures
        found == spec_lookup_primary(checksum),
        found is Some ==> found->0.id.is_title(),
{
    match find_row(IWAD_HASHMAP.as_slice(), checksum) {
        Some(row) => {
            proof {
                lemma_primary_is_title(checksum);
            }
            Some(IWadData { id: IWadID { bits: row.1 }, name: row.2, version: row.3 })
        },
        None => None,
    }
}

/// Every row of the catalog of primary archives names exactly one title.
pub proof fn lemma_primary_rows_are_titles()
    ensures
        forall|i: int| 0 <= i < IWAD_HASHMAP@.len() ==> (IWadID { bits: #[trigger] IWAD_HASHMAP@[i].1 }).is_title(),
{
}

/// A primary archive that the catalog identifies carries exactly one title,
/// which is a single bit.
pub proof fn lemma_primary_is_title(checksum: u32)
    ensures
        spec_lookup_primary(checksum) matches Some(data) ==> data.id.is_title() && data.id.is_single(),
{
    if has_row(IWAD_HASHMAP@, checksum) {
        lemma_primary_rows_are_titles();
        let i = choose|i: int| first_match(IWAD_HASHMAP@, checksum, i);
        let w = choose|i: int| 0 <= i < IWAD_HASHMAP@.len() && IWAD_HASHMAP@[i].0 == checksum;
        lemma_first_match_exists(IWAD_HASHMAP@, checksum, w);
        assert(first_match(IWAD_HASHMAP@, checksum, i));
        let id = IWadID { bits: IWAD_HASHMAP@[i].1 };
        assert(id.is_title());
        lemma_title_is_single(id);
    }
}

/// Where some row has the checksum, one of them is the first.
pub proof fn lemma_first_match_exists(table: Seq<CatalogRow>, checksum: u32, i: int)
    requires
        0 <= i < table.len(),
        table[i].0 == checksum,
    ensures
        exists|k: int| first_match(table, checksum, k),
    decreases i,
{
    if exists|j: int| 0 <= j < i && table[j].0 == checksum {
        let j = choose|j: int| 0 <= j < i && table[j].0 == checksum;
        lemma_first_match_exists(table, checksum, j);
    } else {
        assert(first_match(table, checksum, i));
    }
}

/// In a catalog without repeated checksums, each row is the one that its
/// checksum finds.
pub proof fn lemma_row_found(table: Seq<CatalogRow>, i: int)
    requires
        distinct_keys(table),
        0 <= i < table.len(),
    ensures
        has_row(table, table[i].0),
        row_for(table, table[i].0) == table[i],
{
    assert(first_match(table, table[i].0, i));
}

/// Each row of the catalog of primary archives is what its own checksum
/// identifies.
pub proof fn lemma_primary_row_found(i: int)
    requires
        0 <= i < IWAD_HASHMAP@.len(),
    ensures
        spec_lookup_primary(IWAD_HASHMAP@[i].0) == Some(iwad_of_row(IWAD_HASHMAP@[i])),
{
    lemma_primary_keys_distinct();
    lemma_row_found(IWAD_HASHMAP@, i);
}

/// No checksum stands for two primary archives.
pub proof fn lemma_primary_keys_distinct()
    ensures
        distinct_keys(IWAD_HASHMAP@),
{
}

/// The name under which each title is shown. The two releases of Doom
/// share a name, as do the two parts of Final Doom and of FreeDoom.
pub const TITLE_NAMES: [(u32, &'static str); 10] = [
    (DOOM, "Doom"),
    (UDOOM, "Doom"),
    (DOOM2, "Doom II"),
    (PLUTONIA, "Final Doom"),
    (TNT, "Final Doom"),
    (FREEDOOM1, "FreeDoom"),
    (FREEDOOM2, "FreeDoom"),
    (HERETIC, "Heretic"),
    (HEXEN, "Hexen"),
    (STRIFE, "Strife"),
];

/// Every title has its name in the table, once, and the table names
/// nothing else.
pub proof fn lemma_titles_are_named()
    ensures
        forall|i: int|
            0 <= i < TITLE_NAMES@.len() ==> (IWadID { bits: (#[trigger] TITLE_NAMES@[i]).0 }).is_title(),
        forall|i: int, j: int|
            0 <= i < j < TITLE_NAMES@.len() ==> (#[trigger] TITLE_NAMES@[i]).0 != (
            #[trigger] TITLE_NAMES@[j]).0,
        forall|id: IWadID|
            id.is_title() ==> exists|i: int|
                0 <= i < TITLE_NAMES@.len() && (#[trigger] TITLE_NAMES@[i]).0 == id.bits,
{
    assert forall|id: IWadID| id.is_title() implies exists|i: int|
        0 <= i < TITLE_NAMES@.len() && (#[trigger] TITLE_NAMES@[i]).0 == id.bits by {
        let i: int = if id.bits == DOOM {
            0
        } else if id.bits == UDOOM {
            1
        } else if id.bits == DOOM2 {
            2
        } else if id.bits == PLUTONIA {
            3
        } else if id.bits == TNT {
            4
        } else if id.bits == FREEDOOM1 {
            5
        } else if id.bits == FREEDOOM2 {
            6
        } else if id.bits == HERETIC {
            7
        } else if id.bits == HEXEN {
            8
        } else {
            9
        };
        assert(TITLE_NAMES@[i].0 == id.bits);
    }
}

/// One of the first `n` titles of the table is in `games` and is shown as
/// `name`.
pub open spec fn shows_title(games: IWadID, n: int, name: Seq<char>) -> bool {
    exists|k: int|
        0 <= k < n && k < TITLE_NAMES@.len() && games.bits & (#[trigger] TITLE_NAMES@[k]).0 != 0
            && TITLE_NAMES@[k].1@ == name
}

/// `names` holds the names of the titles in `games`, each once, in
/// ascending order.
pub open spec fn is_game_list(names: Seq<Seq<char>>, games: IWadID) -> bool {
    &&& ascending(names)
    &&& forall|name: Seq<char>|
        names.contains(name) <==> shows_title(games, TITLE_NAMES@.len() as int, name)
}

/// Lists the names of the titles in `games`, each once, in ascending
/// order.
pub fn game_names(games: IWadID) -> (names: Vec<String>)
    ensures
        is_game_list(names.deep_view(), games),
{
    let mut names: Vec<String> = Vec::new();
    let mut i: usize = 0;
    while i < TITLE_NAMES.len()
        invariant
            i <= TITLE_NAMES@.len(),
            ascending(names.deep_view()),
            forall|n: Seq<char>| names.deep_view().contains(n) <==> shows_title(games, i as int, n),
        decreases TITLE_NAMES.len() - i,
    {
        let ghost before = names.deep_view();
        let row = TITLE_NAMES[i];
        if games.bits & row.0 != 0 {
            insert_name(&mut names, row.1);
        }
        proof {
            let after = names.deep_view();
            assert forall|n: Seq<char>| after.contains(n) <==> shows_title(games, i + 1, n) by {
                if shows_title(games, i + 1, n) {
                    let k = choose|k: int|
                        0 <= k < i + 1 && k < TITLE_NAMES@.len() && games.bits & (
                        #[trigger] TITLE_NAMES@[k]).0 != 0 && TITLE_NAMES@[k].1@ == n;
                    if k < i {
                        assert(shows_title(games, i as int, n));
                    }
                }
                if after.contains(n) {
                    if before.contains(n) {
                        assert(shows_title(games, i as int, n));
                        let k = choose|k: int|
                            0 <= k < i && k < TITLE_NAMES@.len() && games.bits & (
                            #[trigger] TITLE_NAMES@[k]).0 != 0 && TITLE_NAMES@[k].1@ == n;
                        assert(games.bits & TITLE_NAMES@[k].0 != 0);
                    } else {
                        assert(games.bits & TITLE_NAMES@[i as int].0 != 0);
                    }
                }
            }
        }
        i = i + 1;
    }
    names
}

/// Names the titles in `games` in one line: each name once, in ascending
/// order, a comma and a space between each two.
pub fn games_label(games: IWadID) -> (label: String)
    ensures
        exists|names: Seq<Seq<char>>| is_game_list(names, games) && label@ == comma_list(names),
{
    let names = game_names(games);
    join_names(&names)
}

} // verus!
