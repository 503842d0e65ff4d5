use dhxs_launcher::iwad_data::{
    game_names, games_label, lookup_primary, IWadID, ALL, ALL_NO_STRIFE, DOOM, DOOM2, DOOM_ONLY, FREEDOOM1, FREEDOOM2,
    HERETIC, HEXEN, IWAD_HASHMAP, IWAD_PATHS, PLUTONIA, STRIFE, TNT, UDOOM,
};
use dhxs_launcher::pwad_data::{lookup_addon, PWAD_HASHMAP};

#[test]
fn lookup_primary_finds_doom2_v19() {
    let data = lookup_primary(0xec8725db).expect("known checksum");
    assert_eq!(data.id().bits(), DOOM2);
    assert_eq!(data.name(), "Doom II");
    assert_eq!(data.version(), "v1.9");
}

#[test]
fn lookup_primary_finds_first_and_last_row() {
    let first = lookup_primary(0x66457ab9).expect("first row");
    assert_eq!(first.id, IWadID { bits: DOOM });
    assert_eq!(first.name, "Doom");
    assert_eq!(first.version, "v1.1");
    let last = lookup_primary(0x4234ace5).expect("last row");
    assert_eq!(last.id, IWadID { bits: STRIFE });
    assert_eq!(last.name, "Strife");
    assert_eq!(last.version, "v1.2-1.31");
}

#[test]
fn lookup_primary_tells_releases_of_one_title_apart() {
    let a = lookup_primary(0xcff03d9f).expect("known");
    let b = lookup_primary(0x75c3b7bf).expect("known");
    assert_eq!(a.name(), b.name());
    assert_eq!(a.name(), "Doom - The Ultimate Doom");
    assert_eq!(a.version(), "Doom + Doom II");
    assert_eq!(b.version(), "v1.9ud (Doom I Enhanced)");
    assert_eq!(a.id().bits(), UDOOM);
}

#[test]
fn lookup_primary_finds_every_row() {
    assert_eq!(IWAD_HASHMAP.len(), 39);
    for row in IWAD_HASHMAP.iter() {
        let data = lookup_primary(row.0).expect("row is found");
        assert_eq!(data.id.bits, row.1);
        assert_eq!(data.name, row.2);
        assert_eq!(data.version, row.3);
    }
}

#[test]
fn lookup_primary_unknown_checksum() {
    assert!(lookup_primary(0).is_none());
    assert!(lookup_primary(0xdeadbeef).is_none());
    assert!(lookup_primary(0xec8725dc).is_none());
}

#[test]
fn lookup_addon_finds_sigil() {
    let main = lookup_addon(0xf9216574).expect("known");
    assert_eq!(main.id().bits(), UDOOM);
    assert_eq!(main.name(), "SIGIL");
    assert_eq!(main.description(), "SIGIL main PWAD");
    let compat = lookup_addon(0xb7679050).expect("known");
    assert_eq!(compat.name(), "SIGIL");
    assert_eq!(compat.description(), "SIGIL compatibility PWAD");
    let second = lookup_addon(0xd210db36).expect("known");
    assert_eq!(second.name(), "SIGIL II");
    assert_eq!(second.description(), "SIGIL II main PWAD");
}

#[test]
fn lookup_addon_unknown_checksum() {
    assert!(lookup_addon(0).is_none());
    assert!(lookup_addon(0xec8725db).is_none());
}

#[test]
fn catalogs_never_share_a_checksum() {
    for row in IWAD_HASHMAP.iter() {
        assert!(lookup_addon(row.0).is_none());
    }
    for row in PWAD_HASHMAP.iter() {
        assert!(lookup_primary(row.0).is_none());
    }
}

#[test]
fn primary_archives_carry_one_title() {
    for row in IWAD_HASHMAP.iter() {
        let id = lookup_primary(row.0).expect("row is found").id();
        assert!(id.has_single_bit());
        assert!(id.names_title());
        assert_eq!(id.bits().count_ones(), 1);
    }
    for row in PWAD_HASHMAP.iter() {
        let id = lookup_addon(row.0).expect("row is found").id();
        assert!(id.has_single_bit());
        assert!(id.names_title());
    }
}

#[test]
fn title_bits_have_their_values() {
    assert_eq!(DOOM, 1);
    assert_eq!(UDOOM, 2);
    assert_eq!(DOOM2, 4);
    assert_eq!(PLUTONIA, 8);
    assert_eq!(TNT, 16);
    assert_eq!(FREEDOOM1, 32);
    assert_eq!(FREEDOOM2, 64);
    assert_eq!(HERETIC, 128);
    assert_eq!(HEXEN, 256);
    assert_eq!(STRIFE, 512);
    assert_eq!(DOOM_ONLY, 0x7f);
    assert_eq!(ALL_NO_STRIFE, 0x1ff);
    assert_eq!(ALL, 0x3ff);
}

#[test]
fn variant_set_operations() {
    let doom = IWadID::from_bits(DOOM);
    let heretic = IWadID::from_bits(HERETIC);
    let doom_only = IWadID::from_bits(DOOM_ONLY);
    assert!(doom_only.intersects(doom));
    assert!(!doom_only.intersects(heretic));
    assert!(doom_only.contains(doom));
    assert!(!doom.contains(doom_only));
    assert!(!doom_only.contains(heretic));
    assert_eq!(doom.union(heretic).bits(), DOOM | HERETIC);
    assert_eq!(doom_only.intersection(heretic), IWadID::empty());
    assert_eq!(doom_only.intersection(doom), doom);
    assert!(IWadID::empty().is_empty());
    assert!(!doom.is_empty());
    assert_eq!(IWadID::default(), IWadID::empty());
    assert!(!IWadID::empty().intersects(IWadID::from_bits(ALL)));
}

#[test]
fn single_bit_is_told_from_groups() {
    assert!(IWadID::from_bits(STRIFE).has_single_bit());
    assert!(IWadID::from_bits(1 << 31).has_single_bit());
    assert!(!IWadID::from_bits(1 << 31).names_title());
    assert!(!IWadID::from_bits(0).has_single_bit());
    assert!(!IWadID::from_bits(DOOM_ONLY).has_single_bit());
    assert!(!IWadID::from_bits(ALL).names_title());
    assert!(!IWadID::from_bits(DOOM | UDOOM).has_single_bit());
    assert!(IWadID::from_bits(HEXEN).names_title());
}

#[test]
fn built_in_folders() {
    assert_eq!(
        IWAD_PATHS,
        [
            "/usr/share/games/doom",
            "/usr/share/games/heretic",
            "/usr/share/games/hexen",
            "/usr/share/games/strife"
        ]
    );
}

#[test]
fn games_are_named_once_each_in_order() {
    assert_eq!(
        games_label(IWadID::from_bits(ALL)),
        "Doom, Doom II, Final Doom, FreeDoom, Heretic, Hexen, Strife"
    );
    assert_eq!(
        games_label(IWadID::from_bits(ALL_NO_STRIFE)),
        "Doom, Doom II, Final Doom, FreeDoom, Heretic, Hexen"
    );
    assert_eq!(games_label(IWadID::from_bits(DOOM_ONLY)), "Doom, Doom II, Final Doom, FreeDoom");
    assert_eq!(games_label(IWadID::from_bits(DOOM | UDOOM)), "Doom");
    assert_eq!(games_label(IWadID::from_bits(STRIFE | HERETIC)), "Heretic, Strife");
    assert_eq!(games_label(IWadID::from_bits(TNT)), "Final Doom");
    assert_eq!(games_label(IWadID::empty()), "");
    assert_eq!(games_label(IWadID::from_bits(1 << 20)), "");
    assert_eq!(game_names(IWadID::from_bits(HEXEN | DOOM2 | FREEDOOM2)), ["Doom II", "FreeDoom", "Hexen"]);
    assert!(game_names(IWadID::empty()).is_empty());
}
