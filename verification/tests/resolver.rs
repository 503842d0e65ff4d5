use dhxs_launcher::disk::DiskSnapshot;
use dhxs_launcher::engine_data::{all_entries, EngineData, EngineID, EngineSource};
use dhxs_launcher::iwad_data::{
    IWadID, ALL, ALL_NO_STRIFE, DOOM, DOOM2, DOOM_ONLY, HERETIC, HEXEN, STRIFE,
};
use dhxs_launcher::resolver::{
    compatible, compatible_engine_indices, compatible_engines, engine_position, resolver_probes,
};

fn engine(name: &'static str, games: u32, path: &'static str, heretic: Option<&'static str>) -> EngineData {
    EngineData {
        id: EngineID::ChocolateDoom,
        name,
        description: "",
        source: EngineSource::Chocolate,
        games: IWadID::from_bits(games),
        compatibility: 0,
        doom_path: path,
        heretic_path: heretic,
        hexen_path: None,
        strife_path: None,
        config_folder: "",
    }
}

fn disk(paths: &[&str]) -> DiskSnapshot {
    DiskSnapshot::from_paths(paths.iter().map(|s| s.to_string()).collect())
}

fn names(engines: &[EngineData]) -> Vec<&'static str> {
    engines.iter().map(|e| e.name).collect()
}

#[test]
fn engine_is_listed_when_mask_matches_and_executable_exists() {
    let catalog = vec![
        engine("both", DOOM | HERETIC, "/bin/both", None),
        engine("wrong game", HEXEN, "/bin/wrong", None),
        engine("not installed", ALL, "/bin/missing", None),
        engine("neither", STRIFE, "/bin/neither", None),
    ];
    let on_disk = disk(&["/bin/both", "/bin/wrong"]);
    let listed = compatible_engines(&catalog, IWadID::from_bits(DOOM), &on_disk);
    assert_eq!(names(&listed), ["both"]);
    for e in &catalog {
        let expected = (e.games.bits & DOOM != 0) && on_disk.contains(e.doom_path);
        assert_eq!(compatible(e, IWadID::from_bits(DOOM), &on_disk), expected);
        assert_eq!(listed.iter().any(|l| l.name == e.name), expected);
    }
}

#[test]
fn engine_is_judged_by_the_executable_of_the_title() {
    let catalog = vec![
        engine("own binary missing", ALL, "/bin/a", Some("/bin/a-heretic")),
        engine("own binary there", ALL, "/bin/b", Some("/bin/b-heretic")),
        engine("main binary", ALL, "/bin/c", None),
    ];
    let on_disk = disk(&["/bin/a", "/bin/b-heretic", "/bin/c"]);
    let heretic = compatible_engines(&catalog, IWadID::from_bits(HERETIC), &on_disk);
    assert_eq!(names(&heretic), ["main binary", "own binary there"]);
    let doom = compatible_engines(&catalog, IWadID::from_bits(DOOM), &on_disk);
    assert_eq!(names(&doom), ["main binary", "own binary missing"]);
}

#[test]
fn engines_are_sorted_by_name_without_case() {
    let catalog = vec![
        engine("woof", ALL, "/bin/x", None),
        engine("Zandronum", ALL, "/bin/x", None),
        engine("chocolate", ALL, "/bin/x", None),
        engine("GZDoom", ALL, "/bin/x", None),
        engine("dsda", ALL, "/bin/x", None),
        engine("Crispy", ALL, "/bin/x", None),
    ];
    let listed = compatible_engines(&catalog, IWadID::from_bits(DOOM2), &disk(&["/bin/x"]));
    assert_eq!(names(&listed), ["chocolate", "Crispy", "dsda", "GZDoom", "woof", "Zandronum"]);
    let order = compatible_engine_indices(&catalog, IWadID::from_bits(DOOM2), &disk(&["/bin/x"]));
    assert_eq!(order, [2, 5, 4, 3, 0, 1]);
}

#[test]
fn engines_of_equal_name_keep_catalog_order() {
    let catalog = vec![
        engine("same", ALL, "/bin/1", None),
        engine("Alpha", ALL, "/bin/2", None),
        engine("SAME", ALL, "/bin/3", None),
        engine("Same", ALL, "/bin/4", None),
        engine("zeta", ALL, "/bin/5", None),
        engine("same", ALL, "/bin/6", None),
    ];
    let on_disk = disk(&["/bin/1", "/bin/2", "/bin/3", "/bin/4", "/bin/5", "/bin/6"]);
    let listed = compatible_engines(&catalog, IWadID::from_bits(DOOM), &on_disk);
    let paths: Vec<&str> = listed.iter().map(|e| e.doom_path).collect();
    assert_eq!(paths, ["/bin/2", "/bin/1", "/bin/3", "/bin/4", "/bin/6", "/bin/5"]);
    let order = compatible_engine_indices(&catalog, IWadID::from_bits(DOOM), &on_disk);
    assert_eq!(order, [1, 0, 2, 3, 5, 4]);
}

#[test]
fn nothing_is_compatible_with_an_empty_catalog_or_disk() {
    let catalog = all_entries();
    assert!(compatible_engines(&catalog, IWadID::from_bits(DOOM), &DiskSnapshot::new()).is_empty());
    assert!(compatible_engines(&Vec::new(), IWadID::from_bits(DOOM), &disk(&["/bin/x"])).is_empty());
    let everything = disk(&[
        "/usr/bin/chocolate-doom",
        "/usr/bin/crispy-doom",
        "/usr/bin/dsda-doom",
        "/usr/bin/gzdoom",
        "/usr/bin/nugget-doom",
        "/usr/bin/vkdoom",
        "/usr/bin/woof",
    ]);
    assert!(compatible_engines(&catalog, IWadID::empty(), &everything).is_empty());
}

#[test]
fn catalog_engines_for_the_titles() {
    let catalog = all_entries();
    let everything = disk(&[
        "/usr/bin/chocolate-doom",
        "/usr/bin/chocolate-heretic",
        "/usr/bin/chocolate-hexen",
        "/usr/bin/chocolate-strife",
        "/usr/bin/crispy-doom",
        "/usr/bin/crispy-heretic",
        "/usr/bin/crispy-hexen",
        "/usr/bin/crispy-strife",
        "/usr/bin/dsda-doom",
        "/usr/bin/gzdoom",
        "/usr/bin/nugget-doom",
        "/usr/bin/vkdoom",
        "/usr/bin/woof",
    ]);
    assert_eq!(
        names(&compatible_engines(&catalog, IWadID::from_bits(DOOM2), &everything)),
        ["Chocolate Doom", "Crispy Doom", "DSDA-Doom", "GZDoom", "Nugget Doom", "VKDoom", "Woof!"]
    );
    assert_eq!(
        names(&compatible_engines(&catalog, IWadID::from_bits(HERETIC), &everything)),
        ["Chocolate Doom", "Crispy Doom", "DSDA-Doom", "GZDoom", "VKDoom"]
    );
    assert_eq!(
        names(&compatible_engines(&catalog, IWadID::from_bits(STRIFE), &everything)),
        ["Chocolate Doom", "Crispy Doom", "GZDoom", "VKDoom"]
    );
    let doom_only = disk(&["/usr/bin/chocolate-doom", "/usr/bin/gzdoom", "/usr/bin/woof"]);
    assert_eq!(
        names(&compatible_engines(&catalog, IWadID::from_bits(HEXEN), &doom_only)),
        ["GZDoom"]
    );
    assert_eq!(
        names(&compatible_engines(&catalog, IWadID::from_bits(DOOM), &doom_only)),
        ["Chocolate Doom", "GZDoom", "Woof!"]
    );
}

#[test]
fn resolving_twice_gives_the_same_list() {
    let catalog = all_entries();
    let on_disk = disk(&["/usr/bin/woof", "/usr/bin/gzdoom", "/usr/bin/dsda-doom"]);
    let first = compatible_engine_indices(&catalog, IWadID::from_bits(DOOM), &on_disk);
    let second = compatible_engine_indices(&catalog, IWadID::from_bits(DOOM), &on_disk);
    assert_eq!(first, second);
    assert_eq!(first, [2, 3, 6]);
}

#[test]
fn a_group_of_titles_matches_any_of_them() {
    let catalog = vec![
        engine("doom", DOOM_ONLY, "/bin/x", None),
        engine("heretic", HERETIC, "/bin/x", None),
        engine("strife", STRIFE, "/bin/x", None),
    ];
    let listed = compatible_engines(&catalog, IWadID::from_bits(ALL_NO_STRIFE), &disk(&["/bin/x"]));
    assert_eq!(names(&listed), ["doom", "heretic"]);
}

#[test]
fn engine_position_finds_the_first_of_a_name() {
    let catalog = all_entries();
    assert_eq!(engine_position(&catalog, "Chocolate Doom"), 0);
    assert_eq!(engine_position(&catalog, "GZDoom"), 3);
    assert_eq!(engine_position(&catalog, "Woof!"), 6);
    assert_eq!(engine_position(&catalog, "gzdoom"), 0);
    assert_eq!(engine_position(&catalog, ""), 0);
    assert_eq!(engine_position(&Vec::new(), "GZDoom"), 0);
    let twice = vec![
        engine("a", ALL, "/bin/1", None),
        engine("b", ALL, "/bin/2", None),
        engine("b", ALL, "/bin/3", None),
    ];
    assert_eq!(engine_position(&twice, "b"), 1);
}

#[test]
fn resolver_probes_name_the_executable_of_each_engine() {
    let catalog = all_entries();
    assert_eq!(
        resolver_probes(&catalog, IWadID::from_bits(HEXEN)),
        [
            "/usr/bin/chocolate-hexen",
            "/usr/bin/crispy-hexen",
            "/usr/bin/dsda-doom",
            "/usr/bin/gzdoom",
            "/usr/bin/nugget-doom",
            "/usr/bin/vkdoom",
            "/usr/bin/woof"
        ]
    );
    assert_eq!(resolver_probes(&catalog, IWadID::from_bits(DOOM))[0], "/usr/bin/chocolate-doom");
}
