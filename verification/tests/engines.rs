use dhxs_launcher::engine_data::{all_entries, EngineData, EngineID, EngineSource};
use dhxs_launcher::engine_object::{reset_engine_settings, EngineObject};
use dhxs_launcher::engine_settings::EngineSettings;
use dhxs_launcher::iwad_data::{
    IWadID, ALL, ALL_NO_STRIFE, DOOM, DOOM2, DOOM_ONLY, HERETIC, HEXEN, STRIFE,
};

fn engine(heretic: Option<&'static str>, hexen: Option<&'static str>, strife: Option<&'static str>) -> EngineData {
    EngineData {
        id: EngineID::ChocolateDoom,
        name: "Engine A",
        description: "An engine",
        source: EngineSource::Chocolate,
        games: IWadID::from_bits(ALL),
        compatibility: 5,
        doom_path: "/bin/engineA",
        heretic_path: heretic,
        hexen_path: hexen,
        strife_path: strife,
        config_folder: "$HOME/.config/engineA",
    }
}

#[test]
fn catalog_lists_seven_engines_in_order() {
    let engines = all_entries();
    let names: Vec<&str> = engines.iter().map(|e| e.name()).collect();
    assert_eq!(
        names,
        ["Chocolate Doom", "Crispy Doom", "DSDA-Doom", "GZDoom", "Nugget Doom", "VKDoom", "Woof!"]
    );
    let ids: Vec<EngineID> = engines.iter().map(|e| e.id()).collect();
    assert_eq!(
        ids,
        [
            EngineID::ChocolateDoom,
            EngineID::CrispyDoom,
            EngineID::DSDADoom,
            EngineID::GZDoom,
            EngineID::NuggetDoom,
            EngineID::VKDoom,
            EngineID::Woof
        ]
    );
}

#[test]
fn catalog_entries_hold_their_data() {
    let engines = all_entries();
    let chocolate = &engines[0];
    assert_eq!(chocolate.description(), "Historically-accurate Doom, Heretic, Hexen, and Strife port");
    assert_eq!(chocolate.source(), EngineSource::Chocolate);
    assert_eq!(chocolate.games().bits(), ALL);
    assert_eq!(chocolate.compatibility(), 5);
    assert_eq!(chocolate.path(), "/usr/bin/chocolate-doom");
    assert_eq!(chocolate.heretic_path(), Some("/usr/bin/chocolate-heretic"));
    assert_eq!(chocolate.hexen_path(), Some("/usr/bin/chocolate-hexen"));
    assert_eq!(chocolate.strife_path(), Some("/usr/bin/chocolate-strife"));
    assert_eq!(chocolate.config_folder(), "$HOME/.local/share/chocolate-doom");
    let dsda = &engines[2];
    assert_eq!(dsda.source(), EngineSource::PrBoom);
    assert_eq!(dsda.games().bits(), ALL_NO_STRIFE);
    assert_eq!(dsda.heretic_path(), None);
    let gzdoom = &engines[3];
    assert_eq!(gzdoom.source(), EngineSource::ZDoom);
    assert_eq!(gzdoom.compatibility(), 2);
    assert_eq!(gzdoom.path(), "/usr/bin/gzdoom");
    assert_eq!(gzdoom.config_folder(), "$HOME/.config/gzdoom");
    let woof = &engines[6];
    assert_eq!(woof.source(), EngineSource::WinMBF);
    assert_eq!(woof.games().bits(), DOOM_ONLY);
    assert_eq!(woof.hexen_path(), None);
    assert_eq!(woof.strife_path(), None);
}

#[test]
fn only_zdoom_engines_load_hires_graphics() {
    let hires: Vec<&str> =
        all_entries().iter().filter(|e| e.supports_hires()).map(|e| e.name).collect();
    assert_eq!(hires, ["GZDoom", "VKDoom"]);
}

#[test]
fn executable_for_uses_the_title_s_own_binary() {
    let e = engine(Some("/bin/hereticA"), Some("/bin/hexenA"), Some("/bin/strifeA"));
    assert_eq!(e.executable_for(IWadID::from_bits(HERETIC)), "/bin/hereticA");
    assert_eq!(e.executable_for(IWadID::from_bits(HEXEN)), "/bin/hexenA");
    assert_eq!(e.executable_for(IWadID::from_bits(STRIFE)), "/bin/strifeA");
    assert_eq!(e.executable_for(IWadID::from_bits(DOOM)), "/bin/engineA");
    assert_eq!(e.executable_for(IWadID::from_bits(DOOM2)), "/bin/engineA");
}

#[test]
fn executable_for_falls_back_to_the_main_binary() {
    let e = engine(None, None, None);
    assert_eq!(e.executable_for(IWadID::from_bits(HERETIC)), "/bin/engineA");
    assert_eq!(e.executable_for(IWadID::from_bits(HEXEN)), "/bin/engineA");
    assert_eq!(e.executable_for(IWadID::from_bits(STRIFE)), "/bin/engineA");
    let partial = engine(Some("/bin/hereticA"), None, None);
    assert_eq!(partial.executable_for(IWadID::from_bits(HERETIC)), "/bin/hereticA");
    assert_eq!(partial.executable_for(IWadID::from_bits(HEXEN)), "/bin/engineA");
}

#[test]
fn executable_for_a_group_is_the_main_binary() {
    let e = engine(Some("/bin/hereticA"), Some("/bin/hexenA"), Some("/bin/strifeA"));
    assert_eq!(e.executable_for(IWadID::from_bits(ALL)), "/bin/engineA");
    assert_eq!(e.executable_for(IWadID::from_bits(HERETIC | HEXEN)), "/bin/engineA");
    assert_eq!(e.executable_for(IWadID::empty()), "/bin/engineA");
}

#[test]
fn catalog_executables() {
    let engines = all_entries();
    assert_eq!(engines[1].executable_for(IWadID::from_bits(HEXEN)), "/usr/bin/crispy-hexen");
    assert_eq!(engines[1].executable_for(IWadID::from_bits(DOOM)), "/usr/bin/crispy-doom");
    assert_eq!(engines[3].executable_for(IWadID::from_bits(HERETIC)), "/usr/bin/gzdoom");
    assert_eq!(engines[0].executable_for(IWadID::from_bits(STRIFE)), "/usr/bin/chocolate-strife");
}

#[test]
fn defaults() {
    assert_eq!(EngineID::default(), EngineID::ChocolateDoom);
    assert_eq!(EngineSource::default(), EngineSource::Chocolate);
    assert_eq!(EngineSettings::default(), EngineSettings { hires: false });
}

#[test]
fn settings_are_set_and_reset() {
    let mut settings = EngineSettings::new(false);
    assert!(!settings.hires());
    settings.set_hires(true);
    assert!(settings.hires());
    settings.reset();
    assert!(!settings.hires());
    assert_eq!(settings, EngineSettings::default());
}

#[test]
fn engine_object_starts_with_default_settings() {
    let engines = all_entries();
    let object = EngineObject::new(&engines[3]);
    assert_eq!(object.name(), "GZDoom");
    assert_eq!(object.description(), "Feature centric port for all Doom engine games");
    assert_eq!(object.games().bits(), ALL);
    assert_eq!(object.source(), EngineSource::ZDoom);
    assert_eq!(object.doom_path(), "/usr/bin/gzdoom");
    assert_eq!(object.heretic_path(), None);
    assert_eq!(object.hexen_path(), None);
    assert_eq!(object.strife_path(), None);
    assert_eq!(object.config_folder(), "$HOME/.config/gzdoom");
    assert_eq!(object.settings(), EngineSettings { hires: false });
    assert!(!object.wants_hires());
}

#[test]
fn hires_is_wanted_only_where_the_engine_can_load_it() {
    let engines = all_entries();
    let mut gzdoom = EngineObject::new(&engines[3]);
    gzdoom.settings.set_hires(true);
    assert!(gzdoom.wants_hires());
    let mut woof = EngineObject::new(&engines[6]);
    woof.settings.set_hires(true);
    assert!(!woof.wants_hires());
}

#[test]
fn reset_engine_settings_resets_every_engine() {
    let mut objects: Vec<EngineObject> = all_entries().iter().map(EngineObject::new).collect();
    objects[3].settings.set_hires(true);
    objects[5].settings.set_hires(true);
    reset_engine_settings(&mut objects);
    assert_eq!(objects.len(), 7);
    assert!(objects.iter().all(|o| !o.settings().hires()));
    assert_eq!(objects[3].name(), "GZDoom");
    assert_eq!(objects[5].name(), "VKDoom");
}
