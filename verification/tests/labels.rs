use dhxs_launcher::labels::{
    decimal_text, default_files, differs_from_default, files_label, folder_label, label_for,
    label_for_folder,
};

fn strings(words: &[&str]) -> Vec<String> {
    words.iter().map(|s| s.to_string()).collect()
}

#[test]
fn numbers_are_written_in_decimal() {
    assert_eq!(decimal_text(0), "0");
    assert_eq!(decimal_text(7), "7");
    assert_eq!(decimal_text(9), "9");
    assert_eq!(decimal_text(10), "10");
    assert_eq!(decimal_text(42), "42");
    assert_eq!(decimal_text(100), "100");
    assert_eq!(decimal_text(1234567890), "1234567890");
    assert_eq!(decimal_text(usize::MAX), usize::MAX.to_string());
}

#[test]
fn label_of_no_file() {
    assert_eq!(files_label(&Vec::new()), "(None)");
    assert_eq!(label_for(0, None), "(None)");
    assert_eq!(label_for(0, Some("ignored".to_string())), "(None)");
}

#[test]
fn label_of_one_file_is_its_name() {
    assert_eq!(files_label(&strings(&["/home/user/mods/sigil.wad"])), "sigil.wad");
    assert_eq!(files_label(&strings(&["relative.pk3"])), "relative.pk3");
    assert_eq!(files_label(&strings(&["/home/user/mods/"])), "mods");
    assert_eq!(files_label(&strings(&["/"])), "(None)");
    assert_eq!(files_label(&strings(&["/home/user/.."])), "(None)");
    assert_eq!(files_label(&strings(&[""])), "(None)");
    assert_eq!(label_for(1, Some("a.wad".to_string())), "a.wad");
    assert_eq!(label_for(1, None), "(None)");
}

#[test]
fn label_of_several_files_is_their_number() {
    assert_eq!(files_label(&strings(&["/a.wad", "/b.wad"])), "(2 files)");
    let many: Vec<String> = (0..12).map(|i| format!("/mods/{}.wad", i)).collect();
    assert_eq!(files_label(&many), "(12 files)");
    assert_eq!(label_for(2, Some("ignored".to_string())), "(2 files)");
    assert_eq!(label_for(1000, None), "(1000 files)");
}

#[test]
fn label_of_a_folder_is_its_last_component() {
    assert_eq!(folder_label("/home/user/.config/dhxs-launcher/iwads"), "iwads");
    assert_eq!(folder_label("/home/user/iwads/"), "iwads");
    assert_eq!(folder_label("/"), "(None)");
    assert_eq!(folder_label(""), "(None)");
    assert_eq!(folder_label(".."), "(None)");
    assert_eq!(label_for_folder(Some(String::new())), "(None)");
    assert_eq!(label_for_folder(Some("x".to_string())), "x");
    assert_eq!(label_for_folder(None), "(None)");
}

#[test]
fn folder_differs_from_default_by_its_text() {
    assert!(!differs_from_default("/home/user/iwads", "/home/user/iwads"));
    assert!(differs_from_default("/home/user/iwads", "/home/user/iwads/"));
    assert!(differs_from_default("", "/home/user/iwads"));
    assert!(!differs_from_default("", ""));
}

#[test]
fn default_files_are_the_default_or_none() {
    assert!(default_files("").is_empty());
    assert_eq!(default_files("/usr/share/games/doom/doom2.wad"), ["/usr/share/games/doom/doom2.wad"]);
}
