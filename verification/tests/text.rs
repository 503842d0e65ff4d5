use dhxs_launcher::text::{
    bytes_before, insert_name, join_names, join_path, name_before, str_eq,
};

#[test]
fn join_path_adds_one_slash() {
    assert_eq!(join_path("/usr/share/graphics", "a.pk3"), "/usr/share/graphics/a.pk3");
    assert_eq!(join_path("/usr/share/graphics/", "a.pk3"), "/usr/share/graphics/a.pk3");
    assert_eq!(join_path("", "a.pk3"), "a.pk3");
    assert_eq!(join_path("/", "a.pk3"), "/a.pk3");
    assert_eq!(join_path("/données", "é.pk3"), "/données/é.pk3");
}

#[test]
fn names_are_ordered_by_bytes() {
    assert!(name_before("SIGIL", "SIGIL II", false));
    assert!(!name_before("SIGIL II", "SIGIL", false));
    assert!(!name_before("SIGIL", "SIGIL", false));
    assert!(name_before("", "a", false));
    assert!(!name_before("a", "", false));
    assert!(!name_before("", "", false));
    assert!(name_before("Zebra", "apple", false));
    assert!(name_before("abc", "abd", false));
    assert!(name_before("z", "é", false));
}

#[test]
fn names_are_ordered_without_case() {
    assert!(name_before("apple", "Zebra", true));
    assert!(!name_before("Zebra", "apple", true));
    assert!(!name_before("GZDoom", "gzdoom", true));
    assert!(!name_before("gzdoom", "GZDoom", true));
    assert!(name_before("DSDA-Doom", "GZDoom", true));
    assert!(name_before("VKDoom", "Woof!", true));
    assert!(name_before("[", "a", true));
    assert!(name_before("@", "A", true));
    assert!(name_before("[", "Z", true));
    assert!(name_before("Z", "[", false));
}

#[test]
fn bytes_are_ordered() {
    assert!(bytes_before(&[1, 2], &[1, 3], false));
    assert!(bytes_before(&[1, 2], &[1, 2, 0], false));
    assert!(!bytes_before(&[1, 2, 0], &[1, 2], false));
    assert!(!bytes_before(&[2], &[1, 9], false));
    assert!(bytes_before(&[0x41], &[0x62], true));
    assert!(!bytes_before(&[0x61], &[0x41], true));
    assert!(bytes_before(&[0x5a], &[0x5b], false));
    assert!(!bytes_before(&[0x5a], &[0x5b], true));
}

#[test]
fn strings_are_compared_by_content() {
    assert!(str_eq("", ""));
    assert!(str_eq("/usr/bin/gzdoom", "/usr/bin/gzdoom"));
    assert!(!str_eq("/usr/bin/gzdoom", "/usr/bin/gzdooM"));
    assert!(!str_eq("abc", "abcd"));
    assert!(!str_eq("abcd", "abc"));
    assert!(str_eq("é", "é"));
}

#[test]
fn names_are_joined_with_commas() {
    assert_eq!(join_names(&Vec::new()), "");
    assert_eq!(join_names(&vec!["Doom".to_string()]), "Doom");
    assert_eq!(join_names(&vec!["Doom".to_string(), "Hexen".to_string()]), "Doom, Hexen");
    assert_eq!(
        join_names(&vec!["a".to_string(), String::new(), "c".to_string()]),
        "a, , c"
    );
}

#[test]
fn names_are_inserted_in_order_once() {
    let mut names: Vec<String> = Vec::new();
    for name in ["m", "a", "z", "m", "b", "a", "zz", ""] {
        insert_name(&mut names, name);
    }
    assert_eq!(names, ["", "a", "b", "m", "z", "zz"]);
}

#[test]
fn join_path_agrees_with_the_standard_join() {
    for root in ["", "/", "/a", "/a/", "a", "a/b", "/usr/share/d-launcher/graphics/"] {
        for name in ["x", "x.pk3", "x/y.pk3", "hires-doom-a.pk3"] {
            let expected = std::path::Path::new(root).join(name).display().to_string();
            assert_eq!(join_path(root, name), expected);
        }
    }
}
