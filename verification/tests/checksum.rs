use dhxs_launcher::utils::{crc32, crc32_chunks, env_expand, Checksum, BUFFER_SIZE};

#[test]
fn crc32_of_check_string() {
    assert_eq!(crc32(b"123456789"), 0xcbf43926);
}

#[test]
fn crc32_of_nothing() {
    assert_eq!(crc32(b""), 0);
}

#[test]
fn crc32_of_sentence() {
    assert_eq!(crc32(b"The quick brown fox jumps over the lazy dog"), 0x414fa339);
}

#[test]
fn crc32_is_repeatable() {
    let data: Vec<u8> = (0..10_000u32).map(|i| (i * 7 + 3) as u8).collect();
    let copy = data.clone();
    assert_eq!(crc32(&data), crc32(&data));
    assert_eq!(crc32(&data), crc32(&copy));
}

#[test]
fn crc32_over_several_buffers_is_that_of_the_whole() {
    let data: Vec<u8> = (0..(3 * BUFFER_SIZE as u32 + 17)).map(|i| (i % 251) as u8).collect();
    assert_eq!(crc32(&data), crc32fast::hash(&data));
    let exact: Vec<u8> = (0..(2 * BUFFER_SIZE as u32)).map(|i| (i % 13) as u8).collect();
    assert_eq!(crc32(&exact), crc32fast::hash(&exact));
}

#[test]
fn crc32_tells_content_apart() {
    assert_ne!(crc32(b"doom"), crc32(b"doom2"));
    assert_ne!(crc32(b"a"), crc32(b"b"));
}

#[test]
fn checksum_in_pieces_is_that_of_the_whole() {
    let mut checksum = Checksum::new();
    checksum.update(b"1234");
    checksum.update(b"");
    checksum.update(b"56789");
    assert_eq!(checksum.finalize(), 0xcbf43926);
    assert_eq!(Checksum::new().finalize(), 0);
}

#[test]
fn chunks_do_not_matter() {
    let a = vec![b"12".to_vec(), b"3456".to_vec(), b"789".to_vec()];
    let b = vec![b"123456789".to_vec()];
    let c = vec![Vec::new(), b"1".to_vec(), b"2345678".to_vec(), b"9".to_vec(), Vec::new()];
    assert_eq!(crc32_chunks(&a), 0xcbf43926);
    assert_eq!(crc32_chunks(&b), 0xcbf43926);
    assert_eq!(crc32_chunks(&c), 0xcbf43926);
    assert_eq!(crc32_chunks(&Vec::new()), 0);
}

#[test]
fn buffer_size() {
    assert_eq!(BUFFER_SIZE, 4096);
}

#[test]
fn plain_path_is_not_expanded() {
    for path in ["/usr/share/games/doom", "", "wads", "/a~b", "/home/u/.config/dhxs-launcher/iwads", "a/~"] {
        assert_eq!(env_expand(path), path);
    }
}
