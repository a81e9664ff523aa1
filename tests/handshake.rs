use forkserver_simple::handshake::{
    add_token, bytes_equal, dict_size_valid, dict_tokens, negotiate, parse_autodict,
    FS_OPT_AUTODICT, FS_OPT_ENABLED, FS_OPT_MAPSIZE, FS_OPT_SHDMEM_FUZZ,
};

#[test]
fn hello_without_options() {
    let n = negotiate(0, true, true);
    assert_eq!(n.map_size, None);
    assert_eq!(n.reply, None);
    assert!(!n.shmem_input && !n.autodict);
    let n = negotiate(FS_OPT_AUTODICT | FS_OPT_MAPSIZE, true, true);
    assert_eq!(n.map_size, None);
    assert_eq!(n.reply, None);
}

#[test]
fn hello_announces_map_size() {
    let n = negotiate(FS_OPT_ENABLED | FS_OPT_MAPSIZE | (65535 << 1), false, false);
    assert_eq!(n.map_size, Some(65536));
    assert_eq!(n.reply, None);
    let n = negotiate(FS_OPT_ENABLED | FS_OPT_MAPSIZE | (99 << 1), false, false);
    assert_eq!(n.map_size, Some(128));
}

#[test]
fn hello_features_taken() {
    let n = negotiate(FS_OPT_ENABLED | FS_OPT_AUTODICT, false, true);
    assert!(n.autodict && !n.shmem_input);
    assert_eq!(n.reply, Some(0x9000_0001));
    let n = negotiate(FS_OPT_ENABLED | FS_OPT_AUTODICT | FS_OPT_SHDMEM_FUZZ, true, false);
    assert!(!n.autodict && n.shmem_input);
    assert_eq!(n.reply, Some(0x8100_0001));
    let n = negotiate(FS_OPT_ENABLED | FS_OPT_AUTODICT, false, false);
    assert_eq!(n.reply, None);
}

#[test]
fn dictionary_size_bounds() {
    assert!(!dict_size_valid(1));
    assert!(dict_size_valid(2));
    assert!(dict_size_valid(0xffffff));
    assert!(!dict_size_valid(0x1000000));
    assert!(!dict_size_valid(-5));
}

#[test]
fn autodict_records() {
    let b = vec![3, b'a', b'b', b'c', 0, 2, b'x', b'y', 3, b'a', b'b', b'c'];
    assert_eq!(
        dict_tokens(&b),
        Some(vec![b"abc".to_vec(), b"xy".to_vec(), b"abc".to_vec()])
    );
    assert_eq!(parse_autodict(&b), Some(vec![b"abc".to_vec(), b"xy".to_vec()]));
    assert_eq!(parse_autodict(&vec![]), Some(vec![]));
    assert_eq!(parse_autodict(&vec![5, 1, 2]), None);
    assert_eq!(parse_autodict(&vec![1, 7, 2, 8]), None);
}

#[test]
fn token_list_dedup() {
    let mut t: Vec<Vec<u8>> = vec![vec![1, 2]];
    add_token(&mut t, vec![1, 2]);
    assert_eq!(t.len(), 1);
    add_token(&mut t, vec![1]);
    assert_eq!(t, vec![vec![1, 2], vec![1]]);
    assert!(bytes_equal(&vec![4, 5], &vec![4, 5]));
    assert!(!bytes_equal(&vec![4, 5], &vec![4, 6]));
    assert!(!bytes_equal(&vec![4], &vec![4, 5]));
}
