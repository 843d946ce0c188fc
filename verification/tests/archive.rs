use std::io::Read;

use intershare_core::archive::{build_archive, PathNode};
use intershare_core::session::file_name_for;

fn dir_tree() -> Vec<PathNode> {
    vec![PathNode::Dir {
        name: b"d".to_vec(),
        children: vec![
            PathNode::File { name: b"x.txt".to_vec(), data: b"hello x".to_vec() },
            PathNode::Dir {
                name: b"sub".to_vec(),
                children: vec![PathNode::File {
                    name: b"y.txt".to_vec(),
                    data: b"hello y".to_vec(),
                }],
            },
        ],
    }]
}

#[test]
fn directory_send_entries_under_basename() {
    let roots = dir_tree();
    let (bytes, size) = build_archive(&roots).unwrap();
    assert_eq!(size as usize, bytes.len());

    // Decompress with the zip crate and check the union of the paths, with
    // directory structure preserved under the root's basename.
    let mut archive = zip::ZipArchive::new(std::io::Cursor::new(bytes)).unwrap();
    let names: Vec<String> = archive.file_names().map(|s| s.to_string()).collect();
    assert!(names.iter().any(|n| n == "d/x.txt"));
    assert!(names.iter().any(|n| n == "d/sub/y.txt"));

    let mut x = String::new();
    archive.by_name("d/x.txt").unwrap().read_to_string(&mut x).unwrap();
    assert_eq!(x, "hello x");
    let mut y = String::new();
    archive.by_name("d/sub/y.txt").unwrap().read_to_string(&mut y).unwrap();
    assert_eq!(y, "hello y");

    // The single selected path carries the directory basename as file_name.
    assert_eq!(file_name_for(&roots), Some(b"d".to_vec()));
}

#[test]
fn single_file_archive_uses_basename() {
    let roots = vec![PathNode::File { name: b"a.bin".to_vec(), data: vec![0u8; 1024] }];
    let (bytes, size) = build_archive(&roots).unwrap();
    assert_eq!(size as usize, bytes.len());
    // The container is a real compressed archive, not the raw contents.
    assert_eq!(&bytes[0..2], b"PK");
    let mut archive = zip::ZipArchive::new(std::io::Cursor::new(bytes)).unwrap();
    let mut data = Vec::new();
    archive.by_name("a.bin").unwrap().read_to_end(&mut data).unwrap();
    assert_eq!(data, vec![0u8; 1024]);
    assert_eq!(file_name_for(&roots), Some(b"a.bin".to_vec()));
}

#[test]
fn separators_are_normalized() {
    let roots = vec![PathNode::File { name: b"a\\b.txt".to_vec(), data: b"z".to_vec() }];
    let (bytes, _) = build_archive(&roots).unwrap();
    let archive = zip::ZipArchive::new(std::io::Cursor::new(bytes)).unwrap();
    let names: Vec<String> = archive.file_names().map(|s| s.to_string()).collect();
    assert!(names.iter().any(|n| n == "a/b.txt"));
}

#[test]
fn empty_path_list_gives_empty_archive() {
    let roots: Vec<PathNode> = Vec::new();
    let (bytes, size) = build_archive(&roots).unwrap();
    assert_eq!(size as usize, bytes.len());
    let archive = zip::ZipArchive::new(std::io::Cursor::new(bytes)).unwrap();
    assert_eq!(archive.len(), 0);
}

#[test]
fn several_paths_have_no_file_name() {
    let roots = vec![
        PathNode::File { name: b"a".to_vec(), data: vec![] },
        PathNode::File { name: b"b".to_vec(), data: vec![] },
    ];
    assert_eq!(file_name_for(&roots), None);
}

#[test]
fn duplicate_entry_names_fail_the_build() {
    let roots = vec![
        PathNode::File { name: b"same.txt".to_vec(), data: b"one".to_vec() },
        PathNode::File { name: b"same.txt".to_vec(), data: b"two".to_vec() },
    ];
    assert!(build_archive(&roots).is_err());
}

#[test]
fn invalid_utf8_entry_name_fails_the_build() {
    let roots = vec![PathNode::File { name: vec![0xFFu8, 0xFE], data: b"x".to_vec() }];
    assert!(build_archive(&roots).is_err());
}

#[test]
fn entry_order_shapes_the_container() {
    // The container bytes depend on the interleaving of file and directory
    // entries, not just on the two sets.
    let a = vec![
        PathNode::File { name: b"a".to_vec(), data: b"z".to_vec() },
        PathNode::Dir { name: b"e".to_vec(), children: vec![] },
    ];
    let b = vec![
        PathNode::Dir { name: b"e".to_vec(), children: vec![] },
        PathNode::File { name: b"a".to_vec(), data: b"z".to_vec() },
    ];
    let (bytes_a, _) = build_archive(&a).unwrap();
    let (bytes_b, _) = build_archive(&b).unwrap();
    assert_ne!(bytes_a, bytes_b);
}
