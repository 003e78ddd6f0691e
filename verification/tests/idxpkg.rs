use std::io::Write;

use wows_replays::idxpkg::{extract, parse_file, parse_header, parse_node, parse_trailer, FileRecord, IdxSet};

fn le32(v: i32) -> [u8; 4] {
    v.to_le_bytes()
}

fn le64(v: i64) -> [u8; 8] {
    v.to_le_bytes()
}

/// An index of three nodes `res/gui/a.png` (ids 1, 2, 3) and one file
/// record for id `file_id`, in package `example.pkg`.
fn sample_index(file_id: u64, gui_parent: u64) -> Vec<u8> {
    let mut d: Vec<u8> = Vec::new();
    d.extend_from_slice(b"ISFP");
    d.extend_from_slice(&[7u8; 12]);
    d.extend_from_slice(&le32(3));
    d.extend_from_slice(&le32(1));
    d.extend_from_slice(&le64(-5));
    d.extend_from_slice(&le64(9));
    d.extend_from_slice(&le64(152));
    d.extend_from_slice(&le64(200));
    assert_eq!(d.len(), 56);
    let nodes: [(i64, u64, u64); 3] = [(96, 1, 0), (68, 2, gui_parent), (40, 3, 2)];
    for (ptr, id, parent) in nodes.iter() {
        d.extend_from_slice(&[0u8; 8]);
        d.extend_from_slice(&le64(*ptr));
        d.extend_from_slice(&id.to_le_bytes());
        d.extend_from_slice(&parent.to_le_bytes());
    }
    assert_eq!(d.len(), 152);
    d.extend_from_slice(b"res\0gui\0a.png\0");
    d.extend_from_slice(&[0u8; 2]);
    assert_eq!(d.len(), 168);
    d.extend_from_slice(&file_id.to_le_bytes());
    d.extend_from_slice(&[0u8; 8]);
    d.extend_from_slice(&le64(1000));
    d.extend_from_slice(&[0u8; 8]);
    d.extend_from_slice(&le32(50));
    d.extend_from_slice(&[0u8; 4]);
    d.extend_from_slice(&le64(100));
    assert_eq!(d.len(), 216);
    d.extend_from_slice(&[0u8; 24]);
    d.extend_from_slice(b"example.pkg\0");
    d
}

#[test]
fn header_fields_are_read() {
    let d = sample_index(3, 1);
    let (h, end) = parse_header(&d).unwrap();
    assert_eq!(end, 56);
    assert_eq!(h.num_nodes, 3);
    assert_eq!(h.num_files, 1);
    assert_eq!(h.unknown1, -5);
    assert_eq!(h.unknown2, 9);
    assert_eq!(h.third_offset, 152);
    assert_eq!(h.trailer_offset, 200);
    assert_eq!(h.first_block, vec![7u8; 12]);
}

#[test]
fn header_needs_the_magic_number() {
    let mut d = sample_index(3, 1);
    d[0] = b'X';
    assert!(parse_header(&d).is_err());
    assert!(parse_header(&d[..40]).is_err());
}

#[test]
fn node_entry_fields_are_read() {
    let d = sample_index(3, 1);
    let ((unknown, ptr, id, parent), end) = parse_node(&d, 88).unwrap();
    assert_eq!(unknown, vec![0u8; 8]);
    assert_eq!(ptr, 68);
    assert_eq!(id, 2);
    assert_eq!(parent, 1);
    assert_eq!(end, 120);
    assert!(parse_node(&d, d.len() - 10).is_none());
}

#[test]
fn trailer_holds_the_package_name() {
    let d = sample_index(3, 1);
    assert_eq!(parse_trailer(&d, 216).unwrap(), "example.pkg");
    let mut no_zero = d.clone();
    no_zero.pop();
    assert_eq!(parse_trailer(&no_zero, 216).unwrap(), "example.pkg");
}

#[test]
fn whole_file_is_read() {
    let d = sample_index(3, 1);
    let (name, f) = parse_file(&d).unwrap();
    assert_eq!(name, "example.pkg");
    assert_eq!(f.pkg_name, "example.pkg");
    assert_eq!(f.nodes.len(), 3);
    assert_eq!(f.nodes[0].name, "res");
    assert_eq!(f.nodes[1].name, "gui");
    assert_eq!(f.nodes[2].name, "a.png");
    assert_eq!(f.files.len(), 1);
    assert_eq!(f.files[0].id, 3);
    assert_eq!(f.files[0].offset, 1000);
    assert_eq!(f.files[0].length, 50);
    assert_eq!(f.files[0].uncompressed_length, 100);
    assert_eq!(f.files[0].raw, d[168..216].to_vec());
}

#[test]
fn file_paths_join_the_names_from_the_root() {
    let d = sample_index(3, 1);
    let (_, f) = parse_file(&d).unwrap();
    assert!(f.paths_known());
    let paths = f.paths();
    assert_eq!(paths.len(), 1);
    assert_eq!(paths[0].0, "res/gui/a.png");
    assert_eq!(paths[0].1.id, 3);
}

#[test]
fn a_file_with_no_node_has_no_path() {
    let d = sample_index(42, 1);
    let (_, f) = parse_file(&d).unwrap();
    assert!(!f.paths_known());
}

#[test]
fn a_cycle_among_the_nodes_leaves_a_path_unknown() {
    let d = sample_index(3, 3);
    let (_, f) = parse_file(&d).unwrap();
    assert!(!f.paths_known());
}

#[test]
fn set_keeps_earlier_files_and_adds_new_ones() {
    let d = sample_index(3, 1);
    let (_, f) = parse_file(&d).unwrap();
    let mut set = IdxSet { files: vec![] };
    set.append(&f);
    set.append(&f);
    assert_eq!(set.files.len(), 2);
    for r in set.files.iter() {
        assert_eq!(r.pkg_name, "example.pkg");
        assert_eq!(r.path, "res/gui/a.png");
        assert_eq!(r.id, 3);
        assert_eq!(r.offset, 1000);
        assert_eq!(r.length, 50);
        assert_eq!(r.uncompressed_length, 100);
    }
}

#[test]
fn truncated_file_is_an_error() {
    let d = sample_index(3, 1);
    assert!(parse_file(&d[..200]).is_err());
}

fn record(offset: usize, length: usize, uncompressed_length: usize) -> FileRecord {
    FileRecord {
        pkg_name: "a.pkg".to_string(),
        path: "gui/x.txt".to_string(),
        id: 1,
        offset,
        length,
        uncompressed_length,
    }
}

#[test]
fn stored_file_is_cut_from_the_package() {
    let pkg = b"headerHELLOtrailer".to_vec();
    assert_eq!(extract(&pkg, &record(6, 5, 5)).unwrap(), b"HELLO".to_vec());
    assert!(extract(&pkg, &record(15, 5, 5)).is_err());
}

#[test]
fn compressed_file_is_inflated_to_its_length() {
    let text = b"the quick brown fox jumps over the lazy dog".to_vec();
    let mut enc = flate2::write::DeflateEncoder::new(Vec::new(), flate2::Compression::default());
    enc.write_all(&text).unwrap();
    let packed = enc.finish().unwrap();
    let mut pkg = vec![0u8; 3];
    pkg.extend_from_slice(&packed);
    assert_eq!(extract(&pkg, &record(3, packed.len(), text.len())).unwrap(), text);
    let mut corrupt = pkg.clone();
    for b in corrupt.iter_mut().skip(3) {
        *b = 0xff;
    }
    assert!(extract(&corrupt, &record(3, packed.len(), text.len())).is_err());
    assert!(extract(&pkg, &record(3, packed.len(), text.len() + 10)).is_err());
}
