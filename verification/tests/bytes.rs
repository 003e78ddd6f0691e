use wows_replays::bytes::{read_i16, read_i32, read_i64, read_i8, read_u16, read_u32, read_u32_list, read_u64, read_u8, take};
use wows_replays::rpc::xml::{children_elements, find_child, parse_xml, trimmed};

#[test]
fn little_endian_readers() {
    let d = [0x01u8, 0x02, 0x03, 0x04, 0x05, 0x06, 0x07, 0x88];
    assert_eq!(read_u8(&d, 7), Some((0x88, 8)));
    assert_eq!(read_u16(&d, 0), Some((0x0201, 2)));
    assert_eq!(read_u32(&d, 1), Some((0x05040302, 5)));
    assert_eq!(read_u64(&d, 0), Some((0x8807060504030201, 8)));
    assert_eq!(read_i8(&d, 7), Some((-120, 8)));
    assert_eq!(read_i16(&[0xff, 0xff], 0), Some((-1, 2)));
    assert_eq!(read_i32(&[0xfe, 0xff, 0xff, 0xff], 0), Some((-2, 4)));
    assert_eq!(read_i64(&d, 0), Some((0x8807060504030201u64 as i64, 8)));
}

#[test]
fn readers_refuse_short_input() {
    let d = [1u8, 2, 3];
    assert_eq!(read_u32(&d, 0), None);
    assert_eq!(read_u16(&d, 2), None);
    assert_eq!(read_u8(&d, 3), None);
    assert_eq!(read_u8(&d, 100), None);
    assert_eq!(take(&d, 1, 2), Some((vec![2, 3], 3)));
    assert_eq!(take(&d, 2, 2), None);
}

#[test]
fn u32_lists_are_counted() {
    let mut d = 2u32.to_le_bytes().to_vec();
    d.extend_from_slice(&5u32.to_le_bytes());
    d.extend_from_slice(&6u32.to_le_bytes());
    assert_eq!(read_u32_list(&d, 0), Some((vec![5, 6], 12)));
    assert_eq!(read_u32_list(&d[..8], 0), None);
}

#[test]
fn xml_nodes_are_listed_in_document_order() {
    let nodes = parse_xml("<a><b>x</b><c/><b>y</b></a>").unwrap();
    assert_eq!(nodes[0].is_element, false);
    assert_eq!(nodes[1].name, "a");
    let bs = children_elements(&nodes, 1);
    assert_eq!(bs.iter().map(|&i| nodes[i].name.clone()).collect::<Vec<_>>(), vec!["b", "c", "b"]);
    let first_b = find_child(&nodes, 1, Some("b"), 0).unwrap();
    assert_eq!(nodes[first_b].text.as_deref(), Some("x"));
    let second_b = find_child(&nodes, 1, Some("b"), first_b + 1).unwrap();
    assert_eq!(nodes[second_b].text.as_deref(), Some("y"));
    assert!(find_child(&nodes, 1, Some("d"), 0).is_none());
    assert!(parse_xml("<a><b></a>").is_none());
    assert_eq!(trimmed("  t x \n"), "t x");
}
