use wows_replays::nested_property_path::{
    get_nested_prop_path_helper, index_bits_of, read_bits, PropertyNestLevel, UpdateAction,
};
use wows_replays::rpc::typedefs::{ArgType, ArgValue, FixedDictProperty, PrimitiveType};

fn u8_array() -> ArgType {
    ArgType::Array((None, Box::new(ArgType::Primitive(PrimitiveType::Uint8))))
}

#[test]
fn index_bits_needed_for_n_entries() {
    assert_eq!(index_bits_of(0), 0);
    assert_eq!(index_bits_of(1), 0);
    assert_eq!(index_bits_of(2), 1);
    assert_eq!(index_bits_of(3), 2);
    assert_eq!(index_bits_of(4), 2);
    assert_eq!(index_bits_of(5), 3);
    assert_eq!(index_bits_of(256), 8);
}

#[test]
fn bits_are_read_most_significant_first() {
    let data = [0b1010_0110u8, 0b1100_0000];
    assert_eq!(read_bits(&data, 0, 3), Some(0b101));
    assert_eq!(read_bits(&data, 6, 4), Some(0b1011));
    assert_eq!(read_bits(&data, 0, 0), Some(0));
    assert_eq!(read_bits(&data, 14, 3), None);
}

#[test]
fn element_of_an_array_is_set() {
    let mut v = ArgValue::Array(vec![ArgValue::Uint8(1), ArgValue::Uint8(2), ArgValue::Uint8(3)]);
    // Command bit 0, index 1 in two bits, then the new value from the next byte.
    let n = get_nested_prop_path_helper(false, &u8_array(), &mut v, &[0b0010_0000, 9], 0).unwrap();
    assert!(n.levels.is_empty());
    match n.action {
        UpdateAction::SetElement { index, value } => {
            assert_eq!(index, 1);
            assert_eq!(value, ArgValue::Uint8(9));
        }
        other => panic!("{:?}", other),
    }
    assert_eq!(v, ArgValue::Array(vec![ArgValue::Uint8(1), ArgValue::Uint8(9), ArgValue::Uint8(3)]));
}

#[test]
fn slice_of_an_array_is_replaced() {
    let mut v = ArgValue::Array(vec![ArgValue::Uint8(1), ArgValue::Uint8(2), ArgValue::Uint8(3)]);
    // Command bit 0, then indices 1 and 2 in two bits each: 0 01 10 000.
    let n = get_nested_prop_path_helper(true, &u8_array(), &mut v, &[0b0011_0000, 7, 8], 0).unwrap();
    assert!(matches!(n.action, UpdateAction::SetRange { start: 1, stop: 2, .. }));
    assert_eq!(
        v,
        ArgValue::Array(vec![ArgValue::Uint8(1), ArgValue::Uint8(7), ArgValue::Uint8(8), ArgValue::Uint8(3)])
    );
}

#[test]
fn slice_with_no_values_removes_a_range() {
    let mut v = ArgValue::Array(vec![ArgValue::Uint8(1), ArgValue::Uint8(2), ArgValue::Uint8(3)]);
    let n = get_nested_prop_path_helper(true, &u8_array(), &mut v, &[0b0001_1000], 0).unwrap();
    assert!(matches!(n.action, UpdateAction::RemoveRange { start: 0, stop: 3 }));
    assert_eq!(v, ArgValue::Array(vec![]));
}

#[test]
fn path_descends_into_dictionary_then_array() {
    let t = ArgType::FixedDict((
        false,
        vec![
            FixedDictProperty { name: "a".to_string(), prop_type: ArgType::Primitive(PrimitiveType::Uint8) },
            FixedDictProperty { name: "list".to_string(), prop_type: u8_array() },
        ],
    ));
    let mut v = ArgValue::FixedDict(vec![
        ("a".to_string(), ArgValue::Uint8(0)),
        ("list".to_string(), ArgValue::Array(vec![ArgValue::Uint8(4), ArgValue::Uint8(5)])),
    ]);
    // 1 (descend) 1 (index of "list"), 0 (command) 1 (element 1), then value 6.
    let n = get_nested_prop_path_helper(false, &t, &mut v, &[0b1101_0000, 6], 0).unwrap();
    assert_eq!(n.levels.len(), 1);
    assert!(matches!(&n.levels[0], PropertyNestLevel::DictKey(k) if k == "list"));
    assert!(matches!(n.action, UpdateAction::SetElement { index: 1, .. }));
    assert_eq!(
        v,
        ArgValue::FixedDict(vec![
            ("a".to_string(), ArgValue::Uint8(0)),
            ("list".to_string(), ArgValue::Array(vec![ArgValue::Uint8(4), ArgValue::Uint8(6)])),
        ])
    );
}

#[test]
fn failed_update_leaves_the_value() {
    let mut v = ArgValue::Array(vec![ArgValue::Uint8(1)]);
    // Index 0 needs no bits; no value bytes follow, so a single update fails.
    assert!(get_nested_prop_path_helper(false, &u8_array(), &mut v, &[0], 0).is_err());
    assert_eq!(v, ArgValue::Array(vec![ArgValue::Uint8(1)]));
    let mut w = ArgValue::Uint8(3);
    assert!(get_nested_prop_path_helper(false, &u8_array(), &mut w, &[0], 0).is_err());
    assert_eq!(w, ArgValue::Uint8(3));
}

#[test]
fn path_levels_run_from_the_root_outward() {
    let score = ArgType::FixedDict((
        false,
        vec![FixedDictProperty { name: "score".to_string(), prop_type: ArgType::Primitive(PrimitiveType::Uint32) }],
    ));
    let teams = ArgType::FixedDict((
        false,
        vec![FixedDictProperty { name: "teamsScore".to_string(), prop_type: ArgType::Array((None, Box::new(score))) }],
    ));
    let t = ArgType::FixedDict((false, vec![FixedDictProperty { name: "missions".to_string(), prop_type: teams }]));
    let team = |s: u32| ArgValue::FixedDict(vec![("score".to_string(), ArgValue::Uint32(s))]);
    let mut v = ArgValue::FixedDict(vec![(
        "missions".to_string(),
        ArgValue::FixedDict(vec![("teamsScore".to_string(), ArgValue::Array(vec![team(10), team(20)]))]),
    )]);
    // Descend into "missions", "teamsScore" and element 0 (one index bit),
    // then the command bit; the new score follows in the next bytes.
    let n = get_nested_prop_path_helper(false, &t, &mut v, &[0b1110_0000, 204, 0, 0, 0], 0).unwrap();
    assert_eq!(n.levels.len(), 3);
    assert!(matches!(&n.levels[0], PropertyNestLevel::DictKey(k) if k == "missions"));
    assert!(matches!(&n.levels[1], PropertyNestLevel::DictKey(k) if k == "teamsScore"));
    assert!(matches!(&n.levels[2], PropertyNestLevel::ArrayIndex(0)));
    match n.action {
        UpdateAction::SetKey { key, value } => {
            assert_eq!(key, "score");
            assert_eq!(value, ArgValue::Uint32(204));
        }
        other => panic!("{:?}", other),
    }
}
