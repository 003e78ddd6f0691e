use wows_replays::rpc::typedefs::{
    dict_get, parse_aliases, parse_type, ArgType, ArgValue, FixedDictProperty, PrimitiveType, TypeAliases,
};
use wows_replays::rpc::xml::parse_xml;

#[test]
fn test_argtype() {
    let doc = "<Arg> UINT8 </Arg>";
    let nodes = parse_xml(doc).unwrap();
    let root = 0;
    assert_eq!(
        parse_type(&nodes, root, &TypeAliases::new()).unwrap(),
        ArgType::Primitive(PrimitiveType::Uint8)
    );
}

#[test]
fn test_int16() {
    let doc = "<Arg> INT16 </Arg>";
    let nodes = parse_xml(doc).unwrap();
    let root = 0;
    assert_eq!(
        parse_type(&nodes, root, &TypeAliases::new()).unwrap(),
        ArgType::Primitive(PrimitiveType::Int16)
    );
}

#[test]
fn test_fixed_dict() {
    let doc = "<Arg>
            FIXED_DICT
            <Properties>
                <byShip><Type>FLOAT</Type></byShip>
                <byPlane><Type>FLOAT</Type></byPlane>
                <bySmoke><Type>FLOAT</Type></bySmoke>
            </Properties>
        </Arg>";
    let nodes = parse_xml(doc).unwrap();
    let root = 1;
    let t = parse_type(&nodes, root, &TypeAliases::new()).unwrap();
    assert_eq!(
        t,
        ArgType::FixedDict((
            false,
            vec![
                FixedDictProperty {
                    name: "byShip".to_string(),
                    prop_type: ArgType::Primitive(PrimitiveType::Float32),
                },
                FixedDictProperty {
                    name: "byPlane".to_string(),
                    prop_type: ArgType::Primitive(PrimitiveType::Float32),
                },
                FixedDictProperty {
                    name: "bySmoke".to_string(),
                    prop_type: ArgType::Primitive(PrimitiveType::Float32),
                }
            ]
        ))
    );
    assert_eq!(t.sort_size(), 12);
}

#[test]
fn test_crew_modifiers() {
    let alias = "<CREW_MODIFIERS_COMPACT_PARAMS>
            FIXED_DICT
            <Properties>
                <paramsId><Type>UINT32</Type></paramsId>
                <isInAdaptation><Type>BOOL</Type></isInAdaptation>
                <learnedSkills><Type>ARRAY<of>ARRAY<of>UINT8</of></of></Type></learnedSkills>
            </Properties>
            <implementedBy>CrewModifiers.crewModifiersCompactParamsConverter</implementedBy>
        </CREW_MODIFIERS_COMPACT_PARAMS>";
    let nodes = parse_xml(alias).unwrap();
    let root = 1;
    let mut aliases = TypeAliases::new();
    aliases.push(("BOOL".to_string(), ArgType::Primitive(PrimitiveType::Uint8)));
    let crew = parse_type(&nodes, root, &aliases).unwrap();
    aliases.push(("CREW_MODIFIERS_COMPACT_PARAMS".to_string(), crew));

    let proptype = "<Type>CREW_MODIFIERS_COMPACT_PARAMS</Type>";
    let nodes = parse_xml(proptype).unwrap();
    let root = 0;
    let t = parse_type(&nodes, root, &aliases).unwrap();
    assert_eq!(t.sort_size(), 65535);
}

#[test]
fn test_fixeddict_allownone() {
    let spec = "<TRIGGERS_STATE>
            FIXED_DICT
            <Properties>
                <modifier><Type> MODIFIER_STATE </Type></modifier>
            </Properties>
            <AllowNone>true</AllowNone>
        </TRIGGERS_STATE>";
    let mut aliases = TypeAliases::new();
    aliases.push(("MODIFIER_STATE".to_string(), ArgType::Primitive(PrimitiveType::Uint32)));

    let nodes = parse_xml(spec).unwrap();
    let root = 1;
    let t = parse_type(&nodes, root, &aliases).unwrap();

    let data = [0];
    let (data, end) = t.parse_value(&data, 0).unwrap();
    assert_eq!(1 - end, 0);
    assert_eq!(data, ArgValue::NullableFixedDict(None));

    let data = [1, 5, 0, 0, 0];
    let (data, end) = t.parse_value(&data, 0).unwrap();
    assert_eq!(5 - end, 0);
    let m = match data {
        ArgValue::NullableFixedDict(Some(h)) => h,
        _ => panic!(),
    };
    assert_eq!(*dict_get(&m, "modifier").unwrap(), ArgValue::Uint32(5));
}

#[test]
fn test_fixedsize_array() {
    let spec = "<Type>ARRAY<of>UINT16</of><size>2</size></Type>";
    let nodes = parse_xml(spec).unwrap();
    let root = 1;
    let aliases = TypeAliases::new();
    let t = parse_type(&nodes, root, &aliases).unwrap();

    let data = [1, 0, 3, 0];
    let (data, end) = t.parse_value(&data, 0).unwrap();
    assert_eq!(4 - end, 0);
    assert_eq!(data, ArgValue::Array(vec![ArgValue::Uint16(1), ArgValue::Uint16(3)]));
}

#[test]
fn unknown_type_name_is_an_error() {
    let nodes = parse_xml("<Type>NOT_A_TYPE</Type>").unwrap();
    assert!(parse_type(&nodes, 0, &TypeAliases::new()).is_err());
}

#[test]
fn later_alias_definition_wins() {
    let mut aliases = TypeAliases::new();
    aliases.push(("X".to_string(), ArgType::Primitive(PrimitiveType::Uint8)));
    aliases.push(("X".to_string(), ArgType::Primitive(PrimitiveType::Int64)));
    let nodes = parse_xml("<Type>X</Type>").unwrap();
    assert_eq!(parse_type(&nodes, 0, &aliases).unwrap(), ArgType::Primitive(PrimitiveType::Int64));
}

#[test]
fn aliases_file_is_read_in_order() {
    let xml = b"<root><BOOL> UINT8 </BOOL><POS> VECTOR3 </POS></root>";
    let aliases = parse_aliases(xml).unwrap();
    assert_eq!(aliases.len(), 2);
    assert_eq!(aliases[0].0, "BOOL");
    assert_eq!(aliases[0].1, ArgType::Primitive(PrimitiveType::Uint8));
    assert_eq!(aliases[1].0, "POS");
    assert_eq!(aliases[1].1, ArgType::Primitive(PrimitiveType::Vector3));
}

#[test]
fn vector3_sort_size_is_twelve() {
    assert_eq!(ArgType::Primitive(PrimitiveType::Vector3).sort_size(), 12);
    assert_eq!(ArgType::Primitive(PrimitiveType::String).sort_size(), 65535);
}

#[test]
fn nullable_dictionary_flag_is_read_before_any_field() {
    let tuple = ArgType::Tuple((Box::new(ArgType::Primitive(PrimitiveType::Uint8)), 2));
    let t = ArgType::FixedDict((true, vec![FixedDictProperty { name: "t".to_string(), prop_type: tuple }]));
    match t.parse_value(&[7, 1, 2], 0) {
        Err(wows_replays::error::ErrorKind::UnknownFixedDictFlag { flag, packet }) => {
            assert_eq!(flag, 7);
            assert_eq!(packet, vec![1, 2]);
        }
        other => panic!("{:?}", other),
    }
    assert!(matches!(t.parse_value(&[0], 0), Ok((ArgValue::NullableFixedDict(None), 1))));
}

#[test]
fn fixed_size_value_takes_exactly_its_sort_size() {
    let t = ArgType::FixedDict((
        false,
        vec![
            FixedDictProperty { name: "a".to_string(), prop_type: ArgType::Primitive(PrimitiveType::Uint16) },
            FixedDictProperty {
                name: "b".to_string(),
                prop_type: ArgType::Array((Some(2), Box::new(ArgType::Primitive(PrimitiveType::Uint8)))),
            },
        ],
    ));
    assert_eq!(t.sort_size(), 4);
    let data = [9, 9, 1, 0, 2, 3, 7, 7];
    let (_, end) = t.parse_value(&data, 2).unwrap();
    assert_eq!(end, 2 + t.sort_size());
}

#[test]
fn a_tuple_is_reached_only_where_reading_gets_to_it() {
    let tuple = ArgType::Tuple((Box::new(ArgType::Primitive(PrimitiveType::Uint8)), 2));
    let t = ArgType::FixedDict((true, vec![FixedDictProperty { name: "t".to_string(), prop_type: tuple }]));
    assert!(!t.reaches_tuple(&[0], 0));
    assert!(!t.reaches_tuple(&[7], 0));
    assert!(t.reaches_tuple(&[1, 5, 6], 0));
    let arr = ArgType::Array((None, Box::new(t)));
    assert!(!arr.reaches_tuple(&[2, 0, 0], 0));
    assert!(arr.reaches_tuple(&[2, 0, 1], 0));
}
