use wows_replays::error::ErrorKind;
use wows_replays::rpc::entitydefs::{
    assemble_entity, def_path, entity_names, interface_chain, interface_path, parse_def, parse_scripts, DefFile,
    Flags,
};
use wows_replays::rpc::typedefs::{parse_aliases, ArgType, PrimitiveType, TypeAliases};
use wows_replays::version::DataFileWithCallback;

const VEHICLE_DEF: &str = "<root>
    <Implements><Interface>Iface</Interface></Implements>
    <Properties>
        <name><Type>STRING</Type><Flags>ALL_CLIENTS</Flags></name>
        <health><Type>FLOAT</Type><Flags>ALL_CLIENTS</Flags></health>
        <secret><Type>UINT8</Type><Flags>BASE</Flags></secret>
        <baseInfo><Type>UINT16</Type><Flags>BASE_AND_CLIENT</Flags></baseInfo>
    </Properties>
    <ClientMethods>
        <onBig><Arg>STRING</Arg></onBig>
        <onSmall><Arg>UINT8</Arg></onSmall>
    </ClientMethods>
    <BaseMethods><doIt><Arg>UINT32</Arg></doIt></BaseMethods>
</root>";

const IFACE_DEF: &str = "<root>
    <Properties><iprop><Type>BOOL</Type><Flags>OWN_CLIENT</Flags></iprop></Properties>
    <ClientMethods><onI></onI></ClientMethods>
</root>";

const AVATAR_DEF: &str = "<root>
    <ClientMethods>
        <onChat><Arg>UINT32</Arg><Arg>STRING</Arg></onChat>
        <onPing><Args><a>UINT8</a><b>UINT16</b></Args></onPing>
    </ClientMethods>
</root>";

fn aliases() -> TypeAliases {
    parse_aliases(b"<root><BOOL>UINT8</BOOL></root>").unwrap()
}

fn names<T>(v: &[T], f: impl Fn(&T) -> &str) -> Vec<String> {
    v.iter().map(|x| f(x).to_string()).collect()
}

#[test]
fn definition_sections_are_read() {
    let d = parse_def(VEHICLE_DEF.as_bytes(), &aliases()).unwrap();
    assert_eq!(d.implements, vec!["Iface".to_string()]);
    assert_eq!(names(&d.properties, |p| p.name.as_str()), vec!["name", "health", "secret", "baseInfo"]);
    assert_eq!(d.properties[1].prop_type, ArgType::Primitive(PrimitiveType::Float32));
    assert_eq!(d.properties[2].flags, Flags::Base);
    assert_eq!(names(&d.base_methods, |m| m.name.as_str()), vec!["doIt"]);
    assert!(d.cell_methods.is_empty());
    // Client methods are ordered by sort size.
    assert_eq!(names(&d.client_methods, |m| m.name.as_str()), vec!["onSmall", "onBig"]);
    assert_eq!(d.client_methods[0].sort_size(), 2);
    assert_eq!(d.client_methods[1].sort_size(), 65536);
}

#[test]
fn method_arguments_come_from_arg_and_args() {
    let d = parse_def(AVATAR_DEF.as_bytes(), &aliases()).unwrap();
    let chat = d.client_methods.iter().find(|m| m.name == "onChat").unwrap();
    assert_eq!(
        chat.args,
        vec![ArgType::Primitive(PrimitiveType::Uint32), ArgType::Primitive(PrimitiveType::String)]
    );
    assert_eq!(chat.variable_length_header_size, 1);
    let ping = d.client_methods.iter().find(|m| m.name == "onPing").unwrap();
    assert_eq!(
        ping.args,
        vec![ArgType::Primitive(PrimitiveType::Uint8), ArgType::Primitive(PrimitiveType::Uint16)]
    );
    assert_eq!(ping.sort_size(), 4);
}

#[test]
fn unknown_flag_or_type_is_an_error() {
    let bad_flag = "<root><Properties><p><Type>UINT8</Type><Flags>NOWHERE</Flags></p></Properties></root>";
    assert!(parse_def(bad_flag.as_bytes(), &aliases()).is_err());
    let bad_type = "<root><Properties><p><Type>NOPE</Type><Flags>BASE</Flags></p></Properties></root>";
    assert!(parse_def(bad_type.as_bytes(), &aliases()).is_err());
    assert!(parse_def(b"<notroot/>", &aliases()).is_err());
    assert!(matches!(parse_def(&[0xff, 0xfe], &aliases()), Err(ErrorKind::Utf8Error)));
}

#[test]
fn entity_names_are_listed_in_order() {
    let xml = b"<root><ClientServerEntities><Avatar/><Vehicle/></ClientServerEntities></root>";
    assert_eq!(entity_names(xml).unwrap(), vec!["Avatar".to_string(), "Vehicle".to_string()]);
    assert!(entity_names(b"<root><Other/></root>").is_err());
}

#[test]
fn paths_of_definitions() {
    assert_eq!(def_path("Vehicle"), "scripts/entity_defs/Vehicle.def");
    assert_eq!(interface_path("Iface"), "scripts/entity_defs/interfaces/Iface.def");
}

fn empty_def(implements: Vec<String>) -> DefFile {
    DefFile { base_methods: vec![], cell_methods: vec![], client_methods: vec![], properties: vec![], implements }
}

#[test]
fn interface_chain_puts_grandparents_first_and_clears_implements() {
    let parent = parse_def(IFACE_DEF.as_bytes(), &aliases()).unwrap();
    let mut p = parent;
    p.implements = vec!["Grand".to_string()];
    let chain = interface_chain(p, vec![empty_def(vec![])]).unwrap();
    assert_eq!(chain.len(), 2);
    assert!(chain[0].properties.is_empty());
    assert_eq!(chain[1].properties[0].name, "iprop");
    assert!(chain[1].implements.is_empty());
}

#[test]
fn interface_nested_twice_is_an_error() {
    let p = empty_def(vec!["Grand".to_string()]);
    assert!(interface_chain(p, vec![empty_def(vec!["Deeper".to_string()])]).is_err());
}

#[test]
fn entity_orders_client_members_by_sort_size() {
    let own = parse_def(VEHICLE_DEF.as_bytes(), &aliases()).unwrap();
    let parent = parse_def(IFACE_DEF.as_bytes(), &aliases()).unwrap();
    let e = assemble_entity("Vehicle".to_string(), own, vec![parent]).unwrap();
    assert_eq!(e.name, "Vehicle");
    assert_eq!(names(&e.client_methods, |m| m.name.as_str()), vec!["onI", "onSmall", "onBig"]);
    assert_eq!(names(&e.properties, |p| p.name.as_str()), vec!["iprop", "baseInfo", "health", "name"]);
    assert_eq!(names(&e.internal_properties, |p| p.name.as_str()), vec!["iprop", "name", "health"]);
    assert_eq!(names(&e.base_properties, |p| p.name.as_str()), vec!["baseInfo"]);
    assert_eq!(names(&e.base_methods, |m| m.name.as_str()), vec!["doIt"]);
    for w in e.properties.windows(2) {
        assert!(w[0].prop_type.sort_size() <= w[1].prop_type.sort_size());
    }
}

fn files(path: &str) -> Result<Vec<u8>, ErrorKind> {
    match path {
        "scripts/entity_defs/alias.xml" => Ok(b"<root><BOOL>UINT8</BOOL></root>".to_vec()),
        "scripts/entities.xml" => {
            Ok(b"<root><ClientServerEntities><Avatar/><Vehicle/></ClientServerEntities></root>".to_vec())
        }
        "scripts/entity_defs/Avatar.def" => Ok(AVATAR_DEF.as_bytes().to_vec()),
        "scripts/entity_defs/Vehicle.def" => Ok(VEHICLE_DEF.as_bytes().to_vec()),
        "scripts/entity_defs/interfaces/Iface.def" => Ok(IFACE_DEF.as_bytes().to_vec()),
        other => Err(ErrorKind::ParsingFailure(other.to_string())),
    }
}

#[test]
fn scripts_give_every_listed_entity() {
    let loader = DataFileWithCallback::new(files);
    let specs = parse_scripts(&loader).unwrap();
    assert_eq!(names(&specs, |e| e.name.as_str()), vec!["Avatar", "Vehicle"]);
    assert_eq!(names(&specs[0].client_methods, |m| m.name.as_str()), vec!["onPing", "onChat"]);
    assert_eq!(names(&specs[1].client_methods, |m| m.name.as_str()), vec!["onI", "onSmall", "onBig"]);
}

#[test]
fn missing_data_file_is_reported() {
    let loader = DataFileWithCallback::new(|path: &str| -> Result<Vec<u8>, ErrorKind> {
        if path == "scripts/entity_defs/interfaces/Iface.def" {
            Err(ErrorKind::ParsingFailure("gone".to_string()))
        } else {
            files(path)
        }
    });
    match parse_scripts(&loader) {
        Err(ErrorKind::ParsingFailure(m)) => assert_eq!(m, "gone"),
        _ => panic!("expected the loader's error"),
    }
}
