use wows_replays::analyzer::mapping::ReplayPlayerProperty;
use wows_replays::investigate::{clock_hms, parse_number, parse_timestamp, InvestigativeBuilder};
use wows_replays::packet2::{EntityMethodPacket, Packet, PacketType};
use wows_replays::text::split_char;
use wows_replays::wowsreplay::ReplayMeta;

fn meta(version: &str) -> ReplayMeta {
    ReplayMeta {
        matchGroup: String::new(),
        gameMode: 0,
        clientVersionFromExe: version.to_string(),
        scenarioUiCategoryId: 0,
        mapDisplayName: String::new(),
        mapId: 0,
        clientVersionFromXml: String::new(),
        weatherParams: vec![],
        duration: 0,
        gameLogic: None,
        name: String::new(),
        scenario: String::new(),
        playerID: 0,
        vehicles: vec![],
        playersPerTeam: 0,
        dateTime: String::new(),
        mapName: String::new(),
        playerName: String::new(),
        scenarioConfigId: 0,
        teamsCount: 0,
        logic: None,
        playerVehicle: String::new(),
        battleDuration: 0,
    }
}

#[test]
fn numbers_with_prefixes() {
    assert_eq!(parse_number("42"), Some(42));
    assert_eq!(parse_number("0x2a"), Some(42));
    assert_eq!(parse_number("0b101"), Some(5));
    assert_eq!(parse_number("0o17"), Some(15));
    assert_eq!(parse_number("1_000"), Some(1000));
    assert_eq!(parse_number("-3"), None);
    assert_eq!(parse_number("zz"), None);
    assert_eq!(parse_number("4294967296"), None);
}

#[test]
fn timestamps_are_seconds_and_offset() {
    assert_eq!(parse_timestamp("01:02:03+30"), Some((3723, 30)));
    assert_eq!(parse_timestamp("00:00:10+0+junk"), Some((10, 0)));
    assert_eq!(parse_timestamp("01:02:03"), None);
    assert_eq!(parse_timestamp("01:02+5"), None);
    assert_eq!(parse_timestamp("a:02:03+5"), None);
    assert_eq!(parse_timestamp("1193047:00:00+0"), None);
}

#[test]
fn clock_is_split_into_hours_minutes_seconds() {
    assert_eq!(clock_hms(3723), (1, 2, 3));
    assert_eq!(clock_hms(59), (0, 0, 59));
    assert_eq!(clock_hms(0), (0, 0, 0));
}

#[test]
fn split_gives_the_pieces_between_separators() {
    assert_eq!(split_char("a+b+", '+'), vec!["a", "b", ""]);
    assert_eq!(split_char("", '+'), vec![""]);
    assert_eq!(split_char("abc", ':'), vec!["abc"]);
}

fn builder() -> InvestigativeBuilder {
    InvestigativeBuilder {
        no_meta: true,
        filter_packet: Some("0x8".to_string()),
        filter_method: Some("onRibbon".to_string()),
        timestamp: Some("00:01:00+5".to_string()),
        entity_id: Some("12".to_string()),
    }
}

fn method_packet(name: &str, entity: u32) -> Packet {
    Packet {
        packet_size: 0,
        packet_type: 0x8,
        clock: 0,
        payload: PacketType::EntityMethod(EntityMethodPacket { entity_id: entity, method: name.to_string(), args: vec![] }),
        raw: vec![],
    }
}

#[test]
fn settings_are_read_from_the_options() {
    let p = builder().build(&meta("0,10,9,0")).unwrap();
    assert_eq!(p.filter_packet, Some(8));
    assert_eq!(p.entity_id, Some(12));
    assert_eq!(p.timestamp, Some((60, 5)));
    assert_eq!(p.filter_method.as_deref(), Some("onRibbon"));
    assert!(!p.meta);
    assert_eq!(p.version.minor, 10);
    let mut bad = builder();
    bad.entity_id = Some("twelve".to_string());
    assert!(bad.build(&meta("0,10,9,0")).is_err());
    assert!(builder().build(&meta("junk")).is_err());
}

#[test]
fn only_the_filtered_packets_are_selected() {
    let p = builder().build(&meta("0,10,9,0")).unwrap();
    assert!(p.selects(&method_packet("onRibbon", 12)));
    assert!(!p.selects(&method_packet("onRibbon", 13)));
    assert!(!p.selects(&method_packet("onChatMessage", 12)));
    let other = Packet { packet_size: 0, packet_type: 0x27, clock: 0, payload: PacketType::CameraMode(1), raw: vec![] };
    assert!(!p.selects(&other));
    let all = InvestigativeBuilder { no_meta: false, filter_packet: None, filter_method: None, timestamp: None, entity_id: None }
        .build(&meta("0,10,9,0"))
        .unwrap();
    assert!(all.selects(&other));
}

#[test]
fn player_property_keys_are_numbered_in_order() {
    assert_eq!(i64::from(ReplayPlayerProperty::AccountId), 0);
    assert_eq!(i64::from(ReplayPlayerProperty::Name), 25);
    assert_eq!(i64::from(ReplayPlayerProperty::TtkStatus), 37);
}
