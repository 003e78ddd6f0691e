use wows_replays::version::Version;
use wows_replays::packet2::{PacketProcessorMut, Parser};
use wows_replays::rpc::entitydefs::EntitySpec;
use wows_replays::analyzer::battle_controller::{BattleController, DamageEvent, Death};
use wows_replays::analyzer::decoder::{DamageReceived, DeathCause, DecodedPacket, DecodedPacketPayload};
use wows_replays::packet2::{EntityCreatePacket, Rot3, Vec3};
use wows_replays::analyzer::battle_controller::{
    handle_chat_message, parse_ship_config, ChatChannel, VehicleProps, xEntityType,
};
use wows_replays::rpc::typedefs::ArgValue;
use wows_replays::wowsreplay::VehicleInfoMeta;

fn u32_list(v: &[u32]) -> Vec<u8> {
    let mut out = (v.len() as u32).to_le_bytes().to_vec();
    for x in v {
        out.extend_from_slice(&x.to_le_bytes());
    }
    out
}

/// A ship configuration blob: 12 header bytes, units, modernization,
/// signals, 4 bytes, a count of 8-byte entries, then abilities.
fn ship_config_blob() -> Vec<u8> {
    let mut b = vec![0u8; 12];
    b.extend(u32_list(&[100, 200]));
    b.extend(u32_list(&[7]));
    b.extend(u32_list(&[8, 9]));
    b.extend_from_slice(&[0u8; 4]);
    b.extend_from_slice(&1u32.to_le_bytes());
    b.extend_from_slice(&[0xaau8; 8]);
    b.extend(u32_list(&[31, 32, 33]));
    b
}

#[test]
fn ship_config_is_read_from_its_blob() {
    let c = parse_ship_config(&ship_config_blob()).unwrap();
    assert_eq!(c.units(), &[100, 200]);
    assert_eq!(c.hull(), 100);
    assert_eq!(c.modernization(), &[7]);
    assert_eq!(c.signals(), &[8, 9]);
    assert_eq!(c.abilities(), &[31, 32, 33]);
}

#[test]
fn ship_config_without_units_or_bytes_is_an_error() {
    let mut b = vec![0u8; 12];
    b.extend(u32_list(&[]));
    b.extend(u32_list(&[]));
    b.extend(u32_list(&[]));
    b.extend_from_slice(&[0u8; 4]);
    b.extend_from_slice(&0u32.to_le_bytes());
    b.extend(u32_list(&[]));
    assert!(parse_ship_config(&b).is_err());
    assert!(parse_ship_config(&ship_config_blob()[..20]).is_err());
}

#[test]
fn default_vehicle_is_all_zero() {
    let v = VehicleProps::default();
    assert_eq!(v.health(), 0);
    assert!(!v.is_alive());
    assert_eq!(v.owner(), 0);
    assert!(v.effects().is_empty());
    assert!(v.atba_targets().is_empty());
    assert_eq!(v.crew_modifiers_compact_params().params_id(), 0);
}

fn entry(k: &str, v: ArgValue) -> (String, ArgValue) {
    (k.to_string(), v)
}

#[test]
fn vehicle_takes_over_the_properties_it_is_sent() {
    let mut v = VehicleProps::default();
    let health = 1234.5f32.to_bits();
    let args = vec![
        entry("isAlive", ArgValue::Uint8(1)),
        entry("health", ArgValue::Float32(health)),
        entry("owner", ArgValue::Int32(-1)),
        entry("teamId", ArgValue::Int8(1)),
        entry("atbaTargets", ArgValue::Array(vec![ArgValue::Uint32(5), ArgValue::Uint32(6)])),
        entry("effects", ArgValue::Array(vec![ArgValue::String(b"smoke".to_vec())])),
        entry("deathSettings", ArgValue::Blob(vec![1, 2, 3])),
        entry("respawnTime", ArgValue::Uint16(30)),
        entry("shipConfig", ArgValue::Blob(ship_config_blob())),
        entry(
            "crewModifiersCompactParams",
            ArgValue::FixedDict(vec![
                entry("paramsId", ArgValue::Uint32(4242)),
                entry("isInAdaption", ArgValue::Uint8(1)),
            ]),
        ),
    ];
    v.update_from_args(&args).unwrap();
    assert!(v.is_alive());
    assert_eq!(f32::from_bits(v.health()), 1234.5);
    assert_eq!(v.owner(), u32::MAX);
    assert_eq!(v.team_id(), 1);
    assert_eq!(v.atba_targets(), &[5, 6]);
    assert_eq!(v.effects(), &["smoke".to_string()]);
    assert_eq!(v.death_settings(), &[1, 2, 3]);
    assert_eq!(v.respawn_time(), 30);
    assert_eq!(v.ship_config().hull(), 100);
    assert_eq!(v.crew_modifiers_compact_params().params_id(), 4242);
    assert!(v.crew_modifiers_compact_params().is_in_adaption());
    // Properties that were not sent keep their values.
    assert_eq!(v.max_health(), 0);
    assert!(!v.is_bot());
}

#[test]
fn vehicle_update_with_no_properties_changes_nothing() {
    let mut v = VehicleProps::default();
    v.update_from_args(&vec![entry("isBot", ArgValue::Uint8(1))]).unwrap();
    v.update_from_args(&vec![]).unwrap();
    assert!(v.is_bot());
}

#[test]
fn later_entry_for_the_same_property_wins() {
    let mut v = VehicleProps::default();
    v.update_from_args(&vec![entry("engineDir", ArgValue::Int8(1)), entry("engineDir", ArgValue::Int8(-1))])
        .unwrap();
    assert_eq!(v.engine_dir(), -1);
}

#[test]
fn vehicle_update_of_the_wrong_type_changes_nothing() {
    let mut v = VehicleProps::default();
    let args = vec![entry("isAlive", ArgValue::Uint8(1)), entry("health", ArgValue::Uint32(5))];
    assert!(v.update_from_args(&args).is_err());
    assert!(!v.is_alive());
    assert_eq!(v.health(), 0);
    let bad_crew = vec![
        entry("isBot", ArgValue::Uint8(1)),
        entry("crewModifiersCompactParams", ArgValue::FixedDict(vec![entry("paramsId", ArgValue::Uint8(1))])),
    ];
    assert!(v.update_from_args(&bad_crew).is_err());
    assert!(!v.is_bot());
    let bad_text = vec![entry("effects", ArgValue::Array(vec![ArgValue::String(vec![0xff, 0xfe])]))];
    assert!(v.update_from_args(&bad_text).is_err());
    assert!(v.effects().is_empty());
}

fn vehicles() -> Vec<VehicleInfoMeta> {
    vec![
        VehicleInfoMeta { shipId: 1, relation: 0, id: 10, name: "alice".to_string() },
        VehicleInfoMeta { shipId: 2, relation: 2, id: 11, name: "bob".to_string() },
    ]
}

#[test]
fn chat_message_names_its_sender_and_channel() {
    let m = handle_chat_message(&vehicles(), 11, "battle_team", "hello").unwrap().unwrap();
    assert_eq!(m.sender_name, "bob");
    assert_eq!(m.sender_relation, 2);
    assert_eq!(m.channel, ChatChannel::Team);
    assert_eq!(m.message, "hello");
    let g = handle_chat_message(&vehicles(), 10, "battle_common", "gg").unwrap().unwrap();
    assert_eq!(g.channel, ChatChannel::Global);
    assert_eq!(g.sender_name, "alice");
}

#[test]
fn chat_message_of_the_game_itself_is_skipped() {
    assert!(handle_chat_message(&vehicles(), 0, "whatever", "x").unwrap().is_none());
}

#[test]
fn chat_message_from_unknown_sender_or_channel_is_an_error() {
    assert!(handle_chat_message(&vehicles(), 12, "battle_team", "x").is_err());
    assert!(handle_chat_message(&vehicles(), 10, "battle_prebattle", "x").is_err());
}

#[test]
fn entity_kinds_have_flag_values() {
    assert_eq!(xEntityType::Client.value(), 1);
    assert_eq!(xEntityType::Cell.value(), 2);
    assert_eq!(xEntityType::Base.value(), 4);
}

fn decoded(payload: DecodedPacketPayload<'_>) -> DecodedPacket<'_> {
    DecodedPacket { packet_type: 0, clock: 7, payload }
}

#[test]
fn battle_keeps_chat_deaths_damage_and_ships_in_order() {

    let players = vec![
        VehicleInfoMeta { shipId: 1, relation: 0, id: 10, name: "alice".to_string() },
        VehicleInfoMeta { shipId: 2, relation: 2, id: 11, name: "bob".to_string() },
    ];
    let mut b = BattleController::new(Version { major: 0, minor: 10, patch: 9, build: 0 }, players);

    b.process(&decoded(DecodedPacketPayload::Chat {
        entity_id: 1,
        sender_id: 11,
        audience: "battle_team".to_string(),
        message: "hi".to_string(),
    }));
    b.process(&decoded(DecodedPacketPayload::Chat {
        entity_id: 1,
        sender_id: 0,
        audience: "anything".to_string(),
        message: "system".to_string(),
    }));
    assert_eq!(b.game_chat().len(), 1);
    assert_eq!(b.game_chat()[0].sender_name, "bob");
    assert_eq!(b.game_chat()[0].sender_relation, 2);
    assert_eq!(b.game_chat()[0].channel, ChatChannel::Team);
    assert_eq!(b.game_chat()[0].message, "hi");

    b.process(&decoded(DecodedPacketPayload::ShipDestroyed { killer: 5, victim: 6, cause: DeathCause::Torpedo }));
    assert_eq!(b.frags(), &[Death { clock: 7, killer: 5, victim: 6, cause: DeathCause::Torpedo }]);

    b.process(&decoded(DecodedPacketPayload::DamageReceived {
        victim: 6,
        aggressors: vec![DamageReceived { aggressor: 5, damage: 10 }, DamageReceived { aggressor: 4, damage: 20 }],
    }));
    assert_eq!(
        b.damage_dealt(),
        &[
            DamageEvent { aggressor: 5, amount: 10, victim: 6 },
            DamageEvent { aggressor: 4, amount: 20, victim: 6 }
        ]
    );

    let create = |id: u32, ty: &str, health: f32| EntityCreatePacket {
        entity_id: id,
        entity_type: ty.to_string(),
        space_id: 0,
        vehicle_id: 0,
        position: Vec3 { x: 0, y: 0, z: 0 },
        rotation: Rot3 { roll: 0, pitch: 0, yaw: 0 },
        state_length: 0,
        props: vec![("health".to_string(), ArgValue::Float32(health.to_bits()))],
    };
    let ship = create(42, "Vehicle", 100.0);
    b.process(&decoded(DecodedPacketPayload::EntityCreate(&ship)));
    let smoke = create(43, "SmokeScreen", 1.0);
    b.process(&decoded(DecodedPacketPayload::EntityCreate(&smoke)));
    assert_eq!(b.vehicle(42).unwrap().health(), 100.0f32.to_bits());
    assert!(b.vehicle(43).is_none());
    let again = create(42, "Vehicle", 50.0);
    b.process(&decoded(DecodedPacketPayload::EntityCreate(&again)));
    assert_eq!(b.vehicle(42).unwrap().health(), 50.0f32.to_bits());
}

#[test]
fn battle_handed_a_stream_passes_over_packets_it_does_not_use() {
    let mut b = BattleController::new(Version { major: 0, minor: 10, patch: 9, build: 0 }, Vec::new());
    let specs: Vec<EntitySpec> = vec![];
    let mut parser = Parser::new(&specs);
    // An entity-leave packet: nothing for the battle to take in.
    let mut data = 4u32.to_le_bytes().to_vec();
    data.extend_from_slice(&4u32.to_le_bytes());
    data.extend_from_slice(&0u32.to_le_bytes());
    data.extend_from_slice(&9u32.to_le_bytes());
    parser.parse_packets_mut(&data, &mut b).unwrap();
    assert!(b.frags().is_empty());
    assert!(b.game_chat().is_empty());
    PacketProcessorMut::process_mut(&mut b, parser.parse_packet(&data, 0).unwrap().0);
    assert!(b.damage_dealt().is_empty());
}
