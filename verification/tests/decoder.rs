use wows_replays::analyzer::decoder::{
    damage_stat, decode_method, unpack_minimap, unpickle_args, DeathCause, DecodedPacket, DecodedPacketPayload, PickleValue,
    Ribbon, StatValue, VoiceLine,
};
use wows_replays::packet2::{EntityMethodPacket, Packet, PacketType};
use wows_replays::rpc::typedefs::ArgValue;
use wows_replays::version::Version;

fn version() -> Version {
    Version::from_client_exe("0,10,9,0")
}

fn method(name: &str, args: Vec<ArgValue>) -> EntityMethodPacket {
    EntityMethodPacket { entity_id: 77, method: name.to_string(), args }
}

#[test]
fn ribbon_and_death_cause_codes() {
    assert_eq!(Ribbon::from_code(8), Ribbon::Citadel);
    assert_eq!(Ribbon::from_code(1), Ribbon::TorpedoHit);
    assert_eq!(Ribbon::from_code(99), Ribbon::Unknown(99));
    assert_eq!(DeathCause::from_code(3), DeathCause::Torpedo);
    assert_eq!(DeathCause::from_code(18), DeathCause::Artillery);
    assert_eq!(DeathCause::from_code(1000), DeathCause::Unknown(1000));
}

#[test]
fn voice_line_codes() {
    assert_eq!(VoiceLine::from_code(5, 0, 0), Some(VoiceLine::Wilco));
    assert_eq!(VoiceLine::from_code(1, 3, 4), Some(VoiceLine::AttentionToSquare((3, 4))));
    assert_eq!(VoiceLine::from_code(2, 0, 0xffff_ffff), Some(VoiceLine::ConcentrateFire(-1)));
    assert_eq!(VoiceLine::from_code(0, 0, 0), None);
}

#[test]
fn minimap_word_fields() {
    let packed: u32 = 5 | (9 << 11) | (200 << 22) | (1 << 31);
    let u = unpack_minimap(3, packed);
    assert_eq!(u.entity_id, 3);
    assert_eq!(u.x, 5);
    assert_eq!(u.y, 9);
    assert_eq!(u.heading, 200);
    assert!(!u.unknown);
    assert!(u.disappearing);
}

fn stat(a: i64, b: i64, c: i64, v: PickleValue) -> (PickleValue, PickleValue) {
    (
        PickleValue::Tuple(vec![PickleValue::I64(a), PickleValue::I64(b)]),
        PickleValue::List(vec![PickleValue::I64(c), v]),
    )
}

#[test]
fn damage_statistics_are_read_entry_by_entry() {
    let d = PickleValue::Dict(vec![
        stat(1, 2, 3, PickleValue::I64(400)),
        stat(5, 6, 7, PickleValue::F64(1.5f64.to_bits())),
    ]);
    let st = damage_stat(&d).unwrap();
    assert_eq!(st, vec![((1, 2), (3, StatValue::Int(400))), ((5, 6), (7, StatValue::Float(1.5f64.to_bits())))]);
    let bad = PickleValue::Dict(vec![stat(1, 2, 3, PickleValue::Null)]);
    assert!(damage_stat(&bad).is_none());
    assert!(damage_stat(&PickleValue::List(vec![])).is_none());
}

#[test]
fn known_methods_are_decoded() {
    let pk: Vec<Option<PickleValue>> = vec![];
    let v = version();
    let death = method("receiveVehicleDeath", vec![ArgValue::Int32(10), ArgValue::Int32(20), ArgValue::Uint32(6)]);
    match decode_method(&v, &death, &pk).unwrap() {
        DecodedPacketPayload::ShipDestroyed { killer, victim, cause } => {
            assert_eq!((killer, victim, cause), (20, 10, DeathCause::Fire));
        }
        other => panic!("{:?}", other),
    }
    let ribbon = method("onRibbon", vec![ArgValue::Int8(8)]);
    assert!(matches!(decode_method(&v, &ribbon, &pk).unwrap(), DecodedPacketPayload::Ribbon(Ribbon::Citadel)));
    let ping = method("onCheckGamePing", vec![ArgValue::Uint64(12)]);
    assert!(matches!(decode_method(&v, &ping, &pk).unwrap(), DecodedPacketPayload::CheckPing(12)));
    let end = method("onBattleEnd", vec![ArgValue::Int8(1), ArgValue::Uint8(2)]);
    assert!(matches!(
        decode_method(&v, &end, &pk).unwrap(),
        DecodedPacketPayload::BattleEnd { winning_team: 1, unknown: 2 }
    ));
    let chat = method(
        "onChatMessage",
        vec![ArgValue::Int32(4), ArgValue::String(b"battle_team".to_vec()), ArgValue::String(b"hello".to_vec())],
    );
    match decode_method(&v, &chat, &pk).unwrap() {
        DecodedPacketPayload::Chat { entity_id, sender_id, audience, message } => {
            assert_eq!((entity_id, sender_id), (77, 4));
            assert_eq!(audience, "battle_team");
            assert_eq!(message, "hello");
        }
        other => panic!("{:?}", other),
    }
}

#[test]
fn damage_stat_method_uses_the_unpickled_argument() {
    let v = version();
    let m = method("receiveDamageStat", vec![ArgValue::Blob(vec![0x80])]);
    let pk = vec![Some(PickleValue::Dict(vec![stat(1, 0, 2, PickleValue::I64(3))]))];
    match decode_method(&v, &m, &pk).unwrap() {
        DecodedPacketPayload::DamageStat(st) => assert_eq!(st, vec![((1, 0), (2, StatValue::Int(3)))]),
        other => panic!("{:?}", other),
    }
    let none: Vec<Option<PickleValue>> = vec![None];
    assert!(decode_method(&v, &m, &none).is_err());
}

#[test]
fn other_methods_pass_through_and_bad_arguments_fail() {
    let pk: Vec<Option<PickleValue>> = vec![];
    let v = version();
    let other = method("somethingElse", vec![ArgValue::Uint8(1)]);
    match decode_method(&v, &other, &pk).unwrap() {
        DecodedPacketPayload::EntityMethod(m) => assert_eq!(m.method, "somethingElse"),
        p => panic!("{:?}", p),
    }
    let bad = method("onRibbon", vec![ArgValue::Uint8(8)]);
    assert!(decode_method(&v, &bad, &pk).is_err());
    let short = method("receiveVehicleDeath", vec![ArgValue::Int32(10)]);
    assert!(decode_method(&v, &short, &pk).is_err());
}

#[test]
fn non_method_packets_keep_their_meaning() {
    let pk: Vec<Option<PickleValue>> = vec![];
    let p = Packet { packet_size: 4, packet_type: 0x27, clock: 2.0f32.to_bits(), payload: PacketType::CameraMode(3), raw: vec![3, 0, 0, 0] };
    let d = DecodedPacket::from(&version(), &p, &pk).unwrap();
    assert_eq!(d.packet_type, 0x27);
    assert_eq!(f32::from_bits(d.clock), 2.0);
    assert!(matches!(d.payload, DecodedPacketPayload::CameraMode(3)));
}

#[test]
fn blob_arguments_of_a_method_are_unpickled() {
    let list = serde_pickle::value::Value::List(vec![serde_pickle::value::Value::I64(5), serde_pickle::value::Value::String("x".to_string())]);
    let bytes = serde_pickle::value_to_vec(&list, serde_pickle::ser::SerOptions::new()).unwrap();
    let m = method("m", vec![ArgValue::Blob(bytes), ArgValue::Uint8(1), ArgValue::Blob(vec![0xff, 0x00])]);
    let p = Packet { packet_size: 0, packet_type: 0x8, clock: 0, payload: PacketType::EntityMethod(m), raw: vec![] };
    let u = unpickle_args(&p);
    assert_eq!(u.len(), 3);
    match &u[0] {
        Some(PickleValue::List(items)) => {
            assert_eq!(items.len(), 2);
            assert!(matches!(items[0], PickleValue::I64(5)));
            assert!(matches!(&items[1], PickleValue::String(s) if s == "x"));
        }
        other => panic!("{:?}", other),
    }
    assert!(u[1].is_none());
    assert!(u[2].is_none());
}

#[test]
fn decode_unpickles_into_the_store() {
    let p = Packet { packet_size: 4, packet_type: 0x27, clock: 0, payload: PacketType::CameraMode(3), raw: vec![3, 0, 0, 0] };
    let mut store = Vec::new();
    let d = DecodedPacket::decode(&version(), &p, &mut store).unwrap();
    assert!(matches!(d.payload, DecodedPacketPayload::CameraMode(3)));
}
