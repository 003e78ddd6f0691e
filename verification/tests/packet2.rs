use wows_replays::error::ErrorKind;
use wows_replays::packet2::{Packet, PacketProcessorMut, PacketType, Parser, Rot3, Vec3};
use wows_replays::nested_property_path::UpdateAction;
use wows_replays::rpc::entitydefs::{EntitySpec, Flags, Property};
use wows_replays::rpc::typedefs::{ArgType, ArgValue, PrimitiveType};

fn frame(ty: u32, clock: f32, body: &[u8]) -> Vec<u8> {
    let mut d = (body.len() as u32).to_le_bytes().to_vec();
    d.extend_from_slice(&ty.to_le_bytes());
    d.extend_from_slice(&clock.to_bits().to_le_bytes());
    d.extend_from_slice(body);
    d
}

struct Collect {
    packets: Vec<Packet>,
}

impl PacketProcessorMut for Collect {
    fn process_mut(&mut self, packet: Packet) {
        self.packets.push(packet);
    }
}

#[test]
fn frame_header_and_simple_packets_are_read() {
    let specs: Vec<EntitySpec> = vec![];
    let mut p = Parser::new(&specs);
    let mut data = frame(0x4, 1.5, &7u32.to_le_bytes());
    data.extend(frame(0x27, 2.0, &3u32.to_le_bytes()));
    data.extend(frame(0x2f, 2.5, &[1]));
    let (pk, next) = p.parse_packet(&data, 0).unwrap();
    assert_eq!(pk.packet_size, 4);
    assert_eq!(pk.packet_type, 0x4);
    assert_eq!(f32::from_bits(pk.clock), 1.5);
    assert_eq!(pk.raw, 7u32.to_le_bytes().to_vec());
    match pk.payload {
        PacketType::EntityLeave(l) => assert_eq!(l.entity_id, 7),
        other => panic!("{:?}", other),
    }
    assert_eq!(next, 16);
    let (pk, next) = p.parse_packet(&data, next).unwrap();
    assert!(matches!(pk.payload, PacketType::CameraMode(3)));
    let (pk, _) = p.parse_packet(&data, next).unwrap();
    assert!(matches!(pk.payload, PacketType::CameraFreeLook(1)));
}

#[test]
fn version_and_unknown_packets() {
    let specs: Vec<EntitySpec> = vec![];
    let mut p = Parser::new(&specs);
    let mut body = 7u32.to_le_bytes().to_vec();
    body.extend_from_slice(b"0,10,9,");
    let (pk, _) = p.parse_packet(&frame(0x16, 0.0, &body), 0).unwrap();
    match pk.payload {
        PacketType::Version(v) => assert_eq!(v, "0,10,9,"),
        other => panic!("{:?}", other),
    }
    let (pk, _) = p.parse_packet(&frame(0x99, 0.0, &[1, 2, 3]), 0).unwrap();
    match pk.payload {
        PacketType::Unknown(b) => assert_eq!(b, vec![1, 2, 3]),
        other => panic!("{:?}", other),
    }
}

#[test]
fn position_packet_fields() {
    let specs: Vec<EntitySpec> = vec![];
    let mut p = Parser::new(&specs);
    let mut body = Vec::new();
    body.extend_from_slice(&42u32.to_le_bytes());
    body.extend_from_slice(&0u32.to_le_bytes());
    for v in [1.0f32, 2.0, 3.0, 0.5, 0.25, 0.125, 0.1, 0.2, 0.3] {
        body.extend_from_slice(&v.to_bits().to_le_bytes());
    }
    body.push(1);
    let (pk, _) = p.parse_packet(&frame(0xA, 0.0, &body), 0).unwrap();
    match pk.payload {
        PacketType::Position(pos) => {
            assert_eq!(pos.pid, 42);
            assert_eq!(
                pos.position,
                Vec3 { x: 1.0f32.to_bits(), y: 2.0f32.to_bits(), z: 3.0f32.to_bits() }
            );
            assert_eq!(
                pos.rotation,
                Rot3 { roll: 0.1f32.to_bits(), pitch: 0.2f32.to_bits(), yaw: 0.3f32.to_bits() }
            );
            assert!(pos.is_error);
        }
        other => panic!("{:?}", other),
    }
}

#[test]
fn short_known_packet_is_invalid_not_an_error() {
    let specs: Vec<EntitySpec> = vec![];
    let mut p = Parser::new(&specs);
    let (pk, _) = p.parse_packet(&frame(0x4, 0.0, &[1, 2]), 0).unwrap();
    match pk.payload {
        PacketType::Invalid(inv) => assert_eq!(inv.raw, vec![1, 2]),
        other => panic!("{:?}", other),
    }
}

#[test]
fn truncated_frame_is_an_error() {
    let specs: Vec<EntitySpec> = vec![];
    let mut p = Parser::new(&specs);
    let data = frame(0x4, 0.0, &7u32.to_le_bytes());
    assert!(matches!(p.parse_packet(&data[..10], 0), Err(ErrorKind::UnexpectedEof)));
    assert!(matches!(p.parse_packet(&data[..14], 0), Err(ErrorKind::UnexpectedEof)));
}

#[test]
fn stream_is_handed_on_packet_by_packet() {
    let specs: Vec<EntitySpec> = vec![];
    let mut p = Parser::new(&specs);
    let mut data = frame(0x4, 1.0, &1u32.to_le_bytes());
    data.extend(frame(0x4, 2.0, &2u32.to_le_bytes()));
    let mut c = Collect { packets: vec![] };
    p.parse_packets_mut(&data, &mut c).unwrap();
    assert_eq!(c.packets.len(), 2);
    data.extend_from_slice(&[9, 9]);
    let mut c2 = Collect { packets: vec![] };
    assert!(p.parse_packets_mut(&data, &mut c2).is_err());
    assert_eq!(c2.packets.len(), 2);
}

fn one_array_entity() -> Vec<EntitySpec> {
    vec![EntitySpec {
        name: "Holder".to_string(),
        base_methods: vec![],
        cell_methods: vec![],
        client_methods: vec![],
        properties: vec![Property {
            name: "arr".to_string(),
            prop_type: ArgType::Array((None, Box::new(ArgType::Primitive(PrimitiveType::Uint8)))),
            flags: Flags::AllClients,
        }],
        internal_properties: vec![],
        base_properties: vec![],
    }]
}

fn create_body(entity_id: u32, values: &[u8]) -> Vec<u8> {
    let mut b = entity_id.to_le_bytes().to_vec();
    b.extend_from_slice(&1u16.to_le_bytes());
    b.extend_from_slice(&[0u8; 36]);
    b.push(1);
    b.push(0);
    b.push(values.len() as u8);
    b.extend_from_slice(values);
    b
}

fn nested_body(entity_id: u32, is_slice: bool, payload: &[u8]) -> Vec<u8> {
    let mut b = entity_id.to_le_bytes().to_vec();
    b.push(is_slice as u8);
    b.push(payload.len() as u8);
    b.extend_from_slice(&[0, 0, 0]);
    b.extend_from_slice(payload);
    b
}

#[test]
fn created_entity_holds_its_values_and_later_updates_see_them() {
    let specs = one_array_entity();
    let mut p = Parser::new(&specs);
    match p.parse_naked_packet(0x5, &create_body(42, &[1, 2, 3])).unwrap() {
        PacketType::EntityCreate(c) => {
            assert_eq!(c.entity_id, 42);
            assert_eq!(c.entity_type, "Holder");
            assert_eq!(c.props.len(), 1);
            assert_eq!(c.props[0].0, "arr");
            assert_eq!(
                c.props[0].1,
                ArgValue::Array(vec![ArgValue::Uint8(1), ArgValue::Uint8(2), ArgValue::Uint8(3)])
            );
        }
        other => panic!("{:?}", other),
    }
    // Continue bit, then (no index bits for one property) command 0 and
    // element index 2 in two bits; the new value in the next byte.
    match p.parse_naked_packet(0x23, &nested_body(42, false, &[0b1010_0000, 9])).unwrap() {
        PacketType::PropertyUpdate(u) => {
            assert_eq!(u.entity_id, 42);
            assert_eq!(u.property, "arr");
            match u.update_cmd.action {
                UpdateAction::SetElement { index, value } => {
                    assert_eq!(index, 2);
                    assert_eq!(value, ArgValue::Uint8(9));
                }
                other => panic!("{:?}", other),
            }
        }
        other => panic!("{:?}", other),
    }
    // The stored array has three elements: index 3 does not exist.
    let r = p.parse_naked_packet(0x23, &nested_body(42, false, &[0b1011_0000, 9]));
    assert!(r.is_err());
    // An update of an entity that was never created fails too.
    assert!(p.parse_naked_packet(0x23, &nested_body(7, false, &[0b1010_0000, 9])).is_err());
}
