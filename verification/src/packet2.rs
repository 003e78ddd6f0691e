//! The packet stream of a replay: packet framing, and the decoding of each
//! packet kind against the entity definitions and the entities created so
//! far.
use std::collections::HashMap;
use vstd::prelude::*;

use crate::bytes::{le_bytes4, le_uint, read_i32, read_i64, read_u16, read_u32, read_u8, take};
use crate::error::{spec_error_name, ErrorKind};
use crate::nested_property_path::{
    bits_readable, bits_value, get_nested_prop_path_helper, index_bits, index_bits_of, nesting_view,
    read_bits, spec_nested_update, vals_with, NestingV, PropertyNesting,
};
use crate::rpc::entitydefs::{EntitySpec, Method, Property};
use crate::rpc::typedefs::{
    copy_bytes,
    hits_tuple, spec_parse_value, lemma_parse_value_bounds, val_view, vals_view, dict_view, lemma_vals_view_push,
    lemma_dict_view_push, ArgVal, ArgValue, Outcome,
};

verus! {

broadcast use vstd::std_specs::hash::group_hash_axioms;

/// A position; each coordinate is an `f32` held as its bit pattern.
#[derive(Debug, Clone, Copy, PartialEq, Eq, Structural)]
pub struct Vec3 {
    pub x: u32,
    pub y: u32,
    pub z: u32,
}

/// An orientation; each angle is an `f32` held as its bit pattern.
#[derive(Debug, Clone, Copy, PartialEq, Eq, Structural)]
pub struct Rot3 {
    pub roll: u32,
    pub pitch: u32,
    pub yaw: u32,
}

pub open spec fn u32_at(s: Seq<u8>, p: int) -> u32 {
    le_uint(s, p, 4) as u32
}

pub open spec fn spec_vec3(s: Seq<u8>, p: int) -> Vec3 {
    Vec3 { x: u32_at(s, p), y: u32_at(s, p + 4), z: u32_at(s, p + 8) }
}

pub open spec fn spec_rot3(s: Seq<u8>, p: int) -> Rot3 {
    Rot3 { roll: u32_at(s, p), pitch: u32_at(s, p + 4), yaw: u32_at(s, p + 8) }
}

impl Vec3 {
    /// Reads three little-endian `f32` bit patterns at `pos`.
    pub fn parse(data: &[u8], pos: usize) -> (r: Option<(Vec3, usize)>)
        ensures
            r is Some <==> pos + 12 <= data@.len(),
            r matches Some((v, np)) ==> v == spec_vec3(data@, pos as int) && np == pos + 12,
    {
        let (x, p) = match read_u32(data, pos) {
            Some(v) => v,
            None => return None,
        };
        let (y, p) = match read_u32(data, p) {
            Some(v) => v,
            None => return None,
        };
        let (z, p) = match read_u32(data, p) {
            Some(v) => v,
            None => return None,
        };
        Some((Vec3 { x, y, z }, p))
    }
}

impl Rot3 {
    /// Reads three little-endian `f32` bit patterns at `pos`.
    pub fn parse(data: &[u8], pos: usize) -> (r: Option<(Rot3, usize)>)
        ensures
            r is Some <==> pos + 12 <= data@.len(),
            r matches Some((v, np)) ==> v == spec_rot3(data@, pos as int) && np == pos + 12,
    {
        let (roll, p) = match read_u32(data, pos) {
            Some(v) => v,
            None => return None,
        };
        let (pitch, p) = match read_u32(data, p) {
            Some(v) => v,
            None => return None,
        };
        let (yaw, p) = match read_u32(data, p) {
            Some(v) => v,
            None => return None,
        };
        Some((Rot3 { roll, pitch, yaw }, p))
    }
}

#[derive(Debug, Clone, Copy, PartialEq, Eq, Structural)]
pub struct PositionPacket {
    pub pid: u32,
    pub position: Vec3,
    pub position_error: Vec3,
    pub rotation: Rot3,
    pub is_error: bool,
}

/// Where an entity's property changed, and its new value.
#[derive(Debug)]
pub struct EntityPropertyPacket {
    pub entity_id: u32,
    pub property: String,
    pub value: ArgValue,
}

/// A remote method called on an entity, with its arguments.
#[derive(Debug)]
pub struct EntityMethodPacket {
    pub entity_id: u32,
    pub method: String,
    pub args: Vec<ArgValue>,
}

#[derive(Debug)]
pub struct EntityCreatePacket {
    pub entity_id: u32,
    pub entity_type: String,
    pub space_id: u32,
    pub vehicle_id: u32,
    pub position: Vec3,
    pub rotation: Rot3,
    pub state_length: u32,
    /// The initial properties, in the order they were sent.
    pub props: Vec<(String, ArgValue)>,
}

/// The position and orientation of the player's ship or of the camera;
/// `parent_id` names the object the camera is attached to.
#[derive(Debug, Clone, Copy, PartialEq, Eq, Structural)]
pub struct PlayerOrientationPacket {
    pub pid: u32,
    pub parent_id: u32,
    pub position: Vec3,
    pub rotation: Rot3,
}

/// A packet of a known kind that could not be decoded.
#[derive(Debug)]
pub struct InvalidPacket {
    pub message: String,
    pub raw: Vec<u8>,
}

#[derive(Debug)]
pub struct BasePlayerCreatePacket {
    pub entity_id: u32,
    pub entity_type: String,
    pub state: Vec<u8>,
}

#[derive(Debug)]
pub struct CellPlayerCreatePacket {
    pub entity_id: u32,
    pub space_id: u32,
    pub unknown: u16,
    pub vehicle_id: u32,
    pub position: Vec3,
    pub rotation: Rot3,
    pub value: Vec<u8>,
}

#[derive(Debug, Clone, Copy, PartialEq, Eq, Structural)]
pub struct EntityLeavePacket {
    pub entity_id: u32,
}

#[derive(Debug, Clone, Copy, PartialEq, Eq, Structural)]
pub struct EntityEnterPacket {
    pub entity_id: u32,
    pub space_id: u32,
    pub vehicle_id: u32,
}

/// A change to part of an entity's property.
#[derive(Debug)]
pub struct PropertyUpdatePacket {
    /// The entity whose property changes.
    pub entity_id: i32,
    /// The property that changes; a property may have many parts.
    pub property: String,
    /// The path to the changed part and the change made there.
    pub update_cmd: PropertyNesting,
}

/// A camera update; `fov` is an `f32` held as its bit pattern.
#[derive(Debug, Clone, Copy, PartialEq, Eq, Structural)]
pub struct CameraPacket {
    pub unknown: Vec3,
    pub unknown2: u32,
    pub absolute_position: Vec3,
    pub fov: u32,
    pub position: Vec3,
    pub rotation: Rot3,
}

#[derive(Debug, Clone, Copy, PartialEq, Eq, Structural)]
pub struct CruiseState {
    pub key: u32,
    pub value: i32,
}

#[derive(Debug)]
pub struct MapPacket {
    pub space_id: u32,
    pub arena_id: i64,
    pub unknown1: u32,
    pub unknown2: u32,
    pub blob: Vec<u8>,
    pub map_name: String,
    /// Believed to be the unit matrix; kept undecoded.
    pub matrix: Vec<u8>,
    pub unknown: u8,
}

/// The text that `bytes` encode as UTF-8, if they are valid UTF-8.
#[verifier::external_body]
pub(crate) fn utf8_string(bytes: &[u8]) -> (r: Option<String>)
    ensures
        r is Some <==> vstd::utf8::valid_utf8(bytes@),
        r matches Some(s) ==> s@ == vstd::utf8::decode_utf8(bytes@),
{
    match std::str::from_utf8(bytes) {
        Ok(s) => Some(s.to_string()),
        Err(_) => None,
    }
}

pub open spec fn spec_position_packet(s: Seq<u8>) -> Option<PositionPacket> {
    if s.len() >= 45 && u32_at(s, 4) == 0 {
        Some(
            PositionPacket {
                pid: u32_at(s, 0),
                position: spec_vec3(s, 8),
                position_error: spec_vec3(s, 20),
                rotation: spec_rot3(s, 32),
                is_error: s[44] != 0,
            },
        )
    } else {
        None
    }
}

pub open spec fn spec_orientation_packet(s: Seq<u8>) -> Option<PlayerOrientationPacket> {
    if s.len() == 0x20 {
        Some(
            PlayerOrientationPacket {
                pid: u32_at(s, 0),
                parent_id: u32_at(s, 4),
                position: spec_vec3(s, 8),
                rotation: spec_rot3(s, 20),
            },
        )
    } else {
        None
    }
}

pub open spec fn spec_camera_packet(s: Seq<u8>) -> Option<CameraPacket> {
    if s.len() >= 56 {
        Some(
            CameraPacket {
                unknown: spec_vec3(s, 0),
                unknown2: u32_at(s, 12),
                absolute_position: spec_vec3(s, 16),
                fov: u32_at(s, 28),
                position: spec_vec3(s, 32),
                rotation: spec_rot3(s, 44),
            },
        )
    } else {
        None
    }
}

pub open spec fn spec_entity_enter(s: Seq<u8>) -> Option<EntityEnterPacket> {
    if s.len() >= 12 {
        Some(
            EntityEnterPacket {
                entity_id: u32_at(s, 0),
                space_id: u32_at(s, 4),
                vehicle_id: u32_at(s, 8),
            },
        )
    } else {
        None
    }
}

pub open spec fn spec_cruise_state(s: Seq<u8>) -> Option<CruiseState> {
    if s.len() >= 8 {
        Some(
            CruiseState {
                key: u32_at(s, 0),
                value: crate::bytes::as_signed(le_uint(s, 4, 4), 0x1_0000_0000) as i32,
            },
        )
    } else {
        None
    }
}

/// The text of a version packet: a `u32` length and that many UTF-8 bytes.
pub open spec fn spec_version_text(s: Seq<u8>) -> Option<Seq<char>> {
    if s.len() >= 4 && 4 + u32_at(s, 0) <= s.len() && vstd::utf8::valid_utf8(
        s.subrange(4, 4 + u32_at(s, 0)),
    ) {
        Some(vstd::utf8::decode_utf8(s.subrange(4, 4 + u32_at(s, 0))))
    } else {
        None
    }
}

/// The text of a battle results packet: a `u32` length that must equal the
/// number of bytes that follow, which are UTF-8 (JSON) text.
pub open spec fn spec_battle_results(s: Seq<u8>) -> Option<Seq<char>> {
    if s.len() >= 4 && 4 + u32_at(s, 0) == s.len() && vstd::utf8::valid_utf8(s.subrange(4, s.len() as int)) {
        Some(vstd::utf8::decode_utf8(s.subrange(4, s.len() as int)))
    } else {
        None
    }
}

/// The offset just after the map name of a map packet.
pub open spec fn map_name_end(s: Seq<u8>) -> int {
    152 + u32_at(s, 148)
}

/// Whether a map packet is complete and its name is UTF-8.
pub open spec fn spec_map_packet_ok(s: Seq<u8>) -> bool {
    &&& s.len() >= 152
    &&& map_name_end(s) + 65 <= s.len()
    &&& vstd::utf8::valid_utf8(s.subrange(152, map_name_end(s)))
}

/// The fields of a map packet, when [`spec_map_packet_ok`] holds.
pub open spec fn map_packet_matches(p: MapPacket, s: Seq<u8>) -> bool {
    &&& p.space_id == u32_at(s, 0)
    &&& p.arena_id as int == crate::bytes::as_signed(le_uint(s, 4, 8), 0x1_0000_0000_0000_0000)
    &&& p.unknown1 == u32_at(s, 12)
    &&& p.unknown2 == u32_at(s, 16)
    &&& p.blob@ == s.subrange(20, 148)
    &&& p.map_name@ == vstd::utf8::decode_utf8(s.subrange(152, map_name_end(s)))
    &&& p.matrix@ == s.subrange(map_name_end(s), map_name_end(s) + 64)
    &&& p.unknown == s[map_name_end(s) + 64]
}

fn parse_position_packet(data: &[u8]) -> (r: Result<PositionPacket, ErrorKind>)
    ensures
        match r {
            Ok(p) => spec_position_packet(data@) == Some(p),
            Err(_) => spec_position_packet(data@) is None,
        },
{
    let (pid, p) = match read_u32(data, 0) {
        Some(v) => v,
        None => return Err(ErrorKind::UnexpectedEof),
    };
    let (zero, p) = match read_u32(data, p) {
        Some(v) => v,
        None => return Err(ErrorKind::UnexpectedEof),
    };
    let (position, p) = match Vec3::parse(data, p) {
        Some(v) => v,
        None => return Err(ErrorKind::UnexpectedEof),
    };
    let (position_error, p) = match Vec3::parse(data, p) {
        Some(v) => v,
        None => return Err(ErrorKind::UnexpectedEof),
    };
    let (rotation, p) = match Rot3::parse(data, p) {
        Some(v) => v,
        None => return Err(ErrorKind::UnexpectedEof),
    };
    let (is_error_byte, _p) = match read_u8(data, p) {
        Some(v) => v,
        None => return Err(ErrorKind::UnexpectedEof),
    };
    if zero != 0 {
        return Err(ErrorKind::ParsingFailure(String::new()));
    }
    proof {
        reveal_with_fuel(le_uint, 2);
    }
    Ok(PositionPacket { pid, position, position_error, rotation, is_error: is_error_byte != 0 })
}

fn parse_player_orientation_packet(data: &[u8]) -> (r: Result<PlayerOrientationPacket, ErrorKind>)
    ensures
        match r {
            Ok(p) => spec_orientation_packet(data@) == Some(p),
            Err(_) => spec_orientation_packet(data@) is None,
        },
{
    if data.len() != 0x20 {
        return Err(ErrorKind::ParsingFailure(String::new()));
    }
    let (pid, p) = match read_u32(data, 0) {
        Some(v) => v,
        None => return Err(ErrorKind::UnexpectedEof),
    };
    let (parent_id, p) = match read_u32(data, p) {
        Some(v) => v,
        None => return Err(ErrorKind::UnexpectedEof),
    };
    let (position, p) = match Vec3::parse(data, p) {
        Some(v) => v,
        None => return Err(ErrorKind::UnexpectedEof),
    };
    let (rotation, _p) = match Rot3::parse(data, p) {
        Some(v) => v,
        None => return Err(ErrorKind::UnexpectedEof),
    };
    Ok(PlayerOrientationPacket { pid, parent_id, position, rotation })
}

fn parse_camera_packet(data: &[u8]) -> (r: Result<CameraPacket, ErrorKind>)
    ensures
        match r {
            Ok(p) => spec_camera_packet(data@) == Some(p),
            Err(e) => spec_camera_packet(data@) is None && e is UnexpectedEof,
        },
{
    let (unknown, p) = match Vec3::parse(data, 0) {
        Some(v) => v,
        None => return Err(ErrorKind::UnexpectedEof),
    };
    let (unknown2, p) = match read_u32(data, p) {
        Some(v) => v,
        None => return Err(ErrorKind::UnexpectedEof),
    };
    let (absolute_position, p) = match Vec3::parse(data, p) {
        Some(v) => v,
        None => return Err(ErrorKind::UnexpectedEof),
    };
    let (fov, p) = match read_u32(data, p) {
        Some(v) => v,
        None => return Err(ErrorKind::UnexpectedEof),
    };
    let (position, p) = match Vec3::parse(data, p) {
        Some(v) => v,
        None => return Err(ErrorKind::UnexpectedEof),
    };
    let (rotation, _p) = match Rot3::parse(data, p) {
        Some(v) => v,
        None => return Err(ErrorKind::UnexpectedEof),
    };
    Ok(CameraPacket { unknown, unknown2, absolute_position, fov, position, rotation })
}

fn parse_entity_enter(data: &[u8]) -> (r: Result<EntityEnterPacket, ErrorKind>)
    ensures
        match r {
            Ok(p) => spec_entity_enter(data@) == Some(p),
            Err(e) => spec_entity_enter(data@) is None && e is UnexpectedEof,
        },
{
    let (entity_id, p) = match read_u32(data, 0) {
        Some(v) => v,
        None => return Err(ErrorKind::UnexpectedEof),
    };
    let (space_id, p) = match read_u32(data, p) {
        Some(v) => v,
        None => return Err(ErrorKind::UnexpectedEof),
    };
    let (vehicle_id, _p) = match read_u32(data, p) {
        Some(v) => v,
        None => return Err(ErrorKind::UnexpectedEof),
    };
    Ok(EntityEnterPacket { entity_id, space_id, vehicle_id })
}

fn parse_cruise_state(data: &[u8]) -> (r: Result<CruiseState, ErrorKind>)
    ensures
        match r {
            Ok(p) => spec_cruise_state(data@) == Some(p),
            Err(e) => spec_cruise_state(data@) is None && e is UnexpectedEof,
        },
{
    let (key, p) = match read_u32(data, 0) {
        Some(v) => v,
        None => return Err(ErrorKind::UnexpectedEof),
    };
    let (value, _p) = match read_i32(data, p) {
        Some(v) => v,
        None => return Err(ErrorKind::UnexpectedEof),
    };
    Ok(CruiseState { key, value })
}

fn parse_version_packet(data: &[u8]) -> (r: Result<String, ErrorKind>)
    ensures
        match r {
            Ok(s) => spec_version_text(data@) == Some(s@),
            Err(_) => spec_version_text(data@) is None,
        },
{
    let (len, p) = match read_u32(data, 0) {
        Some(v) => v,
        None => return Err(ErrorKind::UnexpectedEof),
    };
    let (bytes, _p) = match take(data, p, len as usize) {
        Some(v) => v,
        None => return Err(ErrorKind::UnexpectedEof),
    };
    match utf8_string(bytes.as_slice()) {
        Some(s) => Ok(s),
        None => Err(ErrorKind::Utf8Error),
    }
}

fn parse_battle_results(data: &[u8]) -> (r: Result<String, ErrorKind>)
    ensures
        match r {
            Ok(s) => spec_battle_results(data@) == Some(s@),
            Err(_) => spec_battle_results(data@) is None,
        },
{
    let (len, p) = match read_u32(data, 0) {
        Some(v) => v,
        None => return Err(ErrorKind::UnexpectedEof),
    };
    if len as usize != data.len() - 4 {
        return Err(ErrorKind::ParsingFailure(String::new()));
    }
    let (bytes, _p) = match take(data, p, len as usize) {
        Some(v) => v,
        None => return Err(ErrorKind::UnexpectedEof),
    };
    match utf8_string(bytes.as_slice()) {
        Some(s) => Ok(s),
        None => Err(ErrorKind::ParsingFailure(String::new())),
    }
}

fn parse_map_packet(data: &[u8]) -> (r: Result<MapPacket, ErrorKind>)
    ensures
        match r {
            Ok(p) => spec_map_packet_ok(data@) && map_packet_matches(p, data@),
            Err(_) => !spec_map_packet_ok(data@),
        },
{
    let (space_id, p) = match read_u32(data, 0) {
        Some(v) => v,
        None => return Err(ErrorKind::UnexpectedEof),
    };
    let (arena_id, p) = match read_i64(data, p) {
        Some(v) => v,
        None => return Err(ErrorKind::UnexpectedEof),
    };
    let (unknown1, p) = match read_u32(data, p) {
        Some(v) => v,
        None => return Err(ErrorKind::UnexpectedEof),
    };
    let (unknown2, p) = match read_u32(data, p) {
        Some(v) => v,
        None => return Err(ErrorKind::UnexpectedEof),
    };
    let (blob, p) = match take(data, p, 128) {
        Some(v) => v,
        None => return Err(ErrorKind::UnexpectedEof),
    };
    let (string_size, p) = match read_u32(data, p) {
        Some(v) => v,
        None => return Err(ErrorKind::UnexpectedEof),
    };
    let (name_bytes, p) = match take(data, p, string_size as usize) {
        Some(v) => v,
        None => return Err(ErrorKind::UnexpectedEof),
    };
    let (matrix, p) = match take(data, p, 64) {
        Some(v) => v,
        None => return Err(ErrorKind::UnexpectedEof),
    };
    let (unknown, _p) = match read_u8(data, p) {
        Some(v) => v,
        None => return Err(ErrorKind::UnexpectedEof),
    };
    proof {
        reveal_with_fuel(le_uint, 2);
    }
    let map_name = match utf8_string(name_bytes.as_slice()) {
        Some(s) => s,
        None => return Err(ErrorKind::Utf8Error),
    };
    Ok(MapPacket { space_id, arena_id, unknown1, unknown2, blob, map_name, matrix, unknown })
}

/// An entity created during the replay: its type (an index into the
/// entity definitions, counting from 1) and its property values.
#[derive(Debug)]
pub struct Entity {
    pub entity_type: u16,
    pub properties: Vec<ArgValue>,
}

/// Decodes packets, keeping track of the entities that the stream creates.
pub struct Parser<'argtype> {
    specs: &'argtype Vec<EntitySpec>,
    entities: HashMap<u32, Entity>,
}

/// The definition of entity type `ty` (counting from 1), if there is one.
pub open spec fn spec_def(specs: Seq<EntitySpec>, ty: int) -> Option<EntitySpec> {
    if 1 <= ty <= specs.len() {
        Some(specs[ty - 1])
    } else {
        None
    }
}

/// `new` is `old` with entity `id` set to type `ty` and property values
/// `props`, and nothing else changed.
pub open spec fn entity_set(
    old: Map<u32, Entity>,
    new: Map<u32, Entity>,
    id: u32,
    ty: u16,
    props: Seq<ArgVal>,
) -> bool {
    &&& new.contains_key(id)
    &&& new[id].entity_type == ty
    &&& vals_view(new[id].properties@) == props
    &&& forall|k: u32|
        k != id ==> (#[trigger] new.contains_key(k) == old.contains_key(k) && (old.contains_key(k)
            ==> new[k] == old[k]))
}

/// The first `k` (property id, value) pairs of an entity's initial state,
/// read from `pos`: the named values, the values alone, and the offset after
/// them.
pub open spec fn spec_create_props(props: Seq<Property>, s: Seq<u8>, pos: int, k: nat) -> Option<
    (Seq<(Seq<char>, ArgVal)>, Seq<ArgVal>, int),
>
    decreases k,
{
    if k == 0 {
        Some((Seq::empty(), Seq::empty(), pos))
    } else {
        match spec_create_props(props, s, pos, (k - 1) as nat) {
            Some((d, st, p)) => if 0 <= p < s.len() && (s[p] as int) < props.len() && !hits_tuple(
                props[s[p] as int].prop_type@,
                s,
                p + 1,
            ) {
                match spec_parse_value(props[s[p] as int].prop_type@, s, p + 1) {
                    Outcome::Done(v, e) => Some(
                        (d.push((props[s[p] as int].name@, v)), st.push(v), e),
                    ),
                    _ => None,
                }
            } else {
                None
            },
            None => None,
        }
    }
}

/// Reading the first `k` properties of `props` one after the other from
/// `pos` succeeds, ending at the returned offset.
pub open spec fn spec_skip_props(props: Seq<Property>, s: Seq<u8>, pos: int, k: nat) -> Option<int>
    decreases k,
{
    if k == 0 {
        Some(pos)
    } else {
        match spec_skip_props(props, s, pos, (k - 1) as nat) {
            Some(p) => if !hits_tuple(props[k - 1].prop_type@, s, p) {
                match spec_parse_value(props[k - 1].prop_type@, s, p) {
                    Outcome::Done(_, e) => Some(e),
                    _ => None,
                }
            } else {
                None
            },
            None => None,
        }
    }
}

/// The first `k` arguments of a method call, read from `pos`.
pub open spec fn spec_method_args(args: Seq<crate::rpc::typedefs::ArgType>, s: Seq<u8>, pos: int, k: nat) -> Option<
    (Seq<ArgVal>, int),
>
    decreases k,
{
    if k == 0 {
        Some((Seq::empty(), pos))
    } else {
        match spec_method_args(args, s, pos, (k - 1) as nat) {
            Some((vs, p)) => if !hits_tuple(args[k - 1]@, s, p) {
                match spec_parse_value(args[k - 1]@, s, p) {
                    Outcome::Done(v, e) => Some((vs.push(v), e)),
                    _ => None,
                }
            } else {
                None
            },
            None => None,
        }
    }
}

proof fn lemma_create_props_fail(props: Seq<Property>, s: Seq<u8>, pos: int, k: nat, n: nat)
    requires
        k < n,
        spec_create_props(props, s, pos, (k + 1) as nat) is None,
    ensures
        spec_create_props(props, s, pos, n) is None,
    decreases n - k,
{
    if k + 1 < n {
        lemma_create_props_fail(props, s, pos, k + 1, n);
    }
}

proof fn lemma_skip_props_fail(props: Seq<Property>, s: Seq<u8>, pos: int, k: nat, n: nat)
    requires
        k < n,
        spec_skip_props(props, s, pos, (k + 1) as nat) is None,
    ensures
        spec_skip_props(props, s, pos, n) is None,
    decreases n - k,
{
    if k + 1 < n {
        lemma_skip_props_fail(props, s, pos, k + 1, n);
    }
}

proof fn lemma_method_args_fail(args: Seq<crate::rpc::typedefs::ArgType>, s: Seq<u8>, pos: int, k: nat, n: nat)
    requires
        k < n,
        spec_method_args(args, s, pos, (k + 1) as nat) is None,
    ensures
        spec_method_args(args, s, pos, n) is None,
    decreases n - k,
{
    if k + 1 < n {
        lemma_method_args_fail(args, s, pos, k + 1, n);
    }
}

/// What a base-player-create packet `s` decodes to: the entity id, the
/// type's name and the undecoded state, and the entity registered with no
/// properties.
pub open spec fn base_create_decoded(
    specs: Seq<EntitySpec>,
    old_ents: Map<u32, Entity>,
    new_ents: Map<u32, Entity>,
    s: Seq<u8>,
    p: BasePlayerCreatePacket,
) -> bool {
    &&& s.len() >= 6
    &&& spec_def(specs, le_uint(s, 4, 2) as int) matches Some(d)
    &&& p.entity_id == u32_at(s, 0)
    &&& p.entity_type@ == d.name@
    &&& p.state@ == s.subrange(6, s.len() as int)
    &&& entity_set(old_ents, new_ents, p.entity_id, le_uint(s, 4, 2) as u16, Seq::empty())
}

/// A base-player-create packet fails when its header is short or its type
/// is not defined.
pub open spec fn base_create_fails(specs: Seq<EntitySpec>, s: Seq<u8>) -> bool {
    s.len() < 6 || spec_def(specs, le_uint(s, 4, 2) as int) is None
}

impl<'argtype> Parser<'argtype> {
    pub closed spec fn spec_specs(&self) -> Seq<EntitySpec> {
        self.specs@
    }

    pub closed spec fn spec_entities(&self) -> Map<u32, Entity> {
        self.entities@
    }

    /// A parser with no entities yet, decoding against `entities`.
    pub fn new(entities: &'argtype Vec<EntitySpec>) -> (r: Parser<'argtype>)
        ensures
            r.spec_specs() == entities@,
            r.spec_entities() == Map::<u32, Entity>::empty(),
    {
        Parser { specs: entities, entities: HashMap::new() }
    }

    fn lookup_def(&self, ty: u16) -> (r: Result<&'argtype EntitySpec, ErrorKind>)
        ensures
            match r {
                Ok(d) => spec_def(self.specs@, ty as int) == Some(*d),
                Err(_) => spec_def(self.specs@, ty as int) is None,
            },
    {
        if ty >= 1 && (ty as usize) <= self.specs.len() {
            Ok(&self.specs[ty as usize - 1])
        } else {
            Err(ErrorKind::UnknownDefinition { type_index: ty, index: 0 })
        }
    }

    fn entity_type_of(&self, entity_id: u32) -> (r: Result<u16, ErrorKind>)
        ensures
            match r {
                Ok(t) => self.entities@.contains_key(entity_id) && self.entities@[entity_id].entity_type == t,
                Err(_) => !self.entities@.contains_key(entity_id),
            },
    {
        match self.entities.get(&entity_id) {
            Some(e) => Ok(e.entity_type),
            None => Err(ErrorKind::UnknownEntity { entity_id }),
        }
    }

    fn parse_base_player_create(&mut self, data: &[u8]) -> (r: Result<BasePlayerCreatePacket, ErrorKind>)
        ensures
            final(self).specs == old(self).specs,
            match r {
                Ok(p) => base_create_decoded(old(self).specs@, old(self).entities@, final(self).entities@, data@, p),
                Err(_) => final(self).entities@ == old(self).entities@ && base_create_fails(old(self).specs@, data@),
            },
    {
        let (entity_id, p) = match read_u32(data, 0) {
            Some(v) => v,
            None => return Err(ErrorKind::UnexpectedEof),
        };
        let (entity_type, p) = match read_u16(data, p) {
            Some(v) => v,
            None => return Err(ErrorKind::UnexpectedEof),
        };
        let (state, _p) = match take(data, p, data.len() - p) {
            Some(v) => v,
            None => return Err(ErrorKind::UnexpectedEof),
        };
        let spec = self.lookup_def(entity_type)?;
        let name = spec.name.clone();
        let e = Entity { entity_type, properties: Vec::new() };
        proof {
            assert(vals_view(e.properties@) =~= Seq::<ArgVal>::empty());
        }
        self.entities.insert(entity_id, e);
        Ok(BasePlayerCreatePacket { entity_id, entity_type: name, state })
    }
}

/// The offset where an entity-create packet's state starts.
pub open spec fn create_header() -> int {
    42
}

/// Whether an entity-create packet decodes: the header is complete, its
/// type is defined, and the state holds a property count followed by that
/// many (property id, value) pairs.
pub open spec fn spec_create_ok(specs: Seq<EntitySpec>, s: Seq<u8>) -> bool {
    &&& s.len() > create_header()
    &&& spec_def(specs, le_uint(s, 4, 2) as int) matches Some(d) && spec_create_props(
        d.properties@,
        s,
        create_header() + 1,
        s[create_header()] as nat,
    ) is Some
}

/// What an entity-create packet `s` decodes to, and the entity it
/// registers with the values of its initial properties.
pub open spec fn entity_create_decoded(
    specs: Seq<EntitySpec>,
    old_ents: Map<u32, Entity>,
    new_ents: Map<u32, Entity>,
    s: Seq<u8>,
    p: EntityCreatePacket,
) -> bool {
    &&& spec_create_ok(specs, s)
    &&& spec_def(specs, le_uint(s, 4, 2) as int) matches Some(d)
    &&& spec_create_props(d.properties@, s, create_header() + 1, s[create_header()] as nat) matches Some(
        (named, values, _),
    )
    &&& p.entity_id == u32_at(s, 0)
    &&& p.entity_type@ == d.name@
    &&& p.vehicle_id == u32_at(s, 6)
    &&& p.space_id == u32_at(s, 10)
    &&& p.position == spec_vec3(s, 14)
    &&& p.rotation == spec_rot3(s, 26)
    &&& p.state_length == u32_at(s, 38)
    &&& dict_view(p.props@) == named
    &&& entity_set(old_ents, new_ents, p.entity_id, le_uint(s, 4, 2) as u16, values)
}

impl<'argtype> Parser<'argtype> {
    fn parse_entity_create(&mut self, data: &[u8]) -> (r: Result<EntityCreatePacket, ErrorKind>)
        ensures
            final(self).specs == old(self).specs,
            match r {
                Ok(p) => entity_create_decoded(old(self).specs@, old(self).entities@, final(self).entities@, data@, p),
                Err(_) => final(self).entities@ == old(self).entities@ && !spec_create_ok(old(self).specs@, data@),
            },
    {
        let (entity_id, p) = match read_u32(data, 0) {
            Some(v) => v,
            None => return Err(ErrorKind::UnexpectedEof),
        };
        let (entity_type, p) = match read_u16(data, p) {
            Some(v) => v,
            None => return Err(ErrorKind::UnexpectedEof),
        };
        let (vehicle_id, p) = match read_u32(data, p) {
            Some(v) => v,
            None => return Err(ErrorKind::UnexpectedEof),
        };
        let (space_id, p) = match read_u32(data, p) {
            Some(v) => v,
            None => return Err(ErrorKind::UnexpectedEof),
        };
        let (position, p) = match Vec3::parse(data, p) {
            Some(v) => v,
            None => return Err(ErrorKind::UnexpectedEof),
        };
        let (rotation, p) = match Rot3::parse(data, p) {
            Some(v) => v,
            None => return Err(ErrorKind::UnexpectedEof),
        };
        let (state_length, p) = match read_u32(data, p) {
            Some(v) => v,
            None => return Err(ErrorKind::UnexpectedEof),
        };
        let (num_props, mut p) = match read_u8(data, p) {
            Some(v) => v,
            None => return Err(ErrorKind::UnexpectedEof),
        };
        proof {
            reveal_with_fuel(le_uint, 2);
        }
        let spec = self.lookup_def(entity_type)?;
        let ghost props = spec.properties@;
        let mut named: Vec<(String, ArgValue)> = Vec::new();
        let mut stored: Vec<ArgValue> = Vec::new();
        let mut k: u8 = 0;
        while k < num_props
            invariant
                k <= num_props,
                props == spec.properties@,
                self.entities@ == old(self).entities@,
                self.spec_specs() == old(self).spec_specs(),
                data@.len() > create_header(),
                num_props == data@[create_header()],
                entity_type as nat == le_uint(data@, 4, 2),
                spec_def(old(self).specs@, entity_type as int) == Some(*spec),
                spec_create_props(props, data@, create_header() + 1, k as nat) == Some(
                    (dict_view(named@), vals_view(stored@), p as int),
                ),
            decreases num_props - k,
        {
            let (prop_id, np) = match read_u8(data, p) {
                Some(v) => v,
                None => {
                    proof {
                        lemma_create_props_fail(props, data@, create_header() + 1, k as nat, num_props as nat);
                    }
                    return Err(ErrorKind::UnexpectedEof);
                },
            };
            proof {
                reveal_with_fuel(le_uint, 2);
            }
            if prop_id as usize >= spec.properties.len() {
                proof {
                    lemma_create_props_fail(props, data@, create_header() + 1, k as nat, num_props as nat);
                }
                return Err(ErrorKind::UnknownDefinition { type_index: entity_type, index: prop_id as u32 });
            }
            let prop = &spec.properties[prop_id as usize];
            if prop.prop_type.reaches_tuple(data, np) {
                proof {
                    lemma_create_props_fail(props, data@, create_header() + 1, k as nat, num_props as nat);
                }
                return Err(ErrorKind::UnableToParseRpcValue { method: prop.name.clone(), argnum: prop_id as usize, packet: Vec::new() });
            }
            match prop.prop_type.parse_value(data, np) {
                Ok((v, e)) => {
                    let dup = v.duplicate();
                    let name = prop.name.clone();
                    proof {
                        lemma_dict_view_push(named@, (name, v));
                        lemma_vals_view_push(stored@, dup);
                    }
                    named.push((name, v));
                    stored.push(dup);
                    p = e;
                },
                Err(_) => {
                    proof {
                        lemma_create_props_fail(props, data@, create_header() + 1, k as nat, num_props as nat);
                    }
                    let rest = match take(data, p, data.len() - p) {
                        Some((b, _)) => b,
                        None => Vec::new(),
                    };
                    return Err(ErrorKind::UnableToParseRpcValue { method: prop.name.clone(), argnum: prop_id as usize, packet: rest });
                },
            }
            k = k + 1;
        }
        let name = spec.name.clone();
        self.entities.insert(entity_id, Entity { entity_type, properties: stored });
        Ok(EntityCreatePacket {
            entity_id,
            entity_type: name,
            space_id,
            vehicle_id,
            position,
            rotation,
            state_length,
            props: named,
        })
    }
}

/// The cell-player-create value of `s` (its bytes after the 40-byte
/// header, of the length given at offset 36), if it is complete.
pub open spec fn cell_value(s: Seq<u8>) -> Option<Seq<u8>> {
    if s.len() >= 40 && 40 + u32_at(s, 36) <= s.len() {
        Some(s.subrange(40, 40 + u32_at(s, 36)))
    } else {
        None
    }
}

/// Whether a cell-player-create packet decodes against the entities known
/// so far: the entity exists, and its internal properties can all be read
/// from the value, in order.
pub open spec fn spec_cell_create_ok(specs: Seq<EntitySpec>, ents: Map<u32, Entity>, s: Seq<u8>) -> bool {
    &&& cell_value(s) is Some
    &&& ents.contains_key(u32_at(s, 0))
    &&& spec_def(specs, ents[u32_at(s, 0)].entity_type as int) matches Some(d) && spec_skip_props(
        d.internal_properties@,
        cell_value(s)->0,
        0,
        d.internal_properties@.len(),
    ) is Some
}

/// Whether an entity-property packet decodes: the entity exists, the
/// property index is defined for its type, and the value can be read from
/// the payload (the bytes after the 12-byte header, of the length at offset
/// 8).
pub open spec fn spec_property_ok(specs: Seq<EntitySpec>, ents: Map<u32, Entity>, s: Seq<u8>) -> bool {
    &&& s.len() >= 12
    &&& 12 + u32_at(s, 8) <= s.len()
    &&& ents.contains_key(u32_at(s, 0))
    &&& spec_def(specs, ents[u32_at(s, 0)].entity_type as int) matches Some(d) && (u32_at(s, 4) as int)
        < d.properties@.len() && !hits_tuple(
        d.properties@[u32_at(s, 4) as int].prop_type@,
        s.subrange(12, 12 + u32_at(s, 8)),
        0,
    ) && spec_parse_value(
        d.properties@[u32_at(s, 4) as int].prop_type@,
        s.subrange(12, 12 + u32_at(s, 8)),
        0,
    ) is Done
}

/// Whether an entity-method packet decodes: the payload fills the packet,
/// the entity exists, the method index is one of its type's client methods,
/// and every argument can be read from the payload in turn.
pub open spec fn spec_method_ok(specs: Seq<EntitySpec>, ents: Map<u32, Entity>, s: Seq<u8>) -> bool {
    &&& s.len() >= 12
    &&& 12 + u32_at(s, 8) == s.len()
    &&& ents.contains_key(u32_at(s, 0))
    &&& spec_def(specs, ents[u32_at(s, 0)].entity_type as int) matches Some(d) && (u32_at(s, 4) as int)
        < d.client_methods@.len() && spec_method_args(
        d.client_methods@[u32_at(s, 4) as int].args@,
        s.subrange(12, s.len() as int),
        0,
        d.client_methods@[u32_at(s, 4) as int].args@.len(),
    ) is Some
}

/// What a cell-player-create packet `s` decodes to; the value keeps the
/// bytes after the internal properties.
pub open spec fn cell_create_decoded(specs: Seq<EntitySpec>, ents: Map<u32, Entity>, s: Seq<u8>, p: CellPlayerCreatePacket) -> bool {
    &&& spec_cell_create_ok(specs, ents, s)
    &&& spec_def(specs, ents[u32_at(s, 0)].entity_type as int) matches Some(d)
    &&& p.entity_id == u32_at(s, 0)
    &&& p.space_id == u32_at(s, 4)
    &&& p.vehicle_id == u32_at(s, 8)
    &&& p.position == spec_vec3(s, 12)
    &&& p.rotation == spec_rot3(s, 24)
    &&& p.unknown == 5
    &&& p.value@ == cell_value(s)->0.subrange(
        spec_skip_props(d.internal_properties@, cell_value(s)->0, 0, d.internal_properties@.len())->0,
        cell_value(s)->0.len() as int,
    )
}

/// What an entity-property packet `s` decodes to.
pub open spec fn property_decoded(specs: Seq<EntitySpec>, ents: Map<u32, Entity>, s: Seq<u8>, p: EntityPropertyPacket) -> bool {
    &&& spec_property_ok(specs, ents, s)
    &&& spec_def(specs, ents[u32_at(s, 0)].entity_type as int) matches Some(d)
    &&& p.entity_id == u32_at(s, 0)
    &&& p.property@ == d.properties@[u32_at(s, 4) as int].name@
    &&& spec_parse_value(d.properties@[u32_at(s, 4) as int].prop_type@, s.subrange(12, 12 + u32_at(s, 8)), 0)
        matches Outcome::Done(v, _) && val_view(p.value) == v
}

/// What an entity-method packet `s` decodes to.
pub open spec fn method_decoded(specs: Seq<EntitySpec>, ents: Map<u32, Entity>, s: Seq<u8>, p: EntityMethodPacket) -> bool {
    &&& spec_method_ok(specs, ents, s)
    &&& spec_def(specs, ents[u32_at(s, 0)].entity_type as int) matches Some(d)
    &&& p.entity_id == u32_at(s, 0)
    &&& p.method@ == d.client_methods@[u32_at(s, 4) as int].name@
    &&& spec_method_args(
        d.client_methods@[u32_at(s, 4) as int].args@,
        s.subrange(12, s.len() as int),
        0,
        d.client_methods@[u32_at(s, 4) as int].args@.len(),
    ) matches Some((vs, _)) && vals_view(p.args@) == vs
}

impl<'argtype> Parser<'argtype> {
    fn parse_cell_player_create(&self, data: &[u8]) -> (r: Result<CellPlayerCreatePacket, ErrorKind>)
        ensures
            match r {
                Ok(p) => cell_create_decoded(self.specs@, self.entities@, data@, p),
                Err(_) => !spec_cell_create_ok(self.specs@, self.entities@, data@),
            },
    {
        let (entity_id, p) = match read_u32(data, 0) {
            Some(v) => v,
            None => return Err(ErrorKind::UnexpectedEof),
        };
        let (space_id, p) = match read_u32(data, p) {
            Some(v) => v,
            None => return Err(ErrorKind::UnexpectedEof),
        };
        let (vehicle_id, p) = match read_u32(data, p) {
            Some(v) => v,
            None => return Err(ErrorKind::UnexpectedEof),
        };
        let (position, p) = match Vec3::parse(data, p) {
            Some(v) => v,
            None => return Err(ErrorKind::UnexpectedEof),
        };
        let (rotation, p) = match Rot3::parse(data, p) {
            Some(v) => v,
            None => return Err(ErrorKind::UnexpectedEof),
        };
        let (vlen, p) = match read_u32(data, p) {
            Some(v) => v,
            None => return Err(ErrorKind::UnexpectedEof),
        };
        let (value, _p) = match take(data, p, vlen as usize) {
            Some(v) => v,
            None => return Err(ErrorKind::UnexpectedEof),
        };
        let entity_type = self.entity_type_of(entity_id)?;
        let spec = self.lookup_def(entity_type)?;
        let ghost props = spec.internal_properties@;
        let mut pos: usize = 0;
        let mut k: usize = 0;
        while k < spec.internal_properties.len()
            invariant
                k <= props.len(),
                props == spec.internal_properties@,
                spec_skip_props(props, value@, 0, k as nat) == Some(pos as int),
                pos <= value@.len(),
                cell_value(data@) == Some(value@),
                entity_id == u32_at(data@, 0),
                self.entities@.contains_key(entity_id),
                self.entities@[entity_id].entity_type == entity_type,
                spec_def(self.specs@, entity_type as int) == Some(*spec),
            decreases props.len() - k,
        {
            let prop = &spec.internal_properties[k];
            if prop.prop_type.reaches_tuple(value.as_slice(), pos) {
                proof {
                    lemma_skip_props_fail(props, value@, 0, k as nat, props.len());
                }
                return Err(ErrorKind::ParsingFailure(String::new()));
            }
            proof {
                lemma_parse_value_bounds(prop.prop_type@, value@, pos as int);
            }
            match prop.prop_type.parse_value(value.as_slice(), pos) {
                Ok((_v, e)) => {
                    pos = e;
                },
                Err(e) => {
                    proof {
                        lemma_skip_props_fail(props, value@, 0, k as nat, props.len());
                    }
                    return Err(e);
                },
            }
            k = k + 1;
        }
        let rest = match take(value.as_slice(), pos, value.len() - pos) {
            Some((b, _)) => b,
            None => return Err(ErrorKind::UnexpectedEof),
        };
        Ok(CellPlayerCreatePacket {
            entity_id,
            vehicle_id,
            space_id,
            position,
            rotation,
            unknown: 5,
            value: rest,
        })
    }

    fn parse_entity_property_packet(&self, data: &[u8]) -> (r: Result<EntityPropertyPacket, ErrorKind>)
        ensures
            match r {
                Ok(p) => property_decoded(self.specs@, self.entities@, data@, p),
                Err(_) => !spec_property_ok(self.specs@, self.entities@, data@),
            },
    {
        let (entity_id, p) = match read_u32(data, 0) {
            Some(v) => v,
            None => return Err(ErrorKind::UnexpectedEof),
        };
        let (prop_id, p) = match read_u32(data, p) {
            Some(v) => v,
            None => return Err(ErrorKind::UnexpectedEof),
        };
        let (payload_length, p) = match read_u32(data, p) {
            Some(v) => v,
            None => return Err(ErrorKind::UnexpectedEof),
        };
        let (payload, _p) = match take(data, p, payload_length as usize) {
            Some(v) => v,
            None => return Err(ErrorKind::UnexpectedEof),
        };
        let entity_type = self.entity_type_of(entity_id)?;
        let spec = self.lookup_def(entity_type)?;
        if prop_id as usize >= spec.properties.len() {
            return Err(ErrorKind::UnknownDefinition { type_index: entity_type, index: prop_id });
        }
        let prop = &spec.properties[prop_id as usize];
        if prop.prop_type.reaches_tuple(payload.as_slice(), 0) {
            return Err(ErrorKind::ParsingFailure(String::new()));
        }
        match prop.prop_type.parse_value(payload.as_slice(), 0) {
            Ok((value, _)) => Ok(EntityPropertyPacket { entity_id, property: prop.name.clone(), value }),
            Err(e) => Err(e),
        }
    }

    fn parse_entity_method_packet(&self, data: &[u8]) -> (r: Result<EntityMethodPacket, ErrorKind>)
        ensures
            match r {
                Ok(p) => method_decoded(self.specs@, self.entities@, data@, p),
                Err(_) => !spec_method_ok(self.specs@, self.entities@, data@),
            },
    {
        let (entity_id, p) = match read_u32(data, 0) {
            Some(v) => v,
            None => return Err(ErrorKind::UnexpectedEof),
        };
        let (method_id, p) = match read_u32(data, p) {
            Some(v) => v,
            None => return Err(ErrorKind::UnexpectedEof),
        };
        let (payload_length, p) = match read_u32(data, p) {
            Some(v) => v,
            None => return Err(ErrorKind::UnexpectedEof),
        };
        let (payload, p) = match take(data, p, payload_length as usize) {
            Some(v) => v,
            None => return Err(ErrorKind::UnexpectedEof),
        };
        if p != data.len() {
            return Err(ErrorKind::ParsingFailure(String::new()));
        }
        let entity_type = self.entity_type_of(entity_id)?;
        let spec = self.lookup_def(entity_type)?;
        if method_id as usize >= spec.client_methods.len() {
            return Err(ErrorKind::UnknownDefinition { type_index: entity_type, index: method_id });
        }
        let method: &Method = &spec.client_methods[method_id as usize];
        let ghost margs = method.args@;
        let mut args: Vec<ArgValue> = Vec::new();
        let mut pos: usize = 0;
        let mut k: usize = 0;
        while k < method.args.len()
            invariant
                k <= margs.len(),
                margs == method.args@,
                spec_method_args(margs, payload@, 0, k as nat) == Some((vals_view(args@), pos as int)),
                pos <= payload@.len(),
                payload@ == data@.subrange(12, data@.len() as int),
                data@.len() >= 12,
                12 + u32_at(data@, 8) == data@.len(),
                entity_id == u32_at(data@, 0),
                method_id == u32_at(data@, 4),
                self.entities@.contains_key(entity_id),
                self.entities@[entity_id].entity_type == entity_type,
                spec_def(self.specs@, entity_type as int) == Some(*spec),
                (method_id as int) < spec.client_methods@.len(),
                *method == spec.client_methods@[method_id as int],
            decreases margs.len() - k,
        {
            let arg = &method.args[k];
            if arg.reaches_tuple(payload.as_slice(), pos) {
                proof {
                    lemma_method_args_fail(margs, payload@, 0, k as nat, margs.len());
                }
                return Err(ErrorKind::ParsingFailure(String::new()));
            }
            proof {
                lemma_parse_value_bounds(arg@, payload@, pos as int);
            }
            match arg.parse_value(payload.as_slice(), pos) {
                Ok((v, e)) => {
                    proof {
                        lemma_vals_view_push(args@, v);
                    }
                    args.push(v);
                    pos = e;
                },
                Err(_) => {
                    proof {
                        lemma_method_args_fail(margs, payload@, 0, k as nat, margs.len());
                    }
                    let rest = match take(payload.as_slice(), pos, payload.len() - pos) {
                        Some((b, _)) => b,
                        None => Vec::new(),
                    };
                    return Err(ErrorKind::UnableToParseRpcValue { method: method.name.clone(), argnum: k, packet: rest });
                },
            }
            k = k + 1;
        }
        Ok(EntityMethodPacket { entity_id, method: method.name.clone(), args })
    }
}


/// The bytes of a nested property update after its 9-byte header.
pub open spec fn nested_payload(s: Seq<u8>) -> Seq<u8> {
    s.subrange(9, s.len() as int)
}

/// The index of the property that a nested property update addresses, when
/// its header is sound: a `u32` entity id of a known entity, a slice flag
/// of 0 or 1, a payload size equal to the number of bytes after the header,
/// three zero bytes, and a payload that starts with a set continuation bit
/// followed by the property index.
pub open spec fn nested_prop_index(specs: Seq<EntitySpec>, ents: Map<u32, Entity>, s: Seq<u8>) -> Option<int> {
    if s.len() >= 9 && s[6] == 0 && s[7] == 0 && s[8] == 0 && s[5] as int == s.len() - 9 && s[4] <= 1
        && ents.contains_key(u32_at(s, 0)) {
        match spec_def(specs, ents[u32_at(s, 0)].entity_type as int) {
            Some(d) => {
                let p = nested_payload(s);
                let nb = index_bits(d.properties@.len());
                if bits_readable(p, 0, 1) && bits_value(p, 0, 1) == 1 && bits_readable(p, 1, nb) {
                    Some(bits_value(p, 1, nb) as int)
                } else {
                    None
                }
            },
            None => None,
        }
    } else {
        None
    }
}

/// What a nested property update does, when it applies: the new value of
/// the addressed property of the entity, and the path and command.
pub open spec fn spec_nested_property(specs: Seq<EntitySpec>, ents: Map<u32, Entity>, s: Seq<u8>) -> Option<
    (ArgVal, NestingV),
> {
    match nested_prop_index(specs, ents, s) {
        Some(idx) => {
            let e = ents[u32_at(s, 0)];
            let d = spec_def(specs, e.entity_type as int)->0;
            if idx < e.properties@.len() && idx < d.properties@.len() {
                spec_nested_update(
                    s[4] == 1,
                    d.properties@[idx].prop_type@,
                    val_view(e.properties@[idx]),
                    nested_payload(s),
                    1 + index_bits(d.properties@.len()) as int,
                )
            } else {
                None
            }
        },
        None => None,
    }
}

/// What a nested property update `s` decodes to, and the entity's property
/// changed as the update says.
pub open spec fn nested_decoded(
    specs: Seq<EntitySpec>,
    old_ents: Map<u32, Entity>,
    new_ents: Map<u32, Entity>,
    s: Seq<u8>,
    p: PropertyUpdatePacket,
) -> bool {
    &&& nested_prop_index(specs, old_ents, s) matches Some(idx)
    &&& spec_nested_property(specs, old_ents, s) matches Some((nv, nest))
    &&& old_ents[u32_at(s, 0)] matches Entity { entity_type: ty, properties: props }
    &&& spec_def(specs, ty as int) matches Some(d)
    &&& p.entity_id == #[verifier::truncate] (u32_at(s, 0) as i32)
    &&& p.property@ == d.properties@[idx].name@
    &&& nesting_view(p.update_cmd) == nest
    &&& entity_set(old_ents, new_ents, u32_at(s, 0), ty, vals_view(props@).update(idx, nv))
}

/// The header fields of a nested property update that [`nested_prop_index`]
/// accepts.
pub struct NestedHeader<'a> {
    pub entity_id: u32,
    pub is_slice: bool,
    pub payload: Vec<u8>,
    pub entity_type: u16,
    pub def: &'a EntitySpec,
    pub index_bits: usize,
    pub prop_idx: usize,
}

impl<'argtype> Parser<'argtype> {
    fn nested_header(&self, data: &[u8]) -> (r: Result<NestedHeader<'argtype>, ErrorKind>)
        ensures
            match r {
                Ok(h) => {
                    &&& nested_prop_index(self.specs@, self.entities@, data@) == Some(h.prop_idx as int)
                    &&& h.entity_id == u32_at(data@, 0)
                    &&& h.is_slice == (data@[4] == 1)
                    &&& h.payload@ == nested_payload(data@)
                    &&& h.payload@.len() < 256
                    &&& self.entities@.contains_key(h.entity_id)
                    &&& self.entities@[h.entity_id].entity_type == h.entity_type
                    &&& spec_def(self.specs@, h.entity_type as int) == Some(*h.def)
                    &&& h.index_bits == index_bits(h.def.properties@.len())
                },
                Err(e) => nested_prop_index(self.specs@, self.entities@, data@) is None
                    && !(e is UnsupportedInternalPropSet),
            },
    {
        let (entity_id, p) = match read_u32(data, 0) {
            Some(v) => v,
            None => return Err(ErrorKind::UnexpectedEof),
        };
        let (is_slice, p) = match read_u8(data, p) {
            Some(v) => v,
            None => return Err(ErrorKind::UnexpectedEof),
        };
        let (payload_size, p) = match read_u8(data, p) {
            Some(v) => v,
            None => return Err(ErrorKind::UnexpectedEof),
        };
        if data.len() < 9 {
            return Err(ErrorKind::UnexpectedEof);
        }
        proof {
            reveal_with_fuel(le_uint, 2);
        }
        if data[6] != 0 || data[7] != 0 || data[8] != 0 {
            return Err(ErrorKind::BadTag);
        }
        let (payload, _p) = match take(data, 9, data.len() - 9) {
            Some(v) => v,
            None => return Err(ErrorKind::UnexpectedEof),
        };
        if payload_size as usize != payload.len() {
            return Err(ErrorKind::ParsingFailure(String::new()));
        }
        if is_slice > 1 {
            return Err(ErrorKind::ParsingFailure(String::new()));
        }
        let entity_type = match self.entity_type_of(entity_id) {
            Ok(t) => t,
            Err(_) => return Err(ErrorKind::UnknownEntity { entity_id }),
        };
        let def = match self.lookup_def(entity_type) {
            Ok(d) => d,
            Err(_) => return Err(ErrorKind::UnknownDefinition { type_index: entity_type, index: 0 }),
        };
        let cont = match read_bits(payload.as_slice(), 0, 1) {
            Some(c) => c,
            None => return Err(ErrorKind::UnexpectedEof),
        };
        if cont != 1 {
            return Err(ErrorKind::ParsingFailure(String::new()));
        }
        let nb = index_bits_of(def.properties.len());
        let prop_idx = match read_bits(payload.as_slice(), 1, nb) {
            Some(x) => x as usize,
            None => return Err(ErrorKind::UnexpectedEof),
        };
        Ok(NestedHeader { entity_id, is_slice: is_slice == 1, payload, entity_type, def, index_bits: nb, prop_idx })
    }

    #[verifier::rlimit(40)]
    fn parse_nested_property_update(&mut self, data: &[u8]) -> (r: Result<PropertyUpdatePacket, ErrorKind>)
        ensures
            final(self).specs == old(self).specs,
            match r {
                Ok(p) => nested_decoded(old(self).specs@, old(self).entities@, final(self).entities@, data@, p),
                Err(e) => {
                    &&& final(self).entities@ == old(self).entities@
                    &&& spec_nested_property(old(self).specs@, old(self).entities@, data@) is None
                    &&& (e is UnsupportedInternalPropSet <==> (nested_prop_index(
                        old(self).specs@,
                        old(self).entities@,
                        data@,
                    ) matches Some(idx) && idx >= old(self).entities@[u32_at(data@, 0)].properties@.len()))
                },
            },
    {
        let h = match self.nested_header(data) {
            Ok(h) => h,
            Err(e) => return Err(e),
        };
        let NestedHeader { entity_id, is_slice, payload, entity_type, def, index_bits: nb, prop_idx } = h;
        let ghost old_ents = self.entities@;
        let mut entity = match self.entities.remove(&entity_id) {
            Some(e) => e,
            None => return Err(ErrorKind::UnknownEntity { entity_id }),
        };
        if prop_idx >= entity.properties.len() {
            self.entities.insert(entity_id, entity);
            proof {
                assert(self.entities@ =~= old_ents);
            }
            return Err(ErrorKind::UnsupportedInternalPropSet { entity_id, entity_type: def.name.clone(), payload });
        }
        if prop_idx >= def.properties.len() {
            self.entities.insert(entity_id, entity);
            proof {
                assert(self.entities@ =~= old_ents);
            }
            return Err(ErrorKind::UnknownDefinition { type_index: entity_type, index: prop_idx as u32 });
        }
        let prop = &def.properties[prop_idx];
        let mut value = entity.properties[prop_idx].duplicate();
        proof {
            crate::rpc::typedefs::lemma_vals_view_index(entity.properties@, prop_idx as int);
        }
        match get_nested_prop_path_helper(is_slice, &prop.prop_type, &mut value, payload.as_slice(), 1 + nb as u64) {
            Ok(update_cmd) => {
                entity.properties = vals_with(&entity.properties, prop_idx, value);
                self.entities.insert(entity_id, entity);
                let signed_id: i32 = #[verifier::truncate] (entity_id as i32);
                Ok(PropertyUpdatePacket { entity_id: signed_id, property: prop.name.clone(), update_cmd })
            },
            Err(e) => {
                self.entities.insert(entity_id, entity);
                proof {
                    assert(self.entities@ =~= old_ents);
                }
                Err(e)
            },
        }
    }
}


/// The decoded content of one packet.
#[derive(Debug)]
pub enum PacketType {
    Position(PositionPacket),
    BasePlayerCreate(BasePlayerCreatePacket),
    CellPlayerCreate(CellPlayerCreatePacket),
    EntityEnter(EntityEnterPacket),
    EntityLeave(EntityLeavePacket),
    EntityCreate(EntityCreatePacket),
    EntityProperty(EntityPropertyPacket),
    EntityMethod(EntityMethodPacket),
    PropertyUpdate(PropertyUpdatePacket),
    PlayerOrientation(PlayerOrientationPacket),
    CruiseState(CruiseState),
    Version(String),
    Camera(CameraPacket),
    CameraMode(u32),
    CameraFreeLook(u8),
    MapInfo(MapPacket),
    BattleResults(String),
    Unknown(Vec<u8>),
    /// A packet of a known kind that could not be decoded.
    Invalid(InvalidPacket),
}

/// One framed packet: its header, its decoded content and its bytes.
#[derive(Debug)]
pub struct Packet {
    pub packet_size: u32,
    pub packet_type: u32,
    /// The game clock in seconds, an `f32` held as its bit pattern.
    pub clock: u32,
    pub payload: PacketType,
    pub raw: Vec<u8>,
}

/// What a packet of kind `ty` with bytes `s` decodes to, against the
/// entity definitions and the entities before (`old_ents`) and after
/// (`new_ents`) it.
pub open spec fn naked_decoded(
    specs: Seq<EntitySpec>,
    old_ents: Map<u32, Entity>,
    new_ents: Map<u32, Entity>,
    ty: u32,
    s: Seq<u8>,
    p: PacketType,
) -> bool {
    if ty == 0x0 {
        p matches PacketType::BasePlayerCreate(b) && base_create_decoded(specs, old_ents, new_ents, s, b)
    } else if ty == 0x5 {
        p matches PacketType::EntityCreate(c) && entity_create_decoded(specs, old_ents, new_ents, s, c)
    } else if ty == 0x23 {
        p matches PacketType::PropertyUpdate(u) && nested_decoded(specs, old_ents, new_ents, s, u)
    } else {
        &&& new_ents == old_ents
        &&& if ty == 0x1 {
            p matches PacketType::CellPlayerCreate(c) && cell_create_decoded(specs, old_ents, s, c)
        } else if ty == 0x3 {
            p matches PacketType::EntityEnter(e) && spec_entity_enter(s) == Some(e)
        } else if ty == 0x4 {
            p matches PacketType::EntityLeave(e) && s.len() >= 4 && e.entity_id == u32_at(s, 0)
        } else if ty == 0x7 {
            p matches PacketType::EntityProperty(e) && property_decoded(specs, old_ents, s, e)
        } else if ty == 0x8 {
            p matches PacketType::EntityMethod(m) && method_decoded(specs, old_ents, s, m)
        } else if ty == 0xA {
            p matches PacketType::Position(x) && spec_position_packet(s) == Some(x)
        } else if ty == 0x16 {
            p matches PacketType::Version(v) && spec_version_text(s) == Some(v@)
        } else if ty == 0x22 {
            p matches PacketType::BattleResults(b) && spec_battle_results(s) == Some(b@)
        } else if ty == 0x25 {
            p matches PacketType::Camera(c) && spec_camera_packet(s) == Some(c)
        } else if ty == 0x27 {
            p matches PacketType::CameraMode(m) && s.len() >= 4 && m == u32_at(s, 0)
        } else if ty == 0x28 {
            p matches PacketType::MapInfo(m) && spec_map_packet_ok(s) && map_packet_matches(m, s)
        } else if ty == 0x2c {
            p matches PacketType::PlayerOrientation(o) && spec_orientation_packet(s) == Some(o)
        } else if ty == 0x2f {
            p matches PacketType::CameraFreeLook(f) && s.len() >= 1 && f == s[0]
        } else if ty == 0x32 {
            p matches PacketType::CruiseState(c) && spec_cruise_state(s) == Some(c)
        } else {
            p matches PacketType::Unknown(b) && b@ == s
        }
    }
}

/// Reading after writing: an entity that an entity-create packet makes
/// holds the values that the packet gives its properties; after a nested
/// property update addressed to it, it holds the same values but for the
/// addressed property, which holds the update's new value.
pub proof fn lemma_update_after_create(
    specs: Seq<EntitySpec>,
    e0: Map<u32, Entity>,
    e1: Map<u32, Entity>,
    e2: Map<u32, Entity>,
    s1: Seq<u8>,
    s2: Seq<u8>,
    p1: PacketType,
    p2: PacketType,
)
    requires
        naked_decoded(specs, e0, e1, 0x5, s1, p1),
        naked_decoded(specs, e1, e2, 0x23, s2, p2),
        p1 matches PacketType::EntityCreate(c) && u32_at(s2, 0) == c.entity_id,
    ensures
        p1 matches PacketType::EntityCreate(c) && {
            let d = spec_def(specs, le_uint(s1, 4, 2) as int)->0;
            let created = spec_create_props(d.properties@, s1, create_header() + 1, s1[create_header()] as nat)->0;
            let values = created.1;
            &&& vals_view(e1[c.entity_id].properties@) == values
            &&& nested_prop_index(specs, e1, s2) matches Some(idx)
            &&& spec_nested_property(specs, e1, s2) matches Some((nv, _))
            &&& vals_view(e2[c.entity_id].properties@) == values.update(idx, nv)
        },
{
}

/// Whether a packet of kind `ty` with bytes `s` cannot be decoded.
pub open spec fn naked_fails(specs: Seq<EntitySpec>, ents: Map<u32, Entity>, ty: u32, s: Seq<u8>) -> bool {
    if ty == 0x0 {
        base_create_fails(specs, s)
    } else if ty == 0x1 {
        !spec_cell_create_ok(specs, ents, s)
    } else if ty == 0x3 {
        spec_entity_enter(s) is None
    } else if ty == 0x4 {
        s.len() < 4
    } else if ty == 0x5 {
        !spec_create_ok(specs, s)
    } else if ty == 0x7 {
        !spec_property_ok(specs, ents, s)
    } else if ty == 0x8 {
        !spec_method_ok(specs, ents, s)
    } else if ty == 0xA {
        spec_position_packet(s) is None
    } else if ty == 0x16 {
        spec_version_text(s) is None
    } else if ty == 0x22 {
        spec_battle_results(s) is None
    } else if ty == 0x23 {
        spec_nested_property(specs, ents, s) is None
    } else if ty == 0x25 {
        spec_camera_packet(s) is None
    } else if ty == 0x27 {
        s.len() < 4
    } else if ty == 0x28 {
        !spec_map_packet_ok(s)
    } else if ty == 0x2c {
        spec_orientation_packet(s) is None
    } else if ty == 0x2f {
        s.len() < 1
    } else if ty == 0x32 {
        spec_cruise_state(s) is None
    } else {
        false
    }
}

/// Whether a whole packet starts at `pos`: a 12-byte header (size, kind,
/// clock) and as many bytes as the size says.
pub open spec fn frame_ok(s: Seq<u8>, pos: int) -> bool {
    0 <= pos && pos + 12 <= s.len() && pos + 12 + u32_at(s, pos) <= s.len()
}

/// The bytes of the packet that starts at `pos`.
pub open spec fn frame_body(s: Seq<u8>, pos: int) -> Seq<u8> {
    s.subrange(pos + 12, pos + 12 + u32_at(s, pos))
}

/// Whether the bytes from `pos` on are a sequence of whole packets.
pub open spec fn frames_ok(s: Seq<u8>, pos: int) -> bool
    decreases s.len() - pos,
{
    if pos < 0 {
        false
    } else if pos >= s.len() {
        true
    } else {
        frame_ok(s, pos) && frames_ok(s, pos + 12 + u32_at(s, pos))
    }
}

/// Reads a little-endian `u32` at `pos` and decodes it as
/// [`u32_at`] says.
fn u32_field(data: &[u8], pos: usize) -> (r: Result<u32, ErrorKind>)
    ensures
        match r {
            Ok(v) => pos + 4 <= data@.len() && v == u32_at(data@, pos as int),
            Err(e) => pos + 4 > data@.len() && e is UnexpectedEof,
        },
{
    match read_u32(data, pos) {
        Some((v, _)) => Ok(v),
        None => Err(ErrorKind::UnexpectedEof),
    }
}

/// A packet of every kind that no decoder is written for: its bytes.
fn parse_unknown_packet(data: &[u8]) -> (r: Vec<u8>)
    ensures
        r@ == data@,
{
    match take(data, 0, data.len()) {
        Some((b, _)) => b,
        None => Vec::new(),
    }
}

impl<'argtype> Parser<'argtype> {
    /// Decodes the bytes of one packet of kind `packet_type`.
    #[verifier::rlimit(40)]
    pub fn parse_naked_packet(&mut self, packet_type: u32, data: &[u8]) -> (r: Result<PacketType, ErrorKind>)
        ensures
            final(self).spec_specs() == old(self).spec_specs(),
            match r {
                Ok(p) => naked_decoded(
                    old(self).spec_specs(),
                    old(self).spec_entities(),
                    final(self).spec_entities(),
                    packet_type,
                    data@,
                    p,
                ),
                Err(_) => final(self).spec_entities() == old(self).spec_entities() && naked_fails(
                    old(self).spec_specs(),
                    old(self).spec_entities(),
                    packet_type,
                    data@,
                ),
            },
    {
        if packet_type == 0x0 {
            match self.parse_base_player_create(data) {
                Ok(p) => Ok(PacketType::BasePlayerCreate(p)),
                Err(e) => Err(e),
            }
        } else if packet_type == 0x1 {
            match self.parse_cell_player_create(data) {
                Ok(p) => Ok(PacketType::CellPlayerCreate(p)),
                Err(e) => Err(e),
            }
        } else if packet_type == 0x3 {
            match parse_entity_enter(data) {
                Ok(p) => Ok(PacketType::EntityEnter(p)),
                Err(e) => Err(e),
            }
        } else if packet_type == 0x4 {
            match u32_field(data, 0) {
                Ok(entity_id) => Ok(PacketType::EntityLeave(EntityLeavePacket { entity_id })),
                Err(e) => Err(e),
            }
        } else if packet_type == 0x5 {
            match self.parse_entity_create(data) {
                Ok(p) => Ok(PacketType::EntityCreate(p)),
                Err(e) => Err(e),
            }
        } else if packet_type == 0x7 {
            match self.parse_entity_property_packet(data) {
                Ok(p) => Ok(PacketType::EntityProperty(p)),
                Err(e) => Err(e),
            }
        } else if packet_type == 0x8 {
            match self.parse_entity_method_packet(data) {
                Ok(p) => Ok(PacketType::EntityMethod(p)),
                Err(e) => Err(e),
            }
        } else if packet_type == 0xA {
            match parse_position_packet(data) {
                Ok(p) => Ok(PacketType::Position(p)),
                Err(e) => Err(e),
            }
        } else if packet_type == 0x16 {
            match parse_version_packet(data) {
                Ok(v) => Ok(PacketType::Version(v)),
                Err(e) => Err(e),
            }
        } else if packet_type == 0x22 {
            match parse_battle_results(data) {
                Ok(v) => Ok(PacketType::BattleResults(v)),
                Err(e) => Err(e),
            }
        } else if packet_type == 0x23 {
            match self.parse_nested_property_update(data) {
                Ok(p) => Ok(PacketType::PropertyUpdate(p)),
                Err(e) => Err(e),
            }
        } else if packet_type == 0x25 {
            match parse_camera_packet(data) {
                Ok(p) => Ok(PacketType::Camera(p)),
                Err(e) => Err(e),
            }
        } else if packet_type == 0x27 {
            match u32_field(data, 0) {
                Ok(mode) => Ok(PacketType::CameraMode(mode)),
                Err(e) => Err(e),
            }
        } else if packet_type == 0x28 {
            match parse_map_packet(data) {
                Ok(p) => Ok(PacketType::MapInfo(p)),
                Err(e) => Err(e),
            }
        } else if packet_type == 0x2c {
            match parse_player_orientation_packet(data) {
                Ok(p) => Ok(PacketType::PlayerOrientation(p)),
                Err(e) => Err(e),
            }
        } else if packet_type == 0x2f {
            if data.len() >= 1 {
                Ok(PacketType::CameraFreeLook(data[0]))
            } else {
                Err(ErrorKind::UnexpectedEof)
            }
        } else if packet_type == 0x32 {
            match parse_cruise_state(data) {
                Ok(p) => Ok(PacketType::CruiseState(p)),
                Err(e) => Err(e),
            }
        } else {
            Ok(PacketType::Unknown(parse_unknown_packet(data)))
        }
    }

    /// Reads the packet that starts at `pos`: its header, and its bytes
    /// decoded as its kind says. A packet that cannot be decoded comes back
    /// as [`PacketType::Invalid`], with the entities left as they were.
    /// Fails only when the bytes end inside the packet.
    pub fn parse_packet(&mut self, data: &[u8], pos: usize) -> (r: Result<(Packet, usize), ErrorKind>)
        ensures
            final(self).spec_specs() == old(self).spec_specs(),
            match r {
                Ok((pk, next)) => {
                    &&& frame_ok(data@, pos as int)
                    &&& next == pos + 12 + u32_at(data@, pos as int)
                    &&& pk.packet_size == u32_at(data@, pos as int)
                    &&& pk.packet_type == u32_at(data@, pos + 4)
                    &&& pk.clock == u32_at(data@, pos + 8)
                    &&& pk.raw@ == frame_body(data@, pos as int)
                    &&& if naked_fails(old(self).spec_specs(), old(self).spec_entities(), pk.packet_type, pk.raw@) {
                        &&& final(self).spec_entities() == old(self).spec_entities()
                        &&& pk.payload matches PacketType::Invalid(inv) && inv.raw@ == pk.raw@
                        &&& pk.payload matches PacketType::Invalid(inv) && exists|e: ErrorKind|
                            inv.message@ == #[trigger] spec_error_name(e)
                    } else {
                        naked_decoded(
                            old(self).spec_specs(),
                            old(self).spec_entities(),
                            final(self).spec_entities(),
                            pk.packet_type,
                            pk.raw@,
                            pk.payload,
                        )
                    }
                },
                Err(e) => !frame_ok(data@, pos as int) && e is UnexpectedEof && final(self).spec_entities()
                    == old(self).spec_entities(),
            },
    {
        if pos > data.len() {
            return Err(ErrorKind::UnexpectedEof);
        }
        let packet_size = match u32_field(data, pos) {
            Ok(v) => v,
            Err(e) => return Err(e),
        };
        let packet_type = match u32_field(data, pos + 4) {
            Ok(v) => v,
            Err(e) => return Err(e),
        };
        let clock = match u32_field(data, pos + 8) {
            Ok(v) => v,
            Err(e) => return Err(e),
        };
        let (body, next) = match take(data, pos + 12, packet_size as usize) {
            Some(v) => v,
            None => return Err(ErrorKind::UnexpectedEof),
        };
        let raw = copy_bytes(&body);
        let payload = match self.parse_naked_packet(packet_type, body.as_slice()) {
            Ok(p) => p,
            Err(e) => {
                let message = e.name();
                proof {
                    assert(message@ == spec_error_name(e));
                }
                PacketType::Invalid(InvalidPacket { message, raw: copy_bytes(&body) })
            },
        };
        Ok((Packet { packet_size, packet_type, clock, payload, raw }, next))
    }

    /// Reads every packet of `data` in turn, up to the first that the bytes
    /// end inside of: the packets read, in order, and whether the bytes held
    /// whole packets to the end.
    pub fn parse_stream(&mut self, data: &[u8]) -> (r: (Vec<Packet>, Result<(), ErrorKind>))
        ensures
            final(self).spec_specs() == old(self).spec_specs(),
            r.1 is Ok <==> frames_ok(data@, 0),
            packets_frames(r.0@) == stream_frames(data@, 0),
            stream_decoded(old(self).spec_specs(), old(self).spec_entities(), final(self).spec_entities(), data@, 0),
    {
        let mut out: Vec<Packet> = Vec::new();
        let mut pos: usize = 0;
        while pos < data.len()
            invariant
                pos <= data@.len(),
                self.spec_specs() == old(self).spec_specs(),
                frames_ok(data@, 0) <==> frames_ok(data@, pos as int),
                packets_frames(out@) + stream_frames(data@, pos as int) == stream_frames(data@, 0),
                forall|ef: Map<u32, Entity>|
                    #[trigger] stream_decoded(self.spec_specs(), self.spec_entities(), ef, data@, pos as int)
                        ==> stream_decoded(old(self).spec_specs(), old(self).spec_entities(), ef, data@, 0),
            decreases data@.len() - pos,
        {
            let ghost e_before = self.spec_entities();
            match self.parse_packet(data, pos) {
                Ok((packet, next)) => {
                    proof {
                        lemma_stream_step(self.spec_specs(), e_before, self.spec_entities(), data@, pos as int, packet);
                        let f = frame_of(packet);
                        assert(stream_frames(data@, pos as int) == seq![f] + stream_frames(data@, next as int));
                        assert(packets_frames(out@.push(packet)) =~= packets_frames(out@).push(f));
                        assert(packets_frames(out@) + (seq![f] + stream_frames(data@, next as int)) =~= packets_frames(
                            out@,
                        ).push(f) + stream_frames(data@, next as int));
                    }
                    out.push(packet);
                    pos = next;
                },
                Err(e) => {
                    proof {
                        assert(stream_decoded(self.spec_specs(), self.spec_entities(), self.spec_entities(), data@, pos as int));
                        assert(stream_frames(data@, pos as int) =~= Seq::<(u32, u32, u32, Seq<u8>)>::empty());
                        assert(packets_frames(out@) + Seq::<(u32, u32, u32, Seq<u8>)>::empty() =~= packets_frames(out@));
                    }
                    return (out, Err(e));
                },
            }
        }
        proof {
            assert(stream_decoded(self.spec_specs(), self.spec_entities(), self.spec_entities(), data@, pos as int));
            assert(stream_frames(data@, pos as int) =~= Seq::<(u32, u32, u32, Seq<u8>)>::empty());
            assert(packets_frames(out@) + Seq::<(u32, u32, u32, Seq<u8>)>::empty() =~= packets_frames(out@));
        }
        (out, Ok(()))
    }

    /// Reads every packet of `data` in turn, as [`Parser::parse_stream`]
    /// does, and hands each packet read to `p`, in order. Fails when the
    /// bytes end inside a packet; packets before it have been handed on.
    pub fn parse_packets_mut<P: PacketProcessorMut>(&mut self, data: &[u8], p: &mut P) -> (r: Result<(), ErrorKind>)
        ensures
            final(self).spec_specs() == old(self).spec_specs(),
            r is Ok <==> frames_ok(data@, 0),
            stream_decoded(old(self).spec_specs(), old(self).spec_entities(), final(self).spec_entities(), data@, 0),
            final(p).keeps_record() == old(p).keeps_record(),
            old(p).keeps_record() ==> final(p).received() == old(p).received() + stream_frames(data@, 0),
    {
        let (packets, r) = self.parse_stream(data);
        let ghost all = packets@;
        let ghost start = p.received();
        proof {
            broadcast use vstd::std_specs::vec::axiom_spec_into_iter;
            assert(start + packets_frames(all.take(0)) =~= start);
        }
        for packet in it: packets.into_iter()
            invariant
                it.seq() == all,
                packets_frames(all) == stream_frames(data@, 0),
                p.keeps_record() == old(p).keeps_record(),
                start == old(p).received(),
                old(p).keeps_record() ==> p.received() == start + packets_frames(all.take(it.index() as int)),
        {
            let ghost k = it.index() as int;
            proof {
                assert(all.take(k + 1) =~= all.take(k).push(all[k]));
                assert(packets_frames(all.take(k + 1)) =~= packets_frames(all.take(k)).push(frame_of(all[k])));
            }
            p.process_mut(packet);
        }
        proof {
            assert(all.take(all.len() as int) =~= all);
        }
        r
    }

    /// Reads every packet of `data` in turn, as [`Parser::parse_stream`]
    /// does, and hands each packet read to `p`, in order. Fails when the
    /// bytes end inside a packet; packets before it have been handed on.
    pub fn parse_packets<P: PacketProcessor>(&mut self, data: &[u8], p: &P) -> (r: Result<(), ErrorKind>)
        ensures
            final(self).spec_specs() == old(self).spec_specs(),
            r is Ok <==> frames_ok(data@, 0),
            stream_decoded(old(self).spec_specs(), old(self).spec_entities(), final(self).spec_entities(), data@, 0),
    {
        let (packets, r) = self.parse_stream(data);
        for packet in packets {
            p.process(packet);
        }
        r
    }
}

/// The header and bytes of each of the packets `ps`, in order.
pub open spec fn packets_frames(ps: Seq<Packet>) -> Seq<(u32, u32, u32, Seq<u8>)> {
    Seq::new(ps.len(), |i: int| frame_of(ps[i]))
}

/// Whether `e1` is an entity state that decoding the whole packets from
/// `pos` on, in turn, leads to from `e0`: each packet changes the state as
/// [`naked_decoded`] says, or leaves it where it cannot be decoded; the
/// first packet that the bytes end inside of ends the stream.
pub open spec fn stream_decoded(
    specs: Seq<EntitySpec>,
    e0: Map<u32, Entity>,
    e1: Map<u32, Entity>,
    s: Seq<u8>,
    pos: int,
) -> bool
    decreases s.len() - pos,
{
    if pos < 0 || pos >= s.len() || !frame_ok(s, pos) {
        e1 == e0
    } else {
        let ty = u32_at(s, pos + 4);
        let body = frame_body(s, pos);
        let next = pos + 12 + u32_at(s, pos);
        if naked_fails(specs, e0, ty, body) {
            stream_decoded(specs, e0, e1, s, next)
        } else {
            exists|em: Map<u32, Entity>, p: PacketType|
                #[trigger] naked_decoded(specs, e0, em, ty, body, p) && stream_decoded(specs, em, e1, s, next)
        }
    }
}

proof fn lemma_stream_step(
    specs: Seq<EntitySpec>,
    e0: Map<u32, Entity>,
    e1: Map<u32, Entity>,
    s: Seq<u8>,
    pos: int,
    pk: Packet,
)
    requires
        pos >= 0,
        frame_ok(s, pos),
        pk.packet_type == u32_at(s, pos + 4),
        pk.raw@ == frame_body(s, pos),
        if naked_fails(specs, e0, pk.packet_type, pk.raw@) {
            e1 == e0
        } else {
            naked_decoded(specs, e0, e1, pk.packet_type, pk.raw@, pk.payload)
        },
    ensures
        forall|ef: Map<u32, Entity>|
            #[trigger] stream_decoded(specs, e1, ef, s, pos + 12 + u32_at(s, pos)) ==> stream_decoded(
                specs,
                e0,
                ef,
                s,
                pos,
            ),
{
    assert forall|ef: Map<u32, Entity>|
        #[trigger] stream_decoded(specs, e1, ef, s, pos + 12 + u32_at(s, pos)) implies stream_decoded(
            specs,
            e0,
            ef,
            s,
            pos,
        ) by {
        if !naked_fails(specs, e0, pk.packet_type, pk.raw@) {
            assert(naked_decoded(specs, e0, e1, u32_at(s, pos + 4), frame_body(s, pos), pk.payload));
        }
    }
}

/// Receives the packets of a stream, one at a time.
pub trait PacketProcessor {
    fn process(&self, packet: Packet);
}

/// The header and bytes of a packet: its size, kind, clock and raw bytes.
pub open spec fn frame_of(p: Packet) -> (u32, u32, u32, Seq<u8>) {
    (p.packet_size, p.packet_type, p.clock, p.raw@)
}

/// The header and bytes of each whole packet from `pos` on, in order, up to
/// the first that the bytes end inside of.
pub open spec fn stream_frames(s: Seq<u8>, pos: int) -> Seq<(u32, u32, u32, Seq<u8>)>
    decreases s.len() - pos,
{
    if pos < 0 || pos >= s.len() || !frame_ok(s, pos) {
        Seq::empty()
    } else {
        seq![(u32_at(s, pos), u32_at(s, pos + 4), u32_at(s, pos + 8), frame_body(s, pos))] + stream_frames(
            s,
            pos + 12 + u32_at(s, pos),
        )
    }
}

/// Receives the packets of a stream, one at a time, and may change as it
/// does.
pub trait PacketProcessorMut {
    /// Whether this processor keeps a record of the packets it is handed,
    /// as [`PacketProcessorMut::received`]. A processor that does not say
    /// so promises nothing of it.
    open spec fn keeps_record(&self) -> bool {
        false
    }

    /// The header and bytes of each packet handed to this processor so
    /// far, in order.
    open spec fn received(&self) -> Seq<(u32, u32, u32, Seq<u8>)> {
        Seq::empty()
    }

    fn process_mut(&mut self, packet: Packet)
        ensures
            final(self).keeps_record() == old(self).keeps_record(),
            old(self).keeps_record() ==> final(self).received() == old(self).received().push(
                frame_of(packet),
            ),
    ;
}

/// A 32-bit field of a packet is the little-endian number its four bytes
/// spell.
pub proof fn lemma_u32_at_bytes(s: Seq<u8>, p: int)
    requires
        0 <= p,
        p + 4 <= s.len(),
    ensures
        u32_at(s, p) == le_bytes4(s, p),
{
    reveal_with_fuel(le_uint, 5);
    assert(le_uint(s, p, 4) == le_bytes4(s, p));
    assert(le_bytes4(s, p) < 0x1_0000_0000);
}

/// A player-orientation packet takes exactly 32 bytes: the player's id is
/// the little-endian number at offset 0, its parent's id the one at
/// offset 4, the position the three at 8, 12 and 16, the rotation (roll,
/// pitch, yaw) the three at 20, 24 and 28.
pub proof fn lemma_orientation_layout(s: Seq<u8>)
    ensures
        spec_orientation_packet(s) is Some <==> s.len() == 32,
        spec_orientation_packet(s) matches Some(o) ==> {
            &&& o.pid == le_bytes4(s, 0)
            &&& o.parent_id == le_bytes4(s, 4)
            &&& o.position.x == le_bytes4(s, 8)
            &&& o.position.y == le_bytes4(s, 12)
            &&& o.position.z == le_bytes4(s, 16)
            &&& o.rotation.roll == le_bytes4(s, 20)
            &&& o.rotation.pitch == le_bytes4(s, 24)
            &&& o.rotation.yaw == le_bytes4(s, 28)
        },
{
    if s.len() == 32 {
        lemma_u32_at_bytes(s, 0);
        lemma_u32_at_bytes(s, 4);
        lemma_u32_at_bytes(s, 8);
        lemma_u32_at_bytes(s, 12);
        lemma_u32_at_bytes(s, 16);
        lemma_u32_at_bytes(s, 20);
        lemma_u32_at_bytes(s, 24);
        lemma_u32_at_bytes(s, 28);
    }
}

/// A position packet holds the entity's id at offset 0, a zero at offset
/// 4, the position at 8, 12 and 16, the position error at 20, 24 and 28,
/// the rotation at 32, 36 and 40, and the error flag in byte 44.
pub proof fn lemma_position_layout(s: Seq<u8>)
    ensures
        spec_position_packet(s) is Some <==> s.len() >= 45 && le_bytes4(s, 4) == 0,
        spec_position_packet(s) matches Some(q) ==> {
            &&& q.pid == le_bytes4(s, 0)
            &&& q.position.x == le_bytes4(s, 8)
            &&& q.position.y == le_bytes4(s, 12)
            &&& q.position.z == le_bytes4(s, 16)
            &&& q.position_error.x == le_bytes4(s, 20)
            &&& q.position_error.y == le_bytes4(s, 24)
            &&& q.position_error.z == le_bytes4(s, 28)
            &&& q.rotation.roll == le_bytes4(s, 32)
            &&& q.rotation.pitch == le_bytes4(s, 36)
            &&& q.rotation.yaw == le_bytes4(s, 40)
            &&& q.is_error == (s[44] != 0)
        },
{
    if s.len() >= 45 {
        lemma_u32_at_bytes(s, 0);
        lemma_u32_at_bytes(s, 4);
        lemma_u32_at_bytes(s, 8);
        lemma_u32_at_bytes(s, 12);
        lemma_u32_at_bytes(s, 16);
        lemma_u32_at_bytes(s, 20);
        lemma_u32_at_bytes(s, 24);
        lemma_u32_at_bytes(s, 28);
        lemma_u32_at_bytes(s, 32);
        lemma_u32_at_bytes(s, 36);
        lemma_u32_at_bytes(s, 40);
    }
}

/// A camera packet of at least 56 bytes holds, as little-endian numbers,
/// an unknown vector at 0, 4 and 8, an unknown number at 12, the absolute
/// position at 16, 20 and 24, the field of view at 28, the position at 32,
/// 36 and 40, and the rotation at 44, 48 and 52.
pub proof fn lemma_camera_layout(s: Seq<u8>)
    ensures
        spec_camera_packet(s) is Some <==> s.len() >= 56,
        spec_camera_packet(s) matches Some(c) ==> {
            &&& c.unknown.x == le_bytes4(s, 0)
            &&& c.unknown.y == le_bytes4(s, 4)
            &&& c.unknown.z == le_bytes4(s, 8)
            &&& c.unknown2 == le_bytes4(s, 12)
            &&& c.absolute_position.x == le_bytes4(s, 16)
            &&& c.absolute_position.y == le_bytes4(s, 20)
            &&& c.absolute_position.z == le_bytes4(s, 24)
            &&& c.fov == le_bytes4(s, 28)
            &&& c.position.x == le_bytes4(s, 32)
            &&& c.position.y == le_bytes4(s, 36)
            &&& c.position.z == le_bytes4(s, 40)
            &&& c.rotation.roll == le_bytes4(s, 44)
            &&& c.rotation.pitch == le_bytes4(s, 48)
            &&& c.rotation.yaw == le_bytes4(s, 52)
        },
{
    if s.len() >= 56 {
        lemma_u32_at_bytes(s, 0);
        lemma_u32_at_bytes(s, 4);
        lemma_u32_at_bytes(s, 8);
        lemma_u32_at_bytes(s, 12);
        lemma_u32_at_bytes(s, 16);
        lemma_u32_at_bytes(s, 20);
        lemma_u32_at_bytes(s, 24);
        lemma_u32_at_bytes(s, 28);
        lemma_u32_at_bytes(s, 32);
        lemma_u32_at_bytes(s, 36);
        lemma_u32_at_bytes(s, 40);
        lemma_u32_at_bytes(s, 44);
        lemma_u32_at_bytes(s, 48);
        lemma_u32_at_bytes(s, 52);
    }
}

/// An entity-enter packet holds, as little-endian numbers, the entity's
/// id at offset 0, the space's at 4 and the vehicle's at 8.
pub proof fn lemma_entity_enter_layout(s: Seq<u8>)
    ensures
        spec_entity_enter(s) is Some <==> s.len() >= 12,
        spec_entity_enter(s) matches Some(e) ==> {
            &&& e.entity_id == le_bytes4(s, 0)
            &&& e.space_id == le_bytes4(s, 4)
            &&& e.vehicle_id == le_bytes4(s, 8)
        },
{
    if s.len() >= 12 {
        lemma_u32_at_bytes(s, 0);
        lemma_u32_at_bytes(s, 4);
        lemma_u32_at_bytes(s, 8);
    }
}

/// A cruise-state packet holds the key as the little-endian number at
/// offset 0 and the value as the two's-complement number at offset 4.
pub proof fn lemma_cruise_state_layout(s: Seq<u8>)
    ensures
        spec_cruise_state(s) is Some <==> s.len() >= 8,
        spec_cruise_state(s) matches Some(c) ==> {
            &&& c.key == le_bytes4(s, 0)
            &&& c.value == (if le_bytes4(s, 4) >= 0x8000_0000 {
                le_bytes4(s, 4) - 0x1_0000_0000
            } else {
                le_bytes4(s, 4)
            })
        },
{
    if s.len() >= 8 {
        lemma_u32_at_bytes(s, 0);
        lemma_u32_at_bytes(s, 4);
        reveal_with_fuel(le_uint, 5);
    }
}

/// The packet kind that a decoded packet is of: base player creation 0x0,
/// cell player creation 0x1, entity enter 0x3, entity leave 0x4, entity
/// creation 0x5, entity property 0x7, entity method 0x8, position 0xA,
/// version 0x16, battle results 0x22, nested property update 0x23, camera
/// 0x25, camera mode 0x27, map 0x28, player orientation 0x2c, free-look
/// camera 0x2f and cruise state 0x32.
pub open spec fn payload_kind(p: PacketType) -> Option<u32> {
    match p {
        PacketType::BasePlayerCreate(_) => Some(0x0u32),
        PacketType::CellPlayerCreate(_) => Some(0x1u32),
        PacketType::EntityEnter(_) => Some(0x3u32),
        PacketType::EntityLeave(_) => Some(0x4u32),
        PacketType::EntityCreate(_) => Some(0x5u32),
        PacketType::EntityProperty(_) => Some(0x7u32),
        PacketType::EntityMethod(_) => Some(0x8u32),
        PacketType::Position(_) => Some(0xAu32),
        PacketType::Version(_) => Some(0x16u32),
        PacketType::BattleResults(_) => Some(0x22u32),
        PacketType::PropertyUpdate(_) => Some(0x23u32),
        PacketType::Camera(_) => Some(0x25u32),
        PacketType::CameraMode(_) => Some(0x27u32),
        PacketType::MapInfo(_) => Some(0x28u32),
        PacketType::PlayerOrientation(_) => Some(0x2cu32),
        PacketType::CameraFreeLook(_) => Some(0x2fu32),
        PacketType::CruiseState(_) => Some(0x32u32),
        PacketType::Unknown(_) => None,
        PacketType::Invalid(_) => None,
    }
}

/// A packet decodes as the kind its header names; a packet of a kind that
/// no decoder knows is kept as its bytes.
pub proof fn lemma_decoded_kind(
    specs: Seq<EntitySpec>,
    e0: Map<u32, Entity>,
    e1: Map<u32, Entity>,
    ty: u32,
    s: Seq<u8>,
    p: PacketType,
)
    requires
        naked_decoded(specs, e0, e1, ty, s, p),
    ensures
        payload_kind(p) is Some ==> payload_kind(p) == Some(ty),
        payload_kind(p) is None ==> (p matches PacketType::Unknown(b) && b@ == s),
        (exists|q: PacketType| payload_kind(q) == Some(ty)) ==> payload_kind(p) == Some(ty),
{
    if exists|q: PacketType| payload_kind(q) == Some(ty) {
        let q = choose|q: PacketType| payload_kind(q) == Some(ty);
        assert(payload_kind(q) == Some(ty));
    }
}

} // verus!
