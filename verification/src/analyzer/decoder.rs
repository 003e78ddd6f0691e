//! Turns the method calls of the packet stream into the game events they
//! stand for: chat, voice lines, ribbons, deaths, damage and the like.
use vstd::prelude::*;

use crate::error::ErrorKind;
use crate::packet2::{
    utf8_string, BasePlayerCreatePacket, CameraPacket, CellPlayerCreatePacket, CruiseState, EntityCreatePacket,
    EntityEnterPacket, EntityLeavePacket, EntityMethodPacket, EntityPropertyPacket, InvalidPacket, MapPacket,
    Packet, PacketType, PlayerOrientationPacket, PositionPacket, PropertyUpdatePacket,
};
use crate::rpc::typedefs::{dict_get, dict_lookup, dict_view, val_view, vals_view, ArgVal, ArgValue};
use crate::text::str_eq;
use crate::version::{spec_is_at_least, Version};
use serde_pickle::value::{HashableValue, Value};

verus! {

/// A value of Python's pickle format, as the game stores some method
/// arguments. Floats are held as their IEEE-754 bit patterns and integers
/// too long for an `i64` as their decimal digits.
#[derive(Debug)]
pub enum PickleValue {
    /// Python's `None`.
    Null,
    Bool(bool),
    I64(i64),
    Int(String),
    F64(u64),
    Bytes(Vec<u8>),
    String(String),
    List(Vec<PickleValue>),
    Tuple(Vec<PickleValue>),
    MutableSet(Vec<PickleValue>),
    FrozenSet(Vec<PickleValue>),
    /// Entries in key order.
    Dict(Vec<(PickleValue, PickleValue)>),
}

/// A value of the `serde-pickle` crate, carried opaquely.
#[verifier::external_type_specification]
#[verifier::external_body]
pub struct ExPickleValue(serde_pickle::value::Value);

/// A hashable value of the `serde-pickle` crate (a dictionary key or set
/// member), carried opaquely.
#[verifier::external_type_specification]
#[verifier::external_body]
pub struct ExHashableValue(serde_pickle::value::HashableValue);

/// The library's form of a `serde-pickle` value, variant for variant.
/// Trusted: a conversion only, with nothing claimed of the result.
#[verifier::external_body]
fn pickle_of(v: Value) -> PickleValue {
    match v {
        Value::None => PickleValue::Null,
        Value::Bool(b) => PickleValue::Bool(b),
        Value::I64(i) => PickleValue::I64(i),
        Value::Int(i) => PickleValue::Int(i.to_string()),
        Value::F64(f) => PickleValue::F64(f.to_bits()),
        Value::Bytes(b) => PickleValue::Bytes(b),
        Value::String(s) => PickleValue::String(s),
        Value::List(l) => PickleValue::List(pickles_of(l)),
        Value::Tuple(l) => PickleValue::Tuple(pickles_of(l)),
        Value::Set(s) => PickleValue::MutableSet(hashable_set_of(s)),
        Value::FrozenSet(s) => PickleValue::FrozenSet(hashable_set_of(s)),
        Value::Dict(d) => PickleValue::Dict(entries_of(d)),
    }
}

/// The library's form of each of a list of `serde-pickle` values, in
/// order. Trusted: a conversion only.
#[verifier::external_body]
fn pickles_of(l: Vec<Value>) -> Vec<PickleValue> {
    l.into_iter().map(pickle_of).collect()
}

/// The library's form of each member of a `serde-pickle` set, in the set's
/// order. Trusted: a conversion only.
#[verifier::external_body]
fn hashable_set_of(s: std::collections::BTreeSet<HashableValue>) -> Vec<PickleValue> {
    s.into_iter().map(hashable_pickle_of).collect()
}

/// The library's form of each entry of a `serde-pickle` dictionary, in key
/// order. Trusted: a conversion only.
#[verifier::external_body]
fn entries_of(d: std::collections::BTreeMap<HashableValue, Value>) -> Vec<(PickleValue, PickleValue)> {
    d.into_iter().map(|(k, x)| (hashable_pickle_of(k), pickle_of(x))).collect()
}

/// The library's form of a hashable `serde-pickle` value, variant for
/// variant. Trusted: a conversion only, with nothing claimed of the result.
#[verifier::external_body]
fn hashable_pickle_of(v: HashableValue) -> PickleValue {
    match v {
        HashableValue::None => PickleValue::Null,
        HashableValue::Bool(b) => PickleValue::Bool(b),
        HashableValue::I64(i) => PickleValue::I64(i),
        HashableValue::Int(i) => PickleValue::Int(i.to_string()),
        HashableValue::F64(f) => PickleValue::F64(f.to_bits()),
        HashableValue::Bytes(b) => PickleValue::Bytes(b),
        HashableValue::String(s) => PickleValue::String(s),
        HashableValue::Tuple(t) => PickleValue::Tuple(t.into_iter().map(hashable_pickle_of).collect()),
        HashableValue::FrozenSet(s) => PickleValue::FrozenSet(hashable_set_of(s)),
    }
}

/// What `serde_pickle::de::value_from_slice` with default options gives for
/// the bytes `data`, in the library's form; `None` where it fails.
pub uninterp spec fn unpickled(data: Seq<u8>) -> Option<PickleValue>;

/// Unpickles `data` with `serde_pickle::de::value_from_slice` and default
/// options. Trusted: the result is the one [`unpickled`] names for `data`.
#[verifier::external_body]
fn unpickle(data: &[u8]) -> (r: Option<PickleValue>)
    ensures
        r == unpickled(data@),
{
    match serde_pickle::de::value_from_slice(data, serde_pickle::de::DeOptions::new()) {
        Ok(v) => Some(pickle_of(v)),
        Err(_) => None,
    }
}

/// For each argument of a method call, its unpickled value where it is a
/// blob (`None` where it does not unpickle), and `None` for the others.
pub open spec fn unpickled_args(args: Seq<ArgValue>) -> Seq<Option<PickleValue>> {
    Seq::new(
        args.len(),
        |i: int|
            match args[i] {
                ArgValue::Blob(b) => unpickled(b@),
                _ => None,
            },
    )
}

/// The unpickled arguments of a packet: those of a method call as
/// [`unpickled_args`] says, none for any other packet.
pub open spec fn packet_pickles(p: Packet) -> Seq<Option<PickleValue>> {
    match p.payload {
        PacketType::EntityMethod(em) => unpickled_args(em.args@),
        _ => Seq::empty(),
    }
}

/// The unpickled arguments of `packet`, as [`packet_pickles`] says.
pub fn unpickle_args(packet: &Packet) -> (r: Vec<Option<PickleValue>>)
    ensures
        r@ == packet_pickles(*packet),
{
    match &packet.payload {
        PacketType::EntityMethod(em) => {
            let mut out: Vec<Option<PickleValue>> = Vec::new();
            let mut k: usize = 0;
            while k < em.args.len()
                invariant
                    k <= em.args@.len(),
                    out@ == unpickled_args(em.args@).subrange(0, k as int),
                decreases em.args@.len() - k,
            {
                let v = match &em.args[k] {
                    ArgValue::Blob(b) => unpickle(b.as_slice()),
                    _ => None,
                };
                out.push(v);
                k += 1;
                proof {
                    assert(out@ =~= unpickled_args(em.args@).subrange(0, k as int));
                }
            }
            proof {
                assert(unpickled_args(em.args@).subrange(0, k as int) =~= unpickled_args(em.args@));
            }
            out
        },
        _ => {
            proof {
                assert(Seq::<Option<PickleValue>>::empty() =~= packet_pickles(*packet));
            }
            Vec::new()
        },
    }
}

/// A voice line a player can send.
#[derive(Debug, Clone, Copy, PartialEq, Eq)]
pub enum VoiceLine {
    IntelRequired,
    FairWinds,
    Wilco,
    Negative,
    WellDone,
    Curses,
    UsingRadar,
    UsingHydroSearch,
    DefendTheBase,
    SetSmokeScreen,
    ProvideAntiAircraft,
    RequestingSupport(Option<u32>),
    Retreat(Option<i32>),
    /// (letter, number), counting from zero: F2 is (5, 1).
    AttentionToSquare((u32, u32)),
    /// The id of the target.
    ConcentrateFire(i32),
}

/// A ribbon shown to the player.
#[derive(Debug, Clone, Copy, PartialEq, Eq, Structural)]
pub enum Ribbon {
    PlaneShotDown,
    Incapacitation,
    SetFire,
    Citadel,
    SecondaryHit,
    OverPenetration,
    Penetration,
    NonPenetration,
    Ricochet,
    TorpedoProtectionHit,
    Captured,
    AssistedInCapture,
    Spotted,
    Destroyed,
    TorpedoHit,
    Defended,
    Flooding,
    DiveBombPenetration,
    RocketPenetration,
    RocketNonPenetration,
    RocketTorpedoProtectionHit,
    ShotDownByAircraft,
    Unknown(i8),
}

/// What destroyed a ship.
#[derive(Debug, Clone, Copy, PartialEq, Eq, Structural)]
pub enum DeathCause {
    Secondaries,
    Artillery,
    Fire,
    Flooding,
    Torpedo,
    DiveBomber,
    AerialRocket,
    AerialTorpedo,
    Detonation,
    Ramming,
    Unknown(u32),
}

/// The ribbon with game code `r`.
pub open spec fn spec_ribbon(r: i8) -> Ribbon {
    if r == 1 {
        Ribbon::TorpedoHit
    } else if r == 3 {
        Ribbon::PlaneShotDown
    } else if r == 4 {
        Ribbon::Incapacitation
    } else if r == 5 {
        Ribbon::Destroyed
    } else if r == 6 {
        Ribbon::SetFire
    } else if r == 7 {
        Ribbon::Flooding
    } else if r == 8 {
        Ribbon::Citadel
    } else if r == 9 {
        Ribbon::Defended
    } else if r == 10 {
        Ribbon::Captured
    } else if r == 11 {
        Ribbon::AssistedInCapture
    } else if r == 13 {
        Ribbon::SecondaryHit
    } else if r == 14 {
        Ribbon::OverPenetration
    } else if r == 15 {
        Ribbon::Penetration
    } else if r == 16 {
        Ribbon::NonPenetration
    } else if r == 17 {
        Ribbon::Ricochet
    } else if r == 19 {
        Ribbon::Spotted
    } else if r == 21 {
        Ribbon::DiveBombPenetration
    } else if r == 25 {
        Ribbon::RocketPenetration
    } else if r == 26 {
        Ribbon::RocketNonPenetration
    } else if r == 27 {
        Ribbon::ShotDownByAircraft
    } else if r == 28 {
        Ribbon::TorpedoProtectionHit
    } else if r == 30 {
        Ribbon::RocketTorpedoProtectionHit
    } else {
        Ribbon::Unknown(r)
    }
}

impl Ribbon {
    /// The ribbon with game code `r`, as [`spec_ribbon`] says.
    pub fn from_code(r: i8) -> (res: Ribbon)
        ensures
            res == spec_ribbon(r),
    {
        match r {
            1 => Ribbon::TorpedoHit,
            3 => Ribbon::PlaneShotDown,
            4 => Ribbon::Incapacitation,
            5 => Ribbon::Destroyed,
            6 => Ribbon::SetFire,
            7 => Ribbon::Flooding,
            8 => Ribbon::Citadel,
            9 => Ribbon::Defended,
            10 => Ribbon::Captured,
            11 => Ribbon::AssistedInCapture,
            13 => Ribbon::SecondaryHit,
            14 => Ribbon::OverPenetration,
            15 => Ribbon::Penetration,
            16 => Ribbon::NonPenetration,
            17 => Ribbon::Ricochet,
            19 => Ribbon::Spotted,
            21 => Ribbon::DiveBombPenetration,
            25 => Ribbon::RocketPenetration,
            26 => Ribbon::RocketNonPenetration,
            27 => Ribbon::ShotDownByAircraft,
            28 => Ribbon::TorpedoProtectionHit,
            30 => Ribbon::RocketTorpedoProtectionHit,
            _ => Ribbon::Unknown(r),
        }
    }
}

/// The cause of death with game code `c`.
pub open spec fn spec_death_cause(c: u32) -> DeathCause {
    if c == 2 {
        DeathCause::Secondaries
    } else if c == 3 {
        DeathCause::Torpedo
    } else if c == 4 {
        DeathCause::DiveBomber
    } else if c == 5 {
        DeathCause::AerialTorpedo
    } else if c == 6 {
        DeathCause::Fire
    } else if c == 7 {
        DeathCause::Ramming
    } else if c == 9 {
        DeathCause::Flooding
    } else if c == 14 {
        DeathCause::AerialRocket
    } else if c == 15 {
        DeathCause::Detonation
    } else if c == 17 || c == 18 || c == 19 {
        DeathCause::Artillery
    } else {
        DeathCause::Unknown(c)
    }
}

/// The game codes that denote each known cause of death.
pub open spec fn death_cause_codes(k: DeathCause) -> Set<u32> {
    match k {
        DeathCause::Secondaries => set![2u32],
        DeathCause::Torpedo => set![3u32],
        DeathCause::DiveBomber => set![4u32],
        DeathCause::AerialTorpedo => set![5u32],
        DeathCause::Fire => set![6u32],
        DeathCause::Ramming => set![7u32],
        DeathCause::Flooding => set![9u32],
        DeathCause::AerialRocket => set![14u32],
        DeathCause::Detonation => set![15u32],
        DeathCause::Artillery => set![17u32, 18u32, 19u32],
        DeathCause::Unknown(_) => Set::empty(),
    }
}

/// A game code decodes to the known cause it denotes, and a code that
/// denotes no known cause is kept as it came.
pub proof fn lemma_death_cause_codes(c: u32, k: DeathCause)
    ensures
        death_cause_codes(k).contains(c) ==> spec_death_cause(c) == k,
        spec_death_cause(c) is Unknown ==> spec_death_cause(c) == DeathCause::Unknown(c),
        !(spec_death_cause(c) is Unknown) ==> death_cause_codes(spec_death_cause(c)).contains(c),
{
}

impl DeathCause {
    /// The cause of death with game code `c`, as [`spec_death_cause`] says.
    pub fn from_code(c: u32) -> (res: DeathCause)
        ensures
            res == spec_death_cause(c),
    {
        match c {
            2 => DeathCause::Secondaries,
            3 => DeathCause::Torpedo,
            4 => DeathCause::DiveBomber,
            5 => DeathCause::AerialTorpedo,
            6 => DeathCause::Fire,
            7 => DeathCause::Ramming,
            9 => DeathCause::Flooding,
            14 => DeathCause::AerialRocket,
            15 => DeathCause::Detonation,
            17 | 18 | 19 => DeathCause::Artillery,
            _ => DeathCause::Unknown(c),
        }
    }
}

/// The voice line with game code `line` and parameters `a` and `b`; `None`
/// for a code the game is not known to send.
pub open spec fn spec_voice_line(line: u8, a: u32, b: u64) -> Option<VoiceLine> {
    if line == 1 {
        Some(VoiceLine::AttentionToSquare((a, b as u32)))
    } else if line == 2 {
        Some(VoiceLine::ConcentrateFire(b as i32))
    } else if line == 3 {
        Some(VoiceLine::RequestingSupport(None))
    } else if line == 5 {
        Some(VoiceLine::Wilco)
    } else if line == 6 {
        Some(VoiceLine::Negative)
    } else if line == 7 {
        Some(VoiceLine::WellDone)
    } else if line == 8 {
        Some(VoiceLine::FairWinds)
    } else if line == 9 {
        Some(VoiceLine::Curses)
    } else if line == 10 {
        Some(VoiceLine::DefendTheBase)
    } else if line == 11 {
        Some(VoiceLine::ProvideAntiAircraft)
    } else if line == 12 {
        Some(VoiceLine::Retreat(if b != 0 { Some(b as i32) } else { None }))
    } else if line == 13 {
        Some(VoiceLine::IntelRequired)
    } else if line == 14 {
        Some(VoiceLine::SetSmokeScreen)
    } else if line == 15 {
        Some(VoiceLine::UsingRadar)
    } else if line == 16 {
        Some(VoiceLine::UsingHydroSearch)
    } else {
        None
    }
}

/// The game code of each voice line.
pub open spec fn voice_line_code(v: VoiceLine) -> u8 {
    match v {
        VoiceLine::AttentionToSquare(_) => 1,
        VoiceLine::ConcentrateFire(_) => 2,
        VoiceLine::RequestingSupport(_) => 3,
        VoiceLine::Wilco => 5,
        VoiceLine::Negative => 6,
        VoiceLine::WellDone => 7,
        VoiceLine::FairWinds => 8,
        VoiceLine::Curses => 9,
        VoiceLine::DefendTheBase => 10,
        VoiceLine::ProvideAntiAircraft => 11,
        VoiceLine::Retreat(_) => 12,
        VoiceLine::IntelRequired => 13,
        VoiceLine::SetSmokeScreen => 14,
        VoiceLine::UsingRadar => 15,
        VoiceLine::UsingHydroSearch => 16,
    }
}

/// A voice-line code decodes to the voice line of that code; every code
/// but 0, 4 and those above 16 names one. The square of an attention call
/// is the first argument and the low bits of the second; a call to
/// concentrate fire names the target in the low bits of the second; a
/// retreat names it likewise where it is not zero.
pub proof fn lemma_voice_line_codes(line: u8, a: u32, b: u64)
    ensures
        spec_voice_line(line, a, b) matches Some(v) ==> voice_line_code(v) == line,
        spec_voice_line(line, a, b) is Some <==> (1 <= line <= 16 && line != 4),
        spec_voice_line(line, a, b) matches Some(VoiceLine::AttentionToSquare(sq)) ==> sq == (a, b as u32),
        spec_voice_line(line, a, b) matches Some(VoiceLine::ConcentrateFire(t)) ==> t == b as i32,
        spec_voice_line(line, a, b) matches Some(VoiceLine::Retreat(t)) ==> t == (if b != 0 {
            Some(b as i32)
        } else {
            None
        }),
        spec_voice_line(line, a, b) matches Some(VoiceLine::RequestingSupport(t)) ==> t is None,
{
}

impl VoiceLine {
    /// The voice line with game code `line`, as [`spec_voice_line`] says.
    pub fn from_code(line: u8, a: u32, b: u64) -> (r: Option<VoiceLine>)
        ensures
            r == spec_voice_line(line, a, b),
    {
        match line {
            1 => Some(VoiceLine::AttentionToSquare((a, #[verifier::truncate] (b as u32)))),
            2 => Some(VoiceLine::ConcentrateFire(#[verifier::truncate] (b as i32))),
            3 => Some(VoiceLine::RequestingSupport(None)),
            5 => Some(VoiceLine::Wilco),
            6 => Some(VoiceLine::Negative),
            7 => Some(VoiceLine::WellDone),
            8 => Some(VoiceLine::FairWinds),
            9 => Some(VoiceLine::Curses),
            10 => Some(VoiceLine::DefendTheBase),
            11 => Some(VoiceLine::ProvideAntiAircraft),
            12 => Some(
                VoiceLine::Retreat(
                    if b != 0 {
                        Some(#[verifier::truncate] (b as i32))
                    } else {
                        None
                    },
                ),
            ),
            13 => Some(VoiceLine::IntelRequired),
            14 => Some(VoiceLine::SetSmokeScreen),
            15 => Some(VoiceLine::UsingRadar),
            16 => Some(VoiceLine::UsingHydroSearch),
            _ => None,
        }
    }
}


/// The second number of a damage statistic: a float (as its bit pattern)
/// or an integer, as the pickle holds it.
#[derive(Debug, Clone, Copy, PartialEq, Eq, Structural)]
pub enum StatValue {
    Float(u64),
    Int(i64),
}

/// One damage statistic, from a pickled dictionary entry whose key is a
/// pair of integers and whose value is a list of an integer and a number.
pub open spec fn stat_entry(k: PickleValue, v: PickleValue) -> Option<((i64, i64), (i64, StatValue))> {
    match (k, v) {
        (PickleValue::Tuple(t), PickleValue::List(l)) => if t@.len() == 2 && l@.len() == 2 {
            match (t@[0], t@[1], l@[0], l@[1]) {
                (PickleValue::I64(a), PickleValue::I64(b), PickleValue::I64(c), PickleValue::F64(f)) => Some(
                    ((a, b), (c, StatValue::Float(f))),
                ),
                (PickleValue::I64(a), PickleValue::I64(b), PickleValue::I64(c), PickleValue::I64(i)) => Some(
                    ((a, b), (c, StatValue::Int(i))),
                ),
                _ => None,
            }
        } else {
            None
        },
        _ => None,
    }
}

/// The damage statistics a pickled dictionary holds, entry by entry.
pub open spec fn spec_damage_stat(v: PickleValue) -> Option<Seq<((i64, i64), (i64, StatValue))>> {
    match v {
        PickleValue::Dict(d) => if forall|i: int| 0 <= i < d@.len() ==> #[trigger] stat_entry(d@[i].0, d@[i].1) is Some {
            Some(Seq::new(d@.len(), |i: int| stat_entry(d@[i].0, d@[i].1)->0))
        } else {
            None
        },
        _ => None,
    }
}

fn stat_of(k: &PickleValue, v: &PickleValue) -> (r: Option<((i64, i64), (i64, StatValue))>)
    ensures
        r == stat_entry(*k, *v),
{
    match (k, v) {
        (PickleValue::Tuple(t), PickleValue::List(l)) => {
            if t.len() != 2 || l.len() != 2 {
                return None;
            }
            match (&t[0], &t[1], &l[0], &l[1]) {
                (PickleValue::I64(a), PickleValue::I64(b), PickleValue::I64(c), PickleValue::F64(f)) => Some(
                    ((*a, *b), (*c, StatValue::Float(*f))),
                ),
                (PickleValue::I64(a), PickleValue::I64(b), PickleValue::I64(c), PickleValue::I64(i)) => Some(
                    ((*a, *b), (*c, StatValue::Int(*i))),
                ),
                _ => None,
            }
        },
        _ => None,
    }
}

/// The damage statistics of a pickled dictionary, as [`spec_damage_stat`]
/// says.
pub fn damage_stat(v: &PickleValue) -> (r: Option<Vec<((i64, i64), (i64, StatValue))>>)
    ensures
        match r {
            Some(st) => spec_damage_stat(*v) == Some(st@),
            None => spec_damage_stat(*v) is None,
        },
{
    match v {
        PickleValue::Dict(d) => {
            let mut out: Vec<((i64, i64), (i64, StatValue))> = Vec::new();
            let mut k: usize = 0;
            while k < d.len()
                invariant
                    *v == PickleValue::Dict(*d),
                    k <= d@.len(),
                    forall|i: int| 0 <= i < k ==> #[trigger] stat_entry(d@[i].0, d@[i].1) is Some,
                    out@ =~= Seq::new(k as nat, |i: int| stat_entry(d@[i].0, d@[i].1)->0),
                decreases d@.len() - k,
            {
                match stat_of(&d[k].0, &d[k].1) {
                    Some(e) => out.push(e),
                    None => return None,
                }
                k = k + 1;
            }
            Some(out)
        },
        _ => None,
    }
}

/// A dictionary of one team member's data in the arena state: its keys
/// (byte strings, which must be UTF-8) and values, or `None` for an empty
/// slot.
pub open spec fn arena_slot(e: PickleValue) -> Option<Option<Seq<(Seq<char>, PickleValue)>>> {
    match e {
        PickleValue::Null => Some(None),
        PickleValue::Dict(d) => if forall|i: int|
            0 <= i < d@.len() ==> (#[trigger] d@[i].0 is Bytes && vstd::utf8::valid_utf8(d@[i].0->Bytes_0@)) {
            Some(
                Some(
                    Seq::new(d@.len(), |i: int| (vstd::utf8::decode_utf8(d@[i].0->Bytes_0@), d@[i].1)),
                ),
            )
        } else {
            None
        },
        _ => None,
    }
}

/// One entry of the arena state's team dictionary: an integer key and a
/// list of slots.
pub open spec fn arena_entry(k: PickleValue, v: PickleValue) -> Option<
    (i64, Seq<Option<Seq<(Seq<char>, PickleValue)>>>),
> {
    match (k, v) {
        (PickleValue::I64(key), PickleValue::List(l)) => if forall|i: int|
            0 <= i < l@.len() ==> #[trigger] arena_slot(l@[i]) is Some {
            Some((key, Seq::new(l@.len(), |i: int| arena_slot(l@[i])->0)))
        } else {
            None
        },
        _ => None,
    }
}

/// The team dictionary of the arena state, entry by entry.
pub open spec fn spec_arena_teams(v: PickleValue) -> Option<Seq<(i64, Seq<Option<Seq<(Seq<char>, PickleValue)>>>)>> {
    match v {
        PickleValue::Dict(d) => if forall|i: int| 0 <= i < d@.len() ==> #[trigger] arena_entry(d@[i].0, d@[i].1) is Some {
            Some(Seq::new(d@.len(), |i: int| arena_entry(d@[i].0, d@[i].1)->0))
        } else {
            None
        },
        _ => None,
    }
}



/// The keys and values of a slot, the values borrowed.
pub open spec fn slot_view(v: Seq<(String, &PickleValue)>) -> Seq<(Seq<char>, PickleValue)> {
    Seq::new(v.len(), |i: int| (v[i].0@, *v[i].1))
}

fn arena_slot_of<'a>(e: &'a PickleValue) -> (r: Option<Option<Vec<(String, &'a PickleValue)>>>)
    ensures
        match r {
            Some(Some(v)) => arena_slot(*e) == Some(Some(slot_view(v@))),
            Some(None) => arena_slot(*e) == Some(None::<Seq<(Seq<char>, PickleValue)>>),
            None => arena_slot(*e) is None,
        },
{
    match e {
        PickleValue::Null => Some(None),
        PickleValue::Dict(d) => {
            let mut out: Vec<(String, &'a PickleValue)> = Vec::new();
            let mut k: usize = 0;
            while k < d.len()
                invariant
                    *e == PickleValue::Dict(*d),
                    k <= d@.len(),
                    forall|i: int|
                        0 <= i < k ==> (#[trigger] d@[i].0 is Bytes && vstd::utf8::valid_utf8(d@[i].0->Bytes_0@)),
                    slot_view(out@) =~= Seq::new(
                        k as nat,
                        |i: int| (vstd::utf8::decode_utf8(d@[i].0->Bytes_0@), d@[i].1),
                    ),
                decreases d@.len() - k,
            {
                let key = match &d[k].0 {
                    PickleValue::Bytes(b) => match utf8_string(b.as_slice()) {
                        Some(s) => s,
                        None => return None,
                    },
                    _ => return None,
                };
                proof {
                    assert(slot_view(out@.push((key, &d@[k as int].1))) =~= slot_view(out@).push(
                        (key@, d@[k as int].1),
                    ));
                }
                out.push((key, &d[k].1));
                k = k + 1;
            }
            Some(Some(out))
        },
        _ => None,
    }
}

/// The team dictionary of the arena state, as [`spec_arena_teams`] says.
pub fn arena_teams<'a>(v: &'a PickleValue) -> (r: Option<Vec<(i64, Vec<Option<Vec<(String, &'a PickleValue)>>>)>>)
    ensures
        match r {
            Some(t) => spec_arena_teams(*v) == Some(teams_view(t@)),
            None => spec_arena_teams(*v) is None,
        },
{
    match v {
        PickleValue::Dict(d) => {
            let mut out: Vec<(i64, Vec<Option<Vec<(String, &'a PickleValue)>>>)> = Vec::new();
            let mut k: usize = 0;
            while k < d.len()
                invariant
                    *v == PickleValue::Dict(*d),
                    k <= d@.len(),
                    forall|i: int| 0 <= i < k ==> #[trigger] arena_entry(d@[i].0, d@[i].1) is Some,
                    teams_view(out@) =~= Seq::new(k as nat, |i: int| arena_entry(d@[i].0, d@[i].1)->0),
                decreases d@.len() - k,
            {
                let key = match &d[k].0 {
                    PickleValue::I64(x) => *x,
                    _ => return None,
                };
                let l = match &d[k].1 {
                    PickleValue::List(l) => l,
                    _ => {
                        proof {
                            assert(arena_entry(d@[k as int].0, d@[k as int].1) is None);
                        }
                        return None;
                    },
                };
                let mut slots: Vec<Option<Vec<(String, &'a PickleValue)>>> = Vec::new();
                let mut j: usize = 0;
                while j < l.len()
                    invariant
                        *v == PickleValue::Dict(*d),
                        k < d@.len(),
                        d@[k as int].0 == PickleValue::I64(key),
                        d@[k as int].1 == PickleValue::List(*l),
                        j <= l@.len(),
                        forall|i: int| 0 <= i < j ==> #[trigger] arena_slot(l@[i]) is Some,
                        slots_view(slots@) =~= Seq::new(j as nat, |i: int| arena_slot(l@[i])->0),
                    decreases l@.len() - j,
                {
                    match arena_slot_of(&l[j]) {
                        Some(x) => {
                            proof {
                                assert(slots_view(slots@.push(x)) =~= slots_view(slots@).push(slot_opt_view(x)));
                            }
                            slots.push(x);
                        },
                        None => {
                            proof {
                                assert(arena_entry(d@[k as int].0, d@[k as int].1) is None);
                            }
                            return None;
                        },
                    }
                    j = j + 1;
                }
                proof {
                    assert(teams_view(out@.push((key, slots))) =~= teams_view(out@).push((key, slots_view(slots@))));
                }
                out.push((key, slots));
                k = k + 1;
            }
            Some(out)
        },
        _ => None,
    }
}

pub open spec fn slot_opt_view(x: Option<Vec<(String, &PickleValue)>>) -> Option<Seq<(Seq<char>, PickleValue)>> {
    match x {
        Some(v) => Some(slot_view(v@)),
        None => None,
    }
}

pub open spec fn slots_view(s: Seq<Option<Vec<(String, &PickleValue)>>>) -> Seq<Option<Seq<(Seq<char>, PickleValue)>>> {
    Seq::new(s.len(), |i: int| slot_opt_view(s[i]))
}

pub open spec fn teams_view(t: Seq<(i64, Vec<Option<Vec<(String, &PickleValue)>>>)>) -> Seq<
    (i64, Seq<Option<Seq<(Seq<char>, PickleValue)>>>),
> {
    Seq::new(t.len(), |i: int| (t[i].0, slots_view(t[i].1@)))
}



/// The (key, value) pairs of a player's pickled data: each element that is
/// a tuple gives one, from its first item (an integer) and its second; other
/// elements are skipped.
pub open spec fn player_entries(els: Seq<PickleValue>) -> Option<Seq<(i64, PickleValue)>>
    decreases els.len(),
{
    if els.len() == 0 {
        Some(Seq::empty())
    } else {
        match player_entries(els.drop_last()) {
            None => None,
            Some(es) => match els.last() {
                PickleValue::Tuple(kv) => if kv@.len() >= 2 && kv@[0] is I64 {
                    Some(es.push((kv@[0]->I64_0, kv@[1])))
                } else {
                    None
                },
                _ => Some(es),
            },
        }
    }
}

/// The value stored under key `k` (the last pair with that key wins).
pub open spec fn pickle_lookup(es: Seq<(i64, PickleValue)>, k: i64) -> Option<PickleValue>
    decreases es.len(),
{
    if es.len() == 0 {
        None
    } else if es.last().0 == k {
        Some(es.last().1)
    } else {
        pickle_lookup(es.drop_last(), k)
    }
}

/// The keys of a player's data: those of 0.10.7 and later, or those of
/// earlier versions. In order: avatar id, clan, health, user name, ship id,
/// player id, player avatar id, team.
pub open spec fn player_keys(newer: bool) -> Seq<i64> {
    if newer {
        seq![0x1, 0x5, 0x16, 0x17, 0x1e, 0x1f, 0x20, 0x21]
    } else {
        seq![0x1, 0x5, 0x15, 0x16, 0x1d, 0x1e, 0x1f, 0x20]
    }
}

/// The integer stored under key `k`, if there is one.
pub open spec fn lookup_i64(es: Seq<(i64, PickleValue)>, k: i64) -> Option<i64> {
    match pickle_lookup(es, k) {
        Some(PickleValue::I64(i)) => Some(i),
        _ => None,
    }
}

/// Whether a player's data holds every field, of the right kind: integers
/// but for the clan (a string) and the user name (UTF-8 bytes).
pub open spec fn player_ok(es: Seq<(i64, PickleValue)>, newer: bool) -> bool {
    let k = player_keys(newer);
    &&& lookup_i64(es, k[0]) is Some
    &&& pickle_lookup(es, k[1]) matches Some(PickleValue::String(_))
    &&& lookup_i64(es, k[2]) is Some
    &&& pickle_lookup(es, k[3]) matches Some(PickleValue::Bytes(u)) && vstd::utf8::valid_utf8(u@)
    &&& lookup_i64(es, k[4]) is Some
    &&& lookup_i64(es, k[5]) is Some
    &&& pickle_lookup(es, k[6]) is Some
    &&& lookup_i64(es, k[7]) is Some
}

/// A player of the arena state.
#[derive(Debug)]
pub struct OnArenaStateReceivedPlayer<'a> {
    pub username: String,
    pub clan: String,
    pub avatarid: i64,
    pub shipid: i64,
    pub playerid: i64,
    pub teamid: i64,
    pub health: i64,
    /// Every (key, value) pair of the player's data.
    pub raw: Vec<(i64, &'a PickleValue)>,
}

pub open spec fn raw_view(r: Seq<(i64, &PickleValue)>) -> Seq<(i64, PickleValue)> {
    Seq::new(r.len(), |i: int| (r[i].0, *r[i].1))
}

/// Whether `p` is the player that the pickled data `v` describes.
pub open spec fn player_matches(v: PickleValue, newer: bool, p: OnArenaStateReceivedPlayer) -> bool {
    &&& v matches PickleValue::List(els)
    &&& player_entries(els@) matches Some(es)
    &&& player_ok(es, newer)
    &&& raw_view(p.raw@) == es
    &&& p.avatarid == lookup_i64(es, player_keys(newer)[0])->0
    &&& pickle_lookup(es, player_keys(newer)[1]) == Some(PickleValue::String(p.clan))
    &&& p.health == lookup_i64(es, player_keys(newer)[2])->0
    &&& p.username@ == vstd::utf8::decode_utf8(pickle_lookup(es, player_keys(newer)[3])->0->Bytes_0@)
    &&& p.shipid == lookup_i64(es, player_keys(newer)[4])->0
    &&& p.playerid == lookup_i64(es, player_keys(newer)[5])->0
    &&& p.teamid == lookup_i64(es, player_keys(newer)[7])->0
}

/// Whether the pickled data `v` describes a player.
pub open spec fn player_valid(v: PickleValue, newer: bool) -> bool {
    &&& v matches PickleValue::List(els)
    &&& player_entries(els@) matches Some(es)
    &&& player_ok(es, newer)
}

fn lookup_entry<'a>(es: &Vec<(i64, &'a PickleValue)>, k: i64) -> (r: Option<&'a PickleValue>)
    ensures
        match r {
            Some(v) => pickle_lookup(raw_view(es@), k) == Some(*v),
            None => pickle_lookup(raw_view(es@), k) is None,
        },
{
    let ghost rv = raw_view(es@);
    let mut j: usize = es.len();
    proof {
        assert(rv.subrange(0, j as int) =~= rv);
    }
    while j > 0
        invariant
            j <= es@.len(),
            rv == raw_view(es@),
            pickle_lookup(rv, k) == pickle_lookup(rv.subrange(0, j as int), k),
        decreases j,
    {
        let ghost sub = rv.subrange(0, j as int);
        proof {
            assert(sub.drop_last() =~= rv.subrange(0, j - 1));
        }
        if es[j - 1].0 == k {
            return Some(es[j - 1].1);
        }
        j = j - 1;
    }
    None
}

fn lookup_int(es: &Vec<(i64, &PickleValue)>, k: i64) -> (r: Option<i64>)
    ensures
        r == lookup_i64(raw_view(es@), k),
{
    match lookup_entry(es, k) {
        Some(PickleValue::I64(i)) => Some(*i),
        _ => None,
    }
}

fn player_entries_of<'a>(els: &'a Vec<PickleValue>) -> (r: Option<Vec<(i64, &'a PickleValue)>>)
    ensures
        match r {
            Some(es) => player_entries(els@) == Some(raw_view(es@)),
            None => player_entries(els@) is None,
        },
{
    let mut out: Vec<(i64, &'a PickleValue)> = Vec::new();
    let mut k: usize = 0;
    proof {
        assert(els@.subrange(0, 0) =~= Seq::<PickleValue>::empty());
        assert(raw_view(out@) =~= Seq::<(i64, PickleValue)>::empty());
    }
    while k < els.len()
        invariant
            k <= els@.len(),
            player_entries(els@.subrange(0, k as int)) == Some(raw_view(out@)),
        decreases els@.len() - k,
    {
        let ghost sub = els@.subrange(0, k + 1);
        proof {
            assert(sub.drop_last() =~= els@.subrange(0, k as int));
            assert(sub.last() == els@[k as int]);
        }
        match &els[k] {
            PickleValue::Tuple(kv) => {
                if kv.len() < 2 {
                    proof {
                        lemma_player_entries_fail(els@, k as int);
                    }
                    return None;
                }
                let key = match &kv[0] {
                    PickleValue::I64(x) => *x,
                    _ => {
                        proof {
                            lemma_player_entries_fail(els@, k as int);
                        }
                        return None;
                    },
                };
                proof {
                    assert(raw_view(out@.push((key, &kv@[1]))) =~= raw_view(out@).push((key, kv@[1])));
                }
                out.push((key, &kv[1]));
            },
            _ => {},
        }
        k = k + 1;
    }
    proof {
        assert(els@.subrange(0, els@.len() as int) =~= els@);
    }
    Some(out)
}

proof fn lemma_player_entries_fail(els: Seq<PickleValue>, k: int)
    requires
        0 <= k < els.len(),
        player_entries(els.subrange(0, k + 1)) is None,
    ensures
        player_entries(els) is None,
    decreases els.len() - k,
{
    if k + 1 < els.len() {
        let sub = els.subrange(0, k + 2);
        assert(sub.drop_last() =~= els.subrange(0, k + 1));
        lemma_player_entries_fail(els, k + 1);
    } else {
        assert(els.subrange(0, k + 1) =~= els);
    }
}

/// The player that the pickled data `v` describes, if it describes one.
pub fn player_from<'a>(v: &'a PickleValue, newer: bool) -> (r: Option<OnArenaStateReceivedPlayer<'a>>)
    ensures
        match r {
            Some(p) => player_matches(*v, newer, p),
            None => !player_valid(*v, newer),
        },
{
    let els = match v {
        PickleValue::List(els) => els,
        _ => return None,
    };
    let es = match player_entries_of(els) {
        Some(es) => es,
        None => return None,
    };
    let ghost k = player_keys(newer);
    let (ka, kc, kh, ku, ks, kp, kpa, kt): (i64, i64, i64, i64, i64, i64, i64, i64) = if newer {
        (0x1, 0x5, 0x16, 0x17, 0x1e, 0x1f, 0x20, 0x21)
    } else {
        (0x1, 0x5, 0x15, 0x16, 0x1d, 0x1e, 0x1f, 0x20)
    };
    proof {
        assert(k[0] == ka && k[1] == kc && k[2] == kh && k[3] == ku && k[4] == ks && k[5] == kp && k[6] == kpa
            && k[7] == kt);
    }
    let avatarid = match lookup_int(&es, ka) {
        Some(x) => x,
        None => return None,
    };
    let clan = match lookup_entry(&es, kc) {
        Some(PickleValue::String(c)) => c.clone(),
        _ => return None,
    };
    let health = match lookup_int(&es, kh) {
        Some(x) => x,
        None => return None,
    };
    let username = match lookup_entry(&es, ku) {
        Some(PickleValue::Bytes(u)) => match utf8_string(u.as_slice()) {
            Some(s) => s,
            None => return None,
        },
        _ => return None,
    };
    let shipid = match lookup_int(&es, ks) {
        Some(x) => x,
        None => return None,
    };
    let playerid = match lookup_int(&es, kp) {
        Some(x) => x,
        None => return None,
    };
    match lookup_entry(&es, kpa) {
        Some(_) => {},
        None => return None,
    }
    let teamid = match lookup_int(&es, kt) {
        Some(x) => x,
        None => return None,
    };
    Some(OnArenaStateReceivedPlayer { username, clan, avatarid, shipid, playerid, teamid, health, raw: es })
}



/// One hit that a ship received: who dealt it and how much damage (an
/// `f32` held as its bit pattern).
#[derive(Debug, Clone, Copy, PartialEq, Eq, Structural)]
pub struct DamageReceived {
    pub aggressor: i32,
    pub damage: u32,
}

/// One minimap sighting, with the packed fields as the game sends them:
/// `x` and `y` in 512ths of the map plus one and a half maps, `heading` in
/// 256ths of a turn from -180 degrees.
#[derive(Debug, Clone, Copy, PartialEq, Eq, Structural)]
pub struct MinimapUpdate {
    pub entity_id: i32,
    pub disappearing: bool,
    pub heading: u8,
    pub x: u16,
    pub y: u16,
    /// Seems related to the big hunt mode.
    pub unknown: bool,
}

/// The fields packed into a minimap word, from the least significant bit:
/// 11 bits of x, 11 of y, 8 of heading, then the unknown flag and the
/// disappearing flag.
pub open spec fn spec_minimap(entity_id: i32, packed: u32) -> MinimapUpdate {
    MinimapUpdate {
        entity_id,
        x: (packed & 0x7ff) as u16,
        y: ((packed >> 11u32) & 0x7ff) as u16,
        heading: ((packed >> 22u32) & 0xff) as u8,
        unknown: (packed >> 30u32) & 1 == 1,
        disappearing: (packed >> 31u32) & 1 == 1,
    }
}

/// Unpacks a minimap word, as [`spec_minimap`] says.
pub fn unpack_minimap(entity_id: i32, packed: u32) -> (r: MinimapUpdate)
    ensures
        r == spec_minimap(entity_id, packed),
{
    assert((packed & 0x7ff) <= 0x7ff) by (bit_vector);
    assert(((packed >> 11u32) & 0x7ff) <= 0x7ff) by (bit_vector);
    assert(((packed >> 22u32) & 0xff) <= 0xff) by (bit_vector);
    MinimapUpdate {
        entity_id,
        x: (packed & 0x7ff) as u16,
        y: ((packed >> 11u32) & 0x7ff) as u16,
        heading: ((packed >> 22u32) & 0xff) as u8,
        unknown: (packed >> 30u32) & 1 == 1,
        disappearing: (packed >> 31u32) & 1 == 1,
    }
}

/// The sender, audience and text of an `onChatMessage` call.
pub open spec fn decode_chat(args: Seq<ArgVal>) -> Option<(i32, Seq<char>, Seq<char>)> {
    if args.len() >= 3 && args[0] is Int32 && args[1] is String && args[2] is String && vstd::utf8::valid_utf8(
        args[1]->String_0,
    ) && vstd::utf8::valid_utf8(args[2]->String_0) {
        Some(
            (
                args[0]->Int32_0,
                vstd::utf8::decode_utf8(args[1]->String_0),
                vstd::utf8::decode_utf8(args[2]->String_0),
            ),
        )
    } else {
        None
    }
}

/// The sender, audience flag and voice line of a `receive_CommonCMD` call:
/// arguments audience (0 for the team, 1 for everyone), sender, line code
/// and two parameters.
pub open spec fn decode_voice(args: Seq<ArgVal>) -> Option<(i32, bool, VoiceLine)> {
    if args.len() >= 5 && args[0] is Uint8 && args[1] is Int32 && args[2] is Uint8 && args[3] is Uint32
        && args[4] is Uint64 && args[0]->Uint8_0 <= 1 && spec_voice_line(
        args[2]->Uint8_0,
        args[3]->Uint32_0,
        args[4]->Uint64_0,
    ) is Some {
        Some(
            (
                args[1]->Int32_0,
                args[0]->Uint8_0 == 1,
                spec_voice_line(args[2]->Uint8_0, args[3]->Uint32_0, args[4]->Uint64_0)->0,
            ),
        )
    } else {
        None
    }
}

/// One damage entry of a `receiveDamagesOnShip` call.
pub open spec fn damage_entry(v: ArgVal) -> Option<DamageReceived> {
    match v {
        ArgVal::FixedDict(d) => match (dict_lookup(d, "vehicleID"@), dict_lookup(d, "damage"@)) {
            (Some(ArgVal::Int32(a)), Some(ArgVal::Float32(f))) => Some(DamageReceived { aggressor: a, damage: f }),
            _ => None,
        },
        _ => None,
    }
}

/// The hits of a `receiveDamagesOnShip` call.
pub open spec fn decode_damages(args: Seq<ArgVal>) -> Option<Seq<DamageReceived>> {
    if args.len() >= 1 && args[0] is Array && forall|i: int|
        0 <= i < args[0]->Array_0.len() ==> #[trigger] damage_entry(args[0]->Array_0[i]) is Some {
        Some(Seq::new(args[0]->Array_0.len(), |i: int| damage_entry(args[0]->Array_0[i])->0))
    } else {
        None
    }
}

/// One sighting of an `updateMinimapVisionInfo` call.
pub open spec fn minimap_entry(v: ArgVal) -> Option<MinimapUpdate> {
    match v {
        ArgVal::FixedDict(d) => match (dict_lookup(d, "vehicleID"@), dict_lookup(d, "packedData"@)) {
            (Some(ArgVal::Uint32(id)), Some(ArgVal::Uint32(packed))) => Some(spec_minimap(id as i32, packed)),
            _ => None,
        },
        _ => None,
    }
}

/// The sightings of an `updateMinimapVisionInfo` call; its second argument
/// must be an array too.
pub open spec fn decode_minimap(args: Seq<ArgVal>) -> Option<Seq<MinimapUpdate>> {
    if args.len() >= 2 && args[0] is Array && args[1] is Array && forall|i: int|
        0 <= i < args[0]->Array_0.len() ==> #[trigger] minimap_entry(args[0]->Array_0[i]) is Some {
        Some(Seq::new(args[0]->Array_0.len(), |i: int| minimap_entry(args[0]->Array_0[i])->0))
    } else {
        None
    }
}

/// Whether a version uses the player data keys of 0.10.7 and later.
pub open spec fn newer_player_keys(v: Version) -> bool {
    spec_is_at_least(v, Version { major: 0, minor: 10, patch: 7, build: 0 })
}



/// What a packet means in game terms.
#[derive(Debug)]
pub enum DecodedPacketPayload<'a> {
    Chat { entity_id: u32, sender_id: i32, audience: String, message: String },
    VoiceLine { sender_id: i32, is_global: bool, message: VoiceLine },
    Ribbon(Ribbon),
    Position(PositionPacket),
    PlayerOrientation(PlayerOrientationPacket),
    DamageStat(Vec<((i64, i64), (i64, StatValue))>),
    ShipDestroyed { killer: i32, victim: i32, cause: DeathCause },
    EntityMethod(&'a EntityMethodPacket),
    EntityProperty(&'a EntityPropertyPacket),
    BasePlayerCreate(&'a BasePlayerCreatePacket),
    CellPlayerCreate(&'a CellPlayerCreatePacket),
    EntityEnter(&'a EntityEnterPacket),
    EntityLeave(&'a EntityLeavePacket),
    EntityCreate(&'a EntityCreatePacket),
    OnArenaStateReceived {
        arg0: i64,
        arg1: i8,
        arg2: Vec<(i64, Vec<Option<Vec<(String, &'a PickleValue)>>>)>,
        players: Vec<OnArenaStateReceivedPlayer<'a>>,
    },
    CheckPing(u64),
    DamageReceived { victim: u32, aggressors: Vec<DamageReceived> },
    MinimapUpdate { updates: Vec<MinimapUpdate>, arg1: &'a Vec<ArgValue> },
    PropertyUpdate(&'a PropertyUpdatePacket),
    BattleEnd { winning_team: i8, unknown: u8 },
    CruiseState(&'a CruiseState),
    Version(&'a String),
    Camera(&'a CameraPacket),
    CameraMode(u32),
    CameraFreeLook(u8),
    MapInfo(&'a MapPacket),
    BattleResults(&'a String),
    Unknown(&'a Vec<u8>),
    Invalid(&'a InvalidPacket),
}

/// A packet with its meaning in game terms.
#[derive(Debug)]
pub struct DecodedPacket<'a> {
    pub packet_type: u32,
    /// The game clock, an `f32` held as its bit pattern.
    pub clock: u32,
    pub payload: DecodedPacketPayload<'a>,
}

/// Whether the pickled list of players (or anything else, which stands for
/// no players) describes only valid players.
pub open spec fn players_valid(v: PickleValue, newer: bool) -> bool {
    match v {
        PickleValue::List(ps) => forall|i: int| 0 <= i < ps@.len() ==> #[trigger] player_valid(ps@[i], newer),
        _ => true,
    }
}

/// Whether `out` are the players that the pickled value `v` lists.
pub open spec fn players_match(v: PickleValue, newer: bool, out: Seq<OnArenaStateReceivedPlayer>) -> bool {
    match v {
        PickleValue::List(ps) => out.len() == ps@.len() && forall|i: int|
            0 <= i < ps@.len() ==> #[trigger] player_matches(ps@[i], newer, out[i]),
        _ => out.len() == 0,
    }
}

/// Whether an `onArenaStateReceived` call decodes: an `i64`, an `i8` and
/// two pickled blobs, the first a dictionary of teams and the second a list
/// of players.
pub open spec fn arena_ok(v: Version, args: Seq<ArgVal>, pk: Seq<Option<PickleValue>>) -> bool {
    &&& args.len() >= 4
    &&& args[0] is Int64
    &&& args[1] is Int8
    &&& args[2] is Blob
    &&& args[3] is Blob
    &&& pk.len() >= 4
    &&& pk[2] matches Some(p2) && spec_arena_teams(p2) is Some
    &&& pk[3] matches Some(p3) && players_valid(p3, newer_player_keys(v))
}

/// Whether a method call decodes, given the unpickled values of its
/// arguments (`pk[i]` for argument `i`, where it is a pickled blob).
pub open spec fn method_decodes(v: Version, em: EntityMethodPacket, pk: Seq<Option<PickleValue>>) -> bool {
    let name = em.method@;
    let args = vals_view(em.args@);
    if name == "onChatMessage"@ {
        decode_chat(args) is Some
    } else if name == "receive_CommonCMD"@ {
        decode_voice(args) is Some
    } else if name == "onArenaStateReceived"@ {
        arena_ok(v, args, pk)
    } else if name == "receiveDamageStat"@ {
        &&& args.len() >= 1
        &&& args[0] is Blob
        &&& pk.len() >= 1
        &&& pk[0] matches Some(p0) && spec_damage_stat(p0) is Some
    } else if name == "receiveVehicleDeath"@ {
        args.len() >= 3 && args[0] is Int32 && args[1] is Int32 && args[2] is Uint32
    } else if name == "onRibbon"@ {
        args.len() >= 1 && args[0] is Int8
    } else if name == "receiveDamagesOnShip"@ {
        decode_damages(args) is Some
    } else if name == "onCheckGamePing"@ {
        args.len() >= 1 && args[0] is Uint64
    } else if name == "updateMinimapVisionInfo"@ {
        decode_minimap(args) is Some
    } else if name == "onBattleEnd"@ {
        args.len() >= 2 && args[0] is Int8 && args[1] is Uint8
    } else {
        true
    }
}

/// What a method call means, when it decodes.
pub open spec fn method_decoded(
    v: Version,
    em: EntityMethodPacket,
    pk: Seq<Option<PickleValue>>,
    p: DecodedPacketPayload,
) -> bool {
    let name = em.method@;
    let args = vals_view(em.args@);
    if name == "onChatMessage"@ {
        &&& decode_chat(args) matches Some((snd, aud, msg))
        &&& p matches DecodedPacketPayload::Chat { entity_id, sender_id, audience, message }
        &&& entity_id == em.entity_id && sender_id == snd && audience@ == aud && message@ == msg
    } else if name == "receive_CommonCMD"@ {
        &&& decode_voice(args) matches Some((snd, g, line))
        &&& p == DecodedPacketPayload::VoiceLine { sender_id: snd, is_global: g, message: line }
    } else if name == "onArenaStateReceived"@ {
        &&& arena_ok(v, args, pk)
        &&& p matches DecodedPacketPayload::OnArenaStateReceived { arg0, arg1, arg2, players }
        &&& arg0 == args[0]->Int64_0
        &&& arg1 == args[1]->Int8_0
        &&& spec_arena_teams(pk[2]->0) == Some(teams_view(arg2@))
        &&& players_match(pk[3]->0, newer_player_keys(v), players@)
    } else if name == "receiveDamageStat"@ {
        &&& pk.len() >= 1
        &&& p matches DecodedPacketPayload::DamageStat(st)
        &&& spec_damage_stat(pk[0]->0) == Some(st@)
    } else if name == "receiveVehicleDeath"@ {
        p == DecodedPacketPayload::ShipDestroyed {
            killer: args[1]->Int32_0,
            victim: args[0]->Int32_0,
            cause: spec_death_cause(args[2]->Uint32_0),
        }
    } else if name == "onRibbon"@ {
        p == DecodedPacketPayload::Ribbon(spec_ribbon(args[0]->Int8_0))
    } else if name == "receiveDamagesOnShip"@ {
        &&& p matches DecodedPacketPayload::DamageReceived { victim, aggressors }
        &&& victim == em.entity_id
        &&& decode_damages(args) == Some(aggressors@)
    } else if name == "onCheckGamePing"@ {
        p == DecodedPacketPayload::CheckPing(args[0]->Uint64_0)
    } else if name == "updateMinimapVisionInfo"@ {
        &&& p matches DecodedPacketPayload::MinimapUpdate { updates, arg1 }
        &&& decode_minimap(args) == Some(updates@)
        &&& vals_view(arg1@) == args[1]->Array_0
    } else if name == "onBattleEnd"@ {
        p == DecodedPacketPayload::BattleEnd { winning_team: args[0]->Int8_0, unknown: args[1]->Uint8_0 }
    } else {
        p matches DecodedPacketPayload::EntityMethod(m) && *m == em
    }
}

fn chat_of(args: &Vec<ArgValue>) -> (r: Option<(i32, String, String)>)
    ensures
        match r {
            Some((snd, aud, msg)) => decode_chat(vals_view(args@)) == Some((snd, aud@, msg@)),
            None => decode_chat(vals_view(args@)) is None,
        },
{
    proof {
        crate::rpc::typedefs::lemma_vals_view_ext(args@);
    }
    if args.len() < 3 {
        return None;
    }
    let sender = match &args[0] {
        ArgValue::Int32(i) => *i,
        _ => return None,
    };
    let audience = match &args[1] {
        ArgValue::String(b) => match utf8_string(b.as_slice()) {
            Some(s) => s,
            None => return None,
        },
        _ => return None,
    };
    let message = match &args[2] {
        ArgValue::String(b) => match utf8_string(b.as_slice()) {
            Some(s) => s,
            None => return None,
        },
        _ => return None,
    };
    Some((sender, audience, message))
}

fn voice_of(args: &Vec<ArgValue>) -> (r: Option<(i32, bool, VoiceLine)>)
    ensures
        r == decode_voice(vals_view(args@)),
{
    proof {
        crate::rpc::typedefs::lemma_vals_view_ext(args@);
    }
    if args.len() < 5 {
        return None;
    }
    let (audience, sender, line, a, b) = match (&args[0], &args[1], &args[2], &args[3], &args[4]) {
        (ArgValue::Uint8(x0), ArgValue::Int32(x1), ArgValue::Uint8(x2), ArgValue::Uint32(x3), ArgValue::Uint64(x4)) => (
            *x0,
            *x1,
            *x2,
            *x3,
            *x4,
        ),
        _ => return None,
    };
    if audience > 1 {
        return None;
    }
    match VoiceLine::from_code(line, a, b) {
        Some(l) => Some((sender, audience == 1, l)),
        None => None,
    }
}

fn damages_of(args: &Vec<ArgValue>) -> (r: Option<Vec<DamageReceived>>)
    ensures
        match r {
            Some(ds) => decode_damages(vals_view(args@)) == Some(ds@),
            None => decode_damages(vals_view(args@)) is None,
        },
{
    proof {
        crate::rpc::typedefs::lemma_vals_view_ext(args@);
    }
    if args.len() < 1 {
        return None;
    }
    let xs = match &args[0] {
        ArgValue::Array(xs) => xs,
        _ => return None,
    };
    proof {
        crate::rpc::typedefs::lemma_vals_view_ext(xs@);
    }
    let ghost xv = vals_view(xs@);
    let mut out: Vec<DamageReceived> = Vec::new();
    let mut k: usize = 0;
    while k < xs.len()
        invariant
            vals_view(args@)[0] == ArgVal::Array(xv),
            vals_view(args@).len() >= 1,
            xv == vals_view(xs@),
            xv.len() == xs@.len(),
            forall|i: int| 0 <= i < xs@.len() ==> #[trigger] xv[i] == val_view(xs@[i]),
            k <= xs@.len(),
            forall|i: int| 0 <= i < k ==> #[trigger] damage_entry(xv[i]) is Some,
            out@ =~= Seq::new(k as nat, |i: int| damage_entry(xv[i])->0),
        decreases xs@.len() - k,
    {
        proof {
            assert(xv[k as int] == val_view(xs@[k as int]));
        }
        let d = match &xs[k] {
            ArgValue::FixedDict(d) => d,
            _ => {
                proof {
                    assert(damage_entry(xv[k as int]) is None);
                }
                return None;
            },
        };
        proof {
            assert(xv[k as int] == ArgVal::FixedDict(dict_view(d@)));
        }
        let e = match (dict_get(d, "vehicleID"), dict_get(d, "damage")) {
            (Some(ArgValue::Int32(a)), Some(ArgValue::Float32(f))) => DamageReceived { aggressor: *a, damage: *f },
            _ => {
                proof {
                    assert(damage_entry(xv[k as int]) is None);
                }
                return None;
            },
        };
        out.push(e);
        k = k + 1;
    }
    Some(out)
}

fn minimap_of(args: &Vec<ArgValue>) -> (r: Option<Vec<MinimapUpdate>>)
    ensures
        match r {
            Some(us) => decode_minimap(vals_view(args@)) == Some(us@),
            None => decode_minimap(vals_view(args@)) is None,
        },
{
    proof {
        crate::rpc::typedefs::lemma_vals_view_ext(args@);
    }
    if args.len() < 2 {
        return None;
    }
    match &args[1] {
        ArgValue::Array(_) => {},
        _ => return None,
    }
    let xs = match &args[0] {
        ArgValue::Array(xs) => xs,
        _ => return None,
    };
    proof {
        crate::rpc::typedefs::lemma_vals_view_ext(xs@);
    }
    let ghost xv = vals_view(xs@);
    let mut out: Vec<MinimapUpdate> = Vec::new();
    let mut k: usize = 0;
    while k < xs.len()
        invariant
            vals_view(args@)[0] == ArgVal::Array(xv),
            vals_view(args@).len() >= 2,
            vals_view(args@)[1] is Array,
            xv == vals_view(xs@),
            xv.len() == xs@.len(),
            forall|i: int| 0 <= i < xs@.len() ==> #[trigger] xv[i] == val_view(xs@[i]),
            k <= xs@.len(),
            forall|i: int| 0 <= i < k ==> #[trigger] minimap_entry(xv[i]) is Some,
            out@ =~= Seq::new(k as nat, |i: int| minimap_entry(xv[i])->0),
        decreases xs@.len() - k,
    {
        proof {
            assert(xv[k as int] == val_view(xs@[k as int]));
        }
        let d = match &xs[k] {
            ArgValue::FixedDict(d) => d,
            _ => {
                proof {
                    assert(minimap_entry(xv[k as int]) is None);
                }
                return None;
            },
        };
        proof {
            assert(xv[k as int] == ArgVal::FixedDict(dict_view(d@)));
        }
        let e = match (dict_get(d, "vehicleID"), dict_get(d, "packedData")) {
            (Some(ArgValue::Uint32(id)), Some(ArgValue::Uint32(packed))) => unpack_minimap(
                #[verifier::truncate] (*id as i32),
                *packed,
            ),
            _ => {
                proof {
                    assert(minimap_entry(xv[k as int]) is None);
                }
                return None;
            },
        };
        out.push(e);
        k = k + 1;
    }
    Some(out)
}



fn players_of<'a>(ps: &'a Vec<PickleValue>, newer: bool) -> (r: Option<Vec<OnArenaStateReceivedPlayer<'a>>>)
    ensures
        match r {
            Some(out) => out@.len() == ps@.len() && (forall|i: int|
                0 <= i < ps@.len() ==> #[trigger] player_valid(ps@[i], newer)) && (forall|i: int|
                0 <= i < ps@.len() ==> #[trigger] player_matches(ps@[i], newer, out@[i])),
            None => exists|i: int| 0 <= i < ps@.len() && !#[trigger] player_valid(ps@[i], newer),
        },
{
    let mut out: Vec<OnArenaStateReceivedPlayer<'a>> = Vec::new();
    let mut k: usize = 0;
    while k < ps.len()
        invariant
            k <= ps@.len(),
            out@.len() == k,
            forall|i: int| 0 <= i < k ==> #[trigger] player_valid(ps@[i], newer),
            forall|i: int| 0 <= i < k ==> #[trigger] player_matches(ps@[i], newer, out@[i]),
        decreases ps@.len() - k,
    {
        match player_from(&ps[k], newer) {
            Some(pl) => out.push(pl),
            None => {
                proof {
                    assert(!player_valid(ps@[k as int], newer));
                }
                return None;
            },
        }
        k = k + 1;
    }
    Some(out)
}

fn arena_of<'a>(version: &Version, args: &'a Vec<ArgValue>, pickled: &'a Vec<Option<PickleValue>>) -> (r: Result<
    DecodedPacketPayload<'a>,
    ErrorKind,
>)
    ensures
        match r {
            Ok(p) => {
                &&& arena_ok(*version, vals_view(args@), pickled@)
                &&& p matches DecodedPacketPayload::OnArenaStateReceived { arg0, arg1, arg2, players }
                &&& arg0 == vals_view(args@)[0]->Int64_0
                &&& arg1 == vals_view(args@)[1]->Int8_0
                &&& spec_arena_teams(pickled@[2]->0) == Some(teams_view(arg2@))
                &&& players_match(pickled@[3]->0, newer_player_keys(*version), players@)
            },
            Err(_) => !arena_ok(*version, vals_view(args@), pickled@),
        },
{
    proof {
        crate::rpc::typedefs::lemma_vals_view_ext(args@);
    }
    if args.len() < 4 || pickled.len() < 4 {
        return Err(ErrorKind::UnableToProcessPacket { supertype: 8, subtype: 0, reason: "onArenaStateReceived".to_owned(), packet: Vec::new() });
    }
    let (arg0, arg1) = match (&args[0], &args[1], &args[2], &args[3]) {
        (ArgValue::Int64(a), ArgValue::Int8(b), ArgValue::Blob(_), ArgValue::Blob(_)) => (*a, *b),
        _ => return Err(ErrorKind::UnableToProcessPacket { supertype: 8, subtype: 0, reason: "onArenaStateReceived".to_owned(), packet: Vec::new() }),
    };
    let (p2, p3) = match (&pickled[2], &pickled[3]) {
        (Some(p2), Some(p3)) => (p2, p3),
        _ => return Err(ErrorKind::UnableToProcessPacket { supertype: 8, subtype: 0, reason: "onArenaStateReceived".to_owned(), packet: Vec::new() }),
    };
    let arg2 = match arena_teams(p2) {
        Some(t) => t,
        None => return Err(ErrorKind::UnableToProcessPacket { supertype: 8, subtype: 0, reason: "onArenaStateReceived".to_owned(), packet: Vec::new() }),
    };
    let newer = version.is_at_least(&Version { major: 0, minor: 10, patch: 7, build: 0 });
    let players = match p3 {
        PickleValue::List(ps) => match players_of(ps, newer) {
            Some(out) => out,
            None => return Err(ErrorKind::UnableToProcessPacket { supertype: 8, subtype: 0, reason: "onArenaStateReceived".to_owned(), packet: Vec::new() }),
        },
        _ => Vec::new(),
    };
    Ok(DecodedPacketPayload::OnArenaStateReceived { arg0, arg1, arg2, players })
}

fn method_error(name: &str) -> (r: ErrorKind)
    ensures
        r matches ErrorKind::UnableToProcessPacket { supertype, subtype, reason, packet } && supertype == 8
            && subtype == 0 && reason@ == name@ && packet@.len() == 0,
{
    ErrorKind::UnableToProcessPacket { supertype: 8, subtype: 0, reason: name.to_owned(), packet: Vec::new() }
}

/// What a method call means in game terms, as [`method_decoded`] says;
/// fails exactly when [`method_decodes`] does not hold.
#[verifier::rlimit(60)]
pub fn decode_method<'a>(
    version: &Version,
    em: &'a EntityMethodPacket,
    pickled: &'a Vec<Option<PickleValue>>,
) -> (r: Result<DecodedPacketPayload<'a>, ErrorKind>)
    ensures
        match r {
            Ok(p) => method_decodes(*version, *em, pickled@) && method_decoded(*version, *em, pickled@, p),
            Err(_) => !method_decodes(*version, *em, pickled@),
        },
{
    let args = &em.args;
    let name = em.method.as_str();
    proof {
        crate::rpc::typedefs::lemma_vals_view_ext(args@);
    }
    if str_eq(name, "onChatMessage") {
        match chat_of(args) {
            Some((sender_id, audience, message)) => Ok(
                DecodedPacketPayload::Chat { entity_id: em.entity_id, sender_id, audience, message },
            ),
            None => Err(method_error(name)),
        }
    } else if str_eq(name, "receive_CommonCMD") {
        match voice_of(args) {
            Some((sender_id, is_global, message)) => Ok(
                DecodedPacketPayload::VoiceLine { sender_id, is_global, message },
            ),
            None => Err(method_error(name)),
        }
    } else if str_eq(name, "onArenaStateReceived") {
        arena_of(version, args, pickled)
    } else if str_eq(name, "receiveDamageStat") {
        if args.len() < 1 || pickled.len() < 1 {
            return Err(method_error(name));
        }
        match (&args[0], &pickled[0]) {
            (ArgValue::Blob(_), Some(p0)) => match damage_stat(p0) {
                Some(st) => Ok(DecodedPacketPayload::DamageStat(st)),
                None => Err(method_error(name)),
            },
            _ => Err(method_error(name)),
        }
    } else if str_eq(name, "receiveVehicleDeath") {
        if args.len() < 3 {
            return Err(method_error(name));
        }
        match (&args[0], &args[1], &args[2]) {
            (ArgValue::Int32(victim), ArgValue::Int32(killer), ArgValue::Uint32(cause)) => Ok(
                DecodedPacketPayload::ShipDestroyed {
                    killer: *killer,
                    victim: *victim,
                    cause: DeathCause::from_code(*cause),
                },
            ),
            _ => Err(method_error(name)),
        }
    } else if str_eq(name, "onRibbon") {
        if args.len() < 1 {
            return Err(method_error(name));
        }
        match &args[0] {
            ArgValue::Int8(r) => Ok(DecodedPacketPayload::Ribbon(Ribbon::from_code(*r))),
            _ => Err(method_error(name)),
        }
    } else if str_eq(name, "receiveDamagesOnShip") {
        match damages_of(args) {
            Some(aggressors) => Ok(DecodedPacketPayload::DamageReceived { victim: em.entity_id, aggressors }),
            None => Err(method_error(name)),
        }
    } else if str_eq(name, "onCheckGamePing") {
        if args.len() < 1 {
            return Err(method_error(name));
        }
        match &args[0] {
            ArgValue::Uint64(ping) => Ok(DecodedPacketPayload::CheckPing(*ping)),
            _ => Err(method_error(name)),
        }
    } else if str_eq(name, "updateMinimapVisionInfo") {
        match minimap_of(args) {
            Some(updates) => match &args[1] {
                ArgValue::Array(arg1) => Ok(DecodedPacketPayload::MinimapUpdate { updates, arg1 }),
                _ => Err(method_error(name)),
            },
            None => Err(method_error(name)),
        }
    } else if str_eq(name, "onBattleEnd") {
        if args.len() < 2 {
            return Err(method_error(name));
        }
        match (&args[0], &args[1]) {
            (ArgValue::Int8(w), ArgValue::Uint8(u)) => Ok(DecodedPacketPayload::BattleEnd { winning_team: *w, unknown: *u }),
            _ => Err(method_error(name)),
        }
    } else {
        Ok(DecodedPacketPayload::EntityMethod(em))
    }
}



/// Whether a packet decodes: only method calls can fail to.
pub open spec fn packet_decodes(v: Version, packet: Packet, pk: Seq<Option<PickleValue>>) -> bool {
    match packet.payload {
        PacketType::EntityMethod(em) => method_decodes(v, em, pk),
        _ => true,
    }
}

/// What a packet means: a method call as [`method_decoded`] says, any other
/// packet as it is.
pub open spec fn payload_decoded(v: Version, packet: Packet, pk: Seq<Option<PickleValue>>, p: DecodedPacketPayload) -> bool {
    match packet.payload {
        PacketType::EntityMethod(em) => method_decoded(v, em, pk, p),
        PacketType::EntityProperty(x) => p matches DecodedPacketPayload::EntityProperty(y) && *y == x,
        PacketType::Position(x) => p == DecodedPacketPayload::Position(x),
        PacketType::PlayerOrientation(x) => p == DecodedPacketPayload::PlayerOrientation(x),
        PacketType::BasePlayerCreate(x) => p matches DecodedPacketPayload::BasePlayerCreate(y) && *y == x,
        PacketType::CellPlayerCreate(x) => p matches DecodedPacketPayload::CellPlayerCreate(y) && *y == x,
        PacketType::EntityEnter(x) => p matches DecodedPacketPayload::EntityEnter(y) && *y == x,
        PacketType::EntityLeave(x) => p matches DecodedPacketPayload::EntityLeave(y) && *y == x,
        PacketType::EntityCreate(x) => p matches DecodedPacketPayload::EntityCreate(y) && *y == x,
        PacketType::PropertyUpdate(x) => p matches DecodedPacketPayload::PropertyUpdate(y) && *y == x,
        PacketType::CruiseState(x) => p matches DecodedPacketPayload::CruiseState(y) && *y == x,
        PacketType::Version(x) => p matches DecodedPacketPayload::Version(y) && *y == x,
        PacketType::Camera(x) => p matches DecodedPacketPayload::Camera(y) && *y == x,
        PacketType::CameraMode(x) => p == DecodedPacketPayload::CameraMode(x),
        PacketType::CameraFreeLook(x) => p == DecodedPacketPayload::CameraFreeLook(x),
        PacketType::MapInfo(x) => p matches DecodedPacketPayload::MapInfo(y) && *y == x,
        PacketType::BattleResults(x) => p matches DecodedPacketPayload::BattleResults(y) && *y == x,
        PacketType::Unknown(x) => p matches DecodedPacketPayload::Unknown(y) && *y == x,
        PacketType::Invalid(x) => p matches DecodedPacketPayload::Invalid(y) && *y == x,
    }
}

impl<'a> DecodedPacket<'a> {
    /// The meaning of `packet` for a replay of game `version`. `pickled`
    /// holds, for a method call, the unpickled value of each argument that
    /// is a pickled blob (at the argument's index), or `None` where a blob
    /// could not be unpickled, as [`packet_pickles`] says. Fails exactly
    /// when [`packet_decodes`] does not hold.
    pub fn from(version: &Version, packet: &'a Packet, pickled: &'a Vec<Option<PickleValue>>) -> (r: Result<
        DecodedPacket<'a>,
        ErrorKind,
    >)
        requires
            pickled@ == packet_pickles(*packet),
        ensures
            match r {
                Ok(d) => {
                    &&& packet_decodes(*version, *packet, pickled@)
                    &&& d.packet_type == packet.packet_type
                    &&& d.clock == packet.clock
                    &&& payload_decoded(*version, *packet, pickled@, d.payload)
                },
                Err(_) => !packet_decodes(*version, *packet, pickled@),
            },
    {
        let payload = match &packet.payload {
            PacketType::EntityMethod(em) => match decode_method(version, em, pickled) {
                Ok(p) => p,
                Err(e) => return Err(e),
            },
            PacketType::EntityProperty(x) => DecodedPacketPayload::EntityProperty(x),
            PacketType::Position(x) => DecodedPacketPayload::Position(*x),
            PacketType::PlayerOrientation(x) => DecodedPacketPayload::PlayerOrientation(*x),
            PacketType::BasePlayerCreate(x) => DecodedPacketPayload::BasePlayerCreate(x),
            PacketType::CellPlayerCreate(x) => DecodedPacketPayload::CellPlayerCreate(x),
            PacketType::EntityEnter(x) => DecodedPacketPayload::EntityEnter(x),
            PacketType::EntityLeave(x) => DecodedPacketPayload::EntityLeave(x),
            PacketType::EntityCreate(x) => DecodedPacketPayload::EntityCreate(x),
            PacketType::PropertyUpdate(x) => DecodedPacketPayload::PropertyUpdate(x),
            PacketType::CruiseState(x) => DecodedPacketPayload::CruiseState(x),
            PacketType::Version(x) => DecodedPacketPayload::Version(x),
            PacketType::Camera(x) => DecodedPacketPayload::Camera(x),
            PacketType::CameraMode(x) => DecodedPacketPayload::CameraMode(*x),
            PacketType::CameraFreeLook(x) => DecodedPacketPayload::CameraFreeLook(*x),
            PacketType::MapInfo(x) => DecodedPacketPayload::MapInfo(x),
            PacketType::BattleResults(x) => DecodedPacketPayload::BattleResults(x),
            PacketType::Unknown(x) => DecodedPacketPayload::Unknown(x),
            PacketType::Invalid(x) => DecodedPacketPayload::Invalid(x),
        };
        Ok(DecodedPacket { packet_type: packet.packet_type, clock: packet.clock, payload })
    }

    /// The meaning of `packet` for a replay of game `version`, as
    /// [`DecodedPacket::from`] gives it: the pickled arguments of a method
    /// call are unpickled into `store`, which the result borrows.
    pub fn decode(version: &Version, packet: &'a Packet, store: &'a mut Vec<Option<PickleValue>>) -> (r: Result<
        DecodedPacket<'a>,
        ErrorKind,
    >)
        ensures
            final(store)@ == packet_pickles(*packet),
            match r {
                Ok(d) => {
                    &&& packet_decodes(*version, *packet, packet_pickles(*packet))
                    &&& d.packet_type == packet.packet_type
                    &&& d.clock == packet.clock
                    &&& payload_decoded(*version, *packet, packet_pickles(*packet), d.payload)
                },
                Err(_) => !packet_decodes(*version, *packet, packet_pickles(*packet)),
            },
    {
        *store = unpickle_args(packet);
        let shared: &'a Vec<Option<PickleValue>> = store;
        Self::from(version, packet, shared)
    }
}


} // verus!
