//! The parts of the battle state that are read from entity properties: a
//! ship's configuration and its commander's skills, and the game chat.
use vstd::prelude::*;

use crate::bytes::{le_uint, read_u32, read_u32_list, u32_seq};
use crate::error::ErrorKind;
use crate::rpc::typedefs::{dict_get, dict_lookup, dict_view, val_view, vals_view, ArgVal, ArgValue};
use crate::text::str_eq;
use crate::analyzer::analyzer::AnalyzerMut;
use crate::analyzer::decoder::{DamageReceived, DeathCause, DecodedPacket, DecodedPacketPayload};
use crate::packet2::{frame_of, Packet, PacketProcessorMut};
use crate::version::Version;
use crate::wowsreplay::VehicleInfoMeta;

verus! {

/// The mathematical value of a [`ShipConfig`].
pub struct ShipConfigV {
    pub abilities: Seq<u32>,
    pub hull: u32,
    pub modernization: Seq<u32>,
    pub units: Seq<u32>,
    pub signals: Seq<u32>,
}

/// The equipment a ship went into battle with, as game parameter ids.
#[derive(Debug, Clone)]
pub struct ShipConfig {
    abilities: Vec<u32>,
    hull: u32,
    modernization: Vec<u32>,
    units: Vec<u32>,
    signals: Vec<u32>,
}

impl View for ShipConfig {
    type V = ShipConfigV;

    closed spec fn view(&self) -> ShipConfigV {
        ShipConfigV {
            abilities: self.abilities@,
            hull: self.hull,
            modernization: self.modernization@,
            units: self.units@,
            signals: self.signals@,
        }
    }
}

impl Default for ShipConfig {
    fn default() -> (r: Self)
        ensures
            r@ == (ShipConfigV {
                abilities: Seq::empty(),
                hull: 0,
                modernization: Seq::empty(),
                units: Seq::empty(),
                signals: Seq::empty(),
            }),
    {
        let r = ShipConfig {
            abilities: Vec::new(),
            hull: 0,
            modernization: Vec::new(),
            units: Vec::new(),
            signals: Vec::new(),
        };
        proof {
            assert(r@.abilities =~= Seq::<u32>::empty());
        }
        r
    }
}

impl ShipConfig {
    pub fn signals(&self) -> (r: &[u32])
        ensures
            r@ == self@.signals,
    {
        self.signals.as_slice()
    }

    pub fn units(&self) -> (r: &[u32])
        ensures
            r@ == self@.units,
    {
        self.units.as_slice()
    }

    pub fn modernization(&self) -> (r: &[u32])
        ensures
            r@ == self@.modernization,
    {
        self.modernization.as_slice()
    }

    pub fn hull(&self) -> (r: u32)
        ensures
            r == self@.hull,
    {
        self.hull
    }

    pub fn abilities(&self) -> (r: &[u32])
        ensures
            r@ == self@.abilities,
    {
        self.abilities.as_slice()
    }
}

/// The mathematical value of a [`Skills`]: for each ship class, the
/// indices of the commander skills learned for it.
pub struct SkillsV {
    pub aircraft_carrier: Seq<u8>,
    pub battleship: Seq<u8>,
    pub cruiser: Seq<u8>,
    pub destroyer: Seq<u8>,
    pub auxiliary: Seq<u8>,
    pub submarine: Seq<u8>,
}

/// The commander skills learned, per ship class.
#[derive(Debug, Clone)]
pub struct Skills {
    aircraft_carrier: Vec<u8>,
    battleship: Vec<u8>,
    cruiser: Vec<u8>,
    destroyer: Vec<u8>,
    auxiliary: Vec<u8>,
    submarine: Vec<u8>,
}

impl View for Skills {
    type V = SkillsV;

    closed spec fn view(&self) -> SkillsV {
        SkillsV {
            aircraft_carrier: self.aircraft_carrier@,
            battleship: self.battleship@,
            cruiser: self.cruiser@,
            destroyer: self.destroyer@,
            auxiliary: self.auxiliary@,
            submarine: self.submarine@,
        }
    }
}

pub open spec fn no_skills() -> SkillsV {
    SkillsV {
        aircraft_carrier: Seq::empty(),
        battleship: Seq::empty(),
        cruiser: Seq::empty(),
        destroyer: Seq::empty(),
        auxiliary: Seq::empty(),
        submarine: Seq::empty(),
    }
}

impl Default for Skills {
    fn default() -> (r: Self)
        ensures
            r@ == no_skills(),
    {
        let r = Skills {
            aircraft_carrier: Vec::new(),
            battleship: Vec::new(),
            cruiser: Vec::new(),
            destroyer: Vec::new(),
            auxiliary: Vec::new(),
            submarine: Vec::new(),
        };
        proof {
            assert(r@ =~= no_skills());
        }
        r
    }
}

impl Skills {
    pub fn submarine(&self) -> (r: &[u8])
        ensures
            r@ == self@.submarine,
    {
        self.submarine.as_slice()
    }

    pub fn auxiliary(&self) -> (r: &[u8])
        ensures
            r@ == self@.auxiliary,
    {
        self.auxiliary.as_slice()
    }

    pub fn destroyer(&self) -> (r: &[u8])
        ensures
            r@ == self@.destroyer,
    {
        self.destroyer.as_slice()
    }

    pub fn cruiser(&self) -> (r: &[u8])
        ensures
            r@ == self@.cruiser,
    {
        self.cruiser.as_slice()
    }

    pub fn battleship(&self) -> (r: &[u8])
        ensures
            r@ == self@.battleship,
    {
        self.battleship.as_slice()
    }

    pub fn aircraft_carrier(&self) -> (r: &[u8])
        ensures
            r@ == self@.aircraft_carrier,
    {
        self.aircraft_carrier.as_slice()
    }
}

/// The mathematical value of a [`ShipLoadout`].
pub struct ShipLoadoutV {
    pub config: Option<ShipConfigV>,
    pub skills: Option<SkillsV>,
}

/// A ship's configuration and its commander's skills, where known.
#[derive(Debug)]
pub struct ShipLoadout {
    config: Option<ShipConfig>,
    skills: Option<Skills>,
}

impl View for ShipLoadout {
    type V = ShipLoadoutV;

    closed spec fn view(&self) -> ShipLoadoutV {
        ShipLoadoutV {
            config: match self.config {
                Some(c) => Some(c@),
                None => None,
            },
            skills: match self.skills {
                Some(s) => Some(s@),
                None => None,
            },
        }
    }
}

impl Default for ShipLoadout {
    fn default() -> (r: Self)
        ensures
            r@ == (ShipLoadoutV { config: None, skills: None }),
    {
        ShipLoadout { config: None, skills: None }
    }
}

impl ShipLoadout {
    pub fn skills(&self) -> (r: Option<&Skills>)
        ensures
            match r {
                Some(s) => self@.skills == Some(s@),
                None => self@.skills is None,
            },
    {
        match &self.skills {
            Some(s) => Some(s),
            None => None,
        }
    }

    pub fn config(&self) -> (r: Option<&ShipConfig>)
        ensures
            match r {
                Some(c) => self@.config == Some(c@),
                None => self@.config is None,
            },
    {
        match &self.config {
            Some(c) => Some(c),
            None => None,
        }
    }
}

/// A `u32` count at `pos` followed by that many `u32` values: the values
/// and the offset after them.
pub open spec fn u32_list_at(s: Seq<u8>, pos: int) -> Option<(Seq<u32>, int)> {
    if 0 <= pos && pos + 4 <= s.len() && pos + 4 + 4 * le_uint(s, pos, 4) <= s.len() {
        Some((u32_seq(s, pos + 4, le_uint(s, pos, 4)), pos + 4 + 4 * le_uint(s, pos, 4)))
    } else {
        None
    }
}

/// The ship configuration that the bytes `s` encode: three leading `u32`
/// values (the second is the ship's parameter id), the units (the first of
/// which is the hull), the modernizations, the signals, a supply state, the
/// camouflage pairs and the abilities; each list is a `u32` count followed
/// by its items.
pub open spec fn spec_ship_config(s: Seq<u8>) -> Option<ShipConfigV> {
    if s.len() < 12 {
        None
    } else {
        match u32_list_at(s, 12) {
            Some((units, p1)) => match u32_list_at(s, p1) {
                Some((modernization, p2)) => match u32_list_at(s, p2) {
                    Some((signals, p3)) => {
                        let p4 = p3 + 4;
                        if p4 + 4 > s.len() || p4 + 4 + 8 * le_uint(s, p4, 4) > s.len() {
                            None
                        } else {
                            match u32_list_at(s, p4 + 4 + 8 * le_uint(s, p4, 4)) {
                                Some((abilities, _)) => if units.len() > 0 {
                                    Some(ShipConfigV { abilities, hull: units[0], modernization, units, signals })
                                } else {
                                    None
                                },
                                None => None,
                            }
                        }
                    },
                    None => None,
                },
                None => None,
            },
            None => None,
        }
    }
}

/// Decodes a ship configuration blob, as [`spec_ship_config`] says.
pub fn parse_ship_config(blob: &[u8]) -> (r: Result<ShipConfig, ErrorKind>)
    ensures
        match r {
            Ok(c) => spec_ship_config(blob@) == Some(c@),
            Err(_) => spec_ship_config(blob@) is None,
        },
{
    if blob.len() < 12 {
        return Err(ErrorKind::UnexpectedEof);
    }
    let (units, p) = match read_u32_list(blob, 12) {
        Some(x) => x,
        None => return Err(ErrorKind::UnexpectedEof),
    };
    let (modernization, p) = match read_u32_list(blob, p) {
        Some(x) => x,
        None => return Err(ErrorKind::UnexpectedEof),
    };
    let (signals, p) = match read_u32_list(blob, p) {
        Some(x) => x,
        None => return Err(ErrorKind::UnexpectedEof),
    };
    let (_supply_state, p) = match read_u32(blob, p) {
        Some(x) => x,
        None => return Err(ErrorKind::UnexpectedEof),
    };
    let (camo_count, p) = match read_u32(blob, p) {
        Some(x) => x,
        None => return Err(ErrorKind::UnexpectedEof),
    };
    if (blob.len() - p) / 8 < camo_count as usize {
        return Err(ErrorKind::UnexpectedEof);
    }
    let p = p + 8 * (camo_count as usize);
    let (abilities, _p) = match read_u32_list(blob, p) {
        Some(x) => x,
        None => return Err(ErrorKind::UnexpectedEof),
    };
    if units.len() == 0 {
        return Err(ErrorKind::ParsingFailure(String::new()));
    }
    let hull = units[0];
    Ok(ShipConfig { abilities, hull, modernization, units, signals })
}


/// The indices that an array of `u8` values holds, if it is one.
pub open spec fn u8_array(v: ArgVal) -> Option<Seq<u8>> {
    match v {
        ArgVal::Array(xs) => if forall|i: int| 0 <= i < xs.len() ==> #[trigger] xs[i] is Uint8 {
            Some(Seq::new(xs.len(), |i: int| xs[i]->Uint8_0))
        } else {
            None
        },
        _ => None,
    }
}

/// The learned skills that an array of six (or more) arrays of `u8`
/// values holds, one per ship class in the order aircraft carrier,
/// battleship, cruiser, destroyer, auxiliary, submarine.
pub open spec fn skills_from(v: ArgVal) -> Option<SkillsV> {
    match v {
        ArgVal::Array(xs) => if xs.len() >= 6 && u8_array(xs[0]) is Some && u8_array(xs[1]) is Some && u8_array(
            xs[2],
        ) is Some && u8_array(xs[3]) is Some && u8_array(xs[4]) is Some && u8_array(xs[5]) is Some {
            Some(
                SkillsV {
                    aircraft_carrier: u8_array(xs[0])->0,
                    battleship: u8_array(xs[1])->0,
                    cruiser: u8_array(xs[2])->0,
                    destroyer: u8_array(xs[3])->0,
                    auxiliary: u8_array(xs[4])->0,
                    submarine: u8_array(xs[5])->0,
                },
            )
        } else {
            None
        },
        _ => None,
    }
}

/// Reads an array of `u8` values.
fn u8_list(v: &ArgValue) -> (r: Option<Vec<u8>>)
    ensures
        match r {
            Some(b) => u8_array(val_view(*v)) == Some(b@),
            None => u8_array(val_view(*v)) is None,
        },
{
    match v {
        ArgValue::Array(xs) => {
            proof {
                crate::rpc::typedefs::lemma_vals_view_ext(xs@);
            }
            let ghost xv = vals_view(xs@);
            let mut out: Vec<u8> = Vec::new();
            let mut k: usize = 0;
            while k < xs.len()
                invariant
                    val_view(*v) == ArgVal::Array(xv),
                    k <= xs@.len(),
                    xv == vals_view(xs@),
                    xv.len() == xs@.len(),
                    forall|i: int| 0 <= i < xs@.len() ==> #[trigger] xv[i] == val_view(xs@[i]),
                    forall|i: int| 0 <= i < k ==> #[trigger] xv[i] is Uint8,
                    out@ =~= Seq::new(k as nat, |i: int| xv[i]->Uint8_0),
                decreases xs@.len() - k,
            {
                match &xs[k] {
                    ArgValue::Uint8(b) => {
                        out.push(*b);
                    },
                    _ => {
                        proof {
                            assert(!(xv[k as int] is Uint8));
                        }
                        return None;
                    },
                }
                k = k + 1;
            }
            Some(out)
        },
        _ => None,
    }
}

/// The mathematical value of a [`CrewModifiersCompactParams`].
pub struct CrewV {
    pub params_id: u32,
    pub is_in_adaption: bool,
    pub learned_skills: SkillsV,
}

/// The commander of a ship: the game parameter id of the commander, and
/// the skills learned.
#[derive(Debug, Clone)]
pub struct CrewModifiersCompactParams {
    params_id: u32,
    is_in_adaption: bool,
    learned_skills: Skills,
}

impl View for CrewModifiersCompactParams {
    type V = CrewV;

    closed spec fn view(&self) -> CrewV {
        CrewV { params_id: self.params_id, is_in_adaption: self.is_in_adaption, learned_skills: self.learned_skills@ }
    }
}

impl Default for CrewModifiersCompactParams {
    fn default() -> (r: Self)
        ensures
            r@ == (CrewV { params_id: 0, is_in_adaption: false, learned_skills: no_skills() }),
    {
        CrewModifiersCompactParams { params_id: 0, is_in_adaption: false, learned_skills: Skills::default() }
    }
}

/// `c` updated from the entries of the dictionary `d`: `paramsId` (a
/// `u32`), `isInAdaption` (a `u8`, set when not zero) and `learnedSkills`
/// (see [`skills_from`]), each where present. `None` when an entry that is
/// present holds a value of another shape.
pub open spec fn crew_updated(c: CrewV, d: Seq<(Seq<char>, ArgVal)>) -> Option<CrewV> {
    let c1 = match dict_lookup(d, "paramsId"@) {
        None => Some(c),
        Some(ArgVal::Uint32(x)) => Some(CrewV { params_id: x, ..c }),
        Some(_) => None,
    };
    match c1 {
        None => None,
        Some(c1) => {
            let c2 = match dict_lookup(d, "isInAdaption"@) {
                None => Some(c1),
                Some(ArgVal::Uint8(x)) => Some(CrewV { is_in_adaption: x != 0, ..c1 }),
                Some(_) => None,
            };
            match c2 {
                None => None,
                Some(c2) => match dict_lookup(d, "learnedSkills"@) {
                    None => Some(c2),
                    Some(v) => match skills_from(v) {
                        Some(sk) => Some(CrewV { learned_skills: sk, ..c2 }),
                        None => None,
                    },
                },
            }
        },
    }
}

impl CrewModifiersCompactParams {
    /// The game parameter id of the commander.
    pub fn params_id(&self) -> (r: u32)
        ensures
            r == self@.params_id,
    {
        self.params_id
    }

    /// Whether the commander is still adapting to the ship.
    pub fn is_in_adaption(&self) -> (r: bool)
        ensures
            r == self@.is_in_adaption,
    {
        self.is_in_adaption
    }

    /// The skills the commander has learned.
    pub fn learned_skills(&self) -> (r: &Skills)
        ensures
            r@ == self@.learned_skills,
    {
        &self.learned_skills
    }

    /// Updates the commander from the entries of a `crewModifiersCompactParams`
    /// property, as [`crew_updated`] says; on failure nothing changes.
    pub fn update_from_args(&mut self, args: &Vec<(String, ArgValue)>) -> (r: Result<(), ErrorKind>)
        ensures
            match r {
                Ok(()) => crew_updated(old(self)@, dict_view(args@)) == Some(final(self)@),
                Err(_) => crew_updated(old(self)@, dict_view(args@)) is None && final(self)@ == old(self)@,
            },
    {
        let params_id = match dict_get(args, "paramsId") {
            None => self.params_id,
            Some(ArgValue::Uint32(x)) => *x,
            Some(_) => return Err(ErrorKind::ParsingFailure("paramsId is not a u32".to_owned())),
        };
        let is_in_adaption = match dict_get(args, "isInAdaption") {
            None => self.is_in_adaption,
            Some(ArgValue::Uint8(x)) => *x != 0,
            Some(_) => return Err(ErrorKind::ParsingFailure("isInAdaption is not a u8".to_owned())),
        };
        let learned = match dict_get(args, "learnedSkills") {
            None => None,
            Some(v) => match Self::skills_of(v) {
                Some(sk) => Some(sk),
                None => return Err(ErrorKind::ParsingFailure("learnedSkills is not six arrays of u8".to_owned())),
            },
        };
        self.params_id = params_id;
        self.is_in_adaption = is_in_adaption;
        match learned {
            Some(sk) => {
                self.learned_skills = sk;
            },
            None => {},
        }
        Ok(())
    }

    fn skills_of(v: &ArgValue) -> (r: Option<Skills>)
        ensures
            match r {
                Some(sk) => skills_from(val_view(*v)) == Some(sk@),
                None => skills_from(val_view(*v)) is None,
            },
    {
        match v {
            ArgValue::Array(xs) => {
                if xs.len() < 6 {
                    proof {
                        crate::rpc::typedefs::lemma_vals_view_len(xs@);
                    }
                    return None;
                }
                proof {
                    crate::rpc::typedefs::lemma_vals_view_ext(xs@);
                }
                let aircraft_carrier = match u8_list(&xs[0]) {
                    Some(b) => b,
                    None => return None,
                };
                let battleship = match u8_list(&xs[1]) {
                    Some(b) => b,
                    None => return None,
                };
                let cruiser = match u8_list(&xs[2]) {
                    Some(b) => b,
                    None => return None,
                };
                let destroyer = match u8_list(&xs[3]) {
                    Some(b) => b,
                    None => return None,
                };
                let auxiliary = match u8_list(&xs[4]) {
                    Some(b) => b,
                    None => return None,
                };
                let submarine = match u8_list(&xs[5]) {
                    Some(b) => b,
                    None => return None,
                };
                Some(Skills { aircraft_carrier, battleship, cruiser, destroyer, auxiliary, submarine })
            },
            _ => None,
        }
    }
}

/// How an entity is known to the parts of the game.
#[allow(non_camel_case_types)]
#[derive(Debug, Clone, Copy, PartialEq, Eq, Structural)]
pub enum xEntityType {
    Client,
    Cell,
    Base,
}

impl xEntityType {
    /// The flag value of this kind: 1, 2 or 4.
    pub fn value(&self) -> (r: u32)
        ensures
            r == match *self {
                xEntityType::Client => 1u32,
                xEntityType::Cell => 2u32,
                xEntityType::Base => 4u32,
            },
    {
        match self {
            xEntityType::Client => 1,
            xEntityType::Cell => 2,
            xEntityType::Base => 4,
        }
    }
}

/// The entity types that a replay creates.
#[derive(Debug, Clone, Copy, PartialEq, Eq, Structural)]
pub enum EntityType {
    Building,
    BattleEntity,
    BattleLogic,
    Vehicle,
    InteractiveZone,
    SmokeScreen,
}

/// The entity type whose name is `s`.
pub open spec fn spec_entity_type(s: Seq<char>) -> Option<EntityType> {
    if s == "Building"@ {
        Some(EntityType::Building)
    } else if s == "BattleEntity"@ {
        Some(EntityType::BattleEntity)
    } else if s == "BattleLogic"@ {
        Some(EntityType::BattleLogic)
    } else if s == "Vehicle"@ {
        Some(EntityType::Vehicle)
    } else if s == "InteractiveZone"@ {
        Some(EntityType::InteractiveZone)
    } else if s == "SmokeScreen"@ {
        Some(EntityType::SmokeScreen)
    } else {
        None
    }
}

/// The name by which a replay writes entity type `e`: the variant's own
/// name.
pub open spec fn entity_type_name(e: EntityType) -> Seq<char> {
    match e {
        EntityType::Building => "Building"@,
        EntityType::BattleEntity => "BattleEntity"@,
        EntityType::BattleLogic => "BattleLogic"@,
        EntityType::Vehicle => "Vehicle"@,
        EntityType::InteractiveZone => "InteractiveZone"@,
        EntityType::SmokeScreen => "SmokeScreen"@,
    }
}

/// Each entity type is what its own name denotes, and no other name
/// denotes an entity type.
pub proof fn lemma_entity_type_names(s: Seq<char>, e: EntityType)
    ensures
        spec_entity_type(entity_type_name(e)) == Some(e),
        spec_entity_type(s) == Some(e) ==> s == entity_type_name(e),
{
    reveal_strlit("Building");
    reveal_strlit("BattleEntity");
    reveal_strlit("BattleLogic");
    reveal_strlit("Vehicle");
    reveal_strlit("InteractiveZone");
    reveal_strlit("SmokeScreen");
    assert("BattleEntity"@ != "Building"@) by { assert("BattleEntity"@.len() != "Building"@.len()); }
    assert("BattleLogic"@ != "Building"@) by { assert("BattleLogic"@.len() != "Building"@.len()); }
    assert("BattleLogic"@ != "BattleEntity"@) by { assert("BattleLogic"@.len() != "BattleEntity"@.len()); }
    assert("Vehicle"@ != "Building"@) by { assert("Vehicle"@.len() != "Building"@.len()); }
    assert("Vehicle"@ != "BattleEntity"@) by { assert("Vehicle"@.len() != "BattleEntity"@.len()); }
    assert("Vehicle"@ != "BattleLogic"@) by { assert("Vehicle"@.len() != "BattleLogic"@.len()); }
    assert("InteractiveZone"@ != "Building"@) by { assert("InteractiveZone"@.len() != "Building"@.len()); }
    assert("InteractiveZone"@ != "BattleEntity"@) by { assert("InteractiveZone"@.len() != "BattleEntity"@.len()); }
    assert("InteractiveZone"@ != "BattleLogic"@) by { assert("InteractiveZone"@.len() != "BattleLogic"@.len()); }
    assert("InteractiveZone"@ != "Vehicle"@) by { assert("InteractiveZone"@.len() != "Vehicle"@.len()); }
    assert("SmokeScreen"@ != "Building"@) by { assert("SmokeScreen"@.len() != "Building"@.len()); }
    assert("SmokeScreen"@ != "BattleEntity"@) by { assert("SmokeScreen"@.len() != "BattleEntity"@.len()); }
    assert("SmokeScreen"@ != "BattleLogic"@) by { assert("SmokeScreen"@[0] != "BattleLogic"@[0]); }
    assert("SmokeScreen"@ != "Vehicle"@) by { assert("SmokeScreen"@.len() != "Vehicle"@.len()); }
    assert("SmokeScreen"@ != "InteractiveZone"@) by { assert("SmokeScreen"@.len() != "InteractiveZone"@.len()); }
}

impl EntityType {
    /// The entity type named `s` (the variant's own name), if there is one.
    pub fn parse(s: &str) -> (r: Option<EntityType>)
        ensures
            r == spec_entity_type(s@),
    {
        if str_eq(s, "Building") {
            Some(EntityType::Building)
        } else if str_eq(s, "BattleEntity") {
            Some(EntityType::BattleEntity)
        } else if str_eq(s, "BattleLogic") {
            Some(EntityType::BattleLogic)
        } else if str_eq(s, "Vehicle") {
            Some(EntityType::Vehicle)
        } else if str_eq(s, "InteractiveZone") {
            Some(EntityType::InteractiveZone)
        } else if str_eq(s, "SmokeScreen") {
            Some(EntityType::SmokeScreen)
        } else {
            None
        }
    }
}

/// The chat channel a message was sent in.
#[derive(Debug, Clone, Copy, PartialEq, Eq, Structural)]
pub enum ChatChannel {
    Division,
    Global,
    Team,
}

/// A chat message of the battle.
#[derive(Debug, Clone)]
pub struct GameMessage {
    pub sender_relation: u32,
    pub sender_name: String,
    pub channel: ChatChannel,
    pub message: String,
}

/// An anti-aircraft aura of a ship.
#[derive(Debug, Clone, Default)]
pub struct AAAura {
    id: u32,
    enabled: bool,
}

/// The visible state of a ship.
#[derive(Debug, Clone, Default)]
pub struct VehicleState {
    buffs: Option<()>,
    vehicle_visual_state: u8,
    battery: Option<()>,
}

/// Receives the events of a battle as they are decoded.
pub trait EventHandler {
    fn on_chat_message(&self, message: GameMessage) {
    }

    fn on_aren_state_received(&self, entity_id: u32) {
    }
}

/// The channel that a chat audience name designates.
pub open spec fn spec_chat_channel(audience: Seq<char>) -> Option<ChatChannel> {
    if audience == "battle_common"@ {
        Some(ChatChannel::Global)
    } else if audience == "battle_team"@ {
        Some(ChatChannel::Team)
    } else {
        None
    }
}

/// The audience `battle_common` is the global channel and `battle_team`
/// the team channel; no other audience names a channel.
pub proof fn lemma_chat_channels(a: Seq<char>)
    ensures
        spec_chat_channel(a) == Some(ChatChannel::Global) <==> a == "battle_common"@,
        spec_chat_channel(a) == Some(ChatChannel::Team) <==> a == "battle_team"@,
        spec_chat_channel(a) != Some(ChatChannel::Division),
{
    reveal_strlit("battle_common");
    reveal_strlit("battle_team");
    assert("battle_common"@ != "battle_team"@) by {
        assert("battle_common"@.len() != "battle_team"@.len());
    }
}

/// The index of the last player of `vehicles` whose id is `id`.
pub open spec fn last_vehicle_with_id(vehicles: Seq<VehicleInfoMeta>, id: int) -> Option<int>
    decreases vehicles.len(),
{
    if vehicles.len() == 0 {
        None
    } else if vehicles.last().id == id {
        Some(vehicles.len() - 1)
    } else {
        last_vehicle_with_id(vehicles.drop_last(), id)
    }
}

/// The game message for a chat message from `sender_id` to `audience`:
/// none for messages of the game itself (sender 0); otherwise the channel
/// that the audience names and the name and relation of the (last) player
/// of `vehicles` with the sender's id. Fails when the audience names no
/// channel or no player has that id.
pub fn handle_chat_message(vehicles: &Vec<VehicleInfoMeta>, sender_id: i32, audience: &str, message: &str) -> (r:
    Result<Option<GameMessage>, ErrorKind>)
    ensures
        match r {
            Ok(None) => sender_id == 0,
            Ok(Some(m)) => {
                &&& sender_id != 0
                &&& spec_chat_channel(audience@) == Some(m.channel)
                &&& last_vehicle_with_id(vehicles@, sender_id as int) matches Some(i)
                &&& m.sender_name@ == vehicles@[i].name@
                &&& m.sender_relation == vehicles@[i].relation
                &&& m.message@ == message@
            },
            Err(_) => sender_id != 0 && (spec_chat_channel(audience@) is None || last_vehicle_with_id(
                vehicles@,
                sender_id as int,
            ) is None),
        },
{
    if sender_id == 0 {
        return Ok(None);
    }
    let channel = if str_eq(audience, "battle_common") {
        ChatChannel::Global
    } else if str_eq(audience, "battle_team") {
        ChatChannel::Team
    } else {
        return Err(ErrorKind::ParsingFailure("unknown chat channel".to_owned()));
    };
    let mut j: usize = vehicles.len();
    proof {
        assert(vehicles@.subrange(0, j as int) =~= vehicles@);
    }
    while j > 0
        invariant
            j <= vehicles@.len(),
            sender_id != 0,
            spec_chat_channel(audience@) == Some(channel),
            last_vehicle_with_id(vehicles@, sender_id as int) == last_vehicle_with_id(
                vehicles@.subrange(0, j as int),
                sender_id as int,
            ),
        decreases j,
    {
        proof {
            let sub = vehicles@.subrange(0, j as int);
            assert(sub.drop_last() =~= vehicles@.subrange(0, j - 1));
        }
        if vehicles[j - 1].id == sender_id as i64 {
            let v = &vehicles[j - 1];
            proof {
                let sub = vehicles@.subrange(0, j as int);
                assert(sub.last() == vehicles@[j - 1]);
                assert(last_vehicle_with_id(sub, sender_id as int) == Some(j - 1));
            }
            return Ok(
                Some(
                    GameMessage {
                        sender_relation: v.relation,
                        sender_name: v.name.clone(),
                        channel,
                        message: message.to_owned(),
                    },
                ),
            );
        }
        j = j - 1;
    }
    proof {
        assert(vehicles@.subrange(0, 0) =~= Seq::<VehicleInfoMeta>::empty());
    }
    Err(ErrorKind::ParsingFailure("chat message from an unknown player".to_owned()))
}


/// The error for a property of a ship whose value has the wrong type.
fn wrong_type(k: &str) -> (r: ErrorKind)
    ensures
        r matches ErrorKind::ParsingFailure(m) && m@ == k@ + " has the wrong type"@,
{
    let mut m = k.to_owned();
    m.append(" has the wrong type");
    ErrorKind::ParsingFailure(m)
}

/// The value of a `bool` property (sent as a `u8`) after `d` is applied:
/// `old` when `d` does not set it, `None` when `d` sets it to a value of
/// another type.
pub open spec fn upd_bool(d: Seq<(Seq<char>, ArgVal)>, k: Seq<char>, old: bool) -> Option<bool> {
    match dict_lookup(d, k) {
        None => Some(old),
        Some(ArgVal::Uint8(x)) => Some(x != 0),
        Some(_) => None,
    }
}

/// As [`upd_bool`], for a `u8` property.
pub open spec fn upd_u8(d: Seq<(Seq<char>, ArgVal)>, k: Seq<char>, old: u8) -> Option<u8> {
    match dict_lookup(d, k) {
        None => Some(old),
        Some(ArgVal::Uint8(x)) => Some(x),
        Some(_) => None,
    }
}

/// As [`upd_bool`], for a `u16` property.
pub open spec fn upd_u16(d: Seq<(Seq<char>, ArgVal)>, k: Seq<char>, old: u16) -> Option<u16> {
    match dict_lookup(d, k) {
        None => Some(old),
        Some(ArgVal::Uint16(x)) => Some(x),
        Some(_) => None,
    }
}

/// As [`upd_bool`], for a `u32` property.
pub open spec fn upd_u32(d: Seq<(Seq<char>, ArgVal)>, k: Seq<char>, old: u32) -> Option<u32> {
    match dict_lookup(d, k) {
        None => Some(old),
        Some(ArgVal::Uint32(x)) => Some(x),
        Some(_) => None,
    }
}

/// As [`upd_bool`], for an `i8` property.
pub open spec fn upd_i8(d: Seq<(Seq<char>, ArgVal)>, k: Seq<char>, old: i8) -> Option<i8> {
    match dict_lookup(d, k) {
        None => Some(old),
        Some(ArgVal::Int8(x)) => Some(x),
        Some(_) => None,
    }
}

/// As [`upd_bool`], for an `f32` property, held as its bit pattern.
pub open spec fn upd_f32(d: Seq<(Seq<char>, ArgVal)>, k: Seq<char>, old: u32) -> Option<u32> {
    match dict_lookup(d, k) {
        None => Some(old),
        Some(ArgVal::Float32(x)) => Some(x),
        Some(_) => None,
    }
}

/// As [`upd_bool`], for the owner's id, sent as an `i32` and kept as the
/// `u32` with the same bits.
pub open spec fn upd_owner(d: Seq<(Seq<char>, ArgVal)>, k: Seq<char>, old: u32) -> Option<u32> {
    match dict_lookup(d, k) {
        None => Some(old),
        Some(ArgVal::Int32(x)) => Some(x as u32),
        Some(_) => None,
    }
}

/// As [`upd_bool`], for a blob property.
pub open spec fn upd_blob(d: Seq<(Seq<char>, ArgVal)>, k: Seq<char>, old: Seq<u8>) -> Option<Seq<u8>> {
    match dict_lookup(d, k) {
        None => Some(old),
        Some(ArgVal::Blob(s)) => Some(s),
        Some(_) => None,
    }
}

/// The `u32` values of an array of `u32` values.
pub open spec fn u32_array(v: ArgVal) -> Option<Seq<u32>> {
    match v {
        ArgVal::Array(xs) => if forall|i: int| 0 <= i < xs.len() ==> #[trigger] xs[i] is Uint32 {
            Some(Seq::new(xs.len(), |i: int| xs[i]->Uint32_0))
        } else {
            None
        },
        _ => None,
    }
}

/// As [`upd_bool`], for an array of `u32` values.
pub open spec fn upd_u32s(d: Seq<(Seq<char>, ArgVal)>, k: Seq<char>, old: Seq<u32>) -> Option<Seq<u32>> {
    match dict_lookup(d, k) {
        None => Some(old),
        Some(a) => u32_array(a),
    }
}

/// The texts of an array of strings that each hold UTF-8 text.
pub open spec fn utf8_strings(v: ArgVal) -> Option<Seq<Seq<char>>> {
    match v {
        ArgVal::Array(xs) => if forall|i: int|
            0 <= i < xs.len() ==> #[trigger] xs[i] is String && vstd::utf8::valid_utf8(xs[i]->String_0) {
            Some(Seq::new(xs.len(), |i: int| vstd::utf8::decode_utf8(xs[i]->String_0)))
        } else {
            None
        },
        _ => None,
    }
}

/// As [`upd_bool`], for an array of strings.
pub open spec fn upd_strings(d: Seq<(Seq<char>, ArgVal)>, k: Seq<char>, old: Seq<Seq<char>>) -> Option<
    Seq<Seq<char>>,
> {
    match dict_lookup(d, k) {
        None => Some(old),
        Some(a) => utf8_strings(a),
    }
}

/// As [`upd_bool`], for the ship's configuration, sent as a blob that
/// [`spec_ship_config`] reads.
pub open spec fn upd_ship_config(d: Seq<(Seq<char>, ArgVal)>, k: Seq<char>, old: ShipConfigV) -> Option<
    ShipConfigV,
> {
    match dict_lookup(d, k) {
        None => Some(old),
        Some(ArgVal::Blob(s)) => spec_ship_config(s),
        Some(_) => None,
    }
}

/// As [`upd_bool`], for the commander, sent as a fixed dictionary whose
/// entries [`crew_updated`] applies.
pub open spec fn upd_crew(d: Seq<(Seq<char>, ArgVal)>, k: Seq<char>, old: CrewV) -> Option<CrewV> {
    match dict_lookup(d, k) {
        None => Some(old),
        Some(ArgVal::FixedDict(e)) => crew_updated(old, e),
        Some(_) => None,
    }
}

fn take_bool(args: &Vec<(String, ArgValue)>, k: &str, old: bool) -> (r: Result<bool, ErrorKind>)
    ensures
        match r {
            Ok(x) => upd_bool(dict_view(args@), k@, old) == Some(x),
            Err(_) => upd_bool(dict_view(args@), k@, old) is None,
        },
{
    match dict_get(args, k) {
        None => Ok(old),
        Some(ArgValue::Uint8(x)) => Ok(*x != 0),
        Some(_) => Err(wrong_type(k)),
    }
}

fn take_u8(args: &Vec<(String, ArgValue)>, k: &str, old: u8) -> (r: Result<u8, ErrorKind>)
    ensures
        match r {
            Ok(x) => upd_u8(dict_view(args@), k@, old) == Some(x),
            Err(_) => upd_u8(dict_view(args@), k@, old) is None,
        },
{
    match dict_get(args, k) {
        None => Ok(old),
        Some(ArgValue::Uint8(x)) => Ok(*x),
        Some(_) => Err(wrong_type(k)),
    }
}

fn take_u16(args: &Vec<(String, ArgValue)>, k: &str, old: u16) -> (r: Result<u16, ErrorKind>)
    ensures
        match r {
            Ok(x) => upd_u16(dict_view(args@), k@, old) == Some(x),
            Err(_) => upd_u16(dict_view(args@), k@, old) is None,
        },
{
    match dict_get(args, k) {
        None => Ok(old),
        Some(ArgValue::Uint16(x)) => Ok(*x),
        Some(_) => Err(wrong_type(k)),
    }
}

fn take_u32(args: &Vec<(String, ArgValue)>, k: &str, old: u32) -> (r: Result<u32, ErrorKind>)
    ensures
        match r {
            Ok(x) => upd_u32(dict_view(args@), k@, old) == Some(x),
            Err(_) => upd_u32(dict_view(args@), k@, old) is None,
        },
{
    match dict_get(args, k) {
        None => Ok(old),
        Some(ArgValue::Uint32(x)) => Ok(*x),
        Some(_) => Err(wrong_type(k)),
    }
}

fn take_i8(args: &Vec<(String, ArgValue)>, k: &str, old: i8) -> (r: Result<i8, ErrorKind>)
    ensures
        match r {
            Ok(x) => upd_i8(dict_view(args@), k@, old) == Some(x),
            Err(_) => upd_i8(dict_view(args@), k@, old) is None,
        },
{
    match dict_get(args, k) {
        None => Ok(old),
        Some(ArgValue::Int8(x)) => Ok(*x),
        Some(_) => Err(wrong_type(k)),
    }
}

fn take_f32(args: &Vec<(String, ArgValue)>, k: &str, old: u32) -> (r: Result<u32, ErrorKind>)
    ensures
        match r {
            Ok(x) => upd_f32(dict_view(args@), k@, old) == Some(x),
            Err(_) => upd_f32(dict_view(args@), k@, old) is None,
        },
{
    match dict_get(args, k) {
        None => Ok(old),
        Some(ArgValue::Float32(x)) => Ok(*x),
        Some(_) => Err(wrong_type(k)),
    }
}

fn take_owner(args: &Vec<(String, ArgValue)>, k: &str, old: u32) -> (r: Result<u32, ErrorKind>)
    ensures
        match r {
            Ok(x) => upd_owner(dict_view(args@), k@, old) == Some(x),
            Err(_) => upd_owner(dict_view(args@), k@, old) is None,
        },
{
    match dict_get(args, k) {
        None => Ok(old),
        Some(ArgValue::Int32(x)) => Ok(*x as u32),
        Some(_) => Err(wrong_type(k)),
    }
}

fn take_blob(args: &Vec<(String, ArgValue)>, k: &str) -> (r: Result<Option<Vec<u8>>, ErrorKind>)
    ensures
        match r {
            Ok(None) => dict_lookup(dict_view(args@), k@) is None,
            Ok(Some(x)) => forall|old: Seq<u8>| #[trigger] upd_blob(dict_view(args@), k@, old) == Some(x@),
            Err(_) => forall|old: Seq<u8>| #[trigger] upd_blob(dict_view(args@), k@, old) is None,
        },
{
    match dict_get(args, k) {
        None => Ok(None),
        Some(ArgValue::Blob(b)) => {
            let c = b.clone();
            proof {
                assert(c@ =~= b@);
            }
            Ok(Some(c))
        },
        Some(_) => Err(wrong_type(k)),
    }
}

fn u32_list(v: &ArgValue) -> (r: Option<Vec<u32>>)
    ensures
        match r {
            Some(b) => u32_array(val_view(*v)) == Some(b@),
            None => u32_array(val_view(*v)) is None,
        },
{
    match v {
        ArgValue::Array(xs) => {
            proof {
                crate::rpc::typedefs::lemma_vals_view_ext(xs@);
            }
            let ghost xv = vals_view(xs@);
            let mut out: Vec<u32> = Vec::new();
            let mut k: usize = 0;
            while k < xs.len()
                invariant
                    val_view(*v) == ArgVal::Array(xv),
                    k <= xs@.len(),
                    xv == vals_view(xs@),
                    xv.len() == xs@.len(),
                    forall|i: int| 0 <= i < xs@.len() ==> #[trigger] xv[i] == val_view(xs@[i]),
                    forall|i: int| 0 <= i < k ==> #[trigger] xv[i] is Uint32,
                    out@ =~= Seq::new(k as nat, |i: int| xv[i]->Uint32_0),
                decreases xs@.len() - k,
            {
                match &xs[k] {
                    ArgValue::Uint32(b) => {
                        out.push(*b);
                    },
                    _ => {
                        proof {
                            assert(!(xv[k as int] is Uint32));
                        }
                        return None;
                    },
                }
                k = k + 1;
            }
            Some(out)
        },
        _ => None,
    }
}

fn take_u32s(args: &Vec<(String, ArgValue)>, k: &str) -> (r: Result<Option<Vec<u32>>, ErrorKind>)
    ensures
        match r {
            Ok(None) => dict_lookup(dict_view(args@), k@) is None,
            Ok(Some(x)) => forall|old: Seq<u32>| #[trigger] upd_u32s(dict_view(args@), k@, old) == Some(x@),
            Err(_) => forall|old: Seq<u32>| #[trigger] upd_u32s(dict_view(args@), k@, old) is None,
        },
{
    match dict_get(args, k) {
        None => Ok(None),
        Some(v) => match u32_list(v) {
            Some(x) => Ok(Some(x)),
            None => Err(wrong_type(k)),
        },
    }
}

fn string_list(v: &ArgValue) -> (r: Option<Vec<String>>)
    ensures
        match r {
            Some(b) => utf8_strings(val_view(*v)) == Some(crate::rpc::entitydefs::strings_view(b@)),
            None => utf8_strings(val_view(*v)) is None,
        },
{
    match v {
        ArgValue::Array(xs) => {
            proof {
                crate::rpc::typedefs::lemma_vals_view_ext(xs@);
            }
            let ghost xv = vals_view(xs@);
            let mut out: Vec<String> = Vec::new();
            let mut k: usize = 0;
            while k < xs.len()
                invariant
                    val_view(*v) == ArgVal::Array(xv),
                    k <= xs@.len(),
                    xv == vals_view(xs@),
                    xv.len() == xs@.len(),
                    forall|i: int| 0 <= i < xs@.len() ==> #[trigger] xv[i] == val_view(xs@[i]),
                    forall|i: int|
                        0 <= i < k ==> #[trigger] xv[i] is String && vstd::utf8::valid_utf8(xv[i]->String_0),
                    crate::rpc::entitydefs::strings_view(out@) =~= Seq::new(
                        k as nat,
                        |i: int| vstd::utf8::decode_utf8(xv[i]->String_0),
                    ),
                decreases xs@.len() - k,
            {
                match &xs[k] {
                    ArgValue::String(b) => {
                        match crate::packet2::utf8_string(b.as_slice()) {
                            Some(s) => {
                                let ghost before = crate::rpc::entitydefs::strings_view(out@);
                                out.push(s);
                                proof {
                                    assert(crate::rpc::entitydefs::strings_view(out@) =~= before.push(s@));
                                }
                            },
                            None => {
                                proof {
                                    assert(!vstd::utf8::valid_utf8(xv[k as int]->String_0));
                                }
                                return None;
                            },
                        }
                    },
                    _ => {
                        proof {
                            assert(!(xv[k as int] is String));
                        }
                        return None;
                    },
                }
                k = k + 1;
            }
            Some(out)
        },
        _ => None,
    }
}

fn take_strings(args: &Vec<(String, ArgValue)>, k: &str) -> (r: Result<Option<Vec<String>>, ErrorKind>)
    ensures
        match r {
            Ok(None) => dict_lookup(dict_view(args@), k@) is None,
            Ok(Some(x)) => forall|old: Seq<Seq<char>>| #[trigger] upd_strings(dict_view(args@), k@, old) == Some(
                crate::rpc::entitydefs::strings_view(x@),
            ),
            Err(_) => forall|old: Seq<Seq<char>>| #[trigger] upd_strings(dict_view(args@), k@, old) is None,
        },
{
    match dict_get(args, k) {
        None => Ok(None),
        Some(v) => match string_list(v) {
            Some(x) => Ok(Some(x)),
            None => Err(wrong_type(k)),
        },
    }
}

fn take_ship_config(args: &Vec<(String, ArgValue)>, k: &str) -> (r: Result<Option<ShipConfig>, ErrorKind>)
    ensures
        match r {
            Ok(None) => dict_lookup(dict_view(args@), k@) is None,
            Ok(Some(x)) => forall|old: ShipConfigV| #[trigger] upd_ship_config(dict_view(args@), k@, old) == Some(x@),
            Err(_) => forall|old: ShipConfigV| #[trigger] upd_ship_config(dict_view(args@), k@, old) is None,
        },
{
    match dict_get(args, k) {
        None => Ok(None),
        Some(ArgValue::Blob(b)) => match parse_ship_config(b.as_slice()) {
            Ok(c) => Ok(Some(c)),
            Err(e) => Err(e),
        },
        Some(_) => Err(wrong_type(k)),
    }
}

/// The state of a ship before any update: no buffs, visual state 0, no
/// battery.
pub closed spec fn initial_state() -> VehicleState {
    VehicleState { buffs: None, vehicle_visual_state: 0, battery: None }
}

/// The hull of a ship: its health, damage and buoyancy. Floating-point values are held as
/// their IEEE-754 bit patterns.
pub(crate) struct HullProps {
    health: u32,
    max_health: u32,
    regenerated_health: u32,
    regeneration_health: u32,
    regen_crew_hp_limit: u32,
    is_alive: bool,
    death_settings: Vec<u8>,
    burning_flags: u16,
    oil_leak_state: u8,
    respawn_time: u16,
    buoyancy: u32,
    buoyancy_current_waterline: u32,
    buoyancy_current_state: u8,
    buoyancy_rudder_index: u8,
    draught: u32,
}

/// The mathematical value of the part of [`VehicleProps`] that holds
/// the hull of a ship: its health, damage and buoyancy.
pub struct HullPropsV {
    pub health: u32,
    pub max_health: u32,
    pub regenerated_health: u32,
    pub regeneration_health: u32,
    pub regen_crew_hp_limit: u32,
    pub is_alive: bool,
    pub death_settings: Seq<u8>,
    pub burning_flags: u16,
    pub oil_leak_state: u8,
    pub respawn_time: u16,
    pub buoyancy: u32,
    pub buoyancy_current_waterline: u32,
    pub buoyancy_current_state: u8,
    pub buoyancy_rudder_index: u8,
    pub draught: u32,
}

impl View for HullProps {
    type V = HullPropsV;

    closed spec fn view(&self) -> HullPropsV {
        HullPropsV {
            health: self.health,
            max_health: self.max_health,
            regenerated_health: self.regenerated_health,
            regeneration_health: self.regeneration_health,
            regen_crew_hp_limit: self.regen_crew_hp_limit,
            is_alive: self.is_alive,
            death_settings: self.death_settings@,
            burning_flags: self.burning_flags,
            oil_leak_state: self.oil_leak_state,
            respawn_time: self.respawn_time,
            buoyancy: self.buoyancy,
            buoyancy_current_waterline: self.buoyancy_current_waterline,
            buoyancy_current_state: self.buoyancy_current_state,
            buoyancy_rudder_index: self.buoyancy_rudder_index,
            draught: self.draught,
        }
    }
}

/// How a ship is steered and driven. Floating-point values are held as
/// their IEEE-754 bit patterns.
pub(crate) struct ControlProps {
    rudders_angle: u32,
    deep_rudders_angle: u32,
    engine_dir: i8,
    engine_power: u8,
    server_speed_raw: u16,
    max_server_speed_raw: u32,
    speed_sign_dir: i8,
    is_on_forsage: bool,
    blocked_controls: u8,
    ignore_map_borders: bool,
    ui_enabled: bool,
}

/// The mathematical value of the part of [`VehicleProps`] that holds
/// how a ship is steered and driven.
pub struct ControlPropsV {
    pub rudders_angle: u32,
    pub deep_rudders_angle: u32,
    pub engine_dir: i8,
    pub engine_power: u8,
    pub server_speed_raw: u16,
    pub max_server_speed_raw: u32,
    pub speed_sign_dir: i8,
    pub is_on_forsage: bool,
    pub blocked_controls: u8,
    pub ignore_map_borders: bool,
    pub ui_enabled: bool,
}

impl View for ControlProps {
    type V = ControlPropsV;

    closed spec fn view(&self) -> ControlPropsV {
        ControlPropsV {
            rudders_angle: self.rudders_angle,
            deep_rudders_angle: self.deep_rudders_angle,
            engine_dir: self.engine_dir,
            engine_power: self.engine_power,
            server_speed_raw: self.server_speed_raw,
            max_server_speed_raw: self.max_server_speed_raw,
            speed_sign_dir: self.speed_sign_dir,
            is_on_forsage: self.is_on_forsage,
            blocked_controls: self.blocked_controls,
            ignore_map_borders: self.ignore_map_borders,
            ui_enabled: self.ui_enabled,
        }
    }
}

/// The weapons of a ship and what they aim at. Floating-point values are held as
/// their IEEE-754 bit patterns.
pub(crate) struct WeaponProps {
    selected_weapon: u32,
    weapon_lock_flags: u16,
    laser_target_local_pos: u16,
    torpedo_local_pos: u16,
    target_local_pos: u16,
    wave_local_pos: u16,
    atba_targets: Vec<u32>,
    anti_air_auras: Vec<AAAura>,
    air_defense_dispersion_radius: u32,
    air_defense_target_ids: Vec<()>,
    is_anti_air_mode: bool,
    has_air_targets_in_range: bool,
    has_active_main_squadron: bool,
    is_in_rage_mode: bool,
}

/// The mathematical value of the part of [`VehicleProps`] that holds
/// the weapons of a ship and what they aim at.
pub struct WeaponPropsV {
    pub selected_weapon: u32,
    pub weapon_lock_flags: u16,
    pub laser_target_local_pos: u16,
    pub torpedo_local_pos: u16,
    pub target_local_pos: u16,
    pub wave_local_pos: u16,
    pub atba_targets: Seq<u32>,
    pub anti_air_auras: Seq<AAAura>,
    pub air_defense_dispersion_radius: u32,
    pub air_defense_target_ids: Seq<()>,
    pub is_anti_air_mode: bool,
    pub has_air_targets_in_range: bool,
    pub has_active_main_squadron: bool,
    pub is_in_rage_mode: bool,
}

impl View for WeaponProps {
    type V = WeaponPropsV;

    closed spec fn view(&self) -> WeaponPropsV {
        WeaponPropsV {
            selected_weapon: self.selected_weapon,
            weapon_lock_flags: self.weapon_lock_flags,
            laser_target_local_pos: self.laser_target_local_pos,
            torpedo_local_pos: self.torpedo_local_pos,
            target_local_pos: self.target_local_pos,
            wave_local_pos: self.wave_local_pos,
            atba_targets: self.atba_targets@,
            anti_air_auras: self.anti_air_auras@,
            air_defense_dispersion_radius: self.air_defense_dispersion_radius,
            air_defense_target_ids: self.air_defense_target_ids@,
            is_anti_air_mode: self.is_anti_air_mode,
            has_air_targets_in_range: self.has_air_targets_in_range,
            has_active_main_squadron: self.has_active_main_squadron,
            is_in_rage_mode: self.is_in_rage_mode,
        }
    }
}

/// Who commands a ship, how it is fitted and what it shows. Floating-point values are held as
/// their IEEE-754 bit patterns.
pub(crate) struct StatusProps {
    owner: u32,
    team_id: i8,
    is_bot: bool,
    is_invisible: bool,
    visibility_flags: u32,
    is_fog_horn_on: bool,
    effects: Vec<String>,
    triggered_skills_data: Vec<u8>,
    ship_config: ShipConfig,
    state: VehicleState,
    miscs_presets_status: Vec<()>,
    heat_infos: Vec<()>,
    sounds: Vec<()>,
    debug_text: Vec<()>,
}

/// The mathematical value of the part of [`VehicleProps`] that holds
/// who commands a ship, how it is fitted and what it shows.
pub struct StatusPropsV {
    pub owner: u32,
    pub team_id: i8,
    pub is_bot: bool,
    pub is_invisible: bool,
    pub visibility_flags: u32,
    pub is_fog_horn_on: bool,
    pub effects: Seq<Seq<char>>,
    pub triggered_skills_data: Seq<u8>,
    pub ship_config: ShipConfigV,
    pub state: VehicleState,
    pub miscs_presets_status: Seq<()>,
    pub heat_infos: Seq<()>,
    pub sounds: Seq<()>,
    pub debug_text: Seq<()>,
}

impl View for StatusProps {
    type V = StatusPropsV;

    closed spec fn view(&self) -> StatusPropsV {
        StatusPropsV {
            owner: self.owner,
            team_id: self.team_id,
            is_bot: self.is_bot,
            is_invisible: self.is_invisible,
            visibility_flags: self.visibility_flags,
            is_fog_horn_on: self.is_fog_horn_on,
            effects: crate::rpc::entitydefs::strings_view(self.effects@),
            triggered_skills_data: self.triggered_skills_data@,
            ship_config: self.ship_config@,
            state: self.state,
            miscs_presets_status: self.miscs_presets_status@,
            heat_infos: self.heat_infos@,
            sounds: self.sounds@,
            debug_text: self.debug_text@,
        }
    }
}

/// The properties of a ship entity.
pub struct VehicleProps {
    hull: HullProps,
    control: ControlProps,
    weapons: WeaponProps,
    status: StatusProps,
    crew_modifiers_compact_params: CrewModifiersCompactParams,
}

/// The mathematical value of a [`VehicleProps`].
pub struct VehiclePropsV {
    pub hull: HullPropsV,
    pub control: ControlPropsV,
    pub weapons: WeaponPropsV,
    pub status: StatusPropsV,
    pub crew_modifiers_compact_params: CrewV,
}

impl View for VehicleProps {
    type V = VehiclePropsV;

    closed spec fn view(&self) -> VehiclePropsV {
        VehiclePropsV {
            hull: self.hull@,
            control: self.control@,
            weapons: self.weapons@,
            status: self.status@,
            crew_modifiers_compact_params: self.crew_modifiers_compact_params@,
        }
    }
}

/// The properties of a ship before any update: all zero, false or empty.
pub open spec fn vehicle_default() -> VehiclePropsV {
    VehiclePropsV {
        hull: HullPropsV {
            health: 0,
            max_health: 0,
            regenerated_health: 0,
            regeneration_health: 0,
            regen_crew_hp_limit: 0,
            is_alive: false,
            death_settings: Seq::empty(),
            burning_flags: 0,
            oil_leak_state: 0,
            respawn_time: 0,
            buoyancy: 0,
            buoyancy_current_waterline: 0,
            buoyancy_current_state: 0,
            buoyancy_rudder_index: 0,
            draught: 0,
        },
        control: ControlPropsV {
            rudders_angle: 0,
            deep_rudders_angle: 0,
            engine_dir: 0,
            engine_power: 0,
            server_speed_raw: 0,
            max_server_speed_raw: 0,
            speed_sign_dir: 0,
            is_on_forsage: false,
            blocked_controls: 0,
            ignore_map_borders: false,
            ui_enabled: false,
        },
        weapons: WeaponPropsV {
            selected_weapon: 0,
            weapon_lock_flags: 0,
            laser_target_local_pos: 0,
            torpedo_local_pos: 0,
            target_local_pos: 0,
            wave_local_pos: 0,
            atba_targets: Seq::empty(),
            anti_air_auras: Seq::empty(),
            air_defense_dispersion_radius: 0,
            air_defense_target_ids: Seq::empty(),
            is_anti_air_mode: false,
            has_air_targets_in_range: false,
            has_active_main_squadron: false,
            is_in_rage_mode: false,
        },
        status: StatusPropsV {
            owner: 0,
            team_id: 0,
            is_bot: false,
            is_invisible: false,
            visibility_flags: 0,
            is_fog_horn_on: false,
            effects: Seq::empty(),
            triggered_skills_data: Seq::empty(),
            ship_config: ShipConfigV { abilities: Seq::empty(), hull: 0, modernization: Seq::empty(), units: Seq::empty(), signals: Seq::empty() },
            state: initial_state(),
            miscs_presets_status: Seq::empty(),
            heat_infos: Seq::empty(),
            sounds: Seq::empty(),
            debug_text: Seq::empty(),
        },
        crew_modifiers_compact_params: CrewV { params_id: 0, is_in_adaption: false, learned_skills: no_skills() },
    }
}

impl Default for VehicleProps {
    fn default() -> (r: Self)
        ensures
            r@ == vehicle_default(),
    {
        let r = VehicleProps {
            hull: HullProps {
                health: 0,
                max_health: 0,
                regenerated_health: 0,
                regeneration_health: 0,
                regen_crew_hp_limit: 0,
                is_alive: false,
                death_settings: Vec::new(),
                burning_flags: 0,
                oil_leak_state: 0,
                respawn_time: 0,
                buoyancy: 0,
                buoyancy_current_waterline: 0,
                buoyancy_current_state: 0,
                buoyancy_rudder_index: 0,
                draught: 0,
            },
            control: ControlProps {
                rudders_angle: 0,
                deep_rudders_angle: 0,
                engine_dir: 0,
                engine_power: 0,
                server_speed_raw: 0,
                max_server_speed_raw: 0,
                speed_sign_dir: 0,
                is_on_forsage: false,
                blocked_controls: 0,
                ignore_map_borders: false,
                ui_enabled: false,
            },
            weapons: WeaponProps {
                selected_weapon: 0,
                weapon_lock_flags: 0,
                laser_target_local_pos: 0,
                torpedo_local_pos: 0,
                target_local_pos: 0,
                wave_local_pos: 0,
                atba_targets: Vec::new(),
                anti_air_auras: Vec::new(),
                air_defense_dispersion_radius: 0,
                air_defense_target_ids: Vec::new(),
                is_anti_air_mode: false,
                has_air_targets_in_range: false,
                has_active_main_squadron: false,
                is_in_rage_mode: false,
            },
            status: StatusProps {
                owner: 0,
                team_id: 0,
                is_bot: false,
                is_invisible: false,
                visibility_flags: 0,
                is_fog_horn_on: false,
                effects: Vec::new(),
                triggered_skills_data: Vec::new(),
                ship_config: ShipConfig::default(),
                state: VehicleState { buffs: None, vehicle_visual_state: 0, battery: None },
                miscs_presets_status: Vec::new(),
                heat_infos: Vec::new(),
                sounds: Vec::new(),
                debug_text: Vec::new(),
            },
            crew_modifiers_compact_params: CrewModifiersCompactParams::default(),
        };
        proof {
            assert(crate::rpc::entitydefs::strings_view(r.status.effects@) =~= Seq::<Seq<char>>::empty());
        }
        r
    }
}

/// Whether every property of this part that `d` sets has the type it
/// needs.
pub open spec fn hull_update_ok(v: HullPropsV, d: Seq<(Seq<char>, ArgVal)>) -> bool {
    &&& upd_f32(d, "health"@, v.health) is Some
    &&& upd_f32(d, "maxHealth"@, v.max_health) is Some
    &&& upd_f32(d, "regeneratedHealth"@, v.regenerated_health) is Some
    &&& upd_f32(d, "regenCrewHpLimit"@, v.regen_crew_hp_limit) is Some
    &&& upd_bool(d, "isAlive"@, v.is_alive) is Some
    &&& upd_blob(d, "deathSettings"@, v.death_settings) is Some
    &&& upd_u16(d, "burningFlags"@, v.burning_flags) is Some
    &&& upd_u8(d, "oilLeakState"@, v.oil_leak_state) is Some
    &&& upd_u16(d, "respawnTime"@, v.respawn_time) is Some
    &&& upd_f32(d, "buoyancy"@, v.buoyancy) is Some
    &&& upd_f32(d, "buoyancyCurrentWaterline"@, v.buoyancy_current_waterline) is Some
    &&& upd_u8(d, "buoyancyCurrentState"@, v.buoyancy_current_state) is Some
    &&& upd_u8(d, "buoyancyRudderIndex"@, v.buoyancy_rudder_index) is Some
    &&& upd_f32(d, "draught"@, v.draught) is Some
}

/// This part after the properties that `d` sets are taken over.
pub open spec fn hull_updated(v: HullPropsV, d: Seq<(Seq<char>, ArgVal)>) -> HullPropsV {
    HullPropsV {
        health: upd_f32(d, "health"@, v.health)->0,
        max_health: upd_f32(d, "maxHealth"@, v.max_health)->0,
        regenerated_health: upd_f32(d, "regeneratedHealth"@, v.regenerated_health)->0,
        regen_crew_hp_limit: upd_f32(d, "regenCrewHpLimit"@, v.regen_crew_hp_limit)->0,
        is_alive: upd_bool(d, "isAlive"@, v.is_alive)->0,
        death_settings: upd_blob(d, "deathSettings"@, v.death_settings)->0,
        burning_flags: upd_u16(d, "burningFlags"@, v.burning_flags)->0,
        oil_leak_state: upd_u8(d, "oilLeakState"@, v.oil_leak_state)->0,
        respawn_time: upd_u16(d, "respawnTime"@, v.respawn_time)->0,
        buoyancy: upd_f32(d, "buoyancy"@, v.buoyancy)->0,
        buoyancy_current_waterline: upd_f32(d, "buoyancyCurrentWaterline"@, v.buoyancy_current_waterline)->0,
        buoyancy_current_state: upd_u8(d, "buoyancyCurrentState"@, v.buoyancy_current_state)->0,
        buoyancy_rudder_index: upd_u8(d, "buoyancyRudderIndex"@, v.buoyancy_rudder_index)->0,
        draught: upd_f32(d, "draught"@, v.draught)->0,
        ..v
    }
}

/// Whether every property of this part that `d` sets has the type it
/// needs.
pub open spec fn control_update_ok(v: ControlPropsV, d: Seq<(Seq<char>, ArgVal)>) -> bool {
    &&& upd_f32(d, "ruddersAngle"@, v.rudders_angle) is Some
    &&& upd_f32(d, "deepRuddersAngle"@, v.deep_rudders_angle) is Some
    &&& upd_i8(d, "engineDir"@, v.engine_dir) is Some
    &&& upd_u8(d, "enginePower"@, v.engine_power) is Some
    &&& upd_u16(d, "serverSpeedRaw"@, v.server_speed_raw) is Some
    &&& upd_u32(d, "maxServerSpeedRaw"@, v.max_server_speed_raw) is Some
    &&& upd_i8(d, "speedSignDir"@, v.speed_sign_dir) is Some
    &&& upd_bool(d, "isOnForsage"@, v.is_on_forsage) is Some
    &&& upd_u8(d, "blockedControls"@, v.blocked_controls) is Some
    &&& upd_bool(d, "ignoreMapBorders"@, v.ignore_map_borders) is Some
    &&& upd_bool(d, "uiEnabled"@, v.ui_enabled) is Some
}

/// This part after the properties that `d` sets are taken over.
pub open spec fn control_updated(v: ControlPropsV, d: Seq<(Seq<char>, ArgVal)>) -> ControlPropsV {
    ControlPropsV {
        rudders_angle: upd_f32(d, "ruddersAngle"@, v.rudders_angle)->0,
        deep_rudders_angle: upd_f32(d, "deepRuddersAngle"@, v.deep_rudders_angle)->0,
        engine_dir: upd_i8(d, "engineDir"@, v.engine_dir)->0,
        engine_power: upd_u8(d, "enginePower"@, v.engine_power)->0,
        server_speed_raw: upd_u16(d, "serverSpeedRaw"@, v.server_speed_raw)->0,
        max_server_speed_raw: upd_u32(d, "maxServerSpeedRaw"@, v.max_server_speed_raw)->0,
        speed_sign_dir: upd_i8(d, "speedSignDir"@, v.speed_sign_dir)->0,
        is_on_forsage: upd_bool(d, "isOnForsage"@, v.is_on_forsage)->0,
        blocked_controls: upd_u8(d, "blockedControls"@, v.blocked_controls)->0,
        ignore_map_borders: upd_bool(d, "ignoreMapBorders"@, v.ignore_map_borders)->0,
        ui_enabled: upd_bool(d, "uiEnabled"@, v.ui_enabled)->0,
        ..v
    }
}

/// Whether every property of this part that `d` sets has the type it
/// needs.
pub open spec fn weapons_update_ok(v: WeaponPropsV, d: Seq<(Seq<char>, ArgVal)>) -> bool {
    &&& upd_u32(d, "selectedWeapon"@, v.selected_weapon) is Some
    &&& upd_u16(d, "weaponLockFlags"@, v.weapon_lock_flags) is Some
    &&& upd_u16(d, "laserTargetLocalPos"@, v.laser_target_local_pos) is Some
    &&& upd_u16(d, "torpedoLocalPos"@, v.torpedo_local_pos) is Some
    &&& upd_u16(d, "targetLocalPos"@, v.target_local_pos) is Some
    &&& upd_u16(d, "waveLocalPos"@, v.wave_local_pos) is Some
    &&& upd_u32s(d, "atbaTargets"@, v.atba_targets) is Some
    &&& upd_f32(d, "airDefenseDispRadius"@, v.air_defense_dispersion_radius) is Some
    &&& upd_bool(d, "isAntiAirMode"@, v.is_anti_air_mode) is Some
    &&& upd_bool(d, "hasAirTargetsInRange"@, v.has_air_targets_in_range) is Some
    &&& upd_bool(d, "hasActiveMainSquadron"@, v.has_active_main_squadron) is Some
    &&& upd_bool(d, "isInRageMode"@, v.is_in_rage_mode) is Some
}

/// This part after the properties that `d` sets are taken over.
pub open spec fn weapons_updated(v: WeaponPropsV, d: Seq<(Seq<char>, ArgVal)>) -> WeaponPropsV {
    WeaponPropsV {
        selected_weapon: upd_u32(d, "selectedWeapon"@, v.selected_weapon)->0,
        weapon_lock_flags: upd_u16(d, "weaponLockFlags"@, v.weapon_lock_flags)->0,
        laser_target_local_pos: upd_u16(d, "laserTargetLocalPos"@, v.laser_target_local_pos)->0,
        torpedo_local_pos: upd_u16(d, "torpedoLocalPos"@, v.torpedo_local_pos)->0,
        target_local_pos: upd_u16(d, "targetLocalPos"@, v.target_local_pos)->0,
        wave_local_pos: upd_u16(d, "waveLocalPos"@, v.wave_local_pos)->0,
        atba_targets: upd_u32s(d, "atbaTargets"@, v.atba_targets)->0,
        air_defense_dispersion_radius: upd_f32(d, "airDefenseDispRadius"@, v.air_defense_dispersion_radius)->0,
        is_anti_air_mode: upd_bool(d, "isAntiAirMode"@, v.is_anti_air_mode)->0,
        has_air_targets_in_range: upd_bool(d, "hasAirTargetsInRange"@, v.has_air_targets_in_range)->0,
        has_active_main_squadron: upd_bool(d, "hasActiveMainSquadron"@, v.has_active_main_squadron)->0,
        is_in_rage_mode: upd_bool(d, "isInRageMode"@, v.is_in_rage_mode)->0,
        ..v
    }
}

/// Whether every property of this part that `d` sets has the type it
/// needs.
pub open spec fn status_update_ok(v: StatusPropsV, d: Seq<(Seq<char>, ArgVal)>) -> bool {
    &&& upd_owner(d, "owner"@, v.owner) is Some
    &&& upd_i8(d, "teamId"@, v.team_id) is Some
    &&& upd_bool(d, "isBot"@, v.is_bot) is Some
    &&& upd_bool(d, "isInvisible"@, v.is_invisible) is Some
    &&& upd_u32(d, "visibilityFlags"@, v.visibility_flags) is Some
    &&& upd_bool(d, "isFogHornOn"@, v.is_fog_horn_on) is Some
    &&& upd_strings(d, "effects"@, v.effects) is Some
    &&& upd_blob(d, "triggeredSkillsData"@, v.triggered_skills_data) is Some
    &&& upd_ship_config(d, "shipConfig"@, v.ship_config) is Some
}

/// This part after the properties that `d` sets are taken over.
pub open spec fn status_updated(v: StatusPropsV, d: Seq<(Seq<char>, ArgVal)>) -> StatusPropsV {
    StatusPropsV {
        owner: upd_owner(d, "owner"@, v.owner)->0,
        team_id: upd_i8(d, "teamId"@, v.team_id)->0,
        is_bot: upd_bool(d, "isBot"@, v.is_bot)->0,
        is_invisible: upd_bool(d, "isInvisible"@, v.is_invisible)->0,
        visibility_flags: upd_u32(d, "visibilityFlags"@, v.visibility_flags)->0,
        is_fog_horn_on: upd_bool(d, "isFogHornOn"@, v.is_fog_horn_on)->0,
        effects: upd_strings(d, "effects"@, v.effects)->0,
        triggered_skills_data: upd_blob(d, "triggeredSkillsData"@, v.triggered_skills_data)->0,
        ship_config: upd_ship_config(d, "shipConfig"@, v.ship_config)->0,
        ..v
    }
}

/// Whether every property that `d` sets for a ship has the type that the
/// property needs.
pub open spec fn vehicle_update_ok(v: VehiclePropsV, d: Seq<(Seq<char>, ArgVal)>) -> bool {
    &&& hull_update_ok(v.hull, d)
    &&& control_update_ok(v.control, d)
    &&& weapons_update_ok(v.weapons, d)
    &&& status_update_ok(v.status, d)
    &&& upd_crew(d, "crewModifiersCompactParams"@, v.crew_modifiers_compact_params) is Some
}

/// The properties of a ship after the properties that `d` sets (keyed by
/// their names in the entity definitions) are taken over.
pub open spec fn vehicle_updated(v: VehiclePropsV, d: Seq<(Seq<char>, ArgVal)>) -> VehiclePropsV {
    VehiclePropsV {
        hull: hull_updated(v.hull, d),
        control: control_updated(v.control, d),
        weapons: weapons_updated(v.weapons, d),
        status: status_updated(v.status, d),
        crew_modifiers_compact_params: upd_crew(d, "crewModifiersCompactParams"@, v.crew_modifiers_compact_params)->0,
    }
}

/// New values of properties of a ship, read but not yet stored.
struct HullStage {
    health: u32,
    max_health: u32,
    regenerated_health: u32,
    regen_crew_hp_limit: u32,
    is_alive: bool,
    death_settings: Option<Vec<u8>>,
    burning_flags: u16,
    oil_leak_state: u8,
    respawn_time: u16,
    buoyancy: u32,
    buoyancy_current_waterline: u32,
    buoyancy_current_state: u8,
    buoyancy_rudder_index: u8,
    draught: u32,
}

/// This part with the values of `s` stored.
spec fn hull_applied(v: HullPropsV, s: HullStage) -> HullPropsV {
    HullPropsV {
        health: s.health,
        max_health: s.max_health,
        regenerated_health: s.regenerated_health,
        regen_crew_hp_limit: s.regen_crew_hp_limit,
        is_alive: s.is_alive,
        death_settings: match s.death_settings {
            Some(x) => x@,
            None => v.death_settings,
        },
        burning_flags: s.burning_flags,
        oil_leak_state: s.oil_leak_state,
        respawn_time: s.respawn_time,
        buoyancy: s.buoyancy,
        buoyancy_current_waterline: s.buoyancy_current_waterline,
        buoyancy_current_state: s.buoyancy_current_state,
        buoyancy_rudder_index: s.buoyancy_rudder_index,
        draught: s.draught,
        ..v
    }
}

impl HullProps {
    fn stage(&self, args: &Vec<(String, ArgValue)>) -> (r: Result<HullStage, ErrorKind>)
        ensures
            match r {
                Ok(s) => hull_update_ok(self@, dict_view(args@)) && hull_applied(self@, s) == hull_updated(self@, dict_view(args@)),
                Err(_) => !hull_update_ok(self@, dict_view(args@)),
            },
    {
        let health = take_f32(args, "health", self.health)?;
        let max_health = take_f32(args, "maxHealth", self.max_health)?;
        let regenerated_health = take_f32(args, "regeneratedHealth", self.regenerated_health)?;
        let regen_crew_hp_limit = take_f32(args, "regenCrewHpLimit", self.regen_crew_hp_limit)?;
        let is_alive = take_bool(args, "isAlive", self.is_alive)?;
        let death_settings = take_blob(args, "deathSettings")?;
        let burning_flags = take_u16(args, "burningFlags", self.burning_flags)?;
        let oil_leak_state = take_u8(args, "oilLeakState", self.oil_leak_state)?;
        let respawn_time = take_u16(args, "respawnTime", self.respawn_time)?;
        let buoyancy = take_f32(args, "buoyancy", self.buoyancy)?;
        let buoyancy_current_waterline = take_f32(args, "buoyancyCurrentWaterline", self.buoyancy_current_waterline)?;
        let buoyancy_current_state = take_u8(args, "buoyancyCurrentState", self.buoyancy_current_state)?;
        let buoyancy_rudder_index = take_u8(args, "buoyancyRudderIndex", self.buoyancy_rudder_index)?;
        let draught = take_f32(args, "draught", self.draught)?;
        Ok(HullStage { health, max_health, regenerated_health, regen_crew_hp_limit, is_alive, death_settings, burning_flags, oil_leak_state, respawn_time, buoyancy, buoyancy_current_waterline, buoyancy_current_state, buoyancy_rudder_index, draught })
    }

    fn apply(&mut self, s: HullStage)
        ensures
            final(self)@ == hull_applied(old(self)@, s),
    {
        self.health = s.health;
        self.max_health = s.max_health;
        self.regenerated_health = s.regenerated_health;
        self.regen_crew_hp_limit = s.regen_crew_hp_limit;
        self.is_alive = s.is_alive;
        match s.death_settings {
            Some(x) => {
                self.death_settings = x;
            },
            None => {},
        }
        self.burning_flags = s.burning_flags;
        self.oil_leak_state = s.oil_leak_state;
        self.respawn_time = s.respawn_time;
        self.buoyancy = s.buoyancy;
        self.buoyancy_current_waterline = s.buoyancy_current_waterline;
        self.buoyancy_current_state = s.buoyancy_current_state;
        self.buoyancy_rudder_index = s.buoyancy_rudder_index;
        self.draught = s.draught;
    }
}

/// New values of properties of a ship, read but not yet stored.
struct ControlStage {
    rudders_angle: u32,
    deep_rudders_angle: u32,
    engine_dir: i8,
    engine_power: u8,
    server_speed_raw: u16,
    max_server_speed_raw: u32,
    speed_sign_dir: i8,
    is_on_forsage: bool,
    blocked_controls: u8,
    ignore_map_borders: bool,
    ui_enabled: bool,
}

/// This part with the values of `s` stored.
spec fn control_applied(v: ControlPropsV, s: ControlStage) -> ControlPropsV {
    ControlPropsV {
        rudders_angle: s.rudders_angle,
        deep_rudders_angle: s.deep_rudders_angle,
        engine_dir: s.engine_dir,
        engine_power: s.engine_power,
        server_speed_raw: s.server_speed_raw,
        max_server_speed_raw: s.max_server_speed_raw,
        speed_sign_dir: s.speed_sign_dir,
        is_on_forsage: s.is_on_forsage,
        blocked_controls: s.blocked_controls,
        ignore_map_borders: s.ignore_map_borders,
        ui_enabled: s.ui_enabled,
        ..v
    }
}

impl ControlProps {
    fn stage(&self, args: &Vec<(String, ArgValue)>) -> (r: Result<ControlStage, ErrorKind>)
        ensures
            match r {
                Ok(s) => control_update_ok(self@, dict_view(args@)) && control_applied(self@, s) == control_updated(self@, dict_view(args@)),
                Err(_) => !control_update_ok(self@, dict_view(args@)),
            },
    {
        let rudders_angle = take_f32(args, "ruddersAngle", self.rudders_angle)?;
        let deep_rudders_angle = take_f32(args, "deepRuddersAngle", self.deep_rudders_angle)?;
        let engine_dir = take_i8(args, "engineDir", self.engine_dir)?;
        let engine_power = take_u8(args, "enginePower", self.engine_power)?;
        let server_speed_raw = take_u16(args, "serverSpeedRaw", self.server_speed_raw)?;
        let max_server_speed_raw = take_u32(args, "maxServerSpeedRaw", self.max_server_speed_raw)?;
        let speed_sign_dir = take_i8(args, "speedSignDir", self.speed_sign_dir)?;
        let is_on_forsage = take_bool(args, "isOnForsage", self.is_on_forsage)?;
        let blocked_controls = take_u8(args, "blockedControls", self.blocked_controls)?;
        let ignore_map_borders = take_bool(args, "ignoreMapBorders", self.ignore_map_borders)?;
        let ui_enabled = take_bool(args, "uiEnabled", self.ui_enabled)?;
        Ok(ControlStage { rudders_angle, deep_rudders_angle, engine_dir, engine_power, server_speed_raw, max_server_speed_raw, speed_sign_dir, is_on_forsage, blocked_controls, ignore_map_borders, ui_enabled })
    }

    fn apply(&mut self, s: ControlStage)
        ensures
            final(self)@ == control_applied(old(self)@, s),
    {
        self.rudders_angle = s.rudders_angle;
        self.deep_rudders_angle = s.deep_rudders_angle;
        self.engine_dir = s.engine_dir;
        self.engine_power = s.engine_power;
        self.server_speed_raw = s.server_speed_raw;
        self.max_server_speed_raw = s.max_server_speed_raw;
        self.speed_sign_dir = s.speed_sign_dir;
        self.is_on_forsage = s.is_on_forsage;
        self.blocked_controls = s.blocked_controls;
        self.ignore_map_borders = s.ignore_map_borders;
        self.ui_enabled = s.ui_enabled;
    }
}

/// New values of properties of a ship, read but not yet stored.
struct WeaponsStage {
    selected_weapon: u32,
    weapon_lock_flags: u16,
    laser_target_local_pos: u16,
    torpedo_local_pos: u16,
    target_local_pos: u16,
    wave_local_pos: u16,
    atba_targets: Option<Vec<u32>>,
    air_defense_dispersion_radius: u32,
    is_anti_air_mode: bool,
    has_air_targets_in_range: bool,
    has_active_main_squadron: bool,
    is_in_rage_mode: bool,
}

/// This part with the values of `s` stored.
spec fn weapons_applied(v: WeaponPropsV, s: WeaponsStage) -> WeaponPropsV {
    WeaponPropsV {
        selected_weapon: s.selected_weapon,
        weapon_lock_flags: s.weapon_lock_flags,
        laser_target_local_pos: s.laser_target_local_pos,
        torpedo_local_pos: s.torpedo_local_pos,
        target_local_pos: s.target_local_pos,
        wave_local_pos: s.wave_local_pos,
        atba_targets: match s.atba_targets {
            Some(x) => x@,
            None => v.atba_targets,
        },
        air_defense_dispersion_radius: s.air_defense_dispersion_radius,
        is_anti_air_mode: s.is_anti_air_mode,
        has_air_targets_in_range: s.has_air_targets_in_range,
        has_active_main_squadron: s.has_active_main_squadron,
        is_in_rage_mode: s.is_in_rage_mode,
        ..v
    }
}

impl WeaponProps {
    fn stage(&self, args: &Vec<(String, ArgValue)>) -> (r: Result<WeaponsStage, ErrorKind>)
        ensures
            match r {
                Ok(s) => weapons_update_ok(self@, dict_view(args@)) && weapons_applied(self@, s) == weapons_updated(self@, dict_view(args@)),
                Err(_) => !weapons_update_ok(self@, dict_view(args@)),
            },
    {
        let selected_weapon = take_u32(args, "selectedWeapon", self.selected_weapon)?;
        let weapon_lock_flags = take_u16(args, "weaponLockFlags", self.weapon_lock_flags)?;
        let laser_target_local_pos = take_u16(args, "laserTargetLocalPos", self.laser_target_local_pos)?;
        let torpedo_local_pos = take_u16(args, "torpedoLocalPos", self.torpedo_local_pos)?;
        let target_local_pos = take_u16(args, "targetLocalPos", self.target_local_pos)?;
        let wave_local_pos = take_u16(args, "waveLocalPos", self.wave_local_pos)?;
        let atba_targets = take_u32s(args, "atbaTargets")?;
        let air_defense_dispersion_radius = take_f32(args, "airDefenseDispRadius", self.air_defense_dispersion_radius)?;
        let is_anti_air_mode = take_bool(args, "isAntiAirMode", self.is_anti_air_mode)?;
        let has_air_targets_in_range = take_bool(args, "hasAirTargetsInRange", self.has_air_targets_in_range)?;
        let has_active_main_squadron = take_bool(args, "hasActiveMainSquadron", self.has_active_main_squadron)?;
        let is_in_rage_mode = take_bool(args, "isInRageMode", self.is_in_rage_mode)?;
        Ok(WeaponsStage { selected_weapon, weapon_lock_flags, laser_target_local_pos, torpedo_local_pos, target_local_pos, wave_local_pos, atba_targets, air_defense_dispersion_radius, is_anti_air_mode, has_air_targets_in_range, has_active_main_squadron, is_in_rage_mode })
    }

    fn apply(&mut self, s: WeaponsStage)
        ensures
            final(self)@ == weapons_applied(old(self)@, s),
    {
        self.selected_weapon = s.selected_weapon;
        self.weapon_lock_flags = s.weapon_lock_flags;
        self.laser_target_local_pos = s.laser_target_local_pos;
        self.torpedo_local_pos = s.torpedo_local_pos;
        self.target_local_pos = s.target_local_pos;
        self.wave_local_pos = s.wave_local_pos;
        match s.atba_targets {
            Some(x) => {
                self.atba_targets = x;
            },
            None => {},
        }
        self.air_defense_dispersion_radius = s.air_defense_dispersion_radius;
        self.is_anti_air_mode = s.is_anti_air_mode;
        self.has_air_targets_in_range = s.has_air_targets_in_range;
        self.has_active_main_squadron = s.has_active_main_squadron;
        self.is_in_rage_mode = s.is_in_rage_mode;
    }
}

/// New values of properties of a ship, read but not yet stored.
struct StatusStage {
    owner: u32,
    team_id: i8,
    is_bot: bool,
    is_invisible: bool,
    visibility_flags: u32,
    is_fog_horn_on: bool,
    effects: Option<Vec<String>>,
    triggered_skills_data: Option<Vec<u8>>,
    ship_config: Option<ShipConfig>,
}

/// This part with the values of `s` stored.
spec fn status_applied(v: StatusPropsV, s: StatusStage) -> StatusPropsV {
    StatusPropsV {
        owner: s.owner,
        team_id: s.team_id,
        is_bot: s.is_bot,
        is_invisible: s.is_invisible,
        visibility_flags: s.visibility_flags,
        is_fog_horn_on: s.is_fog_horn_on,
        effects: match s.effects {
            Some(x) => crate::rpc::entitydefs::strings_view(x@),
            None => v.effects,
        },
        triggered_skills_data: match s.triggered_skills_data {
            Some(x) => x@,
            None => v.triggered_skills_data,
        },
        ship_config: match s.ship_config {
            Some(x) => x@,
            None => v.ship_config,
        },
        ..v
    }
}

impl StatusProps {
    fn stage(&self, args: &Vec<(String, ArgValue)>) -> (r: Result<StatusStage, ErrorKind>)
        ensures
            match r {
                Ok(s) => status_update_ok(self@, dict_view(args@)) && status_applied(self@, s) == status_updated(self@, dict_view(args@)),
                Err(_) => !status_update_ok(self@, dict_view(args@)),
            },
    {
        let owner = take_owner(args, "owner", self.owner)?;
        let team_id = take_i8(args, "teamId", self.team_id)?;
        let is_bot = take_bool(args, "isBot", self.is_bot)?;
        let is_invisible = take_bool(args, "isInvisible", self.is_invisible)?;
        let visibility_flags = take_u32(args, "visibilityFlags", self.visibility_flags)?;
        let is_fog_horn_on = take_bool(args, "isFogHornOn", self.is_fog_horn_on)?;
        let effects = take_strings(args, "effects")?;
        let triggered_skills_data = take_blob(args, "triggeredSkillsData")?;
        let ship_config = take_ship_config(args, "shipConfig")?;
        Ok(StatusStage { owner, team_id, is_bot, is_invisible, visibility_flags, is_fog_horn_on, effects, triggered_skills_data, ship_config })
    }

    fn apply(&mut self, s: StatusStage)
        ensures
            final(self)@ == status_applied(old(self)@, s),
    {
        self.owner = s.owner;
        self.team_id = s.team_id;
        self.is_bot = s.is_bot;
        self.is_invisible = s.is_invisible;
        self.visibility_flags = s.visibility_flags;
        self.is_fog_horn_on = s.is_fog_horn_on;
        match s.effects {
            Some(x) => {
                self.effects = x;
            },
            None => {},
        }
        match s.triggered_skills_data {
            Some(x) => {
                self.triggered_skills_data = x;
            },
            None => {},
        }
        match s.ship_config {
            Some(x) => {
                self.ship_config = x;
            },
            None => {},
        }
    }
}

impl VehicleProps {
    /// The bit pattern of the value.
    pub fn health(&self) -> (r: u32)
        ensures
            r == self@.hull.health,
    {
        self.hull.health
    }

    /// The bit pattern of the value.
    pub fn max_health(&self) -> (r: u32)
        ensures
            r == self@.hull.max_health,
    {
        self.hull.max_health
    }

    /// The bit pattern of the value.
    pub fn regenerated_health(&self) -> (r: u32)
        ensures
            r == self@.hull.regenerated_health,
    {
        self.hull.regenerated_health
    }

    /// The bit pattern of the value.
    pub fn regeneration_health(&self) -> (r: u32)
        ensures
            r == self@.hull.regeneration_health,
    {
        self.hull.regeneration_health
    }

    /// The bit pattern of the value.
    pub fn regen_crew_hp_limit(&self) -> (r: u32)
        ensures
            r == self@.hull.regen_crew_hp_limit,
    {
        self.hull.regen_crew_hp_limit
    }

    pub fn is_alive(&self) -> (r: bool)
        ensures
            r == self@.hull.is_alive,
    {
        self.hull.is_alive
    }

    pub fn death_settings(&self) -> (r: &[u8])
        ensures
            r@ == self@.hull.death_settings,
    {
        self.hull.death_settings.as_slice()
    }

    pub fn burning_flags(&self) -> (r: u16)
        ensures
            r == self@.hull.burning_flags,
    {
        self.hull.burning_flags
    }

    pub fn oil_leak_state(&self) -> (r: u8)
        ensures
            r == self@.hull.oil_leak_state,
    {
        self.hull.oil_leak_state
    }

    pub fn respawn_time(&self) -> (r: u16)
        ensures
            r == self@.hull.respawn_time,
    {
        self.hull.respawn_time
    }

    /// The bit pattern of the value.
    pub fn buoyancy(&self) -> (r: u32)
        ensures
            r == self@.hull.buoyancy,
    {
        self.hull.buoyancy
    }

    /// The bit pattern of the value.
    pub fn buoyancy_current_waterline(&self) -> (r: u32)
        ensures
            r == self@.hull.buoyancy_current_waterline,
    {
        self.hull.buoyancy_current_waterline
    }

    pub fn buoyancy_current_state(&self) -> (r: u8)
        ensures
            r == self@.hull.buoyancy_current_state,
    {
        self.hull.buoyancy_current_state
    }

    pub fn buoyancy_rudder_index(&self) -> (r: u8)
        ensures
            r == self@.hull.buoyancy_rudder_index,
    {
        self.hull.buoyancy_rudder_index
    }

    /// The bit pattern of the value.
    pub fn draught(&self) -> (r: u32)
        ensures
            r == self@.hull.draught,
    {
        self.hull.draught
    }

    /// The bit pattern of the value.
    pub fn rudders_angle(&self) -> (r: u32)
        ensures
            r == self@.control.rudders_angle,
    {
        self.control.rudders_angle
    }

    /// The bit pattern of the value.
    pub fn deep_rudders_angle(&self) -> (r: u32)
        ensures
            r == self@.control.deep_rudders_angle,
    {
        self.control.deep_rudders_angle
    }

    pub fn engine_dir(&self) -> (r: i8)
        ensures
            r == self@.control.engine_dir,
    {
        self.control.engine_dir
    }

    pub fn engine_power(&self) -> (r: u8)
        ensures
            r == self@.control.engine_power,
    {
        self.control.engine_power
    }

    pub fn server_speed_raw(&self) -> (r: u16)
        ensures
            r == self@.control.server_speed_raw,
    {
        self.control.server_speed_raw
    }

    pub fn max_server_speed_raw(&self) -> (r: u32)
        ensures
            r == self@.control.max_server_speed_raw,
    {
        self.control.max_server_speed_raw
    }

    pub fn speed_sign_dir(&self) -> (r: i8)
        ensures
            r == self@.control.speed_sign_dir,
    {
        self.control.speed_sign_dir
    }

    pub fn is_on_forsage(&self) -> (r: bool)
        ensures
            r == self@.control.is_on_forsage,
    {
        self.control.is_on_forsage
    }

    pub fn blocked_controls(&self) -> (r: u8)
        ensures
            r == self@.control.blocked_controls,
    {
        self.control.blocked_controls
    }

    pub fn ignore_map_borders(&self) -> (r: bool)
        ensures
            r == self@.control.ignore_map_borders,
    {
        self.control.ignore_map_borders
    }

    pub fn ui_enabled(&self) -> (r: bool)
        ensures
            r == self@.control.ui_enabled,
    {
        self.control.ui_enabled
    }

    pub fn selected_weapon(&self) -> (r: u32)
        ensures
            r == self@.weapons.selected_weapon,
    {
        self.weapons.selected_weapon
    }

    pub fn weapon_lock_flags(&self) -> (r: u16)
        ensures
            r == self@.weapons.weapon_lock_flags,
    {
        self.weapons.weapon_lock_flags
    }

    pub fn laser_target_local_pos(&self) -> (r: u16)
        ensures
            r == self@.weapons.laser_target_local_pos,
    {
        self.weapons.laser_target_local_pos
    }

    pub fn torpedo_local_pos(&self) -> (r: u16)
        ensures
            r == self@.weapons.torpedo_local_pos,
    {
        self.weapons.torpedo_local_pos
    }

    pub fn target_local_pos(&self) -> (r: u16)
        ensures
            r == self@.weapons.target_local_pos,
    {
        self.weapons.target_local_pos
    }

    pub fn wave_local_pos(&self) -> (r: u16)
        ensures
            r == self@.weapons.wave_local_pos,
    {
        self.weapons.wave_local_pos
    }

    pub fn atba_targets(&self) -> (r: &[u32])
        ensures
            r@ == self@.weapons.atba_targets,
    {
        self.weapons.atba_targets.as_slice()
    }

    pub fn anti_air_auras(&self) -> (r: &[AAAura])
        ensures
            r@ == self@.weapons.anti_air_auras,
    {
        self.weapons.anti_air_auras.as_slice()
    }

    /// The bit pattern of the value.
    pub fn air_defense_dispersion_radius(&self) -> (r: u32)
        ensures
            r == self@.weapons.air_defense_dispersion_radius,
    {
        self.weapons.air_defense_dispersion_radius
    }

    pub fn air_defense_target_ids(&self) -> (r: &[()])
        ensures
            r@ == self@.weapons.air_defense_target_ids,
    {
        self.weapons.air_defense_target_ids.as_slice()
    }

    pub fn is_anti_air_mode(&self) -> (r: bool)
        ensures
            r == self@.weapons.is_anti_air_mode,
    {
        self.weapons.is_anti_air_mode
    }

    pub fn has_air_targets_in_range(&self) -> (r: bool)
        ensures
            r == self@.weapons.has_air_targets_in_range,
    {
        self.weapons.has_air_targets_in_range
    }

    pub fn has_active_main_squadron(&self) -> (r: bool)
        ensures
            r == self@.weapons.has_active_main_squadron,
    {
        self.weapons.has_active_main_squadron
    }

    pub fn is_in_rage_mode(&self) -> (r: bool)
        ensures
            r == self@.weapons.is_in_rage_mode,
    {
        self.weapons.is_in_rage_mode
    }

    pub fn owner(&self) -> (r: u32)
        ensures
            r == self@.status.owner,
    {
        self.status.owner
    }

    pub fn team_id(&self) -> (r: i8)
        ensures
            r == self@.status.team_id,
    {
        self.status.team_id
    }

    pub fn is_bot(&self) -> (r: bool)
        ensures
            r == self@.status.is_bot,
    {
        self.status.is_bot
    }

    pub fn is_invisible(&self) -> (r: bool)
        ensures
            r == self@.status.is_invisible,
    {
        self.status.is_invisible
    }

    pub fn visibility_flags(&self) -> (r: u32)
        ensures
            r == self@.status.visibility_flags,
    {
        self.status.visibility_flags
    }

    pub fn is_fog_horn_on(&self) -> (r: bool)
        ensures
            r == self@.status.is_fog_horn_on,
    {
        self.status.is_fog_horn_on
    }

    pub fn effects(&self) -> (r: &[String])
        ensures
            crate::rpc::entitydefs::strings_view(r@) == self@.status.effects,
    {
        self.status.effects.as_slice()
    }

    pub fn triggered_skills_data(&self) -> (r: &[u8])
        ensures
            r@ == self@.status.triggered_skills_data,
    {
        self.status.triggered_skills_data.as_slice()
    }

    pub fn ship_config(&self) -> (r: &ShipConfig)
        ensures
            r@ == self@.status.ship_config,
    {
        &self.status.ship_config
    }

    pub fn state(&self) -> (r: &VehicleState)
        ensures
            *r == self@.status.state,
    {
        &self.status.state
    }

    pub fn miscs_presets_status(&self) -> (r: &[()])
        ensures
            r@ == self@.status.miscs_presets_status,
    {
        self.status.miscs_presets_status.as_slice()
    }

    pub fn heat_infos(&self) -> (r: &[()])
        ensures
            r@ == self@.status.heat_infos,
    {
        self.status.heat_infos.as_slice()
    }

    pub fn sounds(&self) -> (r: &[()])
        ensures
            r@ == self@.status.sounds,
    {
        self.status.sounds.as_slice()
    }

    pub fn debug_text(&self) -> (r: &[()])
        ensures
            r@ == self@.status.debug_text,
    {
        self.status.debug_text.as_slice()
    }

    pub fn crew_modifiers_compact_params(&self) -> (r: &CrewModifiersCompactParams)
        ensures
            r@ == self@.crew_modifiers_compact_params,
    {
        &self.crew_modifiers_compact_params
    }

    /// Takes over the properties of the ship that `args` sets, keyed by
    /// their names in the entity definitions, as [`vehicle_updated`] says.
    /// A property of the wrong type is an error, and then nothing changes.
    pub fn update_from_args(&mut self, args: &Vec<(String, ArgValue)>) -> (r: Result<(), ErrorKind>)
        ensures
            match r {
                Ok(()) => vehicle_update_ok(old(self)@, dict_view(args@)) && final(self)@ == vehicle_updated(
                    old(self)@,
                    dict_view(args@),
                ),
                Err(_) => !vehicle_update_ok(old(self)@, dict_view(args@)) && final(self)@ == old(self)@,
            },
    {
        let hull = match self.hull.stage(args) {
            Ok(s) => s,
            Err(e) => return Err(e),
        };
        let control = match self.control.stage(args) {
            Ok(s) => s,
            Err(e) => return Err(e),
        };
        let weapons = match self.weapons.stage(args) {
            Ok(s) => s,
            Err(e) => return Err(e),
        };
        let status = match self.status.stage(args) {
            Ok(s) => s,
            Err(e) => return Err(e),
        };
        match dict_get(args, "crewModifiersCompactParams") {
            None => {},
            Some(ArgValue::FixedDict(entries)) => match self.crew_modifiers_compact_params.update_from_args(entries) {
                Ok(()) => {},
                Err(e) => return Err(e),
            },
            Some(_) => {
                return Err(wrong_type("crewModifiersCompactParams"));
            },
        }
        self.hull.apply(hull);
        self.control.apply(control);
        self.weapons.apply(weapons);
        self.status.apply(status);
        Ok(())
    }
}

/// An update that sets no property is accepted and changes nothing.
pub proof fn lemma_vehicle_update_empty(v: VehiclePropsV)
    ensures
        vehicle_update_ok(v, Seq::empty()),
        vehicle_updated(v, Seq::empty()) == v,
{
    let d = Seq::<(Seq<char>, ArgVal)>::empty();
    assert(forall|k: Seq<char>| #[trigger] dict_lookup(d, k) is None);
    assert(vehicle_updated(v, d).hull =~= v.hull);
    assert(vehicle_updated(v, d).control =~= v.control);
    assert(vehicle_updated(v, d).weapons =~= v.weapons);
    assert(vehicle_updated(v, d).status =~= v.status);
}

/// Each property of a ship is taken from the property of the same name
/// that the update sets, as the value it holds (a flag is set where its
/// byte is not zero; the owner's id keeps the bits of the `i32` sent), and
/// is left as it was where the update does not name it.
pub proof fn lemma_vehicle_fields_by_name(v: VehiclePropsV, d: Seq<(Seq<char>, ArgVal)>, u: VehiclePropsV)
    requires
        u == vehicle_updated(v, d),
    ensures
        dict_lookup(d, "health"@) matches Some(ArgVal::Float32(x)) ==> u.hull.health == x,
        dict_lookup(d, "health"@) is None ==> u.hull.health == v.hull.health,
        dict_lookup(d, "maxHealth"@) matches Some(ArgVal::Float32(x)) ==> u.hull.max_health == x,
        dict_lookup(d, "maxHealth"@) is None ==> u.hull.max_health == v.hull.max_health,
        dict_lookup(d, "regeneratedHealth"@) matches Some(ArgVal::Float32(x)) ==> u.hull.regenerated_health == x,
        dict_lookup(d, "regeneratedHealth"@) is None ==> u.hull.regenerated_health == v.hull.regenerated_health,
        dict_lookup(d, "regenCrewHpLimit"@) matches Some(ArgVal::Float32(x)) ==> u.hull.regen_crew_hp_limit == x,
        dict_lookup(d, "regenCrewHpLimit"@) is None ==> u.hull.regen_crew_hp_limit == v.hull.regen_crew_hp_limit,
        dict_lookup(d, "isAlive"@) matches Some(ArgVal::Uint8(x)) ==> u.hull.is_alive == (x != 0),
        dict_lookup(d, "isAlive"@) is None ==> u.hull.is_alive == v.hull.is_alive,
        dict_lookup(d, "deathSettings"@) matches Some(ArgVal::Blob(x)) ==> u.hull.death_settings == x,
        dict_lookup(d, "deathSettings"@) is None ==> u.hull.death_settings == v.hull.death_settings,
        dict_lookup(d, "burningFlags"@) matches Some(ArgVal::Uint16(x)) ==> u.hull.burning_flags == x,
        dict_lookup(d, "burningFlags"@) is None ==> u.hull.burning_flags == v.hull.burning_flags,
        dict_lookup(d, "oilLeakState"@) matches Some(ArgVal::Uint8(x)) ==> u.hull.oil_leak_state == x,
        dict_lookup(d, "oilLeakState"@) is None ==> u.hull.oil_leak_state == v.hull.oil_leak_state,
        dict_lookup(d, "respawnTime"@) matches Some(ArgVal::Uint16(x)) ==> u.hull.respawn_time == x,
        dict_lookup(d, "respawnTime"@) is None ==> u.hull.respawn_time == v.hull.respawn_time,
        dict_lookup(d, "buoyancy"@) matches Some(ArgVal::Float32(x)) ==> u.hull.buoyancy == x,
        dict_lookup(d, "buoyancy"@) is None ==> u.hull.buoyancy == v.hull.buoyancy,
        dict_lookup(d, "buoyancyCurrentWaterline"@) matches Some(ArgVal::Float32(x)) ==> u.hull.buoyancy_current_waterline == x,
        dict_lookup(d, "buoyancyCurrentWaterline"@) is None ==> u.hull.buoyancy_current_waterline == v.hull.buoyancy_current_waterline,
        dict_lookup(d, "buoyancyCurrentState"@) matches Some(ArgVal::Uint8(x)) ==> u.hull.buoyancy_current_state == x,
        dict_lookup(d, "buoyancyCurrentState"@) is None ==> u.hull.buoyancy_current_state == v.hull.buoyancy_current_state,
        dict_lookup(d, "buoyancyRudderIndex"@) matches Some(ArgVal::Uint8(x)) ==> u.hull.buoyancy_rudder_index == x,
        dict_lookup(d, "buoyancyRudderIndex"@) is None ==> u.hull.buoyancy_rudder_index == v.hull.buoyancy_rudder_index,
        dict_lookup(d, "draught"@) matches Some(ArgVal::Float32(x)) ==> u.hull.draught == x,
        dict_lookup(d, "draught"@) is None ==> u.hull.draught == v.hull.draught,
        dict_lookup(d, "ruddersAngle"@) matches Some(ArgVal::Float32(x)) ==> u.control.rudders_angle == x,
        dict_lookup(d, "ruddersAngle"@) is None ==> u.control.rudders_angle == v.control.rudders_angle,
        dict_lookup(d, "deepRuddersAngle"@) matches Some(ArgVal::Float32(x)) ==> u.control.deep_rudders_angle == x,
        dict_lookup(d, "deepRuddersAngle"@) is None ==> u.control.deep_rudders_angle == v.control.deep_rudders_angle,
        dict_lookup(d, "engineDir"@) matches Some(ArgVal::Int8(x)) ==> u.control.engine_dir == x,
        dict_lookup(d, "engineDir"@) is None ==> u.control.engine_dir == v.control.engine_dir,
        dict_lookup(d, "enginePower"@) matches Some(ArgVal::Uint8(x)) ==> u.control.engine_power == x,
        dict_lookup(d, "enginePower"@) is None ==> u.control.engine_power == v.control.engine_power,
        dict_lookup(d, "serverSpeedRaw"@) matches Some(ArgVal::Uint16(x)) ==> u.control.server_speed_raw == x,
        dict_lookup(d, "serverSpeedRaw"@) is None ==> u.control.server_speed_raw == v.control.server_speed_raw,
        dict_lookup(d, "maxServerSpeedRaw"@) matches Some(ArgVal::Uint32(x)) ==> u.control.max_server_speed_raw == x,
        dict_lookup(d, "maxServerSpeedRaw"@) is None ==> u.control.max_server_speed_raw == v.control.max_server_speed_raw,
        dict_lookup(d, "speedSignDir"@) matches Some(ArgVal::Int8(x)) ==> u.control.speed_sign_dir == x,
        dict_lookup(d, "speedSignDir"@) is None ==> u.control.speed_sign_dir == v.control.speed_sign_dir,
        dict_lookup(d, "isOnForsage"@) matches Some(ArgVal::Uint8(x)) ==> u.control.is_on_forsage == (x != 0),
        dict_lookup(d, "isOnForsage"@) is None ==> u.control.is_on_forsage == v.control.is_on_forsage,
        dict_lookup(d, "blockedControls"@) matches Some(ArgVal::Uint8(x)) ==> u.control.blocked_controls == x,
        dict_lookup(d, "blockedControls"@) is None ==> u.control.blocked_controls == v.control.blocked_controls,
        dict_lookup(d, "ignoreMapBorders"@) matches Some(ArgVal::Uint8(x)) ==> u.control.ignore_map_borders == (x != 0),
        dict_lookup(d, "ignoreMapBorders"@) is None ==> u.control.ignore_map_borders == v.control.ignore_map_borders,
        dict_lookup(d, "uiEnabled"@) matches Some(ArgVal::Uint8(x)) ==> u.control.ui_enabled == (x != 0),
        dict_lookup(d, "uiEnabled"@) is None ==> u.control.ui_enabled == v.control.ui_enabled,
        dict_lookup(d, "selectedWeapon"@) matches Some(ArgVal::Uint32(x)) ==> u.weapons.selected_weapon == x,
        dict_lookup(d, "selectedWeapon"@) is None ==> u.weapons.selected_weapon == v.weapons.selected_weapon,
        dict_lookup(d, "weaponLockFlags"@) matches Some(ArgVal::Uint16(x)) ==> u.weapons.weapon_lock_flags == x,
        dict_lookup(d, "weaponLockFlags"@) is None ==> u.weapons.weapon_lock_flags == v.weapons.weapon_lock_flags,
        dict_lookup(d, "laserTargetLocalPos"@) matches Some(ArgVal::Uint16(x)) ==> u.weapons.laser_target_local_pos == x,
        dict_lookup(d, "laserTargetLocalPos"@) is None ==> u.weapons.laser_target_local_pos == v.weapons.laser_target_local_pos,
        dict_lookup(d, "torpedoLocalPos"@) matches Some(ArgVal::Uint16(x)) ==> u.weapons.torpedo_local_pos == x,
        dict_lookup(d, "torpedoLocalPos"@) is None ==> u.weapons.torpedo_local_pos == v.weapons.torpedo_local_pos,
        dict_lookup(d, "targetLocalPos"@) matches Some(ArgVal::Uint16(x)) ==> u.weapons.target_local_pos == x,
        dict_lookup(d, "targetLocalPos"@) is None ==> u.weapons.target_local_pos == v.weapons.target_local_pos,
        dict_lookup(d, "waveLocalPos"@) matches Some(ArgVal::Uint16(x)) ==> u.weapons.wave_local_pos == x,
        dict_lookup(d, "waveLocalPos"@) is None ==> u.weapons.wave_local_pos == v.weapons.wave_local_pos,
        dict_lookup(d, "atbaTargets"@) is None ==> u.weapons.atba_targets == v.weapons.atba_targets,
        dict_lookup(d, "airDefenseDispRadius"@) matches Some(ArgVal::Float32(x)) ==> u.weapons.air_defense_dispersion_radius == x,
        dict_lookup(d, "airDefenseDispRadius"@) is None ==> u.weapons.air_defense_dispersion_radius == v.weapons.air_defense_dispersion_radius,
        dict_lookup(d, "isAntiAirMode"@) matches Some(ArgVal::Uint8(x)) ==> u.weapons.is_anti_air_mode == (x != 0),
        dict_lookup(d, "isAntiAirMode"@) is None ==> u.weapons.is_anti_air_mode == v.weapons.is_anti_air_mode,
        dict_lookup(d, "hasAirTargetsInRange"@) matches Some(ArgVal::Uint8(x)) ==> u.weapons.has_air_targets_in_range == (x != 0),
        dict_lookup(d, "hasAirTargetsInRange"@) is None ==> u.weapons.has_air_targets_in_range == v.weapons.has_air_targets_in_range,
        dict_lookup(d, "hasActiveMainSquadron"@) matches Some(ArgVal::Uint8(x)) ==> u.weapons.has_active_main_squadron == (x != 0),
        dict_lookup(d, "hasActiveMainSquadron"@) is None ==> u.weapons.has_active_main_squadron == v.weapons.has_active_main_squadron,
        dict_lookup(d, "isInRageMode"@) matches Some(ArgVal::Uint8(x)) ==> u.weapons.is_in_rage_mode == (x != 0),
        dict_lookup(d, "isInRageMode"@) is None ==> u.weapons.is_in_rage_mode == v.weapons.is_in_rage_mode,
        dict_lookup(d, "owner"@) matches Some(ArgVal::Int32(x)) ==> u.status.owner == x as u32,
        dict_lookup(d, "owner"@) is None ==> u.status.owner == v.status.owner,
        dict_lookup(d, "teamId"@) matches Some(ArgVal::Int8(x)) ==> u.status.team_id == x,
        dict_lookup(d, "teamId"@) is None ==> u.status.team_id == v.status.team_id,
        dict_lookup(d, "isBot"@) matches Some(ArgVal::Uint8(x)) ==> u.status.is_bot == (x != 0),
        dict_lookup(d, "isBot"@) is None ==> u.status.is_bot == v.status.is_bot,
        dict_lookup(d, "isInvisible"@) matches Some(ArgVal::Uint8(x)) ==> u.status.is_invisible == (x != 0),
        dict_lookup(d, "isInvisible"@) is None ==> u.status.is_invisible == v.status.is_invisible,
        dict_lookup(d, "visibilityFlags"@) matches Some(ArgVal::Uint32(x)) ==> u.status.visibility_flags == x,
        dict_lookup(d, "visibilityFlags"@) is None ==> u.status.visibility_flags == v.status.visibility_flags,
        dict_lookup(d, "isFogHornOn"@) matches Some(ArgVal::Uint8(x)) ==> u.status.is_fog_horn_on == (x != 0),
        dict_lookup(d, "isFogHornOn"@) is None ==> u.status.is_fog_horn_on == v.status.is_fog_horn_on,
        dict_lookup(d, "effects"@) is None ==> u.status.effects == v.status.effects,
        dict_lookup(d, "triggeredSkillsData"@) matches Some(ArgVal::Blob(x)) ==> u.status.triggered_skills_data == x,
        dict_lookup(d, "triggeredSkillsData"@) is None ==> u.status.triggered_skills_data == v.status.triggered_skills_data,
        dict_lookup(d, "shipConfig"@) is None ==> u.status.ship_config == v.status.ship_config,
{
}

/// A commander's parameters id and adaption flag are taken from the
/// properties `paramsId` and `isInAdaption` of the update, and kept where
/// the update does not name them.
pub proof fn lemma_crew_fields_by_name(c: CrewV, d: Seq<(Seq<char>, ArgVal)>)
    ensures
        crew_updated(c, d) matches Some(n) ==> {
            &&& dict_lookup(d, "paramsId"@) matches Some(ArgVal::Uint32(x)) ==> n.params_id == x
            &&& dict_lookup(d, "paramsId"@) is None ==> n.params_id == c.params_id
            &&& dict_lookup(d, "isInAdaption"@) matches Some(ArgVal::Uint8(x)) ==> n.is_in_adaption == (x != 0)
            &&& dict_lookup(d, "isInAdaption"@) is None ==> n.is_in_adaption == c.is_in_adaption
            &&& dict_lookup(d, "learnedSkills"@) is None ==> n.learned_skills == c.learned_skills
        },
{
}

/// A ship destroyed in the battle: when (the game clock, an `f32` held as
/// its bit pattern), by whom, and how.
#[derive(Debug, Clone, Copy, PartialEq, Eq, Structural)]
pub struct Death {
    pub clock: u32,
    pub killer: u32,
    pub victim: u32,
    pub cause: DeathCause,
}

/// Damage that one ship dealt to another (an `f32` held as its bit
/// pattern).
#[derive(Debug, Clone, Copy, PartialEq, Eq, Structural)]
pub struct DamageEvent {
    pub aggressor: u32,
    pub amount: u32,
    pub victim: u32,
}

/// A chat message as values: the sender's relation and name, the channel
/// and the text.
pub open spec fn message_view(m: GameMessage) -> (u32, Seq<char>, ChatChannel, Seq<char>) {
    (m.sender_relation, m.sender_name@, m.channel, m.message@)
}

/// The mathematical value of a [`BattleController`]: the chat log, the
/// deaths and the damage dealt, each in the order they happened, and the
/// ships created, by entity id.
pub struct BattleV {
    pub chat: Seq<(u32, Seq<char>, ChatChannel, Seq<char>)>,
    pub deaths: Seq<Death>,
    pub damage: Seq<DamageEvent>,
    pub vehicles: Seq<(u32, VehiclePropsV)>,
}

/// The place of the entry for entity `id` in `t`, if there is one.
pub open spec fn entity_slot(t: Seq<(u32, VehiclePropsV)>, id: u32) -> Option<int>
    decreases t.len(),
{
    if t.len() == 0 {
        None
    } else if t.last().0 == id {
        Some(t.len() - 1)
    } else {
        entity_slot(t.drop_last(), id)
    }
}

/// `t` with the entry for entity `id` set to `v`: the entry replaced where
/// there is one, added at the end where there is none.
pub open spec fn entity_set(t: Seq<(u32, VehiclePropsV)>, id: u32, v: VehiclePropsV) -> Seq<(u32, VehiclePropsV)> {
    match entity_slot(t, id) {
        Some(i) => t.update(i, (id, v)),
        None => t.push((id, v)),
    }
}

/// The damage events of one damage report: one per aggressor, in order.
pub open spec fn damage_events(victim: u32, aggressors: Seq<DamageReceived>) -> Seq<DamageEvent> {
    Seq::new(
        aggressors.len(),
        |i: int| DamageEvent { aggressor: aggressors[i].aggressor as u32, amount: aggressors[i].damage, victim },
    )
}

/// Whether the battle can take packet `d` in: a chat message from a player
/// names a known channel and a player of `players`; a created entity is of
/// a known type, is not entity 831749, and, for a ship, sets its
/// properties with values of the right types.
pub open spec fn battle_accepts(players: Seq<VehicleInfoMeta>, d: DecodedPacket) -> bool {
    match d.payload {
        DecodedPacketPayload::Chat { sender_id, audience, .. } => sender_id != 0 ==> spec_chat_channel(audience@)
            is Some && last_vehicle_with_id(players, sender_id as int) is Some,
        DecodedPacketPayload::EntityCreate(p) => {
            &&& spec_entity_type(p.entity_type@) is Some
            &&& p.entity_id != 831749
            &&& spec_entity_type(p.entity_type@) == Some(EntityType::Vehicle) ==> vehicle_update_ok(
                vehicle_default(),
                dict_view(p.props@),
            )
        },
        _ => true,
    }
}

/// The battle after packet `d`: a chat message from a player is added to
/// the log; a destroyed ship is added to the deaths; a damage report adds
/// one event per aggressor; a created ship is entered, with the properties
/// its creation sets, under its entity id; every other packet leaves the
/// battle as it was.
pub open spec fn battle_step(b: BattleV, players: Seq<VehicleInfoMeta>, d: DecodedPacket) -> BattleV {
    match d.payload {
        DecodedPacketPayload::Chat { sender_id, audience, message, .. } => if sender_id == 0 {
            b
        } else {
            let i = last_vehicle_with_id(players, sender_id as int)->0;
            BattleV {
                chat: b.chat.push(
                    (players[i].relation, players[i].name@, spec_chat_channel(audience@)->0, message@),
                ),
                ..b
            }
        },
        DecodedPacketPayload::ShipDestroyed { killer, victim, cause } => BattleV {
            deaths: b.deaths.push(Death { clock: d.clock, killer: killer as u32, victim: victim as u32, cause }),
            ..b
        },
        DecodedPacketPayload::DamageReceived { victim, aggressors } => BattleV {
            damage: b.damage + damage_events(victim, aggressors@),
            ..b
        },
        DecodedPacketPayload::EntityCreate(p) => if spec_entity_type(p.entity_type@) == Some(EntityType::Vehicle) {
            BattleV {
                vehicles: entity_set(
                    b.vehicles,
                    p.entity_id,
                    vehicle_updated(vehicle_default(), dict_view(p.props@)),
                ),
                ..b
            }
        } else {
            b
        },
        _ => b,
    }
}

/// The state of a battle as its packets are taken in: the players of the
/// replay's metadata, the chat log, the deaths, the damage dealt and the
/// ships created.
pub struct BattleController {
    version: Version,
    players: Vec<VehicleInfoMeta>,
    seen: Ghost<Seq<(u32, u32, u32, Seq<u8>)>>,
    finishes: Ghost<nat>,
    game_chat: Vec<GameMessage>,
    frags: Vec<Death>,
    damage_dealt: Vec<DamageEvent>,
    vehicles: Vec<(u32, VehicleProps)>,
}

/// The ships of `t`, as values.
pub open spec fn vehicles_view(t: Seq<(u32, VehicleProps)>) -> Seq<(u32, VehiclePropsV)> {
    Seq::new(t.len(), |i: int| (t[i].0, t[i].1@))
}

impl View for BattleController {
    type V = BattleV;

    closed spec fn view(&self) -> BattleV {
        BattleV {
            chat: Seq::new(self.game_chat@.len(), |i: int| message_view(self.game_chat@[i])),
            deaths: self.frags@,
            damage: self.damage_dealt@,
            vehicles: vehicles_view(self.vehicles@),
        }
    }
}

impl BattleController {
    /// The players of the replay's metadata, whose chat messages the
    /// battle names.
    pub closed spec fn players(&self) -> Seq<VehicleInfoMeta> {
        self.players@
    }

    /// The game version whose packet layouts the battle reads.
    pub closed spec fn version(&self) -> Version {
        self.version
    }

    /// A battle among `players`, of game version `version`, in which
    /// nothing has happened yet.
    pub fn new(version: Version, players: Vec<VehicleInfoMeta>) -> (r: Self)
        ensures
            r.players() == players@,
            r.version() == version,
            AnalyzerMut::seen(&r).len() == 0,
            AnalyzerMut::finishes(&r) == 0,
            r@.chat.len() == 0,
            r@.deaths.len() == 0,
            r@.damage.len() == 0,
            r@.vehicles.len() == 0,
    {
        BattleController {
            version,
            players,
            seen: Ghost(Seq::empty()),
            finishes: Ghost(0),
            game_chat: Vec::new(),
            frags: Vec::new(),
            damage_dealt: Vec::new(),
            vehicles: Vec::new(),
        }
    }

    /// The chat log, in order.
    pub fn game_chat(&self) -> (r: &[GameMessage])
        ensures
            r@.len() == self@.chat.len(),
            forall|i: int| 0 <= i < r@.len() ==> message_view(#[trigger] r@[i]) == self@.chat[i],
    {
        self.game_chat.as_slice()
    }

    /// The ships destroyed, in order.
    pub fn frags(&self) -> (r: &[Death])
        ensures
            r@ == self@.deaths,
    {
        self.frags.as_slice()
    }

    /// The damage dealt, in order.
    pub fn damage_dealt(&self) -> (r: &[DamageEvent])
        ensures
            r@ == self@.damage,
    {
        self.damage_dealt.as_slice()
    }

    /// The properties of the ship created as entity `id`, if one was.
    pub fn vehicle(&self, id: u32) -> (r: Option<&VehicleProps>)
        ensures
            match entity_slot(self@.vehicles, id) {
                Some(i) => r matches Some(v) && v@ == self@.vehicles[i].1,
                None => r is None,
            },
    {
        match self.vehicle_slot(id) {
            Some(i) => Some(&self.vehicles[i].1),
            None => None,
        }
    }

    fn vehicle_slot(&self, id: u32) -> (r: Option<usize>)
        ensures
            r matches Some(i) ==> i < self.vehicles@.len(),
            entity_slot(self@.vehicles, id) == match r {
                Some(i) => Some(i as int),
                None => None::<int>,
            },
    {
        let ghost t = self@.vehicles;
        let mut j: usize = self.vehicles.len();
        proof {
            assert(t.subrange(0, j as int) =~= t);
        }
        while j > 0
            invariant
                j <= self.vehicles@.len(),
                t == self@.vehicles,
                t.len() == self.vehicles@.len(),
                entity_slot(t, id) == entity_slot(t.subrange(0, j as int), id),
            decreases j,
        {
            let ghost sub = t.subrange(0, j as int);
            proof {
                assert(sub.drop_last() =~= t.subrange(0, j - 1));
            }
            if self.vehicles[j - 1].0 == id {
                return Some(j - 1);
            }
            j = j - 1;
        }
        None
    }

    /// Whether the battle can take packet `d` in.
    pub fn accepts(&self, d: &DecodedPacket) -> (r: bool)
        ensures
            r == battle_accepts(self.players(), *d),
    {
        match &d.payload {
            DecodedPacketPayload::Chat { sender_id, audience, message, .. } => {
                if *sender_id == 0 {
                    true
                } else {
                    handle_chat_message(&self.players, *sender_id, audience.as_str(), message.as_str()).is_ok()
                }
            },
            DecodedPacketPayload::EntityCreate(p) => match EntityType::parse(p.entity_type.as_str()) {
                None => false,
                Some(t) => {
                    if p.entity_id == 831749 {
                        false
                    } else if t == EntityType::Vehicle {
                        let mut props = VehicleProps::default();
                        props.update_from_args(&p.props).is_ok()
                    } else {
                        true
                    }
                },
            },
            _ => true,
        }
    }

    /// Takes in packet `d`, as [`battle_step`] says.
    pub fn process(&mut self, d: &DecodedPacket)
        requires
            battle_accepts(old(self).players(), *d),
        ensures
            final(self).players() == old(self).players(),
            final(self).version() == old(self).version(),
            AnalyzerMut::seen(final(self)) == AnalyzerMut::seen(old(self)),
            AnalyzerMut::finishes(final(self)) == AnalyzerMut::finishes(old(self)),
            final(self)@ == battle_step(old(self)@, old(self).players(), *d),
    {
        let ghost b0 = self@;
        match &d.payload {
            DecodedPacketPayload::Chat { sender_id, audience, message, .. } => {
                match handle_chat_message(&self.players, *sender_id, audience.as_str(), message.as_str()) {
                    Ok(Some(m)) => {
                        let ghost before = self.game_chat@;
                        self.game_chat.push(m);
                        proof {
                            assert(self@.chat =~= b0.chat.push(message_view(m)));
                        }
                    },
                    _ => {},
                }
            },
            DecodedPacketPayload::ShipDestroyed { killer, victim, cause } => {
                self.frags.push(Death { clock: d.clock, killer: *killer as u32, victim: *victim as u32, cause: *cause });
            },
            DecodedPacketPayload::DamageReceived { victim, aggressors } => {
                let mut k: usize = 0;
                while k < aggressors.len()
                    invariant
                        k <= aggressors@.len(),
                        self.players@ == old(self).players@,
                        self.version == old(self).version,
                        self.seen == old(self).seen,
                        self.finishes == old(self).finishes,
                        self.game_chat@ == old(self).game_chat@,
                        self.frags@ == old(self).frags@,
                        self.vehicles@ == old(self).vehicles@,
                        self.damage_dealt@ == b0.damage + damage_events(*victim, aggressors@.take(k as int)),
                    decreases aggressors@.len() - k,
                {
                    let a = aggressors[k];
                    self.damage_dealt.push(DamageEvent { aggressor: a.aggressor as u32, amount: a.damage, victim: *victim });
                    proof {
                        assert(damage_events(*victim, aggressors@.take(k + 1)) =~= damage_events(
                            *victim,
                            aggressors@.take(k as int),
                        ).push(DamageEvent { aggressor: a.aggressor as u32, amount: a.damage, victim: *victim }));
                    }
                    k = k + 1;
                }
                proof {
                    assert(aggressors@.take(aggressors@.len() as int) =~= aggressors@);
                }
            },
            DecodedPacketPayload::EntityCreate(p) => {
                if EntityType::parse(p.entity_type.as_str()) == Some(EntityType::Vehicle) {
                    let mut props = VehicleProps::default();
                    let _ = props.update_from_args(&p.props);
                    let ghost pv = props@;
                    match self.vehicle_slot(p.entity_id) {
                        Some(i) => {
                            self.vehicles.set(i, (p.entity_id, props));
                            proof {
                                assert(self@.vehicles =~= b0.vehicles.update(i as int, (p.entity_id, pv)));
                            }
                        },
                        None => {
                            self.vehicles.push((p.entity_id, props));
                            proof {
                                assert(self@.vehicles =~= b0.vehicles.push((p.entity_id, pv)));
                            }
                        },
                    }
                }
            },
            _ => {},
        }
    }
}

/// A battle decodes each packet it is handed and takes it in, as
/// [`BattleController::process`] does, where it decodes and the battle
/// accepts it; it passes over any other packet. It keeps a record of every
/// packet it is handed.
impl AnalyzerMut for BattleController {
    open spec fn keeps_record(&self) -> bool {
        true
    }

    closed spec fn seen(&self) -> Seq<(u32, u32, u32, Seq<u8>)> {
        self.seen@
    }

    closed spec fn finishes(&self) -> nat {
        self.finishes@
    }

    fn process_mut(&mut self, packet: &Packet) {
        let mut store = Vec::new();
        let version = self.version;
        match DecodedPacket::decode(&version, packet, &mut store) {
            Ok(d) => {
                if self.accepts(&d) {
                    self.process(&d);
                }
            },
            Err(_) => {},
        }
        self.seen = Ghost(self.seen@.push(frame_of(*packet)));
    }

    fn finish(&mut self) {
        self.finishes = Ghost(self.finishes@ + 1);
    }
}

impl PacketProcessorMut for BattleController {
    open spec fn keeps_record(&self) -> bool {
        true
    }

    closed spec fn received(&self) -> Seq<(u32, u32, u32, Seq<u8>)> {
        self.seen@
    }

    fn process_mut(&mut self, packet: Packet) {
        AnalyzerMut::process_mut(self, &packet);
    }
}

} // verus!
