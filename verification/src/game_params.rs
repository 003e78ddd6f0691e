//! Game parameters: ship classes, vehicles and commanders, as the game's
//! parameter data describes them.
use vstd::prelude::*;

verus! {

/// The class of a game object; ships are one of six of them.
#[derive(Clone, Debug, PartialEq, Eq)]
pub enum Species {
    AAircraft,
    AbilitiesUnit,
    AirBase,
    AirCarrier,
    Airship,
    AntiAircraft,
    Artillery,
    ArtilleryUnit,
    Auxiliary,
    Battleship,
    Bomb,
    Bomber,
    BuildingType,
    Camoboost,
    Camouflage,
    Campaign,
    CoastalArtillery,
    CollectionAlbum,
    CollectionCard,
    Complex,
    Cruiser,
    DCharge,
    DeathSettings,
    DepthCharge,
    Destroyer,
    Dive,
    DiveBomberTypeUnit,
    DogTagDoll,
    DogTagItem,
    DogTagSlotsScheme,
    DogTagUnique,
    Drop,
    DropVisual,
    EngineUnit,
    Ensign,
    Event,
    Fake,
    Fighter,
    FighterTypeUnit,
    FireControl,
    Flags,
    FlightControlUnit,
    Generator,
    GlobalWeather,
    Globalboost,
    Hull,
    HullUnit,
    IndividualTask,
    Laser,
    LocalWeather,
    MSkin,
    Main,
    MapBorder,
    Military,
    Mine,
    Mission,
    Modifier,
    Multiboost,
    NewbieQuest,
    Operation,
    Permoflage,
    PlaneTracer,
    PrimaryWeaponsUnit,
    RayTower,
    Rocket,
    Scout,
    Search,
    Secondary,
    SecondaryWeaponsUnit,
    SensorTower,
    Sinking,
    Skin,
    Skip,
    SkipBomb,
    SkipBomberTypeUnit,
    SonarUnit,
    SpaceStation,
    Submarine,
    SuoUnit,
    Task,
    Torpedo,
    TorpedoBomberTypeUnit,
    TorpedoesUnit,
    Upgrade,
    Wave,
    Null,
    Unknown(String),
}

/// The name of a species: the variant's own name, but for two that the
/// game writes otherwise; an unknown species is named `Unknown`.
pub open spec fn spec_species_name(s: Species) -> Seq<char> {
    match s {
        Species::AAircraft => "AAircraft"@,
        Species::AbilitiesUnit => "AbilitiesUnit"@,
        Species::AirBase => "AirBase"@,
        Species::AirCarrier => "AirCarrier"@,
        Species::Airship => "Airship"@,
        Species::AntiAircraft => "AntiAircraft"@,
        Species::Artillery => "Artillery"@,
        Species::ArtilleryUnit => "ArtilleryUnit"@,
        Species::Auxiliary => "Auxiliary"@,
        Species::Battleship => "Battleship"@,
        Species::Bomb => "Bomb"@,
        Species::Bomber => "Bomber"@,
        Species::BuildingType => "BuildingType"@,
        Species::Camoboost => "Camoboost"@,
        Species::Camouflage => "Camouflage"@,
        Species::Campaign => "Campaign"@,
        Species::CoastalArtillery => "CoastalArtillery"@,
        Species::CollectionAlbum => "CollectionAlbum"@,
        Species::CollectionCard => "CollectionCard"@,
        Species::Complex => "Complex"@,
        Species::Cruiser => "Cruiser"@,
        Species::DCharge => "DCharge"@,
        Species::DeathSettings => "DeathSettings"@,
        Species::DepthCharge => "DepthCharge"@,
        Species::Destroyer => "Destroyer"@,
        Species::Dive => "Dive"@,
        Species::DiveBomberTypeUnit => "DiveBomberTypeUnit"@,
        Species::DogTagDoll => "DogTagDoll"@,
        Species::DogTagItem => "DogTagItem"@,
        Species::DogTagSlotsScheme => "DogTagSlotsScheme"@,
        Species::DogTagUnique => "DogTagUnique"@,
        Species::Drop => "Drop"@,
        Species::DropVisual => "DropVisual"@,
        Species::EngineUnit => "EngineUnit"@,
        Species::Ensign => "Ensign"@,
        Species::Event => "Event"@,
        Species::Fake => "Fake"@,
        Species::Fighter => "Fighter"@,
        Species::FighterTypeUnit => "FighterTypeUnit"@,
        Species::FireControl => "Fire control"@,
        Species::Flags => "Flags"@,
        Species::FlightControlUnit => "FlightControlUnit"@,
        Species::Generator => "Generator"@,
        Species::GlobalWeather => "GlobalWeather"@,
        Species::Globalboost => "Globalboost"@,
        Species::Hull => "Hull"@,
        Species::HullUnit => "HullUnit"@,
        Species::IndividualTask => "IndividualTask"@,
        Species::Laser => "Laser"@,
        Species::LocalWeather => "LocalWeather"@,
        Species::MSkin => "MSkin"@,
        Species::Main => "Main"@,
        Species::MapBorder => "MapBorder"@,
        Species::Military => "Military"@,
        Species::Mine => "Mine"@,
        Species::Mission => "Mission"@,
        Species::Modifier => "Modifier"@,
        Species::Multiboost => "Multiboost"@,
        Species::NewbieQuest => "NewbieQuest"@,
        Species::Operation => "Operation"@,
        Species::Permoflage => "Permoflage"@,
        Species::PlaneTracer => "PlaneTracer"@,
        Species::PrimaryWeaponsUnit => "PrimaryWeaponsUnit"@,
        Species::RayTower => "RayTower"@,
        Species::Rocket => "Rocket"@,
        Species::Scout => "Scout"@,
        Species::Search => "Search"@,
        Species::Secondary => "Secondary"@,
        Species::SecondaryWeaponsUnit => "SecondaryWeaponsUnit"@,
        Species::SensorTower => "SensorTower"@,
        Species::Sinking => "Sinking"@,
        Species::Skin => "Skin"@,
        Species::Skip => "Skip"@,
        Species::SkipBomb => "SkipBomb"@,
        Species::SkipBomberTypeUnit => "SkipBomberTypeUnit"@,
        Species::SonarUnit => "SonarUnit"@,
        Species::SpaceStation => "SpaceStation"@,
        Species::Submarine => "Submarine"@,
        Species::SuoUnit => "SuoUnit"@,
        Species::Task => "Task"@,
        Species::Torpedo => "Torpedo"@,
        Species::TorpedoBomberTypeUnit => "TorpedoBomberTypeUnit"@,
        Species::TorpedoesUnit => "TorpedoesUnit"@,
        Species::Upgrade => "Upgrade"@,
        Species::Wave => "Wave"@,
        Species::Null => "null"@,
        Species::Unknown(_) => "Unknown"@,
    }
}

impl Species {
    /// The name of this species, as [`spec_species_name`] says.
    pub fn name(&self) -> (r: &'static str)
        ensures
            r@ == spec_species_name(*self),
    {
        match self {
            Species::AAircraft => "AAircraft",
            Species::AbilitiesUnit => "AbilitiesUnit",
            Species::AirBase => "AirBase",
            Species::AirCarrier => "AirCarrier",
            Species::Airship => "Airship",
            Species::AntiAircraft => "AntiAircraft",
            Species::Artillery => "Artillery",
            Species::ArtilleryUnit => "ArtilleryUnit",
            Species::Auxiliary => "Auxiliary",
            Species::Battleship => "Battleship",
            Species::Bomb => "Bomb",
            Species::Bomber => "Bomber",
            Species::BuildingType => "BuildingType",
            Species::Camoboost => "Camoboost",
            Species::Camouflage => "Camouflage",
            Species::Campaign => "Campaign",
            Species::CoastalArtillery => "CoastalArtillery",
            Species::CollectionAlbum => "CollectionAlbum",
            Species::CollectionCard => "CollectionCard",
            Species::Complex => "Complex",
            Species::Cruiser => "Cruiser",
            Species::DCharge => "DCharge",
            Species::DeathSettings => "DeathSettings",
            Species::DepthCharge => "DepthCharge",
            Species::Destroyer => "Destroyer",
            Species::Dive => "Dive",
            Species::DiveBomberTypeUnit => "DiveBomberTypeUnit",
            Species::DogTagDoll => "DogTagDoll",
            Species::DogTagItem => "DogTagItem",
            Species::DogTagSlotsScheme => "DogTagSlotsScheme",
            Species::DogTagUnique => "DogTagUnique",
            Species::Drop => "Drop",
            Species::DropVisual => "DropVisual",
            Species::EngineUnit => "EngineUnit",
            Species::Ensign => "Ensign",
            Species::Event => "Event",
            Species::Fake => "Fake",
            Species::Fighter => "Fighter",
            Species::FighterTypeUnit => "FighterTypeUnit",
            Species::FireControl => "Fire control",
            Species::Flags => "Flags",
            Species::FlightControlUnit => "FlightControlUnit",
            Species::Generator => "Generator",
            Species::GlobalWeather => "GlobalWeather",
            Species::Globalboost => "Globalboost",
            Species::Hull => "Hull",
            Species::HullUnit => "HullUnit",
            Species::IndividualTask => "IndividualTask",
            Species::Laser => "Laser",
            Species::LocalWeather => "LocalWeather",
            Species::MSkin => "MSkin",
            Species::Main => "Main",
            Species::MapBorder => "MapBorder",
            Species::Military => "Military",
            Species::Mine => "Mine",
            Species::Mission => "Mission",
            Species::Modifier => "Modifier",
            Species::Multiboost => "Multiboost",
            Species::NewbieQuest => "NewbieQuest",
            Species::Operation => "Operation",
            Species::Permoflage => "Permoflage",
            Species::PlaneTracer => "PlaneTracer",
            Species::PrimaryWeaponsUnit => "PrimaryWeaponsUnit",
            Species::RayTower => "RayTower",
            Species::Rocket => "Rocket",
            Species::Scout => "Scout",
            Species::Search => "Search",
            Species::Secondary => "Secondary",
            Species::SecondaryWeaponsUnit => "SecondaryWeaponsUnit",
            Species::SensorTower => "SensorTower",
            Species::Sinking => "Sinking",
            Species::Skin => "Skin",
            Species::Skip => "Skip",
            Species::SkipBomb => "SkipBomb",
            Species::SkipBomberTypeUnit => "SkipBomberTypeUnit",
            Species::SonarUnit => "SonarUnit",
            Species::SpaceStation => "SpaceStation",
            Species::Submarine => "Submarine",
            Species::SuoUnit => "SuoUnit",
            Species::Task => "Task",
            Species::Torpedo => "Torpedo",
            Species::TorpedoBomberTypeUnit => "TorpedoBomberTypeUnit",
            Species::TorpedoesUnit => "TorpedoesUnit",
            Species::Upgrade => "Upgrade",
            Species::Wave => "Wave",
            Species::Null => "null",
            Species::Unknown(_) => "Unknown",
        }
    }

    /// The localisation id of this species: `IDS_` followed by its name.
    pub fn translation_id(&self) -> (r: String)
        ensures
            r@ == "IDS_"@ + spec_species_name(*self),
    {
        let mut r = "IDS_".to_owned();
        r.append(self.name());
        r
    }
}

/// The kind of a game parameter.
#[derive(Clone, Copy, Debug, PartialEq, Eq, Structural)]
pub enum ParamType {
    Ability,
    Achievement,
    AdjustmentShotActivator,
    Aircraft,
    BattleScript,
    Building,
    Campaign,
    Catapult,
    ClanSupply,
    Collection,
    Component,
    Crew,
    Director,
    DogTag,
    EventTrigger,
    Exterior,
    Finder,
    Gun,
    Modernization,
    Other,
    Projectile,
    Radar,
    RageModeProgressAction,
    Reward,
    RibbonActivator,
    Sfx,
    Ship,
    SwitchTrigger,
    SwitchVehicleVisualStateAction,
    TimerActivator,
    ToggleTriggerAction,
    Unit,
    VisibilityChangedActivator,
}

/// The parameter type named `s` (the variant's own name).
pub open spec fn spec_param_type(s: Seq<char>) -> Option<ParamType> {
    if s == "Ability"@ {
        Some(ParamType::Ability)
    } else if s == "Achievement"@ {
        Some(ParamType::Achievement)
    } else if s == "AdjustmentShotActivator"@ {
        Some(ParamType::AdjustmentShotActivator)
    } else if s == "Aircraft"@ {
        Some(ParamType::Aircraft)
    } else if s == "BattleScript"@ {
        Some(ParamType::BattleScript)
    } else if s == "Building"@ {
        Some(ParamType::Building)
    } else if s == "Campaign"@ {
        Some(ParamType::Campaign)
    } else if s == "Catapult"@ {
        Some(ParamType::Catapult)
    } else if s == "ClanSupply"@ {
        Some(ParamType::ClanSupply)
    } else if s == "Collection"@ {
        Some(ParamType::Collection)
    } else if s == "Component"@ {
        Some(ParamType::Component)
    } else if s == "Crew"@ {
        Some(ParamType::Crew)
    } else if s == "Director"@ {
        Some(ParamType::Director)
    } else if s == "DogTag"@ {
        Some(ParamType::DogTag)
    } else if s == "EventTrigger"@ {
        Some(ParamType::EventTrigger)
    } else if s == "Exterior"@ {
        Some(ParamType::Exterior)
    } else if s == "Finder"@ {
        Some(ParamType::Finder)
    } else if s == "Gun"@ {
        Some(ParamType::Gun)
    } else if s == "Modernization"@ {
        Some(ParamType::Modernization)
    } else if s == "Other"@ {
        Some(ParamType::Other)
    } else if s == "Projectile"@ {
        Some(ParamType::Projectile)
    } else if s == "Radar"@ {
        Some(ParamType::Radar)
    } else if s == "RageModeProgressAction"@ {
        Some(ParamType::RageModeProgressAction)
    } else if s == "Reward"@ {
        Some(ParamType::Reward)
    } else if s == "RibbonActivator"@ {
        Some(ParamType::RibbonActivator)
    } else if s == "Sfx"@ {
        Some(ParamType::Sfx)
    } else if s == "Ship"@ {
        Some(ParamType::Ship)
    } else if s == "SwitchTrigger"@ {
        Some(ParamType::SwitchTrigger)
    } else if s == "SwitchVehicleVisualStateAction"@ {
        Some(ParamType::SwitchVehicleVisualStateAction)
    } else if s == "TimerActivator"@ {
        Some(ParamType::TimerActivator)
    } else if s == "ToggleTriggerAction"@ {
        Some(ParamType::ToggleTriggerAction)
    } else if s == "Unit"@ {
        Some(ParamType::Unit)
    } else if s == "VisibilityChangedActivator"@ {
        Some(ParamType::VisibilityChangedActivator)
    } else {
        None
    }
}

impl ParamType {
    /// The parameter type named `s`, as [`spec_param_type`] says.
    pub fn parse(s: &str) -> (r: Option<ParamType>)
        ensures
            r == spec_param_type(s@),
    {
        if crate::text::str_eq(s, "Ability") {
            Some(ParamType::Ability)
        } else if crate::text::str_eq(s, "Achievement") {
            Some(ParamType::Achievement)
        } else if crate::text::str_eq(s, "AdjustmentShotActivator") {
            Some(ParamType::AdjustmentShotActivator)
        } else if crate::text::str_eq(s, "Aircraft") {
            Some(ParamType::Aircraft)
        } else if crate::text::str_eq(s, "BattleScript") {
            Some(ParamType::BattleScript)
        } else if crate::text::str_eq(s, "Building") {
            Some(ParamType::Building)
        } else if crate::text::str_eq(s, "Campaign") {
            Some(ParamType::Campaign)
        } else if crate::text::str_eq(s, "Catapult") {
            Some(ParamType::Catapult)
        } else if crate::text::str_eq(s, "ClanSupply") {
            Some(ParamType::ClanSupply)
        } else if crate::text::str_eq(s, "Collection") {
            Some(ParamType::Collection)
        } else if crate::text::str_eq(s, "Component") {
            Some(ParamType::Component)
        } else if crate::text::str_eq(s, "Crew") {
            Some(ParamType::Crew)
        } else if crate::text::str_eq(s, "Director") {
            Some(ParamType::Director)
        } else if crate::text::str_eq(s, "DogTag") {
            Some(ParamType::DogTag)
        } else if crate::text::str_eq(s, "EventTrigger") {
            Some(ParamType::EventTrigger)
        } else if crate::text::str_eq(s, "Exterior") {
            Some(ParamType::Exterior)
        } else if crate::text::str_eq(s, "Finder") {
            Some(ParamType::Finder)
        } else if crate::text::str_eq(s, "Gun") {
            Some(ParamType::Gun)
        } else if crate::text::str_eq(s, "Modernization") {
            Some(ParamType::Modernization)
        } else if crate::text::str_eq(s, "Other") {
            Some(ParamType::Other)
        } else if crate::text::str_eq(s, "Projectile") {
            Some(ParamType::Projectile)
        } else if crate::text::str_eq(s, "Radar") {
            Some(ParamType::Radar)
        } else if crate::text::str_eq(s, "RageModeProgressAction") {
            Some(ParamType::RageModeProgressAction)
        } else if crate::text::str_eq(s, "Reward") {
            Some(ParamType::Reward)
        } else if crate::text::str_eq(s, "RibbonActivator") {
            Some(ParamType::RibbonActivator)
        } else if crate::text::str_eq(s, "Sfx") {
            Some(ParamType::Sfx)
        } else if crate::text::str_eq(s, "Ship") {
            Some(ParamType::Ship)
        } else if crate::text::str_eq(s, "SwitchTrigger") {
            Some(ParamType::SwitchTrigger)
        } else if crate::text::str_eq(s, "SwitchVehicleVisualStateAction") {
            Some(ParamType::SwitchVehicleVisualStateAction)
        } else if crate::text::str_eq(s, "TimerActivator") {
            Some(ParamType::TimerActivator)
        } else if crate::text::str_eq(s, "ToggleTriggerAction") {
            Some(ParamType::ToggleTriggerAction)
        } else if crate::text::str_eq(s, "Unit") {
            Some(ParamType::Unit)
        } else if crate::text::str_eq(s, "VisibilityChangedActivator") {
            Some(ParamType::VisibilityChangedActivator)
        } else {
            None
        }
    }
}

/// A ship: its tier, its class group and its consumable slots.
#[derive(Clone, Debug)]
pub struct Vehicle {
    pub level: u32,
    pub group: String,
    pub abilities: Vec<Vec<(String, String)>>,
}

impl Vehicle {
    pub fn level(&self) -> (r: u32)
        ensures
            r == self.level,
    {
        self.level
    }

    pub fn group(&self) -> (r: &str)
        ensures
            r@ == self.group@,
    {
        self.group.as_str()
    }
}

/// The ships, nations and peculiarities a commander is restricted to.
#[derive(Clone, Debug)]
pub struct CrewPersonalityShips {
    pub groups: Vec<String>,
    pub nation: Vec<String>,
    pub peculiarity: Vec<String>,
    pub ships: Vec<String>,
}

/// The fixed traits of a commander.
#[derive(Clone, Debug)]
pub struct CrewPersonality {
    pub can_reset_skills_for_free: bool,
    pub cost_credits: usize,
    pub cost_elite_xp: usize,
    pub cost_gold: usize,
    pub cost_xp: usize,
    pub has_custom_background: bool,
    pub has_overlay: bool,
    pub has_rank: bool,
    pub has_sample_voiceover: bool,
    pub is_animated: bool,
    pub is_person: bool,
    pub is_retrainable: bool,
    pub is_unique: bool,
    pub peculiarity: String,
    pub permissions: u32,
    pub person_name: String,
    pub ships: CrewPersonalityShips,
    pub subnation: String,
    pub tags: Vec<String>,
}

/// Whether a species is one of the six ship classes.
pub open spec fn is_ship_class(s: Species) -> bool {
    s is AirCarrier || s is Battleship || s is Cruiser || s is Destroyer || s is Submarine || s is Auxiliary
}

/// The tier of a commander skill, per ship class.
#[derive(Clone, Copy, Debug, PartialEq, Eq, Structural)]
pub struct CrewSkillTiers {
    pub aircraft_carrier: usize,
    pub auxiliary: usize,
    pub battleship: usize,
    pub cruiser: usize,
    pub destroyer: usize,
    pub submarine: usize,
}

impl CrewSkillTiers {
    /// The tier for ship class `species`.
    pub fn get_for_species(&self, species: Species) -> (r: usize)
        requires
            is_ship_class(species),
        ensures
            r == match species {
                Species::AirCarrier => self.aircraft_carrier,
                Species::Battleship => self.battleship,
                Species::Cruiser => self.cruiser,
                Species::Destroyer => self.destroyer,
                Species::Submarine => self.submarine,
                _ => self.auxiliary,
            },
    {
        match species {
            Species::AirCarrier => self.aircraft_carrier,
            Species::Battleship => self.battleship,
            Species::Cruiser => self.cruiser,
            Species::Destroyer => self.destroyer,
            Species::Submarine => self.submarine,
            _ => self.auxiliary,
        }
    }

    pub fn aircraft_carrier(&self) -> (r: usize)
        ensures
            r == self.aircraft_carrier,
    {
        self.aircraft_carrier
    }

    pub fn auxiliary(&self) -> (r: usize)
        ensures
            r == self.auxiliary,
    {
        self.auxiliary
    }

    pub fn battleship(&self) -> (r: usize)
        ensures
            r == self.battleship,
    {
        self.battleship
    }

    pub fn cruiser(&self) -> (r: usize)
        ensures
            r == self.cruiser,
    {
        self.cruiser
    }

    pub fn destroyer(&self) -> (r: usize)
        ensures
            r == self.destroyer,
    {
        self.destroyer
    }

    pub fn submarine(&self) -> (r: usize)
        ensures
            r == self.submarine,
    {
        self.submarine
    }
}

} // verus!
