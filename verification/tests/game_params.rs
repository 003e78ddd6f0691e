use wows_replays::game_params::{CrewSkillTiers, ParamType, Species, Vehicle};

#[test]
fn species_names_and_translation_ids() {
    assert_eq!(Species::Battleship.name(), "Battleship");
    assert_eq!(Species::AirCarrier.translation_id(), "IDS_AirCarrier");
    assert_eq!(Species::Unknown("Whatever".to_string()).name(), "Unknown");
}

#[test]
fn param_types_are_parsed_by_name() {
    assert_eq!(ParamType::parse("Ship"), Some(ParamType::Ship));
    assert_eq!(ParamType::parse("Crew"), Some(ParamType::Crew));
    assert_eq!(ParamType::parse("NotAType"), None);
}

#[test]
fn vehicle_accessors() {
    let v = Vehicle { level: 8, group: "start".to_string(), abilities: vec![] };
    assert_eq!(v.level(), 8);
    assert_eq!(v.group(), "start");
}

#[test]
fn skill_tier_per_ship_class() {
    let t = CrewSkillTiers { aircraft_carrier: 1, auxiliary: 2, battleship: 3, cruiser: 4, destroyer: 5, submarine: 6 };
    assert_eq!(t.get_for_species(Species::AirCarrier), 1);
    assert_eq!(t.get_for_species(Species::Auxiliary), 2);
    assert_eq!(t.get_for_species(Species::Battleship), 3);
    assert_eq!(t.get_for_species(Species::Cruiser), 4);
    assert_eq!(t.get_for_species(Species::Destroyer), 5);
    assert_eq!(t.get_for_species(Species::Submarine), 6);
    assert_eq!(t.cruiser(), 4);
}
