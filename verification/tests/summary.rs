use wows_replays::analyzer::decoder::{DecodedPacket, DecodedPacketPayload, Ribbon, StatValue};
use wows_replays::analyzer::summary::{Summary, SummaryBuilder};

fn packet(payload: DecodedPacketPayload<'static>) -> DecodedPacket<'static> {
    DecodedPacket { packet_type: 0x8, clock: 0, payload }
}

#[test]
fn new_summary_counts_nothing() {
    let s = SummaryBuilder::new().build();
    assert_eq!(s.ribbon_count(Ribbon::Citadel), 0);
    assert!(s.damage_of((1, 2)).is_none());
}

#[test]
fn each_ribbon_adds_one_to_its_count() {
    let mut s = Summary::new();
    s.record(&packet(DecodedPacketPayload::Ribbon(Ribbon::Citadel))).unwrap();
    s.record(&packet(DecodedPacketPayload::Ribbon(Ribbon::Citadel))).unwrap();
    s.record(&packet(DecodedPacketPayload::Ribbon(Ribbon::TorpedoHit))).unwrap();
    assert_eq!(s.ribbon_count(Ribbon::Citadel), 2);
    assert_eq!(s.ribbon_count(Ribbon::TorpedoHit), 1);
    assert_eq!(s.ribbon_count(Ribbon::Spotted), 0);
}

#[test]
fn unknown_ribbon_has_no_count() {
    let mut s = Summary::new();
    s.record(&packet(DecodedPacketPayload::Ribbon(Ribbon::Citadel))).unwrap();
    assert_eq!(s.ribbon_count(Ribbon::Unknown(77)), 0);
    assert_eq!(s.ribbon_count(Ribbon::Citadel), 1);
}

#[test]
fn latest_damage_statistic_wins() {
    let mut s = Summary::new();
    s.record(&packet(DecodedPacketPayload::DamageStat(vec![
        ((1, 0), (3, StatValue::Int(100))),
        ((2, 0), (1, StatValue::Float(2.5f64.to_bits()))),
    ])))
    .unwrap();
    s.record(&packet(DecodedPacketPayload::DamageStat(vec![((1, 0), (4, StatValue::Int(150)))]))).unwrap();
    assert_eq!(s.damage_of((1, 0)), Some((4, StatValue::Int(150))));
    assert_eq!(s.damage_of((2, 0)), Some((1, StatValue::Float(2.5f64.to_bits()))));
    assert_eq!(s.damage_of((3, 0)), None);
}

#[test]
fn other_packets_change_nothing() {
    let mut s = Summary::new();
    s.record(&packet(DecodedPacketPayload::CameraMode(3))).unwrap();
    assert_eq!(s.ribbon_count(Ribbon::Citadel), 0);
    assert!(s.damage_of((1, 0)).is_none());
}
