//! The keys of a player's entries in the arena state of recent game
//! versions.
use vstd::prelude::*;

verus! {

/// A key of a player's entries in the arena state, as the game numbers
/// them (from 0, in this order).
#[derive(Debug, Clone, Copy, PartialEq, Eq, Structural)]
pub enum ReplayPlayerProperty {
    AccountId,
    AntiAbuseEnabled,
    AvatarId,
    CamouflageInfo,
    ClanColor,
    ClanId,
    ClanTag,
    CrewParams,
    DogTag,
    FragsCount,
    FriendlyFireEnabled,
    Id,
    InvitationsEnabled,
    IsAbuser,
    IsAlive,
    IsBot,
    IsClientLoaded,
    IsConnected,
    IsHidden,
    IsLeaver,
    IsPreBattleOwner,
    IsTShooter,
    KilledBuildingsCount,
    IsCookie,
    MaxHealth,
    Name,
    PlayerMode,
    PreBattleIdOnStart,
    PreBattleSign,
    PreBattleId,
    Realm,
    ShipComponents,
    ShipConfigDump,
    ShipId,
    ShipParamsId,
    SkinId,
    TeamId,
    TtkStatus,
}

/// The number of a key.
pub open spec fn property_key(p: ReplayPlayerProperty) -> i64 {
    match p {
        ReplayPlayerProperty::AccountId => 0,
        ReplayPlayerProperty::AntiAbuseEnabled => 1,
        ReplayPlayerProperty::AvatarId => 2,
        ReplayPlayerProperty::CamouflageInfo => 3,
        ReplayPlayerProperty::ClanColor => 4,
        ReplayPlayerProperty::ClanId => 5,
        ReplayPlayerProperty::ClanTag => 6,
        ReplayPlayerProperty::CrewParams => 7,
        ReplayPlayerProperty::DogTag => 8,
        ReplayPlayerProperty::FragsCount => 9,
        ReplayPlayerProperty::FriendlyFireEnabled => 10,
        ReplayPlayerProperty::Id => 11,
        ReplayPlayerProperty::InvitationsEnabled => 12,
        ReplayPlayerProperty::IsAbuser => 13,
        ReplayPlayerProperty::IsAlive => 14,
        ReplayPlayerProperty::IsBot => 15,
        ReplayPlayerProperty::IsClientLoaded => 16,
        ReplayPlayerProperty::IsConnected => 17,
        ReplayPlayerProperty::IsHidden => 18,
        ReplayPlayerProperty::IsLeaver => 19,
        ReplayPlayerProperty::IsPreBattleOwner => 20,
        ReplayPlayerProperty::IsTShooter => 21,
        ReplayPlayerProperty::KilledBuildingsCount => 22,
        ReplayPlayerProperty::IsCookie => 23,
        ReplayPlayerProperty::MaxHealth => 24,
        ReplayPlayerProperty::Name => 25,
        ReplayPlayerProperty::PlayerMode => 26,
        ReplayPlayerProperty::PreBattleIdOnStart => 27,
        ReplayPlayerProperty::PreBattleSign => 28,
        ReplayPlayerProperty::PreBattleId => 29,
        ReplayPlayerProperty::Realm => 30,
        ReplayPlayerProperty::ShipComponents => 31,
        ReplayPlayerProperty::ShipConfigDump => 32,
        ReplayPlayerProperty::ShipId => 33,
        ReplayPlayerProperty::ShipParamsId => 34,
        ReplayPlayerProperty::SkinId => 35,
        ReplayPlayerProperty::TeamId => 36,
        ReplayPlayerProperty::TtkStatus => 37,
    }
}

impl From<ReplayPlayerProperty> for i64 {
    fn from(p: ReplayPlayerProperty) -> (r: i64) {
        match p {
            ReplayPlayerProperty::AccountId => 0,
            ReplayPlayerProperty::AntiAbuseEnabled => 1,
            ReplayPlayerProperty::AvatarId => 2,
            ReplayPlayerProperty::CamouflageInfo => 3,
            ReplayPlayerProperty::ClanColor => 4,
            ReplayPlayerProperty::ClanId => 5,
            ReplayPlayerProperty::ClanTag => 6,
            ReplayPlayerProperty::CrewParams => 7,
            ReplayPlayerProperty::DogTag => 8,
            ReplayPlayerProperty::FragsCount => 9,
            ReplayPlayerProperty::FriendlyFireEnabled => 10,
            ReplayPlayerProperty::Id => 11,
            ReplayPlayerProperty::InvitationsEnabled => 12,
            ReplayPlayerProperty::IsAbuser => 13,
            ReplayPlayerProperty::IsAlive => 14,
            ReplayPlayerProperty::IsBot => 15,
            ReplayPlayerProperty::IsClientLoaded => 16,
            ReplayPlayerProperty::IsConnected => 17,
            ReplayPlayerProperty::IsHidden => 18,
            ReplayPlayerProperty::IsLeaver => 19,
            ReplayPlayerProperty::IsPreBattleOwner => 20,
            ReplayPlayerProperty::IsTShooter => 21,
            ReplayPlayerProperty::KilledBuildingsCount => 22,
            ReplayPlayerProperty::IsCookie => 23,
            ReplayPlayerProperty::MaxHealth => 24,
            ReplayPlayerProperty::Name => 25,
            ReplayPlayerProperty::PlayerMode => 26,
            ReplayPlayerProperty::PreBattleIdOnStart => 27,
            ReplayPlayerProperty::PreBattleSign => 28,
            ReplayPlayerProperty::PreBattleId => 29,
            ReplayPlayerProperty::Realm => 30,
            ReplayPlayerProperty::ShipComponents => 31,
            ReplayPlayerProperty::ShipConfigDump => 32,
            ReplayPlayerProperty::ShipId => 33,
            ReplayPlayerProperty::ShipParamsId => 34,
            ReplayPlayerProperty::SkinId => 35,
            ReplayPlayerProperty::TeamId => 36,
            ReplayPlayerProperty::TtkStatus => 37,
        }
    }
}

impl vstd::std_specs::convert::FromSpecImpl<ReplayPlayerProperty> for i64 {
    open spec fn obeys_from_spec() -> bool {
        true
    }

    open spec fn from_spec(p: ReplayPlayerProperty) -> i64 {
        property_key(p)
    }
}

} // verus!
