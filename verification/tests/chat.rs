use wows_replays::analyzer::chat::{ChatLine, ChatLoggerBuilder};
use wows_replays::analyzer::decoder::{
    DecodedPacket, DecodedPacketPayload, OnArenaStateReceivedPlayer, VoiceLine,
};
use wows_replays::wowsreplay::ReplayMeta;

fn meta(version: &str) -> ReplayMeta {
    ReplayMeta {
        matchGroup: "pvp".to_string(),
        gameMode: 7,
        clientVersionFromExe: version.to_string(),
        scenarioUiCategoryId: 0,
        mapDisplayName: "map".to_string(),
        mapId: 1,
        clientVersionFromXml: String::new(),
        weatherParams: vec![],
        duration: 1200,
        gameLogic: None,
        name: String::new(),
        scenario: String::new(),
        playerID: 0,
        vehicles: vec![],
        playersPerTeam: 12,
        dateTime: String::new(),
        mapName: String::new(),
        playerName: String::new(),
        scenarioConfigId: 0,
        teamsCount: 2,
        logic: None,
        playerVehicle: String::new(),
        battleDuration: 1200,
    }
}

fn player(name: &str, avatar: i64) -> OnArenaStateReceivedPlayer<'static> {
    OnArenaStateReceivedPlayer {
        username: name.to_string(),
        clan: String::new(),
        avatarid: avatar,
        shipid: 0,
        playerid: 0,
        teamid: 0,
        health: 0,
        raw: vec![],
    }
}

fn arena(players: Vec<OnArenaStateReceivedPlayer<'static>>) -> DecodedPacket<'static> {
    DecodedPacket {
        packet_type: 0x8,
        clock: 0,
        payload: DecodedPacketPayload::OnArenaStateReceived { arg0: 0, arg1: 0, arg2: vec![], players },
    }
}

#[test]
fn logger_needs_a_readable_version() {
    assert!(ChatLoggerBuilder::new().build(&meta("0,10,9,0")).is_ok());
    assert!(ChatLoggerBuilder::new().build(&meta("0.10.9")).is_err());
}

#[test]
fn chat_lines_name_their_senders() {
    let mut log = ChatLoggerBuilder::new().build(&meta("0,10,9,0")).unwrap();
    assert!(log.observe(&arena(vec![player("alice", 5), player("bob", 6)])).unwrap().is_none());
    let msg = DecodedPacket {
        packet_type: 0x8,
        clock: 12.5f32.to_bits(),
        payload: DecodedPacketPayload::Chat {
            entity_id: 1,
            sender_id: 6,
            audience: "battle_team".to_string(),
            message: "hi".to_string(),
        },
    };
    match log.observe(&msg).unwrap() {
        Some(ChatLine::Message { clock, sender, audience, message }) => {
            assert_eq!(f32::from_bits(clock), 12.5);
            assert_eq!(sender, "bob");
            assert_eq!(audience, "battle_team");
            assert_eq!(message, "hi");
        }
        other => panic!("{:?}", other),
    }
    let voice = DecodedPacket {
        packet_type: 0x8,
        clock: 0,
        payload: DecodedPacketPayload::VoiceLine { sender_id: 5, is_global: false, message: VoiceLine::Wilco },
    };
    match log.observe(&voice).unwrap() {
        Some(ChatLine::Voice { sender, line, .. }) => {
            assert_eq!(sender, "alice");
            assert_eq!(line, VoiceLine::Wilco);
        }
        other => panic!("{:?}", other),
    }
}

#[test]
fn later_arena_state_renames_a_player() {
    let mut log = ChatLoggerBuilder::new().build(&meta("0,10,9,0")).unwrap();
    log.observe(&arena(vec![player("alice", 5)])).unwrap();
    log.observe(&arena(vec![player("alice2", 5)])).unwrap();
    let msg = DecodedPacket {
        packet_type: 0x8,
        clock: 0,
        payload: DecodedPacketPayload::Chat {
            entity_id: 1,
            sender_id: 5,
            audience: "battle_common".to_string(),
            message: "x".to_string(),
        },
    };
    match log.observe(&msg).unwrap() {
        Some(ChatLine::Message { sender, .. }) => assert_eq!(sender, "alice2"),
        other => panic!("{:?}", other),
    }
}

#[test]
fn message_from_unknown_sender_is_an_error() {
    let mut log = ChatLoggerBuilder::new().build(&meta("0,10,9,0")).unwrap();
    let msg = DecodedPacket {
        packet_type: 0x8,
        clock: 0,
        payload: DecodedPacketPayload::Chat {
            entity_id: 1,
            sender_id: 9,
            audience: "battle_common".to_string(),
            message: "x".to_string(),
        },
    };
    assert!(log.observe(&msg).is_err());
}

#[test]
fn avatar_id_out_of_range_is_an_error() {
    let mut log = ChatLoggerBuilder::new().build(&meta("0,10,9,0")).unwrap();
    assert!(log.observe(&arena(vec![player("x", 1i64 << 40)])).is_err());
}
