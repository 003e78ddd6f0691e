use wows_replays::analyzer::decoder::{DecodedPacket, DecodedPacketPayload, OnArenaStateReceivedPlayer};
use wows_replays::error::ErrorKind;
use wows_replays::replay_info::{hello, ReplayInfo};
use wows_replays::wowsreplay::ReplayMeta;

fn meta(version: &str) -> ReplayMeta {
    ReplayMeta {
        matchGroup: String::new(),
        gameMode: 0,
        clientVersionFromExe: version.to_string(),
        scenarioUiCategoryId: 0,
        mapDisplayName: "Ocean".to_string(),
        mapId: 0,
        clientVersionFromXml: String::new(),
        weatherParams: vec![],
        duration: 0,
        gameLogic: None,
        name: String::new(),
        scenario: String::new(),
        playerID: 0,
        vehicles: vec![],
        playersPerTeam: 0,
        dateTime: "01.02.2021 12:00:00".to_string(),
        mapName: String::new(),
        playerName: "me".to_string(),
        scenarioConfigId: 0,
        teamsCount: 0,
        logic: None,
        playerVehicle: "PASB001".to_string(),
        battleDuration: 0,
    }
}

fn player(name: &str, team: i64) -> OnArenaStateReceivedPlayer<'static> {
    OnArenaStateReceivedPlayer {
        username: name.to_string(),
        clan: String::new(),
        avatarid: 0,
        shipid: 0,
        playerid: 0,
        teamid: team,
        health: 0,
        raw: vec![],
    }
}

fn decoded(payload: DecodedPacketPayload<'static>) -> Result<DecodedPacket<'static>, ErrorKind> {
    Ok(DecodedPacket { packet_type: 0x8, clock: 0, payload })
}

#[test]
fn entry_comes_from_the_metadata() {
    let info = ReplayInfo::new("r/a.wowsreplay".to_string(), "a.wowsreplay".to_string(), &meta("0,10,9,0")).unwrap();
    assert_eq!(info.username, "me");
    assert_eq!(info.map, "Ocean");
    assert_eq!(info.ship, "PASB001");
    assert_eq!(info.version.minor, 10);
    assert_eq!(info.victory, None);
    assert_eq!(info.num_packets, 0);
    assert_eq!(info.player_team, -1);
    assert!(ReplayInfo::new(String::new(), String::new(), &meta("bad")).is_err());
}

#[test]
fn victory_follows_the_players_team() {
    let mut info = ReplayInfo::new(String::new(), String::new(), &meta("0,10,9,0")).unwrap();
    info.process(&decoded(DecodedPacketPayload::BattleEnd { winning_team: 1, unknown: 0 }));
    assert_eq!(info.victory, None);
    info.process(&decoded(DecodedPacketPayload::OnArenaStateReceived {
        arg0: 0,
        arg1: 0,
        arg2: vec![],
        players: vec![player("other", 0), player("me", 1), player("me", 0)],
    }));
    assert_eq!(info.player_team, 1);
    info.process(&Err(ErrorKind::UnexpectedEof));
    info.process(&decoded(DecodedPacketPayload::BattleEnd { winning_team: 1, unknown: 0 }));
    assert_eq!(info.victory, Some(true));
    info.process(&decoded(DecodedPacketPayload::BattleEnd { winning_team: 0, unknown: 0 }));
    assert_eq!(info.victory, Some(false));
    assert_eq!(info.num_packets, 5);
}

#[test]
fn download_name_joins_the_fields_and_a_hash_prefix() {
    let mut info = ReplayInfo::new("/r/x.wowsreplay".to_string(), "20200605_183626_PASB008".to_string(), &meta("0,10,9,0")).unwrap();
    info.date = "05.06.2020 18:36:26".to_string();
    info.ship = "PASB008".to_string();
    info.map = "Ocean".to_string();
    info.username = "me".to_string();
    assert_eq!(info.download_name(), "05.06.2020 18:36:26-PASB008-Ocean-me-20200605_1.wowsreplay");
}

#[test]
fn hello_counts_replays_and_files() {
    assert_eq!(
        hello("Ann", 30, 2, 5),
        "Hello, 30 year old named Ann! There are 2 replays, but 5 total files have been found"
    );
}
