//! End-to-end tests of the log parser: fixtures are built line by line
//! in the shape the game writes them.
use gamelog_parser::logfile::LogfileGameList;
use gamelog_parser::parse_logfile;
use gamelog_parser::player_info::LogfilePlayerStatus;

fn player_line(sim: usize, race: usize, team: usize, relic: usize, status: &str) -> String {
    format!(
        "13:50:45.82    PlayerInfo - SimID:{}, raceID:{}, teamID:{}, uid:0:{}, result:3:{}",
        sim, race, team, relic, status
    )
}

fn dropped_line(sim: usize, race: usize, team: usize, uid: &str) -> String {
    format!(
        "16:22:54.78    ReportMatchStatsForPVP - SimID:{}, raceID:{}, teamID:{}, uid:[00000000:{}], AI player, ignoring",
        sim, race, team, uid
    )
}

fn begin_line(map: &str) -> String {
    format!("GAME -- Beginning mission {} (2 Humans, 0 Computers)", map)
}

fn end_line(status: &str) -> String {
    format!("APP -- Ending mission - '{}'", status)
}

fn header_line(uid: &str, steam: &str, slot: usize) -> String {
    format!("Match Started - [00000000:{} /steam/{}], slot =  {}", uid, steam, slot)
}

fn pid_line(relic: usize, steam: &str) -> String {
    format!("LoadArbitrator::UpdateLoadProgress - info pid 0:{}, /steam/{}", relic, steam)
}

fn complete_block(map: &str, statuses: &[&str]) -> Vec<String> {
    let mut lines = vec![begin_line(map)];
    for (i, st) in statuses.iter().enumerate() {
        lines.push(player_line(1000 + i, 0, 0, 500 + i, st));
    }
    lines.push(end_line("Game over"));
    lines
}

fn to_bytes(lines: &[String]) -> Vec<u8> {
    lines.join("\r\n").into_bytes()
}

#[test]
fn read_match_from_logfile() {
    let mut lines: Vec<String> = Vec::new();
    for i in 0..241 {
        lines.push(format!("GAME -- Frame {}", i));
        lines.push("some diagnostic chatter nobody cares about".to_string());
    }
    let raw = to_bytes(&lines);
    let mut game_list = LogfileGameList::new();
    game_list.read_logfile(&raw).unwrap();

    assert_eq!(game_list.logfile_content.len(), 241);
}

#[test]
fn parse_two_matches_from_logfile() {
    let mut lines: Vec<String> = Vec::new();
    lines.push(begin_line("2p_calderisrefinery"));
    lines.push(player_line(1000, 0, 0, 11718717, "PS_CONCEDED"));
    lines.push(player_line(1001, 4, 1, 11718718, "PS_WON"));
    lines.push("ReportSimStats - storing simulation results for match 1:54926186".to_string());
    lines.push(end_line("Game over"));
    lines.push(begin_line("6p_somemap"));
    for i in 0..6 {
        lines.push(player_line(1000 + i, 1, 0, 600 + i, "PS_WON"));
    }
    lines.push(end_line("Game over"));
    let raw = to_bytes(&lines);

    let mut game_list = LogfileGameList::new();
    game_list.read_logfile(&raw).unwrap();
    game_list.parse().unwrap();

    assert_eq!(game_list.games.len(), 2);
    assert_eq!(game_list.games[0].players.len(), 2);
    assert_eq!(game_list.games[1].players.len(), 6);

    assert_eq!(game_list.games[0].players[0].get_race(), 0);
    assert_eq!(game_list.games[0].players[0].get_team_id(), 0);
    assert_eq!(game_list.games[0].players[0].get_sim_id(), 1000);
    assert_eq!(
        *game_list.games[0].players[0].get_status(),
        LogfilePlayerStatus::Conceded
    );

    assert!(!game_list.games[0].aborted);
    assert_eq!(game_list.games[0].id, 54926186);
    assert_eq!(game_list.games[0].map, "2p_calderisrefinery");
}

#[test]
fn parse_match_with_dropped_player() {
    let mut lines: Vec<String> = Vec::new();
    for i in 0..5 {
        lines.extend(complete_block(&format!("4p_map{}", i), &["PS_WON", "PS_CONCEDED"]));
    }
    lines.push(begin_line("6p_finalmap"));
    lines.push(player_line(1000, 0, 0, 700, "PS_WON"));
    lines.push(player_line(1001, 1, 0, 701, "PS_WON"));
    lines.push(player_line(1002, 2, 0, 702, "PS_WON"));
    lines.push(dropped_line(1003, 4, 1, "0098c7db"));
    lines.push(player_line(1004, 3, 1, 704, "PS_CONCEDED"));
    lines.push(player_line(1005, 0, 1, 705, "PS_CONCEDED"));
    lines.push(end_line("Game over"));
    let raw = to_bytes(&lines);

    let mut game_list = LogfileGameList::new();
    game_list.read_logfile(&raw).unwrap();
    game_list.parse().unwrap();

    assert_eq!(game_list.games.len(), 6);
    assert_eq!(
        *game_list.games[5].players[0].get_status(),
        LogfilePlayerStatus::Won
    );
    assert_eq!(
        *game_list.games[5].players[1].get_status(),
        LogfilePlayerStatus::Won
    );
    assert_eq!(
        *game_list.games[5].players[2].get_status(),
        LogfilePlayerStatus::Won
    );
    assert_eq!(
        *game_list.games[5].players[3].get_status(),
        LogfilePlayerStatus::Dropped
    );
    assert_eq!(
        *game_list.games[5].players[4].get_status(),
        LogfilePlayerStatus::Conceded
    );
    assert_eq!(
        *game_list.games[5].players[5].get_status(),
        LogfilePlayerStatus::Conceded
    );
}

#[test]
fn parse_match_with_observer() {
    let mut lines: Vec<String> = Vec::new();
    for i in 0..3 {
        lines.extend(complete_block(&format!("4p_map{}", i), &["PS_WON", "PS_CONCEDED"]));
    }
    lines.push(begin_line("6p_withobserver"));
    // Seven participants hold seats, one of them a non-playing observer...
    for slot in 0..7 {
        lines.push(header_line(&format!("00aa00{}", slot), &format!("7656119800000000{}", slot), slot));
    }
    // ...but only six player results are ever reported.
    lines.push(player_line(1000, 0, 0, 800, "PS_WON"));
    lines.push(player_line(1001, 1, 0, 801, "PS_WON"));
    lines.push(player_line(1002, 2, 0, 802, "PS_WON"));
    lines.push(player_line(1003, 3, 1, 803, "PS_CONCEDED"));
    lines.push(player_line(1004, 0, 1, 804, "PS_CONCEDED"));
    lines.push(player_line(1005, 1, 1, 805, "PS_CONCEDED"));
    lines.push(end_line("Game over"));
    let raw = to_bytes(&lines);

    let mut game_list = LogfileGameList::new();
    game_list.read_logfile(&raw).unwrap();
    game_list.parse().unwrap();

    assert_eq!(game_list.games.len(), 4);
    assert_eq!(game_list.games[3].players.len(), 6);
    assert_eq!(
        *game_list.games[3].players[0].get_status(),
        LogfilePlayerStatus::Won
    );
    assert_eq!(
        *game_list.games[3].players[1].get_status(),
        LogfilePlayerStatus::Won
    );
    assert_eq!(
        *game_list.games[3].players[2].get_status(),
        LogfilePlayerStatus::Won
    );
    assert_eq!(
        *game_list.games[3].players[3].get_status(),
        LogfilePlayerStatus::Conceded
    );
    assert_eq!(
        *game_list.games[3].players[4].get_status(),
        LogfilePlayerStatus::Conceded
    );
    assert_eq!(
        *game_list.games[3].players[5].get_status(),
        LogfilePlayerStatus::Conceded
    );
}

#[test]
fn can_parse_relic_and_steam_id() {
    let mut lines: Vec<String> = Vec::new();
    lines.push(header_line("00aa0001", "76561198000000001", 0));
    lines.push(header_line("00aa0002", "76561198000000002", 1));
    lines.push(pid_line(11718717, "76561198000000001"));
    lines.push(pid_line(11718718, "76561198000000002"));
    lines.push(begin_line("2p_calderisrefinery"));
    lines.push(player_line(1000, 0, 0, 11718717, "PS_WON"));
    lines.push(player_line(1001, 1, 1, 11718718, "PS_CONCEDED"));
    lines.push(end_line("Game over"));
    let raw = to_bytes(&lines);

    let mut game_list = LogfileGameList::new();
    game_list.read_logfile(&raw).unwrap();
    game_list.parse().unwrap();

    assert!(game_list.games[0].players[0].relic_id != 0);
    assert!(game_list.games[0].players[0].steam_id != 0);
    assert_eq!(game_list.games[0].players[0].slot, 0);
    assert!(game_list.games[0].players[1].relic_id != 0);
    assert!(game_list.games[0].players[1].steam_id != 0);
    assert_eq!(game_list.games[0].players[1].slot, 1);
}

#[test]
fn player_steam_id_is_correctly_read_from_logfile() {
    let mut lines: Vec<String> = Vec::new();
    lines.push("Found profile: /steam/76561198099396483".to_string());
    lines.extend(complete_block("2p_calderisrefinery", &["PS_WON", "PS_CONCEDED"]));
    let raw = to_bytes(&lines);

    let mut game_list = LogfileGameList::new();
    game_list.read_logfile(&raw).unwrap();
    game_list.parse().unwrap();

    assert_eq!(game_list.steam_id, 76561198099396483);
}

#[test]
fn dropped_player_identity_resolved_by_uid() {
    let mut lines: Vec<String> = Vec::new();
    lines.push(header_line("0098c7db", "76561198000000009", 3));
    lines.push(pid_line(11718719, "76561198000000009"));
    lines.push(begin_line("2p_calderisrefinery"));
    lines.push(dropped_line(1000, 4, 1, "0098c7db"));
    lines.push(end_line("Game over"));
    let raw = to_bytes(&lines);

    let mut game_list = LogfileGameList::new();
    game_list.read_logfile(&raw).unwrap();
    game_list.parse().unwrap();

    let p = &game_list.games[0].players[0];
    assert_eq!(p.steam_id, 76561198000000009);
    assert_eq!(p.slot, 3);
    assert_eq!(p.relic_id, 11718719);
    assert_eq!(*p.get_status(), LogfilePlayerStatus::Dropped);
}

#[test]
fn unresolved_identity_stays_at_defaults() {
    let mut lines: Vec<String> = Vec::new();
    lines.push(begin_line("2p_calderisrefinery"));
    lines.push(player_line(1000, 0, 0, 12345, "PS_WON"));
    lines.push(end_line("Game over"));
    let raw = to_bytes(&lines);

    let mut game_list = LogfileGameList::new();
    game_list.read_logfile(&raw).unwrap();
    game_list.parse().unwrap();

    let p = &game_list.games[0].players[0];
    assert_eq!(p.relic_id, 12345);
    assert_eq!(p.steam_id, 0);
    assert_eq!(p.slot, 0);
}

#[test]
fn parse_same_bytes_twice_identical() {
    let mut lines: Vec<String> = Vec::new();
    lines.push(header_line("00aa0001", "76561198000000001", 2));
    lines.push(pid_line(500, "76561198000000001"));
    lines.extend(complete_block("2p_calderisrefinery", &["PS_WON", "PS_CONCEDED"]));
    lines.push("MOD -- Game Over at frame 52000".to_string());
    let raw = to_bytes(&lines);

    let first = parse_logfile(&raw).unwrap();
    let second = parse_logfile(&raw).unwrap();
    assert_eq!(first, second);

    let mut list_a = LogfileGameList::new();
    list_a.read_logfile(&raw).unwrap();
    list_a.parse().unwrap();
    let mut list_b = LogfileGameList::new();
    list_b.read_logfile(&raw).unwrap();
    list_b.parse().unwrap();
    assert_eq!(list_a.games, list_b.games);
    assert_eq!(list_a.steam_id, list_b.steam_id);
}

#[test]
fn mission_begin_while_incomplete_updates_in_place() {
    let mut lines: Vec<String> = Vec::new();
    lines.push(begin_line("2p_firstname"));
    lines.push(player_line(1000, 0, 0, 500, "PS_WON"));
    lines.push(begin_line("2p_secondname"));
    lines.push(end_line("Game over"));
    let raw = to_bytes(&lines);

    let mut game_list = LogfileGameList::new();
    game_list.read_logfile(&raw).unwrap();
    game_list.parse().unwrap();

    // The second header did not open a new record: it renamed the open one,
    // and the player recorded before it is still there.
    assert_eq!(game_list.games.len(), 1);
    assert_eq!(game_list.games[0].map, "2p_secondname");
    assert_eq!(game_list.games[0].players.len(), 1);
    assert!(game_list.games[0].complete);
}

#[test]
fn header_after_complete_record_opens_new_record() {
    let mut lines: Vec<String> = Vec::new();
    lines.extend(complete_block("2p_one", &["PS_WON"]));
    lines.push(begin_line("2p_two"));
    let raw = to_bytes(&lines);

    let mut game_list = LogfileGameList::new();
    game_list.read_logfile(&raw).unwrap();
    game_list.parse().unwrap();

    assert_eq!(game_list.games.len(), 2);
    assert_eq!(game_list.games[0].map, "2p_one");
    assert!(game_list.games[0].complete);
    assert_eq!(game_list.games[1].map, "2p_two");
    assert!(!game_list.games[1].complete);
}

#[test]
fn frame_count_and_match_id_recorded() {
    let mut lines: Vec<String> = Vec::new();
    lines.push(begin_line("2p_calderisrefinery"));
    lines.push("ReportSimStats - storing simulation results for match 1:54926186".to_string());
    lines.push("MOD -- Game Over at frame 52000".to_string());
    lines.push(end_line("Game over"));
    let raw = to_bytes(&lines);

    let mut game_list = LogfileGameList::new();
    game_list.read_logfile(&raw).unwrap();
    game_list.parse().unwrap();

    assert_eq!(game_list.games[0].id, 54926186);
    assert_eq!(game_list.games[0].frames, 52000);
}

#[test]
fn abort_and_unknown_termination_mark_aborted() {
    for status in ["Abort", "Whatever else"] {
        let lines = vec![begin_line("2p_map"), end_line(status)];
        let raw = to_bytes(&lines);
        let mut game_list = LogfileGameList::new();
        game_list.read_logfile(&raw).unwrap();
        game_list.parse().unwrap();
        assert!(game_list.games[0].aborted);
        assert!(game_list.games[0].complete);
    }
}
