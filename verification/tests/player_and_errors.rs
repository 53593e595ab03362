//! Tests of single-line classification, player-record parsing, the
//! error variants, and the transcoding edge.
use gamelog_parser::error::ParserAppError;
use gamelog_parser::game::GameInfo;
use gamelog_parser::logfile::LogfileGameList;
use gamelog_parser::player_info::convert_match_to_int;
use gamelog_parser::player_info::ExtendedPlayerInformation;
use gamelog_parser::parse_logfile;
use gamelog_parser::patterns::{classify, LineEvent};
use gamelog_parser::player_info::{LogfilePlayerInfo, LogfilePlayerStatus};

#[test]
fn get_player_info_from_string() {
    let line = "13:50:45.82    PlayerInfo - SimID:1001, raceID:4, teamID:0, uid:0:11718717, result:3:PS_KILLED";
    let event = classify(&line.as_bytes().to_vec()).unwrap();
    let captures = match event {
        LineEvent::PlayerResult { caps } => caps,
        _ => panic!("expected a player-result event"),
    };

    let mut info = LogfilePlayerInfo::new();
    info.parse(&captures, false);

    assert_eq!(info.sim_id, 1001);
    assert_eq!(info.race, 4);
    assert_eq!(info.team_id, 0);
    assert_eq!(info.status, LogfilePlayerStatus::Killed);
}

#[test]
fn get_player_info_from_dropped_player() {
    let line = "16:22:54.78    ReportMatchStatsForPVP - SimID:1000, raceID:4, teamID:1, uid:[00000000:0098c7db], AI player, ignoring";
    let event = classify(&line.as_bytes().to_vec()).unwrap();
    let captures = match event {
        LineEvent::PlayerResultAlt { caps } => caps,
        _ => panic!("expected an alternate player-result event"),
    };

    let mut info = LogfilePlayerInfo::new();
    info.parse(&captures, true);

    assert_eq!(info.sim_id, 1000);
    assert_eq!(info.race, 4);
    assert_eq!(info.team_id, 1);
    assert_eq!(info.status, LogfilePlayerStatus::Dropped);
}

#[test]
fn dropped_status_ignores_trailing_text() {
    let line = "ReportMatchStatsForPVP - SimID:1002, raceID:2, teamID:0, uid:[00000000:deadbeef], whatever trailing text result:9:PS_WON";
    let event = classify(&line.as_bytes().to_vec()).unwrap();
    let captures = match event {
        LineEvent::PlayerResultAlt { caps } => caps,
        _ => panic!("expected an alternate player-result event"),
    };
    let mut info = LogfilePlayerInfo::new();
    info.parse(&captures, true);
    assert_eq!(info.status, LogfilePlayerStatus::Dropped);
}

#[test]
fn every_status_text_maps_to_its_status() {
    let cases = [
        ("PS_KILLED", LogfilePlayerStatus::Killed),
        ("PS_WON", LogfilePlayerStatus::Won),
        ("PS_CONCEDED", LogfilePlayerStatus::Conceded),
        ("PS_PLAYING", LogfilePlayerStatus::Playing),
        ("PS_OUTOFSYNC", LogfilePlayerStatus::Outofsync),
        ("PS_SOMETHING_NEW", LogfilePlayerStatus::Unknown),
    ];
    for (text, expected) in cases {
        let line = format!(
            "PlayerInfo - SimID:1000, raceID:1, teamID:0, uid:0:42, result:3:{}",
            text
        );
        let event = classify(&line.as_bytes().to_vec()).unwrap();
        let captures = match event {
            LineEvent::PlayerResult { caps } => caps,
            _ => panic!("expected a player-result event"),
        };
        let mut info = LogfilePlayerInfo::new();
        info.parse(&captures, false);
        assert_eq!(info.status, expected);
    }
}

#[test]
fn ambiguous_line_is_reported() {
    // Contains both the frame marker and a full player-result group: two
    // patterns match, which the classifier must surface, not resolve.
    let line = "GAME -- Frame PlayerInfo - SimID:1, raceID:2, teamID:3, uid:0:4, result:1:PS_WON";
    let err = classify(&line.as_bytes().to_vec()).unwrap_err();
    assert_eq!(
        err,
        ParserAppError::LogfileParseError(format!("Found more than 1 game to parse: {}", line))
    );
}

#[test]
fn unrecognized_retained_line_is_reported() {
    // Passes the inclusion filter (contains "PlayerInfo") but matches no
    // structural pattern: zero matches are as fatal as several.
    let lines = vec!["PlayerInfo - something entirely unexpected".to_string()];
    let raw = lines.join("\n").into_bytes();
    let mut game_list = LogfileGameList::new();
    game_list.read_logfile(&raw).unwrap();
    let err = game_list.parse().unwrap_err();
    assert_eq!(
        err,
        ParserAppError::LogfileParseError(
            "Found more than 1 game to parse: PlayerInfo - something entirely unexpected"
                .to_string()
        )
    );
}

#[test]
fn match_id_overflow_is_reported() {
    let lines = vec![
        "GAME -- Beginning mission 2p_map (2 Humans, 0 Computers)".to_string(),
        "ReportSimStats - storing simulation results for match 1:99999999999999999999999999"
            .to_string(),
    ];
    let raw = lines.join("\n").into_bytes();
    let mut game_list = LogfileGameList::new();
    game_list.read_logfile(&raw).unwrap();
    let err = game_list.parse().unwrap_err();
    assert_eq!(
        err,
        ParserAppError::LogfileParseError(
            "Could not parse match relic id in logfile".to_string()
        )
    );
}

#[test]
fn frame_count_overflow_is_reported() {
    let lines = vec![
        "GAME -- Beginning mission 2p_map (2 Humans, 0 Computers)".to_string(),
        "MOD -- Game Over at frame 99999999999999999999999999".to_string(),
    ];
    let raw = lines.join("\n").into_bytes();
    let mut game_list = LogfileGameList::new();
    game_list.read_logfile(&raw).unwrap();
    let err = game_list.parse().unwrap_err();
    assert_eq!(
        err,
        ParserAppError::LogfileParseError(
            "Could not parse number of frames from logfile".to_string()
        )
    );
}

#[test]
fn own_profile_overflow_is_reported() {
    let lines = vec!["Found profile: /steam/99999999999999999999999999".to_string()];
    let raw = lines.join("\n").into_bytes();
    let mut game_list = LogfileGameList::new();
    game_list.read_logfile(&raw).unwrap();
    let err = game_list.parse().unwrap_err();
    assert_eq!(
        err,
        ParserAppError::LogfileParseError(
            "could not read player profile steam id from logfile".to_string()
        )
    );
}

#[test]
fn stray_mid_block_events_before_any_record_are_dropped() {
    // Trailing diagnostic lines of an earlier, truncated block may precede
    // the first mission header; they must be skipped, not fatal.
    let lines = vec![
        "MOD -- Game Over at frame 1234".to_string(),
        "APP -- Ending mission - 'Game over'".to_string(),
        "PlayerInfo - SimID:1000, raceID:1, teamID:0, uid:0:42, result:3:PS_WON".to_string(),
        "GAME -- Beginning mission 2p_map (2 Humans, 0 Computers)".to_string(),
        "APP -- Ending mission - 'Game over'".to_string(),
    ];
    let raw = lines.join("\n").into_bytes();
    let mut game_list = LogfileGameList::new();
    game_list.read_logfile(&raw).unwrap();
    game_list.parse().unwrap();
    assert_eq!(game_list.games.len(), 1);
    assert_eq!(game_list.games[0].players.len(), 0);
    assert_eq!(game_list.games[0].frames, 0);
}

#[test]
fn empty_log_yields_no_last_game() {
    let raw: Vec<u8> = Vec::new();
    let err = parse_logfile(&raw).unwrap_err();
    assert_eq!(
        err,
        ParserAppError::ParserLibError(
            "Could not get last game from list of games in logfile".to_string()
        )
    );
}

#[test]
fn parse_logfile_returns_most_recent_record() {
    let lines = vec![
        "GAME -- Beginning mission 2p_first (2 Humans, 0 Computers)".to_string(),
        "APP -- Ending mission - 'Game over'".to_string(),
        "GAME -- Beginning mission 4p_second (4 Humans, 0 Computers)".to_string(),
        "APP -- Ending mission - 'Abort'".to_string(),
    ];
    let raw = lines.join("\n").into_bytes();
    let game = parse_logfile(&raw).unwrap();
    assert_eq!(game.map, "4p_second");
    assert!(game.aborted);
    assert!(game.complete);
}

#[test]
fn malformed_bytes_are_replaced_not_dropped() {
    // An invalid byte inside the map name must come out as the Unicode
    // replacement character; a multi-byte character must survive intact.
    let mut raw: Vec<u8> = Vec::new();
    raw.extend_from_slice(b"GAME -- Beginning mission m\xffp_\xc3\xa4 (2 Humans, 0 Computers)\n");
    raw.extend_from_slice(b"APP -- Ending mission - 'Game over'\n");
    let game = parse_logfile(&raw).unwrap();
    assert_eq!(game.map, "m\u{fffd}p_\u{e4}");
}

#[test]
fn crlf_and_lf_line_endings_parse_alike() {
    let lines = vec![
        "GAME -- Beginning mission 2p_map (2 Humans, 0 Computers)".to_string(),
        "APP -- Ending mission - 'Game over'".to_string(),
    ];
    let with_lf = lines.join("\n").into_bytes();
    let with_crlf = lines.join("\r\n").into_bytes();
    assert_eq!(parse_logfile(&with_lf).unwrap(), parse_logfile(&with_crlf).unwrap());
}

#[test]
fn error_messages_match_their_variants() {
    assert_eq!(
        ParserAppError::LogfileNotFoundError.message(),
        "Could not find logfile"
    );
    assert_eq!(
        ParserAppError::ReplayNotFoundError.message(),
        "Could not find replay file"
    );
    assert_eq!(
        ParserAppError::GenericError("boom".to_string()).message(),
        "Generic error: boom"
    );
    assert_eq!(
        ParserAppError::ParserLibError("boom".to_string()).message(),
        "Parser lib error: boom"
    );
    assert_eq!(
        ParserAppError::LogfileParseError("boom".to_string()).message(),
        "Error while parsing logfile: boom"
    );
}

#[test]
fn numeric_field_overflow_in_player_line_defaults_to_zero() {
    // A relic id too large for the machine word is recovered as 0; the
    // rest of the record is kept.
    let line =
        "PlayerInfo - SimID:1000, raceID:1, teamID:0, uid:0:99999999999999999999999999, result:3:PS_WON";
    let event = classify(&line.as_bytes().to_vec()).unwrap();
    let captures = match event {
        LineEvent::PlayerResult { caps } => caps,
        _ => panic!("expected a player-result event"),
    };
    let mut info = LogfilePlayerInfo::new();
    info.parse(&captures, false);
    assert_eq!(info.relic_id, 0);
    assert_eq!(info.sim_id, 1000);
    assert_eq!(info.status, LogfilePlayerStatus::Won);
}

#[test]
fn defaults_are_all_zero_and_empty() {
    let g = GameInfo::default();
    assert_eq!(g.name, "");
    assert_eq!(g.mode, "");
    assert_eq!(g.resources, "");
    assert_eq!(g.locations, "");
    assert_eq!(g.victory_points, 0);

    let p = ExtendedPlayerInformation::default();
    assert_eq!(p.slot, 0);
    assert_eq!(p.steam_id, 0);
    assert_eq!(p.sim_id, 0);
    assert_eq!(p.status, LogfilePlayerStatus::Unknown);
    assert_eq!(p.name, "");
    assert_eq!(p.relic_id, 0);

    let info = LogfilePlayerInfo::default();
    assert_eq!(info.sim_id, 0);
    assert_eq!(info.status, LogfilePlayerStatus::Unknown);

    let game = gamelog_parser::logfile::LogfileGameInfo::new();
    assert!(!game.block_complete());
    assert_eq!(game.map, "");
    assert_eq!(game.players.len(), 0);

    let list = gamelog_parser::logfile::LogfileGameList::default();
    assert_eq!(list.games.len(), 0);
    assert_eq!(list.steam_id, 0);
}

#[test]
fn integer_conversion_matches_decimal_parse() {
    // One optional leading plus sign is accepted, as a decimal parse does.
    assert_eq!(convert_match_to_int(&b"+123".to_vec()), 123);
    assert_eq!(convert_match_to_int(&b"123".to_vec()), 123);
    assert_eq!(convert_match_to_int(&b"0".to_vec()), 0);
    // Anything else is recovered as 0.
    assert_eq!(convert_match_to_int(&b"".to_vec()), 0);
    assert_eq!(convert_match_to_int(&b"+".to_vec()), 0);
    assert_eq!(convert_match_to_int(&b"++1".to_vec()), 0);
    assert_eq!(convert_match_to_int(&b"-1".to_vec()), 0);
    assert_eq!(convert_match_to_int(&b"12a".to_vec()), 0);
    assert_eq!(convert_match_to_int(&b" 12".to_vec()), 0);
    assert_eq!(convert_match_to_int(&b"99999999999999999999999999".to_vec()), 0);
    assert_eq!(convert_match_to_int(&b"+99999999999999999999999999".to_vec()), 0);
}
