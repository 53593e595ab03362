//! Per-player records: the result parsed from one player-result line,
//! with numeric fields recovered to 0 on malformed input.
use vstd::prelude::*;
use vstd::string::StrSliceExecFns;
use vstd::string::StringSliceAdditionalSpecFns;

use crate::patterns::{PlayerCaptures, PlayerCapturesG};
use crate::text::{byte_is_digit, bytes_eq, digits_val, is_digit, parse_or_zero};

verus! {

/// Final status of one player within a match.
#[derive(Clone, Copy, Debug, PartialEq, Eq, Structural)]
pub enum LogfilePlayerStatus {
    /// No recognizable result text was seen for the player.
    Unknown,
    /// The player won the match.
    Won,
    /// The player conceded before losing outright.
    Conceded,
    /// The player was defeated.
    Killed,
    /// The player was still playing when another participant dropped.
    Playing,
    /// The player caused an out-of-sync error.
    Outofsync,
    /// The player disconnected without a formal result.
    Dropped,
}

impl Default for LogfilePlayerStatus {
    fn default() -> (r: Self)
        ensures
            r == LogfilePlayerStatus::Unknown,
    {
        LogfilePlayerStatus::Unknown
    }
}

/// One player's outcome within a match, as reconstructed from the log.
/// `steam_id` and `slot` stay 0 unless identity correlation resolves them.
#[derive(Clone, Copy, Debug, PartialEq, Eq, Structural)]
pub struct LogfilePlayerInfo {
    pub sim_id: usize,
    pub race: usize,
    pub team_id: usize,
    pub relic_id: usize,
    pub steam_id: usize,
    pub slot: usize,
    pub status: LogfilePlayerStatus,
}

/// The all-defaults player record every result line starts from.
pub open spec fn spec_default_player() -> LogfilePlayerInfo {
    LogfilePlayerInfo {
        sim_id: 0,
        race: 0,
        team_id: 0,
        relic_id: 0,
        steam_id: 0,
        slot: 0,
        status: LogfilePlayerStatus::Unknown,
    }
}

impl Default for LogfilePlayerInfo {
    fn default() -> (r: Self)
        ensures
            r == spec_default_player(),
    {
        LogfilePlayerInfo {
            sim_id: 0,
            race: 0,
            team_id: 0,
            relic_id: 0,
            steam_id: 0,
            slot: 0,
            status: LogfilePlayerStatus::Unknown,
        }
    }
}

/// Value of a captured numeric field, exactly as a decimal `usize`
/// parse reads it: an optional leading plus sign, then at least one
/// digit, with a value that fits the machine word; anything else is 0.
pub open spec fn spec_conv_int(v: Seq<u8>) -> usize {
    let start: int = if v.len() > 0 && v[0] == 43 {
        1
    } else {
        0
    };
    if v.len() > start && (forall|k: int| start <= k < v.len() ==> is_digit(v[k])) && digits_val(
        v,
        start,
        v.len() as int,
    ) <= usize::MAX {
        digits_val(v, start, v.len() as int) as usize
    } else {
        0
    }
}

/// Parses a captured field as a non-negative integer; any malformed or
/// oversized field becomes 0 rather than failing the whole parse.
#[verifier::loop_isolation(false)]
pub fn convert_match_to_int(capture: &Vec<u8>) -> (r: usize)
    ensures
        r == spec_conv_int(capture@),
{
    let start: usize = if capture.len() > 0 && capture[0] == 43 {
        1
    } else {
        0
    };
    if capture.len() <= start {
        return 0;
    }
    let mut k: usize = start;
    while k < capture.len()
        invariant
            start <= k <= capture.len(),
            forall|t: int| start <= t < k ==> is_digit(capture@[t]),
        decreases capture.len() - k,
    {
        if !byte_is_digit(capture[k]) {
            return 0;
        }
        k += 1;
    }
    parse_or_zero(capture, start, capture.len())
}

/// The status a captured result text denotes.
pub open spec fn spec_conv_status(v: Seq<u8>) -> LogfilePlayerStatus {
    if v == "PS_KILLED".spec_bytes() {
        LogfilePlayerStatus::Killed
    } else if v == "PS_WON".spec_bytes() {
        LogfilePlayerStatus::Won
    } else if v == "PS_CONCEDED".spec_bytes() {
        LogfilePlayerStatus::Conceded
    } else if v == "PS_PLAYING".spec_bytes() {
        LogfilePlayerStatus::Playing
    } else if v == "PS_OUTOFSYNC".spec_bytes() {
        LogfilePlayerStatus::Outofsync
    } else {
        LogfilePlayerStatus::Unknown
    }
}

/// Maps a captured result text to a status via the fixed lookup.
pub fn convert_match_to_status(status: &Vec<u8>) -> (r: LogfilePlayerStatus)
    ensures
        r == spec_conv_status(status@),
{
    if bytes_eq(status, &"PS_KILLED".as_bytes_vec()) {
        LogfilePlayerStatus::Killed
    } else if bytes_eq(status, &"PS_WON".as_bytes_vec()) {
        LogfilePlayerStatus::Won
    } else if bytes_eq(status, &"PS_CONCEDED".as_bytes_vec()) {
        LogfilePlayerStatus::Conceded
    } else if bytes_eq(status, &"PS_PLAYING".as_bytes_vec()) {
        LogfilePlayerStatus::Playing
    } else if bytes_eq(status, &"PS_OUTOFSYNC".as_bytes_vec()) {
        LogfilePlayerStatus::Outofsync
    } else {
        LogfilePlayerStatus::Unknown
    }
}

/// The record that results from applying the captured groups of one
/// player-result line to `p`. The alternate form carries no relic id or
/// status text: the status is unconditionally `Dropped`.
pub open spec fn spec_parse_player(
    p: LogfilePlayerInfo,
    caps: PlayerCapturesG,
    alt: bool,
) -> LogfilePlayerInfo {
    if alt {
        LogfilePlayerInfo {
            sim_id: spec_conv_int(caps.sim_id),
            race: spec_conv_int(caps.race),
            team_id: spec_conv_int(caps.team_id),
            status: LogfilePlayerStatus::Dropped,
            ..p
        }
    } else {
        LogfilePlayerInfo {
            sim_id: spec_conv_int(caps.sim_id),
            race: spec_conv_int(caps.race),
            team_id: spec_conv_int(caps.team_id),
            relic_id: spec_conv_int(caps.id),
            status: spec_conv_status(caps.status),
            ..p
        }
    }
}

impl LogfilePlayerInfo {
    /// A record with every field at its default.
    pub fn new() -> (r: Self)
        ensures
            r == spec_default_player(),
    {
        LogfilePlayerInfo {
            sim_id: 0,
            race: 0,
            team_id: 0,
            relic_id: 0,
            steam_id: 0,
            slot: 0,
            status: LogfilePlayerStatus::Unknown,
        }
    }

    /// The in-match numeric identity.
    pub fn get_sim_id(&self) -> (r: usize)
        ensures
            r == self.sim_id,
    {
        self.sim_id
    }

    /// The race the player picked.
    pub fn get_race(&self) -> (r: usize)
        ensures
            r == self.race,
    {
        self.race
    }

    /// The team the player was on.
    pub fn get_team_id(&self) -> (r: usize)
        ensures
            r == self.team_id,
    {
        self.team_id
    }

    /// The player's final status.
    pub fn get_status(&self) -> (r: &LogfilePlayerStatus)
        ensures
            *r == self.status,
    {
        &self.status
    }

    /// Fills this record from the captured groups of a player-result
    /// line, exactly as [`spec_parse_player`] states.
    pub fn parse(&mut self, captures: &PlayerCaptures, alt: bool)
        ensures
            *final(self) == spec_parse_player(*old(self), captures@, alt),
    {
        if alt {
            self.sim_id = convert_match_to_int(&captures.sim_id);
            self.race = convert_match_to_int(&captures.race);
            self.team_id = convert_match_to_int(&captures.team_id);
            self.status = LogfilePlayerStatus::Dropped;
        } else {
            self.sim_id = convert_match_to_int(&captures.sim_id);
            self.race = convert_match_to_int(&captures.race);
            self.team_id = convert_match_to_int(&captures.team_id);
            self.relic_id = convert_match_to_int(&captures.id);
            self.status = convert_match_to_status(&captures.status);
        }
    }
}

/// A player record merged with the fields a decoded replay supplies; the
/// merge itself happens outside this crate.
#[derive(Clone, Debug)]
pub struct ExtendedPlayerInformation {
    pub slot: usize,
    pub steam_id: usize,
    pub sim_id: usize,
    pub status: LogfilePlayerStatus,
    pub name: String,
    pub kind: u32,
    pub team: u32,
    pub race: usize,
    pub relic_id: u64,
    pub rank: u32,
    pub cpu: u32,
    pub hero: u32,
    pub primary_color: u8,
    pub secondary_color: u8,
    pub trim_color: u8,
    pub accessory_color: u8,
    pub skin_path: String,
    pub skin_name: String,
    pub id: u8,
}

impl Default for ExtendedPlayerInformation {
    fn default() -> (r: Self)
        ensures
            r.slot == 0 && r.steam_id == 0 && r.sim_id == 0 && r.status
                == LogfilePlayerStatus::Unknown,
            r.name@ == Seq::<char>::empty() && r.kind == 0 && r.team == 0 && r.race == 0,
            r.relic_id == 0 && r.rank == 0 && r.cpu == 0 && r.hero == 0,
            r.primary_color == 0 && r.secondary_color == 0 && r.trim_color == 0
                && r.accessory_color == 0,
            r.skin_path@ == Seq::<char>::empty() && r.skin_name@ == Seq::<char>::empty() && r.id
                == 0,
    {
        ExtendedPlayerInformation {
            slot: 0,
            steam_id: 0,
            sim_id: 0,
            status: LogfilePlayerStatus::Unknown,
            name: String::new(),
            kind: 0,
            team: 0,
            race: 0,
            relic_id: 0,
            rank: 0,
            cpu: 0,
            hero: 0,
            primary_color: 0,
            secondary_color: 0,
            trim_color: 0,
            accessory_color: 0,
            skin_path: String::new(),
            skin_name: String::new(),
            id: 0,
        }
    }
}

} // verus!
