//! The line classifier: a fixed, ordered set of structural patterns, each
//! tagged with a semantic event kind. Every retained line must match
//! exactly one pattern; the captures become a [`LineEvent`].
use vstd::pervasive::unreached;
use vstd::prelude::*;
use vstd::string::StrSliceExecFns;
use vstd::string::StringExecFns;
use vstd::string::StringSliceAdditionalSpecFns;

use crate::error::ParserAppError;

use crate::text::{
    is_digit, byte_is_digit, is_match_at, match_at, spec_find, lemma_spec_find, find_from,
    digits_end, lemma_digits_end, scan_digits, nondigits_end, lemma_nondigits_end, scan_nondigits,
    spec_find_byte, lemma_spec_find_byte, find_byte, range_has_digit, subvec,
};

verus! {

/// Raw captured groups of a player-result line, before numeric conversion.
/// For the regular form, `id` is the relic id and `status` the trailing
/// status text; for the alternate (dropped-player) form, `id` is the
/// in-game uid and `status` is empty.
#[derive(Debug)]
pub struct PlayerCaptures {
    pub sim_id: Vec<u8>,
    pub race: Vec<u8>,
    pub team_id: Vec<u8>,
    pub id: Vec<u8>,
    pub status: Vec<u8>,
}

/// Spec-level mirror of [`PlayerCaptures`].
pub struct PlayerCapturesG {
    pub sim_id: Seq<u8>,
    pub race: Seq<u8>,
    pub team_id: Seq<u8>,
    pub id: Seq<u8>,
    pub status: Seq<u8>,
}

impl View for PlayerCaptures {
    type V = PlayerCapturesG;

    open spec fn view(&self) -> PlayerCapturesG {
        PlayerCapturesG {
            sim_id: self.sim_id@,
            race: self.race@,
            team_id: self.team_id@,
            id: self.id@,
            status: self.status@,
        }
    }
}

/// One classified line: the semantic event kind together with its captures.
#[derive(Debug)]
pub enum LineEvent {
    /// A match-start header: in-game uid, network (steam) id and slot digit.
    MatchHeader { uid: Vec<u8>, steam_id: Vec<u8>, slot: Vec<u8> },
    /// A mission-begin line carrying the map identifier.
    MissionBegin { map: Vec<u8> },
    /// A frame progress marker; filter-only, no state effect.
    FrameMarker,
    /// A player result line (regular form).
    PlayerResult { caps: PlayerCaptures },
    /// A player result line (alternate form, dropped player).
    PlayerResultAlt { caps: PlayerCaptures },
    /// The relic match id assigned to the current record.
    MatchIdAssigned { id: Vec<u8> },
    /// The termination line, with its status text.
    MissionEnd { status: Vec<u8> },
    /// The final simulated frame count.
    FrameCountFinal { frames: Vec<u8> },
    /// A profile line mapping a relic id to a network (steam) id.
    ProfileMapping { relic_id: Vec<u8>, steam_id: Vec<u8> },
    /// The local observer's own network (steam) id.
    OwnProfileId { steam_id: Vec<u8> },
}

/// Spec-level mirror of [`LineEvent`].
pub enum LineEventG {
    MatchHeader { uid: Seq<u8>, steam_id: Seq<u8>, slot: Seq<u8> },
    MissionBegin { map: Seq<u8> },
    FrameMarker,
    PlayerResult { caps: PlayerCapturesG },
    PlayerResultAlt { caps: PlayerCapturesG },
    MatchIdAssigned { id: Seq<u8> },
    MissionEnd { status: Seq<u8> },
    FrameCountFinal { frames: Seq<u8> },
    ProfileMapping { relic_id: Seq<u8>, steam_id: Seq<u8> },
    OwnProfileId { steam_id: Seq<u8> },
}

impl View for LineEvent {
    type V = LineEventG;

    open spec fn view(&self) -> LineEventG {
        match self {
            LineEvent::MatchHeader { uid, steam_id, slot } => LineEventG::MatchHeader {
                uid: uid@,
                steam_id: steam_id@,
                slot: slot@,
            },
            LineEvent::MissionBegin { map } => LineEventG::MissionBegin { map: map@ },
            LineEvent::FrameMarker => LineEventG::FrameMarker,
            LineEvent::PlayerResult { caps } => LineEventG::PlayerResult { caps: caps@ },
            LineEvent::PlayerResultAlt { caps } => LineEventG::PlayerResultAlt { caps: caps@ },
            LineEvent::MatchIdAssigned { id } => LineEventG::MatchIdAssigned { id: id@ },
            LineEvent::MissionEnd { status } => LineEventG::MissionEnd { status: status@ },
            LineEvent::FrameCountFinal { frames } => LineEventG::FrameCountFinal {
                frames: frames@,
            },
            LineEvent::ProfileMapping { relic_id, steam_id } => LineEventG::ProfileMapping {
                relic_id: relic_id@,
                steam_id: steam_id@,
            },
            LineEvent::OwnProfileId { steam_id } => LineEventG::OwnProfileId {
                steam_id: steam_id@,
            },
        }
    }
}

/// The frame-marker pattern: the line contains `GAME -- Frame`.
#[verifier::opaque]
pub open spec fn spec_frame_marker(s: Seq<u8>) -> Option<LineEventG> {
    if spec_find(s, "GAME -- Frame".spec_bytes(), 0) is Some {
        Some(LineEventG::FrameMarker)
    } else {
        None
    }
}

/// Matches the frame-marker pattern.
pub fn match_frame_marker(line: &Vec<u8>) -> (r: Option<LineEvent>)
    ensures
        r is Some <==> spec_frame_marker(line@) is Some,
        r matches Some(e) ==> spec_frame_marker(line@) == Some(e@),
{
    proof {
        reveal(spec_frame_marker);
    }
    let pat = "GAME -- Frame".as_bytes_vec();
    match find_from(line, &pat, 0) {
        Some(_) => Some(LineEvent::FrameMarker),
        None => None,
    }
}

/// The final-frame-count pattern: `Game Over at frame ` followed by the
/// captured frame digits.
#[verifier::opaque]
pub open spec fn spec_game_over(s: Seq<u8>) -> Option<LineEventG> {
    let pat = "Game Over at frame ".spec_bytes();
    match spec_find(s, pat, 0) {
        None => None,
        Some(a) => {
            let i = a + pat.len();
            let j = digits_end(s, i);
            if j > i {
                Some(LineEventG::FrameCountFinal { frames: s.subrange(i, j) })
            } else {
                None
            }
        },
    }
}

/// Matches the final-frame-count pattern.
pub fn match_game_over(line: &Vec<u8>) -> (r: Option<LineEvent>)
    ensures
        r is Some <==> spec_game_over(line@) is Some,
        r matches Some(e) ==> spec_game_over(line@) == Some(e@),
{
    proof {
        reveal(spec_game_over);
    }
    let pat = "Game Over at frame ".as_bytes_vec();
    match find_from(line, &pat, 0) {
        None => None,
        Some(a) => {
            proof {
                lemma_spec_find(line@, pat@, 0);
                assert(line@.len() == line.len());
            }
            let i = a + pat.len();
            let j = scan_digits(line, i);
            proof {
                lemma_digits_end(line@, i as int);
            }
            if j > i {
                Some(LineEvent::FrameCountFinal { frames: subvec(line, i, j) })
            } else {
                None
            }
        },
    }
}

/// The own-profile pattern: `Found profile: /steam/` followed by the
/// captured network id digits.
#[verifier::opaque]
pub open spec fn spec_found_profile(s: Seq<u8>) -> Option<LineEventG> {
    let pat = "Found profile: /steam/".spec_bytes();
    match spec_find(s, pat, 0) {
        None => None,
        Some(a) => {
            let i = a + pat.len();
            let j = digits_end(s, i);
            if j > i {
                Some(LineEventG::OwnProfileId { steam_id: s.subrange(i, j) })
            } else {
                None
            }
        },
    }
}

/// Matches the own-profile pattern.
pub fn match_found_profile(line: &Vec<u8>) -> (r: Option<LineEvent>)
    ensures
        r is Some <==> spec_found_profile(line@) is Some,
        r matches Some(e) ==> spec_found_profile(line@) == Some(e@),
{
    proof {
        reveal(spec_found_profile);
    }
    let pat = "Found profile: /steam/".as_bytes_vec();
    match find_from(line, &pat, 0) {
        None => None,
        Some(a) => {
            proof {
                lemma_spec_find(line@, pat@, 0);
                assert(line@.len() == line.len());
            }
            let i = a + pat.len();
            let j = scan_digits(line, i);
            proof {
                lemma_digits_end(line@, i as int);
            }
            if j > i {
                Some(LineEvent::OwnProfileId { steam_id: subvec(line, i, j) })
            } else {
                None
            }
        },
    }
}

/// The match-id pattern: a simulation-stats line whose digits after the
/// `<digit>:` prefix are the relic match id.
#[verifier::opaque]
pub open spec fn spec_sim_stats(s: Seq<u8>) -> Option<LineEventG> {
    let pat = "ReportSimStats - storing simulation results for match ".spec_bytes();
    match spec_find(s, pat, 0) {
        None => None,
        Some(a) => {
            let i = a + pat.len();
            if i < s.len() && is_digit(s[i]) && i + 1 < s.len() && s[i + 1] == 58 {
                let j = digits_end(s, i + 2);
                if j > i + 2 {
                    Some(LineEventG::MatchIdAssigned { id: s.subrange(i + 2, j) })
                } else {
                    None
                }
            } else {
                None
            }
        },
    }
}

/// Matches the match-id pattern.
pub fn match_sim_stats(line: &Vec<u8>) -> (r: Option<LineEvent>)
    ensures
        r is Some <==> spec_sim_stats(line@) is Some,
        r matches Some(e) ==> spec_sim_stats(line@) == Some(e@),
{
    proof {
        reveal(spec_sim_stats);
    }
    let pat = "ReportSimStats - storing simulation results for match ".as_bytes_vec();
    match find_from(line, &pat, 0) {
        None => None,
        Some(a) => {
            proof {
                lemma_spec_find(line@, pat@, 0);
                assert(line@.len() == line.len());
            }
            let i = a + pat.len();
            if i < line.len() && byte_is_digit(line[i]) && i + 1 < line.len() && line[i + 1] == 58 {
                let j = scan_digits(line, i + 2);
                proof {
                    lemma_digits_end(line@, i + 2);
                }
                if j > i + 2 {
                    Some(LineEvent::MatchIdAssigned { id: subvec(line, i + 2, j) })
                } else {
                    None
                }
            } else {
                None
            }
        },
    }
}

/// The profile-mapping pattern: `pid 0:<relic id>, /steam/<network id>`.
#[verifier::opaque]
pub open spec fn spec_pid_mapping(s: Seq<u8>) -> Option<LineEventG> {
    let pat = "pid 0:".spec_bytes();
    let mid = ", /steam/".spec_bytes();
    match spec_find(s, pat, 0) {
        None => None,
        Some(a) => {
            let i = a + pat.len();
            let j = digits_end(s, i);
            if j > i && is_match_at(s, mid, j) {
                let m = j + mid.len();
                let n = digits_end(s, m);
                if n > m {
                    Some(LineEventG::ProfileMapping {
                        relic_id: s.subrange(i, j),
                        steam_id: s.subrange(m, n),
                    })
                } else {
                    None
                }
            } else {
                None
            }
        },
    }
}

/// Matches the profile-mapping pattern.
pub fn match_pid_mapping(line: &Vec<u8>) -> (r: Option<LineEvent>)
    ensures
        r is Some <==> spec_pid_mapping(line@) is Some,
        r matches Some(e) ==> spec_pid_mapping(line@) == Some(e@),
{
    proof {
        reveal(spec_pid_mapping);
    }
    let pat = "pid 0:".as_bytes_vec();
    let mid = ", /steam/".as_bytes_vec();
    match find_from(line, &pat, 0) {
        None => None,
        Some(a) => {
            proof {
                lemma_spec_find(line@, pat@, 0);
                assert(line@.len() == line.len());
            }
            let i = a + pat.len();
            let j = scan_digits(line, i);
            proof {
                lemma_digits_end(line@, i as int);
            }
            if j > i && match_at(line, j, &mid) {
                let m = j + mid.len();
                let n = scan_digits(line, m);
                proof {
                    lemma_digits_end(line@, m as int);
                }
                if n > m {
                    Some(LineEvent::ProfileMapping {
                        relic_id: subvec(line, i, j),
                        steam_id: subvec(line, m, n),
                    })
                } else {
                    None
                }
            } else {
                None
            }
        },
    }
}

/// The match-header pattern: `Match Started - [<digits>:<uid> /steam/<id>],
/// slot =` followed by at least one non-digit and the slot digit.
#[verifier::opaque]
pub open spec fn spec_match_header(s: Seq<u8>) -> Option<LineEventG> {
    let pat = "Match Started - [".spec_bytes();
    let mid = " /steam/".spec_bytes();
    let slotpat = "], slot =".spec_bytes();
    match spec_find(s, pat, 0) {
        None => None,
        Some(a) => {
            let i = a + pat.len();
            let j = digits_end(s, i);
            if j > i && j < s.len() && s[j] == 58 {
                match spec_find(s, mid, j + 2) {
                    None => None,
                    Some(k) => {
                        let m = k + mid.len();
                        let n = digits_end(s, m);
                        if n > m && is_match_at(s, slotpat, n) {
                            let q = n + slotpat.len();
                            let w = nondigits_end(s, q);
                            if w > q && w < s.len() && is_digit(s[w]) {
                                Some(
                                    LineEventG::MatchHeader {
                                        uid: s.subrange(j + 1, k),
                                        steam_id: s.subrange(m, n),
                                        slot: s.subrange(w, w + 1),
                                    },
                                )
                            } else {
                                None
                            }
                        } else {
                            None
                        }
                    },
                }
            } else {
                None
            }
        },
    }
}

/// Matches the match-header pattern.
pub fn match_header(line: &Vec<u8>) -> (r: Option<LineEvent>)
    ensures
        r is Some <==> spec_match_header(line@) is Some,
        r matches Some(e) ==> spec_match_header(line@) == Some(e@),
{
    proof {
        reveal(spec_match_header);
    }
    let pat = "Match Started - [".as_bytes_vec();
    let mid = " /steam/".as_bytes_vec();
    let slotpat = "], slot =".as_bytes_vec();
    match find_from(line, &pat, 0) {
        None => None,
        Some(a) => {
            proof {
                lemma_spec_find(line@, pat@, 0);
                assert(line@.len() == line.len());
            }
            let i = a + pat.len();
            let j = scan_digits(line, i);
            proof {
                lemma_digits_end(line@, i as int);
            }
            if j > i && j < line.len() && line[j] == 58 {
                if line.len() - j < 2 {
                    assert(spec_find(line@, mid@, j as int + 2) is None);
                    return None;
                }
                match find_from(line, &mid, j + 2) {
                    None => None,
                    Some(k) => {
                        proof {
                            lemma_spec_find(line@, mid@, j as int + 2);
                        }
                        let m = k + mid.len();
                        let n = scan_digits(line, m);
                        proof {
                            lemma_digits_end(line@, m as int);
                        }
                        if n > m && match_at(line, n, &slotpat) {
                            let q = n + slotpat.len();
                            let w = scan_nondigits(line, q);
                            proof {
                                lemma_nondigits_end(line@, q as int);
                            }
                            if w > q && w < line.len() && byte_is_digit(line[w]) {
                                Some(
                                    LineEvent::MatchHeader {
                                        uid: subvec(line, j + 1, k),
                                        steam_id: subvec(line, m, n),
                                        slot: subvec(line, w, w + 1),
                                    },
                                )
                            } else {
                                None
                            }
                        } else {
                            None
                        }
                    },
                }
            } else {
                None
            }
        },
    }
}

/// The tail a mission-begin line must carry after the map name:
/// ` (<digit> Humans, <digit> Computers)` starting at position `k`.
pub open spec fn spec_mission_tail_at(s: Seq<u8>, k: int) -> bool {
    let t0 = " (".spec_bytes();
    let t1 = " Humans, ".spec_bytes();
    let t2 = " Computers)".spec_bytes();
    let d1 = k + t0.len();
    let d2 = d1 + 1 + t1.len();
    &&& is_match_at(s, t0, k)
    &&& d1 < s.len() && is_digit(s[d1])
    &&& is_match_at(s, t1, d1 + 1)
    &&& d2 < s.len() && is_digit(s[d2])
    &&& is_match_at(s, t2, d2 + 1)
}

/// Exec check for [`spec_mission_tail_at`].
fn mission_tail_at(line: &Vec<u8>, k: usize) -> (r: bool)
    ensures
        r == spec_mission_tail_at(line@, k as int),
{
    let t0 = " (".as_bytes_vec();
    let t1 = " Humans, ".as_bytes_vec();
    let t2 = " Computers)".as_bytes_vec();
    if !match_at(line, k, &t0) {
        return false;
    }
    proof {
        assert(line@.len() == line.len());
    }
    let d1 = k + t0.len();
    if !(d1 < line.len() && byte_is_digit(line[d1])) {
        return false;
    }
    if !match_at(line, d1 + 1, &t1) {
        return false;
    }
    let d2 = d1 + 1 + t1.len();
    if !(d2 < line.len() && byte_is_digit(line[d2])) {
        return false;
    }
    match_at(line, d2 + 1, &t2)
}

/// First position at or after `from` where the mission-begin tail starts.
pub open spec fn spec_mission_tail_find(s: Seq<u8>, from: int) -> Option<int>
    decreases s.len() - from,
{
    if from < 0 || from >= s.len() {
        None
    } else if spec_mission_tail_at(s, from) {
        Some(from)
    } else {
        spec_mission_tail_find(s, from + 1)
    }
}

/// The mission-begin pattern: `Beginning mission ` followed by the captured
/// map name and the `(<n> Humans, <n> Computers)` tail.
#[verifier::opaque]
pub open spec fn spec_mission_begin(s: Seq<u8>) -> Option<LineEventG> {
    let pat = "Beginning mission ".spec_bytes();
    match spec_find(s, pat, 0) {
        None => None,
        Some(a) => {
            let start = a + pat.len();
            match spec_mission_tail_find(s, start + 1) {
                None => None,
                Some(k) => Some(LineEventG::MissionBegin { map: s.subrange(start, k) }),
            }
        },
    }
}

/// Matches the mission-begin pattern.
#[verifier::loop_isolation(false)]
pub fn match_mission_begin(line: &Vec<u8>) -> (r: Option<LineEvent>)
    ensures
        r is Some <==> spec_mission_begin(line@) is Some,
        r matches Some(e) ==> spec_mission_begin(line@) == Some(e@),
{
    proof {
        reveal(spec_mission_begin);
    }
    let pat = "Beginning mission ".as_bytes_vec();
    match find_from(line, &pat, 0) {
        None => None,
        Some(a) => {
            proof {
                lemma_spec_find(line@, pat@, 0);
                assert(line@.len() == line.len());
            }
            let start = a + pat.len();
            if start >= line.len() {
                assert(spec_mission_tail_find(line@, start as int + 1) is None);
                return None;
            }
            let mut k: usize = start + 1;
            while k < line.len()
                invariant
                    start + 1 <= k,
                    spec_mission_tail_find(line@, start as int + 1) == spec_mission_tail_find(
                        line@,
                        k as int,
                    ),
                decreases line.len() - k,
            {
                if mission_tail_at(line, k) {
                    assert(spec_mission_tail_find(line@, k as int) == Some(k as int));
                    return Some(LineEvent::MissionBegin { map: subvec(line, start, k) });
                }
                assert(spec_mission_tail_find(line@, k as int) == spec_mission_tail_find(
                    line@,
                    k as int + 1,
                ));
                k += 1;
            }
            assert(spec_mission_tail_find(line@, k as int) is None);
            None
        },
    }
}

/// The mission-end pattern: `Ending mission - '` followed by the captured
/// status text, free of digits, up to the next apostrophe.
#[verifier::opaque]
pub open spec fn spec_mission_end(s: Seq<u8>) -> Option<LineEventG> {
    let pat = "Ending mission - '".spec_bytes();
    match spec_find(s, pat, 0) {
        None => None,
        Some(a) => {
            let st = a + pat.len();
            match spec_find_byte(s, 39, st + 1) {
                None => None,
                Some(e) => if forall|k: int| st <= k < e ==> !is_digit(s[k]) {
                    Some(LineEventG::MissionEnd { status: s.subrange(st, e) })
                } else {
                    None
                },
            }
        },
    }
}

/// Matches the mission-end pattern.
pub fn match_mission_end(line: &Vec<u8>) -> (r: Option<LineEvent>)
    ensures
        r is Some <==> spec_mission_end(line@) is Some,
        r matches Some(e) ==> spec_mission_end(line@) == Some(e@),
{
    proof {
        reveal(spec_mission_end);
    }
    let pat = "Ending mission - '".as_bytes_vec();
    match find_from(line, &pat, 0) {
        None => None,
        Some(a) => {
            proof {
                lemma_spec_find(line@, pat@, 0);
                assert(line@.len() == line.len());
            }
            let st = a + pat.len();
            if st >= line.len() {
                assert(spec_find_byte(line@, 39, st as int + 1) is None);
                return None;
            }
            match find_byte(line, 39, st + 1) {
                None => None,
                Some(e) => {
                    proof {
                        lemma_spec_find_byte(line@, 39, st as int + 1);
                    }
                    if range_has_digit(line, st, e) {
                        None
                    } else {
                        Some(LineEvent::MissionEnd { status: subvec(line, st, e) })
                    }
                },
            }
        },
    }
}

/// The regular player-result pattern: `SimID:`, `raceID:`, `teamID:`, a
/// `uid:<digits>:<relic id>` group and a `result:<digit>:<status>` tail.
#[verifier::opaque]
pub open spec fn spec_player_result(s: Seq<u8>) -> Option<LineEventG> {
    let p_sim = "SimID:".spec_bytes();
    let p_race = ", raceID:".spec_bytes();
    let p_team = ", teamID:".spec_bytes();
    let p_uid = ", uid:".spec_bytes();
    let p_res = ", result:".spec_bytes();
    match spec_find(s, p_sim, 0) {
        None => None,
        Some(a) => {
            let i1 = a + p_sim.len();
            let j1 = digits_end(s, i1);
            if j1 > i1 && is_match_at(s, p_race, j1) {
                let i2 = j1 + p_race.len();
                let j2 = digits_end(s, i2);
                if j2 > i2 && is_match_at(s, p_team, j2) {
                    let i3 = j2 + p_team.len();
                    let j3 = digits_end(s, i3);
                    if j3 > i3 && is_match_at(s, p_uid, j3) {
                        let i4 = j3 + p_uid.len();
                        let j4 = digits_end(s, i4);
                        if j4 > i4 && j4 < s.len() && s[j4] == 58 {
                            let i5 = j4 + 1;
                            let j5 = digits_end(s, i5);
                            if j5 > i5 && is_match_at(s, p_res, j5) {
                                let i6 = j5 + p_res.len();
                                if i6 < s.len() && is_digit(s[i6]) && i6 + 1 < s.len() && s[i6 + 1]
                                    == 58 && i6 + 2 < s.len() {
                                    Some(
                                        LineEventG::PlayerResult {
                                            caps: PlayerCapturesG {
                                                sim_id: s.subrange(i1, j1),
                                                race: s.subrange(i2, j2),
                                                team_id: s.subrange(i3, j3),
                                                id: s.subrange(i5, j5),
                                                status: s.subrange(i6 + 2, s.len() as int),
                                            },
                                        },
                                    )
                                } else {
                                    None
                                }
                            } else {
                                None
                            }
                        } else {
                            None
                        }
                    } else {
                        None
                    }
                } else {
                    None
                }
            } else {
                None
            }
        },
    }
}

/// Matches the regular player-result pattern.
pub fn match_player_result(line: &Vec<u8>) -> (r: Option<LineEvent>)
    ensures
        r is Some <==> spec_player_result(line@) is Some,
        r matches Some(e) ==> spec_player_result(line@) == Some(e@),
{
    proof {
        reveal(spec_player_result);
    }
    let p_sim = "SimID:".as_bytes_vec();
    let p_race = ", raceID:".as_bytes_vec();
    let p_team = ", teamID:".as_bytes_vec();
    let p_uid = ", uid:".as_bytes_vec();
    let p_res = ", result:".as_bytes_vec();
    match find_from(line, &p_sim, 0) {
        None => None,
        Some(a) => {
            proof {
                lemma_spec_find(line@, p_sim@, 0);
                assert(line@.len() == line.len());
            }
            let i1 = a + p_sim.len();
            let j1 = scan_digits(line, i1);
            proof {
                lemma_digits_end(line@, i1 as int);
            }
            if j1 > i1 && match_at(line, j1, &p_race) {
                let i2 = j1 + p_race.len();
                let j2 = scan_digits(line, i2);
                proof {
                    lemma_digits_end(line@, i2 as int);
                }
                if j2 > i2 && match_at(line, j2, &p_team) {
                    let i3 = j2 + p_team.len();
                    let j3 = scan_digits(line, i3);
                    proof {
                        lemma_digits_end(line@, i3 as int);
                    }
                    if j3 > i3 && match_at(line, j3, &p_uid) {
                        let i4 = j3 + p_uid.len();
                        let j4 = scan_digits(line, i4);
                        proof {
                            lemma_digits_end(line@, i4 as int);
                        }
                        if j4 > i4 && j4 < line.len() && line[j4] == 58 {
                            let i5 = j4 + 1;
                            let j5 = scan_digits(line, i5);
                            proof {
                                lemma_digits_end(line@, i5 as int);
                            }
                            if j5 > i5 && match_at(line, j5, &p_res) {
                                let i6 = j5 + p_res.len();
                                if i6 < line.len() && byte_is_digit(line[i6]) && i6 + 1 < line.len()
                                    && line[i6 + 1] == 58 && line.len() - i6 > 2 {
                                    Some(
                                        LineEvent::PlayerResult {
                                            caps: PlayerCaptures {
                                                sim_id: subvec(line, i1, j1),
                                                race: subvec(line, i2, j2),
                                                team_id: subvec(line, i3, j3),
                                                id: subvec(line, i5, j5),
                                                status: subvec(line, i6 + 2, line.len()),
                                            },
                                        },
                                    )
                                } else {
                                    None
                                }
                            } else {
                                None
                            }
                        } else {
                            None
                        }
                    } else {
                        None
                    }
                } else {
                    None
                }
            } else {
                None
            }
        },
    }
}

/// The alternate (dropped-player) pattern: like the regular form up to
/// `teamID`, then `uid:[<digits>:<uid>]` and no result group.
#[verifier::opaque]
pub open spec fn spec_player_alt(s: Seq<u8>) -> Option<LineEventG> {
    let p_sim = "SimID:".spec_bytes();
    let p_race = ", raceID:".spec_bytes();
    let p_team = ", teamID:".spec_bytes();
    let p_uid = ", uid:[".spec_bytes();
    match spec_find(s, p_sim, 0) {
        None => None,
        Some(a) => {
            let i1 = a + p_sim.len();
            let j1 = digits_end(s, i1);
            if j1 > i1 && is_match_at(s, p_race, j1) {
                let i2 = j1 + p_race.len();
                let j2 = digits_end(s, i2);
                if j2 > i2 && is_match_at(s, p_team, j2) {
                    let i3 = j2 + p_team.len();
                    let j3 = digits_end(s, i3);
                    if j3 > i3 && is_match_at(s, p_uid, j3) {
                        let i4 = j3 + p_uid.len();
                        let j4 = digits_end(s, i4);
                        if j4 > i4 && j4 < s.len() && s[j4] == 58 {
                            match spec_find_byte(s, 93, j4 + 2) {
                                None => None,
                                Some(e) => Some(
                                    LineEventG::PlayerResultAlt {
                                        caps: PlayerCapturesG {
                                            sim_id: s.subrange(i1, j1),
                                            race: s.subrange(i2, j2),
                                            team_id: s.subrange(i3, j3),
                                            id: s.subrange(j4 + 1, e),
                                            status: Seq::empty(),
                                        },
                                    },
                                ),
                            }
                        } else {
                            None
                        }
                    } else {
                        None
                    }
                } else {
                    None
                }
            } else {
                None
            }
        },
    }
}

/// Matches the alternate player-result pattern.
pub fn match_player_alt(line: &Vec<u8>) -> (r: Option<LineEvent>)
    ensures
        r is Some <==> spec_player_alt(line@) is Some,
        r matches Some(e) ==> spec_player_alt(line@) == Some(e@),
{
    proof {
        reveal(spec_player_alt);
    }
    let p_sim = "SimID:".as_bytes_vec();
    let p_race = ", raceID:".as_bytes_vec();
    let p_team = ", teamID:".as_bytes_vec();
    let p_uid = ", uid:[".as_bytes_vec();
    match find_from(line, &p_sim, 0) {
        None => None,
        Some(a) => {
            proof {
                lemma_spec_find(line@, p_sim@, 0);
                assert(line@.len() == line.len());
            }
            let i1 = a + p_sim.len();
            let j1 = scan_digits(line, i1);
            proof {
                lemma_digits_end(line@, i1 as int);
            }
            if j1 > i1 && match_at(line, j1, &p_race) {
                let i2 = j1 + p_race.len();
                let j2 = scan_digits(line, i2);
                proof {
                    lemma_digits_end(line@, i2 as int);
                }
                if j2 > i2 && match_at(line, j2, &p_team) {
                    let i3 = j2 + p_team.len();
                    let j3 = scan_digits(line, i3);
                    proof {
                        lemma_digits_end(line@, i3 as int);
                    }
                    if j3 > i3 && match_at(line, j3, &p_uid) {
                        let i4 = j3 + p_uid.len();
                        let j4 = scan_digits(line, i4);
                        proof {
                            lemma_digits_end(line@, i4 as int);
                        }
                        if j4 > i4 && j4 < line.len() && line[j4] == 58 {
                            if line.len() - j4 < 2 {
                                assert(spec_find_byte(line@, 93, j4 as int + 2) is None);
                                return None;
                            }
                            match find_byte(line, 93, j4 + 2) {
                                None => None,
                                Some(e) => {
                                    proof {
                                        lemma_spec_find_byte(line@, 93, j4 as int + 2);
                                    }
                                    Some(
                                        LineEvent::PlayerResultAlt {
                                            caps: PlayerCaptures {
                                                sim_id: subvec(line, i1, j1),
                                                race: subvec(line, i2, j2),
                                                team_id: subvec(line, i3, j3),
                                                id: subvec(line, j4 + 1, e),
                                                status: Vec::new(),
                                            },
                                        },
                                    )
                                },
                            }
                        } else {
                            None
                        }
                    } else {
                        None
                    }
                } else {
                    None
                }
            } else {
                None
            }
        },
    }
}

/// 1 when a pattern matched, 0 otherwise.
pub open spec fn one_if_some(o: Option<LineEventG>) -> int {
    if o is Some {
        1
    } else {
        0
    }
}

/// How many of the ten structural patterns match the line.
pub open spec fn spec_match_count(s: Seq<u8>) -> int {
    one_if_some(spec_match_header(s)) + one_if_some(spec_mission_begin(s)) + one_if_some(
        spec_frame_marker(s),
    ) + one_if_some(spec_player_result(s)) + one_if_some(spec_player_alt(s)) + one_if_some(
        spec_sim_stats(s),
    ) + one_if_some(spec_mission_end(s)) + one_if_some(spec_game_over(s)) + one_if_some(
        spec_pid_mapping(s),
    ) + one_if_some(spec_found_profile(s))
}

/// The event of the first matching pattern; when [`spec_match_count`] is 1,
/// this is the event of the only matching pattern.
pub open spec fn spec_unique_event(s: Seq<u8>) -> Option<LineEventG> {
    match spec_match_header(s) {
        Some(e) => Some(e),
        None => match spec_mission_begin(s) {
            Some(e) => Some(e),
            None => match spec_frame_marker(s) {
                Some(e) => Some(e),
                None => match spec_player_result(s) {
                    Some(e) => Some(e),
                    None => match spec_player_alt(s) {
                        Some(e) => Some(e),
                        None => match spec_sim_stats(s) {
                            Some(e) => Some(e),
                            None => match spec_mission_end(s) {
                                Some(e) => Some(e),
                                None => match spec_game_over(s) {
                                    Some(e) => Some(e),
                                    None => match spec_pid_mapping(s) {
                                        Some(e) => Some(e),
                                        None => spec_found_profile(s),
                                    },
                                },
                            },
                        },
                    },
                },
            },
        },
    }
}

/// Classification of one retained line: the event of the single matching
/// pattern, or an integrity error when zero or several patterns match.
pub open spec fn spec_classify(s: Seq<u8>) -> Result<LineEventG, ()> {
    if spec_match_count(s) == 1 {
        match spec_unique_event(s) {
            Some(e) => Ok(e),
            None => Err(()),
        }
    } else {
        Err(())
    }
}

/// Classifies one retained line against all ten patterns. The line must
/// match exactly one of them; any other count is an integrity violation
/// reported as a parse error, carrying the offending line, rather than
/// silently resolved.
#[verifier::rlimit(100)]
pub fn classify(line: &Vec<u8>) -> (r: Result<LineEvent, ParserAppError>)
    ensures
        r matches Ok(e) ==> spec_classify(line@) == Ok::<LineEventG, ()>(e@),
        r is Ok <==> spec_match_count(line@) == 1,
        r matches Err(err) ==> err matches ParserAppError::LogfileParseError(m) && m@
            == "Found more than 1 game to parse: "@ + crate::ingest::lossy_text_of(line@),
{
    let m0 = match_header(line);
    let m1 = match_mission_begin(line);
    let m2 = match_frame_marker(line);
    let m3 = match_player_result(line);
    let m4 = match_player_alt(line);
    let m5 = match_sim_stats(line);
    let m6 = match_mission_end(line);
    let m7 = match_game_over(line);
    let m8 = match_pid_mapping(line);
    let m9 = match_found_profile(line);
    let count: usize = (if m0.is_some() {
        1
    } else {
        0
    }) + (if m1.is_some() {
        1
    } else {
        0
    }) + (if m2.is_some() {
        1
    } else {
        0
    }) + (if m3.is_some() {
        1
    } else {
        0
    }) + (if m4.is_some() {
        1
    } else {
        0
    }) + (if m5.is_some() {
        1
    } else {
        0
    }) + (if m6.is_some() {
        1
    } else {
        0
    }) + (if m7.is_some() {
        1
    } else {
        0
    }) + (if m8.is_some() {
        1
    } else {
        0
    }) + (if m9.is_some() {
        1
    } else {
        0
    });
    if count != 1 {
        let mut message = String::from_str("Found more than 1 game to parse: ");
        message.append(crate::ingest::bytes_to_text(line).as_str());
        return Err(ParserAppError::LogfileParseError(message));
    }
    if let Some(e) = m0 {
        return Ok(e);
    }
    if let Some(e) = m1 {
        return Ok(e);
    }
    if let Some(e) = m2 {
        return Ok(e);
    }
    if let Some(e) = m3 {
        return Ok(e);
    }
    if let Some(e) = m4 {
        return Ok(e);
    }
    if let Some(e) = m5 {
        return Ok(e);
    }
    if let Some(e) = m6 {
        return Ok(e);
    }
    if let Some(e) = m7 {
        return Ok(e);
    }
    if let Some(e) = m8 {
        return Ok(e);
    }
    if let Some(e) = m9 {
        return Ok(e);
    }
    unreached()
}

} // verus!
