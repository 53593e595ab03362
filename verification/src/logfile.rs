//! The record builder: a state machine folding classified lines into an
//! ordered list of match records, correlating player identities as it
//! goes. [`spec_run`] is the authoritative statement of what a parse
//! produces.
use vstd::prelude::*;
use vstd::string::StrSliceExecFns;
use vstd::string::StringExecFns;
use vstd::string::StringSliceAdditionalSpecFns;
use vstd::utf8::{decode_utf8, valid_utf8};

use crate::correlate::{
    bindings_of, find_relic_from, find_uid_from, upsert_header, upsert_relic,
    upsert_header_exec, upsert_relic_exec, find_relic, find_uid, IdBinding, IdBindingG,
};
use crate::error::{ParserAppError, ParserAppResult};
use crate::ingest::{bytes_to_text, ingest, lossy_text_of, spec_ingest, views_of};
use crate::patterns::{classify, spec_classify, LineEvent, LineEventG};
use crate::player_info::{
    convert_match_to_int, spec_conv_int, spec_default_player, spec_parse_player,
    LogfilePlayerInfo,
};
use crate::text::{bytes_eq, digits_val, parse_usize, subvec};

verus! {

/// One reconstructed match record. `id` and `frames` stay 0 and
/// `complete` false until the lines carrying them are seen.
#[derive(Clone, Debug, PartialEq)]
pub struct LogfileGameInfo {
    pub aborted: bool,
    pub id: usize,
    pub map: String,
    pub frames: usize,
    pub ended_at: String,
    pub winner: u8,
    pub players: Vec<LogfilePlayerInfo>,
    pub complete: bool,
}

/// Spec-level view of one match record.
pub struct GameModel {
    pub aborted: bool,
    pub id: usize,
    pub map: Seq<char>,
    pub frames: usize,
    pub ended_at: Seq<char>,
    pub winner: u8,
    pub players: Seq<LogfilePlayerInfo>,
    pub complete: bool,
}

impl View for LogfileGameInfo {
    type V = GameModel;

    open spec fn view(&self) -> GameModel {
        GameModel {
            aborted: self.aborted,
            id: self.id,
            map: self.map@,
            frames: self.frames,
            ended_at: self.ended_at@,
            winner: self.winner,
            players: self.players@,
            complete: self.complete,
        }
    }
}

/// A record as it is first opened: everything defaulted, `map` set.
pub open spec fn spec_blank_game(map: Seq<char>) -> GameModel {
    GameModel {
        aborted: false,
        id: 0,
        map,
        frames: 0,
        ended_at: Seq::empty(),
        winner: 0,
        players: Seq::empty(),
        complete: false,
    }
}

impl LogfileGameInfo {
    /// A record with every field at its default.
    pub fn new() -> (r: Self)
        ensures
            r@ == spec_blank_game(Seq::<char>::empty()),
    {
        LogfileGameInfo {
            aborted: false,
            id: 0,
            map: String::new(),
            frames: 0,
            ended_at: String::new(),
            winner: 0,
            players: Vec::new(),
            complete: false,
        }
    }

    /// Whether the record's termination line has been seen.
    pub fn block_complete(&self) -> (r: bool)
        ensures
            r == self.complete,
    {
        self.complete
    }
}

impl Default for LogfileGameInfo {
    fn default() -> (r: Self)
        ensures
            r@ == spec_blank_game(Seq::<char>::empty()),
    {
        LogfileGameInfo::new()
    }
}

/// The views of a vector of match records.
pub open spec fn games_of(vs: Seq<LogfileGameInfo>) -> Seq<GameModel> {
    vs.map_values(|g: LogfileGameInfo| g@)
}

/// The whole state the record builder folds over the retained lines:
/// the records so far, the observer's own network id, and the identity
/// correlator (scoped to one parse invocation).
pub struct ParseModel {
    pub games: Seq<GameModel>,
    pub steam_id: usize,
    pub idmap: Seq<IdBindingG>,
}

/// Why a line stops the parse: an ambiguous or unrecognized line
/// (carried in the failure), or a numeric field that does not fit the
/// machine word where the caller is told rather than given a defaulted
/// value.
pub enum StepFailure {
    Ambiguous { line: Seq<u8> },
    BadMatchId,
    BadFrames,
    BadProfileId,
}

/// The message each failure carries; an integrity violation names the
/// offending line.
pub open spec fn failure_text(f: StepFailure) -> Seq<char> {
    match f {
        StepFailure::Ambiguous { line } => "Found more than 1 game to parse: "@ + lossy_text_of(
            line,
        ),
        StepFailure::BadMatchId => "Could not parse match relic id in logfile"@,
        StepFailure::BadFrames => "Could not parse number of frames from logfile"@,
        StepFailure::BadProfileId => "could not read player profile steam id from logfile"@,
    }
}

/// The given player appended to the last record's player sequence.
pub open spec fn push_player(games: Seq<GameModel>, p: LogfilePlayerInfo) -> Seq<GameModel> {
    games.update(
        games.len() - 1,
        GameModel { players: games.last().players.push(p), ..games.last() },
    )
}

/// How one classified event transforms the parse state. Events that need
/// an open record while none exists are dropped, not fatal; numeric
/// overflow of the match id, frame count or own profile id is fatal, as
/// the caller must not see a made-up value there.
#[verifier::opaque]
pub open spec fn spec_apply(st: ParseModel, ev: LineEventG) -> Result<ParseModel, StepFailure> {
    match ev {
        LineEventG::MatchHeader { uid, steam_id, slot } => Ok(
            ParseModel {
                idmap: upsert_header(st.idmap, spec_conv_int(steam_id), spec_conv_int(slot), uid),
                ..st
            },
        ),
        LineEventG::MissionBegin { map } => {
            let text = lossy_text_of(map);
            if st.games.len() == 0 || st.games.last().complete {
                Ok(ParseModel { games: st.games.push(spec_blank_game(text)), ..st })
            } else {
                Ok(
                    ParseModel {
                        games: st.games.update(
                            st.games.len() - 1,
                            GameModel { map: text, ..st.games.last() },
                        ),
                        ..st
                    },
                )
            }
        },
        LineEventG::FrameMarker => Ok(st),
        LineEventG::PlayerResult { caps } => {
            if st.games.len() == 0 {
                Ok(st)
            } else {
                let base = spec_parse_player(spec_default_player(), caps, false);
                let resolved = match find_relic_from(st.idmap, base.relic_id, 0) {
                    Some(i) => LogfilePlayerInfo {
                        steam_id: st.idmap[i].steam_id,
                        slot: st.idmap[i].entry.slot,
                        ..base
                    },
                    None => base,
                };
                Ok(ParseModel { games: push_player(st.games, resolved), ..st })
            }
        },
        LineEventG::PlayerResultAlt { caps } => {
            if st.games.len() == 0 {
                Ok(st)
            } else {
                let base = spec_parse_player(spec_default_player(), caps, true);
                let resolved = match find_uid_from(st.idmap, caps.id, 0) {
                    Some(i) => LogfilePlayerInfo {
                        steam_id: st.idmap[i].steam_id,
                        slot: st.idmap[i].entry.slot,
                        relic_id: st.idmap[i].entry.relic_id,
                        ..base
                    },
                    None => base,
                };
                Ok(ParseModel { games: push_player(st.games, resolved), ..st })
            }
        },
        LineEventG::MatchIdAssigned { id } => {
            if st.games.len() == 0 {
                Ok(st)
            } else if digits_val(id, 0, id.len() as int) <= usize::MAX {
                Ok(
                    ParseModel {
                        games: st.games.update(
                            st.games.len() - 1,
                            GameModel {
                                id: digits_val(id, 0, id.len() as int) as usize,
                                ..st.games.last()
                            },
                        ),
                        ..st
                    },
                )
            } else {
                Err(StepFailure::BadMatchId)
            }
        },
        LineEventG::MissionEnd { status } => {
            if st.games.len() == 0 {
                Ok(st)
            } else {
                Ok(
                    ParseModel {
                        games: st.games.update(
                            st.games.len() - 1,
                            GameModel {
                                aborted: status != "Game over".spec_bytes(),
                                complete: true,
                                ..st.games.last()
                            },
                        ),
                        ..st
                    },
                )
            }
        },
        LineEventG::FrameCountFinal { frames } => {
            if st.games.len() == 0 {
                Ok(st)
            } else if digits_val(frames, 0, frames.len() as int) <= usize::MAX {
                Ok(
                    ParseModel {
                        games: st.games.update(
                            st.games.len() - 1,
                            GameModel {
                                frames: digits_val(frames, 0, frames.len() as int) as usize,
                                ..st.games.last()
                            },
                        ),
                        ..st
                    },
                )
            } else {
                Err(StepFailure::BadFrames)
            }
        },
        LineEventG::ProfileMapping { relic_id, steam_id } => Ok(
            ParseModel {
                idmap: upsert_relic(st.idmap, spec_conv_int(steam_id), spec_conv_int(relic_id)),
                ..st
            },
        ),
        LineEventG::OwnProfileId { steam_id } => {
            if digits_val(steam_id, 0, steam_id.len() as int) <= usize::MAX {
                Ok(
                    ParseModel {
                        steam_id: digits_val(steam_id, 0, steam_id.len() as int) as usize,
                        ..st
                    },
                )
            } else {
                Err(StepFailure::BadProfileId)
            }
        },
    }
}

/// How one retained line transforms the parse state: classification
/// followed by [`spec_apply`].
pub open spec fn spec_step(st: ParseModel, line: Seq<u8>) -> Result<ParseModel, StepFailure> {
    match spec_classify(line) {
        Err(()) => Err(StepFailure::Ambiguous { line }),
        Ok(ev) => spec_apply(st, ev),
    }
}

/// The fold of [`spec_step`] over a line sequence, stopping at the
/// first failure.
pub open spec fn spec_run(st: ParseModel, lines: Seq<Seq<u8>>) -> Result<ParseModel, StepFailure>
    decreases lines.len(),
{
    if lines.len() == 0 {
        Ok(st)
    } else {
        match spec_step(st, lines[0]) {
            Err(f) => Err(f),
            Ok(st2) => spec_run(st2, lines.drop_first()),
        }
    }
}

/// Applies one classified event to the builder state, exactly as
/// [`spec_apply`] states; a failure carries the message
/// [`failure_text`] gives it.
#[verifier::rlimit(100)]
#[verifier::spinoff_prover]
fn apply_event(
    games: &mut Vec<LogfileGameInfo>,
    own_steam_id: &mut usize,
    match_header: &mut Vec<IdBinding>,
    ev: LineEvent,
) -> (r: Result<(), ParserAppError>)
    ensures
        ({
            let cur = ParseModel {
                games: games_of(old(games)@),
                steam_id: *old(own_steam_id),
                idmap: bindings_of(old(match_header)@),
            };
            let new = ParseModel {
                games: games_of(final(games)@),
                steam_id: *final(own_steam_id),
                idmap: bindings_of(final(match_header)@),
            };
            match spec_apply(cur, ev@) {
                Ok(m) => r is Ok && new == m,
                Err(f) => r matches Err(e) && (e matches ParserAppError::LogfileParseError(msg)
                    && msg@ == failure_text(f)),
            }
        }),
{
    proof {
        reveal(spec_apply);
    }
    let ghost cur = ParseModel {
        games: games_of(games@),
        steam_id: *own_steam_id,
        idmap: bindings_of(match_header@),
    };
    match ev {
        LineEvent::MatchHeader { uid, steam_id, slot } => {
            let key = convert_match_to_int(&steam_id);
            let sl = convert_match_to_int(&slot);
            upsert_header_exec(match_header, key, sl, uid);
            Ok(())
        },
        LineEvent::MissionBegin { map } => {
            let text = bytes_to_text(&map);
            if games.len() == 0 || games[games.len() - 1].complete {
                let mut g = LogfileGameInfo::new();
                g.map = text;
                games.push(g);
                assert(games_of(games@) =~= cur.games.push(
                    spec_blank_game(lossy_text_of(map@)),
                ));
            } else {
                let mut g = games.pop().unwrap();
                g.map = text;
                games.push(g);
                assert(games_of(games@) =~= cur.games.update(
                    cur.games.len() - 1,
                    GameModel { map: lossy_text_of(map@), ..cur.games.last() },
                ));
            }
            Ok(())
        },
        LineEvent::FrameMarker => Ok(()),
        LineEvent::PlayerResult { caps } => {
            if games.len() > 0 {
                let mut player = LogfilePlayerInfo::new();
                player.parse(&caps, false);
                match find_relic(match_header, player.relic_id) {
                    Some(idx) => {
                        proof {
                            crate::correlate::lemma_find_relic_from(
                                cur.idmap,
                                player.relic_id,
                                0,
                            );
                        }
                        player.steam_id = match_header[idx].steam_id;
                        player.slot = match_header[idx].entry.slot;
                    },
                    None => {},
                }
                let mut g = games.pop().unwrap();
                g.players.push(player);
                games.push(g);
                assert(games_of(games@) =~= push_player(cur.games, player));
            }
            Ok(())
        },
        LineEvent::PlayerResultAlt { caps } => {
            if games.len() > 0 {
                let mut player = LogfilePlayerInfo::new();
                player.parse(&caps, true);
                match find_uid(match_header, &caps.id) {
                    Some(idx) => {
                        proof {
                            crate::correlate::lemma_find_uid_from(cur.idmap, caps.id@, 0);
                        }
                        player.steam_id = match_header[idx].steam_id;
                        player.slot = match_header[idx].entry.slot;
                        player.relic_id = match_header[idx].entry.relic_id;
                    },
                    None => {},
                }
                let mut g = games.pop().unwrap();
                g.players.push(player);
                games.push(g);
                assert(games_of(games@) =~= push_player(cur.games, player));
            }
            Ok(())
        },
        LineEvent::MatchIdAssigned { id } => {
            if games.len() > 0 {
                match parse_usize(&id, 0, id.len()) {
                    Some(v) => {
                        let mut g = games.pop().unwrap();
                        g.id = v;
                        games.push(g);
                        assert(games_of(games@) =~= cur.games.update(
                            cur.games.len() - 1,
                            GameModel { id: v, ..cur.games.last() },
                        ));
                        Ok(())
                    },
                    None => Err(
                        ParserAppError::LogfileParseError(
                            String::from_str("Could not parse match relic id in logfile"),
                        ),
                    ),
                }
            } else {
                Ok(())
            }
        },
        LineEvent::MissionEnd { status } => {
            if games.len() > 0 {
                let regular = bytes_eq(&status, &"Game over".as_bytes_vec());
                let mut g = games.pop().unwrap();
                g.aborted = !regular;
                g.complete = true;
                games.push(g);
                assert(games_of(games@) =~= cur.games.update(
                    cur.games.len() - 1,
                    GameModel {
                        aborted: status@ != "Game over".spec_bytes(),
                        complete: true,
                        ..cur.games.last()
                    },
                ));
            }
            Ok(())
        },
        LineEvent::FrameCountFinal { frames } => {
            if games.len() > 0 {
                match parse_usize(&frames, 0, frames.len()) {
                    Some(v) => {
                        let mut g = games.pop().unwrap();
                        g.frames = v;
                        games.push(g);
                        assert(games_of(games@) =~= cur.games.update(
                            cur.games.len() - 1,
                            GameModel { frames: v, ..cur.games.last() },
                        ));
                        Ok(())
                    },
                    None => Err(
                        ParserAppError::LogfileParseError(
                            String::from_str("Could not parse number of frames from logfile"),
                        ),
                    ),
                }
            } else {
                Ok(())
            }
        },
        LineEvent::ProfileMapping { relic_id, steam_id } => {
            let key = convert_match_to_int(&steam_id);
            let relic = convert_match_to_int(&relic_id);
            upsert_relic_exec(match_header, key, relic);
            Ok(())
        },
        LineEvent::OwnProfileId { steam_id } => {
            match parse_usize(&steam_id, 0, steam_id.len()) {
                Some(v) => {
                    *own_steam_id = v;
                    Ok(())
                },
                None => Err(
                    ParserAppError::LogfileParseError(
                        String::from_str(
                            "could not read player profile steam id from logfile",
                        ),
                    ),
                ),
            }
        },
    }
}

/// An ordered list of reconstructed matches, together with the retained
/// lines they came from and the observer's own network id.
#[derive(Clone, Debug)]
pub struct LogfileGameList {
    pub logfile_content: Vec<Vec<u8>>,
    pub games: Vec<LogfileGameInfo>,
    pub steam_id: usize,
}

impl LogfileGameList {
    /// An empty list.
    pub fn new() -> (r: Self)
        ensures
            r.logfile_content@.len() == 0,
            r.games@.len() == 0,
            r.steam_id == 0,
    {
        LogfileGameList { logfile_content: Vec::new(), games: Vec::new(), steam_id: 0 }
    }

    /// Transcodes one snapshot of the raw log bytes and keeps the
    /// retained lines for [`LogfileGameList::parse`]. Whether the log
    /// file exists is the caller's concern: this step starts from its
    /// bytes. The length bound is the transcoder's machine limit.
    pub fn read_logfile(&mut self, raw: &Vec<u8>) -> (r: ParserAppResult<()>)
        requires
            raw@.len() <= usize::MAX / 4,
        ensures
            r is Ok,
            views_of(final(self).logfile_content@) == spec_ingest(raw@),
            final(self).games == old(self).games,
            final(self).steam_id == old(self).steam_id,
    {
        let lines = ingest(raw);
        self.logfile_content = lines;
        Ok(())
    }

    /// Folds every retained line through the record builder, continuing
    /// from the records already present; [`spec_run`] from that state
    /// is the exact statement of the result. The identity correlator
    /// lives only for this invocation.
    #[verifier::loop_isolation(false)]
    #[verifier::rlimit(50)]
    pub fn parse(&mut self) -> (r: ParserAppResult<()>)
        ensures
            final(self).logfile_content == old(self).logfile_content,
            ({
                let init = ParseModel {
                    games: games_of(old(self).games@),
                    steam_id: old(self).steam_id,
                    idmap: Seq::empty(),
                };
                match spec_run(init, views_of(old(self).logfile_content@)) {
                    Ok(m) => r is Ok && games_of(final(self).games@) == m.games
                        && final(self).steam_id == m.steam_id,
                    Err(f) => r matches Err(e) && (e matches ParserAppError::LogfileParseError(msg)
                        && msg@ == failure_text(f)),
                }
            }),
    {
        let ghost init = ParseModel {
            games: games_of(self.games@),
            steam_id: self.steam_id,
            idmap: Seq::empty(),
        };
        let ghost lines0 = views_of(self.logfile_content@);
        let mut match_header: Vec<IdBinding> = Vec::new();
        let mut i: usize = 0;
        proof {
            assert(lines0.skip(0) =~= lines0);
            assert(bindings_of(match_header@) =~= Seq::<IdBindingG>::empty());
        }
        while i < self.logfile_content.len()
            invariant
                i <= self.logfile_content.len(),
                self.logfile_content == old(self).logfile_content,
                spec_run(init, lines0) == spec_run(
                    ParseModel {
                        games: games_of(self.games@),
                        steam_id: self.steam_id,
                        idmap: bindings_of(match_header@),
                    },
                    lines0.skip(i as int),
                ),
            decreases self.logfile_content.len() - i,
        {
            let ghost cur = ParseModel {
                games: games_of(self.games@),
                steam_id: self.steam_id,
                idmap: bindings_of(match_header@),
            };
            let line = subvec(&self.logfile_content[i], 0, self.logfile_content[i].len());
            proof {
                assert(line@ =~= lines0[i as int]);
                assert(lines0.skip(i as int).drop_first() =~= lines0.skip(i as int + 1));
            }
            match classify(&line) {
                Err(e) => {
                    assert(spec_step(cur, line@) == Err::<ParseModel, StepFailure>(
                        (StepFailure::Ambiguous { line: line@ }),
                    ));
                    return Err(e);
                },
                Ok(ev) => {
                    let ghost evg = ev@;
                    match apply_event(&mut self.games, &mut self.steam_id, &mut match_header, ev) {
                        Ok(_) => {
                            proof {
                                let newcur = ParseModel {
                                    games: games_of(self.games@),
                                    steam_id: self.steam_id,
                                    idmap: bindings_of(match_header@),
                                };
                                assert(spec_step(cur, line@) == Ok::<ParseModel, StepFailure>(
                                    newcur,
                                ));
                            }
                        },
                        Err(e) => {
                            return Err(e);
                        },
                    }
                },
            }
            i += 1;
        }
        proof {
            assert(lines0.skip(i as int) =~= Seq::<Seq<u8>>::empty());
        }
        Ok(())
    }
}

impl Default for LogfileGameList {
    fn default() -> (r: Self)
        ensures
            r.logfile_content@.len() == 0,
            r.games@.len() == 0,
            r.steam_id == 0,
    {
        LogfileGameList::new()
    }
}

/// The parse state one whole log snapshot folds to, starting from an
/// empty record list.
pub open spec fn spec_parse_result(raw: Seq<u8>) -> Result<ParseModel, StepFailure> {
    spec_run(
        ParseModel { games: Seq::empty(), steam_id: 0, idmap: Seq::empty() },
        spec_ingest(raw),
    )
}

/// Idempotence: the whole parse is a function of the input bytes alone,
/// so parsing the same snapshot twice yields identical output.
pub proof fn lemma_parse_deterministic(raw1: Seq<u8>, raw2: Seq<u8>)
    requires
        raw1 == raw2,
    ensures
        spec_parse_result(raw1) == spec_parse_result(raw2),
{
}

/// Record list `b` extends record list `a`: no record and no recorded
/// player is removed or reordered, and every player keeps its position.
pub open spec fn players_preserved(a: Seq<GameModel>, b: Seq<GameModel>) -> bool {
    &&& b.len() >= a.len()
    &&& forall|g: int| 0 <= g < a.len() ==> #[trigger] b[g].players.len() >= a[g].players.len()
    &&& forall|g: int, p: int|
        0 <= g < a.len() && 0 <= p < a[g].players.len() ==> #[trigger] b[g].players[p]
            == a[g].players[p]
}

/// [`players_preserved`] composes.
pub proof fn lemma_players_preserved_trans(
    a: Seq<GameModel>,
    b: Seq<GameModel>,
    c: Seq<GameModel>,
)
    requires
        players_preserved(a, b),
        players_preserved(b, c),
    ensures
        players_preserved(a, c),
{
    assert forall|g: int| 0 <= g < a.len() implies #[trigger] c[g].players.len()
        >= a[g].players.len() by {
        assert(b[g].players.len() >= a[g].players.len());
        assert(c[g].players.len() >= b[g].players.len());
    }
    assert forall|g: int, p: int|
        0 <= g < a.len() && 0 <= p < a[g].players.len() implies #[trigger] c[g].players[p]
        == a[g].players[p] by {
        assert(b[g].players.len() >= a[g].players.len());
        assert(b[g].players[p] == a[g].players[p]);
        assert(c[g].players[p] == b[g].players[p]);
    }
}

/// Ordering, one step: a successful step never removes or reorders the
/// players already recorded; at most it appends one player to the last
/// record. So players stand in the order their result lines appeared.
pub proof fn lemma_step_preserves_players(st: ParseModel, line: Seq<u8>)
    ensures
        spec_step(st, line) matches Ok(st2) ==> players_preserved(st.games, st2.games),
{
    reveal(spec_apply);
}

/// Ordering, whole run: every player recorded at position `p` of record
/// `g` keeps that position in the final output.
pub proof fn lemma_run_preserves_players(st: ParseModel, lines: Seq<Seq<u8>>)
    ensures
        spec_run(st, lines) matches Ok(m) ==> players_preserved(st.games, m.games),
    decreases lines.len(),
{
    if lines.len() == 0 {
        assert(players_preserved(st.games, st.games));
    } else {
        lemma_step_preserves_players(st, lines[0]);
        match spec_step(st, lines[0]) {
            Ok(st2) => {
                lemma_run_preserves_players(st2, lines.drop_first());
                match spec_run(st2, lines.drop_first()) {
                    Ok(m) => {
                        lemma_players_preserved_trans(st.games, st2.games, m.games);
                    },
                    Err(_) => {},
                }
            },
            Err(_) => {},
        }
    }
}

/// Boundary: a mission-begin line seen while the last record is still
/// incomplete does not open a new record; it only updates the
/// in-progress record's map in place.
pub proof fn lemma_mission_begin_boundary(st: ParseModel, ev: LineEventG)
    requires
        st.games.len() > 0,
        !st.games.last().complete,
    ensures
        ev matches LineEventG::MissionBegin { map } ==> spec_apply(st, ev) == Ok::<
            ParseModel,
            StepFailure,
        >(
            ParseModel {
                games: st.games.update(
                    st.games.len() - 1,
                    GameModel { map: lossy_text_of(map), ..st.games.last() },
                ),
                ..st
            },
        ),
{
    reveal(spec_apply);
}

/// At most one record, the one at the tail, is incomplete.
pub open spec fn wf_games(games: Seq<GameModel>) -> bool {
    forall|g: int| 0 <= g < games.len() - 1 ==> games[g].complete
}

/// One step keeps the tail invariant: a new record is opened only once
/// the previous one is complete.
pub proof fn lemma_step_wf(st: ParseModel, line: Seq<u8>)
    requires
        wf_games(st.games),
    ensures
        spec_step(st, line) matches Ok(st2) ==> wf_games(st2.games),
{
    reveal(spec_apply);
}

/// The whole run keeps the tail invariant, so a parse that starts from
/// a well-formed record list returns one.
pub proof fn lemma_run_wf(st: ParseModel, lines: Seq<Seq<u8>>)
    requires
        wf_games(st.games),
    ensures
        spec_run(st, lines) matches Ok(m) ==> wf_games(m.games),
    decreases lines.len(),
{
    if lines.len() > 0 {
        lemma_step_wf(st, lines[0]);
        match spec_step(st, lines[0]) {
            Ok(st2) => {
                lemma_run_wf(st2, lines.drop_first());
            },
            Err(_) => {},
        }
    }
}

/// A retained line on which no step can fail: it matches exactly one
/// structural pattern, and the numeric fields whose overflow is fatal
/// (match id, frame count, own profile id) fit the machine word.
pub open spec fn line_fits(s: Seq<u8>) -> bool {
    match spec_classify(s) {
        Err(()) => false,
        Ok(ev) => match ev {
            LineEventG::MatchIdAssigned { id } => digits_val(id, 0, id.len() as int)
                <= usize::MAX,
            LineEventG::FrameCountFinal { frames } => digits_val(frames, 0, frames.len() as int)
                <= usize::MAX,
            LineEventG::OwnProfileId { steam_id } => digits_val(steam_id, 0, steam_id.len() as int)
                <= usize::MAX,
            _ => true,
        },
    }
}

/// A well-formed retained-line sequence: every line fits.
pub open spec fn wf_input(lines: Seq<Seq<u8>>) -> bool {
    forall|i: int| 0 <= i < lines.len() ==> line_fits(#[trigger] lines[i])
}

/// On a line that fits, a step never fails.
pub proof fn lemma_fit_step_ok(st: ParseModel, line: Seq<u8>)
    requires
        line_fits(line),
    ensures
        spec_step(st, line) is Ok,
{
    reveal(spec_apply);
}

/// On a well-formed retained-line sequence the whole run succeeds.
pub proof fn lemma_wf_run_ok(st: ParseModel, lines: Seq<Seq<u8>>)
    requires
        wf_input(lines),
    ensures
        spec_run(st, lines) is Ok,
    decreases lines.len(),
{
    if lines.len() > 0 {
        lemma_fit_step_ok(st, lines[0]);
        match spec_step(st, lines[0]) {
            Ok(st2) => {
                assert(wf_input(lines.drop_first())) by {
                    assert forall|i: int| 0 <= i < lines.drop_first().len() implies line_fits(
                        #[trigger] lines.drop_first()[i],
                    ) by {
                        assert(lines.drop_first()[i] == lines[i + 1]);
                    }
                }
                lemma_wf_run_ok(st2, lines.drop_first());
            },
            Err(_) => {},
        }
    }
}

/// A run decomposes at any cut: running the first `k` lines and then
/// the rest is the whole run.
pub proof fn lemma_run_split(st: ParseModel, lines: Seq<Seq<u8>>, k: int)
    requires
        0 <= k <= lines.len(),
    ensures
        spec_run(st, lines.take(k)) matches Ok(mid) ==> spec_run(st, lines) == spec_run(
            mid,
            lines.skip(k),
        ),
    decreases k,
{
    if k == 0 {
        assert(lines.take(0) =~= Seq::<Seq<u8>>::empty());
        assert(lines.skip(0) =~= lines);
    } else {
        assert(lines.take(k)[0] == lines[0]);
        match spec_step(st, lines[0]) {
            Err(_) => {},
            Ok(st1) => {
                assert(lines.take(k).drop_first() =~= lines.drop_first().take(k - 1));
                assert(lines.skip(k) =~= lines.drop_first().skip(k - 1));
                lemma_run_split(st1, lines.drop_first(), k - 1);
            },
        }
    }
}

/// Ordering, stated whole: on a well-formed retained-line sequence the
/// parse succeeds, and every player the first `k` lines have recorded
/// keeps its record and its position in the final output. Players are
/// only ever appended to the tail record, so within each record they
/// stand in the order their result lines were encountered.
pub proof fn lemma_players_in_encounter_order(st: ParseModel, lines: Seq<Seq<u8>>, k: int)
    requires
        wf_input(lines),
        0 <= k <= lines.len(),
    ensures
        spec_run(st, lines) is Ok,
        spec_run(st, lines.take(k)) is Ok,
        spec_run(st, lines.take(k)) matches Ok(mid) ==> (spec_run(st, lines) matches Ok(m)
            ==> players_preserved(mid.games, m.games)),
{
    lemma_wf_run_ok(st, lines);
    assert(wf_input(lines.take(k))) by {
        assert forall|i: int| 0 <= i < lines.take(k).len() implies line_fits(
            #[trigger] lines.take(k)[i],
        ) by {
            assert(lines.take(k)[i] == lines[i]);
        }
    }
    lemma_wf_run_ok(st, lines.take(k));
    lemma_run_split(st, lines, k);
    match spec_run(st, lines.take(k)) {
        Ok(mid) => {
            lemma_run_preserves_players(mid, lines.skip(k));
        },
        Err(_) => {},
    }
}

} // verus!
