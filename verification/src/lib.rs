//! Reconstructs structured match records from a noisy, non-UTF-8 game
//! diagnostic log: transcoding, line filtering, multi-pattern line
//! classification, and a stateful record builder with identity
//! correlation. [`parse_logfile`] is the entry point; the surrounding
//! application reads the file and hands its bytes in.
use vstd::prelude::*;
use vstd::string::StringExecFns;

pub mod correlate;
pub mod error;
pub mod game;
pub mod ingest;
pub mod logfile;
pub mod patterns;
pub mod player_info;
pub mod text;

use crate::error::{ParserAppError, ParserAppResult};
use crate::logfile::{
    failure_text, lemma_run_wf, spec_parse_result, wf_games, LogfileGameInfo, LogfileGameList,
    ParseModel,
};

verus! {

/// Parses one snapshot of the log and returns the most recent match
/// record: the last element [`logfile::spec_parse_result`] yields, or
/// an error when the snapshot holds no record at all. The length bound
/// is the transcoder's machine limit.
pub fn parse_logfile(raw: &Vec<u8>) -> (r: ParserAppResult<LogfileGameInfo>)
    requires
        raw@.len() <= usize::MAX / 4,
    ensures
        ({
            match spec_parse_result(raw@) {
                Ok(m) => {
                    if m.games.len() > 0 {
                        r matches Ok(g) && g@ == m.games.last()
                    } else {
                        r matches Err(e) && (e matches ParserAppError::ParserLibError(msg)
                            && msg@ == "Could not get last game from list of games in logfile"@)
                    }
                },
                Err(f) => r matches Err(e) && (e matches ParserAppError::LogfileParseError(msg)
                    && msg@ == failure_text(f)),
            }
        }),
        spec_parse_result(raw@) matches Ok(m) ==> wf_games(m.games),
{
    proof {
        lemma_run_wf(
            ParseModel { games: Seq::empty(), steam_id: 0, idmap: Seq::empty() },
            crate::ingest::spec_ingest(raw@),
        );
    }
    let mut game_list = LogfileGameList::new();
    match game_list.read_logfile(raw) {
        Ok(_) => (),
        Err(e) => {
            return Err(e);
        },
    }
    let ghost g0 = game_list.games@;
    proof {
        assert(crate::logfile::games_of(g0) =~= Seq::<crate::logfile::GameModel>::empty());
    }
    match game_list.parse() {
        Ok(_) => (),
        Err(e) => {
            return Err(e);
        },
    }
    let ghost gfin = game_list.games@;
    match game_list.games.pop() {
        Some(g) => {
            proof {
                assert(crate::logfile::games_of(gfin).last() == gfin.last()@);
            }
            Ok(g)
        },
        None => Err(
            ParserAppError::ParserLibError(
                String::from_str("Could not get last game from list of games in logfile"),
            ),
        ),
    }
}

} // verus!
