//! Summary fields of a match taken from the decoded replay artifact.
//! The replay decoding itself is an external collaborator; the caller
//! that owns it fills this structure.
use vstd::prelude::*;

verus! {

/// Game-setup summary carried over from the decoded replay.
#[derive(Clone, Debug)]
pub struct GameInfo {
    pub name: String,
    pub mode: String,
    pub resources: String,
    pub locations: String,
    pub victory_points: usize,
}

impl Default for GameInfo {
    fn default() -> (r: Self)
        ensures
            r.name@ == Seq::<char>::empty(),
            r.mode@ == Seq::<char>::empty(),
            r.resources@ == Seq::<char>::empty(),
            r.locations@ == Seq::<char>::empty(),
            r.victory_points == 0,
    {
        GameInfo {
            name: String::new(),
            mode: String::new(),
            resources: String::new(),
            locations: String::new(),
            victory_points: 0,
        }
    }
}

} // verus!
