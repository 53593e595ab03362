//! The identity correlator: a small association list from a network
//! (steam) identity to the entry built up from header and profile lines.
//! Lookups are linear scans in insertion order, first match wins.
use vstd::prelude::*;

use crate::text::bytes_eq;

verus! {

/// Transient correlation entry for one network identity: the persistent
/// relic id, the lobby slot, and the per-match in-game uid that later
/// identifies dropped players. Fields default to zero or empty until the
/// line carrying them is seen.
#[derive(Debug)]
pub struct SteamIdMap {
    pub relic_id: usize,
    pub slot: usize,
    pub uid: Vec<u8>,
}

/// Spec-level mirror of [`SteamIdMap`].
pub struct SteamIdMapG {
    pub relic_id: usize,
    pub slot: usize,
    pub uid: Seq<u8>,
}

impl View for SteamIdMap {
    type V = SteamIdMapG;

    open spec fn view(&self) -> SteamIdMapG {
        SteamIdMapG { relic_id: self.relic_id, slot: self.slot, uid: self.uid@ }
    }
}

/// One binding held by the correlator: a network id and its entry.
pub struct IdBinding {
    pub steam_id: usize,
    pub entry: SteamIdMap,
}

/// Spec-level mirror of [`IdBinding`].
pub struct IdBindingG {
    pub steam_id: usize,
    pub entry: SteamIdMapG,
}

impl View for IdBinding {
    type V = IdBindingG;

    open spec fn view(&self) -> IdBindingG {
        IdBindingG { steam_id: self.steam_id, entry: self.entry@ }
    }
}

/// The views of the correlator's bindings, in insertion order.
pub open spec fn bindings_of(vs: Seq<IdBinding>) -> Seq<IdBindingG> {
    vs.map_values(|b: IdBinding| b@)
}

/// First index at or after `i` bound to the network id `key`.
pub open spec fn find_key_from(m: Seq<IdBindingG>, key: usize, i: int) -> Option<int>
    decreases m.len() - i,
{
    if i < 0 || i >= m.len() {
        None
    } else if m[i].steam_id == key {
        Some(i)
    } else {
        find_key_from(m, key, i + 1)
    }
}

/// A hit reported by [`find_key_from`] is in range and carries the key.
pub proof fn lemma_find_key_from(m: Seq<IdBindingG>, key: usize, i: int)
    ensures
        find_key_from(m, key, i) matches Some(j) ==> i <= j < m.len() && m[j].steam_id == key,
    decreases m.len() - i,
{
    if !(i < 0 || i >= m.len()) && m[i].steam_id != key {
        lemma_find_key_from(m, key, i + 1);
    }
}

/// First index at or after `i` whose entry has the given relic id.
pub open spec fn find_relic_from(m: Seq<IdBindingG>, relic: usize, i: int) -> Option<int>
    decreases m.len() - i,
{
    if i < 0 || i >= m.len() {
        None
    } else if m[i].entry.relic_id == relic {
        Some(i)
    } else {
        find_relic_from(m, relic, i + 1)
    }
}

/// A hit reported by [`find_relic_from`] is in range and has the relic id.
pub proof fn lemma_find_relic_from(m: Seq<IdBindingG>, relic: usize, i: int)
    ensures
        find_relic_from(m, relic, i) matches Some(j) ==> i <= j < m.len() && m[j].entry.relic_id
            == relic,
    decreases m.len() - i,
{
    if !(i < 0 || i >= m.len()) && m[i].entry.relic_id != relic {
        lemma_find_relic_from(m, relic, i + 1);
    }
}

/// First index at or after `i` whose entry has the given in-game uid.
pub open spec fn find_uid_from(m: Seq<IdBindingG>, uid: Seq<u8>, i: int) -> Option<int>
    decreases m.len() - i,
{
    if i < 0 || i >= m.len() {
        None
    } else if m[i].entry.uid == uid {
        Some(i)
    } else {
        find_uid_from(m, uid, i + 1)
    }
}

/// A hit reported by [`find_uid_from`] is in range and has the uid.
pub proof fn lemma_find_uid_from(m: Seq<IdBindingG>, uid: Seq<u8>, i: int)
    ensures
        find_uid_from(m, uid, i) matches Some(j) ==> i <= j < m.len() && m[j].entry.uid == uid,
    decreases m.len() - i,
{
    if !(i < 0 || i >= m.len()) && m[i].entry.uid != uid {
        lemma_find_uid_from(m, uid, i + 1);
    }
}

/// Linear scan for the binding with the network id `key`.
pub fn find_key(v: &Vec<IdBinding>, key: usize) -> (r: Option<usize>)
    ensures
        r matches Some(j) ==> find_key_from(bindings_of(v@), key, 0) == Some(j as int),
        r is None ==> find_key_from(bindings_of(v@), key, 0) is None,
{
    let mut j: usize = 0;
    while j < v.len()
        invariant
            j <= v.len(),
            find_key_from(bindings_of(v@), key, 0) == find_key_from(bindings_of(v@), key, j as int),
        decreases v.len() - j,
    {
        if v[j].steam_id == key {
            return Some(j);
        }
        assert(find_key_from(bindings_of(v@), key, j as int) == find_key_from(
            bindings_of(v@),
            key,
            j as int + 1,
        ));
        j += 1;
    }
    None
}

/// Linear scan for the first binding whose entry has the given relic id.
pub fn find_relic(v: &Vec<IdBinding>, relic: usize) -> (r: Option<usize>)
    ensures
        r matches Some(j) ==> find_relic_from(bindings_of(v@), relic, 0) == Some(j as int),
        r is None ==> find_relic_from(bindings_of(v@), relic, 0) is None,
{
    let mut j: usize = 0;
    while j < v.len()
        invariant
            j <= v.len(),
            find_relic_from(bindings_of(v@), relic, 0) == find_relic_from(
                bindings_of(v@),
                relic,
                j as int,
            ),
        decreases v.len() - j,
    {
        if v[j].entry.relic_id == relic {
            return Some(j);
        }
        assert(find_relic_from(bindings_of(v@), relic, j as int) == find_relic_from(
            bindings_of(v@),
            relic,
            j as int + 1,
        ));
        j += 1;
    }
    None
}

/// Linear scan for the first binding whose entry has the given uid.
pub fn find_uid(v: &Vec<IdBinding>, uid: &Vec<u8>) -> (r: Option<usize>)
    ensures
        r matches Some(j) ==> find_uid_from(bindings_of(v@), uid@, 0) == Some(j as int),
        r is None ==> find_uid_from(bindings_of(v@), uid@, 0) is None,
{
    let mut j: usize = 0;
    while j < v.len()
        invariant
            j <= v.len(),
            find_uid_from(bindings_of(v@), uid@, 0) == find_uid_from(
                bindings_of(v@),
                uid@,
                j as int,
            ),
        decreases v.len() - j,
    {
        if bytes_eq(&v[j].entry.uid, uid) {
            return Some(j);
        }
        assert(find_uid_from(bindings_of(v@), uid@, j as int) == find_uid_from(
            bindings_of(v@),
            uid@,
            j as int + 1,
        ));
        j += 1;
    }
    None
}

/// A match-header line upserts the slot and uid of its network id; the
/// relic id is left untouched (or zero for a fresh entry).
pub open spec fn upsert_header(m: Seq<IdBindingG>, key: usize, slot: usize, uid: Seq<u8>) -> Seq<
    IdBindingG,
> {
    match find_key_from(m, key, 0) {
        Some(i) => m.update(
            i,
            IdBindingG {
                steam_id: key,
                entry: SteamIdMapG { relic_id: m[i].entry.relic_id, slot, uid },
            },
        ),
        None => m.push(
            IdBindingG { steam_id: key, entry: SteamIdMapG { relic_id: 0, slot, uid } },
        ),
    }
}

/// Applies a match-header line to the correlator.
pub fn upsert_header_exec(v: &mut Vec<IdBinding>, key: usize, slot: usize, uid: Vec<u8>)
    ensures
        bindings_of(final(v)@) == upsert_header(bindings_of(old(v)@), key, slot, uid@),
{
    let ghost uidv = uid@;
    match find_key(v, key) {
        Some(i) => {
            proof {
                lemma_find_key_from(bindings_of(v@), key, 0);
            }
            let old_b = v.remove(i);
            let b = IdBinding {
                steam_id: key,
                entry: SteamIdMap { relic_id: old_b.entry.relic_id, slot, uid },
            };
            v.insert(i, b);
            assert(bindings_of(v@) =~= upsert_header(bindings_of(old(v)@), key, slot, uidv));
        },
        None => {
            v.push(IdBinding { steam_id: key, entry: SteamIdMap { relic_id: 0, slot, uid } });
            assert(bindings_of(v@) =~= upsert_header(bindings_of(old(v)@), key, slot, uidv));
        },
    }
}

/// A profile line upserts the relic id of its network id; slot and uid
/// are left untouched (or defaulted for a fresh entry).
pub open spec fn upsert_relic(m: Seq<IdBindingG>, key: usize, relic: usize) -> Seq<IdBindingG> {
    match find_key_from(m, key, 0) {
        Some(i) => m.update(
            i,
            IdBindingG {
                steam_id: key,
                entry: SteamIdMapG {
                    relic_id: relic,
                    slot: m[i].entry.slot,
                    uid: m[i].entry.uid,
                },
            },
        ),
        None => m.push(
            IdBindingG {
                steam_id: key,
                entry: SteamIdMapG { relic_id: relic, slot: 0, uid: Seq::empty() },
            },
        ),
    }
}

/// Applies a profile (relic id to network id) line to the correlator.
pub fn upsert_relic_exec(v: &mut Vec<IdBinding>, key: usize, relic: usize)
    ensures
        bindings_of(final(v)@) == upsert_relic(bindings_of(old(v)@), key, relic),
{
    match find_key(v, key) {
        Some(i) => {
            proof {
                lemma_find_key_from(bindings_of(v@), key, 0);
            }
            let old_b = v.remove(i);
            let b = IdBinding {
                steam_id: key,
                entry: SteamIdMap {
                    relic_id: relic,
                    slot: old_b.entry.slot,
                    uid: old_b.entry.uid,
                },
            };
            v.insert(i, b);
            assert(bindings_of(v@) =~= upsert_relic(bindings_of(old(v)@), key, relic));
        },
        None => {
            v.push(
                IdBinding {
                    steam_id: key,
                    entry: SteamIdMap { relic_id: relic, slot: 0, uid: Vec::new() },
                },
            );
            assert(bindings_of(v@) =~= upsert_relic(bindings_of(old(v)@), key, relic));
        },
    }
}

} // verus!
