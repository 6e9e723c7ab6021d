//! The mining session registry and the per-tick decisions of a mining loop.
//!
//! The registry maps each player to at most one live session. It is held in
//! a `dashmap::DashMap`, whose per-key atomicity serializes concurrent
//! starts and stops on the same player; the map's contents are modelled by
//! the uninterpreted [`mine_sessions`] and every operation goes through a
//! trusted wrapper whose contract states what dashmap's source shows.
//!
//! Starting always wins: a second start for the same player overwrites the
//! registry entry, and the superseded loop notices the token mismatch at its
//! next tick and stops silently. Stopping with a token is a no-op unless the
//! token still matches — a stale stop cannot cancel a newer session — while
//! stopping without a token always removes whatever is active.

use vstd::prelude::*;

use crate::loot::LootTable;

verus! {

/// A registry entry: the session's token and the id of the mine location it
/// works.
pub type SessionEntry = (u128, u32);

/// The concurrent registry: player id to live session entry.
pub type SessionMap = dashmap::DashMap<i32, SessionEntry>;

/// Why a mining session is told to stop.
#[derive(Clone, Copy, Debug)]
pub enum StopMiningReason {
    Manual,
    InventoryFull,
}

/// A mine location: display identity plus the loot table rolled there.
pub struct MineLocation {
    pub id: u32,
    pub name: String,
    pub loot_table: LootTable,
}

#[verifier::external_type_specification]
#[verifier::external_body]
#[verifier::reject_recursive_types(K)]
#[verifier::reject_recursive_types(V)]
#[verifier::reject_recursive_types(S)]
pub struct ExDashMap<K, V, S>(dashmap::DashMap<K, V, S>);

/// What the session registry holds: a map from player id to session entry.
pub uninterp spec fn mine_sessions(m: SessionMap) -> Map<i32, SessionEntry>;

/// Whether the registry's entry for this player carries this token.
pub open spec fn session_current(m: Map<i32, SessionEntry>, user_id: i32, token: u128) -> bool {
    m.dom().contains(user_id) && m[user_id].0 == token
}

/// Whether a stop request's token allows it to remove this entry: a missing
/// token always may, a given token only when it still matches.
pub open spec fn stop_token_allows(entry: SessionEntry, token: Option<u128>) -> bool {
    match token {
        Some(t) => entry.0 == t,
        None => true,
    }
}

/// Relies on `dashmap::DashMap::new`: a fresh registry is empty.
#[verifier::external_body]
pub fn new_session_map() -> (r: SessionMap)
    ensures
        mine_sessions(r) =~= Map::empty(),
{
    dashmap::DashMap::new()
}

/// Relies on `dashmap::DashMap::insert`: the entry is inserted or
/// overwritten, and the previous value, if any, is returned.
#[verifier::external_body]
fn session_map_insert(
    m: &mut SessionMap,
    user_id: i32,
    entry: SessionEntry,
) -> (prev: Option<SessionEntry>)
    ensures
        mine_sessions(*final(m)) == mine_sessions(*old(m)).insert(user_id, entry),
        prev == (if mine_sessions(*old(m)).dom().contains(user_id) {
            Some(mine_sessions(*old(m))[user_id])
        } else {
            None::<SessionEntry>
        }),
{
    m.insert(user_id, entry)
}

/// Relies on `dashmap::DashMap::get`: the entry under the key, if any.
#[verifier::external_body]
fn session_map_get(m: &SessionMap, user_id: i32) -> (r: Option<SessionEntry>)
    ensures
        r == (if mine_sessions(*m).dom().contains(user_id) {
            Some(mine_sessions(*m)[user_id])
        } else {
            None::<SessionEntry>
        }),
{
    match m.get(&user_id) {
        Some(entry) => Some(*entry.value()),
        None => None,
    }
}

/// Whether a stop request's token allows it to remove this entry.
fn session_stop_allowed(entry: &SessionEntry, token: &Option<u128>) -> (b: bool)
    ensures
        b == stop_token_allows(*entry, *token),
{
    match token {
        Some(t) => entry.0 == *t,
        None => true,
    }
}

/// Relies on `dashmap::DashMap::remove_if`: the entry is removed and
/// returned only if it exists and the given condition holds of it; the
/// check and the removal are one atomic step.
#[verifier::external_body]
fn session_map_remove_if(
    m: &mut SessionMap,
    user_id: i32,
    token: Option<u128>,
) -> (removed: Option<SessionEntry>)
    ensures
        (match removed {
            Some(entry) => mine_sessions(*old(m)).dom().contains(user_id) && entry == mine_sessions(
                *old(m),
            )[user_id] && stop_token_allows(entry, token) && mine_sessions(*final(m)) == mine_sessions(
                *old(m),
            ).remove(user_id),
            None => mine_sessions(*final(m)) == mine_sessions(*old(m)) && (mine_sessions(
                *old(m),
            ).dom().contains(user_id) ==> !stop_token_allows(
                mine_sessions(*old(m))[user_id],
                token,
            )),
        }),
{
    let removed = m.remove_if(&user_id, |_k, v| session_stop_allowed(v, &token));
    match removed {
        Some((_k, entry)) => Some(entry),
        None => None,
    }
}

/// Relies on `uuid::Uuid::new_v4`: a freshly generated random identifier.
/// Nothing is assumed about the value.
#[verifier::external_body]
fn generate_mine_session_token() -> u128 {
    uuid::Uuid::new_v4().as_u128()
}

/// The index of the mine location with this name, if any.
pub fn find_mine_location(locations: &Vec<MineLocation>, name: &String) -> (r: Option<usize>)
    ensures
        (match r {
            Some(i) => i < locations@.len() && locations@[i as int].name@ == name@
                && (forall|a: int| 0 <= a < i ==> (#[trigger] locations@[a]).name@ != name@),
            None => forall|i: int|
                0 <= i < locations@.len() ==> (#[trigger] locations@[i]).name@ != name@,
        }),
{
    let n = locations.len();
    let mut i: usize = 0;
    while i < n
        invariant
            n == locations@.len(),
            i <= n,
            forall|a: int| 0 <= a < i ==> (#[trigger] locations@[a]).name@ != name@,
        decreases n - i,
    {
        if locations[i].name == *name {
            return Some(i);
        }
        i = i + 1;
    }
    None
}

/// A session that was just started.
pub struct MiningSessionStart {
    /// The session's token: the caller-supplied resume token if one was
    /// given, else freshly generated.
    pub token: u128,
    /// Which of the known locations the session mines.
    pub location_index: usize,
    /// The registry entry this start overwrote, if the player already had a
    /// live session: superseding it is how "last start wins" works.
    pub superseded: Option<SessionEntry>,
}

/// Why a mining session could not start.
#[derive(Clone, Copy, Debug)]
pub enum StartMiningError {
    /// The location name is unknown.
    InvalidLocation,
    /// The player has no free inventory space; they must free space or
    /// upgrade before mining more.
    InventoryFull,
}

/// A session that a stop request removed; the caller signals its mining
/// loop with the reason.
pub struct MiningSessionStopped {
    pub token: u128,
    pub location_id: u32,
    pub reason: StopMiningReason,
}

/// Start a mining session: refuse an unknown location, refuse a player with
/// no free inventory space, and otherwise insert the session into the
/// registry unconditionally — a second start always wins, superseding any
/// session the player already had.
pub fn start_mining(
    sessions: &mut SessionMap,
    locations: &Vec<MineLocation>,
    user_id: i32,
    location_name: &String,
    resume_token: Option<u128>,
    available_space: i64,
) -> (r: Result<MiningSessionStart, StartMiningError>)
    ensures
        (match r {
            Ok(s) => {
                &&& s.location_index < locations@.len()
                &&& locations@[s.location_index as int].name@ == location_name@
                &&& (forall|a: int|
                    0 <= a < s.location_index ==> (#[trigger] locations@[a]).name@
                        != location_name@)
                &&& available_space > 0
                &&& (resume_token is Some ==> s.token == resume_token.unwrap())
                &&& mine_sessions(*final(sessions)) == mine_sessions(*old(sessions)).insert(
                    user_id,
                    (s.token, locations@[s.location_index as int].id),
                )
                &&& s.superseded == (if mine_sessions(*old(sessions)).dom().contains(user_id) {
                    Some(mine_sessions(*old(sessions))[user_id])
                } else {
                    None::<SessionEntry>
                })
            },
            Err(StartMiningError::InvalidLocation) => {
                &&& mine_sessions(*final(sessions)) == mine_sessions(*old(sessions))
                &&& forall|i: int|
                    0 <= i < locations@.len() ==> (#[trigger] locations@[i]).name@
                        != location_name@
            },
            Err(StartMiningError::InventoryFull) => {
                &&& mine_sessions(*final(sessions)) == mine_sessions(*old(sessions))
                &&& available_space <= 0
                &&& exists|i: int|
                    0 <= i < locations@.len() && (#[trigger] locations@[i]).name@
                        == location_name@
            },
        }),
{
    let location_index = match find_mine_location(locations, location_name) {
        Some(i) => i,
        None => {
            return Err(StartMiningError::InvalidLocation);
        },
    };
    if available_space <= 0 {
        return Err(StartMiningError::InventoryFull);
    }
    let token = match resume_token {
        Some(t) => t,
        None => generate_mine_session_token(),
    };
    let superseded = session_map_insert(sessions, user_id, (token, locations[location_index].id));
    Ok(MiningSessionStart { token, location_index, superseded })
}

/// Stop a player's session. With a token, the removal happens only if the
/// active session still carries that token, so a stale stop request cannot
/// cancel a session that has since been superseded; without a token,
/// whatever is active is removed. The caller signals the returned session's
/// loop with the reason.
pub fn stop_mining(
    sessions: &mut SessionMap,
    user_id: i32,
    reason: StopMiningReason,
    session_token: Option<u128>,
) -> (stopped: Option<MiningSessionStopped>)
    ensures
        (match stopped {
            Some(s) => {
                &&& mine_sessions(*old(sessions)).dom().contains(user_id)
                &&& (s.token, s.location_id) == mine_sessions(*old(sessions))[user_id]
                &&& stop_token_allows((s.token, s.location_id), session_token)
                &&& s.reason == reason
                &&& mine_sessions(*final(sessions)) == mine_sessions(*old(sessions)).remove(user_id)
            },
            None => {
                &&& mine_sessions(*final(sessions)) == mine_sessions(*old(sessions))
                &&& (mine_sessions(*old(sessions)).dom().contains(user_id)
                    ==> !stop_token_allows(mine_sessions(*old(sessions))[user_id], session_token))
            },
        }),
{
    match session_map_remove_if(sessions, user_id, session_token) {
        Some(entry) => Some(
            MiningSessionStopped { token: entry.0, location_id: entry.1, reason },
        ),
        None => None,
    }
}

/// What a mining loop does at a tick.
#[derive(Clone, Copy, Debug)]
pub enum MiningTickAction {
    /// Terminate without emitting anything further.
    StopSilently,
    /// Emit a terminal inventory-full error to the output stream, then
    /// terminate.
    EmitInventoryFullAndStop,
    /// The session is still current: roll loot and forward it.
    RollLoot,
}

/// The decision a mining loop takes at each tick: obey a pending stop
/// signal first; otherwise stop silently if the registry no longer carries
/// this loop's token — another session has superseded it — and keep rolling
/// only while it does.
pub fn mining_tick_action(
    pending_stop: Option<StopMiningReason>,
    sessions: &SessionMap,
    user_id: i32,
    session_token: u128,
) -> (action: MiningTickAction)
    ensures
        (match pending_stop {
            Some(StopMiningReason::Manual) => action is StopSilently,
            Some(StopMiningReason::InventoryFull) => action is EmitInventoryFullAndStop,
            None => (if session_current(mine_sessions(*sessions), user_id, session_token) {
                action is RollLoot
            } else {
                action is StopSilently
            }),
        }),
{
    match pending_stop {
        Some(StopMiningReason::Manual) => MiningTickAction::StopSilently,
        Some(StopMiningReason::InventoryFull) => MiningTickAction::EmitInventoryFullAndStop,
        None => match session_map_get(sessions, user_id) {
            Some(entry) => {
                if entry.0 == session_token {
                    MiningTickAction::RollLoot
                } else {
                    MiningTickAction::StopSilently
                }
            },
            None => MiningTickAction::StopSilently,
        },
    }
}

/// Starting a session for a player always supersedes the old one: whatever
/// token the old loop holds, if it differs from the new session's token,
/// the registry no longer answers to it, so the old loop's next tick stops
/// silently.
pub proof fn lemma_supersede_invalidates_old_token(
    m: Map<i32, SessionEntry>,
    user_id: i32,
    old_token: u128,
    new_entry: SessionEntry,
)
    requires
        old_token != new_entry.0,
    ensures
        !session_current(m.insert(user_id, new_entry), user_id, old_token),
{
}

} // verus!
