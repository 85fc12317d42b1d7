//! Replay V1 schema.
//!
//! Compact and versioned. A game stores its start FEN and selected moves, so
//! every position is reconstructed by replaying the game. Search-target
//! probabilities are `f32` values; records here hold each one as its IEEE-754
//! bit pattern (`f32::to_bits`), which is exact and round-trips losslessly.

use vstd::prelude::*;

use crate::replay::audit::side_code;
use crate::rules::{
    from_label_spec, is_result_spec, label_spec, outcome_spec, Color, Outcome, Termination,
};

verus! {

/// Replay schema version.
pub const REPLAY_SCHEMA_VERSION: u32 = 1;

/// Shard file magic: the bytes of `"R64S"`.
pub const SHARD_MAGIC: [u8; 4] = [0x52, 0x36, 0x34, 0x53];

/// Observation contract version this replay is written against.
pub const OBSERVATION_VERSION: u32 = 1;

/// Action-encoding contract version this replay is written against.
pub const ACTION_VERSION: u32 = 1;

/// Rules-profile contract version this replay is written against.
pub const RULES_PROFILE_VERSION: u32 = 1;

/// Provenance for a shard.
#[derive(Debug, PartialEq, Eq)]
pub struct ReplayHeader {
    pub replay_schema_version: u32,
    pub observation_version: u32,
    pub action_version: u32,
    pub rules_profile_version: u32,
    pub run_id: String,
    pub model_id: String,
    pub git_revision: Option<String>,
    pub backend: String,
    pub precision: String,
}

/// Why a recorded header does not match the current contracts.
#[derive(Debug, Clone, Copy, PartialEq, Eq)]
pub enum ContractError {
    /// The replay schema version differs.
    SchemaVersion { found: u32 },
    /// An observation, action or rules-profile version differs.
    Mismatch { observation: u32, action: u32, rules_profile: u32 },
}

/// The contract check of a header, as a value.
pub open spec fn check_contracts_spec(h: ReplayHeader) -> Result<(), ContractError> {
    if h.replay_schema_version != REPLAY_SCHEMA_VERSION {
        Err(ContractError::SchemaVersion { found: h.replay_schema_version })
    } else if h.observation_version != OBSERVATION_VERSION || h.action_version != ACTION_VERSION
        || h.rules_profile_version != RULES_PROFILE_VERSION {
        Err(
            ContractError::Mismatch {
                observation: h.observation_version,
                action: h.action_version,
                rules_profile: h.rules_profile_version,
            },
        )
    } else {
        Ok(())
    }
}

/// Every version a header records is the current one.
pub open spec fn recorded_versions_current(h: ReplayHeader) -> bool {
    &&& h.replay_schema_version == REPLAY_SCHEMA_VERSION
    &&& h.observation_version == OBSERVATION_VERSION
    &&& h.action_version == ACTION_VERSION
    &&& h.rules_profile_version == RULES_PROFILE_VERSION
}

/// A header passes the contract check exactly when every version it records
/// is the current one: a replay written under another schema, observation,
/// action or rules profile is refused, with the schema version reported
/// first and otherwise all three recorded encoding versions.
pub proof fn lemma_contracts_need_every_current_version(h: ReplayHeader)
    ensures
        check_contracts_spec(h) is Ok <==> (h.replay_schema_version == REPLAY_SCHEMA_VERSION
            && h.observation_version == OBSERVATION_VERSION && h.action_version == ACTION_VERSION
            && h.rules_profile_version == RULES_PROFILE_VERSION),
        h.replay_schema_version != REPLAY_SCHEMA_VERSION ==> check_contracts_spec(h) == Err::<(), ContractError>(
            ContractError::SchemaVersion { found: h.replay_schema_version },
        ),
        h.replay_schema_version == REPLAY_SCHEMA_VERSION && h.rules_profile_version != RULES_PROFILE_VERSION
            ==> check_contracts_spec(h) == Err::<(), ContractError>(
            ContractError::Mismatch {
                observation: h.observation_version,
                action: h.action_version,
                rules_profile: h.rules_profile_version,
            },
        ),
{
}

/// A copy of an optional string.
pub fn clone_opt_string(s: &Option<String>) -> (r: Option<String>)
    ensures
        r == *s,
{
    match s {
        Some(v) => Some(v.clone()),
        None => None,
    }
}

impl Clone for ReplayHeader {
    fn clone(&self) -> (r: Self)
        ensures
            r == *self,
    {
        ReplayHeader {
            replay_schema_version: self.replay_schema_version,
            observation_version: self.observation_version,
            action_version: self.action_version,
            rules_profile_version: self.rules_profile_version,
            run_id: self.run_id.clone(),
            model_id: self.model_id.clone(),
            git_revision: clone_opt_string(&self.git_revision),
            backend: self.backend.clone(),
            precision: self.precision.clone(),
        }
    }
}

impl ReplayHeader {
    /// A header stamped with the current contract versions and no git revision.
    pub fn new(run_id: String, model_id: String, backend: String, precision: String) -> (h: Self)
        ensures
            h.replay_schema_version == REPLAY_SCHEMA_VERSION,
            h.observation_version == OBSERVATION_VERSION,
            h.action_version == ACTION_VERSION,
            h.rules_profile_version == RULES_PROFILE_VERSION,
            h.run_id == run_id,
            h.model_id == model_id,
            h.git_revision is None,
            h.backend == backend,
            h.precision == precision,
            check_contracts_spec(h) is Ok,
    {
        ReplayHeader {
            replay_schema_version: REPLAY_SCHEMA_VERSION,
            observation_version: OBSERVATION_VERSION,
            action_version: ACTION_VERSION,
            rules_profile_version: RULES_PROFILE_VERSION,
            run_id,
            model_id,
            git_revision: None,
            backend,
            precision,
        }
    }

    /// Check that the recorded contract versions match the current ones.
    pub fn check_contracts(&self) -> (r: Result<(), ContractError>)
        ensures
            r == check_contracts_spec(*self),
            r is Ok <==> (self.replay_schema_version == REPLAY_SCHEMA_VERSION && self.observation_version
                == OBSERVATION_VERSION && self.action_version == ACTION_VERSION && self.rules_profile_version
                == RULES_PROFILE_VERSION),
            self.replay_schema_version == REPLAY_SCHEMA_VERSION && r is Err ==> r == Err::<(), ContractError>(
                ContractError::Mismatch {
                    observation: self.observation_version,
                    action: self.action_version,
                    rules_profile: self.rules_profile_version,
                },
            ),
    {
        if self.replay_schema_version != REPLAY_SCHEMA_VERSION {
            return Err(ContractError::SchemaVersion { found: self.replay_schema_version });
        }
        if self.observation_version != OBSERVATION_VERSION || self.action_version != ACTION_VERSION
            || self.rules_profile_version != RULES_PROFILE_VERSION {
            return Err(
                ContractError::Mismatch {
                    observation: self.observation_version,
                    action: self.action_version,
                    rules_profile: self.rules_profile_version,
                },
            );
        }
        Ok(())
    }
}

/// Search settings that produced a game (`c_puct` and `temperature` as `f32`
/// bit patterns).
#[derive(Debug, Clone, Copy, PartialEq, Eq)]
pub struct SearchRecord {
    pub simulations: u32,
    pub c_puct: u32,
    pub temperature: u32,
    pub recurrence: usize,
}

/// One played ply.
#[derive(Debug, Clone, PartialEq, Eq)]
pub struct PlyRecord {
    /// Canonical action index of the selected move.
    pub selected: u16,
    /// Sparse search target: `(action index, probability as f32 bits)`.
    pub target: Vec<(u16, u32)>,
    pub visits_total: u32,
    /// 0 = White to move, 1 = Black to move.
    pub side_to_move: u8,
}

/// One complete game.
#[derive(Debug, Clone, PartialEq, Eq)]
pub struct GameRecord {
    pub game_id: u64,
    pub start_fen: String,
    pub seed: u64,
    pub search: SearchRecord,
    pub plies: Vec<PlyRecord>,
    pub termination: String,
    /// `0` white win, `1` draw, `2` black win; `None` for truncated/aborted.
    pub outcome: Option<u8>,
}

/// The board-perspective outcome code of a result.
pub open spec fn outcome_code(o: Option<Outcome>) -> Option<u8> {
    match o {
        Some(Outcome::Win(Color::White)) => Some(0u8),
        Some(Outcome::Draw) => Some(1u8),
        Some(Outcome::Win(Color::Black)) => Some(2u8),
        None => None,
    }
}

/// One ply as self-play played it: the selected action index, the sparse
/// visit target `(action index, probability as f32 bits)`, the root visits
/// and the side to move.
#[derive(Debug, Clone, PartialEq, Eq)]
pub struct PlayedPly {
    pub selected: u32,
    pub target: Vec<(u32, u32)>,
    pub visits_total: u32,
    pub side_to_move: Color,
}

/// A completed self-play game before it is recorded.
#[derive(Debug, Clone, PartialEq, Eq)]
pub struct PlayedGame {
    pub start_fen: String,
    pub plies: Vec<PlayedPly>,
    pub termination: Termination,
    /// `None` for truncated/aborted games.
    pub outcome: Option<Outcome>,
    pub seed: u64,
}

/// The record of played ply `p`.
pub open spec fn ply_recorded(p: PlayedPly, r: PlyRecord) -> bool {
    &&& r.selected == p.selected as u16
    &&& r.target@.len() == p.target@.len()
    &&& forall|k: int| 0 <= k < p.target@.len() ==> #[trigger] r.target@[k] == (p.target@[k].0 as u16, p.target@[k].1)
    &&& r.visits_total == p.visits_total
    &&& r.side_to_move == side_code(p.side_to_move)
}

fn side_to_move_code(c: Color) -> (r: u8)
    ensures
        r == side_code(c),
{
    match c {
        Color::White => 0,
        Color::Black => 1,
    }
}

fn record_ply(p: &PlayedPly) -> (r: PlyRecord)
    ensures
        ply_recorded(*p, r),
{
    let mut target: Vec<(u16, u32)> = Vec::new();
    let mut k: usize = 0;
    while k < p.target.len()
        invariant
            k <= p.target@.len(),
            target@.len() == k,
            forall|j: int| 0 <= j < k ==> #[trigger] target@[j] == (p.target@[j].0 as u16, p.target@[j].1),
        decreases p.target.len() - k,
    {
        let (a, prob) = p.target[k];
        target.push((a as u16, prob));
        k = k + 1;
    }
    PlyRecord { selected: p.selected as u16, target, visits_total: p.visits_total, side_to_move: side_to_move_code(p.side_to_move) }
}

impl GameRecord {
    /// The replay record of a completed self-play game: every ply recorded
    /// with its action indices (as 16-bit indices), the termination's label,
    /// and the outcome encoded from the board's perspective.
    pub fn from_selfplay(game_id: u64, game: &PlayedGame, search: SearchRecord) -> (r: GameRecord)
        ensures
            r.game_id == game_id,
            r.start_fen == game.start_fen,
            r.seed == game.seed,
            r.search == search,
            r.plies@.len() == game.plies@.len(),
            forall|i: int| 0 <= i < game.plies@.len() ==> ply_recorded(#[trigger] game.plies@[i], r.plies@[i]),
            r.termination@ == label_spec(game.termination),
            r.outcome == outcome_code(game.outcome),
    {
        let mut plies: Vec<PlyRecord> = Vec::new();
        let mut i: usize = 0;
        while i < game.plies.len()
            invariant
                i <= game.plies@.len(),
                plies@.len() == i,
                forall|j: int| 0 <= j < i ==> ply_recorded(#[trigger] game.plies@[j], plies@[j]),
            decreases game.plies.len() - i,
        {
            let rec = record_ply(&game.plies[i]);
            plies.push(rec);
            i = i + 1;
        }
        GameRecord {
            game_id,
            start_fen: game.start_fen.clone(),
            seed: game.seed,
            search,
            plies,
            termination: String::from_str(game.termination.label()),
            outcome: Self::encode_outcome(game.outcome),
        }
    }

    /// Encode an outcome from the board's perspective.
    pub fn encode_outcome(outcome: Option<Outcome>) -> (r: Option<u8>)
        ensures
            r == outcome_code(outcome),
    {
        match outcome {
            Some(Outcome::Win(Color::White)) => Some(0),
            Some(Outcome::Draw) => Some(1),
            Some(Outcome::Win(Color::Black)) => Some(2),
            None => None,
        }
    }

    /// True if this game carries a terminal WDL result.
    pub fn has_result(&self) -> (r: bool)
        ensures
            r == self.outcome is Some,
    {
        self.outcome.is_some()
    }
}

/// One entry in the replay manifest.
#[derive(Debug, PartialEq, Eq)]
pub struct ShardInfo {
    pub file: String,
    pub games: u64,
    pub positions: u64,
    pub bytes: u64,
    pub crc32: u32,
}

impl Clone for ShardInfo {
    fn clone(&self) -> (r: Self)
        ensures
            r == *self,
    {
        ShardInfo {
            file: self.file.clone(),
            games: self.games,
            positions: self.positions,
            bytes: self.bytes,
            crc32: self.crc32,
        }
    }
}

/// The replay manifest: an atomic index of committed shards.
#[derive(Debug, PartialEq, Eq)]
pub struct Manifest {
    pub header: ReplayHeader,
    pub shards: Vec<ShardInfo>,
    pub games: u64,
    pub bytes: u64,
}

/// A copy of a list of shard entries.
pub fn clone_shards(v: &Vec<ShardInfo>) -> (r: Vec<ShardInfo>)
    ensures
        r@ == v@,
{
    let mut out: Vec<ShardInfo> = Vec::new();
    let mut i: usize = 0;
    while i < v.len()
        invariant
            i <= v@.len(),
            out@ == v@.take(i as int),
        decreases v.len() - i,
    {
        out.push(v[i].clone());
        assert(out@ =~= v@.take(i + 1));
        i = i + 1;
    }
    assert(v@.take(i as int) =~= v@);
    out
}

impl Clone for Manifest {
    fn clone(&self) -> (r: Self)
        ensures
            r.header == self.header,
            r.shards@ == self.shards@,
            r.games == self.games,
            r.bytes == self.bytes,
    {
        Manifest {
            header: self.header.clone(),
            shards: clone_shards(&self.shards),
            games: self.games,
            bytes: self.bytes,
        }
    }
}

/// Sum of the `games` counts of shard entries.
pub open spec fn sum_games(s: Seq<ShardInfo>) -> nat
    decreases s.len(),
{
    if s.len() == 0 { 0 } else { sum_games(s.drop_last()) + s.last().games as nat }
}

/// Sum of the `positions` counts of shard entries.
pub open spec fn sum_positions(s: Seq<ShardInfo>) -> nat
    decreases s.len(),
{
    if s.len() == 0 { 0 } else { sum_positions(s.drop_last()) + s.last().positions as nat }
}

/// Sum of the `bytes` counts of shard entries.
pub open spec fn sum_bytes(s: Seq<ShardInfo>) -> nat
    decreases s.len(),
{
    if s.len() == 0 { 0 } else { sum_bytes(s.drop_last()) + s.last().bytes as nat }
}

/// A game recorded from self-play whose outcome is what its termination
/// gives with `side` to move at the end is labelled truthfully: its label
/// reads back as the termination, it carries an outcome exactly when the
/// termination is a chess result (a truncated or aborted game is never a
/// draw), and a checkmate is scored for the side that did not end up to move.
pub proof fn lemma_selfplay_record_is_truthful(t: Termination, side: Color, outcome: Option<Outcome>)
    requires
        outcome == outcome_spec(t, side),
    ensures
        from_label_spec(label_spec(t)) == Some(t),
        outcome_code(outcome) is Some <==> is_result_spec(t),
        t == Termination::Checkmate ==> outcome_code(outcome) == Some(if side == Color::White { 2u8 } else { 0u8 }),
        is_result_spec(t) && t != Termination::Checkmate ==> outcome_code(outcome) == Some(1u8),
{
    crate::rules::lemma_label_round_trip(t);
}

} // verus!
