//! Ordered native rollout batches: bounds, order-preserving work split, and
//! exact public terminals.

use vstd::prelude::*;

use crate::canonical::IdentityHash;
use crate::contract::Seat;
use crate::text::{decimal_chars, push_decimal, push_str};

verus! {

/// Maximum jobs accepted by one bounded batch.
pub const MAX_BATCH_JOBS: usize = 256;

/// Maximum native workers accepted by one batch.
pub const MAX_BATCH_WORKERS: usize = 8;

/// Maximum aggregate canonical manifest bytes accepted by one batch.
pub const MAX_BATCH_BYTES: usize = 67108864;

/// Existing deterministic-agent action limit for one complete game.
pub const MAX_GAME_ACTIONS: usize = 500;

/// One complete native rollout job. `P` is the type of the deck-bound
/// policies that control the two seats.
#[derive(Clone, Copy, Debug)]
pub struct BatchJob<'a, P> {
    /// Canonical authoritative manifest bytes.
    pub manifest_json: &'a str,
    /// Deck identity North's policy must be bound to.
    pub north_deck_id: &'a IdentityHash,
    /// North's immutable deck-bound policy.
    pub north_policy: &'a P,
    /// Deck identity South's policy must be bound to.
    pub south_deck_id: &'a IdentityHash,
    /// South's immutable deck-bound policy.
    pub south_policy: &'a P,
}

/// Public result classification.
#[derive(Clone, Copy, Debug, Eq, PartialEq, Structural)]
pub enum BatchClassification {
    /// Every gate passed under a complete, verified policy.
    Ranked,
    /// Rules are complete but raw manifests lack verified authority binding.
    UnrankedUnverifiedAuthority,
    /// Rules are partial and raw manifests lack independently verified authority binding.
    UnrankedPartialRulesUnverifiedAuthority,
}

/// The status of a finished public terminal.
#[derive(Clone, Copy, Debug, Eq, PartialEq, Structural)]
pub enum FinishedStatus {
    /// The game finished.
    Finished,
}

/// The public result marker for a draw.
#[derive(Clone, Copy, Debug, Eq, PartialEq, Structural)]
pub enum DrawResult {
    /// Neither seat won.
    Draw,
}

/// Why a finished game was drawn.
#[derive(Clone, Copy, Debug, Eq, PartialEq, Structural)]
pub enum DrawReason {
    /// Both Avatars were defeated by one simultaneous damage batch.
    SimultaneousAvatarDefeat,
    /// Both seats otherwise lost simultaneously.
    SimultaneousDefeat,
}

/// Why one seat won a finished game.
#[derive(Clone, Copy, Debug, Eq, PartialEq, Structural)]
pub enum WinReason {
    /// The losing Avatar was defeated.
    AvatarDefeated,
    /// The losing seat attempted to draw from an empty deck.
    DeckEmpty,
}

/// The engine's outcome of a finished game.
#[derive(Clone, Copy, Debug, Eq, PartialEq, Structural)]
pub enum GameOutcome {
    /// Neither seat won.
    Draw,
    /// One seat won.
    Win {
        /// Losing seat.
        loser: Seat,
        /// Winning seat.
        winner: Seat,
    },
}

/// Why the engine ended a game.
#[derive(Clone, Copy, Debug, Eq, PartialEq, Structural)]
pub enum GameEndReason {
    /// One Avatar was defeated.
    AvatarDefeated,
    /// One seat drew from an empty deck.
    DeckEmpty,
    /// Both Avatars were defeated by one simultaneous damage batch.
    SimultaneousAvatarDefeat,
    /// Both seats otherwise lost simultaneously.
    SimultaneousDefeat,
}

/// Exact public terminal object for a finished game.
#[derive(Clone, Copy, Debug, Eq, PartialEq, Structural)]
pub enum FinishedTerminal {
    /// Neither seat won.
    Draw {
        /// Why the draw occurred.
        reason: DrawReason,
        /// Public draw marker.
        result: DrawResult,
        /// Finished status marker.
        status: FinishedStatus,
    },
    /// Exactly one seat won.
    Win {
        /// Losing seat.
        loser: Seat,
        /// Why the seat lost.
        reason: WinReason,
        /// Finished status marker.
        status: FinishedStatus,
        /// Winning seat.
        winner: Seat,
    },
}

/// The public terminal for an engine outcome and reason, when they agree.
pub open spec fn terminal_spec(outcome: GameOutcome, reason: GameEndReason) -> Option<FinishedTerminal> {
    match (outcome, reason) {
        (GameOutcome::Draw, GameEndReason::SimultaneousAvatarDefeat) => Some(
            FinishedTerminal::Draw {
                reason: DrawReason::SimultaneousAvatarDefeat,
                result: DrawResult::Draw,
                status: FinishedStatus::Finished,
            },
        ),
        (GameOutcome::Draw, GameEndReason::SimultaneousDefeat) => Some(
            FinishedTerminal::Draw {
                reason: DrawReason::SimultaneousDefeat,
                result: DrawResult::Draw,
                status: FinishedStatus::Finished,
            },
        ),
        (GameOutcome::Win { loser, winner }, GameEndReason::AvatarDefeated) => Some(
            FinishedTerminal::Win {
                loser,
                reason: WinReason::AvatarDefeated,
                status: FinishedStatus::Finished,
                winner,
            },
        ),
        (GameOutcome::Win { loser, winner }, GameEndReason::DeckEmpty) => Some(
            FinishedTerminal::Win {
                loser,
                reason: WinReason::DeckEmpty,
                status: FinishedStatus::Finished,
                winner,
            },
        ),
        _ => None,
    }
}

/// The winner of a terminal, if any.
pub open spec fn terminal_winner(terminal: FinishedTerminal) -> Option<Seat> {
    match terminal {
        FinishedTerminal::Draw { .. } => None,
        FinishedTerminal::Win { winner, .. } => Some(winner),
    }
}

impl FinishedTerminal {
    /// The public terminal for an engine outcome; `None` when outcome and reason disagree.
    pub fn from_game(outcome: GameOutcome, reason: GameEndReason) -> (r: Option<FinishedTerminal>)
        ensures
            r == terminal_spec(outcome, reason),
    {
        match (outcome, reason) {
            (GameOutcome::Draw, GameEndReason::SimultaneousAvatarDefeat) => Some(
                FinishedTerminal::Draw {
                    reason: DrawReason::SimultaneousAvatarDefeat,
                    result: DrawResult::Draw,
                    status: FinishedStatus::Finished,
                },
            ),
            (GameOutcome::Draw, GameEndReason::SimultaneousDefeat) => Some(
                FinishedTerminal::Draw {
                    reason: DrawReason::SimultaneousDefeat,
                    result: DrawResult::Draw,
                    status: FinishedStatus::Finished,
                },
            ),
            (GameOutcome::Win { loser, winner }, GameEndReason::AvatarDefeated) => Some(
                FinishedTerminal::Win {
                    loser,
                    reason: WinReason::AvatarDefeated,
                    status: FinishedStatus::Finished,
                    winner,
                },
            ),
            (GameOutcome::Win { loser, winner }, GameEndReason::DeckEmpty) => Some(
                FinishedTerminal::Win {
                    loser,
                    reason: WinReason::DeckEmpty,
                    status: FinishedStatus::Finished,
                    winner,
                },
            ),
            (GameOutcome::Draw, GameEndReason::AvatarDefeated)
            | (GameOutcome::Draw, GameEndReason::DeckEmpty)
            | (GameOutcome::Win { .. }, GameEndReason::SimultaneousAvatarDefeat)
            | (GameOutcome::Win { .. }, GameEndReason::SimultaneousDefeat) => None,
        }
    }

    /// Returns the winner when the terminal is a win.
    pub fn winner(self) -> (r: Option<Seat>)
        ensures
            r == terminal_winner(self),
    {
        match self {
            FinishedTerminal::Draw { .. } => None,
            FinishedTerminal::Win { winner, .. } => Some(winner),
        }
    }
}

/// A terminal built from an engine outcome names the same winner as the outcome.
pub proof fn lemma_terminal_keeps_winner(outcome: GameOutcome, reason: GameEndReason)
    requires
        terminal_spec(outcome, reason) is Some,
    ensures
        terminal_winner(terminal_spec(outcome, reason)->0) == match outcome {
            GameOutcome::Draw => None,
            GameOutcome::Win { winner, .. } => Some(winner),
        },
{
}

/// Compact authoritative result for one ordered batch job.
#[derive(Clone, Debug, Eq, PartialEq)]
pub struct BatchResult {
    /// Original zero-based job index.
    pub job_index: usize,
    /// Canonical manifest identity.
    pub manifest_id: IdentityHash,
    /// Number of accepted actions.
    pub accepted_action_count: usize,
    /// Ranked/public result classification.
    pub classification: BatchClassification,
    /// Final authoritative state identity.
    pub final_state_hash: IdentityHash,
    /// Number of fights started.
    pub fight_count: usize,
    /// Exact finished public terminal.
    pub terminal: FinishedTerminal,
    /// Whether final authoritative replay reproduced the rollout.
    pub replay_verified: bool,
    /// Final authoritative transcript identity.
    pub transcript_hash: IdentityHash,
    /// Final turn number.
    pub turn_count: u64,
}

/// Exact externally serialized deterministic-game report.
#[derive(Clone, Debug, Eq, PartialEq)]
pub struct DeterministicGameReport {
    /// Number of accepted actions.
    pub accepted_action_count: usize,
    /// Ranked/public result classification.
    pub classification: BatchClassification,
    /// Final authoritative state identity.
    pub final_state_hash: IdentityHash,
    /// Number of fights started.
    pub fight_count: usize,
    /// Whether final authoritative replay reproduced the rollout.
    pub replay_verified: bool,
    /// Exact finished public terminal.
    pub terminal: FinishedTerminal,
    /// Final authoritative transcript identity.
    pub transcript_hash: IdentityHash,
    /// Final turn number.
    pub turn_count: u64,
}

/// Exact externally serialized result for one ordered batch job.
#[derive(Clone, Debug, Eq, PartialEq)]
pub struct GameBatchResult {
    /// Original zero-based job index.
    pub job_index: usize,
    /// Canonical manifest identity.
    pub manifest_id: IdentityHash,
    /// Deterministic authoritative game report.
    pub report: DeterministicGameReport,
}

/// The external form of a batch result: the same fields, with the job
/// identity outside the report.
pub open spec fn game_batch_result_spec(result: BatchResult) -> GameBatchResult {
    GameBatchResult {
        job_index: result.job_index,
        manifest_id: result.manifest_id,
        report: DeterministicGameReport {
            accepted_action_count: result.accepted_action_count,
            classification: result.classification,
            final_state_hash: result.final_state_hash,
            fight_count: result.fight_count,
            replay_verified: result.replay_verified,
            terminal: result.terminal,
            transcript_hash: result.transcript_hash,
            turn_count: result.turn_count,
        },
    }
}

impl GameBatchResult {
    /// Converts a compact batch result into the external report contract.
    pub fn from_batch_result(result: BatchResult) -> (r: GameBatchResult)
        ensures
            r == game_batch_result_spec(result),
    {
        GameBatchResult {
            job_index: result.job_index,
            manifest_id: result.manifest_id,
            report: DeterministicGameReport {
                accepted_action_count: result.accepted_action_count,
                classification: result.classification,
                final_state_hash: result.final_state_hash,
                fight_count: result.fight_count,
                replay_verified: result.replay_verified,
                terminal: result.terminal,
                transcript_hash: result.transcript_hash,
                turn_count: result.turn_count,
            },
        }
    }
}

/// A bounded batch was invalid or one job failed.
#[derive(Clone, Debug, Eq, PartialEq)]
pub enum BatchError {
    /// A batch-wide bound was invalid.
    Invalid(&'static str),
    /// One indexed job failed engine execution or replay.
    Job {
        /// Original job index.
        job_index: usize,
        /// Underlying engine failure.
        source: String,
    },
    /// One indexed rollout did not finish within its action bound.
    NonTerminal(usize),
    /// A native worker panicked.
    WorkerPanicked,
    /// Writing one job's artifacts failed.
    Artifacts {
        /// Original job index.
        job_index: usize,
        /// Underlying record or filesystem failure.
        source: String,
    },
}

/// The human-readable description of a batch error.
pub open spec fn batch_error_text(e: BatchError) -> Seq<char> {
    match e {
        BatchError::Invalid(message) => message@,
        BatchError::Job { job_index, source } => "batch job "@ + decimal_chars(job_index as nat)
            + " failed: "@ + source@,
        BatchError::NonTerminal(job_index) => "batch job "@ + decimal_chars(job_index as nat)
            + " did not terminate"@,
        BatchError::WorkerPanicked => "native batch worker panicked"@,
        BatchError::Artifacts { job_index, source } => "batch job "@ + decimal_chars(
            job_index as nat,
        ) + " artifacts failed: "@ + source@,
    }
}

impl BatchError {
    /// Describes the error.
    pub fn to_string(&self) -> (r: String)
        ensures
            r@ == batch_error_text(*self),
    {
        let mut out = String::new();
        match self {
            BatchError::Invalid(message) => {
                push_str(&mut out, message);
            },
            BatchError::Job { job_index, source } => {
                push_str(&mut out, "batch job ");
                push_decimal(&mut out, *job_index as u128);
                push_str(&mut out, " failed: ");
                push_str(&mut out, source.as_str());
            },
            BatchError::NonTerminal(job_index) => {
                push_str(&mut out, "batch job ");
                push_decimal(&mut out, *job_index as u128);
                push_str(&mut out, " did not terminate");
            },
            BatchError::WorkerPanicked => {
                push_str(&mut out, "native batch worker panicked");
            },
            BatchError::Artifacts { job_index, source } => {
                push_str(&mut out, "batch job ");
                push_decimal(&mut out, *job_index as u128);
                push_str(&mut out, " artifacts failed: ");
                push_str(&mut out, source.as_str());
            },
        }
        assert(out@ =~= batch_error_text(*self));
        out
    }
}

/// How a valid batch is split across workers.
#[derive(Clone, Copy, Debug, Eq, PartialEq, Structural)]
pub struct BatchPlan {
    /// Number of workers actually started.
    pub worker_count: usize,
    /// Jobs per worker chunk (the last chunk may be shorter).
    pub chunk_size: usize,
}

/// The aggregate input size: one separator per job plus one, plus every manifest.
pub open spec fn batch_bytes(manifest_lengths: Seq<usize>) -> int
    decreases manifest_lengths.len(),
{
    if manifest_lengths.len() == 0 {
        1
    } else {
        batch_bytes(manifest_lengths.drop_last()) + 1 + manifest_lengths.last()
    }
}

/// The first bound a batch violates, if any.
pub open spec fn batch_bound_error(manifest_lengths: Seq<usize>, requested_workers: usize) -> Option<
    Seq<char>,
> {
    if manifest_lengths.len() == 0 || manifest_lengths.len() > 256 {
        Some("batch must contain 1-256 jobs"@)
    } else if !(1 <= requested_workers <= 8) {
        Some("batch workers must be 1-8"@)
    } else if batch_bytes(manifest_lengths) > 67108864 {
        Some("batch exceeds 64 MiB"@)
    } else {
        None
    }
}

/// Checks batch bounds and splits the jobs into order-preserving worker chunks.
pub fn plan_batch(manifest_lengths: &[usize], requested_workers: usize) -> (r: Result<
    BatchPlan,
    BatchError,
>)
    ensures
        r is Ok <==> batch_bound_error(manifest_lengths@, requested_workers) is None,
        r matches Err(BatchError::Invalid(m)) ==> Some(m@) == batch_bound_error(
            manifest_lengths@,
            requested_workers,
        ),
        r is Err ==> r matches Err(BatchError::Invalid(_)),
        r matches Ok(plan) ==> {
            &&& plan.worker_count == if requested_workers < manifest_lengths@.len() {
                requested_workers as int
            } else {
                manifest_lengths@.len() as int
            }
            &&& plan.chunk_size * plan.worker_count >= manifest_lengths@.len()
            &&& (plan.chunk_size - 1) * plan.worker_count < manifest_lengths@.len()
            &&& plan.chunk_size >= 1
        },
{
    let jobs = manifest_lengths.len();
    if jobs == 0 || jobs > MAX_BATCH_JOBS {
        return Err(BatchError::Invalid("batch must contain 1-256 jobs"));
    }
    if !(1 <= requested_workers && requested_workers <= MAX_BATCH_WORKERS) {
        return Err(BatchError::Invalid("batch workers must be 1-8"));
    }
    let mut total: usize = 1;
    let mut i: usize = 0;
    while i < jobs
        invariant
            jobs == manifest_lengths@.len(),
            1 <= jobs <= 256,
            1 <= requested_workers <= 8,
            i <= jobs,
            total == batch_bytes(manifest_lengths@.take(i as int)),
            total <= 67108864,
        decreases jobs - i,
    {
        assert(manifest_lengths@.take(i + 1).drop_last() =~= manifest_lengths@.take(i as int));
        assert(manifest_lengths@.take(i + 1).last() == manifest_lengths@[i as int]);
        if manifest_lengths[i] > MAX_BATCH_BYTES - total || total + manifest_lengths[i]
            >= MAX_BATCH_BYTES {
            proof {
                lemma_batch_bytes_prefix(manifest_lengths@, i + 1);
                assert(batch_bytes(manifest_lengths@.take(i + 1)) == total + 1 + manifest_lengths@[i as int]);
                assert(batch_bytes(manifest_lengths@) > 67108864);
            }
            return Err(BatchError::Invalid("batch exceeds 64 MiB"));
        }
        total = total + 1 + manifest_lengths[i];
        i = i + 1;
    }
    assert(manifest_lengths@.take(jobs as int) =~= manifest_lengths@);
    let worker_count = if requested_workers < jobs {
        requested_workers
    } else {
        jobs
    };
    let chunk_size = (jobs + worker_count - 1) / worker_count;
    assert(chunk_size * worker_count >= jobs && (chunk_size - 1) * worker_count < jobs)
        by (nonlinear_arith)
        requires
            chunk_size as int == (jobs as int + worker_count as int - 1) / (worker_count as int),
            worker_count >= 1,
            jobs >= 1,
    ;
    assert(chunk_size >= 1) by (nonlinear_arith)
        requires
            chunk_size as int == (jobs as int + worker_count as int - 1) / (worker_count as int),
            worker_count >= 1,
            jobs >= 1,
    ;
    Ok(BatchPlan { worker_count, chunk_size })
}

proof fn lemma_batch_bytes_prefix(s: Seq<usize>, i: int)
    requires
        0 <= i <= s.len(),
    ensures
        batch_bytes(s.take(i)) <= batch_bytes(s),
    decreases s.len(),
{
    if i == s.len() {
        assert(s.take(i) =~= s);
    } else {
        lemma_batch_bytes_prefix(s.drop_last(), i);
        assert(s.drop_last().take(i) =~= s.take(i));
    }
}

/// The job index of position `offset` inside worker chunk `chunk_index`.
pub open spec fn job_index_spec(chunk_index: int, chunk_size: int, offset: int) -> int {
    chunk_index * chunk_size + offset
}

/// Chunked results, concatenated in chunk order, are the jobs in input order:
/// the result at position `p` belongs to job `p`.
pub proof fn lemma_chunks_preserve_order(chunk_size: int, p: int)
    requires
        chunk_size >= 1,
        p >= 0,
    ensures
        job_index_spec(p / chunk_size, chunk_size, p % chunk_size) == p,
        0 <= p % chunk_size < chunk_size,
{
    assert(p == (p / chunk_size) * chunk_size + p % chunk_size) by (nonlinear_arith)
        requires
            chunk_size >= 1,
    ;
}

/// The default worker count for a machine reporting `available` parallel
/// threads, a nonzero count (none when it cannot tell): that count, capped at
/// [`MAX_BATCH_WORKERS`], or one.
pub fn batch_workers_for(available: Option<usize>) -> (r: usize)
    requires
        available matches Some(n) ==> n >= 1,
    ensures
        1 <= r <= MAX_BATCH_WORKERS,
        r == match available {
            Some(n) => if n < MAX_BATCH_WORKERS {
                n
            } else {
                MAX_BATCH_WORKERS
            },
            None => 1,
        },
{
    match available {
        Some(n) => if n < MAX_BATCH_WORKERS {
            n
        } else {
            MAX_BATCH_WORKERS
        },
        None => 1,
    }
}

} // verus!
