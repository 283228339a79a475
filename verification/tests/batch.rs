use sorcery_engine::batch::{
    batch_workers_for, plan_batch, BatchClassification, BatchError, BatchResult, DrawReason,
    DrawResult, FinishedStatus, FinishedTerminal, GameBatchResult, GameEndReason, GameOutcome,
    WinReason, MAX_BATCH_BYTES,
};
use sorcery_engine::canonical::IdentityHash;
use sorcery_engine::contract::Seat;

fn hash(digit: char) -> IdentityHash {
    IdentityHash::parse(&format!("sha256:{}", digit.to_string().repeat(64))).expect("identity")
}

#[test]
fn plans_split_jobs_into_order_preserving_chunks() {
    let plan = plan_batch(&[10; 10], 4).expect("plan");
    assert_eq!((plan.worker_count, plan.chunk_size), (4, 3));
    let plan = plan_batch(&[10; 3], 8).expect("plan");
    assert_eq!((plan.worker_count, plan.chunk_size), (3, 1));
    let plan = plan_batch(&[10; 256], 8).expect("plan");
    assert_eq!((plan.worker_count, plan.chunk_size), (8, 32));
}

#[test]
fn batch_bounds_are_checked_in_order() {
    let message = |result: Result<_, BatchError>| match result {
        Err(BatchError::Invalid(message)) => message,
        other => panic!("expected an invalid batch, got {other:?}"),
    };
    assert_eq!(message(plan_batch(&[], 1)), "batch must contain 1-256 jobs");
    assert_eq!(message(plan_batch(&[1; 257], 1)), "batch must contain 1-256 jobs");
    assert_eq!(message(plan_batch(&[1], 0)), "batch workers must be 1-8");
    assert_eq!(message(plan_batch(&[1], 9)), "batch workers must be 1-8");
    assert_eq!(
        message(plan_batch(&[MAX_BATCH_BYTES / 2, MAX_BATCH_BYTES / 2], 2)),
        "batch exceeds 64 MiB"
    );
    assert!(plan_batch(&[MAX_BATCH_BYTES / 2 - 1, MAX_BATCH_BYTES / 2 - 2], 2).is_ok());
}

#[test]
fn worker_defaults_are_bounded() {
    assert_eq!(batch_workers_for(None), 1);
    assert_eq!(batch_workers_for(Some(3)), 3);
    assert_eq!(batch_workers_for(Some(64)), 8);
}

#[test]
fn terminals_require_agreeing_outcomes_and_reasons() {
    let win = GameOutcome::Win {
        loser: Seat::South,
        winner: Seat::North,
    };
    let terminal = FinishedTerminal::from_game(win, GameEndReason::DeckEmpty).expect("terminal");
    assert_eq!(
        terminal,
        FinishedTerminal::Win {
            loser: Seat::South,
            reason: WinReason::DeckEmpty,
            status: FinishedStatus::Finished,
            winner: Seat::North,
        }
    );
    assert_eq!(terminal.winner(), Some(Seat::North));
    assert_eq!(FinishedTerminal::from_game(win, GameEndReason::SimultaneousDefeat), None);
    assert_eq!(FinishedTerminal::from_game(GameOutcome::Draw, GameEndReason::AvatarDefeated), None);
    let draw = FinishedTerminal::from_game(GameOutcome::Draw, GameEndReason::SimultaneousAvatarDefeat)
        .expect("draw");
    assert_eq!(
        draw,
        FinishedTerminal::Draw {
            reason: DrawReason::SimultaneousAvatarDefeat,
            result: DrawResult::Draw,
            status: FinishedStatus::Finished,
        }
    );
    assert_eq!(draw.winner(), None);
}

#[test]
fn batch_results_move_the_job_identity_out_of_the_report() {
    let result = BatchResult {
        job_index: 4,
        manifest_id: hash('a'),
        accepted_action_count: 12,
        classification: BatchClassification::UnrankedPartialRulesUnverifiedAuthority,
        final_state_hash: hash('b'),
        fight_count: 2,
        terminal: FinishedTerminal::Draw {
            reason: DrawReason::SimultaneousDefeat,
            result: DrawResult::Draw,
            status: FinishedStatus::Finished,
        },
        replay_verified: true,
        transcript_hash: hash('c'),
        turn_count: 9,
    };
    let external = GameBatchResult::from_batch_result(result);
    assert_eq!(external.job_index, 4);
    assert_eq!(external.manifest_id, hash('a'));
    assert_eq!(external.report.accepted_action_count, 12);
    assert_eq!(external.report.final_state_hash, hash('b'));
    assert_eq!(external.report.transcript_hash, hash('c'));
    assert_eq!(external.report.turn_count, 9);
}

#[test]
fn batch_errors_describe_the_failing_job() {
    assert_eq!(
        BatchError::Job {
            job_index: 12,
            source: "replay diverged".to_owned()
        }
        .to_string(),
        "batch job 12 failed: replay diverged"
    );
    assert_eq!(BatchError::NonTerminal(3).to_string(), "batch job 3 did not terminate");
    assert_eq!(BatchError::WorkerPanicked.to_string(), "native batch worker panicked");
    assert_eq!(
        BatchError::Artifacts {
            job_index: 0,
            source: "disk full".to_owned()
        }
        .to_string(),
        "batch job 0 artifacts failed: disk full"
    );
    assert_eq!(BatchError::Invalid("batch workers must be 1-8").to_string(), "batch workers must be 1-8");
}
