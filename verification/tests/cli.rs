use sorcery_engine::batch::batch_workers_for;
use sorcery_engine::cli::{
    parse_args, parse_seed, parse_workers, validate_batch_json_size, validate_batch_request,
    validate_gauntlet_request, validate_novelty_gauntlet_request, Command, NoveltyGauntletJob,
    MAX_BATCH_JSON_BYTES,
};
use sorcery_engine::novelty::NOVELTY_ACTION_LIMIT;

fn args(values: &[&str]) -> Vec<String> {
    values.iter().map(|value| (*value).to_owned()).collect()
}

#[test]
fn parse_args_should_apply_batch_defaults() {
    let command = parse_args(&args(&["batch"]), batch_workers_for(None)).expect("valid defaults");
    let Command::Batch { seeds, workers } = command else {
        panic!("expected batch command");
    };

    assert_eq!((seeds, (1..=8).contains(&workers)), (vec![1], true));
}

#[test]
fn parse_args_should_reject_out_of_range_workers() {
    let error = parse_args(&args(&["batch", "9"]), batch_workers_for(None))
        .err()
        .expect("invalid workers");

    assert_eq!(error, "workers must be an integer from 1 through 8");
}

#[test]
fn batch_json_should_reject_oversized_input_before_parsing() {
    assert!(validate_batch_json_size(MAX_BATCH_JSON_BYTES + 1).is_err());
}

#[test]
fn batch_json_size_limit_is_inclusive() {
    assert_eq!(validate_batch_json_size(MAX_BATCH_JSON_BYTES), Ok(()));
    assert_eq!(MAX_BATCH_JSON_BYTES, 64 * 1024 * 1024 * 2 + 1024 * 1024);
}

#[test]
fn demo_takes_an_optional_seed() {
    assert_eq!(
        parse_args(&args(&["demo"]), 3),
        Ok(Command::Demo { seed: 1 })
    );
    assert_eq!(
        parse_args(&args(&["demo", "+42"]), 3),
        Ok(Command::Demo { seed: 42 })
    );
    assert_eq!(
        parse_args(&args(&["demo", "4294967296"]), 3),
        Err("seed must be an unsigned 32-bit integer".to_owned())
    );
    assert_eq!(
        parse_args(&args(&["demo", "1", "2"]), 3),
        Err("usage: sorcery-engine demo [seed]".to_owned())
    );
}

#[test]
fn batch_reads_workers_then_seeds() {
    assert_eq!(
        parse_args(&args(&["batch", "2", "5", "7"]), 3),
        Ok(Command::Batch {
            workers: 2,
            seeds: vec![5, 7]
        })
    );
    assert_eq!(
        parse_args(&args(&["batch", "2", "x"]), 3),
        Err("seed must be an unsigned 32-bit integer".to_owned())
    );
    let many: Vec<String> = ["batch", "1"]
        .iter()
        .map(|value| (*value).to_owned())
        .chain((0..257).map(|seed| seed.to_string()))
        .collect();
    assert_eq!(
        parse_args(&many, 3),
        Err("batch must contain 1-256 seeds".to_owned())
    );
}

#[test]
fn json_commands_take_no_arguments() {
    assert_eq!(parse_args(&args(&["batch-json"]), 1), Ok(Command::BatchJson));
    assert_eq!(
        parse_args(&args(&["gauntlet-json"]), 1),
        Ok(Command::GauntletJson)
    );
    assert_eq!(
        parse_args(&args(&["novelty-gauntlet-json"]), 1),
        Ok(Command::NoveltyGauntletJson)
    );
    assert_eq!(
        parse_args(&args(&["batch-json", "extra"]), 1),
        Err("usage: sorcery-engine batch-json".to_owned())
    );
    assert!(parse_args(&args(&[]), 1).is_err());
    assert!(parse_args(&args(&["play"]), 1).is_err());
}

#[test]
fn numbers_parse_as_unsigned_decimal_text() {
    assert_eq!(parse_seed("4294967295"), Ok(u32::MAX));
    assert!(parse_seed("-1").is_err());
    assert!(parse_seed("").is_err());
    assert!(parse_seed("+").is_err());
    assert_eq!(parse_workers("08"), Ok(8));
    assert!(parse_workers("0").is_err());
    assert_eq!(batch_workers_for(Some(32)), 8);
    assert_eq!(batch_workers_for(Some(3)), 3);
    assert_eq!(batch_workers_for(None), 1);
}

#[test]
fn batch_requests_check_schema_workers_and_job_count() {
    assert!(validate_batch_request(1, 2, 2).is_ok());
    assert_eq!(
        validate_batch_request(2, 2, 2).unwrap_err(),
        "batch-json schemaVersion must be 1"
    );
    assert_eq!(
        validate_batch_request(1, 0, 2).unwrap_err(),
        "batch-json workers must be 1-8"
    );
    assert_eq!(
        validate_batch_request(1, 9, 2).unwrap_err(),
        "batch-json workers must be 1-8"
    );
    assert_eq!(
        validate_batch_request(1, 8, 0).unwrap_err(),
        "batch-json must contain 1-256 jobs"
    );
    assert_eq!(
        validate_batch_request(1, 8, 257).unwrap_err(),
        "batch-json must contain 1-256 jobs"
    );
    assert!(validate_batch_request(1, 8, 256).is_ok());
}

#[test]
fn gauntlet_requests_need_two_distinct_nonblank_decks() {
    assert!(validate_gauntlet_request(1, 1, 128, "deck-a", "deck-b").is_ok());
    assert_eq!(
        validate_gauntlet_request(0, 1, 1, "deck-a", "deck-b").unwrap_err(),
        "gauntlet-json schemaVersion must be 1"
    );
    assert_eq!(
        validate_gauntlet_request(1, 9, 1, "deck-a", "deck-b").unwrap_err(),
        "gauntlet-json workers must be 1-8"
    );
    assert_eq!(
        validate_gauntlet_request(1, 1, 129, "deck-a", "deck-b").unwrap_err(),
        "gauntlet-json must contain 1-128 seed pairs"
    );
    let message = "gauntlet-json deck IDs must be distinct nonempty strings";
    assert_eq!(
        validate_gauntlet_request(1, 1, 1, " \t", "deck-b").unwrap_err(),
        message
    );
    assert_eq!(
        validate_gauntlet_request(1, 1, 1, "deck-a", "deck-a").unwrap_err(),
        message
    );
    assert_eq!(
        validate_gauntlet_request(1, 1, 1, "deck-a", "\u{3000}").unwrap_err(),
        message
    );
}

fn novelty_job(job_id: &str) -> NoveltyGauntletJob {
    NoveltyGauntletJob {
        job_id: job_id.to_owned(),
        lesson_id: "lesson".to_owned(),
        manifest_json: "{}".to_owned(),
        orientation: "a-north".to_owned(),
    }
}

#[test]
fn novelty_gauntlet_requests_need_four_complete_jobs() {
    let jobs = vec![novelty_job("1"), novelty_job("2"), novelty_job("3"), novelty_job("4")];
    assert!(validate_novelty_gauntlet_request(1, NOVELTY_ACTION_LIMIT, &jobs).is_ok());
    assert_eq!(
        validate_novelty_gauntlet_request(2, 0, &jobs).unwrap_err(),
        "novelty-gauntlet-json schemaVersion must be 1"
    );
    assert_eq!(
        validate_novelty_gauntlet_request(1, 501, &jobs).unwrap_err(),
        "novelty-gauntlet-json maxActions must be 0-500"
    );
    assert_eq!(
        validate_novelty_gauntlet_request(1, 0, &jobs[..3]).unwrap_err(),
        "novelty-gauntlet-json must contain exactly 4 jobs"
    );
    let mut blank = jobs.clone();
    blank[2].orientation = "  ".to_owned();
    assert_eq!(
        validate_novelty_gauntlet_request(1, 0, &blank).unwrap_err(),
        "novelty-gauntlet-json jobs require nonempty jobId, lessonId, orientation, and manifestJson"
    );
}
