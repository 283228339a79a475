//! Command-line grammar of the engine binary.

use vstd::prelude::*;

use crate::batch::{MAX_BATCH_BYTES, MAX_BATCH_JOBS, MAX_BATCH_WORKERS};
use crate::deck::{blank, is_blank};
use crate::novelty::NOVELTY_ACTION_LIMIT;
use crate::text::{same_text, str_chars};

verus! {

/// The largest accepted `batch-json` request, in bytes.
pub const MAX_BATCH_JSON_BYTES: usize = MAX_BATCH_BYTES * 2 + 1024 * 1024;

/// A parsed command line.
#[derive(Clone, Debug, Eq, PartialEq)]
pub enum Command {
    /// Play one synthetic demo game.
    Demo { seed: u32 },
    /// Play synthetic games for each seed.
    Batch { workers: usize, seeds: Vec<u32> },
    /// Run a batch described on standard input.
    BatchJson,
    /// Run a gauntlet described on standard input.
    GauntletJson,
    /// Run a novelty gauntlet described on standard input.
    NoveltyGauntletJson,
}

/// The value of an ASCII decimal digit.
pub open spec fn digit_value(c: char) -> nat {
    (c as nat - '0' as nat) as nat
}

/// Whether every character is an ASCII decimal digit.
pub open spec fn all_digits(s: Seq<char>) -> bool {
    forall|i: int| 0 <= i < s.len() ==> '0' <= #[trigger] s[i] && s[i] <= '9'
}

/// The value of a string of decimal digits.
pub open spec fn digits_value(s: Seq<char>) -> nat
    decreases s.len(),
{
    if s.len() == 0 {
        0
    } else {
        digits_value(s.drop_last()) * 10 + digit_value(s.last())
    }
}

/// The unsigned integer that `s` spells as `str::parse` reads it: an
/// optional `+`, then one or more ASCII digits.
pub open spec fn unsigned_text_value(s: Seq<char>) -> Option<nat> {
    let digits = if s.len() > 0 && s[0] == '+' {
        s.skip(1)
    } else {
        s
    };
    if digits.len() > 0 && all_digits(digits) {
        Some(digits_value(digits))
    } else {
        None
    }
}

/// More digits never decrease the value.
proof fn lemma_digits_value_prefix(s: Seq<char>, n: int)
    requires
        0 <= n <= s.len(),
        all_digits(s),
    ensures
        digits_value(s.take(n)) <= digits_value(s),
    decreases s.len() - n,
{
    if n < s.len() {
        lemma_digits_value_prefix(s, n + 1);
        assert(s.take(n + 1).drop_last() =~= s.take(n));
        assert(s.take(n) =~= s.take(n).take(n));
    } else {
        assert(s.take(n) =~= s);
    }
}

/// Parses an unsigned decimal integer no larger than `max`, as
/// `str::parse` does for an unsigned type whose largest value is `max`.
pub fn parse_unsigned(value: &str, max: u64) -> (r: Option<u64>)
    ensures
        r matches Some(v) ==> unsigned_text_value(value@) == Some(v as nat) && v <= max,
        r is None ==> match unsigned_text_value(value@) {
            Some(v) => v > max,
            None => true,
        },
{
    let chars = str_chars(value);
    let start: usize = if chars.len() > 0 && chars[0] == '+' {
        1
    } else {
        0
    };
    let ghost digits = if chars@.len() > 0 && chars@[0] == '+' {
        chars@.skip(1)
    } else {
        chars@
    };
    assert(digits =~= chars@.skip(start as int));
    if start >= chars.len() {
        return None;
    }
    let mut total: u64 = 0;
    let mut i: usize = start;
    while i < chars.len()
        invariant
            start <= i <= chars@.len(),
            chars@ == value@,
            digits =~= chars@.skip(start as int),
            digits == (if value@.len() > 0 && value@[0] == '+' {
                value@.skip(1)
            } else {
                value@
            }),
            all_digits(digits.take(i - start)),
            total as nat == digits_value(digits.take(i - start)),
            total <= max,
        decreases chars@.len() - i,
    {
        let c = chars[i];
        if !('0' <= c && c <= '9') {
            assert(digits[i - start] == c);
            assert(!all_digits(digits));
            return None;
        }
        let d: u64 = (c as u32 - '0' as u32) as u64;
        let ghost k = i - start;
        assert(digits.take(k + 1).drop_last() =~= digits.take(k));
        assert(digits.take(k + 1).last() == c);
        assert(digit_value(c) == d);
        assert(digits_value(digits.take(k + 1)) == digits_value(digits.take(k)) * 10 + d);
        if d > max || total > (max - d) / 10 {
            proof {
                assert(total * 10 + d > max) by (nonlinear_arith)
                    requires
                        d > max || total > (max - d) / 10,
                        d <= 9,
                ;
                if all_digits(digits) {
                    lemma_digits_value_prefix(digits, k + 1);
                }
            }
            return None;
        }
        proof {
            assert(total * 10 + d <= max) by (nonlinear_arith)
                requires
                    total <= (max - d) / 10,
                    d <= max,
            ;
            assert forall|j: int| 0 <= j < k + 1 implies '0' <= #[trigger] digits.take(k + 1)[j]
                && digits.take(k + 1)[j] <= '9' by {
                if j < k {
                    assert(digits.take(k + 1)[j] == digits.take(k)[j]);
                }
            }
        }
        total = total * 10 + d;
        i = i + 1;
    }
    assert(digits.take(i - start) =~= digits);
    Some(total)
}

/// The message for a seed that is not an unsigned 32-bit integer.
pub open spec fn seed_error() -> Seq<char> {
    "seed must be an unsigned 32-bit integer"@
}

/// The message for a worker count outside `1..=8`.
pub open spec fn workers_error() -> Seq<char> {
    "workers must be an integer from 1 through 8"@
}

/// The seed `value` spells, if it is an unsigned 32-bit integer.
pub open spec fn seed_value(value: Seq<char>) -> Option<u32> {
    match unsigned_text_value(value) {
        Some(v) => if v <= u32::MAX {
            Some(v as u32)
        } else {
            None
        },
        None => None,
    }
}

/// The worker count `value` spells, if it lies in `1..=8`.
pub open spec fn workers_value(value: Seq<char>) -> Option<usize> {
    match unsigned_text_value(value) {
        Some(v) => if 1 <= v <= MAX_BATCH_WORKERS {
            Some(v as usize)
        } else {
            None
        },
        None => None,
    }
}

/// Parses a game seed.
pub fn parse_seed(value: &str) -> (r: Result<u32, String>)
    ensures
        r is Ok <==> seed_value(value@) is Some,
        r matches Ok(s) ==> seed_value(value@) == Some(s),
        r matches Err(e) ==> e@ == seed_error(),
{
    match parse_unsigned(value, 4294967295) {
        Some(v) => Ok(v as u32),
        None => Err("seed must be an unsigned 32-bit integer".to_owned()),
    }
}

/// Parses a worker count in `1..=8`.
pub fn parse_workers(value: &str) -> (r: Result<usize, String>)
    ensures
        r is Ok <==> workers_value(value@) is Some,
        r matches Ok(w) ==> workers_value(value@) == Some(w),
        r matches Err(e) ==> e@ == workers_error(),
{
    match parse_unsigned(value, 18446744073709551615) {
        Some(v) => {
            if 1 <= v && v <= 8 {
                Ok(v as usize)
            } else {
                Err("workers must be an integer from 1 through 8".to_owned())
            }
        },
        None => Err("workers must be an integer from 1 through 8".to_owned()),
    }
}

/// The usage line of the binary.
pub open spec fn usage() -> Seq<char> {
    "usage: sorcery-engine demo [seed] | batch [workers] [seeds...] | batch-json | gauntlet-json | novelty-gauntlet-json"@
}

/// The seeds of a `batch` command: each argument after the worker count,
/// or `[1]` when there is none.
pub open spec fn seeds_value(args: Seq<String>) -> Option<Seq<u32>> {
    if exists|i: int| 2 <= i < args.len() && #[trigger] seed_value(args[i]@) is None {
        None
    } else if args.len() <= 2 {
        Some(seq![1u32])
    } else {
        Some(args.skip(2).map_values(|a: String| seed_value(a@)->0))
    }
}

/// Why a command line (without the program name) is rejected, if it is.
pub open spec fn command_error(args: Seq<String>) -> Option<Seq<char>> {
    if args.len() == 0 {
        Some(usage())
    } else if args[0]@ == "demo"@ {
        if args.len() > 1 && seed_value(args[1]@) is None {
            Some(seed_error())
        } else if args.len() > 2 {
            Some("usage: sorcery-engine demo [seed]"@)
        } else {
            None
        }
    } else if args[0]@ == "batch"@ {
        if args.len() > 1 && workers_value(args[1]@) is None {
            Some(workers_error())
        } else if seeds_value(args) is None {
            Some(seed_error())
        } else if seeds_value(args)->0.len() > MAX_BATCH_JOBS {
            Some("batch must contain 1-256 seeds"@)
        } else {
            None
        }
    } else if args[0]@ == "batch-json"@ {
        if args.len() > 1 {
            Some("usage: sorcery-engine batch-json"@)
        } else {
            None
        }
    } else if args[0]@ == "gauntlet-json"@ {
        if args.len() > 1 {
            Some("usage: sorcery-engine gauntlet-json"@)
        } else {
            None
        }
    } else if args[0]@ == "novelty-gauntlet-json"@ {
        if args.len() > 1 {
            Some("usage: sorcery-engine novelty-gauntlet-json"@)
        } else {
            None
        }
    } else {
        Some(usage())
    }
}

/// The command an accepted command line denotes, with `default_workers`
/// standing for an absent worker count and seed `1` for absent seeds.
pub open spec fn command_of(c: Command, args: Seq<String>, default_workers: usize) -> bool {
    if args[0]@ == "demo"@ {
        c == Command::Demo {
            seed: if args.len() > 1 {
                seed_value(args[1]@)->0
            } else {
                1
            },
        }
    } else if args[0]@ == "batch"@ {
        match c {
            Command::Batch { workers, seeds } => workers == (if args.len() > 1 {
                workers_value(args[1]@)->0
            } else {
                default_workers
            }) && seeds@ == seeds_value(args)->0,
            _ => false,
        }
    } else if args[0]@ == "batch-json"@ {
        c == Command::BatchJson
    } else if args[0]@ == "gauntlet-json"@ {
        c == Command::GauntletJson
    } else {
        c == Command::NoveltyGauntletJson
    }
}

/// Parses the command line (without the program name); `default_workers`,
/// an accepted worker count, is the one used when `batch` names none.
pub fn parse_args(args: &Vec<String>, default_workers: usize) -> (r: Result<Command, String>)
    requires
        1 <= default_workers <= MAX_BATCH_WORKERS,
    ensures
        r is Ok <==> command_error(args@) is None,
        r matches Err(e) ==> command_error(args@) == Some(e@),
        r matches Ok(c) ==> command_of(c, args@, default_workers),
{
    if args.len() == 0 {
        return Err(usage_text());
    }
    let first = args[0].as_str();
    if same_text(first, "demo") {
        let seed = if args.len() > 1 {
            match parse_seed(args[1].as_str()) {
                Ok(s) => s,
                Err(e) => {
                    return Err(e);
                },
            }
        } else {
            1
        };
        if args.len() > 2 {
            return Err("usage: sorcery-engine demo [seed]".to_owned());
        }
        return Ok(Command::Demo { seed });
    }
    if same_text(first, "batch") {
        let workers = if args.len() > 1 {
            match parse_workers(args[1].as_str()) {
                Ok(w) => w,
                Err(e) => {
                    return Err(e);
                },
            }
        } else {
            default_workers
        };
        let mut seeds: Vec<u32> = Vec::new();
        if args.len() > 2 {
            let mut i: usize = 2;
            assert(args@.subrange(2, 2) =~= Seq::<String>::empty());
            while i < args.len()
                invariant
                    2 <= i <= args@.len(),
                    args@[0]@ == "batch"@,
                    args@[0]@ != "demo"@,
                    args@.len() > 1 ==> workers_value(args@[1]@) == Some(workers),
                    forall|j: int| 2 <= j < i ==> #[trigger] seed_value(args@[j]@) is Some,
                    seeds@ == args@.subrange(2, i as int).map_values(|a: String| seed_value(a@)->0),
                decreases args@.len() - i,
            {
                match parse_seed(args[i].as_str()) {
                    Ok(s) => {
                        seeds.push(s);
                    },
                    Err(e) => {
                        assert(seed_value(args@[i as int]@) is None);
                        return Err(e);
                    },
                }
                assert(args@.subrange(2, i + 1).map_values(|a: String| seed_value(a@)->0)
                    =~= args@.subrange(2, i as int).map_values(|a: String| seed_value(a@)->0).push(
                    seed_value(args@[i as int]@)->0,
                ));
                i = i + 1;
            }
            assert(args@.subrange(2, args@.len() as int) =~= args@.skip(2));
            assert(seeds@ == seeds_value(args@)->0);
        } else {
            seeds.push(1);
            assert(seeds@ =~= seq![1u32]);
        }
        assert(seeds@ == seeds_value(args@)->0);
        if seeds.len() > MAX_BATCH_JOBS {
            return Err("batch must contain 1-256 seeds".to_owned());
        }
        return Ok(Command::Batch { workers, seeds });
    }
    if same_text(first, "batch-json") {
        if args.len() > 1 {
            return Err("usage: sorcery-engine batch-json".to_owned());
        }
        return Ok(Command::BatchJson);
    }
    if same_text(first, "gauntlet-json") {
        if args.len() > 1 {
            return Err("usage: sorcery-engine gauntlet-json".to_owned());
        }
        return Ok(Command::GauntletJson);
    }
    if same_text(first, "novelty-gauntlet-json") {
        if args.len() > 1 {
            return Err("usage: sorcery-engine novelty-gauntlet-json".to_owned());
        }
        return Ok(Command::NoveltyGauntletJson);
    }
    Err(usage_text())
}

/// The usage line of the binary.
fn usage_text() -> (r: String)
    ensures
        r@ == usage(),
{
    "usage: sorcery-engine demo [seed] | batch [workers] [seeds...] | batch-json | gauntlet-json | novelty-gauntlet-json".to_owned()
}

/// The message for an oversized `batch-json` request.
pub open spec fn oversized_batch_error() -> Seq<char> {
    "batch-json input exceeds 129 MiB"@
}

/// Rejects a `batch-json` request larger than [`MAX_BATCH_JSON_BYTES`].
pub fn validate_batch_json_size(bytes: usize) -> (r: Result<(), String>)
    ensures
        r is Ok <==> bytes <= MAX_BATCH_JSON_BYTES,
        r matches Err(e) ==> e@ == oversized_batch_error(),
{
    if bytes > MAX_BATCH_JSON_BYTES {
        return Err("batch-json input exceeds 129 MiB".to_owned());
    }
    Ok(())
}

/// Whether `workers` is an accepted worker count.
pub open spec fn workers_in_range(workers: usize) -> bool {
    1 <= workers <= MAX_BATCH_WORKERS
}

/// The fault of a `batch-json` request header, if any.
pub open spec fn batch_request_fault(schema_version: u8, workers: usize, job_count: usize) -> Option<
    Seq<char>,
> {
    if schema_version != 1 {
        Some("batch-json schemaVersion must be 1"@)
    } else if !workers_in_range(workers) {
        Some("batch-json workers must be 1-8"@)
    } else if job_count == 0 || job_count > MAX_BATCH_JOBS {
        Some("batch-json must contain 1-256 jobs"@)
    } else {
        None
    }
}

/// Checks the header of a `batch-json` request: its schema, worker count,
/// and number of jobs.
pub fn validate_batch_request(schema_version: u8, workers: usize, job_count: usize) -> (r: Result<
    (),
    String,
>)
    ensures
        match batch_request_fault(schema_version, workers, job_count) {
            None => r is Ok,
            Some(message) => r matches Err(e) && e@ == message,
        },
{
    if schema_version != 1 {
        return Err("batch-json schemaVersion must be 1".to_owned());
    }
    if workers < 1 || workers > MAX_BATCH_WORKERS {
        return Err("batch-json workers must be 1-8".to_owned());
    }
    if job_count == 0 || job_count > MAX_BATCH_JOBS {
        return Err("batch-json must contain 1-256 jobs".to_owned());
    }
    Ok(())
}

/// The fault of a `gauntlet-json` request header, if any.
pub open spec fn gauntlet_request_fault(
    schema_version: u8,
    workers: usize,
    pair_count: usize,
    deck_a_id: Seq<char>,
    deck_b_id: Seq<char>,
) -> Option<Seq<char>> {
    if schema_version != 1 {
        Some("gauntlet-json schemaVersion must be 1"@)
    } else if !workers_in_range(workers) {
        Some("gauntlet-json workers must be 1-8"@)
    } else if pair_count == 0 || pair_count > MAX_BATCH_JOBS / 2 {
        Some("gauntlet-json must contain 1-128 seed pairs"@)
    } else if blank(deck_a_id) || blank(deck_b_id) || deck_a_id == deck_b_id {
        Some("gauntlet-json deck IDs must be distinct nonempty strings"@)
    } else {
        None
    }
}

/// Checks the header of a `gauntlet-json` request: its schema, worker
/// count, number of seed pairs, and the two deck identities.
pub fn validate_gauntlet_request(
    schema_version: u8,
    workers: usize,
    pair_count: usize,
    deck_a_id: &str,
    deck_b_id: &str,
) -> (r: Result<(), String>)
    ensures
        match gauntlet_request_fault(schema_version, workers, pair_count, deck_a_id@, deck_b_id@) {
            None => r is Ok,
            Some(message) => r matches Err(e) && e@ == message,
        },
{
    if schema_version != 1 {
        return Err("gauntlet-json schemaVersion must be 1".to_owned());
    }
    if workers < 1 || workers > MAX_BATCH_WORKERS {
        return Err("gauntlet-json workers must be 1-8".to_owned());
    }
    if pair_count == 0 || pair_count > MAX_BATCH_JOBS / 2 {
        return Err("gauntlet-json must contain 1-128 seed pairs".to_owned());
    }
    if is_blank(deck_a_id) || is_blank(deck_b_id) || same_text(deck_a_id, deck_b_id) {
        return Err("gauntlet-json deck IDs must be distinct nonempty strings".to_owned());
    }
    Ok(())
}

/// One job of a `novelty-gauntlet-json` request.
#[derive(Clone, Debug, Eq, PartialEq)]
pub struct NoveltyGauntletJob {
    /// Caller's job identity.
    pub job_id: String,
    /// Lesson the job belongs to.
    pub lesson_id: String,
    /// Authoritative manifest bytes.
    pub manifest_json: String,
    /// Seat orientation label.
    pub orientation: String,
}

/// Whether a novelty job leaves one of its fields blank.
pub open spec fn job_has_blank(job: NoveltyGauntletJob) -> bool {
    blank(job.job_id@) || blank(job.lesson_id@) || blank(job.orientation@) || blank(
        job.manifest_json@,
    )
}

/// The message for a novelty job with a blank field.
pub open spec fn blank_job_message() -> Seq<char> {
    "novelty-gauntlet-json jobs require nonempty jobId, lessonId, orientation, and manifestJson"@
}

/// The fault of a `novelty-gauntlet-json` request, if any.
pub open spec fn novelty_request_fault(
    schema_version: u8,
    max_actions: u64,
    jobs: Seq<NoveltyGauntletJob>,
) -> Option<Seq<char>> {
    if schema_version != 1 {
        Some("novelty-gauntlet-json schemaVersion must be 1"@)
    } else if max_actions > NOVELTY_ACTION_LIMIT {
        Some("novelty-gauntlet-json maxActions must be 0-500"@)
    } else if jobs.len() != 4 {
        Some("novelty-gauntlet-json must contain exactly 4 jobs"@)
    } else if exists|i: int| 0 <= i < jobs.len() && job_has_blank(#[trigger] jobs[i]) {
        Some(blank_job_message())
    } else {
        None
    }
}

/// Checks a `novelty-gauntlet-json` request: its schema, action budget,
/// and exactly four jobs with every field filled in.
pub fn validate_novelty_gauntlet_request(
    schema_version: u8,
    max_actions: u64,
    jobs: &[NoveltyGauntletJob],
) -> (r: Result<(), String>)
    ensures
        match novelty_request_fault(schema_version, max_actions, jobs@) {
            None => r is Ok,
            Some(message) => r matches Err(e) && e@ == message,
        },
{
    if schema_version != 1 {
        return Err("novelty-gauntlet-json schemaVersion must be 1".to_owned());
    }
    if max_actions > NOVELTY_ACTION_LIMIT {
        return Err("novelty-gauntlet-json maxActions must be 0-500".to_owned());
    }
    if jobs.len() != 4 {
        return Err("novelty-gauntlet-json must contain exactly 4 jobs".to_owned());
    }
    let mut i: usize = 0;
    while i < jobs.len()
        invariant
            schema_version == 1,
            max_actions <= NOVELTY_ACTION_LIMIT,
            i <= jobs@.len() == 4,
            forall|j: int| 0 <= j < i ==> !job_has_blank(#[trigger] jobs@[j]),
        decreases jobs@.len() - i,
    {
        let job = &jobs[i];
        if is_blank(job.job_id.as_str()) || is_blank(job.lesson_id.as_str()) || is_blank(
            job.orientation.as_str(),
        ) || is_blank(job.manifest_json.as_str()) {
            assert(job_has_blank(jobs@[i as int]));
            assert(exists|j: int| 0 <= j < jobs@.len() && job_has_blank(#[trigger] jobs@[j]));
            let message =
                "novelty-gauntlet-json jobs require nonempty jobId, lessonId, orientation, and manifestJson".to_owned();
            assert(message@ == blank_job_message());
            return Err(message);
        }
        i = i + 1;
    }
    Ok(())
}

} // verus!
