//! Immutable per-game artifacts for a finished authoritative session, and the
//! checks that classify a replay of them.

use vstd::prelude::*;

use crate::batch::{BatchClassification, FinishedTerminal};
use crate::canonical::{valid_identity, CanonicalError, IdentityHash};
use crate::contract::{event_text, push_event_text, Event, Receipt};
use crate::eligibility::{
    evaluate_eligibility, evaluated, same_report, EligibilityGates, EligibilityReport,
};
use crate::json::{
    as_text, find_member, has_member, string_of, value_get, value_member, JsonNumber, JsonValue,
};
use crate::text::{same_text, str_chars, string_from_chars};

verus! {

/// Coverage evidence collected from one finished transcript.
#[derive(Clone, Debug, Eq, PartialEq)]
pub struct GameCoverage {
    /// Action kinds committed, in first-seen order.
    pub committed_action_kinds: Vec<String>,
    /// Event types emitted, in first-seen order.
    pub committed_event_types: Vec<String>,
    /// Action kinds offered by the engine, in first-seen order.
    pub offered_action_kinds: Vec<String>,
}

/// Immutable artifacts for one finished game.
#[derive(Debug)]
pub struct GameRecord {
    /// Number of accepted actions.
    pub accepted_action_count: usize,
    /// Ranked/public result classification.
    pub classification: BatchClassification,
    /// Action and event kinds exercised by this game.
    pub coverage: GameCoverage,
    /// Ranking eligibility. Finished synthetic games stay unranked.
    pub eligibility: EligibilityReport,
    /// Canonical JSONL of every transcript event, one object per line.
    pub event_jsonl: String,
    /// Identity of the flattened event list.
    pub events_hash: IdentityHash,
    /// Number of fights started.
    pub fight_count: usize,
    /// Final authoritative state identity.
    pub final_state_hash: IdentityHash,
    /// Immutable bound manifest.
    pub manifest: JsonValue,
    /// Canonical manifest identity.
    pub manifest_id: IdentityHash,
    /// Whether authoritative replay reproduced the transcript.
    pub replay_verified: bool,
    /// Record schema.
    pub schema_version: u8,
    /// Exact finished public terminal.
    pub terminal: FinishedTerminal,
    /// Accepted-action receipts.
    pub transcript: Vec<Receipt>,
    /// Identity of the accepted-action transcript.
    pub transcript_hash: IdentityHash,
    /// Final turn number.
    pub turn_count: u64,
}

/// Why an artifact replay did not match the recorded game.
#[derive(Clone, Copy, Debug, Eq, PartialEq, Structural)]
pub enum ReplayMismatch {
    /// Saved `authority.contentHash` is not the hash the engine bound.
    Authority,
    /// Saved `engineVersion` is not this engine.
    EngineVersion,
    /// Flattened events did not reproduce the recorded events hash.
    EventsHash,
    /// Replayed state did not reproduce the recorded final state hash.
    FinalStateHash,
    /// Saved or replayed manifest identity disagreed with the recorded outcome.
    ManifestIdentity,
    /// A recorded action was not legal in the replayed position.
    ReplayRejected,
    /// Saved `schemaVersion` is not this engine's schema.
    SchemaVersion,
    /// Replayed receipts did not reproduce the recorded transcript hash.
    TranscriptHash,
}

/// Integer-canonical result of replaying one artifact directory.
#[derive(Clone, Debug, Eq, PartialEq)]
pub struct ArtifactReplayReport {
    /// Ranked/public result classification.
    pub classification: BatchClassification,
    /// Ranking eligibility. Replays stay unranked.
    pub eligibility: EligibilityReport,
    /// Every compared hash and identity matched.
    pub matched: bool,
    /// First classified mismatch, if any.
    pub mismatch: Option<ReplayMismatch>,
    /// Authoritative replay reproduced the recorded transcript and hashes.
    pub replay_verified: bool,
    /// Replay report schema.
    pub schema_version: u8,
}

/// Classified outcome and terminal identities for one finished game.
#[derive(Clone, Debug, Eq, PartialEq)]
pub struct GameOutcomeArtifact {
    /// Number of accepted actions.
    pub accepted_action_count: usize,
    /// Ranked/public result classification.
    pub classification: BatchClassification,
    /// Ranking eligibility. Finished synthetic games stay unranked.
    pub eligibility: EligibilityReport,
    /// Identity of the flattened event list.
    pub events_hash: IdentityHash,
    /// Number of fights started.
    pub fight_count: usize,
    /// Final authoritative state identity.
    pub final_state_hash: IdentityHash,
    /// Canonical manifest identity.
    pub manifest_id: IdentityHash,
    /// Whether authoritative replay reproduced the transcript.
    pub replay_verified: bool,
    /// Record schema.
    pub schema_version: u8,
    /// Exact finished public terminal.
    pub terminal: FinishedTerminal,
    /// Identity of the accepted-action transcript.
    pub transcript_hash: IdentityHash,
    /// Final turn number.
    pub turn_count: u64,
}

/// Building or checking a per-game record failed.
#[derive(Clone, Copy, Debug, Eq, PartialEq)]
pub enum GameRecordError {
    /// The input is malformed; the text says how.
    Invalid(&'static str),
    /// The session or rollout is still active.
    NonTerminal,
}

impl GameRecordError {
    /// The human-readable description of the failure.
    pub fn message(&self) -> (r: &'static str)
        ensures
            match *self {
                GameRecordError::Invalid(text) => r@ == text@,
                GameRecordError::NonTerminal => r@ == "game record requires a finished session"@,
            },
    {
        match self {
            GameRecordError::Invalid(text) => text,
            GameRecordError::NonTerminal => "game record requires a finished session",
        }
    }
}

/// Whether a `/`-separated component of `path` is exactly `..`.
pub open spec fn has_parent_component(path: Seq<char>) -> bool {
    exists|i: int|
        0 <= i && i + 2 <= path.len() && #[trigger] path[i] == '.' && path[i + 1] == '.' && (i
            == 0 || path[i - 1] == '/') && (i + 2 == path.len() || path[i + 2] == '/')
}

/// The fault of an artifacts directory path, if any.
pub open spec fn artifacts_dir_fault(path: Seq<char>) -> Option<Seq<char>> {
    if path.len() == 0 {
        Some("artifacts directory is empty"@)
    } else if has_parent_component(path) {
        Some("artifacts directory must not contain .."@)
    } else {
        None
    }
}

/// Rejects empty artifact paths and parent-directory escapes.
///
/// Components are separated by `/`; a component `..` is an escape.
pub fn validate_artifacts_dir(dir: &str) -> (r: Result<(), GameRecordError>)
    ensures
        match artifacts_dir_fault(dir@) {
            None => r is Ok,
            Some(text) => r matches Err(GameRecordError::Invalid(m)) && m@ == text,
        },
{
    let chars = str_chars(dir);
    if chars.len() == 0 {
        return Err(GameRecordError::Invalid("artifacts directory is empty"));
    }
    let n = chars.len();
    let mut i: usize = 0;
    while i < n
        invariant
            chars@ == dir@,
            n == dir@.len(),
            i <= n,
            forall|k: int|
                0 <= k < i ==> !(k + 2 <= dir@.len() && #[trigger] dir@[k] == '.' && dir@[k + 1]
                    == '.' && (k == 0 || dir@[k - 1] == '/') && (k + 2 == dir@.len() || dir@[k
                    + 2] == '/')),
        decreases n - i,
    {
        if i + 1 < n && chars[i] == '.' && chars[i + 1] == '.' && (i == 0 || chars[i - 1] == '/')
            && (i + 2 == n || chars[i + 2] == '/') {
            assert(dir@[i as int] == '.');
            return Err(GameRecordError::Invalid("artifacts directory must not contain .."));
        }
        i = i + 1;
    }
    Ok(())
}

/// Canonical JSONL of the first `n` events: each event's canonical JSON text
/// followed by a newline; `None` when some payload has no canonical text.
pub open spec fn jsonl_text(events: Seq<Event>, n: nat) -> Option<Seq<char>>
    decreases n,
{
    if n == 0 || n > events.len() {
        Some(Seq::empty())
    } else {
        match (jsonl_text(events, (n - 1) as nat), event_text(events[n - 1])) {
            (Some(a), Some(b)) => Some(a + b + seq!['\n']),
            _ => None,
        }
    }
}

proof fn lemma_jsonl_text_fails(events: Seq<Event>, k: nat, n: nat)
    requires
        jsonl_text(events, k) is None,
        k <= n <= events.len(),
    ensures
        jsonl_text(events, n) is None,
    decreases n - k,
{
    if n > k {
        lemma_jsonl_text_fails(events, k, (n - 1) as nat);
    }
}

/// Formats events as canonical JSONL with a trailing newline.
pub fn event_jsonl(events: &[Event]) -> (r: Result<String, CanonicalError>)
    ensures
        r is Ok <==> jsonl_text(events@, events@.len()) is Some,
        r matches Ok(text) ==> text@ == jsonl_text(events@, events@.len())->0,
        r matches Err(e) ==> e == CanonicalError::NonIntegralNumber,
{
    let mut out: Vec<char> = Vec::new();
    let mut i: usize = 0;
    while i < events.len()
        invariant
            i <= events@.len(),
            jsonl_text(events@, i as nat) is Some,
            out@ == jsonl_text(events@, i as nat)->0,
        decreases events@.len() - i,
    {
        let ok = push_event_text(&mut out, &events[i]);
        if !ok {
            proof {
                lemma_jsonl_text_fails(events@, (i + 1) as nat, events@.len());
            }
            return Err(CanonicalError::NonIntegralNumber);
        }
        out.push('\n');
        i = i + 1;
    }
    Ok(string_from_chars(out.as_slice()))
}

impl GameRecord {
    /// Returns the classified outcome artifact derived from this record.
    pub fn outcome_artifact(&self) -> (r: GameOutcomeArtifact)
        ensures
            r.accepted_action_count == self.accepted_action_count,
            r.classification == self.classification,
            same_report(r.eligibility, self.eligibility),
            r.events_hash@ == self.events_hash@,
            r.fight_count == self.fight_count,
            r.final_state_hash@ == self.final_state_hash@,
            r.manifest_id@ == self.manifest_id@,
            r.replay_verified == self.replay_verified,
            r.schema_version == self.schema_version,
            r.terminal == self.terminal,
            r.transcript_hash@ == self.transcript_hash@,
            r.turn_count == self.turn_count,
    {
        GameOutcomeArtifact {
            accepted_action_count: self.accepted_action_count,
            classification: self.classification,
            eligibility: self.eligibility.clone(),
            events_hash: self.events_hash.clone(),
            fight_count: self.fight_count,
            final_state_hash: self.final_state_hash.clone(),
            manifest_id: self.manifest_id.clone(),
            replay_verified: self.replay_verified,
            schema_version: self.schema_version,
            terminal: self.terminal,
            transcript_hash: self.transcript_hash.clone(),
            turn_count: self.turn_count,
        }
    }
}

/// The gates of a report on a replay that did not match: nothing is
/// vouched for but reporting.
pub open spec fn mismatch_gates() -> EligibilityGates {
    EligibilityGates {
        coverage: false,
        design: false,
        execution: false,
        legality: false,
        pinned_input: false,
        replay: false,
        reporting: true,
    }
}

/// Whether `r` is the report of a replay stopped by `mismatch`.
pub open spec fn is_mismatch_report(r: ArtifactReplayReport, mismatch: ReplayMismatch) -> bool {
    &&& r.classification == BatchClassification::UnrankedPartialRulesUnverifiedAuthority
    &&& evaluated(r.eligibility, mismatch_gates())
    &&& !r.matched
    &&& r.mismatch == Some(mismatch)
    &&& !r.replay_verified
    &&& r.schema_version == 1
}

/// The report of a replay stopped by `mismatch`.
pub fn mismatch_report(mismatch: ReplayMismatch) -> (r: ArtifactReplayReport)
    ensures
        is_mismatch_report(r, mismatch),
{
    ArtifactReplayReport {
        classification: BatchClassification::UnrankedPartialRulesUnverifiedAuthority,
        eligibility: evaluate_eligibility(
            EligibilityGates {
                coverage: false,
                design: false,
                execution: false,
                legality: false,
                pinned_input: false,
                replay: false,
                reporting: true,
            },
        ),
        matched: false,
        mismatch: Some(mismatch),
        replay_verified: false,
        schema_version: 1,
    }
}

/// Whether a value is the JSON integer 1.
pub open spec fn is_one(v: Option<JsonValue>) -> bool {
    match v {
        Some(JsonValue::Number(JsonNumber::PosInt(u))) => u == 1,
        Some(JsonValue::Number(JsonNumber::NegInt(i))) => i == 1,
        _ => false,
    }
}

/// The version mismatch of a saved manifest against `engine_version` and
/// schema 1, engine first.
pub open spec fn version_mismatch(manifest: JsonValue, engine_version: Seq<char>) -> Option<
    ReplayMismatch,
> {
    if string_of(value_member(manifest, "engineVersion"@)) != Some(engine_version) {
        Some(ReplayMismatch::EngineVersion)
    } else if is_one(value_member(manifest, "schemaVersion"@)) {
        None
    } else {
        Some(ReplayMismatch::SchemaVersion)
    }
}

/// Classifies a saved manifest written by another engine or schema.
pub fn manifest_version_mismatch(manifest: &JsonValue, engine_version: &str) -> (r: Option<
    ReplayMismatch,
>)
    ensures
        r == version_mismatch(*manifest, engine_version@),
{
    match as_text(value_get(manifest, "engineVersion")) {
        Some(version) => {
            if !same_text(version, engine_version) {
                return Some(ReplayMismatch::EngineVersion);
            }
        },
        None => {
            return Some(ReplayMismatch::EngineVersion);
        },
    }
    match value_get(manifest, "schemaVersion") {
        Some(JsonValue::Number(JsonNumber::PosInt(u))) => {
            if *u == 1 {
                None
            } else {
                Some(ReplayMismatch::SchemaVersion)
            }
        },
        Some(JsonValue::Number(JsonNumber::NegInt(i))) => {
            if *i == 1 {
                None
            } else {
                Some(ReplayMismatch::SchemaVersion)
            }
        },
        _ => Some(ReplayMismatch::SchemaVersion),
    }
}

/// The valid identity held at `authority.contentHash`, if any.
pub open spec fn authority_hash_of(manifest: JsonValue) -> Option<Seq<char>> {
    match value_member(manifest, "authority"@) {
        Some(authority) => match string_of(value_member(authority, "contentHash"@)) {
            Some(text) => if valid_identity(text) {
                Some(text)
            } else {
                None
            },
            None => None,
        },
        None => None,
    }
}

/// Reads the authority content hash that a manifest binds.
pub fn manifest_authority_hash(manifest: &JsonValue) -> (r: Option<IdentityHash>)
    ensures
        match r {
            Some(h) => authority_hash_of(*manifest) == Some(h@),
            None => authority_hash_of(*manifest) is None,
        },
{
    let authority = match value_get(manifest, "authority") {
        Some(a) => a,
        None => {
            return None;
        },
    };
    let text = match as_text(value_get(authority, "contentHash")) {
        Some(t) => t,
        None => {
            return None;
        },
    };
    match IdentityHash::parse(text) {
        Ok(h) => Some(h),
        Err(_) => None,
    }
}

/// The report on saved artifacts before any replay: a version mismatch
/// first, then a missing authority binding; `None` when replay may proceed.
pub open spec fn precheck_mismatch(manifest: JsonValue, engine_version: Seq<char>) -> Option<
    ReplayMismatch,
> {
    if version_mismatch(manifest, engine_version) is Some {
        version_mismatch(manifest, engine_version)
    } else if authority_hash_of(manifest) is None {
        Some(ReplayMismatch::Authority)
    } else {
        None
    }
}

/// Checks a saved manifest before replaying its transcript, as an artifact
/// replay does: a manifest of another engine or schema, or one that binds no
/// valid authority hash, is reported without replay.
pub fn replay_precheck(manifest: &JsonValue, engine_version: &str) -> (r: Option<
    ArtifactReplayReport,
>)
    ensures
        match precheck_mismatch(*manifest, engine_version@) {
            Some(m) => r matches Some(report) && is_mismatch_report(report, m),
            None => r is None,
        },
{
    if let Some(mismatch) = manifest_version_mismatch(manifest, engine_version) {
        return Some(mismatch_report(mismatch));
    }
    if manifest_authority_hash(manifest).is_none() {
        return Some(mismatch_report(ReplayMismatch::Authority));
    }
    None
}

/// Whether `outcome` holds the identity `id` as the string member `key`.
pub open spec fn records(outcome: JsonValue, key: Seq<char>, id: Seq<char>) -> bool {
    string_of(value_member(outcome, key)) == Some(id)
}

/// The first mismatch between saved artifacts and a replayed record.
pub open spec fn replay_mismatch(
    record: GameRecord,
    manifest: JsonValue,
    outcome: JsonValue,
    events_file_hash: Seq<char>,
) -> Option<ReplayMismatch> {
    if authority_hash_of(manifest) != authority_hash_of(record.manifest) {
        Some(ReplayMismatch::Authority)
    } else if !records(outcome, "manifestId"@, record.manifest_id@) {
        Some(ReplayMismatch::ManifestIdentity)
    } else if !records(outcome, "transcriptHash"@, record.transcript_hash@) {
        Some(ReplayMismatch::TranscriptHash)
    } else if !records(outcome, "eventsHash"@, record.events_hash@) || events_file_hash
        != record.events_hash@ {
        Some(ReplayMismatch::EventsHash)
    } else if !records(outcome, "finalStateHash"@, record.final_state_hash@) {
        Some(ReplayMismatch::FinalStateHash)
    } else {
        None
    }
}

/// The gates of a report on a mismatched replay of `record`.
pub open spec fn failed_replay_gates(record: GameRecord) -> EligibilityGates {
    EligibilityGates { replay: false, reporting: true, ..record.eligibility.gates }
}

fn records_id(outcome: &JsonValue, key: &str, id: &IdentityHash) -> (r: bool)
    ensures
        r == records(*outcome, key@, id@),
{
    match as_text(value_get(outcome, key)) {
        Some(text) => same_text(text, id.as_str()),
        None => false,
    }
}

/// Compares saved artifacts with a replayed record.
pub fn compare_replay(
    record: &GameRecord,
    manifest: &JsonValue,
    outcome: &JsonValue,
    events_file_hash: &IdentityHash,
) -> (r: ArtifactReplayReport)
    ensures
        r.mismatch == replay_mismatch(*record, *manifest, *outcome, events_file_hash@),
        r.matched == r.mismatch is None,
        r.replay_verified == r.matched,
        r.classification == BatchClassification::UnrankedPartialRulesUnverifiedAuthority,
        r.schema_version == 1,
        r.matched ==> same_report(r.eligibility, record.eligibility),
        !r.matched ==> evaluated(r.eligibility, failed_replay_gates(*record)),
{
    let recorded_authority = manifest_authority_hash(manifest);
    let replayed_authority = manifest_authority_hash(&record.manifest);
    let same_authority = match (&recorded_authority, &replayed_authority) {
        (Some(a), Some(b)) => a.same_as(b),
        (None, None) => true,
        _ => false,
    };
    let mismatch = if !same_authority {
        Some(ReplayMismatch::Authority)
    } else if !records_id(outcome, "manifestId", &record.manifest_id) {
        Some(ReplayMismatch::ManifestIdentity)
    } else if !records_id(outcome, "transcriptHash", &record.transcript_hash) {
        Some(ReplayMismatch::TranscriptHash)
    } else if !records_id(outcome, "eventsHash", &record.events_hash) || !events_file_hash.same_as(
        &record.events_hash,
    ) {
        Some(ReplayMismatch::EventsHash)
    } else if !records_id(outcome, "finalStateHash", &record.final_state_hash) {
        Some(ReplayMismatch::FinalStateHash)
    } else {
        None
    };
    let matched = mismatch.is_none();
    let gates = record.eligibility.gates;
    ArtifactReplayReport {
        classification: BatchClassification::UnrankedPartialRulesUnverifiedAuthority,
        eligibility: if matched {
            record.eligibility.clone()
        } else {
            evaluate_eligibility(
                EligibilityGates {
                    coverage: gates.coverage,
                    design: gates.design,
                    execution: gates.execution,
                    legality: gates.legality,
                    pinned_input: gates.pinned_input,
                    replay: false,
                    reporting: true,
                },
            )
        },
        matched,
        mismatch,
        replay_verified: matched,
        schema_version: 1,
    }
}

/// Whether `decks` is an object with both a `north` and a `south` member.
pub open spec fn has_both_decks(decks: Option<JsonValue>) -> bool {
    match decks {
        Some(JsonValue::Object(members)) => has_member(members@, "north"@) && has_member(
            members@,
            "south"@,
        ),
        _ => false,
    }
}

/// The eligibility gates of a finished game.
pub open spec fn finished_gates(
    manifest: JsonValue,
    coverage: GameCoverage,
    replay_verified: bool,
    engine_version: Seq<char>,
) -> EligibilityGates {
    EligibilityGates {
        coverage: coverage.offered_action_kinds@.len() > 0
            || coverage.committed_action_kinds@.len() > 0,
        design: has_both_decks(value_member(manifest, "decks"@)),
        execution: true,
        legality: true,
        pinned_input: value_member(manifest, "seed"@) is Some && value_member(
            manifest,
            "manifestId"@,
        ) is Some && string_of(value_member(manifest, "engineVersion"@)) == Some(engine_version)
            && authority_hash_of(manifest) is Some,
        replay: replay_verified,
        reporting: true,
    }
}

/// The eligibility of a finished game bound to `manifest`, for an engine of
/// version `engine_version`.
pub fn finished_game_eligibility(
    manifest: &JsonValue,
    coverage: &GameCoverage,
    replay_verified: bool,
    engine_version: &str,
) -> (r: EligibilityReport)
    ensures
        evaluated(r, finished_gates(*manifest, *coverage, replay_verified, engine_version@)),
{
    let design = match value_get(manifest, "decks") {
        Some(JsonValue::Object(members)) => find_member(members, "north").is_some() && find_member(
            members,
            "south",
        ).is_some(),
        _ => false,
    };
    let engine_matches = match as_text(value_get(manifest, "engineVersion")) {
        Some(version) => same_text(version, engine_version),
        None => false,
    };
    let pinned_input = value_get(manifest, "seed").is_some() && value_get(
        manifest,
        "manifestId",
    ).is_some() && engine_matches && manifest_authority_hash(manifest).is_some();
    evaluate_eligibility(
        EligibilityGates {
            coverage: coverage.offered_action_kinds.len() > 0
                || coverage.committed_action_kinds.len() > 0,
            design,
            execution: true,
            legality: true,
            pinned_input,
            replay: replay_verified,
            reporting: true,
        },
    )
}

} // verus!
