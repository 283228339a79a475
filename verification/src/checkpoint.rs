//! Authority-private deterministic session checkpoints: their contract
//! checks and their self-identity.

use vstd::prelude::*;

use crate::canonical::{
    canonical_text, identity_of_canonical_text, identity_of_text, write_value, CanonicalError,
    IdentityHash,
};
use crate::contract::{push_literal, push_seat, seat_text, ActionRequest};
use crate::json::{push_string_text, string_text, JsonValue};
use crate::text::{
    decimal_char_vec, decimal_chars, push_decimal, push_str, same_text, string_from_chars,
    utf16_len, utf16_units,
};

verus! {

/// Maximum accepted checkpoint byte length.
pub const GAME_CHECKPOINT_MAX_BYTES: usize = 16 * 1024 * 1024;

/// Maximum requests a checkpoint may replay.
pub const MAX_CHECKPOINT_REQUESTS: usize = 1000;

/// Maximum UTF-16 length of a requested action identity.
pub const MAX_ACTION_ID_UTF16_UNITS: usize = 256;

/// The largest integer a JSON number represents exactly.
pub const MAX_SAFE_INTEGER: u64 = 9007199254740991;

/// A private checkpoint that reconstructs hidden state by replaying every request.
#[derive(Debug)]
pub struct GameCheckpoint {
    /// Hash of the body excluding this field.
    pub checkpoint_id: IdentityHash,
    /// Hash of the reconstructed state and journals.
    pub expected_session_hash: IdentityHash,
    /// Stable checkpoint contract discriminator.
    pub kind: String,
    /// Canonical authoritative manifest.
    pub manifest: JsonValue,
    /// Every accepted and rejected request in original order.
    pub requests: Vec<ActionRequest>,
    /// Checkpoint schema version.
    pub schema_version: u8,
}

/// Checkpoint validation or hashing failed.
#[derive(Debug, Eq, PartialEq)]
pub enum CheckpointError {
    /// Canonical serialization or hashing failed.
    Canonical(CanonicalError),
    /// A checkpoint contract invariant was violated.
    Invalid(String),
}

/// The human-readable description of a checkpoint error.
pub open spec fn checkpoint_error_text(e: CheckpointError) -> Seq<char> {
    match e {
        CheckpointError::Canonical(_) => "canonical engine JSON requires integers"@,
        CheckpointError::Invalid(message) => message@,
    }
}

impl CheckpointError {
    /// Describes the error.
    pub fn to_string(&self) -> (r: String)
        ensures
            r@ == checkpoint_error_text(*self),
    {
        match self {
            CheckpointError::Canonical(error) => error.message().to_owned(),
            CheckpointError::Invalid(message) => message.clone(),
        }
    }
}

/// Whether a request cannot be replayed: an empty or overlong action
/// identity, or a state version beyond the exact JSON integers.
pub open spec fn request_invalid(request: ActionRequest) -> bool {
    let units = utf16_units(request.action_id@).len();
    units == 0 || units > MAX_ACTION_ID_UTF16_UNITS || request.state_version > MAX_SAFE_INTEGER
}

/// The first invalid request among the first `n`.
pub open spec fn first_invalid_request(requests: Seq<ActionRequest>, n: nat) -> Option<int>
    decreases n,
{
    if n == 0 || n > requests.len() {
        None
    } else if first_invalid_request(requests, (n - 1) as nat) is Some {
        first_invalid_request(requests, (n - 1) as nat)
    } else if request_invalid(requests[n - 1]) {
        Some(n - 1)
    } else {
        None
    }
}

proof fn lemma_first_invalid_stays(requests: Seq<ActionRequest>, k: nat, n: nat)
    requires
        first_invalid_request(requests, k) is Some,
        k <= n <= requests.len(),
    ensures
        first_invalid_request(requests, n) == first_invalid_request(requests, k),
    decreases n - k,
{
    if n > k {
        lemma_first_invalid_stays(requests, k, (n - 1) as nat);
    }
}

/// The fault of a checkpoint's kind, schema, and requests, if any.
pub open spec fn header_fault(checkpoint: GameCheckpoint) -> Option<Seq<char>> {
    let requests = checkpoint.requests@;
    if checkpoint.kind@ != "sorcery-game-checkpoint"@ || checkpoint.schema_version != 1 {
        Some("checkpoint kind or schema version is unsupported"@)
    } else if requests.len() > MAX_CHECKPOINT_REQUESTS {
        Some("checkpoint requests must contain at most 1000 entries"@)
    } else {
        match first_invalid_request(requests, requests.len()) {
            Some(index) => Some(
                "checkpoint request "@ + decimal_chars(index as nat) + " is invalid"@,
            ),
            None => None,
        }
    }
}

/// Checks a checkpoint's kind, schema version, and the bounds of each
/// request, reporting the first request that breaks them.
pub fn validate_checkpoint_header(checkpoint: &GameCheckpoint) -> (r: Result<(), CheckpointError>)
    ensures
        match header_fault(*checkpoint) {
            None => r is Ok,
            Some(message) => r matches Err(CheckpointError::Invalid(m)) && m@ == message,
        },
{
    if !same_text(checkpoint.kind.as_str(), "sorcery-game-checkpoint")
        || checkpoint.schema_version != 1 {
        return Err(
            CheckpointError::Invalid("checkpoint kind or schema version is unsupported".to_owned()),
        );
    }
    if checkpoint.requests.len() > MAX_CHECKPOINT_REQUESTS {
        return Err(
            CheckpointError::Invalid(
                "checkpoint requests must contain at most 1000 entries".to_owned(),
            ),
        );
    }
    let requests = &checkpoint.requests;
    let mut i: usize = 0;
    while i < requests.len()
        invariant
            *requests == checkpoint.requests,
            checkpoint.kind@ == "sorcery-game-checkpoint"@,
            checkpoint.schema_version == 1,
            requests@.len() <= MAX_CHECKPOINT_REQUESTS,
            i <= requests@.len(),
            first_invalid_request(requests@, i as nat) is None,
        decreases requests@.len() - i,
    {
        let request = &requests[i];
        let units = utf16_len(request.action_id.as_str());
        if units == 0 || units > MAX_ACTION_ID_UTF16_UNITS || request.state_version
            > MAX_SAFE_INTEGER {
            proof {
                lemma_first_invalid_stays(requests@, (i + 1) as nat, requests@.len());
            }
            let mut message = "checkpoint request ".to_owned();
            push_decimal(&mut message, i as u128);
            push_str(&mut message, " is invalid");
            return Err(CheckpointError::Invalid(message));
        }
        i = i + 1;
    }
    Ok(())
}

/// The canonical JSON text of a request.
pub open spec fn request_text(request: ActionRequest) -> Seq<char> {
    "{\"actionId\":"@ + string_text(request.action_id@) + ",\"seat\":"@ + seat_text(request.seat)
        + ",\"stateVersion\":"@ + decimal_chars(request.state_version as nat) + "}"@
}

/// The canonical JSON texts of the first `n` requests, separated by commas.
pub open spec fn requests_text(requests: Seq<ActionRequest>, n: nat) -> Seq<char>
    decreases n,
{
    if n == 0 || n > requests.len() {
        Seq::empty()
    } else if n == 1 {
        request_text(requests[0])
    } else {
        requests_text(requests, (n - 1) as nat) + ","@ + request_text(requests[n - 1])
    }
}

/// The canonical JSON text of a checkpoint's body, every field but its
/// identity; `None` when the manifest has no canonical text.
pub open spec fn checkpoint_body_text(checkpoint: GameCheckpoint) -> Option<Seq<char>> {
    match canonical_text(checkpoint.manifest) {
        Some(manifest) => Some(
            "{\"expectedSessionHash\":"@ + string_text(checkpoint.expected_session_hash@)
                + ",\"kind\":"@ + string_text(checkpoint.kind@) + ",\"manifest\":"@ + manifest
                + ",\"requests\":["@ + requests_text(
                checkpoint.requests@,
                checkpoint.requests@.len(),
            ) + "],\"schemaVersion\":"@ + decimal_chars(checkpoint.schema_version as nat)
                + "}"@,
        ),
        None => None,
    }
}

fn push_request_text(out: &mut Vec<char>, request: &ActionRequest)
    ensures
        final(out)@ == old(out)@ + request_text(*request),
{
    push_literal(out, "{\"actionId\":");
    push_string_text(request.action_id.as_str(), out);
    push_literal(out, ",\"seat\":");
    push_seat(out, request.seat);
    push_literal(out, ",\"stateVersion\":");
    let mut digits = decimal_char_vec(request.state_version);
    out.append(&mut digits);
    push_literal(out, "}");
    assert(final(out)@ =~= old(out)@ + request_text(*request));
}

/// Computes the identity of a checkpoint's body.
pub fn checkpoint_identity(checkpoint: &GameCheckpoint) -> (r: Result<IdentityHash, CanonicalError>)
    ensures
        r is Ok <==> checkpoint_body_text(*checkpoint) is Some,
        r matches Ok(id) ==> id@ == identity_of_text(checkpoint_body_text(*checkpoint)->0),
        r matches Err(e) ==> e == CanonicalError::NonIntegralNumber,
{
    let mut out: Vec<char> = Vec::new();
    push_literal(&mut out, "{\"expectedSessionHash\":");
    push_string_text(checkpoint.expected_session_hash.as_str(), &mut out);
    push_literal(&mut out, ",\"kind\":");
    push_string_text(checkpoint.kind.as_str(), &mut out);
    push_literal(&mut out, ",\"manifest\":");
    let ghost before_manifest = out@;
    match write_value(&checkpoint.manifest, &mut out) {
        Ok(()) => {},
        Err(e) => {
            return Err(e);
        },
    }
    push_literal(&mut out, ",\"requests\":[");
    let ghost start = out@;
    let requests = &checkpoint.requests;
    let mut i: usize = 0;
    while i < requests.len()
        invariant
            i <= requests@.len(),
            out@ == start + requests_text(requests@, i as nat),
        decreases requests@.len() - i,
    {
        if i > 0 {
            push_literal(&mut out, ",");
        }
        push_request_text(&mut out, &requests[i]);
        proof {
            if i == 0 {
                assert(out@ =~= start + requests_text(requests@, 1));
            } else {
                assert(out@ =~= start + requests_text(requests@, (i + 1) as nat));
            }
        }
        i = i + 1;
    }
    push_literal(&mut out, "],\"schemaVersion\":");
    let mut digits = decimal_char_vec(checkpoint.schema_version as u64);
    out.append(&mut digits);
    push_literal(&mut out, "}");
    assert(out@ =~= checkpoint_body_text(*checkpoint)->0);
    let text = string_from_chars(out.as_slice());
    Ok(identity_of_canonical_text(text.as_str()))
}

/// Checks that a checkpoint's identity is the identity of its body.
pub fn validate_checkpoint_identity(checkpoint: &GameCheckpoint) -> (r: Result<(), CheckpointError>)
    ensures
        match checkpoint_body_text(*checkpoint) {
            None => r == Err::<(), CheckpointError>(
                CheckpointError::Canonical(CanonicalError::NonIntegralNumber),
            ),
            Some(body) => if identity_of_text(body) == checkpoint.checkpoint_id@ {
                r is Ok
            } else {
                r matches Err(CheckpointError::Invalid(m)) && m@ == "checkpoint identity is invalid"@
            },
        },
{
    let id = match checkpoint_identity(checkpoint) {
        Ok(id) => id,
        Err(e) => {
            return Err(CheckpointError::Canonical(e));
        },
    };
    if !id.same_as(&checkpoint.checkpoint_id) {
        return Err(CheckpointError::Invalid("checkpoint identity is invalid".to_owned()));
    }
    Ok(())
}

/// The message for a checkpoint text over the byte bound.
pub open spec fn oversized_checkpoint() -> Seq<char> {
    "checkpoint exceeds 16777216 bytes"@
}

/// Rejects checkpoint text longer than [`GAME_CHECKPOINT_MAX_BYTES`] before
/// it is parsed.
pub fn validate_checkpoint_size(bytes: usize) -> (r: Result<(), CheckpointError>)
    ensures
        r is Ok <==> bytes <= GAME_CHECKPOINT_MAX_BYTES,
        r matches Err(CheckpointError::Invalid(m)) ==> m@ == oversized_checkpoint(),
        r matches Err(e) ==> e is Invalid,
{
    if bytes > GAME_CHECKPOINT_MAX_BYTES {
        return Err(CheckpointError::Invalid("checkpoint exceeds 16777216 bytes".to_owned()));
    }
    Ok(())
}

} // verus!
