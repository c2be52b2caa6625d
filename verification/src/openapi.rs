//! The bodies of the documented health and ingest responses.
use vstd::prelude::*;

verus! {

/// `GET /healthz`.
#[derive(Debug, Clone, Copy, PartialEq, Eq, Structural)]
pub struct HealthResponse {
    pub ok: bool,
}

/// `GET /readyz`: the database answers; how many batches wait to be written.
#[derive(Debug, Clone, Copy, PartialEq, Eq, Structural)]
pub struct ReadyResponse {
    pub ok: bool,
    pub queue_depth: usize,
}

/// `GET /v1/ingest/health`: the key is valid for ingest; its name.
#[derive(Debug, Clone)]
pub struct IngestHealthResponse {
    pub ok: bool,
    pub key: String,
}

/// `POST /v1/logs`: how many events were written.
#[derive(Debug, Clone, Copy, PartialEq, Eq, Structural)]
pub struct IngestAccepted {
    pub written: usize,
}

/// The body of every error response.
#[derive(Debug, Clone)]
pub struct ErrorBody {
    pub error: String,
}

} // verus!
