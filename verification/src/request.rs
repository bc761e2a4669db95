//! The structured request that triggers one invocation, and its outcome.
use vstd::prelude::*;

verus! {

/// The trigger input: which parameters to resolve, which of them name the
/// client id / scope / refresh token, which token fields to write back, and
/// the two endpoints plus the secret-store path context.
#[derive(Debug, Clone)]
pub struct EventBridgePayload {
    pub cid_path: String,
    pub scope_path: String,
    pub r_tok_path: String,
    pub update_paths: Vec<String>,
    pub ssm_retrieval_paths: Vec<String>,
    pub secrets_endpoint: String,
    pub app_endpoint: String,
    pub secrets_path: String,
}

/// The per-invocation result: the request id and an overall success flag.
#[derive(Debug, Clone)]
pub struct Response {
    pub req_id: String,
    pub successful: bool,
}

} // verus!
