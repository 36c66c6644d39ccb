//! Bodies of the JSON endpoints.

use serde_json::Value;
use vstd::prelude::*;

verus! {

/// Body of `POST /rpc/{id}`.
pub struct RpcRequest {
    /// The rpc export to call.
    pub function: String,
    /// A JSON array of arguments, or nothing.
    pub args: Option<Value>,
}

/// Body that the inject endpoints return when JSON is asked for.
pub struct InjectResponse {
    pub session_id: u64,
    pub pid: u32,
    pub package: Option<String>,
}

}
