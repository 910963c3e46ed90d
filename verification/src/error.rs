//! The error a request is answered with: a JSON-RPC error code and a message.

use vstd::prelude::*;

verus! {

/// JSON-RPC "invalid params".
pub const INVALID_PARAMS: i64 = -32602;

/// JSON-RPC "internal error".
pub const INTERNAL_ERROR: i64 = -32603;

#[derive(Debug)]
pub struct PluginError {
    pub code: i64,
    pub message: String,
}

impl PluginError {
    /// An "invalid params" error carrying `message`.
    pub fn invalid_params(message: String) -> (e: PluginError)
        ensures
            e.code == INVALID_PARAMS,
            e.message@ == message@,
    {
        PluginError { code: INVALID_PARAMS, message }
    }

    /// An "internal error" carrying `message`.
    pub fn internal(message: String) -> (e: PluginError)
        ensures
            e.code == INTERNAL_ERROR,
            e.message@ == message@,
    {
        PluginError { code: INTERNAL_ERROR, message }
    }
}

} // verus!
