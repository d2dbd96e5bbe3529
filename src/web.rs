//! The request-facing layer: the RPC envelope, its dispatcher and handlers.
use vstd::prelude::*;

pub mod rpc;

use crate::model;

verus! {

pub type Result<T> = core::result::Result<T, Error>;

/// Failures a request can end in.
#[derive(Debug)]
pub enum Error {
    /// The envelope lacks a string `id` or a string `method`.
    RpcRequestParsingFail,
    /// No handler is registered under `method`.
    MethodUnknown { method: String },
    /// The parameters do not have the shape the handler of `method` expects.
    ParamsParsingFail { method: String },
    /// The store refused the operation.
    Model(model::Error),
}

} // verus!
