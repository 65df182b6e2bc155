//! The paths under which clients reach the proxy.
use vstd::prelude::*;

use crate::http::Method;

verus! {

/// What clients can ask for.
#[derive(Debug, Clone, Copy, PartialEq, Eq, Structural)]
pub enum Endpoint {
    ListModels,
    ChatCompletions,
}

/// The path of an endpoint.
pub open spec fn endpoint_path(e: Endpoint) -> Seq<char> {
    match e {
        Endpoint::ListModels => "/v1/models"@,
        Endpoint::ChatCompletions => "/v1/chat/completions"@,
    }
}

/// The method of an endpoint.
pub open spec fn endpoint_method(e: Endpoint) -> Method {
    match e {
        Endpoint::ListModels => Method::Get,
        Endpoint::ChatCompletions => Method::Post,
    }
}

impl Endpoint {
    /// The path of the endpoint.
    pub fn path(self) -> (r: &'static str)
        ensures
            r@ == endpoint_path(self),
            self == Endpoint::ListModels ==> r@ == "/v1/models"@,
            self == Endpoint::ChatCompletions ==> r@ == "/v1/chat/completions"@,
    {
        match self {
            Endpoint::ListModels => "/v1/models",
            Endpoint::ChatCompletions => "/v1/chat/completions",
        }
    }

    /// The method of the endpoint.
    pub fn method(self) -> (r: Method)
        ensures
            r == endpoint_method(self),
            self == Endpoint::ListModels <==> r == Method::Get,
            self == Endpoint::ChatCompletions <==> r == Method::Post,
    {
        match self {
            Endpoint::ListModels => Method::Get,
            Endpoint::ChatCompletions => Method::Post,
        }
    }
}

} // verus!
