//! The calls to DashScope.
use vstd::prelude::*;

use crate::http::{
    check_reply, header_text, replied_well, CallView, HttpCall, Method, Reply, Status,
};
use crate::provider::dashscope::request_builder::{
    anthropic_payload, build_anthropic_payload, dashscope_headers, get_dashscope_headers,
};
use crate::text::{join2, trim_end, trim_end_matches};
use crate::types::openai_request::ChatRequest;

verus! {

/// The call that asks DashScope for its answer to a chat request, in the name of `client`.
pub fn chat_dashscope(
    base_url: &str,
    api_key: &str,
    request: &ChatRequest,
    model: &str,
    client: &str,
) -> (r: HttpCall)
    requires
        header_text(api_key@),
        header_text(client@),
    ensures
        r@ == (CallView {
            method: Method::Post,
            url: trim_end(base_url@, "/"@) + "/messages"@,
            headers: dashscope_headers(api_key@, client@),
            bearer: None,
            query: Seq::empty(),
            body: Some(anthropic_payload(*request, model@)),
            timeout_secs: Some(36000),
        }),
{
    proof {
        reveal_strlit("/");
    }
    let base = trim_end_matches(base_url, "/");
    let r = HttpCall {
        method: Method::Post,
        url: join2(base.as_str(), "/messages"),
        headers: get_dashscope_headers(api_key, client),
        bearer: None,
        query: Vec::new(),
        body: Some(build_anthropic_payload(request, model)),
        timeout_secs: Some(36000),
    };
    assert(r@.query =~= Seq::<(Seq<char>, Seq<char>)>::empty());
    r
}

/// With what a client is refused after DashScope replied: the answer cannot be passed on yet.
pub fn status_after(reply: Reply) -> (r: Status)
    ensures
        r == if replied_well(reply) {
            Status::NotImplemented
        } else {
            Status::BadGateway
        },
        r == Status::NotImplemented <==> (reply matches Reply::Answered(code) && 200 <= code
            <= 299),
        r != Status::NotImplemented ==> r == Status::BadGateway,
{
    match check_reply(reply) {
        Ok(_) => Status::NotImplemented,
        Err(status) => status,
    }
}

} // verus!
