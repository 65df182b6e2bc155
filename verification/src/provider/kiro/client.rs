//! The calls to Kiro.
use vstd::prelude::*;

use crate::clock::LAST_SECOND;
use crate::http::{header_text, CallView, HttpCall, Method};
use crate::ids::{completion_id, simple_id};
use crate::json::{Json, JsonView};
use crate::provider::kiro::client_helper::{get_kiro_headers, kiro_headers};
use crate::provider::kiro::credential::KiroToken;
use crate::provider::kiro::request_builder::{build_chat_payload, chat_payload};
use crate::provider::kiro::response_builder::{build_sse_stream, stream_start, SseStream};
use crate::text::join3;
use crate::types::kiro_response::ModelsResponse;
use crate::types::openai_request::ChatRequest;

verus! {

/// The call that sends a request to Kiro.
pub open spec fn kiro_call(
    access_token: Seq<char>,
    region: Seq<char>,
    payload: JsonView,
    machine: Seq<char>,
) -> CallView {
    CallView {
        method: Method::Post,
        url: "https://runtime."@ + region + ".kiro.dev/generateAssistantResponse"@,
        headers: kiro_headers(machine),
        bearer: Some(access_token),
        query: Seq::empty(),
        body: Some(payload),
        timeout_secs: Some(30),
    }
}

/// The call that sends `payload` to Kiro.
pub fn send_to_kiro(access_token: &str, region: &str, payload: Json, machine: &str) -> (r: HttpCall)
    requires
        header_text(machine@),
    ensures
        r@ == kiro_call(access_token@, region@, payload@, machine@),
{
    let r = HttpCall {
        method: Method::Post,
        url: join3("https://runtime.", region, ".kiro.dev/generateAssistantResponse"),
        headers: get_kiro_headers(machine),
        bearer: Some(access_token.to_string()),
        query: Vec::new(),
        body: Some(payload),
        timeout_secs: Some(30),
    };
    assert(r@.query =~= Seq::<(Seq<char>, Seq<char>)>::empty());
    r
}

/// The call that asks Kiro for its answer to a chat request, in a new conversation.
pub fn chat_kiro(
    access_token: &str,
    profile_arn: &str,
    region: &str,
    request: &ChatRequest,
    model: &str,
    machine: &str,
) -> (r: HttpCall)
    requires
        header_text(machine@),
    ensures
        exists|id: Seq<char>| #[trigger]
            simple_id(id) && r@ == kiro_call(
                access_token@,
                region@,
                chat_payload(*request, model@, profile_arn@, id),
                machine@,
            ),
{
    let payload = build_chat_payload(request, model, profile_arn);
    send_to_kiro(access_token, region, payload, machine)
}

/// How an answer goes to the client.
pub enum Delivery {
    Stream(SseStream),
    Whole { model: String },
}

/// How the answer to a request goes to the client: as a stream where the request asks for it.
/// The answer names the model as the request does.
pub fn delivery(request: &ChatRequest) -> (r: Delivery)
    ensures
        match r {
            Delivery::Stream(s) => {
                &&& request.stream
                &&& completion_id(s.head().id)
                &&& 0 <= s.head().created <= LAST_SECOND
                &&& s.head().model == request.model@
                &&& s.state() == stream_start()
            },
            Delivery::Whole { model } => !request.stream && model@ == request.model@,
        },
{
    if request.stream {
        Delivery::Stream(build_sse_stream(request.model.clone()))
    } else {
        Delivery::Whole { model: request.model.clone() }
    }
}

/// The call that asks Kiro for its models.
pub fn list_models_call(token: &KiroToken, profile_arn: &str, machine: &str) -> (r: HttpCall)
    requires
        header_text(machine@),
    ensures
        r@ == (CallView {
            method: Method::Get,
            url: "https://q."@ + token.region@ + ".amazonaws.com/ListAvailableModels"@,
            headers: kiro_headers(machine@),
            bearer: Some(token.access_token@),
            query: seq![("origin"@, "AI_EDITOR"@), ("profileArn"@, profile_arn@)],
            body: None,
            timeout_secs: None,
        }),
{
    let mut query: Vec<(String, String)> = Vec::new();
    query.push(("origin".to_string(), "AI_EDITOR".to_string()));
    query.push(("profileArn".to_string(), profile_arn.to_string()));
    let r = HttpCall {
        method: Method::Get,
        url: join3("https://q.", token.region.as_str(), ".amazonaws.com/ListAvailableModels"),
        headers: get_kiro_headers(machine),
        bearer: Some(token.access_token.clone()),
        query,
        body: None,
        timeout_secs: None,
    };
    assert(r@.query =~= seq![("origin"@, "AI_EDITOR"@), ("profileArn"@, profile_arn@)]);
    r
}

/// The names of the models that Kiro has, in Kiro's order.
pub fn list_models(data: ModelsResponse) -> (r: Vec<String>)
    ensures
        r@ == Seq::new(data.models@.len(), |i: int| data.models@[i].model_id),
{
    let ghost all = data.models@;
    let mut out: Vec<String> = Vec::new();
    for model in it: data.models
        invariant
            it.seq() == all,
            out@.len() == it.index(),
            forall|j: int| 0 <= j < it.index() ==> #[trigger] out@[j] == all[j].model_id,
    {
        out.push(model.model_id);
    }
    assert(out@ =~= Seq::new(all.len(), |i: int| all[i].model_id));
    out
}

/// A call to Kiro goes to the region's address with the access token and the payload as they are.
pub proof fn lemma_call_holds_all(
    access_token: Seq<char>,
    region: Seq<char>,
    payload: JsonView,
    machine: Seq<char>,
)
    ensures
        ({
            let call = kiro_call(access_token, region, payload, machine);
            &&& call.method == Method::Post
            &&& call.url == "https://runtime."@ + region
                + ".kiro.dev/generateAssistantResponse"@
            &&& call.headers == kiro_headers(machine)
            &&& call.bearer == Some(access_token)
            &&& call.query.len() == 0
            &&& call.body == Some(payload)
            &&& call.timeout_secs == Some(30u64)
        }),
{
}

} // verus!
