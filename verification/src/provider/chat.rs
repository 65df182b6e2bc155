//! What clients ask of the proxy: an answer, or the list of models.
use vstd::prelude::*;

use crate::http::Status;
use crate::json::{
    has_field, has_names, inner, items, items_view, json_view, lemma_array_view, Json, JsonObject,
    JsonView,
};
use crate::state::{is_kiro_model, kiro_model, serves_its_models, AppState, ProviderContext};
use crate::text::{first_position, lemma_first_position, lemma_split, split_at_first, split_once};
use crate::types::openai_request::ChatRequest;

verus! {

/// A chat request that goes to Kiro.
pub struct KiroChat {
    pub model: String,
    pub profile_arn: String,
    pub region: String,
}

/// A chat request that goes to DashScope.
pub struct DashScopeChat {
    pub model: String,
    pub base_url: String,
    pub api_key: String,
}

/// A chat request on its way to a provider.
pub enum Chat {
    Kiro(KiroChat),
    DashScope(DashScopeChat),
}

/// Whether `chat` asks `provider` for the model `model`.
pub open spec fn goes_to(chat: Chat, model: Seq<char>, provider: ProviderContext) -> bool {
    match (chat, provider) {
        (Chat::Kiro(c), ProviderContext::Kiro { token, profile_arn, region }) => {
            &&& c.model@ == model
            &&& c.profile_arn@ == profile_arn@
            &&& c.region@ == region@
        },
        (Chat::DashScope(c), ProviderContext::DashScope { base_url, api_key }) => {
            &&& c.model@ == model
            &&& c.base_url@ == base_url@
            &&& c.api_key@ == api_key@
        },
        _ => false,
    }
}

/// Where a request for a model goes: the name before the first slash is that of the provider,
/// the rest is that of the model.
pub open spec fn route(
    providers: Map<Seq<char>, ProviderContext>,
    model: Seq<char>,
) -> Result<(Seq<char>, ProviderContext), Status> {
    match split_at_first(model, '/') {
        None => Err(Status::BadRequest),
        Some((name, rest)) => if !providers.contains_key(name) {
            Err(Status::NotFound)
        } else if providers[name] is Agnes {
            Err(Status::NotImplemented)
        } else {
            Ok((rest, providers[name]))
        },
    }
}

/// Decides on a chat request: to its provider with the model that it names there, or refused.
pub fn chat_completions(state: &AppState, request: &ChatRequest) -> (r: Result<Chat, Status>)
    ensures
        match route(state.providers@, request.model@) {
            Ok((model, provider)) => r matches Ok(chat) && goes_to(chat, model, provider),
            Err(status) => r == Err::<Chat, Status>(status),
        },
{
    let (name, model) = match split_once(request.model.as_str(), '/') {
        Some(parts) => parts,
        None => {
            return Err(Status::BadRequest);
        },
    };
    match state.providers.get(name.as_str()) {
        None => Err(Status::NotFound),
        Some(ProviderContext::Kiro { token, profile_arn, region }) => Ok(
            Chat::Kiro(
                KiroChat { model, profile_arn: profile_arn.clone(), region: region.clone() },
            ),
        ),
        Some(ProviderContext::DashScope { base_url, api_key }) => Ok(
            Chat::DashScope(
                DashScopeChat { model, base_url: base_url.clone(), api_key: api_key.clone() },
            ),
        ),
        Some(ProviderContext::Agnes { .. }) => Err(Status::NotImplemented),
    }
}

/// A model in the list of models.
pub open spec fn model_entry(name: Seq<char>) -> JsonView {
    JsonView::Object(
        map![
            "id"@ => JsonView::Text(name),
            "object"@ => JsonView::Text("model"@),
            "owned_by"@ => JsonView::Text("yzz-llm-proxy"@)
        ],
    )
}

/// The list of models.
pub open spec fn model_list(names: Seq<Seq<char>>) -> JsonView {
    JsonView::Object(
        map![
            "object"@ => JsonView::Text("list"@),
            "data"@ => JsonView::Array(names.map_values(|n: Seq<char>| model_entry(n)))
        ],
    )
}

/// Lists the models that clients may use.
pub fn list_models(state: &AppState) -> (r: Json)
    ensures
        r@ == model_list(state.model_names()),
{
    let mut data: Vec<Json> = Vec::new();
    let mut i: usize = 0;
    while i < state.models.len()
        invariant
            i <= state.models@.len(),
            data@.len() == i,
            forall|j: int| 0 <= j < i ==> json_view(#[trigger] data@[j]) == model_entry(
                state.models@[j]@,
            ),
        decreases state.models@.len() - i,
    {
        data.push(
            Json::Object(
                JsonObject::new().with("id", Json::text(state.models[i].as_str())).with(
                    "object",
                    Json::text("model"),
                ).with("owned_by", Json::text("yzz-llm-proxy")),
            ),
        );
        i += 1;
    }
    proof {
        lemma_array_view(data);
        assert(items_view(data@) =~= state.model_names().map_values(
            |n: Seq<char>| model_entry(n),
        ));
    }
    Json::Object(JsonObject::new().with("object", Json::text("list")).with("data", Json::Array(data)))
}

/// A model of Kiro is asked for at Kiro, under the name that it has there.
pub proof fn lemma_kiro_model_goes_to_kiro(
    providers: Map<Seq<char>, ProviderContext>,
    model: Seq<char>,
)
    requires
        providers.contains_key("kiro"@),
        providers["kiro"@] is Kiro,
    ensures
        route(providers, kiro_model(model)) == Ok::<(Seq<char>, ProviderContext), Status>(
            (model, providers["kiro"@]),
        ),
{
    reveal_strlit("kiro/");
    reveal_strlit("kiro");
    let name = kiro_model(model);
    assert(name[0] == 'k' && name[1] == 'i' && name[2] == 'r' && name[3] == 'o' && name[4] == '/');
    lemma_first_position(name, '/');
    assert(first_position(name, '/') == Some(4int));
    assert(name.take(4) =~= "kiro"@);
    assert(name.skip(5) =~= model);
}

/// A model of DashScope is asked for at DashScope, under the name that it has there.
pub proof fn lemma_dashscope_model_goes_to_dashscope(
    providers: Map<Seq<char>, ProviderContext>,
    model: Seq<char>,
)
    requires
        providers.contains_key("dashscope"@),
        providers["dashscope"@] is DashScope,
    ensures
        route(providers, "dashscope/"@ + model) == Ok::<(Seq<char>, ProviderContext), Status>(
            (model, providers["dashscope"@]),
        ),
{
    reveal_strlit("dashscope/");
    reveal_strlit("dashscope");
    let name = "dashscope/"@ + model;
    lemma_first_position(name, '/');
    assert(name.take(9) =~= "dashscope"@);
    assert(name[9] == '/');
    assert(first_position(name, '/') == Some(9int)) by {
        let i = first_position(name, '/')->0;
        if i < 9 {
            assert(name[i] == "dashscope"@[i]);
        }
    }
    assert(name.skip(10) =~= model);
}

/// Every model in the list can be used: a request for it goes to Kiro.
pub proof fn lemma_listed_models_are_served(state: AppState, i: int)
    requires
        serves_its_models(state),
        0 <= i < state.models@.len(),
    ensures
        route(state.providers@, state.models@[i]@) matches Ok((model, provider)) && provider
            == state.providers@["kiro"@] && state.models@[i]@ == kiro_model(model),
{
    assert(is_kiro_model(state.models@[i]@));
    let m = choose|m: Seq<char>| state.models@[i]@ == #[trigger] kiro_model(m);
    lemma_kiro_model_goes_to_kiro(state.providers@, m);
}

/// A request names its provider before the first slash and the model behind it, which may hold
/// further slashes. A provider that is not there, and one that cannot be called yet, are refused
/// each in its way.
pub proof fn lemma_request_is_routed(
    providers: Map<Seq<char>, ProviderContext>,
    name: Seq<char>,
    model: Seq<char>,
)
    requires
        forall|i: int| 0 <= i < name.len() ==> name[i] != '/',
    ensures
        !providers.contains_key(name) ==> route(providers, name.push('/') + model) == Err::<
            (Seq<char>, ProviderContext),
            Status,
        >(Status::NotFound),
        providers.contains_key(name) && providers[name] is Agnes ==> route(
            providers,
            name.push('/') + model,
        ) == Err::<(Seq<char>, ProviderContext), Status>(Status::NotImplemented),
        providers.contains_key(name) && (providers[name] is Kiro || providers[name] is DashScope)
            ==> route(providers, name.push('/') + model) == Ok::<
            (Seq<char>, ProviderContext),
            Status,
        >((model, providers[name])),
        route(providers, name) == Err::<(Seq<char>, ProviderContext), Status>(Status::BadRequest),
{
    lemma_split(name, '/', model);
}

/// A request goes to its provider with all that is needed to call it.
pub proof fn lemma_chat_has_all(chat: Chat, model: Seq<char>, provider: ProviderContext)
    requires
        goes_to(chat, model, provider),
    ensures
        provider !is Agnes,
        provider matches ProviderContext::Kiro { token, profile_arn, region } ==> {
            &&& chat matches Chat::Kiro(c)
            &&& c.model@ == model
            &&& c.profile_arn@ == profile_arn@
            &&& c.region@ == region@
        },
        provider matches ProviderContext::DashScope { base_url, api_key } ==> {
            &&& chat matches Chat::DashScope(c)
            &&& c.model@ == model
            &&& c.base_url@ == base_url@
            &&& c.api_key@ == api_key@
        },
{
}

/// Every model is listed under its name, in its place.
pub proof fn lemma_every_model_is_listed(names: Seq<Seq<char>>, i: int)
    requires
        0 <= i < names.len(),
    ensures
        has_names(model_list(names), set!["object"@, "data"@]),
        has_field(model_list(names), "object"@, JsonView::Text("list"@)),
        inner(model_list(names), "data"@) is Array,
        items(inner(model_list(names), "data"@)).len() == names.len(),
        ({
            let entry = items(inner(model_list(names), "data"@))[i];
            &&& has_names(entry, set!["id"@, "object"@, "owned_by"@])
            &&& has_field(entry, "id"@, JsonView::Text(names[i]))
            &&& has_field(entry, "object"@, JsonView::Text("model"@))
            &&& has_field(entry, "owned_by"@, JsonView::Text("yzz-llm-proxy"@))
        }),
{
    reveal_strlit("object");
    reveal_strlit("data");
    reveal_strlit("id");
    reveal_strlit("owned_by");
    assert("object"@.len() == 6 && "data"@.len() == 4 && "id"@.len() == 2 && "owned_by"@.len()
        == 8);
    assert(model_list(names)->Object_0.dom() =~= set!["object"@, "data"@]);
    assert(model_entry(names[i])->Object_0.dom() =~= set!["id"@, "object"@, "owned_by"@]);
}

/// Where no model can be used, the list is empty.
pub proof fn lemma_no_model_is_listed()
    ensures
        inner(model_list(Seq::empty()), "data"@) == JsonView::Array(Seq::empty()),
{
    let none = Seq::<Seq<char>>::empty();
    reveal_strlit("object");
    reveal_strlit("data");
    assert("object"@.len() != "data"@.len());
    assert(none.map_values(|n: Seq<char>| model_entry(n)) =~= Seq::empty());
}

} // verus!
