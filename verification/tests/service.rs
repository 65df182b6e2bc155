use yzz_llm_proxy::config::{AccountConfig, Config, ServerConfig};
use yzz_llm_proxy::constant::DEFAULT_CONFIG_CONTENT;
use yzz_llm_proxy::http::{check_reply, is_success, Method, Reply, Status};
use yzz_llm_proxy::json::Json;
use yzz_llm_proxy::provider::chat::{chat_completions, list_models, Chat};
use yzz_llm_proxy::provider::kiro::client::{
    chat_kiro, delivery, list_models as kiro_models, list_models_call, send_to_kiro, Delivery,
};
use yzz_llm_proxy::provider::kiro::client_helper::get_kiro_headers;
use yzz_llm_proxy::provider::kiro::credential::KiroToken;
use yzz_llm_proxy::route::Endpoint;
use yzz_llm_proxy::state::{AppState, InitError, InitStep, ProviderContext};
use yzz_llm_proxy::types::kiro_response::{KiroModel, ModelsResponse};
use yzz_llm_proxy::types::openai_request::ChatRequest;

fn value(text: &str) -> serde_json::Value {
    serde_json::from_str(text).unwrap()
}

fn token() -> KiroToken {
    KiroToken {
        access_token: "access".to_string(),
        refresh_token: "refresh".to_string(),
        expires_at: "9999-01-01T00:00:00Z".to_string(),
        region: "us-east-1".to_string(),
    }
}

fn config(accounts: Option<Vec<AccountConfig>>) -> Config {
    Config { server: ServerConfig { listen: "127.0.0.1:8127".to_string() }, accounts }
}

fn dashscope() -> AccountConfig {
    AccountConfig::DashScope { base_url: "u".to_string(), api_key: "k".to_string() }
}

fn request(model: &str, stream: bool) -> ChatRequest {
    ChatRequest {
        model: model.to_string(),
        messages: vec![],
        stream,
        temperature: None,
        max_tokens: None,
        tools: None,
    }
}

fn kiro_state() -> AppState {
    let config = config(Some(vec![AccountConfig::Kiro {}]));
    let mut init = AppState::init();
    assert_eq!(init.next(&config), InitStep::LoadKiro);
    init.kiro_loaded(
        &config,
        token(),
        "arn:x".to_string(),
        vec!["glm-5".to_string(), "a/b".to_string()],
    );
    assert_eq!(init.next(&config), InitStep::Ready);
    init.state
}

#[test]
fn loaded_providers_are_named() {
    assert_eq!(Config::print_load_providers(&config(None)), "Not provider configed.");
    assert_eq!(Config::print_load_providers(&config(Some(vec![]))), "Not provider configed.");
    assert_eq!(
        Config::print_load_providers(&config(Some(vec![AccountConfig::Kiro {}]))),
        "kiro"
    );
    assert_eq!(
        Config::print_load_providers(&config(Some(vec![
            AccountConfig::Kiro {},
            dashscope(),
            AccountConfig::Kiro {}
        ]))),
        "kiro,dashscope,kiro"
    );
}

#[test]
fn the_configuration_file() {
    assert_eq!(Config::get_config_path(), vec![".config", "yzz-llm-proxy", "config.toml"]);
    let content: toml::Value = toml::from_str(DEFAULT_CONFIG_CONTENT).unwrap();
    assert_eq!(content["server"]["listen"].as_str(), Some("127.0.0.1:8127"));
    assert_eq!(content["accounts"].as_array().unwrap().len(), 1);
    assert_eq!(content["accounts"][0]["provider"].as_str(), Some("kiro"));
}

#[test]
fn the_endpoints() {
    assert_eq!(Endpoint::ListModels.path(), "/v1/models");
    assert_eq!(Endpoint::ListModels.method(), Method::Get);
    assert_eq!(Endpoint::ChatCompletions.path(), "/v1/chat/completions");
    assert_eq!(Endpoint::ChatCompletions.method(), Method::Post);
}

#[test]
fn without_accounts_the_proxy_does_not_start() {
    assert_eq!(
        AppState::init().next(&config(None)),
        InitStep::Refuse(InitError::NoProvider)
    );
    assert_eq!(AppState::init().next(&config(Some(vec![]))), InitStep::Ready);
}

#[test]
fn dashscope_accounts_are_taken() {
    let both = config(Some(vec![
        AccountConfig::Kiro {},
        AccountConfig::DashScope { base_url: "https://h/v1".to_string(), api_key: "k".to_string() },
    ]));
    let mut init = AppState::init();
    assert_eq!(init.next(&both), InitStep::LoadKiro);
    init.kiro_loaded(&both, token(), "arn".to_string(), vec!["m".to_string()]);
    assert_eq!(init.next(&both), InitStep::TakeDashScope);
    init.dashscope_taken(&both);
    assert_eq!(init.next(&both), InitStep::Ready);
    assert_eq!(init.state.models, vec!["kiro/m".to_string()]);
    match init.state.providers.get("dashscope").unwrap() {
        ProviderContext::DashScope { base_url, api_key } => {
            assert_eq!(base_url, "https://h/v1");
            assert_eq!(api_key, "k");
        }
        _ => panic!("another provider"),
    }
    assert!(matches!(init.state.providers.get("kiro"), Some(ProviderContext::Kiro { .. })));
    match chat_completions(&init.state, &request("dashscope/a/b", false)) {
        Ok(Chat::DashScope(chat)) => {
            assert_eq!(chat.model, "a/b");
            assert_eq!(chat.base_url, "https://h/v1");
            assert_eq!(chat.api_key, "k");
        }
        _ => panic!("not at DashScope"),
    }
}

#[test]
fn dashscope_alone_is_enough_to_start() {
    let alone = config(Some(vec![dashscope()]));
    let mut init = AppState::init();
    assert_eq!(init.next(&alone), InitStep::TakeDashScope);
    init.dashscope_taken(&alone);
    assert_eq!(init.next(&alone), InitStep::Ready);
    assert!(init.state.models.is_empty());
}

#[test]
fn models_carry_the_name_of_their_provider() {
    let state = kiro_state();
    assert_eq!(state.models, vec!["kiro/glm-5".to_string(), "kiro/a/b".to_string()]);
    match state.providers.get("kiro").unwrap() {
        ProviderContext::Kiro { token, profile_arn, region } => {
            assert_eq!(token.access_token, "access");
            assert_eq!(profile_arn, "arn:x");
            assert_eq!(region, "us-east-1");
        }
        _ => panic!("another provider"),
    }
}

#[test]
fn the_list_of_models() {
    assert_eq!(
        list_models(&kiro_state()).to_value(),
        value(
            r#"{"object":"list","data":[{"id":"kiro/glm-5","object":"model","owned_by":"yzz-llm-proxy"},
                {"id":"kiro/a/b","object":"model","owned_by":"yzz-llm-proxy"}]}"#
        )
    );
}

#[test]
fn every_listed_model_is_served() {
    let state = kiro_state();
    for model in &state.models {
        let chat = match chat_completions(&state, &request(model, false)) {
            Ok(Chat::Kiro(chat)) => chat,
            _ => panic!("not at Kiro"),
        };
        assert_eq!(format!("kiro/{}", chat.model), *model);
        assert_eq!(chat.profile_arn, "arn:x");
        assert_eq!(chat.region, "us-east-1");
    }
}

#[test]
fn requests_that_are_refused() {
    let mut state = kiro_state();
    let status = |state: &AppState, model: &str| chat_completions(state, &request(model, false)).err();
    assert_eq!(status(&state, "glm-5"), Some(Status::BadRequest));
    assert_eq!(status(&state, ""), Some(Status::BadRequest));
    assert_eq!(status(&state, "other/glm-5"), Some(Status::NotFound));
    assert_eq!(status(&state, "/glm-5"), Some(Status::NotFound));
    assert_eq!(status(&state, "kiro/unknown"), None);
    state.providers.insert(
        "agnes".to_string(),
        ProviderContext::Agnes { base_url: "u".to_string(), api_key: "k".to_string() },
    );
    assert_eq!(status(&state, "agnes/q"), Some(Status::NotImplemented));
}

#[test]
fn statuses_have_numbers() {
    assert_eq!(Status::BadRequest.code(), 400);
    assert_eq!(Status::Unauthorized.code(), 401);
    assert_eq!(Status::NotFound.code(), 404);
    assert_eq!(Status::NotImplemented.code(), 501);
    assert_eq!(Status::BadGateway.code(), 502);
}

#[test]
fn replies_are_checked() {
    assert!(is_success(200) && is_success(299));
    assert!(!is_success(199) && !is_success(300));
    assert_eq!(check_reply(Reply::Answered(204)), Ok(()));
    assert_eq!(check_reply(Reply::Answered(404)), Err(Status::BadGateway));
    assert_eq!(check_reply(Reply::Failed), Err(Status::BadGateway));
}

#[test]
fn the_headers_of_kiro() {
    let headers = get_kiro_headers("abc");
    assert_eq!(headers.len(), 3);
    assert_eq!(
        headers.get("user-agent").unwrap(),
        "aws-sdk-js/1.0.27 ua/2.1 os/win32#10.0.19044 lang/js md/nodejs#22.21.1 api/codewhispererstreaming#1.0.27 m/E KiroIDE-0.7.45-abc"
    );
    assert_eq!(headers.get("x-amz-user-agent").unwrap(), "aws-sdk-js/1.0.27 KiroIDE-0.7.45-abc");
    assert_eq!(headers.get("content-type").unwrap(), "application/x-amz-json-1.0");
}

#[test]
fn the_call_to_kiro() {
    let call = send_to_kiro("access", "us-east-1", Json::text("payload"), "abc");
    assert_eq!(call.method, Method::Post);
    assert_eq!(call.url, "https://runtime.us-east-1.kiro.dev/generateAssistantResponse");
    assert_eq!(call.headers, get_kiro_headers("abc"));
    assert_eq!(call.bearer, Some("access".to_string()));
    assert!(call.query.is_empty());
    assert_eq!(call.body.unwrap().to_value(), value("\"payload\""));
    assert_eq!(call.timeout_secs, Some(30));
}

#[test]
fn a_chat_goes_to_kiro() {
    let call = chat_kiro("access", "arn:x", "us-east-1", &request("kiro/glm-5", false), "glm-5", "abc");
    let body = call.body.unwrap().to_value();
    assert_eq!(body["profileArn"], value("\"arn:x\""));
    assert_eq!(
        body["conversationState"]["currentMessage"],
        value(r#"{"userInputMessage":{"content":"Hello","modelId":"glm-5","origin":"AI_EDITOR"}}"#)
    );
    assert_eq!(call.url, "https://runtime.us-east-1.kiro.dev/generateAssistantResponse");
    assert_eq!(call.bearer, Some("access".to_string()));
}

#[test]
fn an_answer_is_delivered_as_the_request_asks() {
    match delivery(&request("kiro/glm-5", true)) {
        Delivery::Stream(stream) => {
            assert_eq!(stream.model, "kiro/glm-5");
            assert_eq!(stream.completion_id.len(), 45);
        }
        Delivery::Whole { .. } => panic!("no stream"),
    }
    match delivery(&request("kiro/glm-5", false)) {
        Delivery::Stream(_) => panic!("a stream"),
        Delivery::Whole { model } => assert_eq!(model, "kiro/glm-5"),
    }
}

#[test]
fn the_call_for_the_models_of_kiro() {
    let call = list_models_call(&token(), "arn:x", "abc");
    assert_eq!(call.method, Method::Get);
    assert_eq!(call.url, "https://q.us-east-1.amazonaws.com/ListAvailableModels");
    assert_eq!(call.headers, get_kiro_headers("abc"));
    assert_eq!(call.bearer, Some("access".to_string()));
    assert_eq!(
        call.query,
        vec![
            ("origin".to_string(), "AI_EDITOR".to_string()),
            ("profileArn".to_string(), "arn:x".to_string())
        ]
    );
    assert!(call.body.is_none());
    assert_eq!(call.timeout_secs, None);
}

#[test]
fn the_models_of_kiro() {
    let data = ModelsResponse {
        models: vec![
            KiroModel { model_id: "b".to_string() },
            KiroModel { model_id: "a".to_string() },
        ],
    };
    assert_eq!(kiro_models(data), vec!["b".to_string(), "a".to_string()]);
}
