use serde_json::Value;
use switchyard::client_router::{
    conversation_id, missing_client, Client, ClientRouter, StateTracker,
};
use switchyard::protocol::{
    AggLlmResponse, LibsyError, LlmClientError, LlmRequest, LlmResponse, LlmResponseStreamEvent,
    ModelId, Preserved, Request, Response, Usage, WireFormat,
};

type Router = ClientRouter<&'static str>;

fn model(name: &str) -> ModelId {
    ModelId::new(name.to_string())
}

fn json(text: &str) -> Value {
    serde_json::from_str(text).unwrap()
}

fn fields(text: &str) -> serde_json::Map<String, Value> {
    json(text).as_object().unwrap().clone()
}

fn client(identity: usize, handle: &'static str) -> Client<&'static str> {
    Client { identity, handle }
}

fn two_providers() -> Router {
    ClientRouter::new(vec![
        (model("weak"), client(1, "first")),
        (model("strong"), client(2, "second")),
    ])
}

fn request(extensions: &str) -> Request {
    Request {
        llm_request: LlmRequest {
            model: Some("auto".to_string()),
            instructions: vec!["be brief".to_string()],
            messages: vec![json("\"hello\"")],
            stream: false,
            extensions: fields(extensions),
        },
        raw_request: Some(json("{\"raw\": 1}")),
        metadata: None,
    }
}

fn answer(format: WireFormat, body: &str, served: Option<&str>) -> Response<()> {
    Response {
        llm_response: LlmResponse::Agg(AggLlmResponse {
            model: None,
            text: "ok".to_string(),
            usage: Usage { input_tokens: None, output_tokens: None },
            preservation: vec![
                Preserved { source: WireFormat::AnthropicMessages, raw: json("{\"id\": \"other\"}") },
                Preserved { source: format, raw: json(body) },
            ],
        }),
        served_model: served.map(model),
        upstream_headers: http::HeaderMap::new(),
    }
}

fn streamed(served: Option<&str>) -> Response<()> {
    Response {
        llm_response: LlmResponse::Stream(()),
        served_model: served.map(model),
        upstream_headers: http::HeaderMap::new(),
    }
}

fn owner(router: &Router, extensions: &str) -> Option<(String, &'static str)> {
    router
        .stored_state_owner(&request(extensions))
        .map(|owner| (owner.model.to_name(), owner.trigger))
}

#[test]
fn models_are_served_by_their_own_clients() {
    let router = two_providers();
    assert_eq!(router.route(&model("weak")).unwrap(), &"first");
    assert_eq!(router.route(&model("strong")).unwrap(), &"second");
}

#[test]
fn later_entries_replace_earlier_ones() {
    let router = ClientRouter::new(vec![
        (model("weak"), client(1, "first")),
        (model("weak"), client(2, "second")),
    ]);
    assert_eq!(router.route(&model("weak")).unwrap(), &"second");
}

#[test]
fn unknown_models_are_a_configuration_error() {
    match two_providers().route(&model("a\"b")) {
        Err(LlmClientError::Configuration { message }) => {
            assert_eq!(message, "no llm client is configured for model ModelId(\"a\\\"b\")");
            assert_eq!(message, format!("no llm client is configured for model {:?}", model("a\"b")));
        }
        other => panic!("unexpected client: {other:?}"),
    }
    match missing_client("\"x\"") {
        LlmClientError::Configuration { message } => {
            assert_eq!(message, "no llm client is configured for model ModelId(\"x\")");
        }
        other => panic!("unexpected error: {other:?}"),
    }
}

#[test]
fn a_single_client_serves_every_model() {
    let router = ClientRouter::single("only");
    assert_eq!(router.route(&model("anything")).unwrap(), &"only");
    assert!(router.stored_state_owner(&request("{\"previous_response_id\": \"r\"}")).is_none());
}

#[test]
fn conversations_are_strings_or_objects() {
    assert_eq!(conversation_id(&fields("{\"conversation\": \"c\"}")), Some("c"));
    assert_eq!(conversation_id(&fields("{\"conversation\": {\"id\": \"c\"}}")), Some("c"));
    assert_eq!(conversation_id(&fields("{\"conversation\": {\"id\": 1}}")), None);
    assert_eq!(conversation_id(&fields("{\"conversation\": null}")), None);
    assert_eq!(conversation_id(&fields("{\"conversation\": [\"id\"]}")), None);
    assert_eq!(conversation_id(&fields("{}")), None);
}

#[test]
fn completions_get_their_own_prompt() {
    let router = ClientRouter::new_with_target_prompts(
        vec![(model("weak"), client(1, "first"))],
        vec![(model("weak"), "weak prompt".to_string())],
        None,
    );
    let prepared = router.prepare_completion_request(request("{\"store\": true}"), &model("weak"));
    assert_eq!(prepared.llm_request.model.as_deref(), Some("weak"));
    assert_eq!(prepared.llm_request.instructions, ["be brief", "weak prompt"]);
    assert_eq!(prepared.llm_request.messages, [json("\"hello\"")]);
    assert_eq!(prepared.llm_request.extensions, fields("{\"store\": true}"));
    assert_eq!(prepared.raw_request, Some(json("{\"raw\": 1}")));
    let other = router.prepare_completion_request(request("{}"), &model("strong"));
    assert_eq!(other.llm_request.model.as_deref(), Some("strong"));
    assert_eq!(other.llm_request.instructions, ["be brief"]);
}

#[test]
fn routing_calls_get_a_prompt_only_for_the_answer_target() {
    let prompts = || {
        vec![
            (model("weak"), "weak prompt".to_string()),
            (model("answer"), "answer prompt".to_string()),
        ]
    };
    let router = ClientRouter::new_with_target_prompts(
        vec![(model("weak"), client(1, "first"))],
        prompts(),
        Some(model("answer")),
    );
    let answer = router.prepare_routing_request(request("{}"), &model("answer"));
    assert_eq!(answer.llm_request.instructions, ["be brief", "answer prompt"]);
    let weak = router.prepare_routing_request(request("{}"), &model("weak"));
    assert_eq!(weak.llm_request.instructions, ["be brief"]);
    assert_eq!(weak.llm_request.model.as_deref(), Some("weak"));
    let without = ClientRouter::new_with_target_prompts(
        vec![(model("weak"), client(1, "first"))],
        prompts(),
        None,
    );
    let answer = without.prepare_routing_request(request("{}"), &model("answer"));
    assert_eq!(answer.llm_request.instructions, ["be brief"]);
}

#[test]
fn only_completion_targets_decide_tracking() {
    let entries = || {
        vec![
            (model("weak"), client(1, "first")),
            (model("strong"), client(1, "first")),
            (model("judge"), client(2, "second")),
        ]
    };
    let body = json("{\"id\": \"r\"}");
    let follow = "{\"previous_response_id\": \"r\"}";

    let targets = [model("weak"), model("strong"), model("unknown")];
    let mut shared =
        ClientRouter::new_with_completion_targets(entries(), Vec::new(), None, &targets);
    shared.remember_response(&body, &model("weak"), true, None).unwrap();
    assert_eq!(owner(&shared, follow), None);
    assert_eq!(shared.route(&model("judge")).unwrap(), &"second");

    let targets = [model("weak"), model("judge")];
    let mut split = ClientRouter::new_with_completion_targets(entries(), Vec::new(), None, &targets);
    split.remember_response(&body, &model("weak"), true, None).unwrap();
    assert_eq!(owner(&split, follow), Some(("weak".to_string(), "previous_response_id")));
}

#[test]
fn previous_responses_take_precedence_over_conversations() {
    let mut router = two_providers();
    router.remember_response(&json("{\"id\": \"r\"}"), &model("weak"), true, None).unwrap();
    router
        .remember_response(&json("{\"conversation\": {\"id\": \"c\"}}"), &model("strong"), true, None)
        .unwrap();
    assert_eq!(
        owner(&router, "{\"previous_response_id\": \"r\", \"conversation\": \"c\"}"),
        Some(("weak".to_string(), "previous_response_id"))
    );
    assert_eq!(
        owner(&router, "{\"previous_response_id\": null, \"conversation\": \"c\"}"),
        Some(("strong".to_string(), "conversation"))
    );
    // An unknown previous response does not fall back to the conversation.
    assert_eq!(owner(&router, "{\"previous_response_id\": \"x\", \"conversation\": \"c\"}"), None);
    assert_eq!(owner(&router, "{}"), None);
}

#[test]
fn responses_override_the_requested_storage_and_conversation() {
    let mut router = two_providers();
    let unstored = json("{\"id\": \"r1\", \"store\": false, \"conversation\": \"own\"}");
    router.remember_response(&unstored, &model("weak"), true, Some("asked")).unwrap();
    assert_eq!(owner(&router, "{\"previous_response_id\": \"r1\"}"), None);
    assert_eq!(
        owner(&router, "{\"conversation\": \"own\"}"),
        Some(("weak".to_string(), "conversation"))
    );
    assert_eq!(owner(&router, "{\"conversation\": \"asked\"}"), None);

    let stored = json("{\"id\": \"r2\", \"store\": true}");
    router.remember_response(&stored, &model("strong"), false, Some("asked")).unwrap();
    assert!(owner(&router, "{\"previous_response_id\": \"r2\"}").is_some());
    assert_eq!(
        owner(&router, "{\"conversation\": \"asked\"}"),
        Some(("strong".to_string(), "conversation"))
    );

    router.remember_response(&json("{\"id\": \"r3\"}"), &model("weak"), false, None).unwrap();
    assert_eq!(owner(&router, "{\"previous_response_id\": \"r3\"}"), None);
    router.remember_response(&json("[]"), &model("weak"), true, Some("list")).unwrap();
    assert!(owner(&router, "{\"conversation\": \"list\"}").is_some());
}

#[test]
fn foreign_state_is_a_conflict_and_changes_nothing() {
    let mut router = two_providers();
    router.remember_response(&json("{\"id\": \"r\"}"), &model("weak"), true, None).unwrap();
    assert!(matches!(
        router.remember_response(&json("{\"id\": \"r\"}"), &model("strong"), true, Some("c")),
        Err(LlmClientError::ResponseStateConflict)
    ));
    assert_eq!(owner(&router, "{\"conversation\": \"c\"}"), None);
    assert_eq!(
        owner(&router, "{\"previous_response_id\": \"r\"}"),
        Some(("weak".to_string(), "previous_response_id"))
    );
}

#[test]
fn complete_answers_are_recorded_for_their_model() {
    let mut router = two_providers();
    let body = "{\"id\": \"r\"}";
    let (kept, tracker) = router
        .remember_state_owner(
            &request("{\"conversation\": \"c\"}"),
            answer(WireFormat::OpenAiResponses, body, Some("weak")),
        )
        .unwrap();
    assert!(tracker.is_none());
    assert_eq!(kept.served_model().map(ModelId::as_str), Some("weak"));
    assert!(owner(&router, "{\"previous_response_id\": \"r\"}").is_some());
    assert!(owner(&router, "{\"conversation\": \"c\"}").is_some());

    match router.remember_state_owner(
        &request("{}"),
        answer(WireFormat::OpenAiResponses, body, Some("strong")),
    ) {
        Err(LibsyError::ClientCall { model, source: LlmClientError::ResponseStateConflict }) => {
            assert_eq!(model.as_str(), "strong");
        }
        other => panic!("unexpected result: {other:?}"),
    }
}

#[test]
fn answers_without_responses_state_are_left_alone() {
    let mut router = two_providers();
    let chat = answer(WireFormat::OpenAiChat, "{\"id\": \"chat\"}", Some("weak"));
    router.remember_state_owner(&request("{}"), chat).unwrap();
    let unknown = answer(WireFormat::OpenAiResponses, "{\"id\": \"unknown\"}", None);
    router.remember_state_owner(&request("{}"), unknown).unwrap();
    let unstored = answer(WireFormat::OpenAiResponses, "{\"id\": \"unstored\"}", Some("weak"));
    router.remember_state_owner(&request("{\"store\": false}"), unstored).unwrap();
    for id in ["chat", "unknown", "unstored", "other"] {
        assert_eq!(owner(&router, &format!("{{\"previous_response_id\": \"{id}\"}}")), None);
    }
    let mut single = ClientRouter::single("only");
    let body = answer(WireFormat::OpenAiResponses, "{\"id\": \"r\"}", Some("weak"));
    let (_, tracker) = single.remember_state_owner(&request("{}"), body).unwrap();
    assert!(tracker.is_none());
    let (_, tracker) = single.remember_state_owner(&request("{}"), streamed(Some("weak"))).unwrap();
    assert!(tracker.is_none());
}

#[test]
fn streams_are_tracked_by_their_events() {
    let mut router = two_providers();
    let asked = request("{\"store\": false, \"conversation\": {\"id\": \"c\"}}");
    let (_, tracker) = router.remember_state_owner(&asked, streamed(Some("weak"))).unwrap();
    let tracker = tracker.unwrap();
    assert_eq!(tracker.model.as_str(), "weak");
    assert!(!tracker.store);
    assert_eq!(tracker.conversation.as_deref(), Some("c"));
    let (_, none) = router.remember_state_owner(&asked, streamed(None)).unwrap();
    assert!(none.is_none());

    let event = |source: WireFormat, raw: &str| LlmResponseStreamEvent {
        normalized: Vec::new(),
        preservation: Some(Preserved { source, raw: json(raw) }),
    };
    for ignored in [
        event(WireFormat::OpenAiChat, "{\"response\": {\"id\": \"r\", \"store\": true}}"),
        event(WireFormat::OpenAiResponses, "{\"id\": \"r\", \"store\": true}"),
        event(WireFormat::OpenAiResponses, "\"response\""),
        LlmResponseStreamEvent { normalized: Vec::new(), preservation: None },
    ] {
        router.remember_event(&tracker, &ignored).unwrap();
    }
    assert_eq!(owner(&router, "{\"conversation\": \"c\"}"), None);

    let unstored = event(WireFormat::OpenAiResponses, "{\"response\": {\"id\": \"r1\"}}");
    router.remember_event(&tracker, &unstored).unwrap();
    assert_eq!(owner(&router, "{\"previous_response_id\": \"r1\"}"), None);
    assert!(owner(&router, "{\"conversation\": \"c\"}").is_some());

    let stored = event(WireFormat::OpenAiResponses, "{\"response\": {\"id\": \"r2\", \"store\": true}}");
    router.remember_event(&tracker, &stored).unwrap();
    assert!(owner(&router, "{\"previous_response_id\": \"r2\"}").is_some());

    let other = StateTracker { model: model("strong"), store: true, conversation: None };
    assert!(matches!(
        router.remember_event(&other, &stored),
        Err(LlmClientError::ResponseStateConflict)
    ));
}
