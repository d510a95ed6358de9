use std::time::Duration;

use http::StatusCode;
use serde_json::Value;
use switchyard::client_router::{Client, ClientRouter, StateOwner};
use switchyard::protocol::{
    AggLlmResponse, LibsyError, LlmCallObservation, LlmClientError, LlmRequest, LlmResponse,
    LlmResponseChunk, LlmResponseStreamEvent, ModelId, Preserved, Request, Response, RoutingFallbackReason,
    RoutingOutcome, RunObservation, Usage, WireFormat,
};
use switchyard::run::{
    answer_observation, answered_model, buffer_routing_stream, call_first_available,
    closing_observation, conclude_call, continue_on, decide_routed, decide_start,
    emit_routing_observations, fallback_reason, needs_buffering, run_replied, run_routed, run_start,
    serve, CandidateCall, CandidateStep, DecideStep, RoutingBuffer, RunStep,
};
use switchyard::status::{BAD_GATEWAY, FORBIDDEN, REQUEST_TIMEOUT, TOO_MANY_REQUESTS};

const OVERHEAD: Duration = Duration::from_millis(7);

type Stream = Vec<Result<LlmResponseStreamEvent, LlmClientError>>;
type Router = ClientRouter<&'static str>;
type Outcome = Result<RoutingOutcome<Stream>, LibsyError>;

fn model(name: &str) -> ModelId {
    ModelId::new(name.to_string())
}

fn models(names: &[&str]) -> Vec<ModelId> {
    names.iter().map(|name| model(name)).collect()
}

fn names(models: &[ModelId]) -> Vec<&str> {
    models.iter().map(ModelId::as_str).collect()
}

fn json(text: &str) -> Value {
    serde_json::from_str(text).unwrap()
}

fn request() -> Request {
    Request {
        llm_request: LlmRequest {
            model: Some("auto".to_string()),
            instructions: Vec::new(),
            messages: vec![json("\"hello\"")],
            stream: false,
            extensions: serde_json::Map::new(),
        },
        raw_request: None,
        metadata: None,
    }
}

fn asking(field: &str, value: Value) -> Request {
    let mut request = request();
    request.llm_request.extensions.insert(field.to_string(), value);
    request
}

fn event(chunk: LlmResponseChunk) -> LlmResponseStreamEvent {
    LlmResponseStreamEvent { normalized: vec![chunk], preservation: None }
}

fn delta(text: &str) -> LlmResponseStreamEvent {
    event(LlmResponseChunk::TextDelta { index: 0, text: text.to_string() })
}

fn answer(name: &str) -> Response<Stream> {
    Response {
        llm_response: LlmResponse::Agg(AggLlmResponse {
            model: Some(name.to_string()),
            text: name.to_string(),
            usage: Usage { input_tokens: Some(3), output_tokens: Some(5) },
            preservation: Vec::new(),
        }),
        served_model: None,
        upstream_headers: http::HeaderMap::new(),
    }
}

fn stream(items: Stream) -> Response<Stream> {
    Response {
        llm_response: LlmResponse::Stream(items),
        served_model: None,
        upstream_headers: http::HeaderMap::new(),
    }
}

#[derive(Clone, Copy)]
enum FirstOutcome {
    ContextWindow,
    Unauthorized,
    StreamSuccess,
    MidStreamError,
}

struct CandidateClient {
    calls: Vec<ModelId>,
    requests: Vec<Request>,
    first: FirstOutcome,
}

impl CandidateClient {
    fn new(first: FirstOutcome) -> Self {
        CandidateClient { calls: Vec::new(), requests: Vec::new(), first }
    }

    fn call(&mut self, request: Request) -> Result<Response<Stream>, LlmClientError> {
        let name = request.llm_request.model.clone().unwrap();
        self.calls.push(model(&name));
        self.requests.push(request);
        if name == "weak" {
            return match self.first {
                FirstOutcome::ContextWindow => Err(LlmClientError::ContextWindowExceeded {
                    model: model(&name),
                    message: "too long".to_string(),
                }),
                FirstOutcome::Unauthorized => Err(LlmClientError::UpstreamHttp {
                    status: StatusCode::UNAUTHORIZED.as_u16(),
                    body: "unauthorized".to_string(),
                }),
                FirstOutcome::StreamSuccess => Ok(stream(vec![
                    Ok(delta("streamed")),
                    Ok(event(LlmResponseChunk::MessageStop { reason: Some("stop".to_string()) })),
                ])),
                FirstOutcome::MidStreamError => Ok(stream(vec![
                    Ok(delta("partial")),
                    Ok(event(LlmResponseChunk::StreamError { message: "stream failed".to_string() })),
                ])),
            };
        }
        Ok(answer(&name))
    }
}

fn call_one(
    clients: &Router,
    client: &mut CandidateClient,
    call: CandidateCall,
) -> (Result<Response<Stream>, LibsyError>, LlmCallObservation) {
    let mut reply = match clients.route(&call.target) {
        Ok(_) => client.call(call.request),
        Err(error) => Err(error),
    };
    if let Ok(response) = reply {
        let buffer = needs_buffering(&response, call.buffer);
        reply = match response {
            Response { llm_response: LlmResponse::Stream(items), served_model, upstream_headers } if buffer => {
                buffer_routing_stream(items).map(|events| Response {
                    llm_response: LlmResponse::Stream(events.into_iter().map(Ok).collect()),
                    served_model,
                    upstream_headers,
                })
            }
            response => Ok(response),
        };
    }
    conclude_call(&call.target, reply, Duration::ZERO)
}

/// Routes to the first of the names, with the others as fallbacks.
fn candidates(names: &[&str], request: Request) -> Outcome {
    let mut models = models(names);
    if models.is_empty() {
        return Err(LibsyError::NoTargets);
    }
    let selected = models.remove(0);
    Ok(RoutingOutcome::route_to(selected, models, request))
}

/// Lets a routing call of one model answer.
fn answered(
    name: &str,
    clients: &Router,
    client: &mut CandidateClient,
    request: Request,
    routing: &mut Vec<LlmCallObservation>,
) -> Outcome {
    let call = serve(clients, &models(&[name]), request.clone())?;
    let (reply, observation) = call_one(clients, client, call);
    routing.push(observation);
    Ok(RoutingOutcome::answered(model(name), request, reply?))
}

fn finish(
    clients: &mut Router,
    client: &mut CandidateClient,
    mut step: RunStep<Stream>,
    observed: &mut Vec<RunObservation>,
) -> Result<(ModelId, Response<Stream>), LibsyError> {
    loop {
        observed.extend(closing_observation(&step, OVERHEAD));
        match step {
            RunStep::Drive(_) => panic!("routing was already done"),
            RunStep::Call(run, call) => {
                let (reply, observation) = call_one(clients, client, call);
                observed.push(answer_observation(observation));
                step = run_replied(clients, run, reply);
            }
            RunStep::Failed(error) => return Err(error),
            RunStep::Finished(result) => {
                return result.map(|answer| (answer.selected, answer.response));
            }
        }
    }
}

fn run_candidates(
    first: FirstOutcome,
) -> (CandidateClient, Result<(ModelId, Response<Stream>), LibsyError>) {
    let mut client = CandidateClient::new(first);
    let mut clients = ClientRouter::single("only");
    let result = match run_start::<_, Stream>(&mut clients, "candidate_test", request()) {
        RunStep::Drive(request) => {
            let step = run_routed(&mut clients, candidates(&["weak", "strong"], request));
            finish(&mut clients, &mut client, step, &mut Vec::new())
        }
        _ => panic!("the request continues no state"),
    };
    (client, result)
}

fn aggregate(response: Response<Stream>) -> Result<String, String> {
    match response.llm_response {
        LlmResponse::Agg(answer) => Ok(answer.text),
        LlmResponse::Stream(items) => {
            let mut text = String::new();
            for item in items {
                for chunk in item.map_err(|error| format!("{error:?}"))?.normalized {
                    match chunk {
                        LlmResponseChunk::TextDelta { text: more, .. } => text.push_str(&more),
                        LlmResponseChunk::MessageStop { .. } => {}
                        LlmResponseChunk::DecodeError { message } => return Err(message),
                        LlmResponseChunk::StreamError { message } => return Err(message),
                    }
                }
            }
            Ok(text)
        }
    }
}

fn observation(name: &str) -> LlmCallObservation {
    LlmCallObservation {
        selected_model: model(name),
        is_success: true,
        duration: Duration::ZERO,
        usage: None,
    }
}

#[test]
fn answered_outcome_does_not_make_a_second_model_call() -> Result<(), LibsyError> {
    let mut client = CandidateClient::new(FirstOutcome::StreamSuccess);
    let mut clients = ClientRouter::single("only");
    let mut routing = Vec::new();
    let outcome = answered("weak", &clients, &mut client, request(), &mut routing);
    let mut observations = emit_routing_observations(routing, answered_model(&outcome));
    let step = run_routed(&mut clients, outcome);
    let (selected, response) = finish(&mut clients, &mut client, step, &mut observations)?;

    assert_eq!(selected.as_str(), "weak");
    assert_eq!(response.served_model().map(ModelId::as_str), Some("weak"));
    assert_eq!(client.calls, [model("weak")]);
    assert!(matches!(observations[0], RunObservation::AnswerCall(_)));
    assert!(matches!(observations[1], RunObservation::RoutingOverhead(_)));
    assert_eq!(observations.len(), 2);
    Ok(())
}

/// What an observer is told, by kind and model; the overhead by its length.
fn told(observations: &[RunObservation]) -> Vec<String> {
    observations
        .iter()
        .map(|observation| match observation {
            RunObservation::LlmCall(call) => format!("call {}", call.selected_model.as_str()),
            RunObservation::AnswerCall(call) => {
                format!("answer {} {}", call.selected_model.as_str(), call.is_success)
            }
            RunObservation::RoutingOverhead(overhead) => format!("overhead {overhead:?}"),
        })
        .collect()
}

/// Runs over two candidates after one routing call of a judge.
fn observed_run(first: FirstOutcome, candidate_names: &[&str]) -> Vec<String> {
    let mut client = CandidateClient::new(first);
    let mut clients = ClientRouter::single("only");
    let call = serve(&clients, &models(&["judge"]), request()).unwrap();
    let (_, judged) = call_one(&clients, &mut client, call);
    let outcome = candidates(candidate_names, request());
    let mut observations = emit_routing_observations(vec![judged], answered_model(&outcome));
    let step = run_routed(&mut clients, outcome);
    let _ = finish(&mut clients, &mut client, step, &mut observations);
    told(&observations)
}

#[test]
fn observers_see_the_whole_run() {
    assert_eq!(
        observed_run(FirstOutcome::ContextWindow, &["weak", "strong"]),
        ["call judge", "answer weak false", "answer strong true", "overhead 7ms"]
    );
    assert_eq!(
        observed_run(FirstOutcome::StreamSuccess, &["weak", "strong"]),
        ["call judge", "answer weak true", "overhead 7ms"]
    );
    // The overhead comes even where every candidate failed.
    assert_eq!(
        observed_run(FirstOutcome::ContextWindow, &["weak", "weak"]),
        ["call judge", "answer weak false", "answer weak false", "overhead 7ms"]
    );
    // Where routing failed there is none.
    assert_eq!(observed_run(FirstOutcome::ContextWindow, &[]), ["call judge"]);
}

#[test]
fn only_a_routing_response_names_the_answering_model() {
    let mut response = answer("weak");
    response.served_model = Some(model("weak"));
    let given: Outcome = Ok(RoutingOutcome::answered(model("selected"), request(), response));
    assert_eq!(answered_model(&given).map(ModelId::as_str), Some("weak"));
    let unnamed: Outcome = Ok(RoutingOutcome::answered(model("weak"), request(), answer("weak")));
    assert_eq!(answered_model(&unnamed), None);
    assert_eq!(answered_model(&candidates(&["weak"], request())), None);
    assert_eq!(answered_model::<Stream>(&Err(LibsyError::NoTargets)), None);
}

#[test]
fn only_finished_runs_report_their_overhead() {
    let drive: RunStep<Stream> = RunStep::Drive(request());
    assert!(closing_observation(&drive, OVERHEAD).is_none());
    let failed: RunStep<Stream> = RunStep::Failed(LibsyError::NoTargets);
    assert!(closing_observation(&failed, OVERHEAD).is_none());
    let finished: RunStep<Stream> = RunStep::Finished(Err(LibsyError::NoTargets));
    assert!(matches!(
        closing_observation(&finished, OVERHEAD),
        Some(RunObservation::RoutingOverhead(overhead)) if overhead == OVERHEAD
    ));
}

#[test]
fn answer_observation_keeps_call_order() {
    let pending = vec![observation("answer"), observation("judge")];
    let answer = model("answer");
    let emitted = emit_routing_observations(pending, Some(&answer));
    assert!(matches!(
        &emitted[..],
        [RunObservation::AnswerCall(answer), RunObservation::LlmCall(judge)]
            if answer.selected_model.as_str() == "answer" && judge.selected_model.as_str() == "judge"
    ));
}

#[test]
fn only_the_first_call_of_the_answering_model_is_the_answer() {
    let pending = || vec![observation("judge"), observation("answer"), observation("answer")];
    let answer = model("answer");
    let emitted = emit_routing_observations(pending(), Some(&answer));
    assert!(matches!(
        &emitted[..],
        [RunObservation::LlmCall(_), RunObservation::AnswerCall(_), RunObservation::LlmCall(_)]
    ));
    let none = emit_routing_observations(pending(), None);
    assert!(none.iter().all(|observation| matches!(observation, RunObservation::LlmCall(_))));
    assert_eq!(none.len(), 3);
}

#[test]
fn responses_state_tracking_uses_upstream_storage_and_format() -> Result<(), LibsyError> {
    for (responses, store, conversation) in [
        (true, true, None),
        (true, false, None),
        (true, false, Some(json("\"conv_plain\""))),
        (true, false, Some(json("{\"id\": \"conv_object\"}"))),
        (false, true, None),
    ] {
        for streaming in [false, true] {
            let mut clients: Router = ClientRouter::new(vec![
                (model("weak"), Client { identity: 1, handle: "weak" }),
                (model("strong"), Client { identity: 2, handle: "strong" }),
            ]);
            let mut body = serde_json::Map::new();
            body.insert("id".to_string(), json("\"resp_seed\""));
            body.insert("model".to_string(), json("\"weak\""));
            if responses {
                body.insert("store".to_string(), Value::Bool(store));
                body.insert(
                    "conversation".to_string(),
                    conversation.clone().unwrap_or(Value::Null),
                );
            }
            let body = Value::Object(body);
            let source =
                if responses { WireFormat::OpenAiResponses } else { WireFormat::OpenAiChat };
            let served = if streaming {
                let mut raw = serde_json::Map::new();
                raw.insert("type".to_string(), json("\"response.completed\""));
                raw.insert("response".to_string(), body);
                let raw = Value::Object(raw);
                stream(vec![Ok(LlmResponseStreamEvent {
                    normalized: Vec::new(),
                    preservation: Some(Preserved { source, raw }),
                })])
            } else {
                let mut response = answer("weak");
                if let LlmResponse::Agg(agg) = &mut response.llm_response {
                    agg.preservation.push(Preserved { source, raw: body });
                }
                response
            };
            let seed = match &conversation {
                Some(conversation) => asking("conversation", conversation.clone()),
                None => request(),
            };
            let (run, call) = match run_routed(&mut clients, candidates(&["weak"], seed)) {
                RunStep::Call(run, call) => (run, call),
                _ => panic!("the first candidate is called"),
            };
            let (reply, _) = conclude_call(&call.target, Ok(served), Duration::ZERO);
            let answer = match run_replied(&mut clients, run, reply) {
                RunStep::Finished(result) => result?,
                _ => panic!("the first candidate answers"),
            };
            if let (Some(tracker), LlmResponse::Stream(items)) =
                (&answer.tracker, &answer.response.llm_response)
            {
                for item in items.iter().flatten() {
                    clients
                        .remember_event(tracker, item)
                        .map_err(|error| LibsyError::client_call(model("weak"), error))?;
                }
            }
            let mut continuations =
                vec![("previous_response_id", json("\"resp_seed\""), responses && store)];
            if let Some(conversation) = conversation.clone() {
                continuations.push(("conversation", conversation, true));
            }
            for (field, id, pinned) in continuations {
                let decision = match decide_start::<_, Stream>(
                    &mut clients,
                    "passthrough",
                    asking(field, id),
                ) {
                    DecideStep::Drive(request) => {
                        decide_routed(&mut clients, candidates(&["strong"], request))?
                    }
                    DecideStep::Decided(decision) => decision?,
                };
                assert_eq!(
                    decision.outcome.selected_model_id()?.as_str(),
                    if pinned { "weak" } else { "strong" },
                    "responses={responses}, store={store}, stream={streaming}, field={field}"
                );
            }
        }
    }
    Ok(())
}

fn prompted() -> Router {
    ClientRouter::new_with_target_prompts(
        vec![
            (model("weak"), Client { identity: 1, handle: "shared" }),
            (model("strong"), Client { identity: 1, handle: "shared" }),
        ],
        vec![
            (model("weak"), "weak prompt".to_string()),
            (model("strong"), "strong prompt".to_string()),
        ],
        None,
    )
}

#[test]
fn each_fallback_candidate_receives_only_its_own_prompt() -> Result<(), LibsyError> {
    let mut client = CandidateClient::new(FirstOutcome::ContextWindow);
    let mut clients = prompted();
    let step = run_routed(&mut clients, candidates(&["weak", "strong"], request()));
    finish(&mut clients, &mut client, step, &mut Vec::new())?;
    let calls = &client.requests;
    assert_eq!(calls.len(), 2);
    assert_eq!(calls[0].llm_request.instructions, ["weak prompt"]);
    assert_eq!(calls[1].llm_request.instructions, ["strong prompt"]);
    Ok(())
}

#[test]
fn decision_prompts_a_routing_response_target() -> Result<(), LibsyError> {
    let mut client = CandidateClient::new(FirstOutcome::StreamSuccess);
    let mut clients: Router = ClientRouter::new_with_target_prompts(
        vec![(model("answer"), Client { identity: 1, handle: "shared" })],
        vec![(model("answer"), "answer prompt".to_string())],
        Some(model("answer")),
    );
    let outcome = answered("answer", &clients, &mut client, request(), &mut Vec::new());
    let decision = decide_routed(&mut clients, outcome)?;
    assert!(decision.outcome.response.is_some());
    let calls = &client.requests;
    assert_eq!(calls.len(), 1);
    assert_eq!(calls[0].llm_request.instructions, ["answer prompt"]);
    Ok(())
}

#[test]
fn decision_prepares_only_the_selected_request() -> Result<(), LibsyError> {
    let mut clients = prompted();
    let outcome = candidates(&["weak", "strong"], request());
    let decision = decide_routed(&mut clients, outcome)?;
    assert_eq!(decision.outcome.selected_model_ids, [model("weak"), model("strong")]);
    assert_eq!(decision.outcome.request.llm_request.instructions, ["weak prompt"]);
    Ok(())
}

#[test]
fn decisions_are_the_first_calls_of_runs() -> Result<(), LibsyError> {
    let mut clients = prompted();
    let decision = decide_routed(&mut clients, candidates(&["strong", "weak"], request()))?;
    match run_routed(&mut clients, candidates(&["strong", "weak"], request())) {
        RunStep::Call(_, call) => {
            assert_eq!(call.target, decision.outcome.selected_model_ids[0]);
            assert_eq!(call.request.llm_request.model.as_deref(), Some("strong"));
            assert_eq!(
                call.request.llm_request.instructions,
                decision.outcome.request.llm_request.instructions
            );
        }
        _ => panic!("the first candidate is called"),
    }
    Ok(())
}

#[test]
fn fallback_only_accepts_context_and_unavailable_failures() {
    let error = |source| LibsyError::client_call(model("target"), source);
    assert_eq!(
        fallback_reason(&error(LlmClientError::ContextWindowExceeded {
            model: model("target"),
            message: "too long".to_string(),
        })),
        Some(RoutingFallbackReason::ContextWindow)
    );
    for status in [
        StatusCode::FORBIDDEN,
        StatusCode::REQUEST_TIMEOUT,
        StatusCode::TOO_MANY_REQUESTS,
        StatusCode::INTERNAL_SERVER_ERROR,
        StatusCode::from_u16(599).expect("599 is a valid status"),
    ] {
        assert_eq!(
            fallback_reason(&error(LlmClientError::UpstreamHttp {
                status: status.as_u16(),
                body: "failed".to_string(),
            })),
            Some(RoutingFallbackReason::Unavailable)
        );
    }
    for status in [
        StatusCode::BAD_REQUEST,
        StatusCode::UNAUTHORIZED,
        StatusCode::NOT_FOUND,
        StatusCode::CONFLICT,
        StatusCode::from_u16(499).expect("499 is a valid status"),
        StatusCode::from_u16(600).expect("600 is a valid status"),
    ] {
        assert_eq!(
            fallback_reason(&error(LlmClientError::UpstreamHttp {
                status: status.as_u16(),
                body: "failed".to_string(),
            })),
            None
        );
    }
}

#[test]
fn other_failures_stop_fallback() {
    let error = |source| LibsyError::client_call(model("target"), source);
    assert_eq!(
        fallback_reason(&error(LlmClientError::Transport { message: "reset".to_string() })),
        Some(RoutingFallbackReason::Unavailable)
    );
    for source in [
        LlmClientError::Timeout { message: "slow".to_string() },
        LlmClientError::ResponseTranslation("bad".to_string()),
        LlmClientError::Configuration { message: "none".to_string() },
        LlmClientError::ResponseStateConflict,
        LlmClientError::ResponseStateLimitExceeded { limit: 1 },
        LlmClientError::UpstreamHttp { status: 0, body: String::new() },
        LlmClientError::UpstreamHttp { status: 1000, body: String::new() },
    ] {
        assert_eq!(fallback_reason(&error(source)), None);
    }
    assert_eq!(fallback_reason(&LibsyError::NoTargets), None);
    assert_eq!(fallback_reason(&LibsyError::AlgorithmError { message: String::new() }), None);
}

#[test]
fn statuses_have_their_http_numbers() {
    assert_eq!(FORBIDDEN, StatusCode::FORBIDDEN.as_u16());
    assert_eq!(REQUEST_TIMEOUT, StatusCode::REQUEST_TIMEOUT.as_u16());
    assert_eq!(TOO_MANY_REQUESTS, StatusCode::TOO_MANY_REQUESTS.as_u16());
    assert_eq!(BAD_GATEWAY, StatusCode::BAD_GATEWAY.as_u16());
}

#[test]
fn candidate_failures_follow_the_fallback_policy() -> Result<(), LibsyError> {
    // Context overflow is retryable across candidates.
    let (client, result) = run_candidates(FirstOutcome::ContextWindow);
    let (_, response) = result?;
    assert_eq!(client.calls, [model("weak"), model("strong")]);
    assert_eq!(response.served_model().map(ModelId::as_str), Some("strong"));
    match &response.llm_response {
        LlmResponse::Agg(answer) => assert_eq!(answer.model.as_deref(), Some("strong")),
        LlmResponse::Stream(_) => panic!("the second candidate does not stream"),
    }

    // Authentication failure is not retryable, so the second candidate is untouched.
    let (client, result) = run_candidates(FirstOutcome::Unauthorized);
    match result {
        Err(LibsyError::ClientCall { source: LlmClientError::UpstreamHttp { status, .. }, .. }) => {
            assert_eq!(status, StatusCode::UNAUTHORIZED.as_u16());
        }
        other => panic!("unexpected result: {other:?}"),
    }
    assert_eq!(client.calls, [model("weak")]);
    Ok(())
}

#[test]
fn streams_are_outside_the_candidate_fallback_boundary() -> Result<(), LibsyError> {
    // Receiving a stream handle is a successful call and ends candidate selection.
    let (client, result) = run_candidates(FirstOutcome::StreamSuccess);
    let (_, response) = result?;
    assert_eq!(response.served_model().map(ModelId::as_str), Some("weak"));
    assert_eq!(client.calls, [model("weak")]);
    assert_eq!(aggregate(response).as_deref(), Ok("streamed"));

    // A later in-stream failure surfaces during aggregation without trying another model.
    let (client, result) = run_candidates(FirstOutcome::MidStreamError);
    let (_, response) = result?;
    let error = aggregate(response).expect_err("the stream should fail during aggregation");
    assert!(error.contains("stream failed"));
    assert_eq!(client.calls, [model("weak")]);
    Ok(())
}

#[test]
fn the_last_candidate_is_final() {
    let clients: Router = ClientRouter::single("only");
    let models = models(&["weak", "strong"]);
    let overflow = || {
        Err(LibsyError::client_call(
            model("weak"),
            LlmClientError::Transport { message: "reset".to_string() },
        ))
    };
    match call_first_available::<_, Stream>(&clients, &request(), &models, Some((0, overflow()))) {
        CandidateStep::Call(call) => {
            assert_eq!((call.index, call.count, call.buffer), (1, 2, false));
            assert_eq!(call.target.as_str(), "strong");
        }
        CandidateStep::Done(_) => panic!("the second candidate is called"),
    }
    assert!(matches!(
        call_first_available::<_, Stream>(&clients, &request(), &models, Some((1, overflow()))),
        CandidateStep::Done(Err(LibsyError::ClientCall { .. }))
    ));
    assert!(matches!(
        call_first_available::<_, Stream>(&clients, &request(), &[], None),
        CandidateStep::Done(Err(LibsyError::NoTargets))
    ));
}

#[test]
fn routing_serves_the_first_model_and_buffers_it() {
    let clients: Router = ClientRouter::single("only");
    match serve(&clients, &models(&["judge", "other"]), request()) {
        Ok(call) => {
            assert_eq!((call.index, call.count, call.buffer), (0, 2, true));
            assert_eq!(call.target.as_str(), "judge");
            assert_eq!(call.request.llm_request.model.as_deref(), Some("judge"));
        }
        Err(error) => panic!("{error:?}"),
    }
    assert!(matches!(serve(&clients, &[], request()), Err(LibsyError::NoTargets)));
}

#[test]
fn routing_failures_stop_the_request() {
    let mut client = CandidateClient::new(FirstOutcome::MidStreamError);
    let mut clients = ClientRouter::single("only");
    let mut routing = Vec::new();
    let outcome = answered("weak", &clients, &mut client, request(), &mut routing);
    assert!(!routing[0].is_success);
    let mut observed = Vec::new();
    let step = run_routed(&mut clients, outcome);
    match finish(&mut clients, &mut client, step, &mut observed) {
        Err(LibsyError::ClientCall { model, source: LlmClientError::UpstreamHttp { status, body } }) => {
            assert_eq!(model.as_str(), "weak");
            assert_eq!((status, body.as_str()), (502, "stream failed"));
        }
        other => panic!("unexpected result: {other:?}"),
    }
    assert!(observed.is_empty());
    assert_eq!(client.calls.len(), 1);
}

#[test]
fn outcomes_without_models_fail() {
    let empty = || {
        Ok(RoutingOutcome::<Stream> {
            selected_model_ids: Vec::new(),
            request: request(),
            response: None,
            metadata: None,
        })
    };
    let mut clients: Router = ClientRouter::single("only");
    assert!(matches!(run_routed(&mut clients, empty()), RunStep::Failed(LibsyError::NoTargets)));
    assert!(matches!(decide_routed(&mut clients, empty()), Err(LibsyError::NoTargets)));
}

#[test]
fn calls_are_concluded_with_their_model() {
    let (reply, observed) = conclude_call(&model("weak"), Ok(answer("x")), Duration::from_secs(2));
    assert_eq!(reply.unwrap().served_model().map(ModelId::as_str), Some("weak"));
    assert!(observed.is_success);
    assert_eq!(observed.duration, Duration::from_secs(2));
    assert_eq!(observed.usage, Some(Usage { input_tokens: Some(3), output_tokens: Some(5) }));

    let (reply, observed) = conclude_call(&model("weak"), Ok(stream(Vec::new())), Duration::ZERO);
    assert!(reply.is_ok());
    assert_eq!(observed.usage, None);

    let failure = LlmClientError::Timeout { message: "slow".to_string() };
    let (reply, observed) = conclude_call::<Stream>(&model("weak"), Err(failure), Duration::ZERO);
    assert!(matches!(
        reply,
        Err(LibsyError::ClientCall { source: LlmClientError::Timeout { .. }, .. })
    ));
    assert!(!observed.is_success);
    assert_eq!(observed.selected_model.as_str(), "weak");
}

#[test]
fn clean_routing_streams_are_kept() {
    let kept = buffer_routing_stream(vec![Ok(delta("a")), Ok(delta("b"))]).unwrap();
    assert_eq!(aggregate(stream(kept.into_iter().map(Ok).collect())).as_deref(), Ok("ab"));
    assert!(buffer_routing_stream(Vec::new()).unwrap().is_empty());
    let mut buffer = RoutingBuffer::new();
    buffer.accept(Ok(delta("a"))).unwrap();
    assert_eq!(buffer.into_events().len(), 1);
}

#[test]
fn the_first_fault_ends_a_routing_stream() {
    let decode = || Ok(event(LlmResponseChunk::DecodeError { message: "bad event".to_string() }));
    let broken = || Ok(event(LlmResponseChunk::StreamError { message: "broken".to_string() }));
    let lost = || Err(LlmClientError::Transport { message: "lost".to_string() });
    match buffer_routing_stream(vec![Ok(delta("a")), decode(), broken(), lost()]) {
        Err(LlmClientError::ResponseTranslation(message)) => assert_eq!(message, "bad event"),
        other => panic!("unexpected result: {other:?}"),
    }
    match buffer_routing_stream(vec![broken(), decode()]) {
        Err(LlmClientError::UpstreamHttp { status, body }) => {
            assert_eq!((status, body.as_str()), (502, "broken"));
        }
        other => panic!("unexpected result: {other:?}"),
    }
    assert!(matches!(
        buffer_routing_stream(vec![lost(), decode()]),
        Err(LlmClientError::Transport { .. })
    ));
}

#[test]
fn continuations_name_their_source() {
    let owner = StateOwner { model: model("weak"), trigger: "conversation" };
    let outcome: RoutingOutcome<Stream> = continue_on(owner, "alg", request());
    assert_eq!(names(&outcome.selected_model_ids), ["weak"]);
    assert!(outcome.response.is_none());
    let metadata = outcome.metadata.unwrap();
    assert_eq!(metadata.algorithm, "alg");
    assert_eq!(
        metadata.details,
        Some(json("{\"source\": \"stored_state\", \"trigger\": \"conversation\"}"))
    );
}

#[test]
fn continuations_go_to_their_owner_alone() {
    let mut clients: Router = ClientRouter::new_with_target_prompts(
        vec![
            (model("weak"), Client { identity: 1, handle: "weak" }),
            (model("strong"), Client { identity: 2, handle: "strong" }),
        ],
        vec![(model("weak"), "weak prompt".to_string())],
        None,
    );
    clients.remember_response(&json("{\"id\": \"r\"}"), &model("weak"), true, None).unwrap();
    let follow = || asking("previous_response_id", json("\"r\""));
    let mut client = CandidateClient::new(FirstOutcome::ContextWindow);
    let step = run_start(&mut clients, "alg", follow());
    let mut observed = Vec::new();
    let result = finish(&mut clients, &mut client, step, &mut observed);
    assert_eq!(told(&observed), ["answer weak false", "overhead 7ms"]);
    assert!(matches!(
        result,
        Err(LibsyError::ClientCall { source: LlmClientError::ContextWindowExceeded { .. }, .. })
    ));
    assert_eq!(client.calls, [model("weak")]);
    assert_eq!(client.requests[0].llm_request.instructions, ["weak prompt"]);

    match decide_start::<_, Stream>(&mut clients, "alg", follow()) {
        DecideStep::Decided(Ok(decision)) => {
            assert_eq!(names(&decision.outcome.selected_model_ids), ["weak"]);
            assert_eq!(decision.outcome.request.llm_request.instructions, ["weak prompt"]);
            assert!(decision.tracker.is_none());
        }
        _ => panic!("known state is decided at once"),
    }
    assert!(matches!(
        decide_start::<_, Stream>(&mut clients, "alg", asking("previous_response_id", json("\"x\""))),
        DecideStep::Drive(_)
    ));
}
