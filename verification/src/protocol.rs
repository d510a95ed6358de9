//! The requests, responses and errors that routing works on.

use std::time::Duration;

use serde_json::Value;
use vstd::prelude::*;

use crate::json::{json_fields, json_view, JsonView};
use crate::text::copy_text;

verus! {

/// The name of a model that can be called.
#[derive(Debug, Eq)]
pub struct ModelId(String);

impl View for ModelId {
    type V = Seq<char>;

    closed spec fn view(&self) -> Seq<char> {
        self.0@
    }
}

impl ModelId {
    /// The model with this name.
    pub fn new(name: String) -> (model: Self)
        ensures
            model@ == name@,
    {
        ModelId(name)
    }

    /// The model's name.
    pub fn as_str(&self) -> (name: &str)
        ensures
            name@ == self@,
    {
        self.0.as_str()
    }

    /// The model's name, owned.
    pub fn to_name(&self) -> (name: String)
        ensures
            name@ == self@,
    {
        self.0.clone()
    }
}

impl Clone for ModelId {
    fn clone(&self) -> (copy: Self)
        ensures
            copy == *self,
    {
        ModelId(self.0.clone())
    }
}

impl vstd::std_specs::cmp::PartialEqSpecImpl for ModelId {
    open spec fn obeys_eq_spec() -> bool {
        true
    }

    open spec fn eq_spec(&self, other: &Self) -> bool {
        self@ == other@
    }
}

impl PartialEq for ModelId {
    fn eq(&self, other: &Self) -> (same: bool) {
        self.0 == other.0
    }
}

/// A failed call of a model.
#[derive(Debug)]
pub enum LlmClientError {
    /// The request does not fit the model's context window.
    ContextWindowExceeded { model: ModelId, message: String },
    /// The provider could not be reached.
    Transport { message: String },
    /// The provider did not answer in time.
    Timeout { message: String },
    /// The provider answered with an HTTP error.
    UpstreamHttp { status: u16, body: String },
    /// The provider's answer could not be decoded.
    ResponseTranslation(String),
    /// No client is configured as the call needs it.
    Configuration { message: String },
    /// The response reports state that another model already holds.
    ResponseStateConflict,
    /// No more response state can be recorded.
    ResponseStateLimitExceeded { limit: usize },
}

/// A failed routing.
#[derive(Debug)]
pub enum LibsyError {
    /// An algorithm cannot be built or run as asked.
    AlgorithmError { message: String },
    /// There is no model to route to.
    NoTargets,
    /// The call of a model failed.
    ClientCall { model: ModelId, source: LlmClientError },
}

impl LibsyError {
    /// The failure of a call of `model`.
    pub fn client_call(model: ModelId, source: LlmClientError) -> (error: Self)
        ensures
            error == (LibsyError::ClientCall { model, source }),
    {
        LibsyError::ClientCall { model, source }
    }
}

/// What a harness says of the agent that sent a request.
#[derive(Debug, Default)]
pub struct Metadata {
    pub session_id: Option<String>,
    pub agent_id: Option<String>,
    pub is_subagent: bool,
    pub is_delegated_work: bool,
}

/// The contents of a [`Metadata`].
pub struct MetadataView {
    pub session_id: Option<Seq<char>>,
    pub agent_id: Option<Seq<char>>,
    pub is_subagent: bool,
    pub is_delegated_work: bool,
}

impl MetadataView {
    /// Whether a sub-agent sent the request to do work that was delegated to it.
    pub open spec fn subagent_work(self) -> bool {
        self.is_subagent && self.is_delegated_work
    }
}

impl View for Metadata {
    type V = MetadataView;

    open spec fn view(&self) -> MetadataView {
        MetadataView {
            session_id: self.session_id.deep_view(),
            agent_id: self.agent_id.deep_view(),
            is_subagent: self.is_subagent,
            is_delegated_work: self.is_delegated_work,
        }
    }
}

impl Clone for Metadata {
    fn clone(&self) -> (copy: Self)
        ensures
            copy == *self,
    {
        Metadata {
            session_id: copy_text(&self.session_id),
            agent_id: copy_text(&self.agent_id),
            is_subagent: self.is_subagent,
            is_delegated_work: self.is_delegated_work,
        }
    }
}

impl Metadata {
    /// Whether a sub-agent sent the request to do work that was delegated to it.
    pub fn is_subagent_work(&self) -> (is: bool)
        ensures
            is == self@.subagent_work(),
    {
        self.is_subagent && self.is_delegated_work
    }
}

/// What a model is asked.
#[derive(Debug)]
pub struct LlmRequest {
    /// The model to call, as the caller or a router named it.
    pub model: Option<String>,
    /// Instruction texts, in order.
    pub instructions: Vec<String>,
    /// The conversation, in order, in the caller's own JSON.
    pub messages: Vec<Value>,
    /// Whether the answer is to be streamed.
    pub stream: bool,
    /// Fields of the caller's API that have no place above.
    pub extensions: serde_json::Map<String, Value>,
}

/// The contents of an [`LlmRequest`].
pub struct LlmRequestView {
    pub model: Option<Seq<char>>,
    pub instructions: Seq<Seq<char>>,
    pub messages: Seq<JsonView>,
    pub stream: bool,
    pub extensions: Map<Seq<char>, JsonView>,
}

impl View for LlmRequest {
    type V = LlmRequestView;

    open spec fn view(&self) -> LlmRequestView {
        LlmRequestView {
            model: self.model.deep_view(),
            instructions: self.instructions@.map_values(|text: String| text@),
            messages: self.messages@.map_values(|message: Value| json_view(message)),
            stream: self.stream,
            extensions: json_fields(self.extensions),
        }
    }
}

/// One request to route.
#[derive(Debug)]
pub struct Request {
    pub llm_request: LlmRequest,
    /// The body as it was received.
    pub raw_request: Option<Value>,
    pub metadata: Option<Metadata>,
}

/// The contents of a [`Request`].
pub struct RequestView {
    pub llm_request: LlmRequestView,
    pub raw_request: Option<JsonView>,
    pub metadata: Option<MetadataView>,
}

impl View for Request {
    type V = RequestView;

    open spec fn view(&self) -> RequestView {
        RequestView {
            llm_request: self.llm_request@,
            raw_request: match self.raw_request {
                Some(raw) => Some(json_view(raw)),
                None => None,
            },
            metadata: match self.metadata {
                Some(metadata) => Some(metadata@),
                None => None,
            },
        }
    }
}

/// Copies texts.
fn copy_texts(texts: &Vec<String>) -> (copies: Vec<String>)
    ensures
        copies@ == texts@,
{
    let mut copies: Vec<String> = Vec::new();
    for index in 0..texts.len()
        invariant
            copies@ == texts@.take(index as int),
    {
        copies.push(texts[index].clone());
    }
    copies
}

/// Copies JSON values.
fn copy_values(values: &Vec<Value>) -> (copies: Vec<Value>)
    ensures
        copies@.map_values(|value: Value| json_view(value)) == values@.map_values(
            |value: Value| json_view(value),
        ),
{
    let mut copies: Vec<Value> = Vec::new();
    for index in 0..values.len()
        invariant
            copies@.len() == index,
            forall|i: int| 0 <= i < index ==> json_view(#[trigger] copies@[i]) == json_view(values@[i]),
    {
        copies.push(values[index].clone());
    }
    copies
}

impl Clone for LlmRequest {
    fn clone(&self) -> (copy: Self)
        ensures
            copy@ == self@,
    {
        LlmRequest {
            model: copy_text(&self.model),
            instructions: copy_texts(&self.instructions),
            messages: copy_values(&self.messages),
            stream: self.stream,
            extensions: self.extensions.clone(),
        }
    }
}

impl Clone for Request {
    fn clone(&self) -> (copy: Self)
        ensures
            copy@ == self@,
    {
        Request {
            llm_request: self.llm_request.clone(),
            raw_request: match &self.raw_request {
                Some(raw) => Some(raw.clone()),
                None => None,
            },
            metadata: match &self.metadata {
                Some(metadata) => Some(metadata.clone()),
                None => None,
            },
        }
    }
}

impl LlmRequestView {
    /// The request as it is sent to `target`: addressed to it, and with its prompt, if any, as
    /// the last instruction.
    pub open spec fn prepared(self, target: Seq<char>, prompt: Option<Seq<char>>) -> LlmRequestView {
        LlmRequestView {
            model: Some(target),
            instructions: match prompt {
                Some(text) => self.instructions.push(text),
                None => self.instructions,
            },
            ..self
        }
    }
}

impl RequestView {
    /// The request as it is sent to `target`.
    pub open spec fn prepared(self, target: Seq<char>, prompt: Option<Seq<char>>) -> RequestView {
        RequestView { llm_request: self.llm_request.prepared(target, prompt), ..self }
    }

    /// Whether the request is work that was delegated to a sub-agent.
    pub open spec fn subagent_work(self) -> bool {
        self.metadata matches Some(metadata) && metadata.subagent_work()
    }
}

/// Addresses a request to `target` and adds the target's prompt.
pub fn prepare_request_for_target(request: &mut LlmRequest, target: &ModelId, prompt: Option<&str>)
    ensures
        final(request)@ == old(request)@.prepared(target@, prompt.deep_view()),
{
    request.model = Some(target.to_name());
    if let Some(text) = prompt {
        request.instructions.push(text.to_owned());
    }
    proof {
        assert(request@.instructions == old(request)@.prepared(
            target@,
            prompt.deep_view(),
        ).instructions);
    }
}

/// The API that a provider was called with.
#[derive(Clone, Copy, Debug, PartialEq, Eq, Structural)]
pub enum WireFormat {
    OpenAiChat,
    OpenAiResponses,
    AnthropicMessages,
}

/// A provider's own JSON, kept beside its decoded form.
#[derive(Debug)]
pub struct Preserved {
    /// The API that the JSON belongs to.
    pub source: WireFormat,
    pub raw: Value,
}

/// The tokens that a call used.
#[derive(Clone, Copy, Debug, PartialEq, Eq, Structural)]
pub struct Usage {
    pub input_tokens: Option<u64>,
    pub output_tokens: Option<u64>,
}

/// A complete answer.
#[derive(Debug)]
pub struct AggLlmResponse {
    pub model: Option<String>,
    pub text: String,
    pub usage: Usage,
    /// The answer in the APIs that it passed through, at most once for each.
    pub preservation: Vec<Preserved>,
}

/// The first JSON kept for `format`.
pub open spec fn preserved_of(kept: Seq<Preserved>, format: WireFormat) -> Option<Value>
    decreases kept.len(),
{
    if kept.len() == 0 {
        None
    } else if kept[0].source == format {
        Some(kept[0].raw)
    } else {
        preserved_of(kept.drop_first(), format)
    }
}

impl AggLlmResponse {
    /// The JSON kept for `format`.
    pub fn preserved(&self, format: WireFormat) -> (raw: Option<&Value>)
        ensures
            raw is Some <==> preserved_of(self.preservation@, format) is Some,
            raw matches Some(held) ==> Some(*held) == preserved_of(self.preservation@, format),
    {
        let kept = &self.preservation;
        proof {
            assert(kept@.skip(0) == kept@);
        }
        for index in 0..kept.len()
            invariant
                kept@ == self.preservation@,
                preserved_of(kept@, format) == preserved_of(kept@.skip(index as int), format),
        {
            proof {
                assert(kept@.skip(index as int).drop_first() == kept@.skip(index as int + 1));
            }
            if kept[index].source == format {
                return Some(&kept[index].raw);
            }
        }
        None
    }
}

/// A piece of a streamed answer.
#[derive(Debug)]
pub enum LlmResponseChunk {
    TextDelta { index: u32, text: String },
    MessageStop { reason: Option<String> },
    /// The provider's event could not be decoded.
    DecodeError { message: String },
    /// The provider broke the stream off.
    StreamError { message: String },
}

/// One event of a streamed answer: its pieces, and the provider's own form of it.
#[derive(Debug)]
pub struct LlmResponseStreamEvent {
    pub normalized: Vec<LlmResponseChunk>,
    pub preservation: Option<Preserved>,
}

/// An answer, complete or streamed by `S`.
#[derive(Debug)]
pub enum LlmResponse<S> {
    Agg(AggLlmResponse),
    Stream(S),
}

/// Declares `http::HeaderMap`, which is carried through.
#[verifier::external_type_specification]
#[verifier::external_body]
#[verifier::reject_recursive_types(T)]
pub struct ExHeaderMap<T>(http::HeaderMap<T>);

/// Declares `http::HeaderValue`, the value type of the headers that are carried through.
#[verifier::external_type_specification]
#[verifier::external_body]
pub struct ExHeaderValue(http::HeaderValue);

/// The answer to a request.
#[derive(Debug)]
pub struct Response<S> {
    pub llm_response: LlmResponse<S>,
    /// The model that gave the answer.
    pub served_model: Option<ModelId>,
    pub upstream_headers: http::HeaderMap<http::HeaderValue>,
}

impl<S> Response<S> {
    /// The model that gave the answer.
    pub fn served_model(&self) -> (model: Option<&ModelId>)
        ensures
            model == (match self.served_model {
                Some(held) => Some(&held),
                None => None,
            }),
    {
        self.served_model.as_ref()
    }

    /// The tokens that a complete answer used; `None` for a stream.
    pub fn usage(&self) -> (usage: Option<Usage>)
        ensures
            usage == self.usage_of(),
    {
        match &self.llm_response {
            LlmResponse::Agg(answer) => Some(answer.usage),
            LlmResponse::Stream(_) => None,
        }
    }

    /// The tokens that a complete answer used; `None` for a stream.
    pub open spec fn usage_of(self) -> Option<Usage> {
        match self.llm_response {
            LlmResponse::Agg(answer) => Some(answer.usage),
            LlmResponse::Stream(_) => None,
        }
    }
}

/// Why and by what an outcome was chosen.
#[derive(Debug)]
pub struct OutcomeMetadata {
    pub algorithm: String,
    pub details: Option<Value>,
}

/// Where a request goes: to the first model, then to the others in order, unless routing
/// already answered it.
#[derive(Debug)]
pub struct RoutingOutcome<S> {
    pub selected_model_ids: Vec<ModelId>,
    pub request: Request,
    pub response: Option<Response<S>>,
    pub metadata: Option<OutcomeMetadata>,
}

/// The names of models, in order.
pub open spec fn names(models: Seq<ModelId>) -> Seq<Seq<char>> {
    models.map_values(|model: ModelId| model@)
}

impl<S> RoutingOutcome<S> {
    /// Routes `request` to `selected`, and to `fallbacks` in order where that fails.
    pub fn route_to(selected: ModelId, fallbacks: Vec<ModelId>, request: Request) -> (outcome: Self)
        ensures
            outcome.selected_model_ids@ == seq![selected] + fallbacks@,
            outcome.request == request,
            outcome.response is None,
            outcome.metadata is None,
    {
        let mut selected_model_ids = fallbacks;
        selected_model_ids.insert(0, selected);
        RoutingOutcome { selected_model_ids, request, response: None, metadata: None }
    }

    /// The outcome of routing that `selected` already answered.
    pub fn answered(selected: ModelId, request: Request, response: Response<S>) -> (outcome: Self)
        ensures
            outcome.selected_model_ids@ == seq![selected],
            outcome.request == request,
            outcome.response == Some(response),
            outcome.metadata is None,
    {
        let mut selected_model_ids: Vec<ModelId> = Vec::new();
        selected_model_ids.push(selected);
        RoutingOutcome { selected_model_ids, request, response: Some(response), metadata: None }
    }

    /// The model that the request goes to first.
    pub fn selected_model_id(&self) -> (selected: Result<&ModelId, LibsyError>)
        ensures
            match selected {
                Ok(model) => self.selected_model_ids@.len() > 0 && *model
                    == self.selected_model_ids@[0],
                Err(error) => self.selected_model_ids@.len() == 0 && error == LibsyError::NoTargets,
            },
    {
        if self.selected_model_ids.len() > 0 {
            Ok(&self.selected_model_ids[0])
        } else {
            Err(LibsyError::NoTargets)
        }
    }
}

/// One finished call of a model.
#[derive(Debug)]
pub struct LlmCallObservation {
    pub selected_model: ModelId,
    pub is_success: bool,
    pub duration: Duration,
    pub usage: Option<Usage>,
}

/// What an observer of a run is told.
#[derive(Debug)]
pub enum RunObservation {
    /// A call that routing made.
    LlmCall(LlmCallObservation),
    /// A call that was made for the answer.
    AnswerCall(LlmCallObservation),
    /// The time that routing took.
    RoutingOverhead(Duration),
}

/// Why a request went on to the next candidate.
#[derive(Clone, Copy, Debug, PartialEq, Eq, Structural)]
pub enum RoutingFallbackReason {
    /// The request does not fit the candidate's context window.
    ContextWindow,
    /// The candidate cannot answer at present.
    Unavailable,
}

} // verus!
