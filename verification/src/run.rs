//! One request to its answer: routing, candidates in order, and the state behind the response.
//!
//! Each function takes what the last outside step gave and says which outside step comes next.
//! A completion tries its candidates in order; routing calls stop on the first candidate's
//! failure. A request that continues state held by a known model goes back to that model
//! without running the algorithm or trying another one.

use std::time::Duration;

use vstd::prelude::*;

use crate::client_router::{tracker_for, ClientRouter, RouterView, StateOwner, StateTracker};
use crate::json::{json_view, no_fields, object_value, text_value, JsonView};
use crate::protocol::{
    names, LibsyError, LlmCallObservation, LlmClientError, LlmResponse, LlmResponseChunk,
    LlmResponseStreamEvent, ModelId, OutcomeMetadata, Request, RequestView, Response,
    RoutingFallbackReason, RoutingOutcome, RunObservation,
};
use crate::status::{is_server_error, BAD_GATEWAY, FORBIDDEN, REQUEST_TIMEOUT, TOO_MANY_REQUESTS};

verus! {

/// Why a failure of one candidate is worth routing around; `None` if it is not.
pub open spec fn fallback_of(error: LibsyError) -> Option<RoutingFallbackReason> {
    match error {
        LibsyError::ClientCall { model: _, source } => match source {
            LlmClientError::ContextWindowExceeded { model: _, message: _ } => Some(
                RoutingFallbackReason::ContextWindow,
            ),
            LlmClientError::Transport { message: _ } => Some(RoutingFallbackReason::Unavailable),
            LlmClientError::UpstreamHttp { status, body: _ } => if status == FORBIDDEN || status
                == REQUEST_TIMEOUT || status == TOO_MANY_REQUESTS || 500 <= status <= 599 {
                Some(RoutingFallbackReason::Unavailable)
            } else {
                None
            },
            _ => None,
        },
        _ => None,
    }
}

/// Whether a failed candidate is worth routing around.
pub fn fallback_reason(error: &LibsyError) -> (reason: Option<RoutingFallbackReason>)
    ensures
        reason == fallback_of(*error),
{
    let source = match error {
        LibsyError::ClientCall { model: _, source } => source,
        _ => {
            return None;
        },
    };
    match source {
        LlmClientError::ContextWindowExceeded { model: _, message: _ } => Some(
            RoutingFallbackReason::ContextWindow,
        ),
        LlmClientError::Transport { message: _ } => Some(RoutingFallbackReason::Unavailable),
        LlmClientError::UpstreamHttp { status, body: _ } => {
            let status: u16 = *status;
            if status == FORBIDDEN || status == REQUEST_TIMEOUT || status == TOO_MANY_REQUESTS
                || is_server_error(status) {
                Some(RoutingFallbackReason::Unavailable)
            } else {
                None
            }
        },
        _ => None,
    }
}

/// One call to make.
pub struct CandidateCall {
    /// The candidate's place among the candidates, from 0.
    pub index: usize,
    /// The number of candidates.
    pub count: usize,
    pub target: ModelId,
    pub request: Request,
    /// Whether a streamed answer is to be read to its end before it is used.
    pub buffer: bool,
}

/// What trying candidates asks for next.
pub enum CandidateStep<S> {
    Call(CandidateCall),
    Done(Result<Response<S>, LibsyError>),
}

/// Whether a reply leads on to the next candidate.
pub open spec fn moves_on<S>(reply: Result<Response<S>, LibsyError>) -> bool {
    reply matches Err(error) && fallback_of(error) is Some
}

/// The candidate to call after candidate `index` of `count` gave `reply`.
pub open spec fn next_candidate<S>(
    count: nat,
    index: nat,
    reply: Result<Response<S>, LibsyError>,
) -> Option<nat> {
    if index + 1 < count && moves_on(reply) {
        Some(index + 1)
    } else {
        None
    }
}

/// Whether `call` asks candidate `index` of `models` to complete `request`.
pub open spec fn completes<C>(
    call: CandidateCall,
    clients: RouterView<C>,
    request: RequestView,
    models: Seq<ModelId>,
    index: nat,
) -> bool {
    &&& index < models.len()
    &&& call.index == index
    &&& call.count == models.len()
    &&& call.target == models[index as int]
    &&& call.request@ == request.prepared(
        models[index as int]@,
        clients.prompt_of(models[index as int]@),
    )
    &&& !call.buffer
}

/// The call that asks candidate `index` to complete `request`.
fn completion_call<C>(
    clients: &ClientRouter<C>,
    request: &Request,
    models: &[ModelId],
    index: usize,
) -> (call: CandidateCall)
    requires
        index < models@.len(),
    ensures
        completes(call, clients@, request@, models@, index as nat),
{
    let target = models[index].clone();
    let request = clients.prepare_completion_request(request.clone(), &target);
    CandidateCall { index, count: models.len(), target, request, buffer: false }
}

/// Tries candidates in order until one succeeds or a failure stops fallback.
///
/// `last` is the candidate that was called last and its reply; `None` before the first call.
/// Each candidate is asked the original request, prepared for it alone.
pub fn call_first_available<C, S>(
    clients: &ClientRouter<C>,
    request: &Request,
    models: &[ModelId],
    last: Option<(usize, Result<Response<S>, LibsyError>)>,
) -> (step: CandidateStep<S>)
    requires
        last matches Some((index, _)) ==> index < models@.len(),
    ensures
        match last {
            None => match step {
                CandidateStep::Call(call) => completes(call, clients@, request@, models@, 0),
                CandidateStep::Done(result) => models@.len() == 0 && result == Err::<
                    Response<S>,
                    LibsyError,
                >(LibsyError::NoTargets),
            },
            Some((index, reply)) => match next_candidate(models@.len(), index as nat, reply) {
                Some(next) => step matches CandidateStep::Call(call) && completes(
                    call,
                    clients@,
                    request@,
                    models@,
                    next,
                ),
                None => step == CandidateStep::Done(reply),
            },
        },
{
    let count: usize = models.len();
    match last {
        None => if count == 0 {
            CandidateStep::Done(Err(LibsyError::NoTargets))
        } else {
            CandidateStep::Call(completion_call(clients, request, models, 0))
        },
        Some((_, Ok(response))) => CandidateStep::Done(Ok(response)),
        Some((index, Err(error))) => if index + 1 == count {
            CandidateStep::Done(Err(error))
        } else {
            match fallback_reason(&error) {
                Some(_) => CandidateStep::Call(
                    completion_call(clients, request, models, index + 1),
                ),
                None => CandidateStep::Done(Err(error)),
            }
        },
    }
}

/// Prepares the call that serves an offloaded routing step: the first of its models, whose
/// streamed answer is read to its end before the algorithm goes on.
pub fn serve<C>(
    clients: &ClientRouter<C>,
    models: &[ModelId],
    request: Request,
) -> (call: Result<CandidateCall, LibsyError>)
    ensures
        match call {
            Ok(call) => {
                &&& models@.len() > 0
                &&& call.index == 0
                &&& call.count == models@.len()
                &&& call.target == models@[0]
                &&& call.request@ == request@.prepared(
                    models@[0]@,
                    clients@.routing_prompt_of(models@[0]@),
                )
                &&& call.buffer
            },
            Err(error) => models@.len() == 0 && error == LibsyError::NoTargets,
        },
{
    if models.len() == 0 {
        return Err(LibsyError::NoTargets);
    }
    let target = models[0].clone();
    let request = clients.prepare_routing_request(request, &target);
    Ok(CandidateCall { index: 0, count: models.len(), target, request, buffer: true })
}

/// Whether a response must be read to its end before it is used.
pub fn needs_buffering<S>(response: &Response<S>, buffer: bool) -> (needs: bool)
    ensures
        needs == (buffer && response.llm_response is Stream),
{
    match &response.llm_response {
        LlmResponse::Agg(_) => false,
        LlmResponse::Stream(_) => buffer,
    }
}

/// Concludes one call: names the model in the response or in the failure, and observes it.
pub fn conclude_call<S>(
    model: &ModelId,
    reply: Result<Response<S>, LlmClientError>,
    duration: Duration,
) -> (concluded: (Result<Response<S>, LibsyError>, LlmCallObservation))
    ensures
        match reply {
            Ok(response) => concluded.0 == Ok::<Response<S>, LibsyError>(
                Response { served_model: Some(*model), ..response },
            ),
            Err(source) => concluded.0 == Err::<Response<S>, LibsyError>(
                LibsyError::ClientCall { model: *model, source },
            ),
        },
        concluded.1 == (LlmCallObservation {
            selected_model: *model,
            is_success: reply is Ok,
            duration,
            usage: match reply {
                Ok(response) => response.usage_of(),
                Err(_) => None,
            },
        }),
{
    let selected_model = model.clone();
    match reply {
        Ok(response) => {
            let usage = response.usage();
            let response = Response { served_model: Some(model.clone()), ..response };
            (
                Ok(response),
                LlmCallObservation { selected_model, is_success: true, duration, usage },
            )
        },
        Err(source) => (
            Err(LibsyError::client_call(model.clone(), source)),
            LlmCallObservation { selected_model, is_success: false, duration, usage: None },
        ),
    }
}

/// The failure that a piece of a stream stands for.
pub open spec fn chunk_fault(chunk: LlmResponseChunk) -> Option<LlmClientError> {
    match chunk {
        LlmResponseChunk::DecodeError { message } => Some(
            LlmClientError::ResponseTranslation(message),
        ),
        LlmResponseChunk::StreamError { message } => Some(
            LlmClientError::UpstreamHttp { status: BAD_GATEWAY, body: message },
        ),
        _ => None,
    }
}

/// The first failure among the pieces of a stream.
pub open spec fn first_fault(chunks: Seq<LlmResponseChunk>) -> Option<LlmClientError>
    decreases chunks.len(),
{
    if chunks.len() == 0 {
        None
    } else if chunk_fault(chunks[0]) is Some {
        chunk_fault(chunks[0])
    } else {
        first_fault(chunks.drop_first())
    }
}

/// Checks the pieces of one event.
fn check_chunks(chunks: &Vec<LlmResponseChunk>) -> (checked: Result<(), LlmClientError>)
    ensures
        match first_fault(chunks@) {
            Some(fault) => checked == Err::<(), LlmClientError>(fault),
            None => checked is Ok,
        },
{
    proof {
        assert(chunks@.skip(0) == chunks@);
    }
    for index in 0..chunks.len()
        invariant
            first_fault(chunks@) == first_fault(chunks@.skip(index as int)),
    {
        proof {
            assert(chunks@.skip(index as int).drop_first() == chunks@.skip(index as int + 1));
        }
        match &chunks[index] {
            LlmResponseChunk::DecodeError { message } => {
                return Err(LlmClientError::ResponseTranslation(message.clone()));
            },
            LlmResponseChunk::StreamError { message } => {
                return Err(
                    LlmClientError::UpstreamHttp { status: BAD_GATEWAY, body: message.clone() },
                );
            },
            _ => {},
        }
    }
    Ok(())
}

/// The events of a routing response, as far as it has been read.
///
/// The provider's own events are kept as they came while the complete response is checked.
pub struct RoutingBuffer {
    events: Vec<LlmResponseStreamEvent>,
}

impl View for RoutingBuffer {
    type V = Seq<LlmResponseStreamEvent>;

    closed spec fn view(&self) -> Seq<LlmResponseStreamEvent> {
        self.events@
    }
}

/// The failure that an item of a stream stands for: its own, or that of the first bad piece in
/// it.
pub open spec fn item_fault(
    item: Result<LlmResponseStreamEvent, LlmClientError>,
) -> Option<LlmClientError> {
    match item {
        Ok(event) => first_fault(event.normalized@),
        Err(error) => Some(error),
    }
}

impl RoutingBuffer {
    /// Nothing read yet.
    pub fn new() -> (buffer: Self)
        ensures
            buffer@ == Seq::<LlmResponseStreamEvent>::empty(),
    {
        RoutingBuffer { events: Vec::new() }
    }

    /// Takes the next item of the stream; a failure ends the reading.
    pub fn accept(
        &mut self,
        item: Result<LlmResponseStreamEvent, LlmClientError>,
    ) -> (accepted: Result<(), LlmClientError>)
        ensures
            match item_fault(item) {
                Some(fault) => accepted == Err::<(), LlmClientError>(fault) && final(self)@
                    == old(self)@,
                None => accepted is Ok && final(self)@ == old(self)@.push(item->Ok_0),
            },
    {
        let event = match item {
            Ok(event) => event,
            Err(error) => {
                return Err(error);
            },
        };
        match check_chunks(&event.normalized) {
            Ok(()) => {
                self.events.push(event);
                Ok(())
            },
            Err(error) => Err(error),
        }
    }

    /// All events, as they came.
    pub fn into_events(self) -> (events: Vec<LlmResponseStreamEvent>)
        ensures
            events@ == self@,
    {
        self.events
    }
}

/// The buffered stream after all of `items`, or the failure that ended it.
pub open spec fn buffered(
    items: Seq<Result<LlmResponseStreamEvent, LlmClientError>>,
) -> Result<Seq<LlmResponseStreamEvent>, LlmClientError>
    decreases items.len(),
{
    if items.len() == 0 {
        Ok(Seq::empty())
    } else {
        match buffered(items.drop_last()) {
            Ok(events) => match item_fault(items.last()) {
                Some(fault) => Err(fault),
                None => Ok(events.push(items.last()->Ok_0)),
            },
            Err(fault) => Err(fault),
        }
    }
}

/// A failure ends a buffered stream, whatever comes after it.
pub proof fn law_first_fault_is_final(
    items: Seq<Result<LlmResponseStreamEvent, LlmClientError>>,
    read: int,
)
    requires
        0 <= read <= items.len(),
        buffered(items.take(read)) is Err,
    ensures
        buffered(items) == buffered(items.take(read)),
    decreases items.len(),
{
    if read == items.len() {
        assert(items.take(read) == items);
    } else {
        assert(items.drop_last().take(read) == items.take(read));
        law_first_fault_is_final(items.drop_last(), read);
    }
}

/// A stream is buffered exactly if none of its items stands for a failure, and then its events
/// are kept unchanged and in order.
pub proof fn law_clean_streams_are_kept(items: Seq<Result<LlmResponseStreamEvent, LlmClientError>>)
    ensures
        buffered(items) is Ok <==> (forall|i: int|
            0 <= i < items.len() ==> item_fault(#[trigger] items[i]) is None),
        buffered(items) matches Ok(events) ==> events == items.map_values(
            |item: Result<LlmResponseStreamEvent, LlmClientError>| item->Ok_0,
        ),
    decreases items.len(),
{
    if items.len() > 0 {
        let front = items.drop_last();
        law_clean_streams_are_kept(front);
        assert(forall|i: int| 0 <= i < front.len() ==> front[i] == items[i]);
        if buffered(items) is Ok {
            assert(buffered(items)->Ok_0 =~= items.map_values(
                |item: Result<LlmResponseStreamEvent, LlmClientError>| item->Ok_0,
            ));
            assert forall|i: int| 0 <= i < items.len() implies item_fault(#[trigger] items[i]) is None by {
                if i < front.len() {
                    assert(front[i] == items[i]);
                }
            }
        } else if buffered(front) is Err {
            let i = choose|i: int| 0 <= i < front.len() && item_fault(#[trigger] front[i]) is Some;
            assert(item_fault(items[i]) is Some);
        } else {
            assert(item_fault(items[items.len() - 1]) is Some);
        }
    } else {
        assert(buffered(items)->Ok_0 =~= items.map_values(
            |item: Result<LlmResponseStreamEvent, LlmClientError>| item->Ok_0,
        ));
    }
}

/// Reads a routing response to its end: its events unchanged and in order, or the first
/// failure in it.
///
/// `items` is what the stream gave up to its end or its first failure.
pub fn buffer_routing_stream(
    items: Vec<Result<LlmResponseStreamEvent, LlmClientError>>,
) -> (events: Result<Vec<LlmResponseStreamEvent>, LlmClientError>)
    ensures
        match buffered(items@) {
            Ok(kept) => events matches Ok(held) && held@ == kept,
            Err(fault) => events matches Err(error) && error == fault,
        },
{
    let mut buffer = RoutingBuffer::new();
    let ghost all = items@;
    for item in iter: items
        invariant
            iter.seq() == all,
            buffered(all.take(iter.index())) == Ok::<Seq<LlmResponseStreamEvent>, LlmClientError>(buffer@),
    {
        proof {
            assert(all.take(iter.index() + 1).drop_last() == all.take(iter.index()));
            if buffered(all.take(iter.index() + 1)) is Err {
                law_first_fault_is_final(all, iter.index() + 1);
            }
        }
        match buffer.accept(item) {
            Ok(()) => {},
            Err(error) => {
                return Err(error);
            },
        }
    }
    proof {
        assert(all.take(all.len() as int) == all);
    }
    Ok(buffer.into_events())
}

/// Whether call `index` is the first one of the model that answered.
pub open spec fn gave_answer(
    observations: Seq<LlmCallObservation>,
    answered_model: Option<ModelId>,
    index: int,
) -> bool {
    &&& answered_model matches Some(model) && observations[index].selected_model@ == model@
    &&& forall|earlier: int|
        0 <= earlier < index ==> (#[trigger] observations[earlier]).selected_model@
            != observations[index].selected_model@
}

/// What an observer is told of call `index`.
pub open spec fn labelled(
    observations: Seq<LlmCallObservation>,
    answered_model: Option<ModelId>,
    index: int,
) -> RunObservation {
    if gave_answer(observations, answered_model, index) {
        RunObservation::AnswerCall(observations[index])
    } else {
        RunObservation::LlmCall(observations[index])
    }
}

/// What an observer is told of the completed routing calls: each one, in call order.
pub open spec fn labelled_calls(
    observations: Seq<LlmCallObservation>,
    answered_model: Option<ModelId>,
) -> Seq<RunObservation> {
    Seq::new(
        observations.len(),
        |index: int| labelled(observations, answered_model, index),
    )
}

/// A borrowed model, owned.
pub open spec fn model_of(model: Option<&ModelId>) -> Option<ModelId> {
    match model {
        Some(held) => Some(*held),
        None => None,
    }
}

/// Labels completed routing calls once the outcome reveals whether one response became the
/// answer: in call order, with at most one answer call.
pub fn emit_routing_observations(
    observations: Vec<LlmCallObservation>,
    answered_model: Option<&ModelId>,
) -> (emitted: Vec<RunObservation>)
    ensures
        emitted@ == labelled_calls(observations@, model_of(answered_model)),
{
    let ghost all = observations@;
    let mut emitted: Vec<RunObservation> = Vec::new();
    let mut answer_observed = false;
    for observation in iter: observations
        invariant
            iter.seq() == all,
            emitted@.len() == iter.index(),
            forall|i: int|
                0 <= i < iter.index() ==> #[trigger] emitted@[i] == labelled(
                    all,
                    model_of(answered_model),
                    i,
                ),
            answer_observed == (answered_model is Some && exists|i: int|
                0 <= i < iter.index() && (#[trigger] all[i]).selected_model@
                    == answered_model->0@),
    {
        let answers = match answered_model {
            Some(model) => !answer_observed && *model == observation.selected_model,
            None => false,
        };
        proof {
            assert(observation == all[iter.index() as int]);
        }
        if answers {
            answer_observed = true;
            emitted.push(RunObservation::AnswerCall(observation));
        } else {
            emitted.push(RunObservation::LlmCall(observation));
        }
    }
    emitted
}

/// The model whose response, given while routing, is the answer.
pub open spec fn answered_by<S>(outcome: Result<RoutingOutcome<S>, LibsyError>) -> Option<ModelId> {
    match outcome {
        Ok(routed) => match routed.response {
            Some(response) => response.served_model,
            None => None,
        },
        Err(_) => None,
    }
}

/// The model whose response, given while routing, is the answer.
pub fn answered_model<S>(outcome: &Result<RoutingOutcome<S>, LibsyError>) -> (model: Option<
    &ModelId,
>)
    ensures
        model_of(model) == answered_by(*outcome),
{
    match outcome {
        Ok(routed) => match &routed.response {
            Some(response) => response.served_model(),
            None => None,
        },
        Err(_) => None,
    }
}

/// What an observer is told of a completed call of a candidate.
pub fn answer_observation(observation: LlmCallObservation) -> (event: RunObservation)
    ensures
        event == RunObservation::AnswerCall(observation),
{
    RunObservation::AnswerCall(observation)
}

/// The details of an outcome that continues stored state.
pub open spec fn stored_state_details(trigger: Seq<char>) -> JsonView {
    JsonView::Object(
        no_fields().insert("source"@, JsonView::Text("stored_state"@)).insert(
            "trigger"@,
            JsonView::Text(trigger),
        ),
    )
}

/// Whether `outcome` sends `request` to the owner of its stored state and to no other model.
pub open spec fn continues<S>(
    outcome: RoutingOutcome<S>,
    model: Seq<char>,
    trigger: Seq<char>,
    algorithm: Seq<char>,
    request: Request,
) -> bool {
    &&& names(outcome.selected_model_ids@) == seq![model]
    &&& outcome.request == request
    &&& outcome.response is None
    &&& outcome.metadata matches Some(metadata)
    &&& metadata.algorithm@ == algorithm
    &&& metadata.details matches Some(details)
    &&& json_view(details) == stored_state_details(trigger)
}

/// Routes to `owner` without fallbacks and records why the algorithm did not run.
pub fn continue_on<S>(owner: StateOwner, algorithm: &str, request: Request) -> (outcome:
    RoutingOutcome<S>)
    ensures
        continues(outcome, owner.model@, owner.trigger@, algorithm@, request),
{
    let mut details = serde_json::Map::new();
    details.insert("source".to_string(), text_value("stored_state".to_string()));
    details.insert("trigger".to_string(), text_value(owner.trigger.to_string()));
    let mut outcome = RoutingOutcome::route_to(owner.model, Vec::new(), request);
    outcome.metadata = Some(
        OutcomeMetadata {
            algorithm: algorithm.to_string(),
            details: Some(object_value(details)),
        },
    );
    proof {
        assert(names(outcome.selected_model_ids@) =~= seq![owner.model@]);
    }
    outcome
}

/// A run that waits for the reply of one of its candidates.
pub struct AnswerRun {
    selected: ModelId,
    request: Request,
    models: Vec<ModelId>,
    index: usize,
}

/// The contents of an [`AnswerRun`].
pub struct AnswerRunView {
    /// The model that the run reports as selected.
    pub selected: ModelId,
    /// The request that the candidates are asked, before it is prepared for one of them.
    pub request: RequestView,
    /// All candidates, in order.
    pub models: Seq<ModelId>,
    /// The candidate that was called.
    pub index: nat,
}

impl View for AnswerRun {
    type V = AnswerRunView;

    closed spec fn view(&self) -> AnswerRunView {
        AnswerRunView {
            selected: self.selected,
            request: self.request@,
            models: self.models@,
            index: self.index as nat,
        }
    }
}

impl AnswerRun {
    /// The run waits for one of its candidates.
    pub open spec fn wf(self) -> bool {
        self@.index < self@.models.len()
    }
}

/// A request's answer.
pub struct Answer<S> {
    /// The model that routing selected.
    pub selected: ModelId,
    pub response: Response<S>,
    /// What the events of a streamed response are to be tracked with.
    pub tracker: Option<StateTracker>,
}

/// What a run asks for next.
pub enum RunStep<S> {
    /// Run the algorithm on this request.
    Drive(Request),
    /// Call this candidate, then go on with its reply.
    Call(AnswerRun, CandidateCall),
    /// Routing failed, so no answer was sought.
    Failed(LibsyError),
    /// The answer, or why there is none.
    Finished(Result<Answer<S>, LibsyError>),
}

/// What an observer is told of a step itself: the routing overhead, once the run is over.
///
/// A run that is over because routing failed has no routing overhead to tell.
pub open spec fn closing_event<S>(step: RunStep<S>, overhead: Duration) -> Option<RunObservation> {
    if step is Finished {
        Some(RunObservation::RoutingOverhead(overhead))
    } else {
        None
    }
}

/// What an observer is told of a step itself: the routing overhead, once the run is over.
pub fn closing_observation<S>(step: &RunStep<S>, overhead: Duration) -> (event: Option<
    RunObservation,
>)
    ensures
        event == closing_event(*step, overhead),
{
    match step {
        RunStep::Finished(_) => Some(RunObservation::RoutingOverhead(overhead)),
        _ => None,
    }
}

/// Whether a run ended with `result`, once the state behind the response was recorded.
pub open spec fn finishes<C, S>(
    step: RunStep<S>,
    before: RouterView<C>,
    after: RouterView<C>,
    selected: ModelId,
    request: RequestView,
    result: Result<Response<S>, LibsyError>,
) -> bool {
    match result {
        Ok(response) => match before.remembered_response(request, response) {
            Ok(router) => {
                &&& after == router
                &&& step matches RunStep::Finished(Ok(answer))
                &&& answer.selected == selected
                &&& answer.response == response
                &&& tracker_for(answer.tracker, before, request, response)
            },
            Err(fault) => {
                &&& after == before
                &&& step matches RunStep::Finished(Err(LibsyError::ClientCall { model, source }))
                &&& Some(model) == response.served_model
                &&& source == fault.error()
            },
        },
        Err(error) => after == before && step == RunStep::<S>::Finished(Err(error)),
    }
}

/// Whether a run calls candidate `index` and waits for its reply.
pub open spec fn calls<C, S>(
    step: RunStep<S>,
    clients: RouterView<C>,
    selected: ModelId,
    request: RequestView,
    models: Seq<ModelId>,
    index: nat,
) -> bool {
    &&& step matches RunStep::Call(run, call)
    &&& run@ == (AnswerRunView { selected, request, models, index })
    &&& run.wf()
    &&& completes(call, clients, request, models, index)
}

/// Whether a run calls `model`, which holds the state that `request` continues, and no other
/// candidate.
pub open spec fn resumes<C, S>(
    step: RunStep<S>,
    clients: RouterView<C>,
    request: RequestView,
    model: Seq<char>,
) -> bool {
    &&& step matches RunStep::Call(run, call)
    &&& run.wf()
    &&& run@.selected@ == model
    &&& run@.request == request
    &&& run@.index == 0
    &&& names(run@.models) == seq![model]
    &&& completes(call, clients, request, run@.models, 0)
}

/// Whether a run goes on rightly from `outcome`.
pub open spec fn goes_on<C, S>(
    step: RunStep<S>,
    before: RouterView<C>,
    after: RouterView<C>,
    outcome: Result<RoutingOutcome<S>, LibsyError>,
) -> bool {
    match outcome {
        Ok(routed) => if routed.selected_model_ids@.len() == 0 {
            after == before && step == RunStep::<S>::Failed(LibsyError::NoTargets)
        } else {
            let selected = routed.selected_model_ids@[0];
            match routed.response {
                Some(response) => finishes(
                    step,
                    before,
                    after,
                    selected,
                    routed.request@,
                    Ok(response),
                ),
                None => after == before && calls(
                    step,
                    before,
                    selected,
                    routed.request@,
                    routed.selected_model_ids@,
                    0,
                ),
            }
        },
        Err(error) => after == before && step == RunStep::<S>::Failed(error),
    }
}

/// Whether a run goes on rightly from the reply of the candidate that it called.
pub open spec fn takes_reply<C, S>(
    step: RunStep<S>,
    before: RouterView<C>,
    after: RouterView<C>,
    run: AnswerRunView,
    reply: Result<Response<S>, LibsyError>,
) -> bool {
    match next_candidate(run.models.len(), run.index, reply) {
        Some(next) => after == before && calls(
            step,
            before,
            run.selected,
            run.request,
            run.models,
            next,
        ),
        None => finishes(step, before, after, run.selected, run.request, reply),
    }
}

/// Records the state behind a response, and ends the run with it.
fn run_finish<C, S>(
    clients: &mut ClientRouter<C>,
    selected: ModelId,
    request: &Request,
    result: Result<Response<S>, LibsyError>,
) -> (step: RunStep<S>)
    requires
        old(clients).wf(),
    ensures
        final(clients).wf(),
        finishes(step, old(clients)@, final(clients)@, selected, request@, result),
{
    let response = match result {
        Ok(response) => response,
        Err(error) => {
            return RunStep::Finished(Err(error));
        },
    };
    match clients.remember_state_owner(request, response) {
        Ok((response, tracker)) => RunStep::Finished(Ok(Answer { selected, response, tracker })),
        Err(error) => RunStep::Finished(Err(error)),
    }
}

/// Goes on from the outcome of routing: an answer that routing gave ends the run, otherwise the
/// first candidate is called.
pub fn run_routed<C, S>(
    clients: &mut ClientRouter<C>,
    outcome: Result<RoutingOutcome<S>, LibsyError>,
) -> (step: RunStep<S>)
    requires
        old(clients).wf(),
    ensures
        final(clients).wf(),
        goes_on(step, old(clients)@, final(clients)@, outcome),
{
    let outcome = match outcome {
        Ok(outcome) => outcome,
        Err(error) => {
            return RunStep::Failed(error);
        },
    };
    let selected = match outcome.selected_model_id() {
        Ok(selected) => selected.clone(),
        Err(error) => {
            return RunStep::Failed(error);
        },
    };
    let request = outcome.request;
    let models = outcome.selected_model_ids;
    match outcome.response {
        Some(response) => run_finish(clients, selected, &request, Ok(response)),
        None => match call_first_available::<C, S>(clients, &request, models.as_slice(), None) {
            CandidateStep::Call(call) => RunStep::Call(
                AnswerRun { selected, request, models, index: call.index },
                call,
            ),
            CandidateStep::Done(result) => run_finish(clients, selected, &request, result),
        },
    }
}

/// Starts a run: a request that continues known state goes straight to the model that holds
/// it, any other one to the algorithm.
pub fn run_start<C, S>(
    clients: &mut ClientRouter<C>,
    algorithm: &str,
    request: Request,
) -> (step: RunStep<S>)
    requires
        old(clients).wf(),
    ensures
        final(clients).wf(),
        final(clients)@ == old(clients)@,
        match old(clients)@.stored_state_owner_of(request@.llm_request.extensions) {
            Some((model, _)) => resumes(step, old(clients)@, request@, model),
            None => step == RunStep::<S>::Drive(request),
        },
{
    match clients.stored_state_owner(&request) {
        Some(owner) => {
            let outcome: RoutingOutcome<S> = continue_on(owner, algorithm, request);
            proof {
                assert(names(outcome.selected_model_ids@).len() == 1);
                assert(names(outcome.selected_model_ids@)[0]
                    == outcome.selected_model_ids@[0]@);
            }
            run_routed(clients, Ok(outcome))
        },
        None => RunStep::Drive(request),
    }
}

/// Goes on from the reply of the candidate that was called: to the next candidate, or to the
/// end of the run.
pub fn run_replied<C, S>(
    clients: &mut ClientRouter<C>,
    run: AnswerRun,
    reply: Result<Response<S>, LibsyError>,
) -> (step: RunStep<S>)
    requires
        old(clients).wf(),
        run.wf(),
    ensures
        final(clients).wf(),
        takes_reply(step, old(clients)@, final(clients)@, run@, reply),
{
    let AnswerRun { selected, request, models, index } = run;
    match call_first_available(clients, &request, models.as_slice(), Some((index, reply))) {
        CandidateStep::Call(call) => RunStep::Call(
            AnswerRun { selected, request, models, index: call.index },
            call,
        ),
        CandidateStep::Done(result) => run_finish(clients, selected, &request, result),
    }
}

/// A routing decision whose completion is left to the caller.
pub struct Decision<S> {
    /// The outcome, with its request prepared for the selected model only.
    pub outcome: RoutingOutcome<S>,
    /// What the events of a streamed response are to be tracked with.
    pub tracker: Option<StateTracker>,
}

/// What a decision asks for next.
pub enum DecideStep<S> {
    /// Run the algorithm on this request.
    Drive(Request),
    /// The decision, or why there is none.
    Decided(Result<Decision<S>, LibsyError>),
}

/// Whether `decision` is `outcome` with its request prepared for the selected model, once the
/// state behind a response that routing gave was recorded.
pub open spec fn decides<C, S>(
    decision: Result<Decision<S>, LibsyError>,
    before: RouterView<C>,
    after: RouterView<C>,
    outcome: Result<RoutingOutcome<S>, LibsyError>,
) -> bool {
    match outcome {
        Ok(routed) => if routed.selected_model_ids@.len() == 0 {
            after == before && decision == Err::<Decision<S>, LibsyError>(LibsyError::NoTargets)
        } else {
            let selected = routed.selected_model_ids@[0]@;
            let prepared = routed.request@.prepared(selected, before.prompt_of(selected));
            match routed.response {
                Some(response) => match before.remembered_response(prepared, response) {
                    Ok(router) => {
                        &&& after == router
                        &&& decision matches Ok(decided)
                        &&& decided.outcome.selected_model_ids == routed.selected_model_ids
                        &&& decided.outcome.request@ == prepared
                        &&& decided.outcome.response == Some(response)
                        &&& decided.outcome.metadata == routed.metadata
                        &&& tracker_for(decided.tracker, before, prepared, response)
                    },
                    Err(fault) => {
                        &&& after == before
                        &&& decision matches Err(LibsyError::ClientCall { model, source })
                        &&& Some(model) == response.served_model
                        &&& source == fault.error()
                    },
                },
                None => {
                    &&& after == before
                    &&& decision matches Ok(decided)
                    &&& decided.outcome.selected_model_ids == routed.selected_model_ids
                    &&& decided.outcome.request@ == prepared
                    &&& decided.outcome.response is None
                    &&& decided.outcome.metadata == routed.metadata
                    &&& decided.tracker is None
                },
            }
        },
        Err(error) => after == before && decision == Err::<Decision<S>, LibsyError>(error),
    }
}

/// Turns the outcome of routing into a decision, without serving its completion.
pub fn decide_routed<C, S>(
    clients: &mut ClientRouter<C>,
    outcome: Result<RoutingOutcome<S>, LibsyError>,
) -> (decision: Result<Decision<S>, LibsyError>)
    requires
        old(clients).wf(),
    ensures
        final(clients).wf(),
        decides(decision, old(clients)@, final(clients)@, outcome),
{
    let outcome = match outcome {
        Ok(outcome) => outcome,
        Err(error) => {
            return Err(error);
        },
    };
    let selected = match outcome.selected_model_id() {
        Ok(selected) => selected.clone(),
        Err(error) => {
            return Err(error);
        },
    };
    let RoutingOutcome { selected_model_ids, request, response, metadata } = outcome;
    let request = clients.prepare_completion_request(request, &selected);
    match response {
        Some(response) => match clients.remember_state_owner(&request, response) {
            Ok((response, tracker)) => {
                let response = Some(response);
                let outcome = RoutingOutcome { selected_model_ids, request, response, metadata };
                Ok(Decision { outcome, tracker })
            },
            Err(error) => Err(error),
        },
        None => {
            let outcome = RoutingOutcome { selected_model_ids, request, response: None, metadata };
            Ok(Decision { outcome, tracker: None })
        },
    }
}

/// Starts a decision: a request that continues known state is decided at once, any other one
/// goes to the algorithm.
pub fn decide_start<C, S>(
    clients: &mut ClientRouter<C>,
    algorithm: &str,
    request: Request,
) -> (step: DecideStep<S>)
    requires
        old(clients).wf(),
    ensures
        final(clients).wf(),
        final(clients)@ == old(clients)@,
        match old(clients)@.stored_state_owner_of(request@.llm_request.extensions) {
            Some((model, trigger)) => {
                &&& step matches DecideStep::Decided(Ok(decided))
                &&& names(decided.outcome.selected_model_ids@) == seq![model]
                &&& decided.outcome.request@ == request@.prepared(
                    model,
                    old(clients)@.prompt_of(model),
                )
                &&& decided.outcome.response is None
                &&& decided.outcome.metadata matches Some(metadata)
                &&& metadata.algorithm@ == algorithm@
                &&& metadata.details matches Some(details)
                &&& json_view(details) == stored_state_details(trigger)
                &&& decided.tracker is None
            },
            None => step == DecideStep::<S>::Drive(request),
        },
{
    match clients.stored_state_owner(&request) {
        Some(owner) => {
            let outcome: RoutingOutcome<S> = continue_on(owner, algorithm, request);
            proof {
                assert(names(outcome.selected_model_ids@).len() == 1);
                assert(names(outcome.selected_model_ids@)[0]
                    == outcome.selected_model_ids@[0]@);
            }
            DecideStep::Decided(decide_routed(clients, Ok(outcome)))
        },
        None => DecideStep::Drive(request),
    }
}

/// The candidate whose reply ends a run from candidate `index` on, where `replies` are what the
/// candidates would reply.
pub open spec fn last_called<S>(
    replies: Seq<Result<Response<S>, LibsyError>>,
    index: nat,
) -> nat
    decreases replies.len() - index,
{
    if index >= replies.len() {
        index
    } else {
        match next_candidate(replies.len(), index, replies[index as int]) {
            Some(next) => last_called(replies, (index + 1) as nat),
            None => index,
        }
    }
}

/// Candidates are called in order and each at most once: the run ends with the first candidate
/// that succeeds or fails in a way that is not worth routing around, and with the last
/// candidate at the latest. Every candidate before it failed and was worth routing around.
pub proof fn law_first_conclusive_candidate_ends_the_run<S>(
    replies: Seq<Result<Response<S>, LibsyError>>,
    index: nat,
)
    requires
        index < replies.len(),
    ensures
        index <= last_called(replies, index) < replies.len(),
        forall|earlier: int|
            index <= earlier < last_called(replies, index) ==> moves_on(#[trigger] replies[earlier]),
        !moves_on(replies[last_called(replies, index) as int]) || last_called(replies, index) + 1
            == replies.len(),
    decreases replies.len() - index,
{
    if next_candidate(replies.len(), index, replies[index as int]) is Some {
        law_first_conclusive_candidate_ends_the_run(replies, index + 1);
    }
}

/// A run comes to its end: each reply either ends it or moves it to the candidate right after,
/// for the same request and with nothing recorded, and it moves on only from a failure that is
/// worth routing around.
pub proof fn law_runs_advance_to_their_end<C, S>(
    step: RunStep<S>,
    before: RouterView<C>,
    after: RouterView<C>,
    run: AnswerRunView,
    reply: Result<Response<S>, LibsyError>,
)
    requires
        run.index < run.models.len(),
        takes_reply(step, before, after, run, reply),
    ensures
        match step {
            RunStep::Call(next, call) => {
                &&& next@ == (AnswerRunView { index: (run.index + 1) as nat, ..run })
                &&& next@.index < run.models.len()
                &&& call.target == run.models[next@.index as int]
                &&& moves_on(reply)
                &&& after == before
            },
            RunStep::Finished(_) => !moves_on(reply) || run.index + 1 == run.models.len(),
            _ => false,
        },
{
}

/// Each candidate gets only its own prompt: whatever the earlier candidates were asked, it is
/// asked the routed request, addressed to it, with its prompt, if it has one, after the
/// instructions, and with nothing else changed.
pub proof fn law_candidates_get_only_their_own_prompt<C>(
    call: CandidateCall,
    clients: RouterView<C>,
    request: RequestView,
    models: Seq<ModelId>,
    index: nat,
)
    requires
        completes(call, clients, request, models, index),
    ensures
        call.request@.llm_request.model == Some(models[index as int]@),
        call.request@.llm_request.instructions == request.llm_request.instructions + (
        match clients.prompt_of(models[index as int]@) {
            Some(prompt) => seq![prompt],
            None => Seq::empty(),
        }),
        call.request@.llm_request.messages == request.llm_request.messages,
        call.request@.llm_request.stream == request.llm_request.stream,
        call.request@.llm_request.extensions == request.llm_request.extensions,
        call.request@.raw_request == request.raw_request,
        call.request@.metadata == request.metadata,
{
    assert(call.request@.llm_request.instructions =~= request.llm_request.instructions + (
    match clients.prompt_of(models[index as int]@) {
        Some(prompt) => seq![prompt],
        None => Seq::empty(),
    }));
}

/// A decision is what a run would do first: where routing gave no answer, the run calls the
/// first of the decided models with the decided request.
pub proof fn law_decisions_are_first_calls<C, S>(
    clients: RouterView<C>,
    outcome: Result<RoutingOutcome<S>, LibsyError>,
    step: RunStep<S>,
    after_run: RouterView<C>,
    decision: Result<Decision<S>, LibsyError>,
    after_decision: RouterView<C>,
)
    requires
        outcome matches Ok(routed) && routed.response is None,
        goes_on(step, clients, after_run, outcome),
        decides(decision, clients, after_decision, outcome),
    ensures
        match decision {
            Ok(decided) => {
                &&& step matches RunStep::Call(_, call)
                &&& call.index == 0
                &&& call.target == decided.outcome.selected_model_ids@[0]
                &&& call.request@ == decided.outcome.request@
            },
            Err(error) => step == RunStep::<S>::Failed(error),
        },
        after_run == after_decision,
{
}

/// Success ends the candidates, and so does a timeout: no other candidate is called.
pub proof fn law_success_and_timeout_end_the_candidates<S>(
    count: nat,
    index: nat,
    response: Response<S>,
    model: ModelId,
    message: String,
)
    ensures
        next_candidate(count, index, Ok::<Response<S>, LibsyError>(response)) is None,
        next_candidate(
            count,
            index,
            Err::<Response<S>, LibsyError>(
                LibsyError::ClientCall { model, source: LlmClientError::Timeout { message } },
            ),
        ) is None,
{
}

/// A run with one candidate, such as one that continues stored state, never calls another one,
/// whatever the reply.
pub proof fn law_single_candidate_is_final<S>(reply: Result<Response<S>, LibsyError>)
    ensures
        next_candidate(1, 0, reply) is None,
{
}

/// At most one routing call is reported as the answer, and one is exactly if the model that
/// answered was called.
pub proof fn law_one_answer_call(
    observations: Seq<LlmCallObservation>,
    answered_model: Option<ModelId>,
)
    ensures
        forall|i: int, j: int|
            0 <= i < observations.len() && 0 <= j < observations.len() && #[trigger] gave_answer(
                observations,
                answered_model,
                i,
            ) && #[trigger] gave_answer(observations, answered_model, j) ==> i == j,
        (exists|i: int|
            0 <= i < observations.len() && #[trigger] gave_answer(observations, answered_model, i))
            <==> (answered_model is Some && exists|i: int|
            0 <= i < observations.len() && (#[trigger] observations[i]).selected_model@
                == answered_model->0@),
{
    if answered_model is Some && exists|i: int|
        0 <= i < observations.len() && (#[trigger] observations[i]).selected_model@
            == answered_model->0@ {
        let i = choose|i: int|
            0 <= i < observations.len() && (#[trigger] observations[i]).selected_model@
                == answered_model->0@;
        let first = lemma_first_call(observations, answered_model->0, i);
        assert(gave_answer(observations, answered_model, first));
    }
    assert forall|i: int, j: int|
        0 <= i < observations.len() && 0 <= j < observations.len() && #[trigger] gave_answer(
            observations,
            answered_model,
            i,
        ) && #[trigger] gave_answer(observations, answered_model, j) implies i == j by {
        if i < j {
            assert(observations[i].selected_model@ != observations[j].selected_model@);
        }
        if j < i {
            assert(observations[j].selected_model@ != observations[i].selected_model@);
        }
    }
}

/// How a run begins.
pub enum Opening<S> {
    /// With the model that holds the state that the request continues.
    Continued { request: RequestView, owner: Seq<char> },
    /// With the outcome of routing, and the calls that routing completed.
    Routed { outcome: Result<RoutingOutcome<S>, LibsyError>, routing: Seq<LlmCallObservation> },
}

/// A run from its opening on.
#[verifier::reject_recursive_types(C)]
pub struct RunTrace<C, S> {
    pub opening: Opening<S>,
    /// The step that the opening led to, then the one that each reply led to.
    pub steps: Seq<RunStep<S>>,
    /// The router before the opening, then after each step.
    pub routers: Seq<RouterView<C>>,
    /// The reply of each candidate that was called.
    pub replies: Seq<Result<Response<S>, LibsyError>>,
    /// The observation of each call of a candidate.
    pub observations: Seq<LlmCallObservation>,
}

impl<S> Opening<S> {
    /// What an observer is told of the calls before the first candidate.
    pub open spec fn events(self) -> Seq<RunObservation> {
        match self {
            Opening::Continued { request: _, owner: _ } => Seq::empty(),
            Opening::Routed { outcome, routing } => labelled_calls(routing, answered_by(outcome)),
        }
    }

    /// Whether there is a model to report as selected.
    pub open spec fn selects(self) -> bool {
        match self {
            Opening::Continued { request: _, owner: _ } => true,
            Opening::Routed { outcome, routing: _ } => outcome matches Ok(routed)
                && routed.selected_model_ids@.len() > 0,
        }
    }

    /// The names of the candidates to call: none where routing failed or already answered.
    pub open spec fn candidates(self) -> Seq<Seq<char>> {
        match self {
            Opening::Continued { request: _, owner } => seq![owner],
            Opening::Routed { outcome, routing: _ } => match outcome {
                Ok(routed) => if routed.response is None {
                    names(routed.selected_model_ids@)
                } else {
                    Seq::empty()
                },
                Err(_) => Seq::empty(),
            },
        }
    }
}

impl<C, S> RunTrace<C, S> {
    /// Whether the first step follows from the opening.
    pub open spec fn opens(self) -> bool {
        match self.opening {
            Opening::Continued { request, owner } => self.routers[1] == self.routers[0] && resumes(
                self.steps[0],
                self.routers[0],
                request,
                owner,
            ),
            Opening::Routed { outcome, routing: _ } => goes_on(
                self.steps[0],
                self.routers[0],
                self.routers[1],
                outcome,
            ),
        }
    }

    /// Whether call `index` was asked for, was observed under the candidate's name, and led to
    /// the next step.
    pub open spec fn follows(self, index: int) -> bool {
        &&& self.steps[index] matches RunStep::Call(run, call)
        &&& self.observations[index].selected_model == call.target
        &&& self.observations[index].is_success == (self.replies[index] is Ok)
        &&& takes_reply(
            self.steps[index + 1],
            self.routers[index + 1],
            self.routers[index + 2],
            run@,
            self.replies[index],
        )
    }

    /// Whether every step follows from what came before it, and the last one asks for no more.
    pub open spec fn complete(self) -> bool {
        &&& self.steps.len() == self.replies.len() + 1
        &&& self.routers.len() == self.replies.len() + 2
        &&& self.observations.len() == self.replies.len()
        &&& self.opens()
        &&& forall|index: int| 0 <= index < self.replies.len() ==> #[trigger] self.follows(index)
        &&& self.steps.last() is Failed || self.steps.last() is Finished
    }

    /// What an observer was told up to step `count`: of the opening's calls, then of each
    /// candidate's call once it is completed, and of each step once it is known.
    pub open spec fn told(self, overhead: Duration, count: int) -> Seq<RunObservation>
        decreases count,
    {
        let before = if count <= 0 {
            self.opening.events()
        } else {
            self.told(overhead, count - 1).push(
                RunObservation::AnswerCall(self.observations[count - 1]),
            )
        };
        match closing_event(self.steps[count], overhead) {
            Some(event) => before.push(event),
            None => before,
        }
    }
}

/// What an observer is told over a whole run: each completed routing call in call order, then one
/// answer call for each candidate that was tried, in candidate order, then the routing overhead,
/// once and last.
///
/// Candidates are tried only where routing gave no answer, from the first one on, and past one
/// only where its failure is worth routing around. The overhead comes whether or not a candidate
/// succeeded; it does not come exactly where routing failed or selected no model.
pub proof fn law_observers_see_the_whole_run<C, S>(trace: RunTrace<C, S>, overhead: Duration)
    requires
        trace.complete(),
    ensures
        trace.told(overhead, trace.replies.len() as int) == trace.opening.events() + Seq::new(
            trace.replies.len(),
            |index: int| RunObservation::AnswerCall(trace.observations[index]),
        ) + (if trace.opening.selects() {
            seq![RunObservation::RoutingOverhead(overhead)]
        } else {
            Seq::empty()
        }),
        trace.replies.len() <= trace.opening.candidates().len(),
        trace.opening.candidates().len() > 0 ==> trace.replies.len() > 0,
        forall|index: int|
            0 <= index < trace.replies.len() ==> (
            #[trigger] trace.observations[index]).selected_model@
                == trace.opening.candidates()[index],
        forall|index: int|
            0 <= index < trace.replies.len() - 1 ==> moves_on(#[trigger] trace.replies[index]),
        0 < trace.replies.len() < trace.opening.candidates().len() ==> !moves_on(
            trace.replies.last(),
        ),
{
    let count = trace.replies.len() as int;
    let answers = Seq::new(
        trace.replies.len(),
        |index: int| RunObservation::AnswerCall(trace.observations[index]),
    );
    assert forall|index: int| 0 <= index < count implies (
    #[trigger] trace.observations[index]).selected_model@ == trace.opening.candidates()[index] by {
        lemma_trace_step(trace, index);
        assert(trace.follows(index));
        assert(names(trace.steps[index]->Call_0@.models)[index]
            == trace.steps[index]->Call_0@.models[index]@);
    }
    assert forall|index: int| 0 <= index < count - 1 implies moves_on(
        #[trigger] trace.replies[index],
    ) by {
        lemma_trace_step(trace, index);
        lemma_trace_step(trace, index + 1);
        assert(trace.follows(index));
    }
    if count > 0 {
        lemma_trace_step(trace, count - 1);
        assert(trace.follows(count - 1));
        lemma_told_before_the_end(trace, overhead, count - 1);
        assert(answers =~= answers.take(count - 1).push(
            RunObservation::AnswerCall(trace.observations[count - 1]),
        ));
    }
    assert(trace.told(overhead, count) =~= trace.opening.events() + answers + (
    if trace.opening.selects() {
        seq![RunObservation::RoutingOverhead(overhead)]
    } else {
        Seq::empty()
    }));
}

/// In a complete run the step before reply `index` calls candidate `index`.
proof fn lemma_trace_step<C, S>(trace: RunTrace<C, S>, index: int)
    requires
        trace.complete(),
        0 <= index < trace.replies.len(),
    ensures
        trace.opening.selects(),
        trace.steps[index] matches RunStep::Call(run, call) && {
            &&& run@.index == index
            &&& index < run@.models.len()
            &&& names(run@.models) == trace.opening.candidates()
            &&& call.target == run@.models[index]
        },
    decreases index,
{
    assert(trace.follows(index));
    if index > 0 {
        lemma_trace_step(trace, index - 1);
        assert(trace.follows(index - 1));
    }
}

/// Until the last step an observer is told of calls only.
proof fn lemma_told_before_the_end<C, S>(trace: RunTrace<C, S>, overhead: Duration, count: int)
    requires
        trace.complete(),
        0 <= count < trace.replies.len(),
    ensures
        trace.told(overhead, count) == trace.opening.events() + Seq::new(
            trace.replies.len(),
            |index: int| RunObservation::AnswerCall(trace.observations[index]),
        ).take(count),
    decreases count,
{
    let answers = Seq::new(
        trace.replies.len(),
        |index: int| RunObservation::AnswerCall(trace.observations[index]),
    );
    lemma_trace_step(trace, count);
    if count > 0 {
        lemma_told_before_the_end(trace, overhead, count - 1);
        assert(answers.take(count) =~= answers.take(count - 1).push(
            RunObservation::AnswerCall(trace.observations[count - 1]),
        ));
    }
    assert(trace.told(overhead, count) =~= trace.opening.events() + answers.take(count));
}

/// The first call of a model that was called.
proof fn lemma_first_call(
    observations: Seq<LlmCallObservation>,
    model: ModelId,
    called: int,
) -> (first: int)
    requires
        0 <= called < observations.len(),
        observations[called].selected_model@ == model@,
    ensures
        0 <= first <= called,
        observations[first].selected_model@ == model@,
        forall|earlier: int|
            0 <= earlier < first ==> (#[trigger] observations[earlier]).selected_model@ != model@,
    decreases called,
{
    if exists|earlier: int|
        0 <= earlier < called && (#[trigger] observations[earlier]).selected_model@ == model@ {
        let earlier = choose|earlier: int|
            0 <= earlier < called && (#[trigger] observations[earlier]).selected_model@ == model@;
        lemma_first_call(observations, model, earlier)
    } else {
        called
    }
}

} // verus!
