//! Laws of runs and decisions.

use std::time::Duration;

use vstd::prelude::*;

use crate::client_router::{ClientRouter, RouterView, StateOwner};
use crate::json::{json_view, JsonView};
use crate::laws::fields::{holds_text, text_at};
use crate::laws::routers::{
    asked, lemma_prepared_is_asked, lemma_remembered_is_taken, named_conversation, takes_response,
};
use crate::protocol::{
    names, LibsyError, LlmCallObservation, LlmClientError, LlmResponseChunk, LlmResponseStreamEvent,
    ModelId, Request, RequestView, Response, RoutingFallbackReason, RoutingOutcome, RunObservation,
};
use crate::run::{
    answer_observation, answered_model, buffer_routing_stream, buffered, call_first_available,
    chunk_fault, closing_observation, completes, conclude_call, continue_on, decide_routed,
    decide_start, emit_routing_observations, fallback_reason, finishes, first_fault, item_fault,
    law_clean_streams_are_kept, law_first_fault_is_final, needs_buffering, next_candidate,
    run_replied, run_routed, run_start, serve, stored_state_details, AnswerRun, AnswerRunView,
    CandidateCall, CandidateStep, DecideStep, Decision, RoutingBuffer, RunStep,
};

verus! {

/// A failed call is worth routing around if the request did not fit the model, the provider could
/// not be reached, or it answered 403, 408, 429 or any of 500 to 599. No other failure is.
pub proof fn law_failures_worth_routing_around(
    error: LibsyError,
    reason: Option<RoutingFallbackReason>,
)
    requires
        call_ensures(fallback_reason, (&error,), reason),
    ensures
        !(error is ClientCall) ==> reason is None,
        error matches LibsyError::ClientCall { model: _, source } ==> {
            &&& source is ContextWindowExceeded ==> reason == Some(
                RoutingFallbackReason::ContextWindow,
            )
            &&& source is Transport ==> reason == Some(RoutingFallbackReason::Unavailable)
            &&& source matches LlmClientError::UpstreamHttp { status, body: _ } ==> {
                &&& status == 403 || status == 408 || status == 429 || 500 <= status <= 599
                    ==> reason == Some(RoutingFallbackReason::Unavailable)
                &&& status != 403 && status != 408 && status != 429 && !(500 <= status <= 599)
                    ==> reason is None
            }
            &&& source is Timeout || source is ResponseTranslation || source is Configuration
                || source is ResponseStateConflict || source is ResponseStateLimitExceeded
                ==> reason is None
        },
{
}

/// After a failure the next candidate is called exactly if there is one and the failure is worth
/// routing around.
pub proof fn law_failures_lead_to_the_next_candidate<S>(
    count: nat,
    index: nat,
    model: ModelId,
    source: LlmClientError,
    response: Response<S>,
)
    requires
        index + 1 < count,
    ensures
        ({
            let next = next_candidate(
                count,
                index,
                Err::<Response<S>, LibsyError>(LibsyError::ClientCall { model, source }),
            );
            &&& source is ContextWindowExceeded ==> next == Some((index + 1) as nat)
            &&& source is Transport ==> next == Some((index + 1) as nat)
            &&& source matches LlmClientError::UpstreamHttp { status, body: _ } ==> {
                &&& status == 403 || status == 408 || status == 429 || 500 <= status <= 599
                    ==> next == Some((index + 1) as nat)
                &&& status != 403 && status != 408 && status != 429 && !(500 <= status <= 599)
                    ==> next is None
            }
            &&& source is Timeout || source is ResponseTranslation || source is Configuration
                || source is ResponseStateConflict || source is ResponseStateLimitExceeded
                ==> next is None
        }),
        next_candidate(count, index, Ok::<Response<S>, LibsyError>(response)) is None,
        next_candidate(
            count,
            index,
            Err::<Response<S>, LibsyError>(LibsyError::NoTargets),
        ) is None,
        forall|message: String|
            next_candidate(
                count,
                index,
                Err::<Response<S>, LibsyError>(#[trigger] algorithm_error(message)),
            ) is None,
{
}

/// A failure of an algorithm.
pub open spec fn algorithm_error(message: String) -> LibsyError {
    LibsyError::AlgorithmError { message }
}

/// Whether a failure is worth routing around.
pub open spec fn is_passing(error: LibsyError) -> bool {
    error matches LibsyError::ClientCall { model: _, source } && (source is ContextWindowExceeded
        || source is Transport || (source matches LlmClientError::UpstreamHttp { status, body: _ }
        && (status == 403 || status == 408 || status == 429 || 500 <= status <= 599)))
}

/// Whether `call` asks candidate `index` to complete `request`, with its own prompt.
pub open spec fn asks<C>(
    call: CandidateCall,
    clients: RouterView<C>,
    request: RequestView,
    models: Seq<ModelId>,
    index: int,
) -> bool {
    &&& 0 <= index < models.len()
    &&& call.index == index
    &&& call.count == models.len()
    &&& call.target == models[index]
    &&& !call.buffer
    &&& asked(call.request@, request, models[index]@, clients.target_prompts, true)
}

proof fn lemma_completing_asks<C>(
    call: CandidateCall,
    clients: RouterView<C>,
    request: RequestView,
    models: Seq<ModelId>,
    index: nat,
)
    requires
        completes(call, clients, request, models, index),
    ensures
        asks(call, clients, request, models, index as int),
{
    lemma_prepared_is_asked(request, models[index as int]@, clients.target_prompts, true);
}

/// The first candidate is asked first. A success, a failure that is not worth routing around, and
/// the last candidate's reply are final; after any other failure the next candidate is asked the
/// same request, with its own prompt.
pub proof fn law_candidates_are_tried_in_order<C, S>(
    clients: ClientRouter<C>,
    request: Request,
    models: &[ModelId],
    last: Option<(usize, Result<Response<S>, LibsyError>)>,
    step: CandidateStep<S>,
)
    requires
        last matches Some((index, _)) ==> index < models@.len(),
        call_ensures(
            call_first_available::<C, S>,
            (&clients, &request, models, last),
            step,
        ),
    ensures
        last is None && models@.len() == 0 ==> step == CandidateStep::<S>::Done(
            Err(LibsyError::NoTargets),
        ),
        last is None && models@.len() > 0 ==> step is Call && asks(
            step->Call_0,
            clients@,
            request@,
            models@,
            0,
        ),
        last matches Some((index, reply)) ==> {
            let goes_on = index + 1 < models@.len() && reply is Err && is_passing(reply->Err_0);
            &&& goes_on ==> step is Call && asks(
                step->Call_0,
                clients@,
                request@,
                models@,
                index + 1,
            )
            &&& !goes_on ==> step == CandidateStep::Done(reply)
        },
{
    if step is Call {
        lemma_completing_asks(
            step->Call_0,
            clients@,
            request@,
            models@,
            match last {
                Some((index, _)) => (index + 1) as nat,
                None => 0,
            },
        );
    }
}

/// Whether a run is over with `response` from the model that routing selected, once the state
/// behind the response was taken.
pub open spec fn is_answered<C, S>(
    step: RunStep<S>,
    before: RouterView<C>,
    after: RouterView<C>,
    selected: ModelId,
    request: RequestView,
    response: Response<S>,
) -> bool {
    &&& step matches RunStep::Finished(result)
    &&& result is Ok ==> result->Ok_0.selected == selected && result->Ok_0.response == response
    &&& takes_response(
        before,
        after,
        request,
        response,
        match result {
            Ok(answer) => Ok(answer.tracker),
            Err(error) => Err(error),
        },
    )
}

proof fn lemma_finishing_answers<C, S>(
    step: RunStep<S>,
    before: RouterView<C>,
    after: RouterView<C>,
    selected: ModelId,
    request: RequestView,
    response: Response<S>,
)
    requires
        before.owners matches Some(owners) ==> owners.dom().finite(),
        finishes(step, before, after, selected, request, Ok(response)),
    ensures
        is_answered(step, before, after, selected, request, response),
{
    lemma_remembered_is_taken(
        before,
        after,
        request,
        response,
        match step->Finished_0 {
            Ok(answer) => Ok(answer.tracker),
            Err(error) => Err(error),
        },
    );
}

/// A run goes on from a candidate's reply to the next candidate exactly if there is one and the
/// reply is a failure worth routing around. It is else over: with that failure, or with that
/// response.
pub proof fn law_replies_move_the_run<C, S>(
    clients: &mut ClientRouter<C>,
    run: AnswerRun,
    reply: Result<Response<S>, LibsyError>,
    step: RunStep<S>,
)
    requires
        old(clients).wf(),
        run.wf(),
        call_ensures(run_replied::<C, S>, (clients, run, reply), step),
    ensures
        ({
            let goes_on = run@.index + 1 < run@.models.len() && reply is Err && is_passing(
                reply->Err_0,
            );
            &&& goes_on ==> {
                &&& final(clients)@ == old(clients)@
                &&& step matches RunStep::Call(next, call)
                &&& next@ == (AnswerRunView { index: (run@.index + 1) as nat, ..run@ })
                &&& asks(call, old(clients)@, run@.request, run@.models, run@.index as int + 1)
            }
            &&& !goes_on && reply is Err ==> final(clients)@ == old(clients)@ && step
                == RunStep::<S>::Finished(Err(reply->Err_0))
            &&& reply is Ok ==> is_answered(
                step,
                old(clients)@,
                final(clients)@,
                run@.selected,
                run@.request,
                reply->Ok_0,
            )
        }),
{
    old(clients).law_recorded_state_fits();
    if step is Call {
        lemma_completing_asks(
            step->Call_1,
            old(clients)@,
            run@.request,
            run@.models,
            (run@.index + 1) as nat,
        );
    }
    if let Ok(response) = reply {
        lemma_finishing_answers(
            step,
            old(clients)@,
            final(clients)@,
            run@.selected,
            run@.request,
            response,
        );
    }
}

/// A run goes on from routing: a failure, or an outcome without models, ends it; a response that
/// routing gave is its answer; else the first of the selected models is asked.
pub proof fn law_outcomes_move_the_run<C, S>(
    clients: &mut ClientRouter<C>,
    outcome: Result<RoutingOutcome<S>, LibsyError>,
    step: RunStep<S>,
)
    requires
        old(clients).wf(),
        call_ensures(run_routed::<C, S>, (clients, outcome), step),
    ensures
        outcome matches Err(error) ==> final(clients)@ == old(clients)@ && step
            == RunStep::<S>::Failed(error),
        outcome matches Ok(routed) ==> {
            &&& routed.selected_model_ids@.len() == 0 ==> final(clients)@ == old(clients)@ && step
                == RunStep::<S>::Failed(LibsyError::NoTargets)
            &&& routed.selected_model_ids@.len() > 0 && routed.response is Some ==> is_answered(
                step,
                old(clients)@,
                final(clients)@,
                routed.selected_model_ids@[0],
                routed.request@,
                routed.response->0,
            )
            &&& routed.selected_model_ids@.len() > 0 && routed.response is None ==> {
                &&& final(clients)@ == old(clients)@
                &&& step matches RunStep::Call(run, call)
                &&& run@.selected == routed.selected_model_ids@[0]
                &&& run@.request == routed.request@
                &&& run@.models == routed.selected_model_ids@
                &&& run@.index == 0
                &&& run.wf()
                &&& asks(call, old(clients)@, routed.request@, routed.selected_model_ids@, 0)
            }
        },
{
    old(clients).law_recorded_state_fits();
    if let Ok(routed) = outcome {
        if routed.selected_model_ids@.len() > 0 {
            if let Some(response) = routed.response {
                lemma_finishing_answers(
                    step,
                    old(clients)@,
                    final(clients)@,
                    routed.selected_model_ids@[0],
                    routed.request@,
                    response,
                );
            } else {
                lemma_completing_asks(
                    step->Call_1,
                    old(clients)@,
                    routed.request@,
                    routed.selected_model_ids@,
                    0,
                );
            }
        }
    }
}

/// The model that holds the state that a request with these fields continues: that of the
/// previous response if it names one, else that of the conversation.
pub open spec fn holder<C>(clients: RouterView<C>, fields: Map<Seq<char>, JsonView>) -> Option<
    Seq<char>,
> {
    let id = if holds_text(fields, "previous_response_id"@) {
        Some(text_at(fields, "previous_response_id"@))
    } else {
        named_conversation(fields)
    };
    if clients.owners is Some && id is Some && clients.owners->0.contains_key(id->0) {
        Some(clients.owners->0[id->0])
    } else {
        None
    }
}

/// A run starts with the model that holds the state that its request continues, and has no other
/// candidate. Any other request goes to the algorithm as it is.
pub proof fn law_runs_start_with_the_holder<C, S>(
    clients: &mut ClientRouter<C>,
    algorithm: &str,
    request: Request,
    step: RunStep<S>,
)
    requires
        old(clients).wf(),
        call_ensures(run_start::<C, S>, (clients, algorithm, request), step),
    ensures
        final(clients)@ == old(clients)@,
        holder(old(clients)@, request@.llm_request.extensions) is None ==> step == RunStep::<
            S,
        >::Drive(request),
        holder(old(clients)@, request@.llm_request.extensions) matches Some(model) ==> {
            &&& step matches RunStep::Call(run, call)
            &&& run@.models.len() == 1
            &&& run@.models[0]@ == model
            &&& run@.selected@ == model
            &&& run@.request == request@
            &&& run@.index == 0
            &&& asks(call, old(clients)@, request@, run@.models, 0)
        },
{
    if step is Call {
        let run = step->Call_0;
        assert(names(run@.models).len() == 1);
        assert(names(run@.models)[0] == run@.models[0]@);
        lemma_completing_asks(step->Call_1, old(clients)@, request@, run@.models, 0);
    }
}

/// A routing call goes to the first of its models, to be read to its end, prompted only if it may
/// give the answer. Without models there is no call.
pub proof fn law_routing_calls_go_to_the_first_model<C>(
    clients: ClientRouter<C>,
    models: &[ModelId],
    request: Request,
    call: Result<CandidateCall, LibsyError>,
)
    requires
        call_ensures(serve::<C>, (&clients, models, request), call),
    ensures
        models@.len() == 0 ==> call == Err::<CandidateCall, LibsyError>(LibsyError::NoTargets),
        models@.len() > 0 ==> {
            &&& call is Ok
            &&& call->Ok_0.index == 0
            &&& call->Ok_0.count == models@.len()
            &&& call->Ok_0.target == models@[0]
            &&& call->Ok_0.buffer
            &&& asked(
                call->Ok_0.request@,
                request@,
                models@[0]@,
                clients@.target_prompts,
                clients@.routing_answer_target == Some(models@[0]@),
            )
        },
{
    if models@.len() > 0 {
        lemma_prepared_is_asked(
            request@,
            models@[0]@,
            clients@.target_prompts,
            clients@.routing_answer_target == Some(models@[0]@),
        );
    }
}

/// A call is concluded under the model that was called: the response keeps its answer and its
/// headers and names the model, a failure names the model, and the call is observed as it went.
pub proof fn law_calls_are_concluded<S>(
    model: ModelId,
    reply: Result<Response<S>, LlmClientError>,
    duration: Duration,
    concluded: (Result<Response<S>, LibsyError>, LlmCallObservation),
)
    requires
        call_ensures(conclude_call::<S>, (&model, reply, duration), concluded),
    ensures
        reply matches Ok(response) ==> {
            &&& concluded.0 is Ok
            &&& concluded.0->Ok_0.llm_response == response.llm_response
            &&& concluded.0->Ok_0.upstream_headers == response.upstream_headers
            &&& concluded.0->Ok_0.served_model == Some(model)
        },
        reply matches Err(source) ==> concluded.0 == Err::<Response<S>, LibsyError>(
            LibsyError::ClientCall { model, source },
        ),
        concluded.1.selected_model == model,
        concluded.1.is_success <==> reply is Ok,
        concluded.1.duration == duration,
        reply is Ok && reply->Ok_0.llm_response is Agg ==> concluded.1.usage == Some(
            reply->Ok_0.llm_response->Agg_0.usage,
        ),
        !(reply is Ok && reply->Ok_0.llm_response is Agg) ==> concluded.1.usage is None,
{
}

/// Only a stream is read to its end, and only where that is asked for.
pub proof fn law_only_streams_are_buffered<S>(response: Response<S>, buffer: bool, needs: bool)
    requires
        call_ensures(needs_buffering::<S>, (&response, buffer), needs),
    ensures
        needs <==> buffer && response.llm_response is Stream,
{
}

/// Whether a piece of a stream stands for a failure.
pub open spec fn is_bad(chunk: LlmResponseChunk) -> bool {
    chunk is DecodeError || chunk is StreamError
}

/// Whether an item of a stream stands for no failure.
pub open spec fn is_clean(item: Result<LlmResponseStreamEvent, LlmClientError>) -> bool {
    item is Ok && forall|i: int|
        0 <= i < item->Ok_0.normalized@.len() ==> !is_bad(#[trigger] item->Ok_0.normalized@[i])
}

/// Whether `error` is what the item stands for: its own failure, or that of its first bad piece.
/// A piece that could not be decoded is a bad response, and a broken stream a bad gateway.
pub open spec fn stands_for(
    item: Result<LlmResponseStreamEvent, LlmClientError>,
    error: LlmClientError,
) -> bool {
    &&& item is Err ==> error == item->Err_0
    &&& item is Ok ==> forall|i: int|
        0 <= i < item->Ok_0.normalized@.len() && #[trigger] is_bad(item->Ok_0.normalized@[i]) && (
        forall|j: int| 0 <= j < i ==> !is_bad(#[trigger] item->Ok_0.normalized@[j])) ==> match item->Ok_0.normalized@[i] {
            LlmResponseChunk::DecodeError { message } => error
                == LlmClientError::ResponseTranslation(message),
            LlmResponseChunk::StreamError { message } => error == (LlmClientError::UpstreamHttp {
                status: 502,
                body: message,
            }),
            _ => false,
        }
}

proof fn lemma_first_bad_chunk(chunks: Seq<LlmResponseChunk>, index: int)
    requires
        0 <= index <= chunks.len(),
        forall|i: int| 0 <= i < index ==> !is_bad(#[trigger] chunks[i]),
    ensures
        index == chunks.len() ==> first_fault(chunks) is None,
        index < chunks.len() && is_bad(chunks[index]) ==> first_fault(chunks) == chunk_fault(
            chunks[index],
        ) && first_fault(chunks) is Some,
    decreases chunks.len(),
{
    if index > 0 {
        assert(forall|i: int| 0 <= i < index - 1 ==> chunks.drop_first()[i] == chunks[i + 1]);
        lemma_first_bad_chunk(chunks.drop_first(), index - 1);
    }
}

proof fn lemma_found_bad_chunk(chunks: Seq<LlmResponseChunk>) -> (index: int)
    requires
        first_fault(chunks) is Some,
    ensures
        0 <= index < chunks.len(),
        is_bad(chunks[index]),
        forall|i: int| 0 <= i < index ==> !is_bad(#[trigger] chunks[i]),
    decreases chunks.len(),
{
    if chunk_fault(chunks[0]) is Some {
        0
    } else {
        let index = lemma_found_bad_chunk(chunks.drop_first());
        assert(forall|i: int| 0 < i < index + 1 ==> chunks[i] == chunks.drop_first()[i - 1]);
        index + 1
    }
}

proof fn lemma_item_faults(item: Result<LlmResponseStreamEvent, LlmClientError>)
    ensures
        item_fault(item) is None <==> is_clean(item),
        item_fault(item) matches Some(error) ==> stands_for(item, error),
{
    if let Ok(event) = item {
        let chunks = event.normalized@;
        if is_clean(item) {
            lemma_first_bad_chunk(chunks, chunks.len() as int);
        } else {
            let bad = choose|i: int| 0 <= i < chunks.len() && is_bad(#[trigger] chunks[i]);
            if first_fault(chunks) is None {
                lemma_bad_chunk_is_a_fault(chunks, bad);
            }
        }
        if first_fault(chunks) is Some {
            let found = lemma_found_bad_chunk(chunks);
            lemma_first_bad_chunk(chunks, found);
            assert(!is_clean(item)) by {
                assert(is_bad(item->Ok_0.normalized@[found]));
            }
            assert forall|i: int|
                0 <= i < chunks.len() && #[trigger] is_bad(chunks[i]) && (forall|j: int|
                    0 <= j < i ==> !is_bad(#[trigger] chunks[j])) implies i == found by {
                if found < i {
                    assert(!is_bad(chunks[found]));
                }
            }
        }
    }
}

proof fn lemma_bad_chunk_is_a_fault(chunks: Seq<LlmResponseChunk>, bad: int)
    requires
        0 <= bad < chunks.len(),
        is_bad(chunks[bad]),
    ensures
        first_fault(chunks) is Some,
    decreases chunks.len(),
{
    if bad > 0 && chunk_fault(chunks[0]) is None {
        lemma_bad_chunk_is_a_fault(chunks.drop_first(), bad - 1);
    }
}

/// A stream is read to its end exactly if every item is clean, and its events are then kept as
/// they came. Else the first item that is not clean is what the stream fails with.
pub proof fn law_streams_are_kept_or_fail(
    items: Vec<Result<LlmResponseStreamEvent, LlmClientError>>,
    events: Result<Vec<LlmResponseStreamEvent>, LlmClientError>,
    index: int,
)
    requires
        call_ensures(buffer_routing_stream, (items,), events),
        0 <= index <= items@.len(),
        forall|i: int| 0 <= i < index ==> is_clean(#[trigger] items@[i]),
    ensures
        index == items@.len() ==> {
            &&& events is Ok
            &&& events->Ok_0@.len() == items@.len()
            &&& forall|i: int|
                0 <= i < items@.len() ==> #[trigger] events->Ok_0@[i] == items@[i]->Ok_0
        },
        index < items@.len() && !is_clean(items@[index]) ==> events is Err && stands_for(
            items@[index],
            events->Err_0,
        ),
{
    let all = items@;
    assert forall|i: int| 0 <= i < index implies item_fault(#[trigger] all[i]) is None by {
        lemma_item_faults(all[i]);
    }
    if index == all.len() {
        law_clean_streams_are_kept(all);
    } else if !is_clean(all[index]) {
        let read = all.take(index + 1);
        let clean = all.take(index);
        assert(read.drop_last() =~= clean);
        assert(forall|i: int| 0 <= i < clean.len() ==> clean[i] == all[i]);
        law_clean_streams_are_kept(clean);
        lemma_item_faults(all[index]);
        assert(buffered(read) is Err);
        law_first_fault_is_final(all, index + 1);
    }
}

/// A clean item is kept after those before it; any other one fails and is not kept.
pub proof fn law_items_are_kept_or_fail(
    buffer: &mut RoutingBuffer,
    item: Result<LlmResponseStreamEvent, LlmClientError>,
    accepted: Result<(), LlmClientError>,
)
    requires
        call_ensures(RoutingBuffer::accept, (buffer, item), accepted),
    ensures
        is_clean(item) ==> {
            &&& accepted is Ok
            &&& final(buffer)@.len() == old(buffer)@.len() + 1
            &&& final(buffer)@.drop_last() == old(buffer)@
            &&& final(buffer)@.last() == item->Ok_0
        },
        !is_clean(item) ==> accepted is Err && stands_for(item, accepted->Err_0) && final(buffer)@
            == old(buffer)@,
{
    lemma_item_faults(item);
    if is_clean(item) {
        assert(old(buffer)@.push(item->Ok_0).drop_last() =~= old(buffer)@);
    }
}

/// A buffer holds nothing at first, and gives back what it holds.
pub proof fn law_buffers_give_back_their_events(
    fresh: RoutingBuffer,
    buffer: RoutingBuffer,
    events: Vec<LlmResponseStreamEvent>,
)
    requires
        call_ensures(RoutingBuffer::new, (), fresh),
        call_ensures(RoutingBuffer::into_events, (buffer,), events),
    ensures
        fresh@.len() == 0,
        events@ == buffer@,
{
}

/// Each routing call is reported once, in call order. It is reported as the answer exactly if it
/// is the first call of the model that answered.
pub proof fn law_routing_calls_are_reported_once(
    observations: Vec<LlmCallObservation>,
    answered: Option<&ModelId>,
    emitted: Vec<RunObservation>,
)
    requires
        call_ensures(emit_routing_observations, (observations, answered), emitted),
    ensures
        emitted@.len() == observations@.len(),
        forall|i: int|
            0 <= i < observations@.len() ==> {
                let answers = answered is Some && observations@[i].selected_model@ == answered->0@
                    && (forall|j: int|
                    0 <= j < i ==> (#[trigger] observations@[j]).selected_model@ != answered->0@);
                &&& answers ==> (#[trigger] emitted@[i]) == RunObservation::AnswerCall(
                    observations@[i],
                )
                &&& !answers ==> emitted@[i] == RunObservation::LlmCall(observations@[i])
            },
{
}

/// The answering model is the one that served the response that routing gave.
pub proof fn law_answering_models_served_the_response<S>(
    outcome: Result<RoutingOutcome<S>, LibsyError>,
    model: Option<&ModelId>,
)
    requires
        call_ensures(answered_model::<S>, (&outcome,), model),
    ensures
        outcome is Ok && outcome->Ok_0.response is Some
            && outcome->Ok_0.response->0.served_model is Some ==> model is Some && Some(*model->0)
            == outcome->Ok_0.response->0.served_model,
        !(outcome is Ok && outcome->Ok_0.response is Some
            && outcome->Ok_0.response->0.served_model is Some) ==> model is None,
{
}

/// A candidate's call is reported as an answer call, and the overhead exactly once a run is over
/// after routing succeeded.
pub proof fn law_runs_are_reported<S>(
    observation: LlmCallObservation,
    answer: RunObservation,
    step: RunStep<S>,
    overhead: Duration,
    closing: Option<RunObservation>,
)
    requires
        call_ensures(answer_observation, (observation,), answer),
        call_ensures(closing_observation::<S>, (&step, overhead), closing),
    ensures
        answer == RunObservation::AnswerCall(observation),
        step is Finished ==> closing == Some(RunObservation::RoutingOverhead(overhead)),
        step is Drive || step is Call || step is Failed ==> closing is None,
{
}

/// Whether details say that stored state decided, and which field referred to it.
pub open spec fn tells_stored_state(details: JsonView, trigger: Seq<char>) -> bool {
    &&& details is Object
    &&& forall|key: Seq<char>| #[trigger]
        details->Object_0.contains_key(key) <==> key == "source"@ || key == "trigger"@
    &&& details->Object_0["source"@] == JsonView::Text("stored_state"@)
    &&& details->Object_0["trigger"@] == JsonView::Text(trigger)
}

proof fn lemma_details_tell(trigger: Seq<char>)
    ensures
        tells_stored_state(stored_state_details(trigger), trigger),
{
    reveal_strlit("source");
    reveal_strlit("trigger");
    assert("source"@.len() == 6 && "trigger"@.len() == 7);
}

/// A continuation is routed to its owner alone, unanswered, and says why.
pub proof fn law_continuations_say_why<S>(
    owner: StateOwner,
    algorithm: &str,
    request: Request,
    outcome: RoutingOutcome<S>,
)
    requires
        call_ensures(continue_on::<S>, (owner, algorithm, request), outcome),
    ensures
        outcome.selected_model_ids@.len() == 1,
        outcome.selected_model_ids@[0]@ == owner.model@,
        outcome.request == request,
        outcome.response is None,
        outcome.metadata is Some,
        outcome.metadata->0.algorithm@ == algorithm@,
        outcome.metadata->0.details is Some,
        tells_stored_state(json_view(outcome.metadata->0.details->0), owner.trigger@),
{
    assert(names(outcome.selected_model_ids@).len() == 1);
    assert(names(outcome.selected_model_ids@)[0] == outcome.selected_model_ids@[0]@);
    lemma_details_tell(owner.trigger@);
}

/// A decision keeps the models and the metadata of its outcome, and prepares the request for the
/// first model only. The state behind a response that routing gave is taken, and the response is
/// kept. A failure, and an outcome without models, decide nothing.
pub proof fn law_outcomes_are_decided<C, S>(
    clients: &mut ClientRouter<C>,
    outcome: Result<RoutingOutcome<S>, LibsyError>,
    decision: Result<Decision<S>, LibsyError>,
)
    requires
        old(clients).wf(),
        call_ensures(decide_routed::<C, S>, (clients, outcome), decision),
    ensures
        outcome matches Err(error) ==> final(clients)@ == old(clients)@ && decision == Err::<
            Decision<S>,
            LibsyError,
        >(error),
        outcome matches Ok(routed) ==> {
            &&& routed.selected_model_ids@.len() == 0 ==> final(clients)@ == old(clients)@
                && decision == Err::<Decision<S>, LibsyError>(LibsyError::NoTargets)
            &&& routed.selected_model_ids@.len() > 0 ==> {
                &&& decision is Ok ==> {
                    &&& decision->Ok_0.outcome.selected_model_ids == routed.selected_model_ids
                    &&& decision->Ok_0.outcome.metadata == routed.metadata
                    &&& decision->Ok_0.outcome.response == routed.response
                    &&& asked(
                        decision->Ok_0.outcome.request@,
                        routed.request@,
                        routed.selected_model_ids@[0]@,
                        old(clients)@.target_prompts,
                        true,
                    )
                }
                &&& routed.response is None ==> final(clients)@ == old(clients)@ && decision is Ok
                    && decision->Ok_0.tracker is None
                &&& routed.response matches Some(response) ==> takes_response(
                    old(clients)@,
                    final(clients)@,
                    routed.request@,
                    response,
                    match decision {
                        Ok(decided) => Ok(decided.tracker),
                        Err(error) => Err(error),
                    },
                )
            }
        },
{
    old(clients).law_recorded_state_fits();
    if let Ok(routed) = outcome {
        if routed.selected_model_ids@.len() > 0 {
            let selected = routed.selected_model_ids@[0]@;
            let prepared = routed.request@.prepared(selected, old(clients)@.prompt_of(selected));
            lemma_prepared_is_asked(routed.request@, selected, old(clients)@.target_prompts, true);
            if let Some(response) = routed.response {
                lemma_remembered_is_taken(
                    old(clients)@,
                    final(clients)@,
                    prepared,
                    response,
                    match decision {
                        Ok(decided) => Ok(decided.tracker),
                        Err(error) => Err(error),
                    },
                );
            }
        }
    }
}

/// A request that continues known state is decided at once, for the model that holds the state
/// and no other, and says why. Any other request goes to the algorithm as it is.
pub proof fn law_decisions_start_with_the_holder<C, S>(
    clients: &mut ClientRouter<C>,
    algorithm: &str,
    request: Request,
    step: DecideStep<S>,
)
    requires
        old(clients).wf(),
        call_ensures(decide_start::<C, S>, (clients, algorithm, request), step),
    ensures
        final(clients)@ == old(clients)@,
        holder(old(clients)@, request@.llm_request.extensions) is None ==> step == DecideStep::<
            S,
        >::Drive(request),
        holder(old(clients)@, request@.llm_request.extensions) matches Some(model) ==> {
            &&& step matches DecideStep::Decided(Ok(decided))
            &&& decided.outcome.selected_model_ids@.len() == 1
            &&& decided.outcome.selected_model_ids@[0]@ == model
            &&& asked(
                decided.outcome.request@,
                request@,
                model,
                old(clients)@.target_prompts,
                true,
            )
            &&& decided.outcome.response is None
            &&& decided.tracker is None
            &&& decided.outcome.metadata is Some
            &&& decided.outcome.metadata->0.algorithm@ == algorithm@
            &&& decided.outcome.metadata->0.details is Some
            &&& tells_stored_state(
                json_view(decided.outcome.metadata->0.details->0),
                if holds_text(request@.llm_request.extensions, "previous_response_id"@) {
                    "previous_response_id"@
                } else {
                    "conversation"@
                },
            )
        },
{
    lemma_details_tell("previous_response_id"@);
    lemma_details_tell("conversation"@);
    if let Some(model) = holder(old(clients)@, request@.llm_request.extensions) {
        let decided = step->Decided_0->Ok_0;
        assert(names(decided.outcome.selected_model_ids@).len() == 1);
        assert(names(decided.outcome.selected_model_ids@)[0]
            == decided.outcome.selected_model_ids@[0]@);
        lemma_prepared_is_asked(request@, model, old(clients)@.target_prompts, true);
    }
}

} // verus!
