//! Laws of JSON fields and of the data that requests and responses carry.

use serde_json::Value;
use vstd::prelude::*;

use crate::json::{json_fields, json_view, object_field, text_field, truth_field, JsonView};
use crate::protocol::{
    prepare_request_for_target, preserved_of, AggLlmResponse, LibsyError, LlmClientError,
    LlmRequest, LlmResponse, Metadata, ModelId, Preserved, Request, Response, RoutingOutcome, Usage,
    WireFormat,
};

verus! {

/// Whether an object has a field with this value.
pub open spec fn holds(fields: Map<Seq<char>, JsonView>, key: Seq<char>, value: JsonView) -> bool {
    fields.contains_key(key) && fields[key] == value
}

/// Whether an object has a field with a text.
pub open spec fn holds_text(fields: Map<Seq<char>, JsonView>, key: Seq<char>) -> bool {
    fields.contains_key(key) && fields[key] is Text
}

/// The text of a field that has one.
pub open spec fn text_at(fields: Map<Seq<char>, JsonView>, key: Seq<char>) -> Seq<char> {
    fields[key]->Text_0
}

/// A field is read as a text exactly if it is there and holds a string.
pub proof fn law_text_fields(
    object: serde_json::Map<String, Value>,
    key: &str,
    text: Option<&str>,
)
    requires
        call_ensures(text_field, (&object, key), text),
    ensures
        text is Some <==> holds_text(json_fields(object), key@),
        text matches Some(held) ==> held@ == text_at(json_fields(object), key@),
{
}

/// A field is read as a truth value exactly if it is there and holds a boolean.
pub proof fn law_truth_fields(
    object: serde_json::Map<String, Value>,
    key: &str,
    truth: Option<bool>,
)
    requires
        call_ensures(truth_field, (&object, key), truth),
    ensures
        holds(json_fields(object), key@, JsonView::Bool(true)) <==> truth == Some(true),
        holds(json_fields(object), key@, JsonView::Bool(false)) <==> truth == Some(false),
{
}

/// A field is read as an object exactly if it is there and holds one.
pub proof fn law_object_fields(
    object: serde_json::Map<String, Value>,
    key: &str,
    held: Option<&serde_json::Map<String, Value>>,
)
    requires
        call_ensures(object_field, (&object, key), held),
    ensures
        held is Some ==> holds(
            json_fields(object),
            key@,
            JsonView::Object(json_fields(*held->0)),
        ),
        held is None ==> !(json_fields(object).contains_key(key@) && json_fields(
            object,
        )[key@] is Object),
{
}

/// The view of a request shows each of its fields.
pub proof fn law_requests_are_seen_whole(request: Request)
    ensures
        request@.llm_request.model == request.llm_request.model.deep_view(),
        request@.llm_request.instructions.len() == request.llm_request.instructions@.len(),
        forall|i: int|
            0 <= i < request.llm_request.instructions@.len() ==> (
            #[trigger] request@.llm_request.instructions[i])
                == request.llm_request.instructions@[i]@,
        request@.llm_request.messages.len() == request.llm_request.messages@.len(),
        forall|i: int|
            0 <= i < request.llm_request.messages@.len() ==> (
            #[trigger] request@.llm_request.messages[i]) == json_view(
                request.llm_request.messages@[i],
            ),
        request@.llm_request.stream == request.llm_request.stream,
        request@.llm_request.extensions == json_fields(request.llm_request.extensions),
        request.raw_request is Some <==> request@.raw_request is Some,
        request.raw_request matches Some(raw) ==> request@.raw_request == Some(json_view(raw)),
        request.metadata is Some <==> request@.metadata is Some,
        request.metadata matches Some(held) ==> {
            &&& request@.metadata->0.session_id == held.session_id.deep_view()
            &&& request@.metadata->0.agent_id == held.agent_id.deep_view()
            &&& request@.metadata->0.is_subagent == held.is_subagent
            &&& request@.metadata->0.is_delegated_work == held.is_delegated_work
        },
{
}

/// A copy of a request is the same request.
pub proof fn law_copied_requests_are_the_same(request: Request, copy: Request)
    requires
        call_ensures(<Request as Clone>::clone, (&request,), copy),
    ensures
        copy@ == request@,
{
}

/// Metadata speaks of sub-agent work exactly if both of its flags are set.
pub proof fn law_subagent_work_needs_both_flags(metadata: Metadata, is: bool)
    requires
        call_ensures(Metadata::is_subagent_work, (&metadata,), is),
    ensures
        is <==> metadata.is_subagent && metadata.is_delegated_work,
{
}

/// Preparing a request addresses it to its target and adds the given prompt as the last
/// instruction. Nothing else of it changes.
pub proof fn law_preparing_addresses_and_prompts(
    request: &mut LlmRequest,
    target: ModelId,
    prompt: Option<&str>,
)
    requires
        call_ensures(prepare_request_for_target, (request, &target, prompt), ()),
    ensures
        final(request)@.model == Some(target@),
        prompt is None ==> final(request)@.instructions == old(request)@.instructions,
        prompt matches Some(text) ==> {
            &&& final(request)@.instructions.len() == old(request)@.instructions.len() + 1
            &&& final(request)@.instructions.drop_last() == old(request)@.instructions
            &&& final(request)@.instructions.last() == text@
        },
        final(request)@.messages == old(request)@.messages,
        final(request)@.stream == old(request)@.stream,
        final(request)@.extensions == old(request)@.extensions,
{
    if let Some(text) = prompt {
        assert(old(request)@.instructions.push(text@).drop_last() =~= old(request)@.instructions);
    }
}

/// What is kept for a format is the first JSON of that format; without one nothing is found.
pub proof fn law_first_kept_form_is_found(
    answer: AggLlmResponse,
    format: WireFormat,
    index: int,
    raw: Option<&Value>,
)
    requires
        call_ensures(AggLlmResponse::preserved, (&answer, format), raw),
        0 <= index <= answer.preservation@.len(),
        forall|i: int| 0 <= i < index ==> (#[trigger] answer.preservation@[i]).source != format,
    ensures
        index == answer.preservation@.len() ==> raw is None,
        index < answer.preservation@.len() && answer.preservation@[index].source == format ==> raw
            is Some && *raw->0 == answer.preservation@[index].raw,
{
    lemma_first_kept(answer.preservation@, format, index);
}

/// What comes before the first JSON of a format does not count.
pub proof fn lemma_first_kept(
    kept: Seq<Preserved>,
    format: WireFormat,
    index: int,
)
    requires
        0 <= index <= kept.len(),
        forall|i: int| 0 <= i < index ==> (#[trigger] kept[i]).source != format,
    ensures
        index == kept.len() ==> preserved_of(kept, format) is None,
        index < kept.len() && kept[index].source == format ==> preserved_of(
            kept,
            format,
        ) == Some(kept[index].raw),
    decreases kept.len(),
{
    if index > 0 {
        assert(forall|i: int| 0 <= i < index - 1 ==> kept.drop_first()[i] == kept[i + 1]);
        lemma_first_kept(kept.drop_first(), format, index - 1);
    }
}

/// The tokens of a complete answer are its own; a stream has none to tell yet.
pub proof fn law_complete_answers_tell_their_usage<S>(response: Response<S>, usage: Option<Usage>)
    requires
        call_ensures(Response::<S>::usage, (&response,), usage),
    ensures
        response.llm_response matches LlmResponse::Agg(answer) ==> usage == Some(answer.usage),
        response.llm_response is Stream ==> usage is None,
{
}

/// An outcome sends its request to the selected model first, then to the fallbacks in order.
pub proof fn law_outcomes_keep_their_order<S>(
    selected: ModelId,
    fallbacks: Vec<ModelId>,
    request: Request,
    outcome: RoutingOutcome<S>,
)
    requires
        call_ensures(RoutingOutcome::<S>::route_to, (selected, fallbacks, request), outcome),
    ensures
        outcome.selected_model_ids@.len() == fallbacks@.len() + 1,
        outcome.selected_model_ids@[0] == selected,
        forall|i: int|
            0 <= i < fallbacks@.len() ==> outcome.selected_model_ids@[i + 1] == #[trigger]
                fallbacks@[i],
        outcome.request == request,
        outcome.response is None,
{
}

/// An outcome that routing answered holds the selected model alone, with the response.
pub proof fn law_answered_outcomes_hold_the_response<S>(
    selected: ModelId,
    request: Request,
    response: Response<S>,
    outcome: RoutingOutcome<S>,
)
    requires
        call_ensures(RoutingOutcome::<S>::answered, (selected, request, response), outcome),
    ensures
        outcome.selected_model_ids@.len() == 1,
        outcome.selected_model_ids@[0] == selected,
        outcome.request == request,
        outcome.response == Some(response),
{
}

/// The selected model of an outcome is its first; an outcome without models has none.
pub proof fn law_the_first_model_is_selected<S>(
    outcome: RoutingOutcome<S>,
    selected: Result<&ModelId, LibsyError>,
)
    requires
        call_ensures(RoutingOutcome::<S>::selected_model_id, (&outcome,), selected),
    ensures
        outcome.selected_model_ids@.len() > 0 ==> selected is Ok && *selected->Ok_0
            == outcome.selected_model_ids@[0],
        outcome.selected_model_ids@.len() == 0 ==> selected is Err && selected->Err_0
            == LibsyError::NoTargets,
{
}

/// The failure of a call keeps the model and the cause.
pub proof fn law_failed_calls_keep_their_cause(
    model: ModelId,
    source: LlmClientError,
    error: LibsyError,
)
    requires
        call_ensures(LibsyError::client_call, (model, source), error),
    ensures
        error is ClientCall,
        error->ClientCall_model == model,
        error->ClientCall_source == source,
{
}

/// A response names the model that served it.
pub proof fn law_responses_name_their_model<S>(response: Response<S>, model: Option<&ModelId>)
    requires
        call_ensures(Response::<S>::served_model, (&response,), model),
    ensures
        model is Some <==> response.served_model is Some,
        model matches Some(held) ==> Some(*held) == response.served_model,
{
}

/// Models are equal exactly if their names are, and a model is named as it was made.
pub proof fn law_models_are_known_by_name(
    name: String,
    model: ModelId,
    text: &str,
    other: ModelId,
    same: bool,
)
    requires
        call_ensures(ModelId::new, (name,), model),
        call_ensures(ModelId::as_str, (&model,), text),
        call_ensures(<ModelId as PartialEq>::eq, (&model, &other), same),
    ensures
        text@ == name@,
        same <==> name@ == other@,
{
}

} // verus!
