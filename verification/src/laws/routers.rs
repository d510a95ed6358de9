//! Laws of client routers.

use serde_json::Value;
use vstd::prelude::*;

use crate::client_router::{
    conversation_id, entries_of, event_body, missing_client, prompts_of, reported_state,
    spans_providers, tracker_for, Client, ClientRouter, RouterView, RoutingView, StateOwner,
    StateTracker,
};
use crate::json::{json_fields, json_view, JsonView};
use crate::laws::fields::{holds, holds_text, lemma_first_kept, text_at};
use crate::laws::owners::{lemma_settled_recordings, recorded_for};
use crate::protocol::{
    names, LibsyError, LlmClientError, LlmResponseStreamEvent, ModelId, Preserved, Request,
    RequestView, Response, WireFormat,
};
use crate::state_owners::settled;
use crate::text::quoted_text;

verus! {

/// Whether entry `index` is the last one for `name`.
pub open spec fn is_last<T>(entries: Seq<(ModelId, T)>, index: int, name: Seq<char>) -> bool {
    &&& 0 <= index < entries.len()
    &&& entries[index].0@ == name
    &&& forall|later: int|
        index < later < entries.len() ==> (#[trigger] entries[later]).0@ != name
}

/// Whether no entry is for `name`.
pub open spec fn has_none<T>(entries: Seq<(ModelId, T)>, name: Seq<char>) -> bool {
    forall|i: int| 0 <= i < entries.len() ==> (#[trigger] entries[i]).0@ != name
}

/// The last entry for a name is the one that counts.
pub proof fn lemma_last_entry<T>(entries: Seq<(ModelId, T)>, index: int, name: Seq<char>)
    ensures
        is_last(entries, index, name) ==> entries_of(entries).contains_key(name) && entries_of(
            entries,
        )[name] == entries[index].1,
        has_none(entries, name) ==> !entries_of(entries).contains_key(name),
    decreases entries.len(),
{
    if entries.len() > 0 {
        let front = entries.drop_last();
        assert(forall|i: int| 0 <= i < front.len() ==> front[i] == entries[i]);
        lemma_last_entry(front, index, name);
        if is_last(entries, index, name) && index < front.len() {
            assert(is_last(front, index, name));
            assert(entries[entries.len() - 1].0@ != name);
        }
        if has_none(entries, name) {
            assert(has_none(front, name));
            assert(entries[entries.len() - 1].0@ != name);
        }
    }
}

/// An entry that is there makes its name known, with the last one for it.
proof fn lemma_known_entry<T>(entries: Seq<(ModelId, T)>, name: Seq<char>) -> (index: int)
    requires
        entries_of(entries).contains_key(name),
    ensures
        is_last(entries, index, name),
    decreases entries.len(),
{
    if entries.last().0@ == name {
        entries.len() - 1
    } else {
        let front = entries.drop_last();
        let index = lemma_known_entry(front, name);
        assert(forall|i: int| 0 <= i < front.len() ==> front[i] == entries[i]);
        index
    }
}

/// Whether a router serves each model by the last client given for it, and no other model.
pub open spec fn serves<C>(router: RouterView<C>, by_model: Seq<(ModelId, Client<C>)>) -> bool {
    &&& router.routing is ByModel
    &&& forall|index: int, name: Seq<char>| #[trigger]
        is_last(by_model, index, name) ==> router.routing->ByModel_0.contains_key(name)
            && router.routing->ByModel_0[name] == by_model[index].1
    &&& forall|name: Seq<char>| #[trigger]
        has_none(by_model, name) ==> !router.routing->ByModel_0.contains_key(name)
}

/// Whether a router prompts each model with the last prompt given for it, and no other model.
pub open spec fn prompts<C>(router: RouterView<C>, target_prompts: Seq<(ModelId, String)>) -> bool {
    &&& forall|index: int, name: Seq<char>| #[trigger]
        is_last(target_prompts, index, name) ==> router.target_prompts.contains_key(name)
            && router.target_prompts[name] == target_prompts[index].1@
    &&& forall|name: Seq<char>| #[trigger]
        has_none(target_prompts, name) ==> !router.target_prompts.contains_key(name)
}

proof fn lemma_entries_serve<C>(router: RouterView<C>, by_model: Seq<(ModelId, Client<C>)>)
    requires
        router.routing == RoutingView::ByModel(entries_of(by_model)),
    ensures
        serves(router, by_model),
{
    assert forall|index: int, name: Seq<char>| #[trigger]
        is_last(by_model, index, name) implies router.routing->ByModel_0.contains_key(name)
        && router.routing->ByModel_0[name] == by_model[index].1 by {
        lemma_last_entry(by_model, index, name);
    }
    assert forall|name: Seq<char>| #[trigger] has_none(by_model, name) implies !router.routing->ByModel_0.contains_key(
        name,
    ) by {
        lemma_last_entry(by_model, 0, name);
    }
}

proof fn lemma_entries_prompt<C>(router: RouterView<C>, target_prompts: Seq<(ModelId, String)>)
    requires
        router.target_prompts == prompts_of(target_prompts),
    ensures
        prompts(router, target_prompts),
{
    assert forall|index: int, name: Seq<char>| #[trigger]
        is_last(target_prompts, index, name) implies router.target_prompts.contains_key(name)
        && router.target_prompts[name] == target_prompts[index].1@ by {
        lemma_last_entry(target_prompts, index, name);
    }
    assert forall|name: Seq<char>| #[trigger]
        has_none(target_prompts, name) implies !router.target_prompts.contains_key(name) by {
        lemma_last_entry(target_prompts, 0, name);
    }
}

/// A router built over clients, prompts and completion targets serves and prompts each model by
/// what was given last for it, and knows which routing call may answer.
pub proof fn law_routers_hold_what_they_are_given<C>(
    by_model: Vec<(ModelId, Client<C>)>,
    target_prompts: Vec<(ModelId, String)>,
    routing_answer_target: Option<ModelId>,
    completion_targets: &[ModelId],
    router: ClientRouter<C>,
)
    requires
        call_ensures(
            ClientRouter::<C>::new_with_completion_targets,
            (by_model, target_prompts, routing_answer_target, completion_targets),
            router,
        ),
    ensures
        serves(router@, by_model@),
        prompts(router@, target_prompts@),
        routing_answer_target is None <==> router@.routing_answer_target is None,
        routing_answer_target matches Some(model) ==> router@.routing_answer_target == Some(model@),
{
    lemma_entries_serve(router@, by_model@);
    lemma_entries_prompt(router@, target_prompts@);
}

/// State is tracked, and none is recorded yet, exactly if two completion targets have different
/// clients.
pub proof fn law_tracking_needs_two_clients<C>(
    by_model: Vec<(ModelId, Client<C>)>,
    target_prompts: Vec<(ModelId, String)>,
    routing_answer_target: Option<ModelId>,
    completion_targets: &[ModelId],
    router: ClientRouter<C>,
)
    requires
        call_ensures(
            ClientRouter::<C>::new_with_completion_targets,
            (by_model, target_prompts, routing_answer_target, completion_targets),
            router,
        ),
    ensures
        router@.owners matches Some(owners) ==> owners == Map::<Seq<char>, Seq<char>>::empty(),
        router@.owners is Some <==> exists|a: int, b: int, i: int, j: int|
            {
                &&& 0 <= a < completion_targets@.len()
                &&& 0 <= b < completion_targets@.len()
                &&& #[trigger] is_last(by_model@, i, completion_targets@[a]@)
                &&& #[trigger] is_last(by_model@, j, completion_targets@[b]@)
                &&& by_model@[i].1.identity != by_model@[j].1.identity
            },
{
    let map = entries_of(by_model@);
    let targets = names(completion_targets@).to_set();
    if router@.owners is Some {
        let (x, y) = choose|x: Seq<char>, y: Seq<char>|
            #![trigger map.contains_key(x), map.contains_key(y)]
            targets.contains(x) && targets.contains(y) && map.contains_key(x) && map.contains_key(y)
                && map[x].identity != map[y].identity;
        let i = lemma_known_entry(by_model@, x);
        let j = lemma_known_entry(by_model@, y);
        lemma_last_entry(by_model@, i, x);
        lemma_last_entry(by_model@, j, y);
        let a = choose|a: int| 0 <= a < completion_targets@.len() && names(completion_targets@)[a] == x;
        let b = choose|b: int| 0 <= b < completion_targets@.len() && names(completion_targets@)[b] == y;
        assert(completion_targets@[a]@ == x && completion_targets@[b]@ == y);
        assert(is_last(by_model@, i, completion_targets@[a]@));
        assert(is_last(by_model@, j, completion_targets@[b]@));
    }
    if exists|a: int, b: int, i: int, j: int|
        {
            &&& 0 <= a < completion_targets@.len()
            &&& 0 <= b < completion_targets@.len()
            &&& #[trigger] is_last(by_model@, i, completion_targets@[a]@)
            &&& #[trigger] is_last(by_model@, j, completion_targets@[b]@)
            &&& by_model@[i].1.identity != by_model@[j].1.identity
        } {
        let (a, b, i, j) = choose|a: int, b: int, i: int, j: int|
            {
                &&& 0 <= a < completion_targets@.len()
                &&& 0 <= b < completion_targets@.len()
                &&& #[trigger] is_last(by_model@, i, completion_targets@[a]@)
                &&& #[trigger] is_last(by_model@, j, completion_targets@[b]@)
                &&& by_model@[i].1.identity != by_model@[j].1.identity
            };
        let (x, y) = (completion_targets@[a]@, completion_targets@[b]@);
        lemma_last_entry(by_model@, i, x);
        lemma_last_entry(by_model@, j, y);
        assert(names(completion_targets@)[a] == x);
        assert(names(completion_targets@)[b] == y);
        assert(targets.contains(x) && targets.contains(y));
        assert(map.contains_key(x) && map.contains_key(y));
    }
}

/// A router built without completion targets serves and prompts in the same way, and tracks state
/// exactly if two of its models have different clients.
pub proof fn law_every_model_may_answer<C>(
    by_model: Vec<(ModelId, Client<C>)>,
    target_prompts: Vec<(ModelId, String)>,
    routing_answer_target: Option<ModelId>,
    router: ClientRouter<C>,
)
    requires
        call_ensures(
            ClientRouter::<C>::new_with_target_prompts,
            (by_model, target_prompts, routing_answer_target),
            router,
        ),
    ensures
        serves(router@, by_model@),
        prompts(router@, target_prompts@),
        routing_answer_target is None <==> router@.routing_answer_target is None,
        routing_answer_target matches Some(model) ==> router@.routing_answer_target == Some(model@),
        router@.owners matches Some(owners) ==> owners == Map::<Seq<char>, Seq<char>>::empty(),
        router@.owners is Some <==> clients_differ(by_model@),
{
    lemma_entries_serve(router@, by_model@);
    lemma_entries_prompt(router@, target_prompts@);
    lemma_clients_differ(router@, by_model@);
}

/// A router built without prompts has none, and is else built in the same way.
pub proof fn law_plain_routers_have_no_prompts<C>(
    by_model: Vec<(ModelId, Client<C>)>,
    router: ClientRouter<C>,
)
    requires
        call_ensures(ClientRouter::<C>::new, (by_model,), router),
    ensures
        serves(router@, by_model@),
        forall|name: Seq<char>| !(#[trigger] router@.target_prompts.contains_key(name)),
        router@.routing_answer_target is None,
        router@.owners matches Some(owners) ==> owners == Map::<Seq<char>, Seq<char>>::empty(),
        router@.owners is Some <==> clients_differ(by_model@),
{
    lemma_entries_serve(router@, by_model@);
    lemma_clients_differ(router@, by_model@);
}

/// Whether two models have different clients, by the last one given for each.
pub open spec fn clients_differ<C>(by_model: Seq<(ModelId, Client<C>)>) -> bool {
    exists|i: int, j: int|
        {
            &&& 0 <= i < by_model.len()
            &&& 0 <= j < by_model.len()
            &&& #[trigger] is_last(by_model, i, by_model[i].0@)
            &&& #[trigger] is_last(by_model, j, by_model[j].0@)
            &&& by_model[i].1.identity != by_model[j].1.identity
        }
}

proof fn lemma_clients_differ<C>(router: RouterView<C>, by_model: Seq<(ModelId, Client<C>)>)
    requires
        router.owners is Some <==> spans_providers(
            entries_of(by_model),
            entries_of(by_model).dom(),
        ),
    ensures
        router.owners is Some <==> clients_differ(by_model),
{
    let map = entries_of(by_model);
    if router.owners is Some {
        let (x, y) = choose|x: Seq<char>, y: Seq<char>|
            #![trigger map.contains_key(x), map.contains_key(y)]
            map.dom().contains(x) && map.dom().contains(y) && map.contains_key(x)
                && map.contains_key(y) && map[x].identity != map[y].identity;
        let i = lemma_known_entry(by_model, x);
        let j = lemma_known_entry(by_model, y);
        lemma_last_entry(by_model, i, x);
        lemma_last_entry(by_model, j, y);
        assert(is_last(by_model, i, by_model[i].0@));
        assert(is_last(by_model, j, by_model[j].0@));
    }
    if clients_differ(by_model) {
        let (i, j) = choose|i: int, j: int|
            {
                &&& 0 <= i < by_model.len()
                &&& 0 <= j < by_model.len()
                &&& #[trigger] is_last(by_model, i, by_model[i].0@)
                &&& #[trigger] is_last(by_model, j, by_model[j].0@)
                &&& by_model[i].1.identity != by_model[j].1.identity
            };
        lemma_last_entry(by_model, i, by_model[i].0@);
        lemma_last_entry(by_model, j, by_model[j].0@);
        assert(map.contains_key(by_model[i].0@) && map.contains_key(by_model[j].0@));
    }
}

/// A single client serves every model, without prompts and without tracking state.
pub proof fn law_a_single_client_serves_all<C>(
    client: C,
    router: ClientRouter<C>,
    model: ModelId,
    served: Result<&C, LlmClientError>,
)
    requires
        call_ensures(ClientRouter::<C>::single, (client,), router),
        call_ensures(ClientRouter::<C>::route, (&router, &model), served),
    ensures
        served is Ok,
        *served->Ok_0 == client,
        forall|name: Seq<char>| !(#[trigger] router@.target_prompts.contains_key(name)),
        router@.routing_answer_target is None,
        router@.owners is None,
{
}

/// A model is routed to its own client. A model without one is an error that names it.
pub proof fn law_models_are_routed_to_their_clients<C>(
    router: ClientRouter<C>,
    model: ModelId,
    served: Result<&C, LlmClientError>,
)
    requires
        call_ensures(ClientRouter::<C>::route, (&router, &model), served),
        router@.routing is ByModel,
    ensures
        router@.routing->ByModel_0.contains_key(model@) ==> served is Ok && *served->Ok_0
            == router@.routing->ByModel_0[model@].handle,
        !router@.routing->ByModel_0.contains_key(model@) ==> {
            &&& served matches Err(LlmClientError::Configuration { message })
            &&& message@ == "no llm client is configured for model ModelId("@ + quoted_text(model@)
                + ")"@
        },
{
}

/// The error for a model without a client names the model.
pub proof fn law_missing_clients_are_named(quoted: &str, error: LlmClientError)
    requires
        call_ensures(missing_client, (quoted,), error),
    ensures
        error matches LlmClientError::Configuration { message } && message@
            == "no llm client is configured for model ModelId("@ + quoted@ + ")"@,
{
}

/// Whether a request is asked of `target`: addressed to it, with the prompt configured for it
/// after the instructions where `prompted`, and with nothing else changed.
pub open spec fn asked(
    asked: RequestView,
    request: RequestView,
    target: Seq<char>,
    target_prompts: Map<Seq<char>, Seq<char>>,
    prompted: bool,
) -> bool {
    &&& asked.llm_request.model == Some(target)
    &&& prompted && target_prompts.contains_key(target) ==> {
        &&& asked.llm_request.instructions.len() == request.llm_request.instructions.len() + 1
        &&& asked.llm_request.instructions.last() == target_prompts[target]
        &&& asked.llm_request.instructions.drop_last() == request.llm_request.instructions
    }
    &&& !(prompted && target_prompts.contains_key(target)) ==> asked.llm_request.instructions
        == request.llm_request.instructions
    &&& asked.llm_request.messages == request.llm_request.messages
    &&& asked.llm_request.stream == request.llm_request.stream
    &&& asked.llm_request.extensions == request.llm_request.extensions
    &&& asked.raw_request == request.raw_request
    &&& asked.metadata == request.metadata
}

/// A request prepared with the prompt that a map holds for its target is asked of it.
pub proof fn lemma_prepared_is_asked(
    request: RequestView,
    target: Seq<char>,
    target_prompts: Map<Seq<char>, Seq<char>>,
    prompted: bool,
)
    ensures
        asked(
            request.prepared(
                target,
                if prompted && target_prompts.contains_key(target) {
                    Some(target_prompts[target])
                } else {
                    None
                },
            ),
            request,
            target,
            target_prompts,
            prompted,
        ),
{
    assert(request.llm_request.instructions.push(target_prompts[target]).drop_last()
        =~= request.llm_request.instructions);
}

/// A completion is asked with the prompt of its target, whichever routing call may answer.
pub proof fn law_completions_are_prompted<C>(
    router: ClientRouter<C>,
    request: Request,
    target: ModelId,
    prepared: Request,
)
    requires
        call_ensures(
            ClientRouter::<C>::prepare_completion_request,
            (&router, request, &target),
            prepared,
        ),
    ensures
        asked(prepared@, request@, target@, router@.target_prompts, true),
{
    lemma_prepared_is_asked(request@, target@, router@.target_prompts, true);
}

/// A routing call is asked with the prompt of its target exactly if it is the call whose response
/// may become the answer.
pub proof fn law_routing_calls_are_prompted_for_the_answer<C>(
    router: ClientRouter<C>,
    request: Request,
    target: ModelId,
    prepared: Request,
)
    requires
        call_ensures(
            ClientRouter::<C>::prepare_routing_request,
            (&router, request, &target),
            prepared,
        ),
    ensures
        asked(
            prepared@,
            request@,
            target@,
            router@.target_prompts,
            router@.routing_answer_target == Some(target@),
        ),
{
    lemma_prepared_is_asked(
        request@,
        target@,
        router@.target_prompts,
        router@.routing_answer_target == Some(target@),
    );
}

/// The completion of a model carries the last prompt given for it as its last instruction, for
/// every routing answer target; without one its instructions are unchanged.
pub proof fn law_given_prompts_reach_their_model<C>(
    by_model: Vec<(ModelId, Client<C>)>,
    target_prompts: Vec<(ModelId, String)>,
    routing_answer_target: Option<ModelId>,
    router: ClientRouter<C>,
    request: Request,
    target: ModelId,
    index: int,
    prepared: Request,
)
    requires
        call_ensures(
            ClientRouter::<C>::new_with_target_prompts,
            (by_model, target_prompts, routing_answer_target),
            router,
        ),
        call_ensures(
            ClientRouter::<C>::prepare_completion_request,
            (&router, request, &target),
            prepared,
        ),
    ensures
        is_last(target_prompts@, index, target@) ==> {
            &&& prepared@.llm_request.instructions.len() == request@.llm_request.instructions.len()
                + 1
            &&& prepared@.llm_request.instructions.last() == target_prompts@[index].1@
            &&& prepared@.llm_request.instructions.drop_last() == request@.llm_request.instructions
        },
        has_none(target_prompts@, target@) ==> prepared@.llm_request.instructions
            == request@.llm_request.instructions,
{
    law_every_model_may_answer(by_model, target_prompts, routing_answer_target, router);
    law_completions_are_prompted(router, request, target, prepared);
}

/// The conversation ID among fields: a text, or the `id` of an object where that is a text.
pub open spec fn named_conversation(fields: Map<Seq<char>, JsonView>) -> Option<Seq<char>> {
    if holds_text(fields, "conversation"@) {
        Some(text_at(fields, "conversation"@))
    } else if fields.contains_key("conversation"@) && fields["conversation"@] is Object
        && holds_text(fields["conversation"@]->Object_0, "id"@) {
        Some(text_at(fields["conversation"@]->Object_0, "id"@))
    } else {
        None
    }
}

/// A conversation is named by a text, or by an object whose `id` is a text.
pub proof fn law_conversations_are_named(
    fields: serde_json::Map<String, Value>,
    id: Option<&str>,
)
    requires
        call_ensures(conversation_id, (&fields,), id),
    ensures
        id.deep_view() == named_conversation(json_fields(fields)),
{
}

/// A request is a continuation exactly if state is tracked and the ID that it names has an owner:
/// the previous response if it names one, else the conversation. It goes to that owner.
pub proof fn law_continuations_are_found<C>(
    router: ClientRouter<C>,
    request: Request,
    owner: Option<StateOwner>,
)
    requires
        call_ensures(ClientRouter::<C>::stored_state_owner, (&router, &request), owner),
    ensures
        router@.owners is None ==> owner is None,
        router@.owners matches Some(owners) ==> {
            let fields = request@.llm_request.extensions;
            let previous = "previous_response_id"@;
            &&& holds_text(fields, previous) ==> {
                &&& owner is Some <==> owners.contains_key(text_at(fields, previous))
                &&& owner is Some ==> owner->0.model@ == owners[text_at(fields, previous)]
                    && owner->0.trigger@ == previous
            }
            &&& !holds_text(fields, previous) ==> {
                &&& owner is Some <==> named_conversation(fields) is Some && owners.contains_key(
                    named_conversation(fields)->0,
                )
                &&& owner is Some ==> owner->0.model@ == owners[named_conversation(fields)->0]
                    && owner->0.trigger@ == "conversation"@
            }
        },
{
}

/// The ID that a response is stored under: its `id`, if its own `store`, or else the requested
/// one, says that it is stored.
pub open spec fn stored_id(body: JsonView, store: bool) -> Option<Seq<char>> {
    if body is Object && holds_text(body->Object_0, "id"@) && !holds(
        body->Object_0,
        "store"@,
        JsonView::Bool(false),
    ) && (store || holds(body->Object_0, "store"@, JsonView::Bool(true))) {
        Some(text_at(body->Object_0, "id"@))
    } else {
        None
    }
}

/// The conversation that a response belongs to: the one that it names, or else the requested one.
pub open spec fn kept_conversation(body: JsonView, requested: Option<Seq<char>>) -> Option<
    Seq<char>,
> {
    if body is Object && named_conversation(body->Object_0) is Some {
        named_conversation(body->Object_0)
    } else {
        requested
    }
}

/// Whether two routers differ in recorded owners at most.
pub open spec fn differ_in_owners<C>(before: RouterView<C>, after: RouterView<C>) -> bool {
    &&& after.routing == before.routing
    &&& after.target_prompts == before.target_prompts
    &&& after.routing_answer_target == before.routing_answer_target
    &&& after.owners is Some <==> before.owners is Some
}

/// Whether a router recorded the state that a response reports, or rightly refused it.
pub open spec fn takes_state<C>(
    before: RouterView<C>,
    after: RouterView<C>,
    body: JsonView,
    model: Seq<char>,
    store: bool,
    conversation: Option<Seq<char>>,
    result: Result<(), LlmClientError>,
) -> bool {
    &&& differ_in_owners(before, after)
    &&& before.owners is None ==> result is Ok
    &&& before.owners is Some ==> recorded_for(
        before.owners->0,
        after.owners->0,
        stored_id(body, store),
        kept_conversation(body, conversation),
        model,
        result,
    )
}

proof fn lemma_recorded_is_taken<C>(
    before: RouterView<C>,
    after: RouterView<C>,
    body: JsonView,
    model: Seq<char>,
    store: bool,
    conversation: Option<Seq<char>>,
    result: Result<(), LlmClientError>,
)
    requires
        before.owners matches Some(owners) ==> owners.dom().finite(),
        settled(
            result,
            before,
            after,
            before.recorded(body, model, store, conversation),
        ),
    ensures
        takes_state(before, after, body, model, store, conversation, result),
{
    let (response_id, conversation_id) = reported_state(
        body,
        store,
        conversation,
    );
    assert(response_id == stored_id(body, store));
    assert(conversation_id == kept_conversation(body, conversation));
    if before.owners is Some {
        lemma_settled_recordings(
            before.owners->0,
            after.owners->0,
            response_id,
            conversation_id,
            model,
            result,
        );
    }
}

/// A response's state is recorded for its model: its conversation always, and its ID where it is
/// stored.
pub proof fn law_reported_state_is_recorded<C>(
    clients: &mut ClientRouter<C>,
    body: Value,
    model: ModelId,
    store: bool,
    conversation: Option<&str>,
    result: Result<(), LlmClientError>,
)
    requires
        old(clients).wf(),
        call_ensures(
            ClientRouter::<C>::remember_response,
            (clients, &body, &model, store, conversation),
            result,
        ),
    ensures
        takes_state(
            old(clients)@,
            final(clients)@,
            json_view(body),
            model@,
            store,
            conversation.deep_view(),
            result,
        ),
{
    old(clients).law_recorded_state_fits();
    lemma_recorded_is_taken(
        old(clients)@,
        final(clients)@,
        json_view(body),
        model@,
        store,
        conversation.deep_view(),
        result,
    );
}

/// A conversation that a response names belongs to its model once the response is recorded,
/// whatever its `id` and `store` hold, and a request that continues it goes to that model.
pub proof fn law_named_conversations_are_recorded<C>(
    clients: &mut ClientRouter<C>,
    body: Value,
    fields: Map<Seq<char>, JsonView>,
    model: ModelId,
    store: bool,
    conversation: Option<&str>,
    named: Seq<char>,
    request: Request,
    owner: Option<StateOwner>,
)
    requires
        old(clients)@.owners is Some,
        call_ensures(
            ClientRouter::<C>::remember_response,
            (clients, &body, &model, store, conversation),
            Ok::<(), LlmClientError>(()),
        ),
        json_view(body) == JsonView::Object(fields),
        holds(fields, "conversation"@, JsonView::Text(named)) || (fields.contains_key(
            "conversation"@,
        ) && fields["conversation"@] is Object && holds(
            fields["conversation"@]->Object_0,
            "id"@,
            JsonView::Text(named),
        )),
        call_ensures(ClientRouter::<C>::stored_state_owner, (&*final(clients), &request), owner),
        !request@.llm_request.extensions.contains_key("previous_response_id"@),
        holds(request@.llm_request.extensions, "conversation"@, JsonView::Text(named)),
    ensures
        final(clients)@.owners->0.contains_key(named),
        final(clients)@.owners->0[named] == model@,
        owner is Some,
        owner->0.model@ == model@,
        owner->0.trigger@ == "conversation"@,
{
}

/// A stored response's ID belongs to its model once the response is recorded, whatever else it
/// reports, and a request that continues it goes to that model.
pub proof fn law_stored_responses_are_recorded<C>(
    clients: &mut ClientRouter<C>,
    body: Value,
    fields: Map<Seq<char>, JsonView>,
    model: ModelId,
    store: bool,
    conversation: Option<&str>,
    id: Seq<char>,
    request: Request,
    owner: Option<StateOwner>,
)
    requires
        old(clients)@.owners is Some,
        call_ensures(
            ClientRouter::<C>::remember_response,
            (clients, &body, &model, store, conversation),
            Ok::<(), LlmClientError>(()),
        ),
        json_view(body) == JsonView::Object(fields),
        holds(fields, "id"@, JsonView::Text(id)),
        holds(fields, "store"@, JsonView::Bool(true)) || (store && !(fields.contains_key("store"@)
            && fields["store"@] is Bool)),
        call_ensures(ClientRouter::<C>::stored_state_owner, (&*final(clients), &request), owner),
        holds(request@.llm_request.extensions, "previous_response_id"@, JsonView::Text(id)),
    ensures
        final(clients)@.owners->0.contains_key(id),
        final(clients)@.owners->0[id] == model@,
        owner is Some,
        owner->0.model@ == model@,
        owner->0.trigger@ == "previous_response_id"@,
{
}

/// Whether entry `index` is the first JSON of the Responses API.
pub open spec fn is_first_form(kept: Seq<Preserved>, index: int) -> bool {
    &&& 0 <= index < kept.len()
    &&& kept[index].source == WireFormat::OpenAiResponses
    &&& forall|i: int|
        0 <= i < index ==> (#[trigger] kept[i]).source != WireFormat::OpenAiResponses
}

/// Whether there is no JSON of the Responses API.
pub open spec fn has_no_form(kept: Seq<Preserved>) -> bool {
    forall|i: int|
        0 <= i < kept.len() ==> (#[trigger] kept[i]).source != WireFormat::OpenAiResponses
}

/// Whether a request asks for its response to be stored: it does unless it says that it does not.
pub open spec fn asks_for_storage(fields: Map<Seq<char>, JsonView>) -> bool {
    !holds(fields, "store"@, JsonView::Bool(false))
}

/// Whether the state behind a response to `request` was taken, where `result` is what the events
/// of the response are tracked with, or why its state was refused.
///
/// A complete answer of the Responses API is recorded at once, and a stream gets a tracker, where
/// state is tracked and the model is known. Nothing is done for any other response. A refusal is
/// a failure of the model that served the response.
pub open spec fn takes_response<C, S>(
    before: RouterView<C>,
    after: RouterView<C>,
    request: RequestView,
    response: Response<S>,
    result: Result<Option<StateTracker>, LibsyError>,
) -> bool {
    let fields = request.llm_request.extensions;
    let known = before.owners is Some && response.served_model is Some;
    &&& result is Err ==> result->Err_0 is ClientCall && Some(result->Err_0->ClientCall_model)
        == response.served_model
    &&& !known ==> after == before && result == Ok::<Option<StateTracker>, LibsyError>(None)
    &&& known && response.llm_response is Stream ==> {
        &&& after == before
        &&& result matches Ok(Some(tracker))
        &&& Some(tracker.model) == response.served_model
        &&& tracker.store == asks_for_storage(fields)
        &&& tracker.conversation.deep_view() == named_conversation(fields)
    }
    &&& known && response.llm_response is Agg ==> {
        let kept = response.llm_response->Agg_0.preservation@;
        &&& result is Ok ==> result->Ok_0 is None
        &&& has_no_form(kept) ==> after == before && result is Ok
        &&& forall|index: int| #[trigger]
            is_first_form(kept, index) ==> takes_state(
                before,
                after,
                json_view(kept[index].raw),
                response.served_model->0@,
                asks_for_storage(fields),
                named_conversation(fields),
                match result {
                    Ok(_) => Ok(()),
                    Err(error) => Err(error->ClientCall_source),
                },
            )
    }
}

/// What a response leaves in a router, and what it is tracked with, is what it should be.
pub proof fn lemma_remembered_is_taken<C, S>(
    before: RouterView<C>,
    after: RouterView<C>,
    request: RequestView,
    response: Response<S>,
    result: Result<Option<StateTracker>, LibsyError>,
)
    requires
        before.owners matches Some(owners) ==> owners.dom().finite(),
        match before.remembered_response(request, response) {
            Ok(router) => {
                &&& after == router
                &&& result matches Ok(tracker)
                &&& tracker_for(tracker, before, request, response)
            },
            Err(fault) => {
                &&& after == before
                &&& result matches Err(LibsyError::ClientCall { model, source })
                &&& Some(model) == response.served_model
                &&& source == fault.error()
            },
        },
    ensures
        takes_response(before, after, request, response, result),
{
    let fields = request.llm_request.extensions;
    if before.owners is Some && response.served_model is Some && response.llm_response is Agg {
        let kept = response.llm_response->Agg_0.preservation@;
        if has_no_form(kept) {
            lemma_first_kept(kept, WireFormat::OpenAiResponses, kept.len() as int);
        }
        assert forall|index: int| #[trigger] is_first_form(kept, index) implies takes_state(
            before,
            after,
            json_view(kept[index].raw),
            response.served_model->0@,
            asks_for_storage(fields),
            named_conversation(fields),
            match result {
                Ok(_) => Ok(()),
                Err(error) => Err(error->ClientCall_source),
            },
        ) by {
            lemma_first_kept(kept, WireFormat::OpenAiResponses, index);
            lemma_recorded_is_taken(
                before,
                after,
                json_view(kept[index].raw),
                response.served_model->0@,
                asks_for_storage(fields),
                named_conversation(fields),
                match result {
                    Ok(_) => Ok(()),
                    Err(error) => Err(error->ClientCall_source),
                },
            );
        }
    }
}

/// Remembering a response takes its state and hands the response back unchanged.
pub proof fn law_responses_are_remembered<C, S>(
    clients: &mut ClientRouter<C>,
    request: Request,
    response: Response<S>,
    result: Result<(Response<S>, Option<StateTracker>), LibsyError>,
)
    requires
        old(clients).wf(),
        call_ensures(
            ClientRouter::<C>::remember_state_owner::<S>,
            (clients, &request, response),
            result,
        ),
    ensures
        result is Ok ==> result->Ok_0.0 == response,
        takes_response(
            old(clients)@,
            final(clients)@,
            request@,
            response,
            match result {
                Ok((_, tracker)) => Ok(tracker),
                Err(error) => Err(error),
            },
        ),
{
    old(clients).law_recorded_state_fits();
    lemma_remembered_is_taken(
        old(clients)@,
        final(clients)@,
        request@,
        response,
        match result {
            Ok((_, tracker)) => Ok(tracker),
            Err(error) => Err(error),
        },
    );
}

/// The state that an event of the Responses API reports in its `response` is recorded as that of
/// a complete answer would be. Any other event leaves the router as it is.
pub proof fn law_events_are_remembered<C>(
    clients: &mut ClientRouter<C>,
    tracker: StateTracker,
    event: LlmResponseStreamEvent,
    result: Result<(), LlmClientError>,
)
    requires
        old(clients).wf(),
        call_ensures(ClientRouter::<C>::remember_event, (clients, &tracker, &event), result),
    ensures
        ({
            let reports = event.preservation is Some && event.preservation->0.source
                == WireFormat::OpenAiResponses && json_view(event.preservation->0.raw) is Object
                && json_view(event.preservation->0.raw)->Object_0.contains_key("response"@);
            &&& !reports ==> result is Ok && final(clients)@ == old(clients)@
            &&& reports ==> takes_state(
                old(clients)@,
                final(clients)@,
                json_view(event.preservation->0.raw)->Object_0["response"@],
                tracker.model@,
                tracker.store,
                tracker.conversation.deep_view(),
                result,
            )
        }),
{
    old(clients).law_recorded_state_fits();
    if event_body(event) is Some {
        lemma_recorded_is_taken(
            old(clients)@,
            final(clients)@,
            event_body(event)->0,
            tracker.model@,
            tracker.store,
            tracker.conversation.deep_view(),
            result,
        );
    }
}

} // verus!
