//! Which client serves a model, which prompt a model gets, and which model holds the state that
//! a request continues.

use serde_json::Value;
use vstd::hash_map::StringHashMap;
use vstd::prelude::*;
use vstd::string::*;

use crate::json::{
    field, json_fields, json_view, no_fields, text_field, text_field_of, truth_field,
    truth_field_of, JsonView,
};
use crate::protocol::{
    names, prepare_request_for_target, preserved_of, LibsyError, LlmClientError, LlmRequestView,
    LlmResponse, LlmResponseStreamEvent, ModelId, Request, RequestView, Response, WireFormat,
};
use crate::state_owners::{
    after_recordings, law_owners_are_permanent, law_recorded_ids_read_back, remembered, settled,
    Recording, RememberFault, StateOwners, MAX_STATE_OWNERS,
};
use crate::text::{borrow_text, own_text, quote, quoted_text};

verus! {

/// A client that can call models.
///
/// Clients of the same identity are the same client.
pub struct Client<C> {
    pub identity: usize,
    pub handle: C,
}

/// Resolves a routed call's selected model to the client that serves it.
///
/// An algorithm routes among named targets; which provider each target lives on is the host's
/// concern, and two targets in one run may sit on different providers. A router owns that
/// mapping. It is not itself a client: it hands back a client handle and the caller makes the
/// call.
#[verifier::reject_recursive_types(C)]
pub struct ClientRouter<C> {
    routing: Routing<C>,
    target_prompts: StringHashMap<String>,
    routing_answer_target: Option<ModelId>,
    /// Tracked only when completion targets use different clients. A separate classifier
    /// client does not require tracking when all completion targets share a client.
    state_owners: Option<StateOwners>,
}

#[verifier::reject_recursive_types(C)]
enum Routing<C> {
    /// One client serves every model.
    Single(C),
    /// Each model is served by the client configured for it.
    ByModel(StringHashMap<Client<C>>),
}

/// How models are mapped to clients.
#[verifier::reject_recursive_types(C)]
pub enum RoutingView<C> {
    Single(C),
    ByModel(Map<Seq<char>, Client<C>>),
}

/// The contents of a [`ClientRouter`].
#[verifier::reject_recursive_types(C)]
pub struct RouterView<C> {
    pub routing: RoutingView<C>,
    pub target_prompts: Map<Seq<char>, Seq<char>>,
    pub routing_answer_target: Option<Seq<char>>,
    /// The owners of response state; `None` when state is not tracked.
    pub owners: Option<Map<Seq<char>, Seq<char>>>,
}

/// The map that a list of entries describes: a later entry replaces an earlier one for the same
/// model.
pub open spec fn entries_of<T>(entries: Seq<(ModelId, T)>) -> Map<Seq<char>, T>
    decreases entries.len(),
{
    if entries.len() == 0 {
        Map::empty()
    } else {
        entries_of(entries.drop_last()).insert(entries.last().0@, entries.last().1)
    }
}

/// Whether two of `targets` are served by different clients.
pub open spec fn spans_providers<C>(
    by_model: Map<Seq<char>, Client<C>>,
    targets: Set<Seq<char>>,
) -> bool {
    exists|a: Seq<char>, b: Seq<char>|
        #![trigger by_model.contains_key(a), by_model.contains_key(b)]
        targets.contains(a) && targets.contains(b) && by_model.contains_key(a)
            && by_model.contains_key(b) && by_model[a].identity != by_model[b].identity
}

/// A router over `by_model`, which tracks state if two of `targets` have different clients.
pub open spec fn router_over<C>(
    by_model: Map<Seq<char>, Client<C>>,
    target_prompts: Map<Seq<char>, Seq<char>>,
    routing_answer_target: Option<Seq<char>>,
    targets: Set<Seq<char>>,
) -> RouterView<C> {
    RouterView {
        routing: RoutingView::ByModel(by_model),
        target_prompts,
        routing_answer_target,
        owners: if spans_providers(by_model, targets) {
            Some(Map::empty())
        } else {
            None
        },
    }
}

/// The prompts that a list of entries describes.
pub open spec fn prompts_of(entries: Seq<(ModelId, String)>) -> Map<Seq<char>, Seq<char>> {
    entries_of(entries).map_values(|prompt: String| prompt@)
}

/// A model by its name.
pub open spec fn name_of(model: Option<ModelId>) -> Option<Seq<char>> {
    match model {
        Some(held) => Some(held@),
        None => None,
    }
}

impl<C> RouterView<C> {
    /// The client that serves `model`.
    pub open spec fn client_of(self, model: Seq<char>) -> Option<C> {
        match self.routing {
            RoutingView::Single(client) => Some(client),
            RoutingView::ByModel(by_model) => if by_model.contains_key(model) {
                Some(by_model[model].handle)
            } else {
                None
            },
        }
    }

    /// The prompt configured for `model`.
    pub open spec fn prompt_of(self, model: Seq<char>) -> Option<Seq<char>> {
        if self.target_prompts.contains_key(model) {
            Some(self.target_prompts[model])
        } else {
            None
        }
    }

    /// The prompt that a routing call of `model` gets: its own if the call may give the answer.
    pub open spec fn routing_prompt_of(self, model: Seq<char>) -> Option<Seq<char>> {
        if self.routing_answer_target == Some(model) {
            self.prompt_of(model)
        } else {
            None
        }
    }

    /// The router with other owners.
    pub open spec fn with_owners(self, owners: Map<Seq<char>, Seq<char>>) -> RouterView<C> {
        RouterView { owners: Some(owners), ..self }
    }
}

/// The message for a model without a client, from the model's quoted name.
pub open spec fn missing_client_message(quoted: Seq<char>) -> Seq<char> {
    "no llm client is configured for model ModelId("@ + quoted + ")"@
}

/// The error for a model without a client, from the model's quoted name.
pub fn missing_client(quoted: &str) -> (error: LlmClientError)
    ensures
        error matches LlmClientError::Configuration { message } && message@
            == missing_client_message(quoted@),
{
    let message = "no llm client is configured for model ModelId(".to_string().concat(
        quoted,
    ).concat(")");
    LlmClientError::Configuration { message }
}

/// The model that served the stored state and the request field that refers to it.
#[derive(Debug)]
pub struct StateOwner {
    pub model: ModelId,
    pub trigger: &'static str,
}

/// The conversation ID among a request's or a response's fields: a string, or the `id` of an
/// object.
pub open spec fn conversation_of(fields: Map<Seq<char>, JsonView>) -> Option<Seq<char>> {
    if fields.contains_key("conversation"@) {
        match fields["conversation"@] {
            JsonView::Text(id) => Some(id),
            JsonView::Object(conversation) => text_field_of(conversation, "id"@),
            _ => None,
        }
    } else {
        None
    }
}

/// The stored state that a request continues: the field that refers to it, and the ID in it.
///
/// A previous response takes precedence over a conversation.
pub open spec fn continued_state(fields: Map<Seq<char>, JsonView>) -> Option<(Seq<char>, Seq<char>)> {
    match text_field_of(fields, "previous_response_id"@) {
        Some(id) => Some(("previous_response_id"@, id)),
        None => match conversation_of(fields) {
            Some(id) => Some(("conversation"@, id)),
            None => None,
        },
    }
}

impl<C> RouterView<C> {
    /// The model that holds the state that a request with these fields continues, and the field
    /// that refers to it.
    pub open spec fn stored_state_owner_of(self, fields: Map<Seq<char>, JsonView>) -> Option<
        (Seq<char>, Seq<char>),
    > {
        match (self.owners, continued_state(fields)) {
            (Some(owners), Some((trigger, id))) => if owners.contains_key(id) {
                Some((owners[id], trigger))
            } else {
                None
            },
            _ => None,
        }
    }
}

/// A stored-state owner by contents: its model and its trigger.
pub open spec fn owner_view(owner: Option<StateOwner>) -> Option<(Seq<char>, Seq<char>)> {
    match owner {
        Some(held) => Some((held.model@, held.trigger@)),
        None => None,
    }
}

/// Reads the Responses `conversation` ID from a string or an object.
pub fn conversation_id<'a>(fields: &'a serde_json::Map<String, Value>) -> (id: Option<&'a str>)
    ensures
        id.deep_view() == conversation_of(json_fields(*fields)),
{
    let conversation = match field(fields, "conversation") {
        Some(conversation) => conversation,
        None => {
            return None;
        },
    };
    match conversation.as_str() {
        Some(id) => Some(id),
        None => match conversation.as_object() {
            Some(object) => text_field(object, "id"),
            None => None,
        },
    }
}

/// Collects entries into a map in which a later entry replaces an earlier one.
fn collect_entries<T>(entries: Vec<(ModelId, T)>) -> (map: StringHashMap<T>)
    ensures
        map@ == entries_of(entries@),
{
    let ghost all = entries_of(entries@);
    let mut entries = entries;
    let mut map: StringHashMap<T> = StringHashMap::new();
    proof {
        assert(entries_of(entries@).union_prefer_right(map@) =~= all);
    }
    loop
        invariant
            entries_of(entries@).union_prefer_right(map@) == all,
        ensures
            map@ == all,
        decreases entries@.len(),
    {
        let ghost before = entries@;
        match entries.pop() {
            Some((model, value)) => {
                let ghost old_map = map@;
                let ghost key = model@;
                if !map.contains_key(model.as_str()) {
                    map.insert(model.to_name(), value);
                }
                proof {
                    assert(before.drop_last() == entries@);
                    assert(entries_of(entries@).union_prefer_right(map@) =~= entries_of(
                        before,
                    ).union_prefer_right(old_map));
                }
            },
            None => {
                proof {
                    assert(entries_of(entries@).union_prefer_right(map@) =~= map@);
                }
                break ;
            },
        }
    }
    map
}

/// The models of a list of entries, in order.
fn entry_models<T>(entries: &Vec<(ModelId, T)>) -> (models: Vec<ModelId>)
    ensures
        models@ == entries@.map_values(|entry: (ModelId, T)| entry.0),
{
    let mut models: Vec<ModelId> = Vec::new();
    for index in 0..entries.len()
        invariant
            models@ == entries@.take(index as int).map_values(|entry: (ModelId, T)| entry.0),
    {
        models.push(entries[index].0.clone());
        proof {
            assert(models@ =~= entries@.take(index as int + 1).map_values(
                |entry: (ModelId, T)| entry.0,
            ));
        }
    }
    proof {
        assert(entries@.take(entries@.len() as int) == entries@);
    }
    models
}

/// A key of the collected map is the model of one of the entries, and the other way round.
proof fn lemma_entry_keys<T>(entries: Seq<(ModelId, T)>)
    ensures
        entries_of(entries).dom() == names(entries.map_values(|entry: (ModelId, T)| entry.0)).to_set(),
    decreases entries.len(),
{
    let models = names(entries.map_values(|entry: (ModelId, T)| entry.0));
    if entries.len() > 0 {
        let front = entries.drop_last();
        lemma_entry_keys(front);
        let front_models = names(front.map_values(|entry: (ModelId, T)| entry.0));
        assert(models == front_models.push(entries.last().0@));
        assert forall|key: Seq<char>| #[trigger]
            entries_of(entries).dom().contains(key) == models.to_set().contains(key) by {
            if front_models.contains(key) {
                let i = choose|i: int| 0 <= i < front_models.len() && front_models[i] == key;
                assert(models[i] == key);
            }
            if key == entries.last().0@ {
                assert(models[models.len() - 1] == key);
            }
            if models.contains(key) && key != entries.last().0@ {
                let i = choose|i: int| 0 <= i < models.len() && models[i] == key;
                assert(front_models[i] == key);
            }
        }
    }
    assert(entries_of(entries).dom() =~= models.to_set());
}

/// Whether two of `targets` are served by different clients.
fn targets_span_providers<C>(by_model: &StringHashMap<Client<C>>, targets: &[ModelId]) -> (spans: bool)
    ensures
        spans == spans_providers(by_model@, names(targets@).to_set()),
{
    let mut first: Option<usize> = None;
    let ghost mut first_index: int = 0;
    for index in 0..targets.len()
        invariant
            match first {
                Some(identity) => {
                    &&& 0 <= first_index < index
                    &&& by_model@.contains_key(targets@[first_index]@)
                    &&& by_model@[targets@[first_index]@].identity == identity
                    &&& forall|i: int|
                        0 <= i < index && by_model@.contains_key((#[trigger] targets@[i])@)
                            ==> by_model@[targets@[i]@].identity == identity
                },
                None => forall|i: int|
                    0 <= i < index ==> !by_model@.contains_key((#[trigger] targets@[i])@),
            },
    {
        if let Some(client) = by_model.get(targets[index].as_str()) {
            match first {
                Some(identity) => {
                    if client.identity != identity {
                        proof {
                            assert(names(targets@)[first_index] == targets@[first_index]@);
                            assert(names(targets@)[index as int] == targets@[index as int]@);
                            assert(names(targets@).to_set().contains(targets@[first_index]@));
                            assert(names(targets@).to_set().contains(targets@[index as int]@));
                            assert(by_model@.contains_key(targets@[first_index]@));
                            assert(by_model@.contains_key(targets@[index as int]@));
                        }
                        return true;
                    }
                },
                None => {
                    first = Some(client.identity);
                    proof {
                        first_index = index as int;
                    }
                },
            }
        }
    }
    proof {
        assert forall|a: Seq<char>, b: Seq<char>|
            #![trigger by_model@.contains_key(a), by_model@.contains_key(b)]
            names(targets@).to_set().contains(a) && names(targets@).to_set().contains(b)
                && by_model@.contains_key(a) && by_model@.contains_key(
                b,
            ) implies by_model@[a].identity == by_model@[b].identity by {
            let i = choose|i: int| 0 <= i < targets@.len() && names(targets@)[i] == a;
            let j = choose|j: int| 0 <= j < targets@.len() && names(targets@)[j] == b;
            assert(targets@[i]@ == a);
            assert(targets@[j]@ == b);
        }
    }
    false
}

impl<C> View for ClientRouter<C> {
    type V = RouterView<C>;

    closed spec fn view(&self) -> RouterView<C> {
        RouterView {
            routing: match self.routing {
                Routing::Single(client) => RoutingView::Single(client),
                Routing::ByModel(by_model) => RoutingView::ByModel(by_model@),
            },
            target_prompts: self.target_prompts@.map_values(|prompt: String| prompt@),
            routing_answer_target: name_of(self.routing_answer_target),
            owners: match self.state_owners {
                Some(owners) => Some(owners@),
                None => None,
            },
        }
    }
}

impl<C> ClientRouter<C> {
    /// The tracked state is well-formed.
    pub closed spec fn wf(self) -> bool {
        self.state_owners matches Some(owners) ==> owners.wf()
    }

    /// Builds a router over `model name -> client`, for targets spread across providers.
    pub fn new(by_model: Vec<(ModelId, Client<C>)>) -> (router: Self)
        ensures
            router.wf(),
            router@ == router_over(
                entries_of(by_model@),
                Map::empty(),
                None,
                entries_of(by_model@).dom(),
            ),
    {
        let router = Self::new_with_target_prompts(by_model, Vec::new(), None);
        proof {
            assert(prompts_of(Seq::<(ModelId, String)>::empty()) =~= Map::<
                Seq<char>,
                Seq<char>,
            >::empty());
        }
        router
    }

    /// Builds a router with target prompts.
    ///
    /// `routing_answer_target` identifies a routing-time call whose response may become the
    /// answer. Pass `None` when routing only selects a later completion target. This
    /// constructor treats every model in `by_model` as a possible completion target.
    pub fn new_with_target_prompts(
        by_model: Vec<(ModelId, Client<C>)>,
        target_prompts: Vec<(ModelId, String)>,
        routing_answer_target: Option<ModelId>,
    ) -> (router: Self)
        ensures
            router.wf(),
            router@ == router_over(
                entries_of(by_model@),
                prompts_of(target_prompts@),
                name_of(routing_answer_target),
                entries_of(by_model@).dom(),
            ),
    {
        let completion_targets = entry_models(&by_model);
        proof {
            lemma_entry_keys(by_model@);
        }
        Self::new_with_completion_targets(
            by_model,
            target_prompts,
            routing_answer_target,
            completion_targets.as_slice(),
        )
    }

    /// Builds a router with an explicit list of models that can answer requests.
    ///
    /// `by_model` contains every callable model, including classifiers. Only the models in
    /// `completion_targets` determine whether completion clients differ and response state
    /// needs tracking. Classifier-only models remain callable without affecting that
    /// comparison.
    pub fn new_with_completion_targets(
        by_model: Vec<(ModelId, Client<C>)>,
        target_prompts: Vec<(ModelId, String)>,
        routing_answer_target: Option<ModelId>,
        completion_targets: &[ModelId],
    ) -> (router: Self)
        ensures
            router.wf(),
            router@ == router_over(
                entries_of(by_model@),
                prompts_of(target_prompts@),
                name_of(routing_answer_target),
                names(completion_targets@).to_set(),
            ),
    {
        let by_model = collect_entries(by_model);
        let spans = targets_span_providers(&by_model, completion_targets);
        ClientRouter {
            routing: Routing::ByModel(by_model),
            target_prompts: collect_entries(target_prompts),
            routing_answer_target,
            state_owners: if spans {
                Some(StateOwners::new())
            } else {
                None
            },
        }
    }

    /// A router that serves every model with one client: the single-provider case.
    pub fn single(client: C) -> (router: Self)
        ensures
            router.wf(),
            router@ == (RouterView {
                routing: RoutingView::Single(client),
                target_prompts: Map::empty(),
                routing_answer_target: None,
                owners: None,
            }),
    {
        let router = ClientRouter {
            routing: Routing::Single(client),
            target_prompts: StringHashMap::new(),
            routing_answer_target: None,
            state_owners: None,
        };
        proof {
            assert(router@.target_prompts =~= Map::<Seq<char>, Seq<char>>::empty());
        }
        router
    }

    /// The client that serves `model`.
    ///
    /// Errors when the router maps models and has no entry for this one, rather than silently
    /// sending the call to another provider.
    pub fn route(&self, model: &ModelId) -> (client: Result<&C, LlmClientError>)
        ensures
            match client {
                Ok(handle) => self@.client_of(model@) == Some(*handle),
                Err(error) => self@.client_of(model@) is None && (error matches
                    LlmClientError::Configuration { message } && message@
                    == missing_client_message(quoted_text(model@))),
            },
    {
        match &self.routing {
            Routing::Single(client) => Ok(client),
            Routing::ByModel(by_model) => match by_model.get(model.as_str()) {
                Some(client) => Ok(&client.handle),
                None => Err(missing_client(quote(model.as_str()).as_str())),
            },
        }
    }

    /// The recorded model for the requested response or conversation ID.
    pub fn stored_state_owner(&self, request: &Request) -> (owner: Option<StateOwner>)
        ensures
            owner_view(owner) == self@.stored_state_owner_of(request@.llm_request.extensions),
    {
        let owners = match &self.state_owners {
            Some(owners) => owners,
            None => {
                return None;
            },
        };
        let fields = &request.llm_request.extensions;
        let (trigger, id) = match text_field(fields, "previous_response_id") {
            Some(id) => ("previous_response_id", id),
            None => match conversation_id(fields) {
                Some(id) => ("conversation", id),
                None => {
                    return None;
                },
            },
        };
        match owners.owner(id) {
            Some(model) => Some(StateOwner { model: model.clone(), trigger }),
            None => None,
        }
    }

    /// Prepares a completion candidate with its configured target prompt.
    pub fn prepare_completion_request(&self, request: Request, target: &ModelId) -> (prepared: Request)
        ensures
            prepared@ == request@.prepared(target@, self@.prompt_of(target@)),
    {
        let mut request = request;
        let prompt = match self.target_prompts.get(target.as_str()) {
            Some(prompt) => Some(prompt.as_str()),
            None => None,
        };
        prepare_request_for_target(&mut request.llm_request, target, prompt);
        request
    }

    /// Prepares a routing call, adding a target prompt only when it generates a candidate
    /// answer.
    pub fn prepare_routing_request(&self, request: Request, target: &ModelId) -> (prepared: Request)
        ensures
            prepared@ == request@.prepared(target@, self@.routing_prompt_of(target@)),
    {
        let mut request = request;
        let answers = match &self.routing_answer_target {
            Some(model) => *model == *target,
            None => false,
        };
        let prompt = if answers {
            match self.target_prompts.get(target.as_str()) {
                Some(prompt) => Some(prompt.as_str()),
                None => None,
            }
        } else {
            None
        };
        prepare_request_for_target(&mut request.llm_request, target, prompt);
        request
    }
}

/// What a response reports of the state behind it: its ID, if it is stored, and its
/// conversation.
///
/// The response's own `store` overrides the requested one, and its own conversation the
/// requested one. Without storage only the response ID is left out.
pub open spec fn reported_state(
    body: JsonView,
    store: bool,
    conversation: Option<Seq<char>>,
) -> (Option<Seq<char>>, Option<Seq<char>>) {
    let fields = match body.as_fields() {
        Some(held) => held,
        None => no_fields(),
    };
    let stored = match truth_field_of(fields, "store"@) {
        Some(held) => held,
        None => store,
    };
    (
        if stored {
            text_field_of(fields, "id"@)
        } else {
            None
        },
        match conversation_of(fields) {
            Some(id) => Some(id),
            None => conversation,
        },
    )
}

impl<C> RouterView<C> {
    /// The router once the state that `body` reports belongs to `model`, or why it cannot.
    ///
    /// A router that does not track state stays as it is.
    pub open spec fn recorded(
        self,
        body: JsonView,
        model: Seq<char>,
        store: bool,
        conversation: Option<Seq<char>>,
    ) -> Result<RouterView<C>, RememberFault> {
        let (response_id, conversation_id) = reported_state(body, store, conversation);
        match self.owners {
            Some(owners) => match remembered(owners, response_id, conversation_id, model) {
                Ok(merged) => Ok(self.with_owners(merged)),
                Err(fault) => Err(fault),
            },
            None => Ok(self),
        }
    }
}

/// Whether a request asks for its response to be stored, which is the default.
pub open spec fn store_requested(fields: Map<Seq<char>, JsonView>) -> bool {
    truth_field_of(fields, "store"@) != Some(false)
}

/// What must be known to record the state that the events of a stream report.
#[derive(Debug)]
pub struct StateTracker {
    pub model: ModelId,
    pub store: bool,
    pub conversation: Option<String>,
}

/// The response object in a stream event of the Responses API.
pub open spec fn event_body(event: LlmResponseStreamEvent) -> Option<JsonView> {
    match event.preservation {
        Some(preserved) => if preserved.source == WireFormat::OpenAiResponses {
            match json_view(preserved.raw).as_fields() {
                Some(fields) => if fields.contains_key("response"@) {
                    Some(fields["response"@])
                } else {
                    None
                },
                None => None,
            }
        } else {
            None
        },
        None => None,
    }
}

/// The response object that the Responses API gave for a complete answer.
pub open spec fn answer_body<S>(response: Response<S>) -> Option<JsonView> {
    match response.llm_response {
        LlmResponse::Agg(answer) => match preserved_of(
            answer.preservation@,
            WireFormat::OpenAiResponses,
        ) {
            Some(body) => Some(json_view(body)),
            None => None,
        },
        LlmResponse::Stream(_) => None,
    }
}

impl<C> RouterView<C> {
    /// The router once the state behind a response is recorded, or why it cannot be.
    ///
    /// Only a complete answer of the Responses API by a known model has state to record here.
    pub open spec fn remembered_response<S>(
        self,
        request: RequestView,
        response: Response<S>,
    ) -> Result<RouterView<C>, RememberFault> {
        let fields = request.llm_request.extensions;
        match (response.served_model, answer_body(response)) {
            (Some(model), Some(body)) => self.recorded(
                body,
                model@,
                store_requested(fields),
                conversation_of(fields),
            ),
            _ => Ok(self),
        }
    }

    /// Whether the events of a response must be tracked for state: it is a stream by a known
    /// model, and state is tracked.
    pub open spec fn tracks<S>(self, response: Response<S>) -> bool {
        self.owners is Some && response.served_model is Some && response.llm_response is Stream
    }
}

/// Whether `tracker` is what the events of a response to `request` are tracked with, if they
/// must be.
pub open spec fn tracker_for<C, S>(
    tracker: Option<StateTracker>,
    router: RouterView<C>,
    request: RequestView,
    response: Response<S>,
) -> bool {
    let fields = request.llm_request.extensions;
    match tracker {
        Some(held) => {
            &&& router.tracks(response)
            &&& Some(held.model) == response.served_model
            &&& held.store == store_requested(fields)
            &&& held.conversation.deep_view() == conversation_of(fields)
        },
        None => !router.tracks(response),
    }
}

impl<C> ClientRouter<C> {
    /// Checks both IDs from a response or stream event before recording either. The response's
    /// `store` value overrides the request value; `false` skips only the response ID.
    pub fn remember_response(
        &mut self,
        body: &Value,
        model: &ModelId,
        store: bool,
        conversation: Option<&str>,
    ) -> (result: Result<(), LlmClientError>)
        requires
            old(self).wf(),
        ensures
            final(self).wf(),
            settled(
                result,
                old(self)@,
                final(self)@,
                old(self)@.recorded(json_view(*body), model@, store, conversation.deep_view()),
            ),
    {
        let (response_id, conversation) = match body.as_object() {
            Some(fields) => {
                let stored = match truth_field(fields, "store") {
                    Some(stored) => stored,
                    None => store,
                };
                let response_id = if stored {
                    text_field(fields, "id")
                } else {
                    None
                };
                let conversation = match conversation_id(fields) {
                    Some(id) => Some(id),
                    None => conversation,
                };
                (response_id, conversation)
            },
            None => (None, conversation),
        };
        match &mut self.state_owners {
            Some(owners) => owners.remember(response_id, conversation, model),
            None => Ok(()),
        }
    }

    /// Records state reported by a Responses provider. Other response formats have IDs that
    /// cannot be continued through the Responses API.
    ///
    /// A complete response is recorded at once. For a stream the caller gets a tracker, and
    /// hands it back with each event.
    pub fn remember_state_owner<S>(
        &mut self,
        request: &Request,
        response: Response<S>,
    ) -> (result: Result<(Response<S>, Option<StateTracker>), LibsyError>)
        requires
            old(self).wf(),
        ensures
            final(self).wf(),
            match old(self)@.remembered_response(request@, response) {
                Ok(router) => {
                    &&& final(self)@ == router
                    &&& result matches Ok((kept, tracker))
                    &&& kept == response
                    &&& tracker_for(tracker, old(self)@, request@, response)
                },
                Err(fault) => {
                    &&& final(self)@ == old(self)@
                    &&& result matches Err(LibsyError::ClientCall { model, source })
                    &&& Some(model) == response.served_model
                    &&& source == fault.error()
                },
            },
    {
        if self.state_owners.is_none() {
            return Ok((response, None));
        }
        let model = match response.served_model() {
            Some(model) => model.clone(),
            None => {
                return Ok((response, None));
            },
        };
        let fields = &request.llm_request.extensions;
        let store = match truth_field(fields, "store") {
            Some(store) => store,
            None => true,
        };
        let conversation = conversation_id(fields);
        match &response.llm_response {
            LlmResponse::Agg(answer) => {
                match answer.preserved(WireFormat::OpenAiResponses) {
                    Some(body) => match self.remember_response(body, &model, store, conversation) {
                        Ok(()) => Ok((response, None)),
                        Err(error) => Err(LibsyError::client_call(model, error)),
                    },
                    None => Ok((response, None)),
                }
            },
            LlmResponse::Stream(_) => {
                let conversation = own_text(conversation);
                Ok((response, Some(StateTracker { model, store, conversation })))
            },
        }
    }

    /// Records the state that one event of a tracked stream reports.
    pub fn remember_event(
        &mut self,
        tracker: &StateTracker,
        event: &LlmResponseStreamEvent,
    ) -> (result: Result<(), LlmClientError>)
        requires
            old(self).wf(),
        ensures
            final(self).wf(),
            match event_body(*event) {
                Some(body) => settled(
                    result,
                    old(self)@,
                    final(self)@,
                    old(self)@.recorded(
                        body,
                        tracker.model@,
                        tracker.store,
                        tracker.conversation.deep_view(),
                    ),
                ),
                None => result is Ok && final(self)@ == old(self)@,
            },
    {
        if let Some(preserved) = &event.preservation {
            if preserved.source == WireFormat::OpenAiResponses {
                if let Some(fields) = preserved.raw.as_object() {
                    if let Some(body) = field(fields, "response") {
                        return self.remember_response(
                            body,
                            &tracker.model,
                            tracker.store,
                            borrow_text(&tracker.conversation),
                        );
                    }
                }
            }
        }
        Ok(())
    }
}

impl<C> ClientRouter<C> {
    /// A router never records the owners of more IDs than there is room for.
    pub proof fn law_recorded_state_fits(self)
        requires
            self.wf(),
        ensures
            self@.owners matches Some(owners) ==> owners.dom().finite() && owners.dom().len()
                <= MAX_STATE_OWNERS,
    {
        if let Some(owners) = self.state_owners {
            owners.law_never_over_capacity();
        }
    }
}

/// A routing call gets a prompt only if its response may become the answer: any other model is
/// asked what the algorithm asked, only addressed to it.
pub proof fn law_other_routing_calls_get_no_prompt<C>(
    router: RouterView<C>,
    request: RequestView,
    model: Seq<char>,
)
    requires
        router.routing_answer_target != Some(model),
    ensures
        request.prepared(model, router.routing_prompt_of(model)).llm_request == (LlmRequestView {
            model: Some(model),
            ..request.llm_request
        }),
{
}

/// A continuation goes back to the model that served the state: once the state that a response
/// reports is recorded for a model, a request that continues it is owned by that model, whatever
/// is recorded afterwards.
pub proof fn law_continuations_return_to_their_model<C>(
    router: RouterView<C>,
    body: JsonView,
    model: Seq<char>,
    store: bool,
    conversation: Option<Seq<char>>,
    later: Seq<Recording>,
    fields: Map<Seq<char>, JsonView>,
    trigger: Seq<char>,
    id: Seq<char>,
)
    requires
        router.owners is Some,
        router.recorded(body, model, store, conversation) is Ok,
        reported_state(body, store, conversation).0 == Some(id) || reported_state(
            body,
            store,
            conversation,
        ).1 == Some(id),
        continued_state(fields) == Some((trigger, id)),
    ensures
        ({
            let recorded = router.recorded(body, model, store, conversation)->Ok_0;
            let now = recorded.with_owners(after_recordings(recorded.owners->0, later));
            now.stored_state_owner_of(fields) == Some((model, trigger))
        }),
{
    let recorded = router.recorded(body, model, store, conversation)->Ok_0;
    let (response_id, conversation_id) = reported_state(body, store, conversation);
    law_recorded_ids_read_back(router.owners->0, response_id, conversation_id, model);
    law_owners_are_permanent(recorded.owners->0, later, id);
}

/// State is tracked only if two completion targets have different clients: where they all share
/// one, nothing is recorded and no request is taken for a continuation.
pub proof fn law_shared_client_needs_no_tracking<C>(
    by_model: Map<Seq<char>, Client<C>>,
    target_prompts: Map<Seq<char>, Seq<char>>,
    routing_answer_target: Option<Seq<char>>,
    targets: Set<Seq<char>>,
    identity: usize,
    body: JsonView,
    model: Seq<char>,
    store: bool,
    conversation: Option<Seq<char>>,
    fields: Map<Seq<char>, JsonView>,
)
    requires
        forall|target: Seq<char>|
            targets.contains(target) && by_model.contains_key(target)
                ==> (#[trigger] by_model[target]).identity == identity,
    ensures
        ({
            let router = router_over(by_model, target_prompts, routing_answer_target, targets);
            &&& router.recorded(body, model, store, conversation) == Ok::<
                RouterView<C>,
                RememberFault,
            >(router)
            &&& router.stored_state_owner_of(fields) is None
        }),
{
}

/// Models that cannot answer requests do not count: which clients serve them does not decide
/// whether state is tracked.
pub proof fn law_only_targets_decide_tracking<C>(
    by_model: Map<Seq<char>, Client<C>>,
    other: Map<Seq<char>, Client<C>>,
    targets: Set<Seq<char>>,
)
    requires
        by_model.restrict(targets) == other.restrict(targets),
    ensures
        spans_providers(by_model, targets) == spans_providers(other, targets),
{
    assert forall|target: Seq<char>| targets.contains(target) implies (
    #[trigger] by_model.contains_key(target) == other.contains_key(target)) && (
    by_model.contains_key(target) ==> by_model[target] == other[target]) by {
        assert(by_model.restrict(targets).contains_key(target) == by_model.contains_key(target));
        assert(other.restrict(targets).contains_key(target) == other.contains_key(target));
        if by_model.contains_key(target) {
            assert(by_model.restrict(targets)[target] == by_model[target]);
            assert(other.restrict(targets)[target] == other[target]);
        }
    }
    if spans_providers(by_model, targets) {
        let (a, b) = choose|a: Seq<char>, b: Seq<char>|
            #![trigger by_model.contains_key(a), by_model.contains_key(b)]
            targets.contains(a) && targets.contains(b) && by_model.contains_key(a)
                && by_model.contains_key(b) && by_model[a].identity != by_model[b].identity;
        assert(other.contains_key(a) && other.contains_key(b));
    }
    if spans_providers(other, targets) {
        let (a, b) = choose|a: Seq<char>, b: Seq<char>|
            #![trigger other.contains_key(a), other.contains_key(b)]
            targets.contains(a) && targets.contains(b) && other.contains_key(a)
                && other.contains_key(b) && other[a].identity != other[b].identity;
        assert(by_model.contains_key(a) && by_model.contains_key(b));
    }
}

/// A response that is not stored leaves only its conversation behind: its ID is not recorded.
pub proof fn law_unstored_responses_leave_no_id<C>(
    router: RouterView<C>,
    fields: Map<Seq<char>, JsonView>,
    model: Seq<char>,
    store: bool,
    conversation: Option<Seq<char>>,
    id: Seq<char>,
)
    requires
        router.owners is Some,
        truth_field_of(fields, "store"@) == Some(false),
        reported_state(JsonView::Object(fields), store, conversation).1 != Some(id),
        router.recorded(JsonView::Object(fields), model, store, conversation) is Ok,
    ensures
        router.recorded(JsonView::Object(fields), model, store, conversation)->Ok_0.owners->0.contains_key(
            id,
        ) == router.owners->0.contains_key(id),
{
}

} // verus!
