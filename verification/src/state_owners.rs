//! Which model holds the state behind a stored response or a conversation.

use vstd::hash_map::StringHashMap;
use vstd::prelude::*;

use crate::protocol::{LlmClientError, ModelId};
use crate::text::same_text;

verus! {

/// The number of response and conversation IDs that can be recorded.
pub const MAX_STATE_OWNERS: usize = 65_536;

/// Stored response IDs and conversation IDs, mapped to the model that served them.
///
/// Earlier response IDs are kept because a client can continue from any stored response. New
/// IDs are refused at capacity rather than forgetting where an earlier response is stored.
pub struct StateOwners {
    by_id: StringHashMap<ModelId>,
}

/// Why IDs were not recorded.
pub enum RememberFault {
    /// Another model holds one of them.
    Conflict,
    /// There is no room for them.
    Limit,
}

impl View for StateOwners {
    type V = Map<Seq<char>, Seq<char>>;

    /// The name of the owner of each recorded ID.
    closed spec fn view(&self) -> Map<Seq<char>, Seq<char>> {
        self.by_id@.map_values(|model: ModelId| model@)
    }
}

/// Whether `id` is given and belongs to a model other than `model`.
pub open spec fn held_by_another(
    owners: Map<Seq<char>, Seq<char>>,
    id: Option<Seq<char>>,
    model: Seq<char>,
) -> bool {
    id matches Some(held) && owners.contains_key(held) && owners[held] != model
}

/// The owners once `id`, if given, belongs to `model`.
pub open spec fn with_owner(
    owners: Map<Seq<char>, Seq<char>>,
    id: Option<Seq<char>>,
    model: Seq<char>,
) -> Map<Seq<char>, Seq<char>> {
    match id {
        Some(held) => owners.insert(held, model),
        None => owners,
    }
}

/// The owners once both IDs belong to `model`, or why they cannot.
pub open spec fn remembered(
    owners: Map<Seq<char>, Seq<char>>,
    response_id: Option<Seq<char>>,
    conversation_id: Option<Seq<char>>,
    model: Seq<char>,
) -> Result<Map<Seq<char>, Seq<char>>, RememberFault> {
    let merged = with_owner(with_owner(owners, response_id, model), conversation_id, model);
    if held_by_another(owners, response_id, model) || held_by_another(
        owners,
        conversation_id,
        model,
    ) {
        Err(RememberFault::Conflict)
    } else if merged.dom().len() > MAX_STATE_OWNERS {
        Err(RememberFault::Limit)
    } else {
        Ok(merged)
    }
}

impl RememberFault {
    /// The error that a fault is reported as.
    pub open spec fn error(self) -> LlmClientError {
        match self {
            RememberFault::Conflict => LlmClientError::ResponseStateConflict,
            RememberFault::Limit => LlmClientError::ResponseStateLimitExceeded {
                limit: MAX_STATE_OWNERS,
            },
        }
    }
}

/// Whether a recording ended as `expected`: with the new contents, or with the fault's error and
/// the contents as they were.
pub open spec fn settled<V>(
    result: Result<(), LlmClientError>,
    before: V,
    after: V,
    expected: Result<V, RememberFault>,
) -> bool {
    match expected {
        Ok(contents) => result is Ok && after == contents,
        Err(fault) => result == Err::<(), LlmClientError>(fault.error()) && after == before,
    }
}

impl StateOwners {
    /// No more IDs are recorded than there is room for.
    pub closed spec fn wf(self) -> bool {
        &&& self.by_id@.dom().finite()
        &&& self.by_id@.dom().len() <= MAX_STATE_OWNERS
    }

    /// Owners never exceed their capacity.
    pub proof fn law_never_over_capacity(self)
        requires
            self.wf(),
        ensures
            self@.dom().finite(),
            self@.dom().len() <= MAX_STATE_OWNERS,
    {
        assert(self@.dom() == self.by_id@.dom());
    }

    /// No IDs recorded.
    pub fn new() -> (owners: Self)
        ensures
            owners.wf(),
            owners@ == Map::<Seq<char>, Seq<char>>::empty(),
    {
        StateOwners { by_id: StringHashMap::new() }
    }

    /// The number of recorded IDs.
    pub fn len(&self) -> (len: usize)
        ensures
            len == self@.dom().len(),
    {
        proof {
            assert(self@.dom() == self.by_id@.dom());
        }
        self.by_id.len()
    }

    /// The model that holds the state of `id`.
    pub fn owner(&self, id: &str) -> (owner: Option<&ModelId>)
        ensures
            owner is Some <==> self@.contains_key(id@),
            owner matches Some(model) ==> model@ == self@[id@],
    {
        self.by_id.get(id)
    }

    /// Whether `id` is recorded, and for another model than `model`.
    fn standing(&self, id: &str, model: &ModelId) -> (standing: Standing)
        ensures
            standing == (if !self@.contains_key(id@) {
                Standing::New
            } else if self@[id@] != model@ {
                Standing::Foreign
            } else {
                Standing::Known
            }),
    {
        match self.by_id.get(id) {
            Some(owner) => if *owner == *model {
                Standing::Known
            } else {
                Standing::Foreign
            },
            None => Standing::New,
        }
    }

    /// Records `model` as the owner of `id`.
    fn record(&mut self, id: &str, model: &ModelId)
        requires
            old(self).wf(),
            old(self)@.insert(id@, model@).dom().len() <= MAX_STATE_OWNERS,
        ensures
            final(self).wf(),
            final(self)@ == old(self)@.insert(id@, model@),
    {
        self.by_id.insert(id.to_owned(), model.clone());
        proof {
            assert(self@ =~= old(self)@.insert(id@, model@));
            assert(self@.dom() == self.by_id@.dom());
        }
    }

    /// Records `model` as the owner of both IDs, or of neither.
    ///
    /// IDs that another model holds are a conflict; IDs beyond capacity are refused. IDs that
    /// `model` already holds need no room.
    pub fn remember(
        &mut self,
        response_id: Option<&str>,
        conversation_id: Option<&str>,
        model: &ModelId,
    ) -> (result: Result<(), LlmClientError>)
        requires
            old(self).wf(),
        ensures
            final(self).wf(),
            settled(
                result,
                old(self)@,
                final(self)@,
                remembered(old(self)@, response_id.deep_view(), conversation_id.deep_view(), model@),
            ),
    {
        let ghost before = self@;
        let ghost merged = with_owner(
            with_owner(before, response_id.deep_view(), model@),
            conversation_id.deep_view(),
            model@,
        );
        let conversation_id = match (response_id, conversation_id) {
            (Some(response), Some(conversation)) if same_text(response, conversation) => None,
            (_, conversation) => conversation,
        };
        let mut new_ids: usize = 0;
        if let Some(id) = response_id {
            match self.standing(id, model) {
                Standing::Foreign => {
                    return Err(LlmClientError::ResponseStateConflict);
                },
                Standing::New => {
                    new_ids = new_ids + 1;
                },
                Standing::Known => {},
            }
        }
        if let Some(id) = conversation_id {
            match self.standing(id, model) {
                Standing::Foreign => {
                    return Err(LlmClientError::ResponseStateConflict);
                },
                Standing::New => {
                    new_ids = new_ids + 1;
                },
                Standing::Known => {},
            }
        }
        proof {
            let with_response = with_owner(before, response_id.deep_view(), model@);
            assert(merged =~= with_owner(with_response, conversation_id.deep_view(), model@));
            assert(before.dom() == self.by_id@.dom());
            if let Some(id) = response_id {
                assert(with_response.dom() == before.dom().insert(id@));
            }
            if let Some(id) = conversation_id {
                assert(merged.dom() == with_response.dom().insert(id@));
            }
            assert(merged.dom().len() == before.dom().len() + new_ids);
        }
        if self.by_id.len() + new_ids > MAX_STATE_OWNERS {
            return Err(LlmClientError::ResponseStateLimitExceeded { limit: MAX_STATE_OWNERS });
        }
        if let Some(id) = response_id {
            if !self.by_id.contains_key(id) {
                self.record(id, model);
            }
        }
        if let Some(id) = conversation_id {
            if !self.by_id.contains_key(id) {
                proof {
                    assert(self@.insert(id@, model@) =~= merged);
                }
                self.record(id, model);
            }
        }
        proof {
            assert(self@ =~= merged);
        }
        Ok(())
    }
}

/// How a model stands to an ID.
enum Standing {
    /// The ID is not recorded.
    New,
    /// The model holds the ID.
    Known,
    /// Another model holds the ID.
    Foreign,
}

/// One attempt to record IDs.
pub struct Recording {
    pub response_id: Option<Seq<char>>,
    pub conversation_id: Option<Seq<char>>,
    pub model: Seq<char>,
}

/// The owners after one attempt, whether or not it was refused.
pub open spec fn after_recording(
    owners: Map<Seq<char>, Seq<char>>,
    recording: Recording,
) -> Map<Seq<char>, Seq<char>> {
    match remembered(
        owners,
        recording.response_id,
        recording.conversation_id,
        recording.model,
    ) {
        Ok(merged) => merged,
        Err(_) => owners,
    }
}

/// The owners after a series of attempts.
pub open spec fn after_recordings(
    owners: Map<Seq<char>, Seq<char>>,
    recordings: Seq<Recording>,
) -> Map<Seq<char>, Seq<char>>
    decreases recordings.len(),
{
    if recordings.len() == 0 {
        owners
    } else {
        after_recording(after_recordings(owners, recordings.drop_last()), recordings.last())
    }
}

/// An ID keeps its owner: whatever is recorded afterwards, it stays recorded, and for the same
/// model.
pub proof fn law_owners_are_permanent(
    owners: Map<Seq<char>, Seq<char>>,
    recordings: Seq<Recording>,
    id: Seq<char>,
)
    requires
        owners.contains_key(id),
    ensures
        after_recordings(owners, recordings).contains_key(id),
        after_recordings(owners, recordings)[id] == owners[id],
    decreases recordings.len(),
{
    if recordings.len() > 0 {
        law_owners_are_permanent(owners, recordings.drop_last(), id);
    }
}

/// Owners within capacity stay within capacity, whatever is recorded.
pub proof fn law_capacity_is_kept(
    owners: Map<Seq<char>, Seq<char>>,
    recordings: Seq<Recording>,
)
    requires
        owners.dom().finite(),
        owners.dom().len() <= MAX_STATE_OWNERS,
    ensures
        after_recordings(owners, recordings).dom().finite(),
        after_recordings(owners, recordings).dom().len() <= MAX_STATE_OWNERS,
    decreases recordings.len(),
{
    if recordings.len() > 0 {
        law_capacity_is_kept(owners, recordings.drop_last());
    }
}

/// Recording grants both IDs or neither: where it succeeds, each given ID belongs to the model,
/// and every other ID is as it was.
pub proof fn law_recorded_ids_read_back(
    owners: Map<Seq<char>, Seq<char>>,
    response_id: Option<Seq<char>>,
    conversation_id: Option<Seq<char>>,
    model: Seq<char>,
)
    ensures
        remembered(owners, response_id, conversation_id, model) matches Ok(merged) ==> {
            &&& response_id matches Some(id) ==> merged.contains_key(id) && merged[id] == model
            &&& conversation_id matches Some(id) ==> merged.contains_key(id) && merged[id] == model
            &&& forall|id: Seq<char>|
                response_id != Some(id) && conversation_id != Some(id) ==> (
                #[trigger] merged.contains_key(id) <==> owners.contains_key(id)) && merged[id]
                    == owners[id]
        },
{
}

/// IDs that a model already holds can be recorded for it again at any time, even at capacity,
/// and nothing changes.
pub proof fn law_repeated_recording_needs_no_room(
    owners: Map<Seq<char>, Seq<char>>,
    response_id: Option<Seq<char>>,
    conversation_id: Option<Seq<char>>,
    model: Seq<char>,
)
    requires
        owners.dom().len() <= MAX_STATE_OWNERS,
        response_id matches Some(id) ==> owners.contains_key(id) && owners[id] == model,
        conversation_id matches Some(id) ==> owners.contains_key(id) && owners[id] == model,
    ensures
        remembered(owners, response_id, conversation_id, model) == Ok::<
            Map<Seq<char>, Seq<char>>,
            RememberFault,
        >(owners),
{
    assert(with_owner(owners, response_id, model) =~= owners);
    assert(with_owner(owners, conversation_id, model) =~= owners);
}

/// At capacity every new ID is refused, unless another model holds one of the given IDs, which
/// is a conflict whether or not there is room.
pub proof fn law_new_ids_are_refused_at_capacity(
    owners: Map<Seq<char>, Seq<char>>,
    response_id: Option<Seq<char>>,
    conversation_id: Option<Seq<char>>,
    model: Seq<char>,
)
    requires
        owners.dom().finite(),
        owners.dom().len() == MAX_STATE_OWNERS,
        (response_id matches Some(id) && !owners.contains_key(id)) || (
        conversation_id matches Some(id) && !owners.contains_key(id)),
    ensures
        remembered(owners, response_id, conversation_id, model) == (if held_by_another(
            owners,
            response_id,
            model,
        ) || held_by_another(owners, conversation_id, model) {
            Err::<Map<Seq<char>, Seq<char>>, RememberFault>(RememberFault::Conflict)
        } else {
            Err::<Map<Seq<char>, Seq<char>>, RememberFault>(RememberFault::Limit)
        }),
{
    let with_response = with_owner(owners, response_id, model);
    let merged = with_owner(with_response, conversation_id, model);
    if let Some(id) = response_id {
        assert(with_response.dom() == owners.dom().insert(id));
    }
    if let Some(id) = conversation_id {
        assert(merged.dom() == with_response.dom().insert(id));
    }
}

} // verus!
