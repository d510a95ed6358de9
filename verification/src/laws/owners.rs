//! Laws of the owners of response state.

use vstd::prelude::*;

use crate::protocol::{LlmClientError, ModelId};
use crate::state_owners::{remembered, settled, with_owner, StateOwners};

verus! {

/// Whether `id` is given and belongs to a model other than `model`.
pub open spec fn taken(
    owners: Map<Seq<char>, Seq<char>>,
    id: Option<Seq<char>>,
    model: Seq<char>,
) -> bool {
    id is Some && owners.contains_key(id->0) && owners[id->0] != model
}

/// The number of given IDs that have no owner yet.
pub open spec fn new_ids(
    owners: Map<Seq<char>, Seq<char>>,
    response_id: Option<Seq<char>>,
    conversation_id: Option<Seq<char>>,
) -> int {
    (if response_id is Some && !owners.contains_key(response_id->0) {
        1int
    } else {
        0
    }) + (if conversation_id is Some && conversation_id != response_id && !owners.contains_key(
        conversation_id->0,
    ) {
        1int
    } else {
        0
    })
}

/// Whether two IDs were recorded for a model, or rightly refused.
///
/// They are a conflict exactly if another model holds one of them, and over the limit exactly if
/// they are no conflict and the new ones among them do not fit. A refusal changes nothing.
/// Otherwise each given ID belongs to the model, and all other IDs are as they were.
pub open spec fn recorded_for(
    before: Map<Seq<char>, Seq<char>>,
    after: Map<Seq<char>, Seq<char>>,
    response_id: Option<Seq<char>>,
    conversation_id: Option<Seq<char>>,
    model: Seq<char>,
    result: Result<(), LlmClientError>,
) -> bool {
    let conflict = taken(before, response_id, model) || taken(before, conversation_id, model);
    let full = before.dom().len() + new_ids(before, response_id, conversation_id) > 65_536;
    &&& conflict ==> result == Err::<(), LlmClientError>(LlmClientError::ResponseStateConflict)
    &&& !conflict && full ==> result == Err::<(), LlmClientError>(
        LlmClientError::ResponseStateLimitExceeded { limit: 65_536 },
    )
    &&& conflict || full ==> after == before
    &&& !conflict && !full ==> {
        &&& result is Ok
        &&& response_id is Some ==> after.contains_key(response_id->0) && after[response_id->0]
            == model
        &&& conversation_id is Some ==> after.contains_key(conversation_id->0)
            && after[conversation_id->0] == model
        &&& forall|id: Seq<char>|
            response_id != Some(id) && conversation_id != Some(id) ==> (
            #[trigger] after.contains_key(id) <==> before.contains_key(id))
        &&& forall|id: Seq<char>| #[trigger]
            before.contains_key(id) ==> after.contains_key(id) && after[id] == before[id]
    }
}

/// A settled recording is one that was made or rightly refused.
pub proof fn lemma_settled_recordings(
    before: Map<Seq<char>, Seq<char>>,
    after: Map<Seq<char>, Seq<char>>,
    response_id: Option<Seq<char>>,
    conversation_id: Option<Seq<char>>,
    model: Seq<char>,
    result: Result<(), LlmClientError>,
)
    requires
        before.dom().finite(),
        settled(result, before, after, remembered(before, response_id, conversation_id, model)),
    ensures
        recorded_for(before, after, response_id, conversation_id, model, result),
{
    let with_response = with_owner(before, response_id, model);
    let merged = with_owner(with_response, conversation_id, model);
    if let Some(id) = response_id {
        assert(with_response.dom() =~= before.dom().insert(id));
    }
    if let Some(id) = conversation_id {
        assert(merged.dom() =~= with_response.dom().insert(id));
    }
    assert(!taken(before, response_id, model) && !taken(before, conversation_id, model)
        ==> merged.dom().len() == before.dom().len() + new_ids(
        before,
        response_id,
        conversation_id,
    ));
}

/// IDs are recorded for a model, both or neither, unless another model holds one of them or they
/// do not fit.
pub proof fn law_ids_are_recorded_or_refused(
    owners: &mut StateOwners,
    response_id: Option<&str>,
    conversation_id: Option<&str>,
    model: ModelId,
    result: Result<(), LlmClientError>,
)
    requires
        old(owners).wf(),
        call_ensures(StateOwners::remember, (owners, response_id, conversation_id, &model), result),
    ensures
        recorded_for(
            old(owners)@,
            final(owners)@,
            response_id.deep_view(),
            conversation_id.deep_view(),
            model@,
            result,
        ),
{
    old(owners).law_never_over_capacity();
    lemma_settled_recordings(
        old(owners)@,
        final(owners)@,
        response_id.deep_view(),
        conversation_id.deep_view(),
        model@,
        result,
    );
}

/// An ID that was recorded is found with its model.
pub proof fn law_recorded_ids_are_found(
    owners: &mut StateOwners,
    response_id: Option<&str>,
    conversation_id: Option<&str>,
    model: ModelId,
    result: Result<(), LlmClientError>,
    id: &str,
    found: Option<&ModelId>,
)
    requires
        call_ensures(StateOwners::remember, (owners, response_id, conversation_id, &model), result),
        result is Ok,
        response_id.deep_view() == Some(id@) || conversation_id.deep_view() == Some(id@),
        call_ensures(StateOwners::owner, (&*final(owners), id), found),
    ensures
        found is Some,
        found->0@ == model@,
{
}

/// Nothing is found where nothing was recorded.
pub proof fn law_nothing_is_found_at_first(owners: StateOwners, id: &str, found: Option<&ModelId>)
    requires
        call_ensures(StateOwners::new, (), owners),
        call_ensures(StateOwners::owner, (&owners, id), found),
    ensures
        found is None,
{
}

/// Owners are counted by the IDs that they hold.
pub proof fn law_owners_are_counted(owners: StateOwners, len: usize)
    requires
        call_ensures(StateOwners::len, (&owners,), len),
    ensures
        len == owners@.dom().len(),
{
}

} // verus!
