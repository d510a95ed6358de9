//! Which model a child agent stays with.

use vstd::prelude::*;

use crate::protocol::ModelId;
use crate::text::same_text;

verus! {

/// A child and its model.
struct Pin {
    session: String,
    agent: String,
    model: ModelId,
}

/// The models that children were routed to, by session and agent.
pub struct AffinityTable {
    pins: Vec<Pin>,
}

/// The model of the first pin for a child.
spec fn first_pin(pins: Seq<Pin>, session: Seq<char>, agent: Seq<char>) -> Option<ModelId>
    decreases pins.len(),
{
    if pins.len() == 0 {
        None
    } else if pins[0].session@ == session && pins[0].agent@ == agent {
        Some(pins[0].model)
    } else {
        first_pin(pins.drop_first(), session, agent)
    }
}

/// A pin at the end counts only for a child without one.
proof fn lemma_pin_pushed(pins: Seq<Pin>, pin: Pin, session: Seq<char>, agent: Seq<char>)
    ensures
        first_pin(pins.push(pin), session, agent) == (if first_pin(pins, session, agent) is Some {
            first_pin(pins, session, agent)
        } else if pin.session@ == session && pin.agent@ == agent {
            Some(pin.model)
        } else {
            None
        }),
    decreases pins.len(),
{
    let pushed = pins.push(pin);
    if pins.len() == 0 {
        assert(pushed.drop_first() =~= Seq::<Pin>::empty());
        assert(first_pin(pushed.drop_first(), session, agent) is None);
    } else {
        assert(pushed.drop_first() == pins.drop_first().push(pin));
        lemma_pin_pushed(pins.drop_first(), pin, session, agent);
    }
}

/// Whether `after` is `before` with a child kept with a model, unless it already had one.
pub open spec fn keeps(
    before: AffinityTable,
    after: AffinityTable,
    session: Seq<char>,
    agent: Seq<char>,
    model: ModelId,
) -> bool {
    forall|other_session: Seq<char>, other_agent: Seq<char>| #[trigger]
        after.model_of(other_session, other_agent) == (if other_session == session && other_agent
            == agent && before.model_of(session, agent) is None {
            Some(model)
        } else {
            before.model_of(other_session, other_agent)
        })
}

impl AffinityTable {
    /// The model that a child was routed to.
    pub closed spec fn model_of(self, session: Seq<char>, agent: Seq<char>) -> Option<ModelId> {
        first_pin(self.pins@, session, agent)
    }

    /// No child was routed yet.
    pub fn new() -> (table: Self)
        ensures
            forall|session: Seq<char>, agent: Seq<char>| #[trigger]
                table.model_of(session, agent) is None,
    {
        AffinityTable { pins: Vec::new() }
    }

    /// The model that a child was routed to.
    pub fn find(&self, session: &str, agent: &str) -> (model: Option<ModelId>)
        ensures
            model == self.model_of(session@, agent@),
    {
        let pins = &self.pins;
        proof {
            assert(pins@.skip(0) == pins@);
        }
        for index in 0..pins.len()
            invariant
                pins@ == self.pins@,
                self.model_of(session@, agent@) == first_pin(
                    pins@.skip(index as int),
                    session@,
                    agent@,
                ),
        {
            proof {
                assert(pins@.skip(index as int).drop_first() == pins@.skip(index as int + 1));
            }
            if same_text(pins[index].session.as_str(), session) && same_text(
                pins[index].agent.as_str(),
                agent,
            ) {
                return Some(pins[index].model.clone());
            }
        }
        None
    }

    /// Keeps a child with a model, unless it already has one.
    pub fn keep(&mut self, session: &str, agent: &str, model: &ModelId)
        ensures
            keeps(*old(self), *final(self), session@, agent@, *model),
    {
        if self.find(session, agent).is_some() {
            return ;
        }
        let pin = Pin { session: session.to_owned(), agent: agent.to_owned(), model: model.clone() };
        self.pins.push(pin);
        proof {
            assert forall|other_session: Seq<char>, other_agent: Seq<char>| #[trigger]
                self.model_of(other_session, other_agent) == (if other_session == session@
                    && other_agent == agent@ && old(self).model_of(session@, agent@) is None {
                    Some(*model)
                } else {
                    old(self).model_of(other_session, other_agent)
                }) by {
                lemma_pin_pushed(old(self).pins@, pin, other_session, other_agent);
            }
        }
    }
}

} // verus!
