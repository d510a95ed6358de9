//! Laws of delegated work.

use vstd::prelude::*;

use crate::affinity::AffinityTable;
use crate::protocol::{LibsyError, ModelId, Request};
use crate::subagent::{
    child_of, delegated_stages, fall_through, pinned_model, Category, CategoryModels, ChildStep,
    ClassifyTrigger, Destination, FallThrough, Parent, RuntimeModels, Stage, SubagentRouter,
    SubagentRouterConfig,
};

verus! {

/// A configuration is refused exactly if it identifies children by message hashes or classifies
/// them on user turns, and the refusal says which.
pub proof fn law_children_must_be_identified<P, C>(
    parent: Parent<P>,
    config: SubagentRouterConfig<C>,
    built: Result<SubagentRouter<P, C>, LibsyError>,
)
    requires
        call_ensures(SubagentRouter::<P, C>::new, (parent, config), built),
    ensures
        built is Ok <==> !config.message_hash_fallback && (config.classify_trigger
            == ClassifyTrigger::EveryRequest || config.classify_trigger
            == ClassifyTrigger::NewSession),
        built matches Err(error) ==> error is AlgorithmError && error->AlgorithmError_message@ == (
        if config.message_hash_fallback {
            "sub-agent routing cannot use message_hash_fallback"@
        } else {
            "sub-agent routing cannot use classify_trigger = user_turn"@
        }),
{
}

/// A request goes to the sub-agent's route exactly if it has metadata with both flags set. Every
/// other request goes to the parent, after which the router is named.
pub proof fn law_traffic_is_split<P, C>(
    parent: Parent<P>,
    config: SubagentRouterConfig<C>,
    router: SubagentRouter<P, C>,
    name: &str,
    request: Request,
    destination: Destination<'_, P, C>,
)
    requires
        call_ensures(
            SubagentRouter::<P, C>::new,
            (parent, config),
            Ok::<SubagentRouter<P, C>, LibsyError>(router),
        ),
        call_ensures(SubagentRouter::<P, C>::name, (&router,), name),
        call_ensures(SubagentRouter::<P, C>::route, (&router, &request), destination),
    ensures
        name@ == parent.name@,
        request.metadata is None ==> destination is Parent,
        request.metadata is Some && !request.metadata->0.is_subagent ==> destination is Parent,
        request.metadata is Some && !request.metadata->0.is_delegated_work ==> destination
            is Parent,
        request.metadata is Some && request.metadata->0.is_subagent
            && request.metadata->0.is_delegated_work ==> destination is Subagent,
        destination is Parent ==> *destination->Parent_0 == parent.handle,
{
}

/// The models that are grouped under a category.
pub open spec fn grouped(models: CategoryModels, category: Category) -> Seq<ModelId> {
    if category == Category::Any {
        models.any@
    } else if category == Category::Capable {
        models.capable@
    } else {
        models.efficient@
    }
}

/// Whether a step routes to the first model of a category, or fails where it has none.
pub open spec fn takes_first<C>(
    step: ChildStep<'_, C>,
    models: CategoryModels,
    category: Category,
) -> bool {
    &&& grouped(models, category).len() > 0 ==> step == ChildStep::<C>::Routed(
        grouped(models, category)[0],
    )
    &&& grouped(models, category).len() == 0 ==> step == ChildStep::<C>::Failed(
        LibsyError::NoTargets,
    )
}

/// Whether a request comes from a child that is known by its session and its agent.
pub open spec fn is_from(request: Request, session: Seq<char>, agent: Seq<char>) -> bool {
    &&& request.metadata is Some
    &&& request.metadata->0.session_id is Some
    &&& request.metadata->0.session_id->0@ == session
    &&& request.metadata->0.agent_id is Some
    &&& request.metadata->0.agent_id->0@ == agent
}

/// Whether a child's model is kept for the child of a request.
pub open spec fn is_kept(request: Request, pins: AffinityTable) -> bool {
    exists|session: Seq<char>, agent: Seq<char>|
        is_from(request, session, agent) && (#[trigger] pins.model_of(session, agent)) is Some
}

/// The model that is kept for the child of a request, where one is.
pub open spec fn kept_model(request: Request, pins: AffinityTable) -> ModelId {
    pins.model_of(
        request.metadata->0.session_id->0@,
        request.metadata->0.agent_id->0@,
    )->0
}

/// Delegated work goes to the model that is kept for its child, where each child is classified
/// once. It is else put to the classifier, or goes to the first model of the category that stands
/// for one.
pub proof fn law_delegated_work_is_decided<P, C>(
    parent: Parent<P>,
    config: SubagentRouterConfig<C>,
    router: SubagentRouter<P, C>,
    request: Request,
    route: FallThrough<C>,
    models: CategoryModels,
    pins: AffinityTable,
    step: ChildStep<'_, C>,
)
    requires
        call_ensures(
            SubagentRouter::<P, C>::new,
            (parent, config),
            Ok::<SubagentRouter<P, C>, LibsyError>(router),
        ),
        call_ensures(
            SubagentRouter::<P, C>::route,
            (&router, &request),
            Destination::Subagent(&route),
        ),
        call_ensures(FallThrough::<C>::execute, (&route, &request, &models, &pins), step),
    ensures
        ({
            let kept = config.classify_trigger == ClassifyTrigger::NewSession && is_kept(
                request,
                pins,
            );
            &&& kept ==> step == ChildStep::<C>::Routed(kept_model(request, pins))
            &&& !kept && config.classifier is Custom ==> step is Ask && *step->Ask_1
                == config.classifier->Custom_0
            &&& !kept && config.classifier is DefaultCategory ==> takes_first(
                step,
                models,
                config.classifier->DefaultCategory_0,
            )
        }),
{
    lemma_stages(config);
    lemma_pinned(request, pins);
    reveal_with_fuel(fall_through, 3);
}

proof fn lemma_stages<C>(config: SubagentRouterConfig<C>)
    ensures
        config.classify_trigger == ClassifyTrigger::NewSession ==> {
            &&& delegated_stages(config).len() == 3
            &&& delegated_stages(config)[0] == Stage::<C>::Affinity
            &&& delegated_stages(config)[1] == Stage::Gate(config.classifier)
            &&& delegated_stages(config)[2] == Stage::<C>::Default(config.default_target)
        },
        config.classify_trigger != ClassifyTrigger::NewSession ==> {
            &&& delegated_stages(config).len() == 2
            &&& delegated_stages(config)[0] == Stage::Gate(config.classifier)
            &&& delegated_stages(config)[1] == Stage::<C>::Default(config.default_target)
        },
{
}

proof fn lemma_pinned(request: Request, pins: AffinityTable)
    ensures
        pinned_model(request@, pins) is Some <==> is_kept(request, pins),
        is_kept(request, pins) ==> pinned_model(request@, pins) == Some(
            kept_model(request, pins),
        ),
{
    if let Some((session, agent)) = child_of(request@.metadata) {
        assert(is_from(request, session, agent));
        if pins.model_of(session, agent) is Some {
            assert(is_kept(request, pins));
        }
    }
}

/// What the classifier answers is where the work goes. Where it abstains, the work goes to the
/// first model of the default category.
pub proof fn law_classified_work_is_decided<P, C>(
    parent: Parent<P>,
    config: SubagentRouterConfig<C>,
    router: SubagentRouter<P, C>,
    request: Request,
    route: FallThrough<C>,
    models: CategoryModels,
    pins: AffinityTable,
    stage: usize,
    classifier: C,
    answer: Option<ModelId>,
    step: ChildStep<'_, C>,
)
    requires
        call_ensures(
            SubagentRouter::<P, C>::new,
            (parent, config),
            Ok::<SubagentRouter<P, C>, LibsyError>(router),
        ),
        call_ensures(
            SubagentRouter::<P, C>::route,
            (&router, &request),
            Destination::Subagent(&route),
        ),
        call_ensures(
            FallThrough::<C>::execute,
            (&route, &request, &models, &pins),
            ChildStep::Ask(stage, &classifier),
        ),
        call_ensures(FallThrough::<C>::classified, (&route, stage, answer, &models), step),
    ensures
        answer matches Some(model) ==> step == ChildStep::<C>::Routed(model),
        answer is None ==> takes_first(step, models, config.default_target),
{
    lemma_stages(config);
    reveal_with_fuel(fall_through, 3);
}

/// Where each child is classified once, a child that has no model yet is kept with the one that
/// its work went to. Nothing else is kept, and no kept child changes its model.
pub proof fn law_routed_children_are_kept<P, C>(
    parent: Parent<P>,
    config: SubagentRouterConfig<C>,
    router: SubagentRouter<P, C>,
    request: Request,
    route: FallThrough<C>,
    model: ModelId,
    pins: &mut AffinityTable,
    session: Seq<char>,
    agent: Seq<char>,
)
    requires
        call_ensures(
            SubagentRouter::<P, C>::new,
            (parent, config),
            Ok::<SubagentRouter<P, C>, LibsyError>(router),
        ),
        call_ensures(
            SubagentRouter::<P, C>::route,
            (&router, &request),
            Destination::Subagent(&route),
        ),
        call_ensures(FallThrough::<C>::settle, (&route, &request, &model, pins), ()),
    ensures
        config.classify_trigger == ClassifyTrigger::NewSession && is_from(request, session, agent)
            && old(pins).model_of(session, agent) is None ==> final(pins).model_of(session, agent)
            == Some(model),
        !(config.classify_trigger == ClassifyTrigger::NewSession && is_from(request, session, agent)
            && old(pins).model_of(session, agent) is None) ==> final(pins).model_of(session, agent)
            == old(pins).model_of(session, agent),
{
    let child = child_of(request@.metadata);
    assert(child == Some((session, agent)) <==> is_from(request, session, agent));
}

/// Where each child is classified once, later work of a child goes where its first work went,
/// over any models, and without asking the classifier.
pub proof fn law_later_work_follows_the_first<P, C>(
    parent: Parent<P>,
    config: SubagentRouterConfig<C>,
    router: SubagentRouter<P, C>,
    first: Request,
    later: Request,
    route: FallThrough<C>,
    model: ModelId,
    pins: &mut AffinityTable,
    session: Seq<char>,
    agent: Seq<char>,
    models: CategoryModels,
    step: ChildStep<'_, C>,
)
    requires
        config.classify_trigger == ClassifyTrigger::NewSession,
        call_ensures(
            SubagentRouter::<P, C>::new,
            (parent, config),
            Ok::<SubagentRouter<P, C>, LibsyError>(router),
        ),
        call_ensures(
            SubagentRouter::<P, C>::route,
            (&router, &first),
            Destination::Subagent(&route),
        ),
        is_from(first, session, agent),
        is_from(later, session, agent),
        old(pins).model_of(session, agent) is None,
        call_ensures(FallThrough::<C>::settle, (&route, &first, &model, pins), ()),
        call_ensures(FallThrough::<C>::execute, (&route, &later, &models, &*final(pins)), step),
    ensures
        step == ChildStep::<C>::Routed(model),
{
    lemma_stages(config);
    assert(final(pins).model_of(session, agent) == Some(model));
    assert(is_kept(later, *final(pins)));
    lemma_pinned(later, *final(pins));
    reveal_with_fuel(fall_through, 3);
}

/// A category is read as its own models, and delegated work is routed over the sub-agent's models
/// and no others.
pub proof fn law_models_are_grouped(
    models: CategoryModels,
    category: Category,
    group: &Vec<ModelId>,
    runtime: RuntimeModels,
    own: Result<&CategoryModels, LibsyError>,
)
    requires
        call_ensures(CategoryModels::models_for, (&models, category), group),
        call_ensures(RuntimeModels::for_subagent, (&runtime,), own),
    ensures
        group@ == grouped(models, category),
        runtime.subagent matches Some(held) ==> own is Ok && *own->Ok_0 == held,
        runtime.subagent is None ==> own is Err && own->Err_0 == LibsyError::NoTargets,
{
}

/// All work of a fixed target goes to the first model of the `Any` category, for every child.
pub proof fn law_fixed_targets_take_the_first_model<P, C>(
    parent: Parent<P>,
    config: SubagentRouterConfig<C>,
    built: Result<SubagentRouter<P, C>, LibsyError>,
    request: Request,
    route: FallThrough<C>,
    models: CategoryModels,
    pins: AffinityTable,
    step: ChildStep<'_, C>,
)
    requires
        call_ensures(SubagentRouterConfig::<C>::fixed_target, (), config),
        call_ensures(SubagentRouter::<P, C>::new, (parent, config), built),
        built is Ok ==> call_ensures(
            SubagentRouter::<P, C>::route,
            (&built->Ok_0, &request),
            Destination::Subagent(&route),
        ),
        call_ensures(FallThrough::<C>::execute, (&route, &request, &models, &pins), step),
    ensures
        built is Ok,
        takes_first(step, models, Category::Any),
{
    lemma_stages(config);
}

/// A kept child is found with the model that it was kept with first, and no other child is.
pub proof fn law_kept_children_are_found(
    table: &mut AffinityTable,
    session: &str,
    agent: &str,
    model: ModelId,
    other_session: &str,
    other_agent: &str,
    before: Option<ModelId>,
    after: Option<ModelId>,
)
    requires
        call_ensures(AffinityTable::find, (&*old(table), other_session, other_agent), before),
        call_ensures(AffinityTable::keep, (table, session, agent, &model), ()),
        call_ensures(AffinityTable::find, (&*final(table), other_session, other_agent), after),
    ensures
        before is Some ==> after == before,
        before is None && other_session@ == session@ && other_agent@ == agent@ ==> after == Some(
            model,
        ),
        other_session@ != session@ || other_agent@ != agent@ ==> after == before,
{
}

/// No child is found in a new table.
pub proof fn law_no_child_is_kept_at_first(
    table: AffinityTable,
    session: &str,
    agent: &str,
    found: Option<ModelId>,
)
    requires
        call_ensures(AffinityTable::new, (), table),
        call_ensures(AffinityTable::find, (&table, session, agent), found),
    ensures
        found is None,
{
}

} // verus!
