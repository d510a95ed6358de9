//! Delegated sub-agent routing around an arbitrary parent algorithm.

use vstd::prelude::*;

use crate::affinity::AffinityTable;
use crate::protocol::{LibsyError, MetadataView, ModelId, Request, RequestView};

verus! {

/// A group of models.
#[derive(Clone, Copy, Debug, PartialEq, Eq, Structural)]
pub enum Category {
    Any,
    Capable,
    Efficient,
}

/// When a child is classified.
#[derive(Clone, Copy, Debug, PartialEq, Eq, Structural)]
pub enum ClassifyTrigger {
    /// On every request.
    EveryRequest,
    /// On the first request of a session.
    NewSession,
    /// On every user turn.
    UserTurn,
}

/// Models by category, each in order of preference.
pub struct CategoryModels {
    pub any: Vec<ModelId>,
    pub capable: Vec<ModelId>,
    pub efficient: Vec<ModelId>,
}

impl CategoryModels {
    /// The models of a category.
    pub open spec fn of(self, category: Category) -> Seq<ModelId> {
        match category {
            Category::Any => self.any@,
            Category::Capable => self.capable@,
            Category::Efficient => self.efficient@,
        }
    }

    /// The models of a category.
    pub fn models_for(&self, category: Category) -> (models: &Vec<ModelId>)
        ensures
            models@ == self.of(category),
    {
        match category {
            Category::Any => &self.any,
            Category::Capable => &self.capable,
            Category::Efficient => &self.efficient,
        }
    }
}

/// The models that a request is routed over: the caller's, and those of its sub-agents.
pub struct RuntimeModels {
    pub models: CategoryModels,
    pub subagent: Option<CategoryModels>,
}

impl RuntimeModels {
    /// The models that delegated work is routed over: the sub-agent's own, never the caller's.
    pub fn for_subagent(&self) -> (models: Result<&CategoryModels, LibsyError>)
        ensures
            match models {
                Ok(held) => self.subagent == Some(*held),
                Err(error) => self.subagent is None && error == LibsyError::NoTargets,
            },
    {
        match &self.subagent {
            Some(models) => Ok(models),
            None => Err(LibsyError::NoTargets),
        }
    }
}

/// What decides a delegated request.
pub enum ChildClassifier<C> {
    /// Always the first model of a category.
    DefaultCategory(Category),
    /// A classifier of the host, which may abstain.
    Custom(C),
}

/// Runtime components for delegated sub-agent routing.
pub struct SubagentRouterConfig<C> {
    /// Classifier invoked for delegated work according to `classify_trigger`.
    pub classifier: ChildClassifier<C>,
    /// Child model category used when `classifier` abstains.
    pub default_target: Category,
    /// Controls whether each child is classified once or on every request.
    pub classify_trigger: ClassifyTrigger,
    /// Unsupported for child routing because child identity must come from harness metadata.
    pub message_hash_fallback: bool,
}

impl<C> SubagentRouterConfig<C> {
    /// Routes all delegated work to the first model in the sub-agent `Any` category.
    pub fn fixed_target() -> (config: Self)
        ensures
            config == (SubagentRouterConfig::<C> {
                classifier: ChildClassifier::DefaultCategory(Category::Any),
                default_target: Category::Any,
                classify_trigger: ClassifyTrigger::EveryRequest,
                message_hash_fallback: false,
            }),
    {
        SubagentRouterConfig {
            classifier: ChildClassifier::DefaultCategory(Category::Any),
            default_target: Category::Any,
            classify_trigger: ClassifyTrigger::EveryRequest,
            message_hash_fallback: false,
        }
    }
}

/// One step in deciding a delegated request.
pub enum Stage<C> {
    /// The model that the child was routed to before.
    Affinity,
    /// The classifier.
    Gate(ChildClassifier<C>),
    /// The first model of a category.
    Default(Category),
}

/// Stages that are asked in order until one of them decides.
pub struct FallThrough<C> {
    pub name: String,
    /// Whether a child stays with the model that it was routed to.
    pub keeps_affinity: bool,
    pub classifiers: Vec<Stage<C>>,
}

/// The algorithm for traffic that is not delegated.
pub struct Parent<P> {
    pub name: String,
    pub handle: P,
}

/// Routes delegated work independently while preserving the parent algorithm for other traffic.
pub struct SubagentRouter<P, C> {
    parent: Parent<P>,
    subagent: FallThrough<C>,
}

/// Where a request is routed.
pub enum Destination<'a, P, C> {
    Parent(&'a P),
    Subagent(&'a FallThrough<C>),
}

/// The stages of a delegated route.
pub open spec fn delegated_stages<C>(config: SubagentRouterConfig<C>) -> Seq<Stage<C>> {
    let decide = seq![Stage::Gate(config.classifier), Stage::Default(config.default_target)];
    if config.classify_trigger == ClassifyTrigger::NewSession {
        seq![Stage::Affinity] + decide
    } else {
        decide
    }
}

/// Why a configuration cannot identify delegated children safely; `None` if it can.
pub open spec fn config_fault<C>(config: SubagentRouterConfig<C>) -> Option<Seq<char>> {
    if config.message_hash_fallback {
        Some("sub-agent routing cannot use message_hash_fallback"@)
    } else if config.classify_trigger == ClassifyTrigger::UserTurn {
        Some("sub-agent routing cannot use classify_trigger = user_turn"@)
    } else {
        None
    }
}

impl<P, C> SubagentRouter<P, C> {
    /// The algorithm for traffic that is not delegated.
    pub closed spec fn parent_of(self) -> Parent<P> {
        self.parent
    }

    /// The route of delegated work.
    pub closed spec fn subagent_of(self) -> FallThrough<C> {
        self.subagent
    }

    /// Wraps `parent` with the configured delegated-work route.
    ///
    /// Returns an error when the affinity settings cannot identify delegated children safely.
    pub fn new(parent: Parent<P>, config: SubagentRouterConfig<C>) -> (router: Result<
        Self,
        LibsyError,
    >)
        ensures
            match config_fault(config) {
                Some(fault) => router matches Err(LibsyError::AlgorithmError { message })
                    && message@ == fault,
                None => {
                    &&& router matches Ok(built)
                    &&& built.parent_of() == parent
                    &&& built.subagent_of().name@ == "subagent"@
                    &&& built.subagent_of().keeps_affinity == (config.classify_trigger
                        == ClassifyTrigger::NewSession)
                    &&& built.subagent_of().classifiers@ == delegated_stages(config)
                },
            },
    {
        if config.message_hash_fallback {
            return Err(
                LibsyError::AlgorithmError {
                    message: "sub-agent routing cannot use message_hash_fallback".to_string(),
                },
            );
        }
        let mut subagent = match config.classify_trigger {
            ClassifyTrigger::EveryRequest => FallThrough {
                name: "subagent".to_string(),
                keeps_affinity: false,
                classifiers: Vec::new(),
            },
            ClassifyTrigger::NewSession => {
                let mut classifiers = Vec::new();
                classifiers.push(Stage::Affinity);
                FallThrough { name: "subagent".to_string(), keeps_affinity: true, classifiers }
            },
            ClassifyTrigger::UserTurn => {
                return Err(
                    LibsyError::AlgorithmError {
                        message: "sub-agent routing cannot use classify_trigger = user_turn".to_string(),
                    },
                );
            },
        };
        subagent.classifiers.push(Stage::Gate(config.classifier));
        subagent.classifiers.push(Stage::Default(config.default_target));
        proof {
            assert(subagent.classifiers@ =~= delegated_stages(config));
        }
        Ok(SubagentRouter { parent, subagent })
    }

    /// The name of the parent algorithm.
    pub fn name(&self) -> (name: &str)
        ensures
            name@ == self.parent_of().name@,
    {
        self.parent.name.as_str()
    }

    /// Sends delegated work to the sub-agent's route, and all other traffic to the parent.
    pub fn route(&self, request: &Request) -> (destination: Destination<'_, P, C>)
        ensures
            destination == (if request@.subagent_work() {
                Destination::Subagent(&self.subagent_of())
            } else {
                Destination::Parent(&self.parent_of().handle)
            }),
    {
        let delegated = match &request.metadata {
            Some(metadata) => metadata.is_subagent_work(),
            None => false,
        };
        if delegated {
            Destination::Subagent(&self.subagent)
        } else {
            Destination::Parent(&self.parent.handle)
        }
    }
}

/// What deciding a delegated request asks for next.
pub enum ChildStep<'a, C> {
    /// Ask the classifier of this stage, and go on with its answer.
    Ask(usize, &'a C),
    /// The request goes to this model.
    Routed(ModelId),
    /// The request cannot be routed.
    Failed(LibsyError),
}

/// The child that a request comes from: its session and its agent, if both are known.
pub open spec fn child_of(metadata: Option<MetadataView>) -> Option<(Seq<char>, Seq<char>)> {
    match metadata {
        Some(held) => match (held.session_id, held.agent_id) {
            (Some(session), Some(agent)) => Some((session, agent)),
            _ => None,
        },
        None => None,
    }
}

/// The model that the child of a request was routed to before.
pub open spec fn pinned_model(request: RequestView, pins: AffinityTable) -> Option<ModelId> {
    match child_of(request.metadata) {
        Some((session, agent)) => pins.model_of(session, agent),
        None => None,
    }
}

/// What the first model of a category decides.
pub open spec fn first_of<'a, C>(models: CategoryModels, category: Category) -> ChildStep<'a, C> {
    if models.of(category).len() > 0 {
        ChildStep::Routed(models.of(category)[0])
    } else {
        ChildStep::Failed(LibsyError::NoTargets)
    }
}

/// What the stages decide from stage `from` on.
pub open spec fn fall_through<'a, C>(
    stages: Seq<Stage<C>>,
    from: int,
    models: CategoryModels,
    pinned: Option<ModelId>,
) -> ChildStep<'a, C>
    decreases stages.len() - from,
{
    if from >= stages.len() {
        ChildStep::Failed(LibsyError::NoTargets)
    } else {
        match stages[from] {
            Stage::Affinity => match pinned {
                Some(model) => ChildStep::Routed(model),
                None => fall_through(stages, from + 1, models, pinned),
            },
            Stage::Gate(ChildClassifier::DefaultCategory(category)) => first_of(models, category),
            Stage::Gate(ChildClassifier::Custom(classifier)) => ChildStep::Ask(
                from as usize,
                &classifier,
            ),
            Stage::Default(category) => first_of(models, category),
        }
    }
}

/// Whether `after` is `before` with the child of a routed request kept with its model.
///
/// Only a route that keeps affinity does so, and only for a child that has no model yet.
pub open spec fn kept_child(
    keeps_affinity: bool,
    request: RequestView,
    model: ModelId,
    before: AffinityTable,
    after: AffinityTable,
) -> bool {
    forall|session: Seq<char>, agent: Seq<char>| #[trigger]
        after.model_of(session, agent) == (if keeps_affinity && child_of(request.metadata) == Some(
            (session, agent),
        ) && before.model_of(session, agent) is None {
            Some(model)
        } else {
            before.model_of(session, agent)
        })
}

/// Routes to the first model of a category.
fn route_to_first<'a, C>(models: &CategoryModels, category: Category) -> (step: ChildStep<'a, C>)
    ensures
        step == first_of::<C>(*models, category),
{
    let candidates = models.models_for(category);
    if candidates.len() > 0 {
        ChildStep::Routed(candidates[0].clone())
    } else {
        ChildStep::Failed(LibsyError::NoTargets)
    }
}

/// The model that the child of a request was routed to before.
fn find_pinned(request: &Request, pins: &AffinityTable) -> (model: Option<ModelId>)
    ensures
        model == pinned_model(request@, *pins),
{
    match &request.metadata {
        Some(metadata) => match (&metadata.session_id, &metadata.agent_id) {
            (Some(session), Some(agent)) => pins.find(session.as_str(), agent.as_str()),
            _ => None,
        },
        None => None,
    }
}

impl<C> FallThrough<C> {
    /// Asks the stages from `from` on.
    fn fall(&self, from: usize, models: &CategoryModels, pinned: Option<ModelId>) -> (step:
        ChildStep<'_, C>)
        requires
            from <= self.classifiers@.len(),
        ensures
            step == fall_through(self.classifiers@, from as int, *models, pinned),
        decreases self.classifiers@.len() - from,
    {
        if from >= self.classifiers.len() {
            return ChildStep::Failed(LibsyError::NoTargets);
        }
        match &self.classifiers[from] {
            Stage::Affinity => match pinned {
                Some(model) => ChildStep::Routed(model),
                None => self.fall(from + 1, models, None),
            },
            Stage::Gate(ChildClassifier::DefaultCategory(category)) => route_to_first(
                models,
                *category,
            ),
            Stage::Gate(ChildClassifier::Custom(classifier)) => ChildStep::Ask(from, classifier),
            Stage::Default(category) => route_to_first(models, *category),
        }
    }

    /// Starts to decide a delegated request.
    pub fn execute(&self, request: &Request, models: &CategoryModels, pins: &AffinityTable) -> (step:
        ChildStep<'_, C>)
        ensures
            step == fall_through(self.classifiers@, 0, *models, pinned_model(request@, *pins)),
    {
        self.fall(0, models, find_pinned(request, pins))
    }

    /// Goes on once the classifier of `stage` gave a model, or abstained.
    pub fn classified(
        &self,
        stage: usize,
        answer: Option<ModelId>,
        models: &CategoryModels,
    ) -> (step: ChildStep<'_, C>)
        ensures
            step == (match answer {
                Some(model) => ChildStep::Routed(model),
                None => fall_through(self.classifiers@, stage + 1, *models, None),
            }),
    {
        match answer {
            Some(model) => ChildStep::Routed(model),
            None => {
                if stage < self.classifiers.len() {
                    self.fall(stage + 1, models, None)
                } else {
                    ChildStep::Failed(LibsyError::NoTargets)
                }
            },
        }
    }

    /// Keeps the child of a routed request with its model, where the route does so.
    pub fn settle(&self, request: &Request, model: &ModelId, pins: &mut AffinityTable)
        ensures
            kept_child(self.keeps_affinity, request@, *model, *old(pins), *final(pins)),
    {
        if !self.keeps_affinity {
            return ;
        }
        if let Some(metadata) = &request.metadata {
            if let (Some(session), Some(agent)) = (&metadata.session_id, &metadata.agent_id) {
                pins.keep(session.as_str(), agent.as_str(), model);
            }
        }
    }
}

/// Under `NewSession` a child is classified once: whatever decided its first request, its later
/// requests go to the same model without asking the classifier, over any models.
pub proof fn law_child_is_classified_once<C>(
    config: SubagentRouterConfig<C>,
    first: RequestView,
    later: RequestView,
    model: ModelId,
    before: AffinityTable,
    after: AffinityTable,
    models: CategoryModels,
)
    requires
        config.classify_trigger == ClassifyTrigger::NewSession,
        child_of(first.metadata) is Some,
        child_of(first.metadata) == child_of(later.metadata),
        pinned_model(first, before) is None,
        kept_child(true, first, model, before, after),
    ensures
        fall_through(delegated_stages(config), 0, models, pinned_model(later, after))
            == ChildStep::<C>::Routed(model),
{
    let (session, agent) = child_of(first.metadata)->0;
    assert(after.model_of(session, agent) == Some(model));
    assert(delegated_stages(config)[0] == Stage::<C>::Affinity);
}

/// A child that has a model keeps it, and what one child is routed to changes no other child.
pub proof fn law_children_keep_their_models(
    keeps_affinity: bool,
    request: RequestView,
    model: ModelId,
    before: AffinityTable,
    after: AffinityTable,
    session: Seq<char>,
    agent: Seq<char>,
)
    requires
        kept_child(keeps_affinity, request, model, before, after),
    ensures
        before.model_of(session, agent) is Some ==> after.model_of(session, agent)
            == before.model_of(session, agent),
        child_of(request.metadata) != Some((session, agent)) ==> after.model_of(session, agent)
            == before.model_of(session, agent),
{
}

/// Under `EveryRequest` every delegated request is put to the classifier.
pub proof fn law_every_request_is_classified<C>(
    config: SubagentRouterConfig<C>,
    classifier: C,
    models: CategoryModels,
    pinned: Option<ModelId>,
)
    requires
        config.classify_trigger == ClassifyTrigger::EveryRequest,
        config.classifier == ChildClassifier::Custom(classifier),
    ensures
        fall_through(delegated_stages(config), 0, models, pinned) == ChildStep::Ask(0, &classifier),
{
    assert(delegated_stages(config)[0] == Stage::Gate(config.classifier));
}

/// Where the classifier is asked and abstains, the first model of the default category answers.
pub proof fn law_abstaining_falls_to_the_default<C>(
    config: SubagentRouterConfig<C>,
    stage: usize,
    classifier: C,
    models: CategoryModels,
    pinned: Option<ModelId>,
)
    requires
        fall_through(delegated_stages(config), 0, models, pinned) == ChildStep::Ask(
            stage,
            &classifier,
        ),
    ensures
        fall_through(delegated_stages(config), stage + 1, models, None) == first_of::<C>(
            models,
            config.default_target,
        ),
{
    let stages = delegated_stages(config);
    reveal_with_fuel(fall_through, 3);
    if config.classify_trigger == ClassifyTrigger::NewSession {
        assert(stages[0] == Stage::<C>::Affinity);
        assert(stages[1] == Stage::Gate(config.classifier));
        assert(stages[2] == Stage::<C>::Default(config.default_target));
        assert(stage == 1);
    } else {
        assert(stages[0] == Stage::Gate(config.classifier));
        assert(stages[1] == Stage::<C>::Default(config.default_target));
        assert(stage == 0);
    }
}

/// A fixed target needs no classifier and keeps no child: all delegated work goes to the first
/// model of the `Any` category.
pub proof fn law_fixed_target_serves_the_first_model<C>(
    config: SubagentRouterConfig<C>,
    models: CategoryModels,
    pinned: Option<ModelId>,
)
    requires
        config.classifier == ChildClassifier::<C>::DefaultCategory(Category::Any),
        config.default_target == Category::Any,
        config.classify_trigger == ClassifyTrigger::EveryRequest,
        !config.message_hash_fallback,
    ensures
        config_fault(config) is None,
        fall_through(delegated_stages(config), 0, models, pinned) == first_of::<C>(
            models,
            Category::Any,
        ),
{
    assert(delegated_stages(config)[0] == Stage::Gate(config.classifier));
}

/// What the stages route to on their own is the child's kept model or a model of the given
/// models, whichever stages there are.
pub proof fn law_routed_models_are_kept_or_given<C>(
    stages: Seq<Stage<C>>,
    from: int,
    models: CategoryModels,
    pinned: Option<ModelId>,
    model: ModelId,
)
    requires
        0 <= from,
        fall_through(stages, from, models, pinned) == ChildStep::<C>::Routed(model),
    ensures
        pinned == Some(model) || exists|category: Category| #[trigger]
            models.of(category).contains(model),
    decreases stages.len() - from,
{
    if from < stages.len() {
        match stages[from] {
            Stage::Affinity => {
                if pinned is None {
                    law_routed_models_are_kept_or_given(stages, from + 1, models, pinned, model);
                }
            },
            Stage::Gate(ChildClassifier::DefaultCategory(category)) => {
                assert(models.of(category).contains(model));
            },
            Stage::Gate(ChildClassifier::Custom(_)) => {},
            Stage::Default(category) => {
                assert(models.of(category).contains(model));
            },
        }
    }
}

} // verus!
