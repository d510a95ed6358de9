use switchyard::affinity::AffinityTable;
use switchyard::protocol::{LibsyError, LlmRequest, Metadata, ModelId, Request};
use switchyard::subagent::{
    Category, CategoryModels, ChildClassifier, ChildStep, ClassifyTrigger, Destination, FallThrough,
    Parent, RuntimeModels, SubagentRouter, SubagentRouterConfig,
};

fn model(name: &str) -> ModelId {
    ModelId::new(name.to_string())
}

fn models(names: &[&str]) -> Vec<ModelId> {
    names.iter().map(|name| model(name)).collect()
}

fn group(any: &[&str], capable: &[&str], efficient: &[&str]) -> CategoryModels {
    CategoryModels { any: models(any), capable: models(capable), efficient: models(efficient) }
}

fn request(metadata: Option<Metadata>) -> Request {
    Request {
        llm_request: LlmRequest {
            model: Some("auto".to_string()),
            instructions: Vec::new(),
            messages: vec![serde_json::Value::String("hi".to_string())],
            stream: false,
            extensions: serde_json::Map::new(),
        },
        raw_request: None,
        metadata,
    }
}

fn child(agent_id: &str) -> Request {
    request(Some(Metadata {
        session_id: Some("session-1".to_string()),
        agent_id: Some(agent_id.to_string()),
        is_subagent: true,
        is_delegated_work: true,
    }))
}

fn passthrough() -> Parent<&'static str> {
    Parent { name: "passthrough".to_string(), handle: "passthrough" }
}

fn config(trigger: ClassifyTrigger, message_hash_fallback: bool) -> SubagentRouterConfig<&'static str> {
    SubagentRouterConfig {
        classifier: ChildClassifier::Custom("scripted"),
        default_target: Category::Capable,
        classify_trigger: trigger,
        message_hash_fallback,
    }
}

fn built(
    config: SubagentRouterConfig<&'static str>,
) -> SubagentRouter<&'static str, &'static str> {
    match SubagentRouter::new(passthrough(), config) {
        Ok(router) => router,
        Err(error) => panic!("{error:?}"),
    }
}

/// Answers as the first models of two categories, then abstains.
struct ScriptedClassifier {
    calls: usize,
}

impl ScriptedClassifier {
    fn score(&mut self, models: &CategoryModels) -> Option<ModelId> {
        self.calls += 1;
        match self.calls {
            1 => Some(models.models_for(Category::Capable)[0].clone()),
            2 => Some(models.models_for(Category::Efficient)[0].clone()),
            _ => None,
        }
    }
}

fn execute(
    route: &FallThrough<&'static str>,
    classifier: &mut ScriptedClassifier,
    request: &Request,
    models: &CategoryModels,
    pins: &mut AffinityTable,
) -> Result<ModelId, LibsyError> {
    let mut step = route.execute(request, models, pins);
    loop {
        match step {
            ChildStep::Ask(stage, _) => {
                step = route.classified(stage, classifier.score(models), models);
            }
            ChildStep::Routed(selected) => {
                route.settle(request, &selected, pins);
                return Ok(selected);
            }
            ChildStep::Failed(error) => return Err(error),
        }
    }
}

fn drive(
    router: &SubagentRouter<&'static str, &'static str>,
    classifier: &mut ScriptedClassifier,
    request: &Request,
    models: &RuntimeModels,
    pins: &mut AffinityTable,
) -> Result<ModelId, LibsyError> {
    match router.route(request) {
        Destination::Parent(_) => Ok(models.models.any[0].clone()),
        Destination::Subagent(route) => {
            execute(route, classifier, request, models.for_subagent()?, pins)
        }
    }
}

#[test]
fn routes_parent_and_children_with_affinity_and_default() -> Result<(), LibsyError> {
    let mut classifier = ScriptedClassifier { calls: 0 };
    let router = built(config(ClassifyTrigger::NewSession, false));
    let mut pins = AffinityTable::new();

    // The parent and its children route over separate model groups.
    let models = RuntimeModels {
        models: group(&["parent"], &[], &[]),
        subagent: Some(group(&["worker", "critic"], &["worker"], &["critic"])),
    };
    let selected_parent = drive(&router, &mut classifier, &request(None), &models, &mut pins)?;
    let first = drive(&router, &mut classifier, &child("child-1"), &models, &mut pins)?;
    let same_child = drive(&router, &mut classifier, &child("child-1"), &models, &mut pins)?;
    let sibling = drive(&router, &mut classifier, &child("child-2"), &models, &mut pins)?;
    let defaulted = drive(&router, &mut classifier, &child("child-3"), &models, &mut pins)?;
    let maintenance = request(Some(Metadata {
        session_id: Some("session-1".to_string()),
        agent_id: Some("child-1".to_string()),
        is_subagent: true,
        is_delegated_work: false,
    }));
    let maintenance = drive(&router, &mut classifier, &maintenance, &models, &mut pins)?;

    assert_eq!(selected_parent.as_str(), "parent");
    assert_eq!(first.as_str(), "worker");
    assert_eq!(same_child.as_str(), "worker");
    assert_eq!(sibling.as_str(), "critic");
    assert_eq!(defaulted.as_str(), "worker");
    assert_eq!(maintenance.as_str(), "parent");
    assert_eq!(classifier.calls, 3);

    let fixed = built(SubagentRouterConfig::fixed_target());
    let fixed = drive(&fixed, &mut classifier, &child("fixed"), &models, &mut pins)?;
    assert_eq!(fixed.as_str(), "worker");
    Ok(())
}

#[test]
fn unidentifiable_children_are_refused() {
    let cases = [
        (ClassifyTrigger::NewSession, true, "sub-agent routing cannot use message_hash_fallback"),
        (ClassifyTrigger::UserTurn, true, "sub-agent routing cannot use message_hash_fallback"),
        (ClassifyTrigger::UserTurn, false, "sub-agent routing cannot use classify_trigger = user_turn"),
    ];
    for (trigger, hash, expected) in cases {
        match SubagentRouter::new(passthrough(), config(trigger, hash)) {
            Err(LibsyError::AlgorithmError { message }) => assert_eq!(message, expected),
            Err(other) => panic!("unexpected error: {other:?}"),
            Ok(_) => panic!("{expected}"),
        }
    }
}

#[test]
fn the_router_is_named_after_its_parent() {
    assert_eq!(built(config(ClassifyTrigger::EveryRequest, false)).name(), "passthrough");
}

#[test]
fn every_request_is_classified_without_affinity() -> Result<(), LibsyError> {
    let mut classifier = ScriptedClassifier { calls: 0 };
    let router = built(config(ClassifyTrigger::EveryRequest, false));
    let mut pins = AffinityTable::new();
    let models = RuntimeModels {
        models: group(&["parent"], &[], &[]),
        subagent: Some(group(&[], &["worker"], &["critic"])),
    };
    let first = drive(&router, &mut classifier, &child("child-1"), &models, &mut pins)?;
    let second = drive(&router, &mut classifier, &child("child-1"), &models, &mut pins)?;
    assert_eq!((first.as_str(), second.as_str()), ("worker", "critic"));
    assert_eq!(classifier.calls, 2);
    assert!(pins.find("session-1", "child-1").is_none());
    Ok(())
}

#[test]
fn children_without_an_identity_are_not_kept() -> Result<(), LibsyError> {
    let mut classifier = ScriptedClassifier { calls: 0 };
    let router = built(config(ClassifyTrigger::NewSession, false));
    let mut pins = AffinityTable::new();
    let models = RuntimeModels {
        models: group(&["parent"], &[], &[]),
        subagent: Some(group(&[], &["worker"], &["critic"])),
    };
    let mut anonymous = child("child-1");
    anonymous.metadata = Some(Metadata {
        session_id: Some("session-1".to_string()),
        agent_id: None,
        is_subagent: true,
        is_delegated_work: true,
    });
    drive(&router, &mut classifier, &anonymous, &models, &mut pins)?;
    drive(&router, &mut classifier, &anonymous, &models, &mut pins)?;
    assert_eq!(classifier.calls, 2);
    Ok(())
}

#[test]
fn kept_children_outlive_their_models() -> Result<(), LibsyError> {
    let mut classifier = ScriptedClassifier { calls: 0 };
    let router = built(config(ClassifyTrigger::NewSession, false));
    let mut pins = AffinityTable::new();
    pins.keep("session-1", "child-1", &model("kept"));
    pins.keep("session-1", "child-1", &model("later"));
    assert_eq!(pins.find("session-1", "child-1"), Some(model("kept")));
    assert!(pins.find("session-2", "child-1").is_none());
    let models =
        RuntimeModels { models: group(&["parent"], &[], &[]), subagent: Some(group(&[], &[], &[])) };
    let kept = drive(&router, &mut classifier, &child("child-1"), &models, &mut pins)?;
    assert_eq!(kept.as_str(), "kept");
    assert_eq!(classifier.calls, 0);
    Ok(())
}

#[test]
fn delegated_work_needs_models_of_its_own() {
    let mut classifier = ScriptedClassifier { calls: 0 };
    let fixed = built(SubagentRouterConfig::fixed_target());
    let mut pins = AffinityTable::new();
    let without = RuntimeModels { models: group(&["parent"], &[], &[]), subagent: None };
    let empty =
        RuntimeModels { models: group(&["parent"], &[], &[]), subagent: Some(group(&[], &["c"], &[])) };
    for models in [without, empty] {
        assert!(matches!(
            drive(&fixed, &mut classifier, &child("child-1"), &models, &mut pins),
            Err(LibsyError::NoTargets)
        ));
    }
}
