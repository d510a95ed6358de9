use switchyard::protocol::{LlmClientError, ModelId};
use switchyard::state_owners::{StateOwners, MAX_STATE_OWNERS};

fn model(name: &str) -> ModelId {
    ModelId::new(name.to_string())
}

#[test]
fn state_owners_preserve_existing_records_at_capacity() -> Result<(), LlmClientError> {
    let mut owners = StateOwners::new();
    let model_a = model("model/a");
    for id in 0..MAX_STATE_OWNERS - 1 {
        owners.remember(Some(&format!("resp_{id}")), None, &model_a)?;
    }
    assert!(matches!(
        owners.remember(Some("new_response"), Some("new_conversation"), &model_a),
        Err(LlmClientError::ResponseStateLimitExceeded { limit: MAX_STATE_OWNERS })
    ));
    assert!(owners.owner("new_response").is_none());
    assert!(owners.owner("new_conversation").is_none());
    owners.remember(Some("last_id"), Some("last_id"), &model_a)?;
    owners.remember(Some("last_id"), Some("resp_0"), &model_a)?;
    assert!(matches!(
        owners.remember(Some("over_limit"), None, &model_a),
        Err(LlmClientError::ResponseStateLimitExceeded { .. })
    ));
    assert!(matches!(
        owners.remember(Some("resp_0"), None, &model("model/b")),
        Err(LlmClientError::ResponseStateConflict)
    ));
    assert_eq!(owners.owner("resp_0"), Some(&model_a));
    assert_eq!(owners.len(), MAX_STATE_OWNERS);
    Ok(())
}

#[test]
fn state_owners_accept_only_what_fits() {
    let model_a = model("model/a");
    let mut owners = StateOwners::new();
    for id in 0..MAX_STATE_OWNERS - 16 {
        owners.remember(Some(&format!("existing_{id}")), None, &model_a).unwrap();
    }
    let mut accepted: Vec<usize> = Vec::new();
    for id in 0..32 {
        match owners.remember(Some(&format!("resp_{id}")), Some(&format!("conv_{id}")), &model_a) {
            Ok(()) => accepted.push(id),
            Err(LlmClientError::ResponseStateLimitExceeded { limit }) => assert_eq!(limit, 65_536),
            other => panic!("unexpected state tracking result: {other:?}"),
        }
    }
    assert_eq!(accepted.len(), 8);
    assert_eq!(owners.len(), MAX_STATE_OWNERS);
    assert_eq!(owners.owner("existing_0"), Some(&model_a));
    for id in accepted {
        assert_eq!(owners.owner(&format!("resp_{id}")), Some(&model_a));
        assert_eq!(owners.owner(&format!("conv_{id}")), Some(&model_a));
    }
}

#[test]
fn conflicts_record_neither_id() {
    let mut owners = StateOwners::new();
    owners.remember(None, Some("conv"), &model("a")).unwrap();
    assert!(matches!(
        owners.remember(Some("resp"), Some("conv"), &model("b")),
        Err(LlmClientError::ResponseStateConflict)
    ));
    assert!(owners.owner("resp").is_none());
    assert_eq!(owners.owner("conv"), Some(&model("a")));
    assert_eq!(owners.len(), 1);
}

#[test]
fn recording_nothing_changes_nothing() {
    let mut owners = StateOwners::new();
    owners.remember(None, None, &model("a")).unwrap();
    assert_eq!(owners.len(), 0);
}

#[test]
fn equal_ids_take_one_place() {
    let mut owners = StateOwners::new();
    owners.remember(Some("same"), Some("same"), &model("a")).unwrap();
    assert_eq!(owners.len(), 1);
    owners.remember(Some("same"), Some("other"), &model("a")).unwrap();
    assert_eq!(owners.len(), 2);
}

#[test]
fn models_are_equal_by_name() {
    assert_eq!(model("a"), model("a").clone());
    assert_ne!(model("a"), model("b"));
    assert_eq!(model("a").as_str(), "a");
    assert_eq!(model("a").to_name(), "a");
}
