use std::str::FromStr;
use std::sync::RwLock;

use cedar_agent::schemas::{InvalidPolicy, Policy, SyntaxError};
use cedar_agent::services::decision::current_view;
use cedar_agent::services::data::EntityStore;
use cedar_agent::services::file_watcher::{reload_policies, ReloadError};
use cedar_agent::services::policies::{find_duplicate, PolicyStore, PolicyStoreError};

fn approve_all_policy(id: Option<String>) -> Policy {
    let id = id.unwrap_or("test".to_string());
    Policy::new(&id, "permit(principal,action,resource);")
}

fn approve_admin_policy(id: Option<String>) -> Policy {
    let id = id.unwrap_or("test".to_string());
    Policy::new(&id, "permit(principal == User::\"admin\",action,resource);")
}

fn parse_error_policy() -> Policy {
    Policy::new("error", "permit(principal,action,resource")
}

fn ids(list: &[Policy]) -> Vec<String> {
    list.iter().map(|policy| policy.id.clone()).collect()
}

/// Compiles a snapshot's records into the engine's policy set.
fn engine_set(list: &[Policy]) -> cedar_policy::PolicySet {
    let mut set = cedar_policy::PolicySet::new();
    for policy in list {
        let compiled = cedar_policy::Policy::parse(Some(policy.id.clone()), &policy.content)
            .unwrap();
        set.add(compiled).unwrap();
    }
    set
}

#[test]
fn policies_tests_memory_tests() {
    let mut store = PolicyStore::new();

    let policies = store.replace_all(vec![approve_all_policy(None)]).unwrap();
    assert_eq!(policies.len(), 1);
    let duplicate_policies =
        store.replace_all(vec![approve_all_policy(None), approve_all_policy(None)]);
    assert!(duplicate_policies.is_err());
    let error_policies = store.replace_all(vec![parse_error_policy()]);
    assert!(error_policies.is_err());

    let admin = approve_admin_policy(Some("admin".to_string()));
    let created_policy = store.create(Some(admin.id.clone()), admin.content.clone()).unwrap();
    assert_eq!(created_policy.id, "admin".to_string());
    let policy = store.get_one("admin").unwrap();
    assert_eq!(policy.id, "admin".to_string());
    assert_eq!(policy.content, created_policy.content);

    let error_policy = store.create(Some(admin.id.clone()), admin.content.clone());
    assert!(error_policy.is_err());
    let broken = parse_error_policy();
    let error_policy = store.create(Some(broken.id.clone()), broken.content.clone());
    assert!(error_policy.is_err());

    let policies = store.get_all();
    assert_eq!(policies.len(), 2);

    let updated_policy = store.update("test", approve_admin_policy(None).content).unwrap();
    assert_eq!(updated_policy.id, "test".to_string());
    assert_eq!(updated_policy.content, created_policy.content);

    let error_policy = store.update("test", parse_error_policy().content);
    assert!(error_policy.is_err());

    let deleted_policy = store.delete("test").unwrap();
    assert_eq!(deleted_policy.id, "test".to_string());
    let missing_policy = store.get_one("test");
    assert!(missing_policy.is_err());

    assert!(store.delete("test").is_err());

    let snapshot = store.snapshot_for_evaluation();
    let policy_set = engine_set(snapshot.policies());
    assert!(policy_set
        .policy(&cedar_policy::PolicyId::from_str("admin").unwrap())
        .is_some());
    assert!(policy_set
        .policy(&cedar_policy::PolicyId::from_str("test").unwrap())
        .is_none());
}

#[test]
fn test_load_policies_from_file() {
    let test_data = r#"[{
        "id": "test",
        "content": "permit(principal in Role::\"Viewer\",action in [Action::\"get\",Action::\"list\"],resource == Document::\"cedar-agent.pdf\");"
    }]"#;
    let decoded: serde_json::Value = serde_json::from_str(test_data).unwrap();
    let records: Vec<Policy> = decoded
        .as_array()
        .unwrap()
        .iter()
        .map(|record| {
            Policy::new(record["id"].as_str().unwrap(), record["content"].as_str().unwrap())
        })
        .collect();

    let mut store = PolicyStore::new();
    assert_eq!(reload_policies(&mut store, Ok(records)), Ok(1));
    let policies = store.get_all();
    assert_eq!(policies.len(), 1);
    assert_eq!(policies[0].id, "test".to_string());
}

#[test]
fn new_store_is_empty() {
    let store = PolicyStore::new();
    assert_eq!(store.len(), 0);
    assert!(store.get_all().is_empty());
    assert_eq!(store.snapshot_for_evaluation().len(), 0);
}

#[test]
fn get_one_of_missing_is_not_found() {
    let store = PolicyStore::new();
    assert_eq!(store.get_one("nobody"), Err(PolicyStoreError::NotFound("nobody".to_string())));
}

#[test]
fn generated_ids_are_the_first_unused() {
    let mut store = PolicyStore::new();
    let first = store.create(None, approve_all_policy(None).content).unwrap();
    let second = store.create(None, approve_admin_policy(None).content).unwrap();
    assert_eq!(first.id, "policy0");
    assert_eq!(second.id, "policy1");
    assert_ne!(first.id, second.id);
    assert_eq!(ids(&store.get_all()), vec!["policy0", "policy1"]);
}

#[test]
fn generated_id_skips_identifiers_in_use() {
    let mut store = PolicyStore::new();
    let text = approve_all_policy(None).content;
    store.create(Some("policy1".to_string()), text.clone()).unwrap();
    assert_eq!(store.create(None, text.clone()).unwrap().id, "policy0");
    assert_eq!(store.create(None, text.clone()).unwrap().id, "policy2");
    store.delete("policy0").unwrap();
    assert_eq!(store.create(None, text).unwrap().id, "policy0");
    assert_eq!(ids(&store.get_all()), vec!["policy1", "policy2", "policy0"]);
}

#[test]
fn generated_id_is_not_made_for_a_text_that_fails() {
    let mut store = PolicyStore::new();
    let outcome = store.create(None, parse_error_policy().content);
    assert!(matches!(outcome, Err(PolicyStoreError::InvalidPolicy(None, _))));
    assert_eq!(store.len(), 0);
}

#[test]
fn second_create_under_an_identifier_conflicts() {
    let mut store = PolicyStore::new();
    let first = approve_all_policy(Some("x".to_string()));
    let second = approve_admin_policy(Some("x".to_string()));
    assert_eq!(store.create(Some("x".to_string()), first.content.clone()), Ok(first.clone()));
    assert_eq!(
        store.create(Some("x".to_string()), second.content),
        Err(PolicyStoreError::Conflict("x".to_string()))
    );
    assert_eq!(store.get_all(), vec![first.clone()]);
    assert_eq!(store.get_one("x"), Ok(first));
}

#[test]
fn conflict_comes_before_a_text_that_fails() {
    let mut store = PolicyStore::new();
    store.create(Some("x".to_string()), approve_all_policy(None).content).unwrap();
    assert_eq!(
        store.create(Some("x".to_string()), parse_error_policy().content),
        Err(PolicyStoreError::Conflict("x".to_string()))
    );
}

#[test]
fn duplicate_batch_leaves_the_store_unchanged() {
    let mut store = PolicyStore::new();
    let kept = approve_admin_policy(Some("kept".to_string()));
    store.replace_all(vec![kept.clone()]).unwrap();
    let outcome = store.replace_all(vec![
        approve_all_policy(Some("a".to_string())),
        approve_all_policy(Some("a".to_string())),
    ]);
    assert_eq!(outcome, Err(PolicyStoreError::DuplicateId("a".to_string())));
    assert_eq!(store.get_all(), vec![kept]);
}

#[test]
fn duplicate_batch_names_the_first_repeated_identifier() {
    let mut store = PolicyStore::new();
    let batch: Vec<Policy> = ["a", "b", "c", "b", "a"]
        .iter()
        .map(|id| approve_all_policy(Some(id.to_string())))
        .collect();
    assert_eq!(find_duplicate(&batch), Some(3));
    assert_eq!(store.replace_all(batch), Err(PolicyStoreError::DuplicateId("b".to_string())));
    assert_eq!(find_duplicate(&[approve_all_policy(None)].to_vec()), None);
    assert_eq!(find_duplicate(&Vec::new()), None);
}

#[test]
fn invalid_record_of_a_batch_is_named_before_duplicates() {
    let mut store = PolicyStore::new();
    let outcome = store.replace_all(vec![
        approve_all_policy(Some("a".to_string())),
        approve_all_policy(Some("a".to_string())),
        parse_error_policy(),
    ]);
    match outcome {
        Err(PolicyStoreError::InvalidPolicy(id, _)) => assert_eq!(id, Some("error".to_string())),
        other => panic!("unexpected outcome: {:?}", other),
    }
    assert_eq!(store.len(), 0);
}

#[test]
fn replace_all_is_a_swap_and_not_a_merge() {
    let mut store = PolicyStore::new();
    store.create(Some("old".to_string()), approve_all_policy(None).content).unwrap();
    let batch =
        vec![approve_admin_policy(Some("b".to_string())), approve_all_policy(Some("a".to_string()))];
    assert_eq!(store.replace_all(batch.clone()), Ok(batch.clone()));
    assert_eq!(store.get_all(), batch);
    assert_eq!(store.replace_all(Vec::new()), Ok(Vec::new()));
    assert_eq!(store.len(), 0);
}

#[test]
fn update_of_missing_is_not_found() {
    let mut store = PolicyStore::new();
    store.create(Some("here".to_string()), approve_all_policy(None).content).unwrap();
    let before = store.get_all();
    assert_eq!(
        store.update("missing", approve_admin_policy(None).content),
        Err(PolicyStoreError::NotFound("missing".to_string()))
    );
    assert_eq!(store.len(), 1);
    assert_eq!(store.get_all(), before);
    assert_eq!(
        store.update("missing", parse_error_policy().content),
        Err(PolicyStoreError::NotFound("missing".to_string()))
    );
}

#[test]
fn update_keeps_place_and_identifier() {
    let mut store = PolicyStore::new();
    for id in ["a", "b", "c"] {
        store.create(Some(id.to_string()), approve_all_policy(None).content).unwrap();
    }
    let text = approve_admin_policy(None).content;
    assert_eq!(store.update("b", text.clone()), Ok(Policy::new("b", &text)));
    assert_eq!(ids(&store.get_all()), vec!["a", "b", "c"]);
    assert_eq!(store.get_one("b").unwrap().content, text);
    assert_eq!(store.get_one("a").unwrap().content, approve_all_policy(None).content);
}

#[test]
fn update_with_a_text_that_fails_changes_nothing() {
    let mut store = PolicyStore::new();
    store.create(Some("a".to_string()), approve_all_policy(None).content).unwrap();
    let outcome = store.update("a", parse_error_policy().content);
    match outcome {
        Err(PolicyStoreError::InvalidPolicy(id, reason)) => {
            assert_eq!(id, Some("a".to_string()));
            assert!(!reason.is_empty());
        }
        other => panic!("unexpected outcome: {:?}", other),
    }
    assert_eq!(store.get_one("a").unwrap().content, approve_all_policy(None).content);
}

#[test]
fn delete_hands_back_the_record() {
    let mut store = PolicyStore::new();
    for id in ["a", "b", "c"] {
        store.create(Some(id.to_string()), approve_all_policy(None).content).unwrap();
    }
    assert_eq!(store.delete("b"), Ok(approve_all_policy(Some("b".to_string()))));
    assert_eq!(ids(&store.get_all()), vec!["a", "c"]);
    assert_eq!(store.delete("b"), Err(PolicyStoreError::NotFound("b".to_string())));
    assert_eq!(store.len(), 2);
}

#[test]
fn given_verdicts_decide_a_create() {
    let mut store = PolicyStore::new();
    let refused = Err(SyntaxError { reason: "no".to_string() });
    assert_eq!(
        store.create_validated(Some("a".to_string()), "text".to_string(), refused.clone()),
        Err(PolicyStoreError::InvalidPolicy(Some("a".to_string()), "no".to_string()))
    );
    assert_eq!(
        store.create_validated(None, "text".to_string(), refused.clone()),
        Err(PolicyStoreError::InvalidPolicy(None, "no".to_string()))
    );
    assert_eq!(store.len(), 0);
    assert_eq!(
        store.create_validated(Some("a".to_string()), "text".to_string(), Ok(())),
        Ok(Policy::new("a", "text"))
    );
    assert_eq!(
        store.create_validated(Some("a".to_string()), "other".to_string(), refused),
        Err(PolicyStoreError::Conflict("a".to_string()))
    );
    assert_eq!(
        store.create_validated(None, "more".to_string(), Ok(())),
        Ok(Policy::new("policy0", "more"))
    );
    assert_eq!(store.get_all(), vec![Policy::new("a", "text"), Policy::new("policy0", "more")]);
}

#[test]
fn given_verdicts_decide_an_update() {
    let mut store = PolicyStore::new();
    store.create_validated(Some("a".to_string()), "text".to_string(), Ok(())).unwrap();
    let refused = Err(SyntaxError { reason: "no".to_string() });
    assert_eq!(
        store.update_validated("b", "new".to_string(), Ok(())),
        Err(PolicyStoreError::NotFound("b".to_string()))
    );
    assert_eq!(
        store.update_validated("a", "new".to_string(), refused),
        Err(PolicyStoreError::InvalidPolicy(Some("a".to_string()), "no".to_string()))
    );
    assert_eq!(store.get_all(), vec![Policy::new("a", "text")]);
    assert_eq!(store.update_validated("a", "new".to_string(), Ok(())), Ok(Policy::new("a", "new")));
    assert_eq!(store.get_all(), vec![Policy::new("a", "new")]);
}

#[test]
fn given_verdicts_decide_a_batch() {
    let mut store = PolicyStore::new();
    store.create_validated(Some("kept".to_string()), "text".to_string(), Ok(())).unwrap();
    let batch = vec![Policy::new("a", "one"), Policy::new("b", "two")];
    let refused = Err(InvalidPolicy { id: "b".to_string(), reason: "no".to_string() });
    assert_eq!(
        store.replace_all_validated(batch.clone(), refused),
        Err(PolicyStoreError::InvalidPolicy(Some("b".to_string()), "no".to_string()))
    );
    assert_eq!(store.get_all(), vec![Policy::new("kept", "text")]);
    let twice = vec![Policy::new("a", "one"), Policy::new("a", "two")];
    assert_eq!(
        store.replace_all_validated(twice, Ok(())),
        Err(PolicyStoreError::DuplicateId("a".to_string()))
    );
    assert_eq!(store.get_all(), vec![Policy::new("kept", "text")]);
    assert_eq!(store.replace_all_validated(batch.clone(), Ok(())), Ok(batch.clone()));
    assert_eq!(store.get_all(), batch);
}

#[test]
fn errors_are_described() {
    assert_eq!(PolicyStoreError::NotFound("a".to_string()).describe(), "Policy not found: a");
    assert_eq!(PolicyStoreError::Conflict("a".to_string()).describe(), "Policy already exists: a");
    assert_eq!(
        PolicyStoreError::InvalidPolicy(Some("a".to_string()), "why".to_string()).describe(),
        "Invalid policy a: why"
    );
    assert_eq!(
        PolicyStoreError::InvalidPolicy(None, "why".to_string()).describe(),
        "Invalid policy: why"
    );
    assert_eq!(PolicyStoreError::DuplicateId("a".to_string()).describe(), "Duplicate policy id: a");
}

#[test]
fn snapshot_is_not_touched_by_later_changes() {
    let mut store = PolicyStore::new();
    store.create(Some("a".to_string()), approve_all_policy(None).content).unwrap();
    let snapshot = store.snapshot_for_evaluation();
    store.delete("a").unwrap();
    store.create(Some("b".to_string()), approve_all_policy(None).content).unwrap();
    assert_eq!(ids(snapshot.policies()), vec!["a"]);
    assert_eq!(snapshot.len(), 1);
}

#[test]
fn current_view_shows_both_stores() {
    let mut policies = PolicyStore::new();
    let mut entities = EntityStore::new();
    policies.create(Some("a".to_string()), approve_all_policy(None).content).unwrap();
    entities.replace_all(r#"[{"uid":{"type":"User","id":"admin"},"attrs":{},"parents":[]}]"#).unwrap();
    let (policy_view, entity_view) = current_view(&policies, &entities);
    assert_eq!(ids(policy_view.policies()), vec!["a"]);
    assert_eq!(entity_view.len(), 1);
    assert_eq!(entity_view, entities.get_all());
}

#[test]
fn validated_policy_evaluates_without_error() {
    let mut store = PolicyStore::new();
    store.create(Some("all".to_string()), approve_all_policy(None).content).unwrap();
    store.create(None, approve_admin_policy(None).content).unwrap();
    let snapshot = store.snapshot_for_evaluation();
    let policy_set = engine_set(snapshot.policies());
    let request = cedar_policy::Request::new(
        Some(cedar_policy::EntityUid::from_str("User::\"admin\"").unwrap()),
        Some(cedar_policy::EntityUid::from_str("Action::\"get\"").unwrap()),
        Some(cedar_policy::EntityUid::from_str("Document::\"a.pdf\"").unwrap()),
        cedar_policy::Context::empty(),
    );
    let entities = cedar_policy::Entities::from_json_str(
        r#"[{"uid":{"type":"User","id":"admin"},"attrs":{},"parents":[]}]"#,
        None,
    )
    .unwrap();
    let answer = cedar_policy::Authorizer::new().is_authorized(&request, &policy_set, &entities);
    assert_eq!(answer.decision(), cedar_policy::Decision::Allow);
    assert_eq!(answer.diagnostics().errors().count(), 0);
}

#[test]
fn reload_of_undecodable_content_changes_nothing() {
    let mut store = PolicyStore::new();
    store.create(Some("a".to_string()), approve_all_policy(None).content).unwrap();
    assert_eq!(
        reload_policies(&mut store, Err("not json".to_string())),
        Err(ReloadError::Unreadable("not json".to_string()))
    );
    assert_eq!(ids(&store.get_all()), vec!["a"]);
}

#[test]
fn readers_never_see_a_repeated_identifier() {
    let store = RwLock::new(PolicyStore::new());
    let text = "permit(principal,action,resource);".to_string();
    for round in 0..1000 {
        let id = format!("rule{}", round % 7);
        if round % 3 == 2 {
            let _ = store.write().unwrap().delete(&id);
        } else {
            let _ = store.write().unwrap().create_validated(Some(id), text.clone(), Ok(()));
        }
        let snapshot = store.read().unwrap().get_all();
        let mut seen = ids(&snapshot);
        seen.sort();
        seen.dedup();
        assert_eq!(seen.len(), snapshot.len());
        assert!(snapshot.iter().all(|policy| policy.content == text));
    }
    assert!(store.read().unwrap().len() <= 7);
}
