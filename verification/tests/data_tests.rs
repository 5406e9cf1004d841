use cedar_agent::schemas::{EntitySet, ParseError};
use cedar_agent::services::data::EntityStore;
use cedar_agent::services::file_watcher::{reload_entities, ReloadError};
use cedar_agent::services::validator::validate_entities;

fn entities() -> String {
    r#"[
        {"uid": {"type": "User", "id": "admin.1@domain.com"}, "attrs": {}, "parents": [{"type": "Role", "id": "Admin"}]},
        {"uid": {"type": "User", "id": "editor.1@domain.com"}, "attrs": {"age": 31}, "parents": [{"type": "Role", "id": "Editor"}]},
        {"uid": {"type": "User", "id": "viewer.1@domain.com"}, "attrs": {}, "parents": [{"type": "Role", "id": "Viewer"}]},
        {"uid": {"type": "Role", "id": "Admin"}, "attrs": {}, "parents": []},
        {"uid": {"type": "Role", "id": "Editor"}, "attrs": {}, "parents": []},
        {"uid": {"type": "Role", "id": "Viewer"}, "attrs": {}, "parents": []},
        {"uid": {"type": "Document", "id": "cedar-agent.pdf"}, "attrs": {"public": true}, "parents": []},
        {"uid": {"type": "Action", "id": "get"}, "attrs": {}, "parents": []}
    ]"#
    .to_string()
}

fn parse_error_entities() -> String {
    r#"[{"id": "admin.1@domain.com", "attrs": {}, "parents": []}]"#.to_string()
}

fn users(count: usize) -> String {
    let items: Vec<String> = (0..count)
        .map(|n| format!(r#"{{"uid":{{"type":"User","id":"user{}"}},"attrs":{{}},"parents":[]}}"#, n))
        .collect();
    format!("[{}]", items.join(","))
}

#[test]
fn data_tests_memory_tests() {
    let mut store = EntityStore::new();

    let entities_before = store.get_all();
    assert_eq!(entities_before.len(), 0);
    let updated_entities = store.replace_all(&entities()).unwrap();
    assert_eq!(updated_entities, 8);

    let error_entities = store.replace_all(&parse_error_entities());
    assert!(error_entities.is_err());
    store.clear();
    let entities_after = store.get_all();
    assert_eq!(entities_after.len(), 0);
}

#[test]
fn test_load_entities_from_file() {
    let entities = validate_entities(&users(12)).unwrap();
    assert_eq!(entities.len(), 12);
}

#[test]
fn new_entity_store_holds_the_empty_list() {
    let store = EntityStore::new();
    assert_eq!(store.len(), 0);
    assert_eq!(store.get_all(), EntitySet { document: "[]".to_string(), size: 0 });
    assert_eq!(store.get_all(), EntitySet::empty());
    assert_eq!(validate_entities("[]"), Ok(EntitySet::empty()));
}

#[test]
fn validated_set_keeps_the_document() {
    let document = users(3);
    assert_eq!(validate_entities(&document), Ok(EntitySet { document: document.clone(), size: 3 }));
}

#[test]
fn malformed_entities_are_refused() {
    assert!(validate_entities("").is_err());
    assert!(validate_entities("{").is_err());
    assert!(validate_entities(r#"{"uid": 1}"#).is_err());
    assert!(validate_entities(&parse_error_entities()).is_err());
}

#[test]
fn malformed_load_leaves_the_entities_untouched() {
    let mut store = EntityStore::new();
    assert_eq!(store.replace_all(&users(12)), Ok(12));
    let before = store.get_all();
    assert_eq!(before.len(), 12);
    assert!(store.replace_all(&parse_error_entities()).is_err());
    assert!(store.replace_all("[{").is_err());
    assert_eq!(store.get_all(), before);
    assert_eq!(store.len(), 12);
}

#[test]
fn replace_all_of_entities_is_a_swap() {
    let mut store = EntityStore::new();
    assert_eq!(store.replace_all(&entities()), Ok(8));
    assert_eq!(store.replace_all(&users(2)), Ok(2));
    assert_eq!(store.get_all(), EntitySet { document: users(2), size: 2 });
    store.clear();
    assert_eq!(store.get_all(), EntitySet::empty());
}

#[test]
fn given_verdicts_decide_an_entity_replace() {
    let mut store = EntityStore::new();
    let set = EntitySet { document: "[1, 2]".to_string(), size: 2 };
    assert_eq!(store.replace_all_validated(Ok(set.clone())), Ok(2));
    assert_eq!(store.get_all(), set);
    let refused = ParseError { reason: "no".to_string() };
    assert_eq!(store.replace_all_validated(Err(refused.clone())), Err(refused));
    assert_eq!(store.get_all(), set);
}

#[test]
fn reload_of_entities_reports_what_happened() {
    let mut store = EntityStore::new();
    assert_eq!(reload_entities(&mut store, Ok(users(4))), Ok(4));
    assert_eq!(
        reload_entities(&mut store, Err("not text".to_string())),
        Err(ReloadError::Unreadable("not text".to_string()))
    );
    assert!(matches!(
        reload_entities(&mut store, Ok("[{".to_string())),
        Err(ReloadError::Entities(_))
    ));
    assert_eq!(store.len(), 4);
}
