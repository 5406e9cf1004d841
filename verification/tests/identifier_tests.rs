use cedar_agent::schemas::Policy;
use cedar_agent::services::identifiers::{decimal_text, find_id, generate_id};

fn records(ids: &[&str]) -> Vec<Policy> {
    ids.iter().map(|id| Policy::new(id, "permit(principal,action,resource);")).collect()
}

#[test]
fn decimal_text_has_no_leading_zeros() {
    assert_eq!(decimal_text(0), "0");
    assert_eq!(decimal_text(7), "7");
    assert_eq!(decimal_text(9), "9");
    assert_eq!(decimal_text(10), "10");
    assert_eq!(decimal_text(99), "99");
    assert_eq!(decimal_text(100), "100");
    assert_eq!(decimal_text(1234567890), "1234567890");
    assert_eq!(decimal_text(usize::MAX), usize::MAX.to_string());
}

#[test]
fn generated_id_is_the_first_candidate_not_in_use() {
    assert_eq!(generate_id(&records(&[])), "policy0");
    assert_eq!(generate_id(&records(&["a", "b"])), "policy0");
    assert_eq!(generate_id(&records(&["policy0"])), "policy1");
    assert_eq!(generate_id(&records(&["policy1", "policy0", "policy3"])), "policy2");
    assert_eq!(generate_id(&records(&["policy00", "policy01", "Policy0"])), "policy0");
    let many: Vec<String> = (0..12).map(|n| format!("policy{}", n)).collect();
    let many: Vec<&str> = many.iter().map(|id| id.as_str()).collect();
    assert_eq!(generate_id(&records(&many)), "policy12");
}

#[test]
fn find_id_gives_the_first_place() {
    let list = records(&["a", "b", "a", "c"]);
    assert_eq!(find_id(&list, &"a".to_string()), Some(0));
    assert_eq!(find_id(&list, &"b".to_string()), Some(1));
    assert_eq!(find_id(&list, &"c".to_string()), Some(3));
    assert_eq!(find_id(&list, &"d".to_string()), None);
    assert_eq!(find_id(&records(&[]), &"a".to_string()), None);
}
