use backend::ids::{is_job_id, new_job_id};

#[test]
fn hyphenated_ids_are_job_ids() {
    assert!(is_job_id("550e8400-e29b-41d4-a716-446655440000"));
    assert!(is_job_id("550E8400-E29B-41D4-A716-446655440000"));
    assert!(is_job_id("00000000-0000-0000-0000-000000000000"));
}

#[test]
fn other_accepted_forms_are_job_ids() {
    assert!(is_job_id("550e8400e29b41d4a716446655440000"));
    assert!(is_job_id("{550e8400-e29b-41d4-a716-446655440000}"));
    assert!(is_job_id("urn:uuid:550e8400-e29b-41d4-a716-446655440000"));
    assert!(is_job_id("URN:UUID:550e8400-e29b-41d4-a716-446655440000"));
}

#[test]
fn other_names_are_no_job_ids() {
    assert!(!is_job_id(""));
    assert!(!is_job_id("tmp"));
    assert!(!is_job_id("not-a-job-id"));
    assert!(!is_job_id("550e8400-e29b-41d4-a716-44665544000"));
    assert!(!is_job_id("550e8400-e29b-41d4-a716-4466554400000"));
    assert!(!is_job_id("550e8400-e29b-41d4-a716-44665544000g"));
    assert!(!is_job_id("550e8400_e29b_41d4_a716_446655440000"));
    assert!(!is_job_id("550e8400e-29b-41d4-a716-446655440000"));
    assert!(!is_job_id("[550e8400-e29b-41d4-a716-446655440000]"));
    assert!(!is_job_id("{550e8400-e29b-41d4-a716-446655440000)"));
    assert!(!is_job_id("urn-uuid:550e8400-e29b-41d4-a716-446655440000"));
    assert!(!is_job_id("550e8400e29b41d4a71644665544000é"));
    assert!(!is_job_id("550e8400-e29b-41d4-a716-4466554400é"));
}

#[test]
fn new_job_ids_are_canonical_and_distinct() {
    let a = new_job_id();
    let b = new_job_id();
    assert_ne!(a, b);
    for id in [a, b] {
        assert_eq!(id.len(), 36);
        assert!(is_job_id(&id));
        assert_eq!(id, id.to_lowercase());
        assert_eq!(id.matches('-').count(), 4);
    }
}
