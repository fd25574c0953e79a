use collection_access::entity::Collection;
use collection_access::resolver::{
    dedup_by_uuid, merge_loaded, merge_visible, retain_org, IntegrityViolation, ResolverPolicy,
};
use collection_access::store::{exactly_one_row, first_collection};

fn collection(uuid: &str, org: &str, name: &str) -> Collection {
    Collection {
        uuid: uuid.to_string(),
        org_uuid: org.to_string(),
        name: name.to_string(),
    }
}

#[test]
fn a_write_is_done_only_with_exactly_one_row() {
    assert!(exactly_one_row(Some(1)));
    assert!(!exactly_one_row(Some(0)));
    assert!(!exactly_one_row(Some(2)));
    assert!(!exactly_one_row(Some(usize::MAX)));
    assert!(!exactly_one_row(None));
}

#[test]
fn merge_puts_blanket_results_first() {
    let blanket = vec![collection("a-1", "org-a", "A"), collection("a-2", "org-a", "B")];
    let assigned = vec![collection("b-1", "org-b", "C")];
    assert_eq!(
        merge_visible(blanket, assigned, ResolverPolicy::keep_duplicates()),
        vec![
            collection("a-1", "org-a", "A"),
            collection("a-2", "org-a", "B"),
            collection("b-1", "org-b", "C"),
        ]
    );
}

#[test]
fn merge_keeps_or_drops_duplicates_as_the_policy_says() {
    let blanket = vec![collection("a-1", "org-a", "A"), collection("a-2", "org-a", "B")];
    let assigned = vec![collection("a-2", "org-a", "B"), collection("a-1", "org-a", "A")];
    assert_eq!(
        merge_visible(blanket.clone(), assigned.clone(), ResolverPolicy::keep_duplicates()).len(),
        4
    );
    assert_eq!(
        merge_visible(blanket, assigned, ResolverPolicy::deduplicate()),
        vec![collection("a-1", "org-a", "A"), collection("a-2", "org-a", "B")]
    );
}

#[test]
fn merge_of_nothing_is_nothing() {
    assert!(merge_visible(vec![], vec![], ResolverPolicy::keep_duplicates()).is_empty());
    assert!(merge_visible(vec![], vec![], ResolverPolicy::deduplicate()).is_empty());
}

#[test]
fn dedup_keeps_the_first_row_of_each_identifier() {
    let rows = vec![
        collection("x", "org-a", "first"),
        collection("y", "org-a", "other"),
        collection("x", "org-b", "second"),
        collection("x", "org-a", "first"),
        collection("z", "org-a", "last"),
        collection("y", "org-a", "other"),
    ];
    assert_eq!(
        dedup_by_uuid(rows),
        vec![
            collection("x", "org-a", "first"),
            collection("y", "org-a", "other"),
            collection("z", "org-a", "last"),
        ]
    );
    assert!(dedup_by_uuid(vec![]).is_empty());
}

#[test]
fn dedup_leaves_distinct_identifiers_alone() {
    let rows = vec![collection("x", "org-a", "same"), collection("y", "org-a", "same")];
    assert_eq!(dedup_by_uuid(rows.clone()), rows);
}

#[test]
fn retain_org_keeps_order_and_repetitions() {
    let rows = vec![
        collection("a-1", "org-a", "A"),
        collection("b-1", "org-b", "B"),
        collection("a-2", "org-a", "C"),
        collection("a-1", "org-a", "A"),
    ];
    assert_eq!(
        retain_org(rows.clone(), "org-a"),
        vec![
            collection("a-1", "org-a", "A"),
            collection("a-2", "org-a", "C"),
            collection("a-1", "org-a", "A"),
        ]
    );
    assert_eq!(retain_org(rows.clone(), "org-b"), vec![collection("b-1", "org-b", "B")]);
    assert!(retain_org(rows.clone(), "org-c").is_empty());
    assert!(retain_org(rows, "ORG-A").is_empty());
    assert!(retain_org(vec![], "org-a").is_empty());
}

#[test]
fn loaded_results_are_merged() {
    let blanket = vec![collection("a-1", "org-a", "A")];
    let assigned = vec![collection("a-1", "org-a", "A"), collection("b-1", "org-b", "B")];
    assert_eq!(
        merge_loaded(
            Some(blanket.clone()),
            Some(assigned.clone()),
            ResolverPolicy::keep_duplicates()
        ),
        Ok(vec![
            collection("a-1", "org-a", "A"),
            collection("a-1", "org-a", "A"),
            collection("b-1", "org-b", "B"),
        ])
    );
    assert_eq!(
        merge_loaded(Some(blanket), Some(assigned), ResolverPolicy::deduplicate()),
        Ok(vec![collection("a-1", "org-a", "A"), collection("b-1", "org-b", "B")])
    );
    assert_eq!(
        merge_loaded(Some(vec![]), Some(vec![]), ResolverPolicy::keep_duplicates()),
        Ok(vec![])
    );
}

#[test]
fn failed_blanket_query_is_reported() {
    let assigned = vec![collection("b-1", "org-b", "B")];
    assert_eq!(
        merge_loaded(None, Some(assigned), ResolverPolicy::keep_duplicates()),
        Err(IntegrityViolation::BlanketQuery)
    );
    assert_eq!(
        merge_loaded(None, None, ResolverPolicy::deduplicate()),
        Err(IntegrityViolation::BlanketQuery)
    );
}

#[test]
fn failed_explicit_query_is_reported() {
    let blanket = vec![collection("a-1", "org-a", "A")];
    assert_eq!(
        merge_loaded(Some(blanket), None, ResolverPolicy::keep_duplicates()),
        Err(IntegrityViolation::ExplicitQuery)
    );
    assert_eq!(
        merge_loaded(Some(vec![]), None, ResolverPolicy::deduplicate()),
        Err(IntegrityViolation::ExplicitQuery)
    );
}

#[test]
fn first_collection_is_the_head_or_nothing() {
    assert_eq!(first_collection(vec![]), None);
    assert_eq!(
        first_collection(vec![collection("a-1", "org-a", "A"), collection("a-2", "org-a", "B")]),
        Some(collection("a-1", "org-a", "A"))
    );
}
