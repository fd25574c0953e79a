use collection_access::entity::{Collection, CollectionUsers, GrantKey, OrgMembership};
use collection_access::store::Store;

fn collection(uuid: &str, org: &str, name: &str) -> Collection {
    Collection {
        uuid: uuid.to_string(),
        org_uuid: org.to_string(),
        name: name.to_string(),
    }
}

fn grant(user: &str, coll: &str, read_only: bool) -> CollectionUsers {
    CollectionUsers {
        user_uuid: user.to_string(),
        collection_uuid: coll.to_string(),
        read_only,
    }
}

#[test]
fn new_store_is_empty() {
    let store = Store::new();
    assert!(store.collections().is_empty());
    assert!(store.memberships().is_empty());
    assert!(store.grants().is_empty());
    store.keys_hold();
}

#[test]
fn saved_collection_is_found_by_identifier() {
    let mut store = Store::new();
    let mut c = Collection::new("org-1".to_string(), "Shared".to_string());
    assert!(c.save(&mut store));
    assert_eq!(Collection::find_by_uuid(&c.uuid, &store), Some(c.clone()));
    assert_eq!(store.collections(), vec![c]);
}

#[test]
fn find_by_uuid_of_unknown_identifier_is_none() {
    let mut store = Store::new();
    assert_eq!(Collection::find_by_uuid("c-1", &store), None);
    assert!(collection("c-1", "org-1", "A").save(&mut store));
    assert_eq!(Collection::find_by_uuid("c-2", &store), None);
    assert_eq!(Collection::find_by_uuid("", &store), None);
    assert_eq!(Collection::find_by_uuid("C-1", &store), None);
}

#[test]
fn saving_twice_replaces_the_row() {
    let mut store = Store::new();
    let mut c = collection("c-1", "org-1", "Old name");
    assert!(c.save(&mut store));
    c.name = "New name".to_string();
    assert!(c.save(&mut store));
    assert_eq!(store.collections(), vec![collection("c-1", "org-1", "New name")]);
    assert_eq!(
        Collection::find_by_uuid("c-1", &store),
        Some(collection("c-1", "org-1", "New name"))
    );
}

#[test]
fn save_leaves_the_collection_as_it_was() {
    let mut store = Store::new();
    let mut c = collection("c-1", "org-1", "A");
    assert!(c.save(&mut store));
    assert_eq!(c, collection("c-1", "org-1", "A"));
}

#[test]
fn a_replaced_row_moves_to_the_end_of_the_table() {
    let mut store = Store::new();
    assert!(collection("c-1", "org-1", "A").save(&mut store));
    assert!(collection("c-2", "org-1", "B").save(&mut store));
    assert!(collection("c-1", "org-1", "A2").save(&mut store));
    assert_eq!(
        store.collections(),
        vec![collection("c-2", "org-1", "B"), collection("c-1", "org-1", "A2")]
    );
}

#[test]
fn store_reports_one_row_for_each_replace() {
    let mut store = Store::new();
    assert_eq!(store.replace_collection(collection("c-1", "org-1", "A")), 1);
    assert_eq!(store.replace_collection(collection("c-1", "org-1", "B")), 1);
    assert_eq!(store.replace_grant(grant("u-1", "c-1", true)), 1);
    assert_eq!(store.replace_grant(grant("u-1", "c-1", false)), 1);
}

#[test]
fn store_reports_the_rows_that_a_delete_removed() {
    let mut store = Store::new();
    assert_eq!(store.delete_collection("c-1"), 0);
    store.replace_collection(collection("c-1", "org-1", "A"));
    assert_eq!(store.delete_collection("c-2"), 0);
    assert_eq!(store.delete_collection("c-1"), 1);
    assert_eq!(store.delete_collection("c-1"), 0);
    assert_eq!(store.delete_grant(&GrantKey::new("u-1", "c-1")), 0);
    store.replace_grant(grant("u-1", "c-1", true));
    assert_eq!(store.delete_grant(&GrantKey::new("u-1", "c-1")), 1);
    assert_eq!(store.delete_grant(&GrantKey::new("u-1", "c-1")), 0);
}

#[test]
fn deleting_a_saved_collection_succeeds_once() {
    let mut store = Store::new();
    let mut c = collection("c-1", "org-1", "A");
    assert!(c.save(&mut store));
    assert!(c.clone().delete(&mut store));
    assert_eq!(Collection::find_by_uuid("c-1", &store), None);
    assert!(!c.delete(&mut store));
}

#[test]
fn deleting_a_collection_that_was_never_saved_fails() {
    let mut store = Store::new();
    let c = Collection::new("org-1".to_string(), "Never saved".to_string());
    assert!(!c.delete(&mut store));
    assert!(store.collections().is_empty());
}

#[test]
fn deleting_an_unknown_collection_leaves_the_others() {
    let mut store = Store::new();
    assert!(collection("c-1", "org-1", "A").save(&mut store));
    assert!(collection("c-2", "org-1", "B").save(&mut store));
    assert!(!collection("c-3", "org-1", "C").delete(&mut store));
    assert_eq!(
        store.collections(),
        vec![collection("c-1", "org-1", "A"), collection("c-2", "org-1", "B")]
    );
}

#[test]
fn delete_goes_by_identifier_alone() {
    let mut store = Store::new();
    assert!(collection("c-1", "org-1", "A").save(&mut store));
    assert!(collection("c-2", "org-1", "B").save(&mut store));
    assert!(collection("c-1", "another-org", "another name").delete(&mut store));
    assert_eq!(store.collections(), vec![collection("c-2", "org-1", "B")]);
}

#[test]
fn deleting_a_collection_keeps_its_grants_in_the_table() {
    let mut store = Store::new();
    assert!(collection("c-1", "org-1", "A").save(&mut store));
    assert!(CollectionUsers::save("u-1", "c-1", false, &mut store));
    assert!(collection("c-1", "org-1", "A").delete(&mut store));
    assert_eq!(store.grants(), vec![grant("u-1", "c-1", false)]);
}

#[test]
fn grant_is_written_with_its_flag() {
    let mut store = Store::new();
    assert!(CollectionUsers::save("u-1", "c-1", true, &mut store));
    assert!(CollectionUsers::save("u-2", "c-1", false, &mut store));
    assert_eq!(
        store.grant_with_key(&GrantKey::new("u-1", "c-1")),
        Some(grant("u-1", "c-1", true))
    );
    assert_eq!(
        store.grant_with_key(&GrantKey::new("u-2", "c-1")),
        Some(grant("u-2", "c-1", false))
    );
    assert_eq!(store.grant_with_key(&GrantKey::new("u-3", "c-1")), None);
    assert_eq!(store.grant_with_key(&GrantKey::new("c-1", "u-1")), None);
}

#[test]
fn granting_needs_no_collection_in_the_store() {
    let mut store = Store::new();
    assert!(CollectionUsers::save("u-1", "no-such-collection", true, &mut store));
    assert_eq!(store.grants().len(), 1);
}

#[test]
fn second_grant_for_a_pair_overwrites_the_flag() {
    let mut store = Store::new();
    assert!(CollectionUsers::save("u-1", "c-1", true, &mut store));
    assert!(CollectionUsers::save("u-1", "c-1", false, &mut store));
    assert_eq!(store.grants(), vec![grant("u-1", "c-1", false)]);
    assert!(CollectionUsers::save("u-1", "c-1", true, &mut store));
    assert_eq!(store.grants(), vec![grant("u-1", "c-1", true)]);
}

#[test]
fn second_grant_with_the_same_flag_leaves_one_row() {
    let mut store = Store::new();
    assert!(CollectionUsers::save("u-1", "c-1", true, &mut store));
    assert!(CollectionUsers::save("u-1", "c-1", true, &mut store));
    assert_eq!(store.grants(), vec![grant("u-1", "c-1", true)]);
}

#[test]
fn regrant_leaves_other_pairs_alone() {
    let mut store = Store::new();
    assert!(CollectionUsers::save("u-1", "c-1", true, &mut store));
    assert!(CollectionUsers::save("u-1", "c-2", true, &mut store));
    assert!(CollectionUsers::save("u-2", "c-1", true, &mut store));
    assert!(CollectionUsers::save("u-1", "c-1", false, &mut store));
    assert_eq!(
        store.grants(),
        vec![
            grant("u-1", "c-2", true),
            grant("u-2", "c-1", true),
            grant("u-1", "c-1", false),
        ]
    );
}

#[test]
fn revoking_a_grant_that_does_not_exist_fails() {
    let mut store = Store::new();
    assert!(!CollectionUsers::delete("u-1", "c-1", &mut store));
    assert!(CollectionUsers::save("u-1", "c-1", true, &mut store));
    assert!(!CollectionUsers::delete("u-1", "c-2", &mut store));
    assert!(!CollectionUsers::delete("u-2", "c-1", &mut store));
    assert!(!CollectionUsers::delete("c-1", "u-1", &mut store));
    assert_eq!(store.grants(), vec![grant("u-1", "c-1", true)]);
}

#[test]
fn revoking_a_grant_succeeds_once() {
    let mut store = Store::new();
    assert!(CollectionUsers::save("u-1", "c-1", true, &mut store));
    assert!(CollectionUsers::save("u-2", "c-1", false, &mut store));
    assert!(CollectionUsers::delete("u-1", "c-1", &mut store));
    assert_eq!(store.grants(), vec![grant("u-2", "c-1", false)]);
    assert!(!CollectionUsers::delete("u-1", "c-1", &mut store));
}

#[test]
fn memberships_are_appended_in_order() {
    let mut store = Store::new();
    store.add_membership(OrgMembership::new("u-1", "org-1", true));
    store.add_membership(OrgMembership::new("u-1", "org-2", false));
    store.add_membership(OrgMembership::new("u-1", "org-1", true));
    assert_eq!(
        store.memberships(),
        vec![
            OrgMembership::new("u-1", "org-1", true),
            OrgMembership::new("u-1", "org-2", false),
            OrgMembership::new("u-1", "org-1", true),
        ]
    );
    assert!(store.collections().is_empty());
    assert!(store.grants().is_empty());
}

#[test]
fn writes_to_one_table_leave_the_others() {
    let mut store = Store::new();
    store.add_membership(OrgMembership::new("u-1", "org-1", true));
    assert!(collection("c-1", "org-1", "A").save(&mut store));
    assert!(CollectionUsers::save("u-1", "c-1", true, &mut store));
    assert_eq!(store.memberships().len(), 1);
    assert_eq!(store.collections().len(), 1);
    assert_eq!(store.grants().len(), 1);
    assert!(CollectionUsers::delete("u-1", "c-1", &mut store));
    assert_eq!(store.memberships().len(), 1);
    assert_eq!(store.collections().len(), 1);
    assert!(store.grants().is_empty());
}
