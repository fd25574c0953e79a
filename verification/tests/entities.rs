use collection_access::entity::{Collection, CollectionUsers, GrantKey, OrgMembership};

fn is_lower_hex(c: char) -> bool {
    c.is_ascii_digit() || ('a'..='f').contains(&c)
}

#[test]
fn new_collection_keeps_organization_and_name() {
    let c = Collection::new("org-1".to_string(), "Shared logins".to_string());
    assert_eq!(c.org_uuid, "org-1");
    assert_eq!(c.name, "Shared logins");
}

#[test]
fn new_collection_has_a_hyphenated_random_identifier() {
    let c = Collection::new("org-1".to_string(), "Shared".to_string());
    let chars: Vec<char> = c.uuid.chars().collect();
    assert_eq!(chars.len(), 36);
    for (i, ch) in chars.iter().enumerate() {
        if i == 8 || i == 13 || i == 18 || i == 23 {
            assert_eq!(*ch, '-');
        } else {
            assert!(is_lower_hex(*ch), "character {} at {}", ch, i);
        }
    }
    assert_eq!(chars[14], '4');
    assert!(matches!(chars[19], '8' | '9' | 'a' | 'b'));
}

#[test]
fn new_collections_get_different_identifiers() {
    let a = Collection::new("org-1".to_string(), "A".to_string());
    let b = Collection::new("org-1".to_string(), "A".to_string());
    assert_ne!(a.uuid, b.uuid);
}

#[test]
fn new_collection_accepts_empty_name() {
    let c = Collection::new(String::new(), String::new());
    assert_eq!(c.org_uuid, "");
    assert_eq!(c.name, "");
    assert_eq!(c.uuid.len(), 36);
}

#[test]
fn clone_of_collection_is_equal() {
    let c = Collection {
        uuid: "c-1".to_string(),
        org_uuid: "org-1".to_string(),
        name: "Shared".to_string(),
    };
    assert_eq!(c.clone(), c);
}

#[test]
fn grant_key_equality_is_by_both_parts() {
    let key = GrantKey::new("u-1", "c-1");
    assert_eq!(key.user_uuid, "u-1");
    assert_eq!(key.collection_uuid, "c-1");
    assert!(key == GrantKey::new("u-1", "c-1"));
    assert!(key != GrantKey::new("u-2", "c-1"));
    assert!(key != GrantKey::new("u-1", "c-2"));
    assert!(key != GrantKey::new("c-1", "u-1"));
    assert!(key.clone() == key);
}

#[test]
fn grant_knows_its_key() {
    let g = CollectionUsers {
        user_uuid: "u-1".to_string(),
        collection_uuid: "c-1".to_string(),
        read_only: true,
    };
    assert!(g.key() == GrantKey::new("u-1", "c-1"));
    assert!(g.has_key(&GrantKey::new("u-1", "c-1")));
    assert!(!g.has_key(&GrantKey::new("u-1", "c-2")));
    assert!(!g.has_key(&GrantKey::new("u-2", "c-1")));
    assert_eq!(g.clone(), g);
}

#[test]
fn membership_holds_what_it_was_made_of() {
    let m = OrgMembership::new("u-1", "org-1", true);
    assert_eq!(
        m,
        OrgMembership {
            user_uuid: "u-1".to_string(),
            org_uuid: "org-1".to_string(),
            access_all: true,
        }
    );
    assert_eq!(m.clone(), m);
    assert!(!OrgMembership::new("u-1", "org-1", false).access_all);
}

#[test]
fn collection_with_a_given_identifier() {
    let c = Collection::with_identifier(
        "c-1".to_string(),
        "org-1".to_string(),
        "Shared".to_string(),
    );
    assert_eq!(
        c,
        Collection {
            uuid: "c-1".to_string(),
            org_uuid: "org-1".to_string(),
            name: "Shared".to_string(),
        }
    );
}
