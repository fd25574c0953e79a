use collection_access::entity::Collection;

fn sample() -> Collection {
    Collection {
        uuid: "c-1".to_string(),
        org_uuid: "org-1".to_string(),
        name: "Shared logins".to_string(),
    }
}

#[test]
fn to_json_is_an_object_of_four_text_members() {
    let mut members = serde_json::Map::new();
    members.insert("Id".to_string(), serde_json::Value::String("c-1".to_string()));
    members.insert(
        "OrganizationId".to_string(),
        serde_json::Value::String("org-1".to_string()),
    );
    members.insert(
        "Name".to_string(),
        serde_json::Value::String("Shared logins".to_string()),
    );
    members.insert(
        "Object".to_string(),
        serde_json::Value::String("collection".to_string()),
    );
    assert_eq!(sample().to_json(), serde_json::Value::Object(members));
}

#[test]
fn to_json_names_its_members_as_consumers_expect() {
    let json = sample().to_json();
    let object = json.as_object().expect("an object");
    assert_eq!(object.len(), 4);
    assert_eq!(object.get("Id").and_then(|v| v.as_str()), Some("c-1"));
    assert_eq!(
        object.get("OrganizationId").and_then(|v| v.as_str()),
        Some("org-1")
    );
    assert_eq!(
        object.get("Name").and_then(|v| v.as_str()),
        Some("Shared logins")
    );
    assert_eq!(
        object.get("Object").and_then(|v| v.as_str()),
        Some("collection")
    );
}

#[test]
fn to_json_serializes_to_the_expected_text() {
    let parsed: serde_json::Value = serde_json::from_str(
        "{\"Id\":\"c-1\",\"OrganizationId\":\"org-1\",\
         \"Name\":\"Shared logins\",\"Object\":\"collection\"}",
    )
    .expect("valid JSON");
    assert_eq!(sample().to_json(), parsed);
}

#[test]
fn to_json_keeps_text_that_needs_escaping() {
    let c = Collection {
        uuid: "c-\"1\"".to_string(),
        org_uuid: String::new(),
        name: "Caf\u{e9} \u{1f512}\n".to_string(),
    };
    let json = c.to_json();
    assert_eq!(json["Id"].as_str(), Some("c-\"1\""));
    assert_eq!(json["OrganizationId"].as_str(), Some(""));
    assert_eq!(json["Name"].as_str(), Some("Caf\u{e9} \u{1f512}\n"));
    assert_eq!(json["Object"].as_str(), Some("collection"));
}

#[test]
fn to_json_of_a_new_collection_carries_its_identifier() {
    let c = Collection::new("org-9".to_string(), "Fresh".to_string());
    let json = c.to_json();
    assert_eq!(json["Id"].as_str(), Some(c.uuid.as_str()));
    assert_eq!(json["OrganizationId"].as_str(), Some("org-9"));
    assert_eq!(json["Name"].as_str(), Some("Fresh"));
}
