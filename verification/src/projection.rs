//! The outward form of a collection: a JSON object of four text members.

use vstd::prelude::*;
use crate::entity::CollectionView;

verus! {

/// `serde_json::Value`, carried through as it is.
#[verifier::external_type_specification]
#[verifier::external_body]
pub struct ExJsonValue(serde_json::Value);

/// What a JSON value holds when it is an object: each member's name with its
/// text, or with `None` where the member is no string. `None` for a value
/// that is no object.
pub uninterp spec fn json_members(value: serde_json::Value) -> Option<
    Map<Seq<char>, Option<Seq<char>>>,
>;

/// The members of the object that stands for the collection `c`.
///
/// `Id` is the identifier, `OrganizationId` the identifier of the owning
/// organization, `Name` the display label, and `Object` the kind of the
/// record, which is `collection` for every collection.
pub open spec fn projection(c: CollectionView) -> Map<Seq<char>, Option<Seq<char>>> {
    map![
        "Id"@ => Some(c.uuid),
        "OrganizationId"@ => Some(c.org_uuid),
        "Name"@ => Some(c.name),
        "Object"@ => Some("collection"@),
    ]
}

/// Makes `serde_json::Value::Object` of `serde_json::Map::new()`.
///
/// Trusted: the result is an object without members.
#[verifier::external_body]
pub(crate) fn empty_object() -> (object: serde_json::Value)
    ensures
        json_members(object) == Some(Map::<Seq<char>, Option<Seq<char>>>::empty()),
{
    serde_json::Value::Object(serde_json::Map::new())
}

/// Calls `serde_json::Map::insert` on the members of `object`, with `key`
/// and `serde_json::Value::String` of `text`.
///
/// Trusted: afterwards `object` has the member `key` with the text `text`,
/// whether or not it had a member of that name, and its other members are
/// as before.
#[verifier::external_body]
pub(crate) fn put_text(object: &mut serde_json::Value, key: &str, text: &str)
    requires
        json_members(*old(object)) is Some,
    ensures
        json_members(*final(object)) == Some(
            json_members(*old(object))->0.insert(key@, Some(text@)),
        ),
{
    if let serde_json::Value::Object(members) = object {
        members.insert(key.to_owned(), serde_json::Value::String(text.to_owned()));
    }
}

} // verus!
