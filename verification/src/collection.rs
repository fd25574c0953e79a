//! What callers do with collections and grants.

use vstd::prelude::*;
use crate::entity::{grant_of, key_of, Collection, CollectionUsers, GrantKey};
use crate::ident::{fresh_identifier, is_identifier};
use crate::model::{collection_key, explicit_lookup, grant_key, lookup, visible, visible_in_org};
use crate::projection::{empty_object, json_members, projection, put_text};
use crate::resolver::{retain_org, visible_collections, ResolverPolicy};
use crate::store::{exactly_one_row, first_collection, select_by_uuid, Store};
use crate::table::{has_key, replaced, with_key, without_key};

verus! {

impl Collection {
    /// A new collection of the organization `org_uuid`, under a fresh
    /// identifier.
    pub fn new(org_uuid: String, name: String) -> (collection: Self)
        ensures
            is_identifier(collection@.uuid),
            collection@.org_uuid == org_uuid@,
            collection@.name == name@,
    {
        Self::with_identifier(fresh_identifier(), org_uuid, name)
    }

    /// The collection `uuid` of the organization `org_uuid`.
    pub fn with_identifier(uuid: String, org_uuid: String, name: String) -> (collection: Self)
        ensures
            collection@.uuid == uuid@,
            collection@.org_uuid == org_uuid@,
            collection@.name == name@,
    {
        Collection { uuid, org_uuid, name }
    }

    /// The collection as a JSON object for outside consumers.
    pub fn to_json(&self) -> (json: serde_json::Value)
        ensures
            json_members(json) == Some(projection(self@)),
    {
        let mut json = empty_object();
        put_text(&mut json, "Id", self.uuid.as_str());
        put_text(&mut json, "OrganizationId", self.org_uuid.as_str());
        put_text(&mut json, "Name", self.name.as_str());
        put_text(&mut json, "Object", "collection");
        json
    }

    /// Writes the collection to `conn` under its identifier, in place of the
    /// row that had it. Done iff the store reports one row affected.
    pub fn save(&mut self, conn: &mut Store) -> (done: bool)
        ensures
            done,
            *final(self) == *old(self),
            final(conn)@.wf(),
            final(conn)@.collections == replaced(
                old(conn)@.collections,
                collection_key(),
                old(self)@,
            ),
            final(conn)@.memberships == old(conn)@.memberships,
            final(conn)@.grants == old(conn)@.grants,
    {
        let affected = conn.replace_collection(self.clone());
        exactly_one_row(Some(affected))
    }

    /// Deletes the collection from `conn` by its identifier. Done iff the
    /// store reports one row affected: a collection that was never written
    /// is not deleted.
    pub fn delete(self, conn: &mut Store) -> (done: bool)
        ensures
            done == has_key(old(conn)@.collections, collection_key(), self@.uuid),
            final(conn)@.wf(),
            final(conn)@.collections == without_key(
                old(conn)@.collections,
                collection_key(),
                self@.uuid,
            ),
            final(conn)@.memberships == old(conn)@.memberships,
            final(conn)@.grants == old(conn)@.grants,
    {
        let affected = conn.delete_collection(self.uuid.as_str());
        exactly_one_row(Some(affected))
    }

    /// The collection with the identifier `uuid`, if `conn` has one.
    pub fn find_by_uuid(uuid: &str, conn: &Store) -> (found: Option<Self>)
        ensures
            found.deep_view() == lookup(conn@, uuid@),
    {
        conn.collection_with_uuid(uuid)
    }

    /// Everything `user_uuid` reaches: the collections of the organizations
    /// in which the user has blanket access, then the collections granted to
    /// the user. A collection reached along both paths is listed twice.
    pub fn find_by_user_uuid(user_uuid: &str, conn: &Store) -> (found: Vec<Self>)
        ensures
            found.deep_view() == visible(conn@, user_uuid@),
    {
        visible_collections(user_uuid, conn, ResolverPolicy::keep_duplicates())
    }

    /// What `user_uuid` reaches inside the organization `org_uuid`.
    pub fn find_by_organization_and_user_uuid(
        org_uuid: &str,
        user_uuid: &str,
        conn: &Store,
    ) -> (found: Vec<Self>)
        ensures
            found.deep_view() == visible_in_org(conn@, org_uuid@, user_uuid@),
    {
        retain_org(Self::find_by_user_uuid(user_uuid, conn), org_uuid)
    }

    /// The collection `uuid` if `user_uuid` holds an explicit grant on it.
    /// Blanket access through an organization does not count here.
    pub fn find_by_uuid_and_user(uuid: &str, user_uuid: &str, conn: &Store) -> (found: Option<
        Self,
    >)
        ensures
            found.deep_view() == explicit_lookup(conn@, uuid@, user_uuid@),
    {
        let id = uuid.to_owned();
        let assigned = conn.assigned_collections(user_uuid);
        let mut named: Vec<Collection> = Vec::new();
        assert(named.deep_view() =~= Seq::empty());
        select_by_uuid(&assigned, &id, &mut named);
        assert(named.deep_view() =~= with_key(assigned.deep_view(), collection_key(), uuid@));
        first_collection(named)
    }
}

impl CollectionUsers {
    /// Grants `collection_uuid` to `user_uuid`, in place of the grant that
    /// the pair had. Done iff the store reports one row affected.
    pub fn save(
        user_uuid: &str,
        collection_uuid: &str,
        read_only: bool,
        conn: &mut Store,
    ) -> (done: bool)
        ensures
            done,
            final(conn)@.wf(),
            final(conn)@.grants == replaced(
                old(conn)@.grants,
                grant_key(),
                grant_of(user_uuid@, collection_uuid@, read_only),
            ),
            final(conn)@.collections == old(conn)@.collections,
            final(conn)@.memberships == old(conn)@.memberships,
    {
        let row = CollectionUsers {
            user_uuid: user_uuid.to_owned(),
            collection_uuid: collection_uuid.to_owned(),
            read_only,
        };
        let affected = conn.replace_grant(row);
        exactly_one_row(Some(affected))
    }

    /// Revokes the grant of `collection_uuid` to `user_uuid`. Done iff the
    /// store reports one row affected: where there is no such grant, nothing
    /// is revoked and the answer is `false`.
    pub fn delete(user_uuid: &str, collection_uuid: &str, conn: &mut Store) -> (done: bool)
        ensures
            done == has_key(
                old(conn)@.grants,
                grant_key(),
                key_of(user_uuid@, collection_uuid@),
            ),
            final(conn)@.wf(),
            final(conn)@.grants == without_key(
                old(conn)@.grants,
                grant_key(),
                key_of(user_uuid@, collection_uuid@),
            ),
            final(conn)@.collections == old(conn)@.collections,
            final(conn)@.memberships == old(conn)@.memberships,
    {
        let key = GrantKey::new(user_uuid, collection_uuid);
        let affected = conn.delete_grant(&key);
        exactly_one_row(Some(affected))
    }
}

} // verus!
