//! The rows of the three tables and their mathematical values.

use vstd::prelude::*;

verus! {

/// Value of a [`Collection`] row.
pub struct CollectionView {
    pub uuid: Seq<char>,
    pub org_uuid: Seq<char>,
    pub name: Seq<char>,
}

/// Composite identity of a grant, as a value.
pub struct GrantKeyView {
    pub user_uuid: Seq<char>,
    pub collection_uuid: Seq<char>,
}

/// Value of a [`CollectionUsers`] row.
pub struct GrantView {
    pub user_uuid: Seq<char>,
    pub collection_uuid: Seq<char>,
    pub read_only: bool,
}

impl GrantView {
    /// The composite identity of this grant.
    pub open spec fn key(self) -> GrantKeyView {
        GrantKeyView { user_uuid: self.user_uuid, collection_uuid: self.collection_uuid }
    }
}

/// The key of the grant of `user_uuid` on `collection_uuid`.
pub open spec fn key_of(user_uuid: Seq<char>, collection_uuid: Seq<char>) -> GrantKeyView {
    GrantKeyView { user_uuid, collection_uuid }
}

/// The grant of `collection_uuid` to `user_uuid`, read-only or not.
pub open spec fn grant_of(
    user_uuid: Seq<char>,
    collection_uuid: Seq<char>,
    read_only: bool,
) -> GrantView {
    GrantView { user_uuid, collection_uuid, read_only }
}

/// The membership of `user_uuid` in `org_uuid`, with blanket access or not.
pub open spec fn membership_of(
    user_uuid: Seq<char>,
    org_uuid: Seq<char>,
    access_all: bool,
) -> MembershipView {
    MembershipView { user_uuid, org_uuid, access_all }
}

/// Value of an [`OrgMembership`] row.
pub struct MembershipView {
    pub user_uuid: Seq<char>,
    pub org_uuid: Seq<char>,
    pub access_all: bool,
}

/// A named grouping of secret records, owned by one organization.
#[derive(Debug, PartialEq, Eq)]
pub struct Collection {
    pub uuid: String,
    pub org_uuid: String,
    pub name: String,
}

impl View for Collection {
    type V = CollectionView;

    open spec fn view(&self) -> CollectionView {
        CollectionView { uuid: self.uuid@, org_uuid: self.org_uuid@, name: self.name@ }
    }
}

impl DeepView for Collection {
    type V = CollectionView;

    open spec fn deep_view(&self) -> CollectionView {
        self@
    }
}

impl Clone for Collection {
    fn clone(&self) -> (copy: Self)
        ensures
            copy == *self,
    {
        Collection {
            uuid: self.uuid.clone(),
            org_uuid: self.org_uuid.clone(),
            name: self.name.clone(),
        }
    }
}

/// Identity of an explicit grant: one user, one collection.
#[derive(Debug)]
pub struct GrantKey {
    pub user_uuid: String,
    pub collection_uuid: String,
}

impl View for GrantKey {
    type V = GrantKeyView;

    open spec fn view(&self) -> GrantKeyView {
        GrantKeyView { user_uuid: self.user_uuid@, collection_uuid: self.collection_uuid@ }
    }
}

impl GrantKey {
    /// The key of the grant of `user_uuid` on `collection_uuid`.
    pub fn new(user_uuid: &str, collection_uuid: &str) -> (key: Self)
        ensures
            key@ == key_of(user_uuid@, collection_uuid@),
    {
        GrantKey { user_uuid: user_uuid.to_owned(), collection_uuid: collection_uuid.to_owned() }
    }
}

impl PartialEq for GrantKey {
    fn eq(&self, other: &Self) -> (same: bool) {
        self.user_uuid == other.user_uuid && self.collection_uuid == other.collection_uuid
    }
}

impl Eq for GrantKey {}

impl vstd::std_specs::cmp::PartialEqSpecImpl for GrantKey {
    open spec fn obeys_eq_spec() -> bool {
        true
    }

    open spec fn eq_spec(&self, other: &Self) -> bool {
        self@ == other@
    }
}

impl Clone for GrantKey {
    fn clone(&self) -> (copy: Self)
        ensures
            copy == *self,
    {
        GrantKey {
            user_uuid: self.user_uuid.clone(),
            collection_uuid: self.collection_uuid.clone(),
        }
    }
}

/// An explicit grant of one collection to one user.
#[derive(Debug, PartialEq, Eq)]
pub struct CollectionUsers {
    pub user_uuid: String,
    pub collection_uuid: String,
    pub read_only: bool,
}

impl View for CollectionUsers {
    type V = GrantView;

    open spec fn view(&self) -> GrantView {
        GrantView {
            user_uuid: self.user_uuid@,
            collection_uuid: self.collection_uuid@,
            read_only: self.read_only,
        }
    }
}

impl DeepView for CollectionUsers {
    type V = GrantView;

    open spec fn deep_view(&self) -> GrantView {
        self@
    }
}

impl Clone for CollectionUsers {
    fn clone(&self) -> (copy: Self)
        ensures
            copy == *self,
    {
        CollectionUsers {
            user_uuid: self.user_uuid.clone(),
            collection_uuid: self.collection_uuid.clone(),
            read_only: self.read_only,
        }
    }
}

impl CollectionUsers {
    /// Whether `key` is the identity of this grant.
    pub fn has_key(&self, key: &GrantKey) -> (same: bool)
        ensures
            same == (self@.key() == key@),
    {
        self.user_uuid == key.user_uuid && self.collection_uuid == key.collection_uuid
    }

    /// The composite identity of this grant.
    pub fn key(&self) -> (key: GrantKey)
        ensures
            key@ == self@.key(),
    {
        GrantKey {
            user_uuid: self.user_uuid.clone(),
            collection_uuid: self.collection_uuid.clone(),
        }
    }
}

/// Membership of a user in an organization. With `access_all` the user
/// reaches every collection of the organization.
#[derive(Debug, PartialEq, Eq)]
pub struct OrgMembership {
    pub user_uuid: String,
    pub org_uuid: String,
    pub access_all: bool,
}

impl View for OrgMembership {
    type V = MembershipView;

    open spec fn view(&self) -> MembershipView {
        MembershipView {
            user_uuid: self.user_uuid@,
            org_uuid: self.org_uuid@,
            access_all: self.access_all,
        }
    }
}

impl DeepView for OrgMembership {
    type V = MembershipView;

    open spec fn deep_view(&self) -> MembershipView {
        self@
    }
}

impl Clone for OrgMembership {
    fn clone(&self) -> (copy: Self)
        ensures
            copy == *self,
    {
        OrgMembership {
            user_uuid: self.user_uuid.clone(),
            org_uuid: self.org_uuid.clone(),
            access_all: self.access_all,
        }
    }
}

impl OrgMembership {
    /// The membership of `user_uuid` in `org_uuid`.
    pub fn new(user_uuid: &str, org_uuid: &str, access_all: bool) -> (row: Self)
        ensures
            row@ == membership_of(user_uuid@, org_uuid@, access_all),
    {
        OrgMembership { user_uuid: user_uuid.to_owned(), org_uuid: org_uuid.to_owned(), access_all }
    }
}

} // verus!
