//! The relational store, held in memory.
//!
//! Each table is a vector of rows in the order they were written. A write by
//! primary key removes the row that has the key and appends the new one; the
//! count of rows that a statement affected is what the caller gets back.

use vstd::prelude::*;
use crate::entity::{Collection, CollectionUsers, GrantKey, OrgMembership};
use crate::model::{
    blanket_access, blanket_join, collection_key, collections_of_org, explicit_access,
    explicit_join, grant_key, grant_lookup, lemma_blanket_join_push,
    lemma_collections_of_org_push, lemma_explicit_join_push, lookup, StoreView,
};
use crate::table::{
    first_of, has_key, lemma_delete_sound, lemma_replace_sound, lemma_split_push, replaced,
    with_key, without_key,
};

verus! {

/// The tables of collections, organization memberships and explicit grants.
pub struct Store {
    collections: Vec<Collection>,
    memberships: Vec<OrgMembership>,
    grants: Vec<CollectionUsers>,
}

impl View for Store {
    type V = StoreView;

    closed spec fn view(&self) -> StoreView {
        StoreView {
            collections: self.collections.deep_view(),
            memberships: self.memberships.deep_view(),
            grants: self.grants.deep_view(),
        }
    }
}

/// Appends to `out` a copy of each row of `rows` that `org_uuid` owns.
pub(crate) fn select_by_org(rows: &Vec<Collection>, org_uuid: &String, out: &mut Vec<Collection>)
    ensures
        final(out).deep_view() == old(out).deep_view() + collections_of_org(
            rows.deep_view(),
            org_uuid@,
        ),
{
    let ghost start = out.deep_view();
    let ghost all = rows.deep_view();
    let mut i: usize = 0;
    proof {
        reveal(Seq::filter);
        assert(all.take(0) =~= Seq::empty());
        assert(out.deep_view() =~= start + collections_of_org(all.take(0), org_uuid@));
    }
    while i < rows.len()
        invariant
            i <= rows.len(),
            all == rows.deep_view(),
            out.deep_view() == start + collections_of_org(all.take(i as int), org_uuid@),
        decreases rows.len() - i,
    {
        let row = &rows[i];
        proof {
            assert(all.take(i as int + 1) =~= all.take(i as int).push(row@));
            lemma_collections_of_org_push(all.take(i as int), org_uuid@, row@);
        }
        if row.org_uuid == *org_uuid {
            let ghost before = out.deep_view();
            out.push(row.clone());
            assert(out.deep_view() =~= before.push(row@));
        }
        i += 1;
    }
    assert(all.take(rows.len() as int) =~= all);
}

/// Appends to `out` a copy of each row of `rows` with the identifier `uuid`.
pub(crate) fn select_by_uuid(rows: &Vec<Collection>, uuid: &String, out: &mut Vec<Collection>)
    ensures
        final(out).deep_view() == old(out).deep_view() + with_key(
            rows.deep_view(),
            collection_key(),
            uuid@,
        ),
{
    let ghost start = out.deep_view();
    let ghost all = rows.deep_view();
    let mut i: usize = 0;
    proof {
        reveal(Seq::filter);
        assert(all.take(0) =~= Seq::empty());
        assert(out.deep_view() =~= start + with_key(all.take(0), collection_key(), uuid@));
    }
    while i < rows.len()
        invariant
            i <= rows.len(),
            all == rows.deep_view(),
            out.deep_view() == start + with_key(all.take(i as int), collection_key(), uuid@),
        decreases rows.len() - i,
    {
        let row = &rows[i];
        proof {
            assert(all.take(i as int + 1) =~= all.take(i as int).push(row@));
            lemma_split_push(all.take(i as int), collection_key(), uuid@, row@);
        }
        if row.uuid == *uuid {
            let ghost before = out.deep_view();
            out.push(row.clone());
            assert(out.deep_view() =~= before.push(row@));
        }
        i += 1;
    }
    assert(all.take(rows.len() as int) =~= all);
}

/// Copies of the rows of `rows` whose identifier is not `uuid`.
fn collections_without(rows: &Vec<Collection>, uuid: &String) -> (kept: Vec<Collection>)
    ensures
        kept.deep_view() == without_key(rows.deep_view(), collection_key(), uuid@),
{
    let ghost all = rows.deep_view();
    let mut kept: Vec<Collection> = Vec::new();
    let mut i: usize = 0;
    proof {
        reveal(Seq::filter);
        assert(all.take(0) =~= Seq::empty());
        assert(kept.deep_view() =~= without_key(all.take(0), collection_key(), uuid@));
    }
    while i < rows.len()
        invariant
            i <= rows.len(),
            all == rows.deep_view(),
            kept.deep_view() == without_key(all.take(i as int), collection_key(), uuid@),
        decreases rows.len() - i,
    {
        let row = &rows[i];
        proof {
            assert(all.take(i as int + 1) =~= all.take(i as int).push(row@));
            lemma_split_push(all.take(i as int), collection_key(), uuid@, row@);
        }
        if row.uuid != *uuid {
            let ghost before = kept.deep_view();
            kept.push(row.clone());
            assert(kept.deep_view() =~= before.push(row@));
        }
        i += 1;
    }
    assert(all.take(rows.len() as int) =~= all);
    kept
}

/// Copies of the rows of `rows` whose key is not `key`.
fn grants_without(rows: &Vec<CollectionUsers>, key: &GrantKey) -> (kept: Vec<CollectionUsers>)
    ensures
        kept.deep_view() == without_key(rows.deep_view(), grant_key(), key@),
{
    let ghost all = rows.deep_view();
    let mut kept: Vec<CollectionUsers> = Vec::new();
    let mut i: usize = 0;
    proof {
        reveal(Seq::filter);
        assert(all.take(0) =~= Seq::empty());
        assert(kept.deep_view() =~= without_key(all.take(0), grant_key(), key@));
    }
    while i < rows.len()
        invariant
            i <= rows.len(),
            all == rows.deep_view(),
            kept.deep_view() == without_key(all.take(i as int), grant_key(), key@),
        decreases rows.len() - i,
    {
        let row = &rows[i];
        proof {
            assert(all.take(i as int + 1) =~= all.take(i as int).push(row@));
            lemma_split_push(all.take(i as int), grant_key(), key@, row@);
        }
        if !row.has_key(key) {
            let ghost before = kept.deep_view();
            kept.push(row.clone());
            assert(kept.deep_view() =~= before.push(row@));
        }
        i += 1;
    }
    assert(all.take(rows.len() as int) =~= all);
    kept
}

/// Copies of the rows of `rows` with the key `key`.
fn grants_with(rows: &Vec<CollectionUsers>, key: &GrantKey) -> (found: Vec<CollectionUsers>)
    ensures
        found.deep_view() == with_key(rows.deep_view(), grant_key(), key@),
{
    let ghost all = rows.deep_view();
    let mut found: Vec<CollectionUsers> = Vec::new();
    let mut i: usize = 0;
    proof {
        reveal(Seq::filter);
        assert(all.take(0) =~= Seq::empty());
        assert(found.deep_view() =~= with_key(all.take(0), grant_key(), key@));
    }
    while i < rows.len()
        invariant
            i <= rows.len(),
            all == rows.deep_view(),
            found.deep_view() == with_key(all.take(i as int), grant_key(), key@),
        decreases rows.len() - i,
    {
        let row = &rows[i];
        proof {
            assert(all.take(i as int + 1) =~= all.take(i as int).push(row@));
            lemma_split_push(all.take(i as int), grant_key(), key@, row@);
        }
        if row.has_key(key) {
            let ghost before = found.deep_view();
            found.push(row.clone());
            assert(found.deep_view() =~= before.push(row@));
        }
        i += 1;
    }
    assert(all.take(rows.len() as int) =~= all);
    found
}

/// Whether a write that reported `outcome` counts as done: the store gave a
/// count, and the count is one. `None` stands for a store that gave an error.
pub fn exactly_one_row(outcome: Option<usize>) -> (done: bool)
    ensures
        done == (outcome == Some(1usize)),
{
    match outcome {
        Some(affected) => affected == 1,
        None => false,
    }
}

/// The first row of `rows`, if there is one.
pub fn first_collection(rows: Vec<Collection>) -> (head: Option<Collection>)
    ensures
        head.deep_view() == first_of(rows.deep_view()),
{
    let mut rows = rows;
    if rows.len() > 0 {
        Some(rows.remove(0))
    } else {
        None
    }
}

impl Store {
    /// Both primary keys hold in every store: see [`StoreView::wf`].
    #[verifier::type_invariant]
    spec fn sound(self) -> bool {
        self@.wf()
    }

    /// A store with three empty tables.
    pub fn new() -> (store: Self)
        ensures
            store@ == StoreView::empty(),
    {
        let store = Store { collections: Vec::new(), memberships: Vec::new(), grants: Vec::new() };
        assert(store@.collections =~= Seq::empty());
        assert(store@.memberships =~= Seq::empty());
        assert(store@.grants =~= Seq::empty());
        store
    }

    /// Appends a membership row. Memberships are kept for the resolver to
    /// read; they have no key here.
    pub fn add_membership(&mut self, row: OrgMembership)
        ensures
            final(self)@.memberships == old(self)@.memberships.push(row@),
            final(self)@.collections == old(self)@.collections,
            final(self)@.grants == old(self)@.grants,
    {
        proof {
            use_type_invariant(&*self);
        }
        let mut rows: Vec<OrgMembership> = Vec::new();
        std::mem::swap(&mut rows, &mut self.memberships);
        let ghost before = rows.deep_view();
        rows.push(row);
        assert(rows.deep_view() =~= before.push(row@));
        self.memberships = rows;
    }

    /// What holds of every store: no identifier names two collections, and
    /// no user holds two grants on one collection.
    pub fn keys_hold(&self)
        ensures
            self@.wf(),
    {
        proof {
            use_type_invariant(self);
        }
    }

    /// Insert-or-replace by identifier. The row that had the identifier, if
    /// any, leaves and `row` is appended; one row is affected.
    pub fn replace_collection(&mut self, row: Collection) -> (affected: usize)
        ensures
            affected == 1,
            final(self)@.wf(),
            final(self)@.collections == replaced(old(self)@.collections, collection_key(), row@),
            final(self)@.memberships == old(self)@.memberships,
            final(self)@.grants == old(self)@.grants,
    {
        proof {
            use_type_invariant(&*self);
        }
        let ghost before = self.collections.deep_view();
        let mut rows = collections_without(&self.collections, &row.uuid);
        let ghost kept = rows.deep_view();
        proof {
            lemma_replace_sound(before, collection_key(), row@);
        }
        rows.push(row);
        assert(rows.deep_view() =~= kept.push(row@));
        self.collections = rows;
        1
    }

    /// Delete by identifier. Gives the number of rows that left: one if the
    /// identifier was there, none if it was not.
    pub fn delete_collection(&mut self, uuid: &str) -> (affected: usize)
        ensures
            affected == if has_key(old(self)@.collections, collection_key(), uuid@) {
                1usize
            } else {
                0usize
            },
            final(self)@.wf(),
            final(self)@.collections == without_key(
                old(self)@.collections,
                collection_key(),
                uuid@,
            ),
            final(self)@.memberships == old(self)@.memberships,
            final(self)@.grants == old(self)@.grants,
    {
        proof {
            use_type_invariant(&*self);
        }
        let id = uuid.to_owned();
        let rows = collections_without(&self.collections, &id);
        proof {
            lemma_delete_sound(self.collections.deep_view(), collection_key(), uuid@);
        }
        let affected = self.collections.len() - rows.len();
        self.collections = rows;
        affected
    }

    /// Insert-or-replace by the pair of user and collection. The grant that
    /// the pair had, if any, leaves and `row` is appended; one row is
    /// affected.
    pub fn replace_grant(&mut self, row: CollectionUsers) -> (affected: usize)
        ensures
            affected == 1,
            final(self)@.wf(),
            final(self)@.grants == replaced(old(self)@.grants, grant_key(), row@),
            final(self)@.collections == old(self)@.collections,
            final(self)@.memberships == old(self)@.memberships,
    {
        proof {
            use_type_invariant(&*self);
        }
        let ghost before = self.grants.deep_view();
        let key = row.key();
        let mut rows = grants_without(&self.grants, &key);
        let ghost kept = rows.deep_view();
        proof {
            lemma_replace_sound(before, grant_key(), row@);
        }
        rows.push(row);
        assert(rows.deep_view() =~= kept.push(row@));
        self.grants = rows;
        1
    }

    /// Delete by the pair of user and collection. Gives the number of rows
    /// that left: one if the pair had a grant, none if it had not.
    pub fn delete_grant(&mut self, key: &GrantKey) -> (affected: usize)
        ensures
            affected == if has_key(old(self)@.grants, grant_key(), key@) {
                1usize
            } else {
                0usize
            },
            final(self)@.wf(),
            final(self)@.grants == without_key(old(self)@.grants, grant_key(), key@),
            final(self)@.collections == old(self)@.collections,
            final(self)@.memberships == old(self)@.memberships,
    {
        proof {
            use_type_invariant(&*self);
        }
        let rows = grants_without(&self.grants, key);
        proof {
            lemma_delete_sound(self.grants.deep_view(), grant_key(), key@);
        }
        let affected = self.grants.len() - rows.len();
        self.grants = rows;
        affected
    }

    /// The collection with the identifier `uuid`, if there is one.
    pub fn collection_with_uuid(&self, uuid: &str) -> (found: Option<Collection>)
        ensures
            found.deep_view() == lookup(self@, uuid@),
    {
        let id = uuid.to_owned();
        let mut rows: Vec<Collection> = Vec::new();
        assert(rows.deep_view() =~= Seq::empty());
        select_by_uuid(&self.collections, &id, &mut rows);
        assert(rows.deep_view() =~= with_key(self@.collections, collection_key(), uuid@));
        first_collection(rows)
    }

    /// The grant with the key `key`, if there is one.
    pub fn grant_with_key(&self, key: &GrantKey) -> (found: Option<CollectionUsers>)
        ensures
            found.deep_view() == grant_lookup(self@, key@),
    {
        let mut rows = grants_with(&self.grants, key);
        if rows.len() > 0 {
            Some(rows.remove(0))
        } else {
            None
        }
    }

    /// A copy of the collections table, in table order.
    pub fn collections(&self) -> (rows: Vec<Collection>)
        ensures
            rows.deep_view() == self@.collections,
    {
        let rows = self.collections.clone();
        assert(rows.deep_view() =~= self.collections.deep_view());
        rows
    }

    /// A copy of the memberships table, in table order.
    pub fn memberships(&self) -> (rows: Vec<OrgMembership>)
        ensures
            rows.deep_view() == self@.memberships,
    {
        let rows = self.memberships.clone();
        assert(rows.deep_view() =~= self.memberships.deep_view());
        rows
    }

    /// A copy of the grants table, in table order.
    pub fn grants(&self) -> (rows: Vec<CollectionUsers>)
        ensures
            rows.deep_view() == self@.grants,
    {
        let rows = self.grants.clone();
        assert(rows.deep_view() =~= self.grants.deep_view());
        rows
    }

    /// What `user_uuid` reaches through organization-wide access.
    pub fn blanket_collections(&self, user_uuid: &str) -> (found: Vec<Collection>)
        ensures
            found.deep_view() == blanket_access(self@, user_uuid@),
    {
        let user = user_uuid.to_owned();
        let ghost ms = self.memberships.deep_view();
        let ghost cs = self.collections.deep_view();
        let mut found: Vec<Collection> = Vec::new();
        let mut i: usize = 0;
        proof {
            reveal(Seq::filter);
            assert(ms.take(0) =~= Seq::empty());
            assert(found.deep_view() =~= blanket_join(ms.take(0), cs, user@));
        }
        while i < self.memberships.len()
            invariant
                i <= self.memberships.len(),
                ms == self.memberships.deep_view(),
                cs == self.collections.deep_view(),
                user@ == user_uuid@,
                found.deep_view() == blanket_join(ms.take(i as int), cs, user@),
            decreases self.memberships.len() - i,
        {
            let m = &self.memberships[i];
            proof {
                assert(ms.take(i as int + 1) =~= ms.take(i as int).push(m@));
                lemma_blanket_join_push(ms.take(i as int), cs, user@, m@);
            }
            if m.access_all && m.user_uuid == user {
                select_by_org(&self.collections, &m.org_uuid, &mut found);
            }
            i += 1;
        }
        assert(ms.take(self.memberships.len() as int) =~= ms);
        found
    }

    /// What `user_uuid` reaches through explicit grants.
    pub fn assigned_collections(&self, user_uuid: &str) -> (found: Vec<Collection>)
        ensures
            found.deep_view() == explicit_access(self@, user_uuid@),
    {
        let user = user_uuid.to_owned();
        let ghost gs = self.grants.deep_view();
        let ghost cs = self.collections.deep_view();
        let mut found: Vec<Collection> = Vec::new();
        let mut i: usize = 0;
        proof {
            reveal(Seq::filter);
            assert(gs.take(0) =~= Seq::empty());
            assert(found.deep_view() =~= explicit_join(gs.take(0), cs, user@));
        }
        while i < self.grants.len()
            invariant
                i <= self.grants.len(),
                gs == self.grants.deep_view(),
                cs == self.collections.deep_view(),
                user@ == user_uuid@,
                found.deep_view() == explicit_join(gs.take(i as int), cs, user@),
            decreases self.grants.len() - i,
        {
            let g = &self.grants[i];
            proof {
                assert(gs.take(i as int + 1) =~= gs.take(i as int).push(g@));
                lemma_explicit_join_push(gs.take(i as int), cs, user@, g@);
            }
            if g.user_uuid == user {
                select_by_uuid(&self.collections, &g.collection_uuid, &mut found);
            }
            i += 1;
        }
        assert(gs.take(self.grants.len() as int) =~= gs);
        found
    }
}

} // verus!
