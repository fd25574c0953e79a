//! The store as a mathematical value, and what a user reaches in it.

use vstd::prelude::*;
use vstd::seq_lib::lemma_seq_concat_contains_all_elements;
use crate::entity::{CollectionView, GrantKeyView, GrantView, MembershipView};
use crate::table::{first_of, keys_unique, lemma_filter_member, lemma_key_member, with_key};

verus! {

/// The three tables, each in the order its rows were written.
pub struct StoreView {
    pub collections: Seq<CollectionView>,
    pub memberships: Seq<MembershipView>,
    pub grants: Seq<GrantView>,
}

/// Primary key of the collections table: the identifier.
pub open spec fn collection_key() -> spec_fn(CollectionView) -> Seq<char> {
    |c: CollectionView| c.uuid
}

/// Primary key of the grants table: the pair of user and collection.
pub open spec fn grant_key() -> spec_fn(GrantView) -> GrantKeyView {
    |g: GrantView| g.key()
}

impl StoreView {
    /// The store with no rows.
    pub open spec fn empty() -> StoreView {
        StoreView {
            collections: Seq::empty(),
            memberships: Seq::empty(),
            grants: Seq::empty(),
        }
    }

    /// No identifier names two collections, and no user holds two grants on
    /// one collection.
    pub open spec fn wf(self) -> bool {
        &&& keys_unique(self.collections, collection_key())
        &&& keys_unique(self.grants, grant_key())
    }
}

/// The collections of `collections` that the organization `org_uuid` owns.
pub open spec fn collections_of_org(
    collections: Seq<CollectionView>,
    org_uuid: Seq<char>,
) -> Seq<CollectionView> {
    collections.filter(|c: CollectionView| c.org_uuid == org_uuid)
}

/// A membership that gives `user_uuid` every collection of its organization.
pub open spec fn is_blanket(m: MembershipView, user_uuid: Seq<char>) -> bool {
    m.user_uuid == user_uuid && m.access_all
}

/// The blanket path over given tables: for each membership of the user with
/// `access_all`, in table order, the collections of its organization.
pub open spec fn blanket_join(
    memberships: Seq<MembershipView>,
    collections: Seq<CollectionView>,
    user_uuid: Seq<char>,
) -> Seq<CollectionView> {
    memberships.filter(|m: MembershipView| is_blanket(m, user_uuid)).map_values(
        |m: MembershipView| collections_of_org(collections, m.org_uuid),
    ).flatten()
}

/// The explicit path over given tables: for each grant of the user, in table
/// order, the collection it names. A grant whose collection is gone adds
/// nothing.
pub open spec fn explicit_join(
    grants: Seq<GrantView>,
    collections: Seq<CollectionView>,
    user_uuid: Seq<char>,
) -> Seq<CollectionView> {
    grants.filter(|g: GrantView| g.user_uuid == user_uuid).map_values(
        |g: GrantView| with_key(collections, collection_key(), g.collection_uuid),
    ).flatten()
}

/// What `user_uuid` reaches through organization-wide access.
pub open spec fn blanket_access(s: StoreView, user_uuid: Seq<char>) -> Seq<CollectionView> {
    blanket_join(s.memberships, s.collections, user_uuid)
}

/// What `user_uuid` reaches through explicit grants.
pub open spec fn explicit_access(s: StoreView, user_uuid: Seq<char>) -> Seq<CollectionView> {
    explicit_join(s.grants, s.collections, user_uuid)
}

/// Everything `user_uuid` reaches: the blanket path, then the explicit path.
/// A collection reached along both paths occurs once for each.
pub open spec fn visible(s: StoreView, user_uuid: Seq<char>) -> Seq<CollectionView> {
    blanket_access(s, user_uuid) + explicit_access(s, user_uuid)
}

/// What `user_uuid` reaches inside the organization `org_uuid`.
pub open spec fn visible_in_org(
    s: StoreView,
    org_uuid: Seq<char>,
    user_uuid: Seq<char>,
) -> Seq<CollectionView> {
    collections_of_org(visible(s, user_uuid), org_uuid)
}

/// The collection `uuid`, if there is one.
pub open spec fn lookup(s: StoreView, uuid: Seq<char>) -> Option<CollectionView> {
    first_of(with_key(s.collections, collection_key(), uuid))
}

/// The collection `uuid` if `user_uuid` holds an explicit grant on it.
/// Blanket access does not count here.
pub open spec fn explicit_lookup(
    s: StoreView,
    uuid: Seq<char>,
    user_uuid: Seq<char>,
) -> Option<CollectionView> {
    first_of(with_key(explicit_access(s, user_uuid), collection_key(), uuid))
}

/// The grant with the key `key`, if there is one.
pub open spec fn grant_lookup(s: StoreView, key: GrantKeyView) -> Option<GrantView> {
    first_of(with_key(s.grants, grant_key(), key))
}

/// One more collection row joins the collections of `org_uuid` if that
/// organization owns it.
pub proof fn lemma_collections_of_org_push(
    collections: Seq<CollectionView>,
    org_uuid: Seq<char>,
    c: CollectionView,
)
    ensures
        collections_of_org(collections.push(c), org_uuid) == if c.org_uuid == org_uuid {
            collections_of_org(collections, org_uuid).push(c)
        } else {
            collections_of_org(collections, org_uuid)
        },
{
    collections.lemma_filter_push(c, |c: CollectionView| c.org_uuid == org_uuid);
}

/// One more membership row adds the collections of its organization to the
/// blanket path if it is a blanket membership of the user, and nothing else.
pub proof fn lemma_blanket_join_push(
    memberships: Seq<MembershipView>,
    collections: Seq<CollectionView>,
    user_uuid: Seq<char>,
    m: MembershipView,
)
    ensures
        blanket_join(memberships.push(m), collections, user_uuid) == if is_blanket(m, user_uuid) {
            blanket_join(memberships, collections, user_uuid) + collections_of_org(
                collections,
                m.org_uuid,
            )
        } else {
            blanket_join(memberships, collections, user_uuid)
        },
{
    let pick = |m: MembershipView| is_blanket(m, user_uuid);
    let owned = |m: MembershipView| collections_of_org(collections, m.org_uuid);
    memberships.lemma_filter_push(m, pick);
    if is_blanket(m, user_uuid) {
        let chosen = memberships.filter(pick);
        assert(chosen.push(m).map_values(owned) =~= chosen.map_values(owned).push(owned(m)));
        chosen.map_values(owned).lemma_flatten_push(owned(m));
    }
}

/// One more grant row adds the collection it names to the explicit path if
/// it is a grant of the user, and nothing else.
pub proof fn lemma_explicit_join_push(
    grants: Seq<GrantView>,
    collections: Seq<CollectionView>,
    user_uuid: Seq<char>,
    g: GrantView,
)
    ensures
        explicit_join(grants.push(g), collections, user_uuid) == if g.user_uuid == user_uuid {
            explicit_join(grants, collections, user_uuid) + with_key(
                collections,
                collection_key(),
                g.collection_uuid,
            )
        } else {
            explicit_join(grants, collections, user_uuid)
        },
{
    let pick = |g: GrantView| g.user_uuid == user_uuid;
    let named = |g: GrantView| with_key(collections, collection_key(), g.collection_uuid);
    grants.lemma_filter_push(g, pick);
    if g.user_uuid == user_uuid {
        let chosen = grants.filter(pick);
        assert(chosen.push(g).map_values(named) =~= chosen.map_values(named).push(named(g)));
        chosen.map_values(named).lemma_flatten_push(named(g));
    }
}

/// A collection is on the blanket path iff some blanket membership of the
/// user names the organization that owns it.
pub proof fn lemma_blanket_join_member(
    memberships: Seq<MembershipView>,
    collections: Seq<CollectionView>,
    user_uuid: Seq<char>,
    c: CollectionView,
)
    ensures
        blanket_join(memberships, collections, user_uuid).contains(c) <==> collections.contains(c)
            && exists|i: int|
            0 <= i < memberships.len() && is_blanket(#[trigger] memberships[i], user_uuid)
                && memberships[i].org_uuid == c.org_uuid,
    decreases memberships.len(),
{
    if memberships.len() == 0 {
        reveal(Seq::filter);
        assert(blanket_join(memberships, collections, user_uuid) =~= Seq::empty());
    } else {
        let front = memberships.drop_last();
        let last = memberships.last();
        assert(front.push(last) =~= memberships);
        lemma_blanket_join_member(front, collections, user_uuid, c);
        lemma_blanket_join_push(front, collections, user_uuid, last);
        let owned = collections_of_org(collections, last.org_uuid);
        lemma_filter_member(collections, |c: CollectionView| c.org_uuid == last.org_uuid, c);
        lemma_seq_concat_contains_all_elements(
            blanket_join(front, collections, user_uuid),
            owned,
            c,
        );
        if blanket_join(memberships, collections, user_uuid).contains(c) {
            if blanket_join(front, collections, user_uuid).contains(c) {
                let i = choose|i: int|
                    0 <= i < front.len() && is_blanket(#[trigger] front[i], user_uuid)
                        && front[i].org_uuid == c.org_uuid;
                assert(memberships[i] == front[i]);
            } else {
                assert(memberships[memberships.len() - 1] == last);
            }
        }
        if collections.contains(c) && exists|i: int|
            0 <= i < memberships.len() && is_blanket(#[trigger] memberships[i], user_uuid)
                && memberships[i].org_uuid == c.org_uuid {
            let i = choose|i: int|
                0 <= i < memberships.len() && is_blanket(#[trigger] memberships[i], user_uuid)
                    && memberships[i].org_uuid == c.org_uuid;
            if i < front.len() {
                assert(front[i] == memberships[i]);
            }
        }
    }
}

/// A collection is on the explicit path iff some grant of the user names it.
pub proof fn lemma_explicit_join_member(
    grants: Seq<GrantView>,
    collections: Seq<CollectionView>,
    user_uuid: Seq<char>,
    c: CollectionView,
)
    ensures
        explicit_join(grants, collections, user_uuid).contains(c) <==> collections.contains(c)
            && exists|i: int|
            0 <= i < grants.len() && (#[trigger] grants[i]).user_uuid == user_uuid
                && grants[i].collection_uuid == c.uuid,
    decreases grants.len(),
{
    if grants.len() == 0 {
        reveal(Seq::filter);
        assert(explicit_join(grants, collections, user_uuid) =~= Seq::empty());
    } else {
        let front = grants.drop_last();
        let last = grants.last();
        assert(front.push(last) =~= grants);
        lemma_explicit_join_member(front, collections, user_uuid, c);
        lemma_explicit_join_push(front, collections, user_uuid, last);
        let named = with_key(collections, collection_key(), last.collection_uuid);
        lemma_key_member(collections, collection_key(), last.collection_uuid, c);
        lemma_seq_concat_contains_all_elements(
            explicit_join(front, collections, user_uuid),
            named,
            c,
        );
        if explicit_join(grants, collections, user_uuid).contains(c) {
            if explicit_join(front, collections, user_uuid).contains(c) {
                let i = choose|i: int|
                    0 <= i < front.len() && (#[trigger] front[i]).user_uuid == user_uuid
                        && front[i].collection_uuid == c.uuid;
                assert(grants[i] == front[i]);
            } else {
                assert(grants[grants.len() - 1] == last);
            }
        }
        if collections.contains(c) && exists|i: int|
            0 <= i < grants.len() && (#[trigger] grants[i]).user_uuid == user_uuid
                && grants[i].collection_uuid == c.uuid {
            let i = choose|i: int|
                0 <= i < grants.len() && (#[trigger] grants[i]).user_uuid == user_uuid
                    && grants[i].collection_uuid == c.uuid;
            if i < front.len() {
                assert(front[i] == grants[i]);
            }
        }
    }
}

} // verus!
