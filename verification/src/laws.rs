//! What holds of every store: the laws of access resolution.

use vstd::prelude::*;
use vstd::seq_lib::lemma_seq_concat_contains_all_elements;
use crate::entity::{grant_of, key_of, CollectionView, GrantKeyView, GrantView, MembershipView};
use crate::model::{
    blanket_access, collection_key, explicit_access, explicit_lookup, grant_key, grant_lookup,
    is_blanket, lemma_blanket_join_member, lemma_explicit_join_member, lookup, visible,
    visible_in_org, StoreView,
};
use crate::resolver::{
    first_per_uuid, lemma_first_per_uuid, lemma_first_per_uuid_is_first,
    lemma_first_per_uuid_keeps, resolve, ResolverPolicy,
};
use crate::table::{
    first_of, has_key, keys_unique, lemma_delete_absent, lemma_delete_frame, lemma_delete_sound,
    lemma_filter_member, lemma_key_member, lemma_replace_frame, lemma_replace_idempotent,
    lemma_replace_sound, lemma_without_key, replaced, with_key, without_key,
};

verus! {

/// A user with blanket access in an organization reaches every collection
/// that the organization owns.
pub proof fn law_blanket_access_reaches(
    s: StoreView,
    user_uuid: Seq<char>,
    m: MembershipView,
    c: CollectionView,
)
    requires
        s.memberships.contains(m),
        m.user_uuid == user_uuid,
        m.access_all,
        s.collections.contains(c),
        c.org_uuid == m.org_uuid,
    ensures
        blanket_access(s, user_uuid).contains(c),
        visible(s, user_uuid).contains(c),
{
    lemma_blanket_join_member(s.memberships, s.collections, user_uuid, c);
    let i = choose|i: int| 0 <= i < s.memberships.len() && s.memberships[i] == m;
    assert(is_blanket(s.memberships[i], user_uuid));
    lemma_seq_concat_contains_all_elements(
        blanket_access(s, user_uuid),
        explicit_access(s, user_uuid),
        c,
    );
}

/// A user with an explicit grant on a collection reaches it, whatever the
/// user's memberships are.
pub proof fn law_grant_reaches(
    s: StoreView,
    user_uuid: Seq<char>,
    g: GrantView,
    c: CollectionView,
)
    requires
        s.grants.contains(g),
        g.user_uuid == user_uuid,
        s.collections.contains(c),
        g.collection_uuid == c.uuid,
    ensures
        explicit_access(s, user_uuid).contains(c),
        visible(s, user_uuid).contains(c),
{
    lemma_explicit_join_member(s.grants, s.collections, user_uuid, c);
    let i = choose|i: int| 0 <= i < s.grants.len() && s.grants[i] == g;
    assert(s.grants[i].user_uuid == user_uuid);
    lemma_seq_concat_contains_all_elements(
        blanket_access(s, user_uuid),
        explicit_access(s, user_uuid),
        c,
    );
}

/// Nothing leaks: what a user reaches is a collection of the store, and the
/// user either has blanket access in the organization that owns it or holds
/// a grant on it. A grant whose collection is gone gives nothing.
pub proof fn law_visible_is_granted(s: StoreView, user_uuid: Seq<char>, c: CollectionView)
    requires
        visible(s, user_uuid).contains(c),
    ensures
        s.collections.contains(c),
        (exists|m: MembershipView|
            s.memberships.contains(m) && is_blanket(m, user_uuid) && m.org_uuid == c.org_uuid)
            || has_key(s.grants, grant_key(), key_of(user_uuid, c.uuid)),
{
    lemma_seq_concat_contains_all_elements(
        blanket_access(s, user_uuid),
        explicit_access(s, user_uuid),
        c,
    );
    lemma_blanket_join_member(s.memberships, s.collections, user_uuid, c);
    lemma_explicit_join_member(s.grants, s.collections, user_uuid, c);
    if blanket_access(s, user_uuid).contains(c) {
        let i = choose|i: int|
            0 <= i < s.memberships.len() && is_blanket(#[trigger] s.memberships[i], user_uuid)
                && s.memberships[i].org_uuid == c.org_uuid;
        assert(s.memberships.contains(s.memberships[i]));
    } else {
        let i = choose|i: int|
            0 <= i < s.grants.len() && (#[trigger] s.grants[i]).user_uuid == user_uuid
                && s.grants[i].collection_uuid == c.uuid;
        assert(grant_key()(s.grants[i]) == key_of(user_uuid, c.uuid));
    }
}

/// The scoped query gives what the user reaches, cut down to the
/// organization: nothing of another organization, and nothing more.
pub proof fn law_scoped_is_visible_in_org(
    s: StoreView,
    org_uuid: Seq<char>,
    user_uuid: Seq<char>,
    c: CollectionView,
)
    ensures
        visible_in_org(s, org_uuid, user_uuid).contains(c) <==> visible(s, user_uuid).contains(c)
            && c.org_uuid == org_uuid,
{
    lemma_filter_member(
        visible(s, user_uuid),
        |c: CollectionView| c.org_uuid == org_uuid,
        c,
    );
}

/// Deduplication lists each identifier once, loses no identifier, and keeps
/// for each the first row that has it.
pub proof fn law_dedup_keeps_first(rows: Seq<CollectionView>)
    ensures
        keys_unique(first_per_uuid(rows), collection_key()),
        forall|uuid: Seq<char>|
            #![trigger has_key(first_per_uuid(rows), collection_key(), uuid)]
            #![trigger has_key(rows, collection_key(), uuid)]
            has_key(first_per_uuid(rows), collection_key(), uuid) <==> has_key(
                rows,
                collection_key(),
                uuid,
            ),
        forall|i: int|
            0 <= i < first_per_uuid(rows).len() ==> first_of(
                with_key(rows, collection_key(), (#[trigger] first_per_uuid(rows)[i]).uuid),
            ) == Some(first_per_uuid(rows)[i]),
{
    lemma_first_per_uuid(rows);
    assert forall|i: int| 0 <= i < first_per_uuid(rows).len() implies first_of(
        with_key(rows, collection_key(), (#[trigger] first_per_uuid(rows)[i]).uuid),
    ) == Some(first_per_uuid(rows)[i]) by {
        lemma_first_per_uuid_is_first(rows, i);
    }
}

/// Listing each identifier once loses no collection: in a sound store the
/// user reaches the same collections under either policy, and under the
/// policy that deduplicates none of them is listed twice.
pub proof fn law_policy_keeps_reach(
    s: StoreView,
    user_uuid: Seq<char>,
    policy: ResolverPolicy,
    c: CollectionView,
)
    requires
        s.wf(),
    ensures
        resolve(s, user_uuid, policy).contains(c) <==> visible(s, user_uuid).contains(c),
        policy.deduplicate_by_identifier ==> keys_unique(
            resolve(s, user_uuid, policy),
            collection_key(),
        ),
{
    let rows = visible(s, user_uuid);
    lemma_first_per_uuid(rows);
    assert forall|i: int, j: int|
        0 <= i < rows.len() && 0 <= j < rows.len() && rows[i].uuid == rows[j].uuid implies rows[i]
        == rows[j] by {
        assert(rows.contains(rows[i]));
        assert(rows.contains(rows[j]));
        law_visible_is_granted(s, user_uuid, rows[i]);
        law_visible_is_granted(s, user_uuid, rows[j]);
        let a = choose|a: int| 0 <= a < s.collections.len() && s.collections[a] == rows[i];
        let b = choose|b: int| 0 <= b < s.collections.len() && s.collections[b] == rows[j];
        if a != b {
            if a < b {
                assert(collection_key()(s.collections[a]) != collection_key()(s.collections[b]));
            } else {
                assert(collection_key()(s.collections[b]) != collection_key()(s.collections[a]));
            }
        }
    }
    lemma_first_per_uuid_keeps(rows, c);
}

/// Granting a pair twice leaves one grant for the pair, and it carries the
/// flag of the second call.
pub proof fn law_second_grant_wins(
    grants: Seq<GrantView>,
    user_uuid: Seq<char>,
    collection_uuid: Seq<char>,
    first: bool,
    second: bool,
)
    ensures
        with_key(
            replaced(
                replaced(grants, grant_key(), grant_of(user_uuid, collection_uuid, first)),
                grant_key(),
                grant_of(user_uuid, collection_uuid, second),
            ),
            grant_key(),
            key_of(user_uuid, collection_uuid),
        ) == seq![grant_of(user_uuid, collection_uuid, second)],
{
    let once = replaced(grants, grant_key(), grant_of(user_uuid, collection_uuid, first));
    lemma_replace_sound(once, grant_key(), grant_of(user_uuid, collection_uuid, second));
}

/// After a grant has been written, the pair has that grant and no other.
pub proof fn law_granted_is_found(s: StoreView, after: StoreView, g: GrantView)
    requires
        after.grants == replaced(s.grants, grant_key(), g),
    ensures
        grant_lookup(after, g.key()) == Some(g),
        has_key(after.grants, grant_key(), g.key()),
        with_key(after.grants, grant_key(), g.key()).len() == 1,
{
    lemma_replace_sound(s.grants, grant_key(), g);
}

/// Writes by key are idempotent: saving a collection twice, or granting a
/// pair twice with the same flag, leaves the table as the first write did.
pub proof fn law_write_is_idempotent(s: StoreView, c: CollectionView, g: GrantView)
    ensures
        replaced(replaced(s.collections, collection_key(), c), collection_key(), c) == replaced(
            s.collections,
            collection_key(),
            c,
        ),
        replaced(replaced(s.grants, grant_key(), g), grant_key(), g) == replaced(
            s.grants,
            grant_key(),
            g,
        ),
{
    lemma_replace_idempotent(s.collections, collection_key(), c);
    lemma_replace_idempotent(s.grants, grant_key(), g);
}

/// Granting or revoking one pair leaves the grants of every other pair as
/// they were.
pub proof fn law_grant_write_leaves_other_pairs(
    grants: Seq<GrantView>,
    g: GrantView,
    other: GrantKeyView,
)
    requires
        other != g.key(),
    ensures
        with_key(replaced(grants, grant_key(), g), grant_key(), other) == with_key(
            grants,
            grant_key(),
            other,
        ),
        with_key(without_key(grants, grant_key(), g.key()), grant_key(), other) == with_key(
            grants,
            grant_key(),
            other,
        ),
{
    lemma_replace_frame(grants, grant_key(), g, other);
    lemma_delete_frame(grants, grant_key(), g.key(), other);
}

/// Saving or deleting one collection leaves every other identifier with the
/// collection it had.
pub proof fn law_collection_write_leaves_others(
    collections: Seq<CollectionView>,
    c: CollectionView,
    other: Seq<char>,
)
    requires
        other != c.uuid,
    ensures
        with_key(replaced(collections, collection_key(), c), collection_key(), other)
            == with_key(collections, collection_key(), other),
        with_key(without_key(collections, collection_key(), c.uuid), collection_key(), other)
            == with_key(collections, collection_key(), other),
{
    lemma_replace_frame(collections, collection_key(), c, other);
    lemma_delete_frame(collections, collection_key(), c.uuid, other);
}

/// After a grant has been revoked the pair has none, and revoking a grant
/// that is not there changes nothing.
pub proof fn law_revoked_is_gone(
    grants: Seq<GrantView>,
    user_uuid: Seq<char>,
    collection_uuid: Seq<char>,
)
    ensures
        !has_key(
            without_key(grants, grant_key(), key_of(user_uuid, collection_uuid)),
            grant_key(),
            key_of(user_uuid, collection_uuid),
        ),
        !has_key(grants, grant_key(), key_of(user_uuid, collection_uuid)) ==> without_key(
            grants,
            grant_key(),
            key_of(user_uuid, collection_uuid),
        ) == grants,
{
    lemma_without_key(grants, grant_key(), key_of(user_uuid, collection_uuid));
    if !has_key(grants, grant_key(), key_of(user_uuid, collection_uuid)) {
        lemma_delete_absent(grants, grant_key(), key_of(user_uuid, collection_uuid));
    }
}

/// The narrow lookup sees explicit grants only: a user with blanket access
/// and no grant on a collection reaches the collection, and the lookup still
/// finds nothing.
pub proof fn law_explicit_lookup_ignores_blanket(
    s: StoreView,
    user_uuid: Seq<char>,
    m: MembershipView,
    c: CollectionView,
)
    requires
        s.memberships.contains(m),
        m.user_uuid == user_uuid,
        m.access_all,
        s.collections.contains(c),
        c.org_uuid == m.org_uuid,
        !has_key(s.grants, grant_key(), key_of(user_uuid, c.uuid)),
    ensures
        explicit_lookup(s, c.uuid, user_uuid) is None,
        visible(s, user_uuid).contains(c),
{
    law_blanket_access_reaches(s, user_uuid, m, c);
    let named = with_key(explicit_access(s, user_uuid), collection_key(), c.uuid);
    if named.len() > 0 {
        let e = named[0];
        assert(named.contains(e));
        lemma_key_member(explicit_access(s, user_uuid), collection_key(), c.uuid, e);
        lemma_explicit_join_member(s.grants, s.collections, user_uuid, e);
        let i = choose|i: int|
            0 <= i < s.grants.len() && (#[trigger] s.grants[i]).user_uuid == user_uuid
                && s.grants[i].collection_uuid == e.uuid;
        assert(grant_key()(s.grants[i]) == key_of(user_uuid, c.uuid));
    }
}

/// The narrow lookup finds a collection iff the user holds a grant on it and
/// the collection is in the store.
pub proof fn law_explicit_lookup_finds_granted(
    s: StoreView,
    uuid: Seq<char>,
    user_uuid: Seq<char>,
)
    ensures
        explicit_lookup(s, uuid, user_uuid) is Some <==> has_key(
            s.grants,
            grant_key(),
            key_of(user_uuid, uuid),
        ) && has_key(s.collections, collection_key(), uuid),
        explicit_lookup(s, uuid, user_uuid) matches Some(c) ==> c.uuid == uuid
            && s.collections.contains(c),
{
    let reached = explicit_access(s, user_uuid);
    let named = with_key(reached, collection_key(), uuid);
    lemma_without_key(reached, collection_key(), uuid);
    if named.len() > 0 {
        let e = named[0];
        assert(named.contains(e));
        lemma_key_member(reached, collection_key(), uuid, e);
        lemma_explicit_join_member(s.grants, s.collections, user_uuid, e);
        let i = choose|i: int|
            0 <= i < s.grants.len() && (#[trigger] s.grants[i]).user_uuid == user_uuid
                && s.grants[i].collection_uuid == e.uuid;
        assert(grant_key()(s.grants[i]) == key_of(user_uuid, uuid));
        let j = choose|j: int| 0 <= j < s.collections.len() && s.collections[j] == e;
        assert(collection_key()(s.collections[j]) == uuid);
    }
    if has_key(s.grants, grant_key(), key_of(user_uuid, uuid)) && has_key(
        s.collections,
        collection_key(),
        uuid,
    ) {
        let i = choose|i: int|
            0 <= i < s.grants.len() && grant_key()(s.grants[i]) == key_of(user_uuid, uuid);
        let j = choose|j: int|
            0 <= j < s.collections.len() && collection_key()(s.collections[j]) == uuid;
        let e = s.collections[j];
        assert(s.collections.contains(e));
        assert(s.grants[i].user_uuid == user_uuid && s.grants[i].collection_uuid == e.uuid);
        lemma_explicit_join_member(s.grants, s.collections, user_uuid, e);
        lemma_key_member(reached, collection_key(), uuid, e);
        let n = choose|n: int| 0 <= n < named.len() && named[n] == e;
    }
}

/// The lookup by identifier finds a collection iff the identifier names one,
/// and what it finds is a collection of the store with that identifier. In
/// a sound store it is the only one.
pub proof fn law_lookup_finds_stored(s: StoreView, uuid: Seq<char>)
    ensures
        lookup(s, uuid) is Some <==> has_key(s.collections, collection_key(), uuid),
        lookup(s, uuid) matches Some(c) ==> c.uuid == uuid && s.collections.contains(c),
        s.wf() ==> with_key(s.collections, collection_key(), uuid).len() <= 1,
{
    let named = with_key(s.collections, collection_key(), uuid);
    lemma_without_key(s.collections, collection_key(), uuid);
    if named.len() > 0 {
        assert(named.contains(named[0]));
        lemma_key_member(s.collections, collection_key(), uuid, named[0]);
    }
    if s.wf() {
        lemma_delete_sound(s.collections, collection_key(), uuid);
    }
}

/// After a collection has been written it is found under its identifier,
/// as it was written.
pub proof fn law_saved_is_found(s: StoreView, after: StoreView, c: CollectionView)
    requires
        after.collections == replaced(s.collections, collection_key(), c),
    ensures
        lookup(after, c.uuid) == Some(c),
        has_key(after.collections, collection_key(), c.uuid),
{
    lemma_replace_sound(s.collections, collection_key(), c);
}

/// After a delete the identifier names no collection, and a delete of an
/// identifier that named none changes nothing.
pub proof fn law_deleted_is_gone(s: StoreView, after: StoreView, uuid: Seq<char>)
    requires
        after.collections == without_key(s.collections, collection_key(), uuid),
    ensures
        lookup(after, uuid) is None,
        !has_key(after.collections, collection_key(), uuid),
        !has_key(s.collections, collection_key(), uuid) ==> after.collections == s.collections,
{
    lemma_without_key(s.collections, collection_key(), uuid);
    lemma_without_key(after.collections, collection_key(), uuid);
    if !has_key(s.collections, collection_key(), uuid) {
        lemma_delete_absent(s.collections, collection_key(), uuid);
    }
}

/// With neither a membership nor a grant a user reaches nothing.
pub proof fn law_stranger_sees_nothing(s: StoreView, user_uuid: Seq<char>)
    requires
        forall|i: int|
            0 <= i < s.memberships.len() ==> (#[trigger] s.memberships[i]).user_uuid != user_uuid,
        forall|i: int| 0 <= i < s.grants.len() ==> (#[trigger] s.grants[i]).user_uuid != user_uuid,
    ensures
        visible(s, user_uuid) == Seq::<CollectionView>::empty(),
{
    let rows = visible(s, user_uuid);
    if rows.len() > 0 {
        let c = rows[0];
        assert(rows.contains(c));
        lemma_seq_concat_contains_all_elements(
            blanket_access(s, user_uuid),
            explicit_access(s, user_uuid),
            c,
        );
        lemma_blanket_join_member(s.memberships, s.collections, user_uuid, c);
        lemma_explicit_join_member(s.grants, s.collections, user_uuid, c);
    }
    assert(rows =~= Seq::<CollectionView>::empty());
}

} // verus!
