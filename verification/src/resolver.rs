//! The access resolver: merging the two paths, with or without duplicates.

use vstd::prelude::*;
use crate::entity::{Collection, CollectionView};
use crate::model::{collection_key, collections_of_org, visible, StoreView};
use crate::store::{select_by_org, Store};
use crate::table::{
    first_of, has_key, keys_unique, lemma_split_push, lemma_without_key, with_key,
};

verus! {

/// How the resolver treats a collection that both paths reach.
#[derive(Clone, Copy, Debug, PartialEq, Eq, Structural)]
pub struct ResolverPolicy {
    /// With `true` each identifier is listed once, at its first place; with
    /// `false` a collection reached along both paths is listed for each.
    pub deduplicate_by_identifier: bool,
}

impl ResolverPolicy {
    /// List a collection once for each path that reaches it.
    pub fn keep_duplicates() -> (policy: Self)
        ensures
            !policy.deduplicate_by_identifier,
    {
        ResolverPolicy { deduplicate_by_identifier: false }
    }

    /// List each identifier once.
    pub fn deduplicate() -> (policy: Self)
        ensures
            policy.deduplicate_by_identifier,
    {
        ResolverPolicy { deduplicate_by_identifier: true }
    }
}

impl Default for ResolverPolicy {
    /// Duplicates are kept unless asked otherwise.
    fn default() -> (policy: Self)
        ensures
            !policy.deduplicate_by_identifier,
    {
        ResolverPolicy { deduplicate_by_identifier: false }
    }
}

/// `rows` with each identifier kept at its first place only.
pub open spec fn first_per_uuid(rows: Seq<CollectionView>) -> Seq<CollectionView>
    decreases rows.len(),
{
    if rows.len() == 0 {
        rows
    } else {
        let front = first_per_uuid(rows.drop_last());
        if has_key(front, collection_key(), rows.last().uuid) {
            front
        } else {
            front.push(rows.last())
        }
    }
}

/// After the duplicates have left, no identifier occurs twice, every
/// identifier of `rows` is still there, and every row left is a row of
/// `rows`.
pub proof fn lemma_first_per_uuid(rows: Seq<CollectionView>)
    ensures
        keys_unique(first_per_uuid(rows), collection_key()),
        first_per_uuid(rows).len() <= rows.len(),
        forall|uuid: Seq<char>|
            #![trigger has_key(first_per_uuid(rows), collection_key(), uuid)]
            #![trigger has_key(rows, collection_key(), uuid)]
            has_key(first_per_uuid(rows), collection_key(), uuid) <==> has_key(
                rows,
                collection_key(),
                uuid,
            ),
        forall|c: CollectionView| #[trigger]
            first_per_uuid(rows).contains(c) ==> rows.contains(c),
    decreases rows.len(),
{
    if rows.len() > 0 {
        let front = rows.drop_last();
        let last = rows.last();
        let kept_front = first_per_uuid(front);
        let kept = first_per_uuid(rows);
        lemma_first_per_uuid(front);
        assert forall|uuid: Seq<char>|
            #![trigger has_key(kept, collection_key(), uuid)]
            #![trigger has_key(rows, collection_key(), uuid)]
            has_key(kept, collection_key(), uuid) <==> has_key(rows, collection_key(), uuid) by {
            if has_key(kept, collection_key(), uuid) {
                let i = choose|i: int| 0 <= i < kept.len() && kept[i].uuid == uuid;
                if i < kept_front.len() {
                    assert(kept[i] == kept_front[i]);
                    assert(has_key(kept_front, collection_key(), uuid));
                    let j = choose|j: int| 0 <= j < front.len() && front[j].uuid == uuid;
                    assert(rows[j].uuid == uuid);
                } else {
                    assert(rows[rows.len() - 1].uuid == uuid);
                }
            }
            if has_key(rows, collection_key(), uuid) {
                let j = choose|j: int| 0 <= j < rows.len() && rows[j].uuid == uuid;
                if j < front.len() {
                    assert(front[j].uuid == uuid);
                    assert(has_key(front, collection_key(), uuid));
                    let i = choose|i: int| 0 <= i < kept_front.len() && kept_front[i].uuid == uuid;
                    assert(kept[i].uuid == uuid);
                } else if has_key(kept_front, collection_key(), last.uuid) {
                } else {
                    assert(kept[kept.len() - 1].uuid == uuid);
                }
            }
        }
        assert forall|c: CollectionView| #[trigger] kept.contains(c) implies rows.contains(c) by {
            let i = choose|i: int| 0 <= i < kept.len() && kept[i] == c;
            if i < kept_front.len() {
                assert(kept_front[i] == c);
                assert(kept_front.contains(c));
                let j = choose|j: int| 0 <= j < front.len() && front[j] == c;
                assert(rows[j] == c);
            } else {
                assert(rows[rows.len() - 1] == c);
            }
        }
        assert forall|i: int, j: int| 0 <= i < j < kept.len() implies kept[i].uuid
            != kept[j].uuid by {
            if j < kept_front.len() {
                assert(kept[i] == kept_front[i] && kept[j] == kept_front[j]);
            } else {
                assert(kept[i] == kept_front[i]);
                if kept[i].uuid == last.uuid {
                    assert(has_key(kept_front, collection_key(), last.uuid));
                }
            }
        }
    }
}

/// Where equal identifiers mean equal rows, the rows that stay are the rows
/// that were there: only repetitions leave.
pub proof fn lemma_first_per_uuid_keeps(rows: Seq<CollectionView>, c: CollectionView)
    requires
        forall|i: int, j: int|
            0 <= i < rows.len() && 0 <= j < rows.len() && rows[i].uuid == rows[j].uuid
                ==> rows[i] == rows[j],
    ensures
        first_per_uuid(rows).contains(c) <==> rows.contains(c),
{
    let kept = first_per_uuid(rows);
    lemma_first_per_uuid(rows);
    if rows.contains(c) {
        let j = choose|j: int| 0 <= j < rows.len() && rows[j] == c;
        assert(has_key(rows, collection_key(), c.uuid));
        assert(has_key(kept, collection_key(), c.uuid));
        let i = choose|i: int| 0 <= i < kept.len() && kept[i].uuid == c.uuid;
        assert(kept.contains(kept[i]));
        assert(rows.contains(kept[i]));
        let m = choose|m: int| 0 <= m < rows.len() && rows[m] == kept[i];
        assert(rows[m] == rows[j]);
    }
}

/// The row that stays for an identifier is the first row of `rows` that has
/// the identifier.
pub proof fn lemma_first_per_uuid_is_first(rows: Seq<CollectionView>, i: int)
    requires
        0 <= i < first_per_uuid(rows).len(),
    ensures
        first_of(with_key(rows, collection_key(), first_per_uuid(rows)[i].uuid)) == Some(
            first_per_uuid(rows)[i],
        ),
    decreases rows.len(),
{
    if rows.len() > 0 {
        let front = rows.drop_last();
        let last = rows.last();
        let kept_front = first_per_uuid(front);
        let uuid = first_per_uuid(rows)[i].uuid;
        assert(front.push(last) =~= rows);
        lemma_split_push(front, collection_key(), uuid, last);
        if i < kept_front.len() {
            lemma_first_per_uuid_is_first(front, i);
        } else {
            lemma_first_per_uuid(front);
            lemma_without_key(front, collection_key(), uuid);
        }
    }
}

/// `rows` as the policy lists them.
pub open spec fn listed(rows: Seq<CollectionView>, policy: ResolverPolicy) -> Seq<CollectionView> {
    if policy.deduplicate_by_identifier {
        first_per_uuid(rows)
    } else {
        rows
    }
}

/// What `user_uuid` reaches, as the policy lists it.
pub open spec fn resolve(s: StoreView, user_uuid: Seq<char>, policy: ResolverPolicy) -> Seq<
    CollectionView,
> {
    listed(visible(s, user_uuid), policy)
}

/// What `user_uuid` reaches inside `org_uuid`, as the policy lists it.
pub open spec fn resolve_in_org(
    s: StoreView,
    org_uuid: Seq<char>,
    user_uuid: Seq<char>,
    policy: ResolverPolicy,
) -> Seq<CollectionView> {
    collections_of_org(resolve(s, user_uuid, policy), org_uuid)
}

/// Whether some row of `rows` has the identifier `uuid`.
fn holds_uuid(rows: &Vec<Collection>, uuid: &String) -> (held: bool)
    ensures
        held == has_key(rows.deep_view(), collection_key(), uuid@),
{
    let mut i: usize = 0;
    while i < rows.len()
        invariant
            i <= rows.len(),
            forall|j: int| 0 <= j < i ==> rows.deep_view()[j].uuid != uuid@,
        decreases rows.len() - i,
    {
        if rows[i].uuid == *uuid {
            assert(collection_key()(rows.deep_view()[i as int]) == uuid@);
            return true;
        }
        i += 1;
    }
    false
}

/// Keeps each identifier at its first place only.
pub fn dedup_by_uuid(rows: Vec<Collection>) -> (kept: Vec<Collection>)
    ensures
        kept.deep_view() == first_per_uuid(rows.deep_view()),
{
    let ghost all = rows.deep_view();
    let mut kept: Vec<Collection> = Vec::new();
    let mut i: usize = 0;
    proof {
        assert(all.take(0) =~= Seq::empty());
        assert(kept.deep_view() =~= first_per_uuid(all.take(0)));
    }
    while i < rows.len()
        invariant
            i <= rows.len(),
            all == rows.deep_view(),
            kept.deep_view() == first_per_uuid(all.take(i as int)),
        decreases rows.len() - i,
    {
        let row = &rows[i];
        proof {
            let next = all.take(i as int + 1);
            assert(next.drop_last() =~= all.take(i as int));
            assert(next.last() == row@);
        }
        if !holds_uuid(&kept, &row.uuid) {
            let ghost before = kept.deep_view();
            kept.push(row.clone());
            assert(kept.deep_view() =~= before.push(row@));
        }
        i += 1;
    }
    assert(all.take(rows.len() as int) =~= all);
    kept
}

/// Joins the results of the two paths, blanket first, and lists them as the
/// policy says.
pub fn merge_visible(
    blanket: Vec<Collection>,
    assigned: Vec<Collection>,
    policy: ResolverPolicy,
) -> (all: Vec<Collection>)
    ensures
        all.deep_view() == listed(blanket.deep_view() + assigned.deep_view(), policy),
{
    let mut all = blanket;
    let mut rest = assigned;
    all.append(&mut rest);
    assert(all.deep_view() =~= blanket.deep_view() + assigned.deep_view());
    if policy.deduplicate_by_identifier {
        dedup_by_uuid(all)
    } else {
        all
    }
}

/// A bulk query that the store could not answer. This is no empty result:
/// it means that the store is broken, and it is handed upward as it is.
#[derive(Clone, Copy, Debug, PartialEq, Eq, Structural)]
pub enum IntegrityViolation {
    /// The query along the blanket path failed.
    BlanketQuery,
    /// The query along the explicit path failed.
    ExplicitQuery,
}

/// What the two bulk queries gave, each `None` where the store failed, made
/// into one answer.
pub open spec fn loaded(
    blanket: Option<Seq<CollectionView>>,
    assigned: Option<Seq<CollectionView>>,
    policy: ResolverPolicy,
) -> Result<Seq<CollectionView>, IntegrityViolation> {
    match (blanket, assigned) {
        (None, _) => Err(IntegrityViolation::BlanketQuery),
        (Some(_), None) => Err(IntegrityViolation::ExplicitQuery),
        (Some(a), Some(b)) => Ok(listed(a + b, policy)),
    }
}

/// Merges the outcomes of the two bulk queries. A failed query is never
/// taken for an empty result: the first that failed is reported, the blanket
/// query before the explicit one.
pub fn merge_loaded(
    blanket: Option<Vec<Collection>>,
    assigned: Option<Vec<Collection>>,
    policy: ResolverPolicy,
) -> (all: Result<Vec<Collection>, IntegrityViolation>)
    ensures
        match all {
            Ok(rows) => loaded(blanket.deep_view(), assigned.deep_view(), policy) == Ok::<
                Seq<CollectionView>,
                IntegrityViolation,
            >(rows.deep_view()),
            Err(e) => loaded(blanket.deep_view(), assigned.deep_view(), policy) == Err::<
                Seq<CollectionView>,
                IntegrityViolation,
            >(e),
        },
{
    match blanket {
        None => Err(IntegrityViolation::BlanketQuery),
        Some(a) => match assigned {
            None => Err(IntegrityViolation::ExplicitQuery),
            Some(b) => Ok(merge_visible(a, b, policy)),
        },
    }
}

/// The rows of `rows` that the organization `org_uuid` owns.
pub fn retain_org(rows: Vec<Collection>, org_uuid: &str) -> (kept: Vec<Collection>)
    ensures
        kept.deep_view() == collections_of_org(rows.deep_view(), org_uuid@),
{
    let org = org_uuid.to_owned();
    let mut kept: Vec<Collection> = Vec::new();
    assert(kept.deep_view() =~= Seq::empty());
    select_by_org(&rows, &org, &mut kept);
    assert(kept.deep_view() =~= collections_of_org(rows.deep_view(), org_uuid@));
    kept
}

/// Everything `user_uuid` reaches in `conn`, as the policy lists it.
pub fn visible_collections(user_uuid: &str, conn: &Store, policy: ResolverPolicy) -> (found: Vec<
    Collection,
>)
    ensures
        found.deep_view() == resolve(conn@, user_uuid@, policy),
{
    let blanket = conn.blanket_collections(user_uuid);
    let assigned = conn.assigned_collections(user_uuid);
    merge_visible(blanket, assigned, policy)
}

/// What `user_uuid` reaches in `conn` inside the organization `org_uuid`, as
/// the policy lists it.
pub fn visible_collections_in_org(
    org_uuid: &str,
    user_uuid: &str,
    conn: &Store,
    policy: ResolverPolicy,
) -> (found: Vec<Collection>)
    ensures
        found.deep_view() == resolve_in_org(conn@, org_uuid@, user_uuid@, policy),
{
    retain_org(visible_collections(user_uuid, conn, policy), org_uuid)
}

} // verus!
