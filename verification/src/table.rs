//! Tables as sequences of rows with a primary key.
//!
//! A table is a `Seq` of row values, in the order the rows were written. The
//! key of a row is given by a function from rows to keys; a table is sound
//! when no key occurs twice.

use vstd::prelude::*;

verus! {

/// No two rows of `rows` have the same key.
pub open spec fn keys_unique<R, K>(rows: Seq<R>, key: spec_fn(R) -> K) -> bool {
    forall|i: int, j: int| 0 <= i < j < rows.len() ==> key(rows[i]) != key(rows[j])
}

/// Some row of `rows` has the key `k`.
pub open spec fn has_key<R, K>(rows: Seq<R>, key: spec_fn(R) -> K, k: K) -> bool {
    exists|i: int| 0 <= i < rows.len() && key(rows[i]) == k
}

/// The rows of `rows` with the key `k`, in table order.
pub open spec fn with_key<R, K>(rows: Seq<R>, key: spec_fn(R) -> K, k: K) -> Seq<R> {
    rows.filter(|r: R| key(r) == k)
}

/// The table after a delete by key: the rows whose key is not `k`.
pub open spec fn without_key<R, K>(rows: Seq<R>, key: spec_fn(R) -> K, k: K) -> Seq<R> {
    rows.filter(|r: R| key(r) != k)
}

/// The table after an insert-or-replace: every row with the key of `row`
/// leaves, then `row` is appended.
pub open spec fn replaced<R, K>(rows: Seq<R>, key: spec_fn(R) -> K, row: R) -> Seq<R> {
    without_key(rows, key, key(row)).push(row)
}

/// The first row of `rows`, if there is one.
pub open spec fn first_of<R>(rows: Seq<R>) -> Option<R> {
    if rows.len() > 0 {
        Some(rows[0])
    } else {
        None
    }
}

/// A row is among the chosen rows iff it is in the table and is chosen.
pub proof fn lemma_filter_member<R>(rows: Seq<R>, chosen: spec_fn(R) -> bool, row: R)
    ensures
        rows.filter(chosen).contains(row) <==> rows.contains(row) && chosen(row),
{
    if rows.filter(chosen).contains(row) {
        rows.lemma_filter_contains_rev(chosen, row);
        let i = choose|i: int| 0 <= i < rows.filter(chosen).len() && rows.filter(chosen)[i] == row;
        rows.lemma_filter_pred(chosen, i);
    }
    if rows.contains(row) && chosen(row) {
        let i = choose|i: int| 0 <= i < rows.len() && rows[i] == row;
        rows.lemma_filter_contains(chosen, i);
    }
}

/// A row is among the rows with key `k` iff it is in the table and has the
/// key; it is among the rows without it iff it is in the table and has not.
pub proof fn lemma_key_member<R, K>(rows: Seq<R>, key: spec_fn(R) -> K, k: K, row: R)
    ensures
        with_key(rows, key, k).contains(row) <==> rows.contains(row) && key(row) == k,
        without_key(rows, key, k).contains(row) <==> rows.contains(row) && key(row) != k,
{
    lemma_filter_member(rows, |r: R| key(r) == k, row);
    lemma_filter_member(rows, |r: R| key(r) != k, row);
}

/// One more row at the end of a table either joins the rows with key `k` or
/// the rows without it.
pub proof fn lemma_split_push<R, K>(rows: Seq<R>, key: spec_fn(R) -> K, k: K, row: R)
    ensures
        with_key(rows.push(row), key, k) == if key(row) == k {
            with_key(rows, key, k).push(row)
        } else {
            with_key(rows, key, k)
        },
        without_key(rows.push(row), key, k) == if key(row) != k {
            without_key(rows, key, k).push(row)
        } else {
            without_key(rows, key, k)
        },
{
    rows.lemma_filter_push(row, |r: R| key(r) == k);
    rows.lemma_filter_push(row, |r: R| key(r) != k);
}

/// Every row is either kept or removed by a delete, and a removed row has
/// the key; no row of the result has it.
pub proof fn lemma_without_key<R, K>(rows: Seq<R>, key: spec_fn(R) -> K, k: K)
    ensures
        without_key(rows, key, k).len() + with_key(rows, key, k).len() == rows.len(),
        !has_key(without_key(rows, key, k), key, k),
        has_key(rows, key, k) <==> with_key(rows, key, k).len() > 0,
        forall|i: int|
            0 <= i < with_key(rows, key, k).len() ==> key(#[trigger] with_key(rows, key, k)[i])
                == k,
        forall|i: int|
            0 <= i < without_key(rows, key, k).len() ==> rows.contains(
                #[trigger] without_key(rows, key, k)[i],
            ),
        forall|i: int|
            0 <= i < rows.len() && key(rows[i]) != k ==> without_key(rows, key, k).contains(
                #[trigger] rows[i],
            ),
    decreases rows.len(),
{
    reveal(Seq::filter);
    if rows.len() > 0 {
        let front = rows.drop_last();
        let last = rows.last();
        lemma_without_key(front, key, k);
        assert(front.push(last) =~= rows);
        lemma_split_push(front, key, k, last);
        let kept = without_key(rows, key, k);
        let kept_front = without_key(front, key, k);
        assert forall|i: int| 0 <= i < kept.len() implies rows.contains(#[trigger] kept[i]) by {
            if i < kept_front.len() {
                assert(kept[i] == kept_front[i]);
                assert(front.contains(kept_front[i]));
                let j = choose|j: int| 0 <= j < front.len() && front[j] == kept_front[i];
                assert(rows[j] == kept[i]);
            } else {
                assert(kept[i] == last);
                assert(rows[rows.len() - 1] == last);
            }
        }
        assert forall|i: int| 0 <= i < rows.len() && key(rows[i]) != k implies kept.contains(
            #[trigger] rows[i],
        ) by {
            if i < front.len() {
                assert(front[i] == rows[i]);
                assert(kept_front.contains(front[i]));
                let j = choose|j: int| 0 <= j < kept_front.len() && kept_front[j] == front[i];
                assert(kept[j] == rows[i]);
            } else {
                assert(kept[kept.len() - 1] == rows[i]);
            }
        }
        if has_key(rows, key, k) {
            let i = choose|i: int| 0 <= i < rows.len() && key(rows[i]) == k;
            if i < front.len() {
                assert(key(front[i]) == k);
                assert(has_key(front, key, k));
            }
        }
        if with_key(rows, key, k).len() > 0 {
            if key(last) == k {
                assert(key(rows[rows.len() - 1]) == k);
            } else {
                let i = choose|i: int| 0 <= i < front.len() && key(front[i]) == k;
                assert(key(rows[i]) == k);
            }
        }
        if has_key(kept, key, k) {
            let i = choose|i: int| 0 <= i < kept.len() && key(kept[i]) == k;
            if i < kept_front.len() {
                assert(key(kept_front[i]) == k);
                assert(has_key(kept_front, key, k));
            }
        }
    }
}

/// A delete by key keeps a sound table sound and removes at most one row:
/// exactly one if the key was there, none if it was not.
pub proof fn lemma_delete_sound<R, K>(rows: Seq<R>, key: spec_fn(R) -> K, k: K)
    requires
        keys_unique(rows, key),
    ensures
        keys_unique(without_key(rows, key, k), key),
        with_key(rows, key, k).len() == if has_key(rows, key, k) {
            1nat
        } else {
            0nat
        },
        rows.len() - without_key(rows, key, k).len() == if has_key(rows, key, k) {
            1int
        } else {
            0int
        },
    decreases rows.len(),
{
    reveal(Seq::filter);
    lemma_without_key(rows, key, k);
    if rows.len() > 0 {
        let front = rows.drop_last();
        let last = rows.last();
        assert(front.push(last) =~= rows);
        assert(keys_unique(front, key)) by {
            assert forall|i: int, j: int| 0 <= i < j < front.len() implies key(front[i]) != key(
                front[j],
            ) by {
                assert(front[i] == rows[i] && front[j] == rows[j]);
            }
        }
        lemma_delete_sound(front, key, k);
        lemma_without_key(front, key, k);
        lemma_split_push(front, key, k, last);
        let kept = without_key(rows, key, k);
        let kept_front = without_key(front, key, k);
        assert forall|i: int, j: int| 0 <= i < j < kept.len() implies key(kept[i]) != key(
            kept[j],
        ) by {
            if j < kept_front.len() {
                assert(kept[i] == kept_front[i] && kept[j] == kept_front[j]);
            } else {
                assert(kept[j] == last);
                assert(kept[i] == kept_front[i]);
                assert(front.contains(kept_front[i]));
                let m = choose|m: int| 0 <= m < front.len() && front[m] == kept_front[i];
                assert(key(rows[m]) != key(rows[rows.len() - 1]));
            }
        }
        if key(last) == k && has_key(front, key, k) {
            let m = choose|m: int| 0 <= m < front.len() && key(front[m]) == k;
            assert(key(rows[m]) != key(rows[rows.len() - 1]));
        }
    }
}

/// An insert-or-replace keeps a sound table sound, and afterwards the table
/// holds exactly one row with the key of `row`: `row` itself.
pub proof fn lemma_replace_sound<R, K>(rows: Seq<R>, key: spec_fn(R) -> K, row: R)
    ensures
        with_key(replaced(rows, key, row), key, key(row)) == seq![row],
        has_key(replaced(rows, key, row), key, key(row)),
        keys_unique(rows, key) ==> keys_unique(replaced(rows, key, row), key),
{
    let k = key(row);
    let kept = without_key(rows, key, k);
    let after = replaced(rows, key, row);
    lemma_without_key(rows, key, k);
    lemma_without_key(kept, key, k);
    lemma_split_push(kept, key, k, row);
    assert(with_key(kept, key, k) =~= Seq::<R>::empty());
    assert(with_key(after, key, k) =~= seq![row]);
    assert(key(after[after.len() - 1]) == k);
    if keys_unique(rows, key) {
        lemma_delete_sound(rows, key, k);
        assert forall|i: int, j: int| 0 <= i < j < after.len() implies key(after[i]) != key(
            after[j],
        ) by {
            if j < kept.len() {
                assert(after[i] == kept[i] && after[j] == kept[j]);
            } else {
                assert(after[i] == kept[i]);
                assert(key(kept[i]) != k);
            }
        }
    }
}

/// An insert-or-replace leaves the rows of every other key as they were.
pub proof fn lemma_replace_frame<R, K>(rows: Seq<R>, key: spec_fn(R) -> K, row: R, k: K)
    requires
        k != key(row),
    ensures
        with_key(replaced(rows, key, row), key, k) == with_key(rows, key, k),
{
    let kept = without_key(rows, key, key(row));
    lemma_split_push(kept, key, k, row);
    lemma_delete_frame(rows, key, key(row), k);
}

/// A delete by key leaves the rows of every other key as they were.
pub proof fn lemma_delete_frame<R, K>(rows: Seq<R>, key: spec_fn(R) -> K, gone: K, k: K)
    requires
        k != gone,
    ensures
        with_key(without_key(rows, key, gone), key, k) == with_key(rows, key, k),
    decreases rows.len(),
{
    reveal(Seq::filter);
    if rows.len() > 0 {
        let front = rows.drop_last();
        let last = rows.last();
        assert(front.push(last) =~= rows);
        lemma_delete_frame(front, key, gone, k);
        lemma_split_push(front, key, gone, last);
        lemma_split_push(front, key, k, last);
        if key(last) != gone {
            lemma_split_push(without_key(front, key, gone), key, k, last);
        }
    } else {
        assert(without_key(rows, key, gone) =~= rows);
    }
}

/// A delete of a key that no row has leaves the table as it was.
pub proof fn lemma_delete_absent<R, K>(rows: Seq<R>, key: spec_fn(R) -> K, k: K)
    requires
        !has_key(rows, key, k),
    ensures
        without_key(rows, key, k) == rows,
    decreases rows.len(),
{
    reveal(Seq::filter);
    if rows.len() > 0 {
        let front = rows.drop_last();
        let last = rows.last();
        assert(front.push(last) =~= rows);
        assert(!has_key(front, key, k)) by {
            if has_key(front, key, k) {
                let i = choose|i: int| 0 <= i < front.len() && key(front[i]) == k;
                assert(key(rows[i]) == k);
            }
        }
        assert(key(rows[rows.len() - 1]) != k);
        lemma_delete_absent(front, key, k);
        lemma_split_push(front, key, k, last);
    }
}

/// Writing the same row twice is writing it once.
pub proof fn lemma_replace_idempotent<R, K>(rows: Seq<R>, key: spec_fn(R) -> K, row: R)
    ensures
        replaced(replaced(rows, key, row), key, row) == replaced(rows, key, row),
{
    let k = key(row);
    let kept = without_key(rows, key, k);
    lemma_without_key(rows, key, k);
    lemma_delete_absent(kept, key, k);
    lemma_split_push(kept, key, k, row);
}

} // verus!
