//! What every table of rows has in common: selecting rows, and relations that
//! hold between any two rows of a table.

use vstd::prelude::*;
use vstd::seq_lib::*;

verus! {

/// The views of the rows of a table, in table order.
pub open spec fn views<T: View>(rows: Seq<T>) -> Seq<T::V> {
    rows.map_values(|r: T| r@)
}

/// `rel` holds between every row and every later row.
pub open spec fn pairwise<A>(rows: Seq<A>, rel: spec_fn(A, A) -> bool) -> bool {
    forall|i: int, j: int| 0 <= i < j < rows.len() ==> #[trigger] rel(rows[i], rows[j])
}

/// Every row that a filter keeps stood in the table and passes the filter.
pub proof fn lemma_kept_row<A>(rows: Seq<A>, keep: spec_fn(A) -> bool, k: int)
    requires
        0 <= k < rows.filter(keep).len(),
    ensures
        rows.contains(rows.filter(keep)[k]),
        keep(rows.filter(keep)[k]),
{
    rows.lemma_filter_pred(keep, k);
    let kept = rows.filter(keep);
    assert(kept.contains(kept[k]));
    rows.lemma_filter_contains_rev(keep, kept[k]);
}

/// A row is kept exactly if it stood in the table and passes the filter.
pub proof fn lemma_kept_iff<A>(rows: Seq<A>, keep: spec_fn(A) -> bool, x: A)
    ensures
        rows.filter(keep).contains(x) <==> rows.contains(x) && keep(x),
{
    if rows.filter(keep).contains(x) {
        let k = choose|k: int| 0 <= k < rows.filter(keep).len() && rows.filter(keep)[k] == x;
        lemma_kept_row(rows, keep, k);
    }
    if rows.contains(x) && keep(x) {
        let i = choose|i: int| 0 <= i < rows.len() && rows[i] == x;
        rows.lemma_filter_contains(keep, i);
    }
}

/// A relation between any two rows of a table holds between any two rows
/// that a filter keeps.
pub proof fn lemma_filter_pairwise<A>(
    rows: Seq<A>,
    keep: spec_fn(A) -> bool,
    rel: spec_fn(A, A) -> bool,
)
    requires
        pairwise(rows, rel),
    ensures
        pairwise(rows.filter(keep), rel),
    decreases rows.len(),
{
    reveal(Seq::filter);
    if rows.len() > 0 {
        let front = rows.drop_last();
        assert forall|i: int, j: int| 0 <= i < j < front.len() implies #[trigger] rel(
            front[i],
            front[j],
        ) by {
            assert(rel(rows[i], rows[j]));
        }
        lemma_filter_pairwise(front, keep, rel);
        let kept = front.filter(keep);
        if keep(rows.last()) {
            let all = kept.push(rows.last());
            assert forall|i: int, j: int| 0 <= i < j < all.len() implies #[trigger] rel(
                all[i],
                all[j],
            ) by {
                if j < kept.len() {
                    assert(rel(kept[i], kept[j]));
                } else {
                    lemma_kept_row(front, keep, i);
                    let at = choose|at: int| 0 <= at < front.len() && front[at] == kept[i];
                    assert(rel(rows[at], rows[rows.len() - 1]));
                }
            }
        }
    }
}

/// Two tables in which a relation holds, and across which it holds from the
/// first to the second, make one table in which it holds.
pub proof fn lemma_pairwise_add<A>(a: Seq<A>, b: Seq<A>, rel: spec_fn(A, A) -> bool)
    requires
        pairwise(a, rel),
        pairwise(b, rel),
        forall|i: int, j: int| 0 <= i < a.len() && 0 <= j < b.len() ==> #[trigger] rel(a[i], b[j]),
    ensures
        pairwise(a + b, rel),
{
    let all = a + b;
    assert forall|i: int, j: int| 0 <= i < j < all.len() implies #[trigger] rel(all[i], all[j]) by {
        if j < a.len() {
            assert(rel(a[i], a[j]));
        } else if i < a.len() {
            assert(rel(a[i], b[j - a.len()]));
        } else {
            assert(rel(b[i - a.len()], b[j - a.len()]));
        }
    }
}

/// A row that every row of a table stands in a relation to can be appended.
pub proof fn lemma_pairwise_push<A>(a: Seq<A>, x: A, rel: spec_fn(A, A) -> bool)
    requires
        pairwise(a, rel),
        forall|i: int| 0 <= i < a.len() ==> #[trigger] rel(a[i], x),
    ensures
        pairwise(a.push(x), rel),
{
    let all = a.push(x);
    assert forall|i: int, j: int| 0 <= i < j < all.len() implies #[trigger] rel(all[i], all[j]) by {
        if j < a.len() {
            assert(rel(a[i], a[j]));
        } else {
            assert(rel(a[i], x));
        }
    }
}

/// The row that `wanted` accepts, where there is one.
pub open spec fn the_row<A>(rows: Seq<A>, wanted: spec_fn(A) -> bool) -> Option<A> {
    if exists|i: int| 0 <= i < rows.len() && wanted(#[trigger] rows[i]) {
        Some(rows[choose|i: int| 0 <= i < rows.len() && wanted(#[trigger] rows[i])])
    } else {
        None
    }
}

/// Where a relation between any two rows rules out that both are wanted, the
/// wanted row at a known position is the row that `the_row` gives.
pub proof fn lemma_the_row_at<A>(
    rows: Seq<A>,
    wanted: spec_fn(A) -> bool,
    rel: spec_fn(A, A) -> bool,
    at: int,
)
    requires
        pairwise(rows, rel),
        forall|a: A, b: A| #[trigger] rel(a, b) ==> !(wanted(a) && wanted(b)),
        0 <= at < rows.len(),
        wanted(rows[at]),
    ensures
        the_row(rows, wanted) == Some(rows[at]),
{
    let i = choose|i: int| 0 <= i < rows.len() && wanted(#[trigger] rows[i]);
    if i < at {
        assert(rel(rows[i], rows[at]));
    } else if at < i {
        assert(rel(rows[at], rows[i]));
    }
}

/// A filter that every row passes keeps the table as it is.
pub proof fn lemma_filter_all<A>(rows: Seq<A>, keep: spec_fn(A) -> bool)
    requires
        forall|i: int| 0 <= i < rows.len() ==> keep(#[trigger] rows[i]),
    ensures
        rows.filter(keep) == rows,
    decreases rows.len(),
{
    reveal(Seq::filter);
    if rows.len() > 0 {
        let front = rows.drop_last();
        assert forall|i: int| 0 <= i < front.len() implies keep(#[trigger] front[i]) by {
            assert(front[i] == rows[i]);
        }
        lemma_filter_all(front, keep);
        assert(rows =~= front.push(rows.last()));
    }
}

/// Filtering by one filter and then by another is filtering by both.
pub proof fn lemma_filter_then<A>(
    rows: Seq<A>,
    first: spec_fn(A) -> bool,
    second: spec_fn(A) -> bool,
    both: spec_fn(A) -> bool,
)
    requires
        forall|x: A| #[trigger] both(x) == (first(x) && second(x)),
    ensures
        rows.filter(first).filter(second) == rows.filter(both),
    decreases rows.len(),
{
    reveal(Seq::filter);
    if rows.len() > 0 {
        lemma_filter_then(rows.drop_last(), first, second, both);
        if first(rows.last()) {
            rows.drop_last().filter(first).lemma_filter_push(rows.last(), second);
        }
    }
}

/// Filtering twice by one filter is filtering once.
pub proof fn lemma_filter_twice<A>(rows: Seq<A>, keep: spec_fn(A) -> bool)
    ensures
        rows.filter(keep).filter(keep) == rows.filter(keep),
    decreases rows.len(),
{
    reveal(Seq::filter);
    if rows.len() > 0 {
        lemma_filter_twice(rows.drop_last(), keep);
        if keep(rows.last()) {
            rows.drop_last().filter(keep).lemma_filter_push(rows.last(), keep);
        }
    }
}

/// A row type that can be copied with its view kept.
pub trait Row: View + Sized {
    /// A copy of the row.
    fn duplicate(&self) -> (r: Self)
        ensures
            r@ == self@,
    ;
}

/// Copies of all rows, in table order.
pub fn copy_rows<T: Row>(rows: &Vec<T>) -> (copies: Vec<T>)
    ensures
        views(copies@) == views(rows@),
{
    let mut copies: Vec<T> = Vec::new();
    let mut i: usize = 0;
    while i < rows.len()
        invariant
            i <= rows.len(),
            views(copies@) == views(rows@).take(i as int),
        decreases rows.len() - i,
    {
        let ghost before = copies@;
        let c = rows[i].duplicate();
        copies.push(c);
        proof {
            assert(views(copies@) =~= views(before).push(c@));
            assert(views(rows@).take(i + 1) =~= views(rows@).take(i as int).push(rows@[i as int]@));
        }
        i += 1;
    }
    proof {
        assert(views(rows@).take(i as int) =~= views(rows@));
    }
    copies
}

/// Copies of the rows that `keep` accepts, in table order.
pub(crate) fn select_rows<T: Row, F: Fn(&T) -> bool>(
    rows: &Vec<T>,
    keep: F,
    Ghost(kept_if): Ghost<spec_fn(T::V) -> bool>,
) -> (kept: Vec<T>)
    requires
        forall|x: &T| #[trigger] keep.requires((x,)),
        forall|x: &T, b: bool| #[trigger] keep.ensures((x,), b) ==> b == kept_if(x@),
    ensures
        views(kept@) == views(rows@).filter(kept_if),
{
    let ghost all = views(rows@);
    let mut kept: Vec<T> = Vec::new();
    let mut i: usize = 0;
    proof {
        reveal(Seq::filter);
        assert(all.take(0) =~= Seq::empty());
        assert(views(kept@) =~= Seq::empty());
    }
    while i < rows.len()
        invariant
            i <= rows.len(),
            all == views(rows@),
            views(kept@) == all.take(i as int).filter(kept_if),
            forall|x: &T| #[trigger] keep.requires((x,)),
            forall|x: &T, b: bool| #[trigger] keep.ensures((x,), b) ==> b == kept_if(x@),
        decreases rows.len() - i,
    {
        let row = &rows[i];
        let ghost before = kept@;
        proof {
            all.take(i as int).lemma_filter_push(all[i as int], kept_if);
            assert(all.take(i + 1) =~= all.take(i as int).push(all[i as int]));
        }
        if keep(row) {
            let c = row.duplicate();
            kept.push(c);
            proof {
                assert(views(kept@) =~= views(before).push(c@));
            }
        }
        i += 1;
    }
    proof {
        assert(all.take(i as int) =~= all);
    }
    kept
}

/// The position of the first row that `wanted` accepts.
pub(crate) fn find_row<T: View, F: Fn(&T) -> bool>(
    rows: &Vec<T>,
    wanted: F,
    Ghost(is_wanted): Ghost<spec_fn(T::V) -> bool>,
) -> (found: Option<usize>)
    requires
        forall|x: &T| #[trigger] wanted.requires((x,)),
        forall|x: &T, b: bool| #[trigger] wanted.ensures((x,), b) ==> b == is_wanted(x@),
    ensures
        match found {
            Some(at) => {
                &&& at < rows.len()
                &&& is_wanted(views(rows@)[at as int])
                &&& forall|j: int| 0 <= j < at ==> !is_wanted(#[trigger] views(rows@)[j])
            },
            None => forall|j: int| 0 <= j < rows.len() ==> !is_wanted(#[trigger] views(rows@)[j]),
        },
{
    let mut i: usize = 0;
    while i < rows.len()
        invariant
            i <= rows.len(),
            forall|j: int| 0 <= j < i ==> !is_wanted(#[trigger] views(rows@)[j]),
            forall|x: &T| #[trigger] wanted.requires((x,)),
            forall|x: &T, b: bool| #[trigger] wanted.ensures((x,), b) ==> b == is_wanted(x@),
        decreases rows.len() - i,
    {
        if wanted(&rows[i]) {
            return Some(i);
        }
        i += 1;
    }
    None
}

/// `rel` orders any three rows it relates in a chain.
pub open spec fn transitive<A>(rel: spec_fn(A, A) -> bool) -> bool {
    forall|a: A, b: A, c: A| #[trigger] rel(a, b) && #[trigger] rel(b, c) ==> rel(a, c)
}

/// `rel` orders any two rows of the table, one way or the other.
pub open spec fn decides<A>(rows: Seq<A>, rel: spec_fn(A, A) -> bool) -> bool {
    forall|i: int, j: int|
        0 <= i < j < rows.len() ==> #[trigger] rel(rows[i], rows[j]) || rel(rows[j], rows[i])
}

/// `sorted` holds exactly the rows of `rows`, each before the next by `rel`.
pub open spec fn sorted_by<A>(sorted: Seq<A>, rows: Seq<A>, rel: spec_fn(A, A) -> bool) -> bool {
    &&& pairwise(sorted, rel)
    &&& forall|x: A| sorted.contains(x) <==> rows.contains(x)
}

/// Copies of the rows in the order that `before` gives them.
pub(crate) fn sort_rows<T: Row, F: Fn(&T, &T) -> bool>(
    rows: &Vec<T>,
    before: F,
    Ghost(rel): Ghost<spec_fn(T::V, T::V) -> bool>,
) -> (sorted: Vec<T>)
    requires
        forall|x: &T, y: &T| #[trigger] before.requires((x, y)),
        forall|x: &T, y: &T, b: bool| #[trigger] before.ensures((x, y), b) ==> b == rel(x@, y@),
        transitive(rel),
        decides(views(rows@), rel),
    ensures
        sorted_by(views(sorted@), views(rows@), rel),
{
    let ghost all = views(rows@);
    let mut sorted: Vec<T> = Vec::new();
    let mut i: usize = 0;
    while i < rows.len()
        invariant
            i <= rows.len(),
            all == views(rows@),
            transitive(rel),
            decides(all, rel),
            pairwise(views(sorted@), rel),
            forall|k: int|
                0 <= k < sorted.len() ==> exists|j: int|
                    0 <= j < i && #[trigger] all[j] == #[trigger] views(sorted@)[k],
            forall|j: int| 0 <= j < i ==> views(sorted@).contains(#[trigger] all[j]),
            forall|x: &T, y: &T| #[trigger] before.requires((x, y)),
            forall|x: &T, y: &T, b: bool| #[trigger]
                before.ensures((x, y), b) ==> b == rel(x@, y@),
        decreases rows.len() - i,
    {
        let x = rows[i].duplicate();
        let ghost old_sorted = views(sorted@);
        proof {
            assert(all[i as int] == x@);
        }
        let mut p: usize = 0;
        while p < sorted.len() && before(&sorted[p], &x)
            invariant
                p <= sorted.len(),
                old_sorted == views(sorted@),
                forall|k: int| 0 <= k < p ==> rel(#[trigger] old_sorted[k], x@),
                forall|x: &T, y: &T| #[trigger] before.requires((x, y)),
                forall|x: &T, y: &T, b: bool| #[trigger]
                    before.ensures((x, y), b) ==> b == rel(x@, y@),
            decreases sorted.len() - p,
        {
            p += 1;
        }
        sorted.insert(p, x);
        proof {
            let after = views(sorted@);
            assert(after =~= old_sorted.insert(p as int, x@));
            assert forall|k: int| p <= k < old_sorted.len() implies rel(
                x@,
                #[trigger] old_sorted[k],
            ) by {
                let jp = choose|jp: int| 0 <= jp < i && #[trigger] all[jp] == old_sorted[p as int];
                assert(rel(all[jp], all[i as int]) || rel(all[i as int], all[jp]));
                if k > p {
                    assert(rel(old_sorted[p as int], old_sorted[k]));
                }
            }
            assert forall|k: int, l: int| 0 <= k < l < after.len() implies #[trigger] rel(
                after[k],
                after[l],
            ) by {
                if l < p {
                    assert(rel(old_sorted[k], old_sorted[l]));
                } else if l == p {
                } else if k < p {
                    assert(rel(old_sorted[k], old_sorted[l - 1]));
                } else if k == p {
                } else {
                    assert(rel(old_sorted[k - 1], old_sorted[l - 1]));
                }
            }
            assert forall|k: int| 0 <= k < after.len() implies exists|j: int|
                0 <= j < i + 1 && #[trigger] all[j] == #[trigger] after[k] by {
                if k < p {
                    let j = choose|j: int| 0 <= j < i && #[trigger] all[j] == old_sorted[k];
                    assert(all[j] == after[k]);
                } else if k == p {
                    assert(after[k] == x@);
                    assert(all[i as int] == after[k]);
                } else {
                    let j = choose|j: int| 0 <= j < i && #[trigger] all[j] == old_sorted[k - 1];
                    assert(after[k] == old_sorted[k - 1]);
                    assert(all[j] == after[k]);
                }
            }
            assert(after.len() == sorted.len());
            assert forall|j: int| 0 <= j < i + 1 implies after.contains(#[trigger] all[j]) by {
                if j < i {
                    let k = choose|k: int| 0 <= k < old_sorted.len() && old_sorted[k] == all[j];
                    if k < p {
                        assert(after[k] == all[j]);
                    } else {
                        assert(after[k + 1] == all[j]);
                    }
                } else {
                    assert(after[p as int] == all[j]);
                }
            }
        }
        i += 1;
    }
    proof {
        let done = views(sorted@);
        assert forall|x: T::V| done.contains(x) <==> all.contains(x) by {
            if done.contains(x) {
                let k = choose|k: int| 0 <= k < done.len() && done[k] == x;
                let j = choose|j: int| 0 <= j < i && #[trigger] all[j] == done[k];
                assert(all[j] == x);
            }
            if all.contains(x) {
                let j = choose|j: int| 0 <= j < all.len() && all[j] == x;
                assert(done.contains(all[j]));
            }
        }
    }
    sorted
}

/// Whether `apart` holds between every row and every later row.
pub(crate) fn all_apart<T: View, F: Fn(&T, &T) -> bool>(
    rows: &[T],
    apart: F,
    Ghost(rel): Ghost<spec_fn(T::V, T::V) -> bool>,
) -> (b: bool)
    requires
        forall|x: &T, y: &T| #[trigger] apart.requires((x, y)),
        forall|x: &T, y: &T, b: bool| #[trigger] apart.ensures((x, y), b) ==> b == rel(x@, y@),
    ensures
        b == pairwise(views(rows@), rel),
{
    let ghost all = views(rows@);
    let mut j: usize = 0;
    while j < rows.len()
        invariant
            j <= rows.len(),
            all == views(rows@),
            forall|x: int, y: int| 0 <= x < y < j ==> #[trigger] rel(all[x], all[y]),
            forall|x: &T, y: &T| #[trigger] apart.requires((x, y)),
            forall|x: &T, y: &T, b: bool| #[trigger] apart.ensures((x, y), b) ==> b == rel(x@, y@),
        decreases rows.len() - j,
    {
        let mut i: usize = 0;
        while i < j
            invariant
                i <= j < rows.len(),
                all == views(rows@),
                forall|x: int| 0 <= x < i ==> #[trigger] rel(all[x], all[j as int]),
                forall|x: &T, y: &T| #[trigger] apart.requires((x, y)),
                forall|x: &T, y: &T, b: bool| #[trigger]
                    apart.ensures((x, y), b) ==> b == rel(x@, y@),
            decreases j - i,
        {
            if !apart(&rows[i], &rows[j]) {
                assert(!rel(all[i as int], all[j as int]));
                return false;
            }
            i += 1;
        }
        j += 1;
    }
    true
}

} // verus!
