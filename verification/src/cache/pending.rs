//! The write queue: an append-only log of operations that wait for their
//! remote container, read back oldest first.

use vstd::prelude::*;
use vstd::seq_lib::*;
use crate::cache::{Cache, CacheError, CacheView, PendingOp, PendingOpView, cache_wf, ids_increasing, queue_ordered};
use crate::rows::{lemma_filter_pairwise, lemma_filter_twice, lemma_kept_row, select_rows, views};
use crate::text::same_text;

verus! {

/// The operations queued for one remote container, in table order.
pub open spec fn ops_of(rows: Seq<PendingOpView>, remote: Seq<char>) -> Seq<PendingOpView> {
    rows.filter(|o: PendingOpView| o.repo == remote)
}

/// The queue without the operation that has the given id.
pub open spec fn without_op(rows: Seq<PendingOpView>, id: i64) -> Seq<PendingOpView> {
    rows.filter(|o: PendingOpView| o.id != id)
}

/// Taking rows out of an ordered queue leaves an ordered queue.
pub proof fn lemma_filter_keeps_order(
    rows: Seq<PendingOpView>,
    keep: spec_fn(PendingOpView) -> bool,
    next_op_id: i64,
)
    requires
        queue_ordered(rows, next_op_id),
    ensures
        queue_ordered(rows.filter(keep), next_op_id),
{
    lemma_filter_pairwise(rows, keep, |a: PendingOpView, b: PendingOpView| a.id < b.id);
    let kept = rows.filter(keep);
    assert forall|i: int| 0 <= i < kept.len() implies 1 <= (#[trigger] kept[i]).id
        < next_op_id by {
        lemma_kept_row(rows, keep, i);
        let at = choose|at: int| 0 <= at < rows.len() && rows[at] == kept[i];
        assert(1 <= rows[at].id < next_op_id);
    }
}

/// The operations of one remote container come back oldest first: their ids
/// grow strictly along the list.
pub proof fn lemma_pending_ops_sorted(c: CacheView, remote: Seq<char>)
    requires
        cache_wf(c),
    ensures
        ids_increasing(ops_of(c.pending, remote)),
{
    lemma_filter_keeps_order(c.pending, |o: PendingOpView| o.repo == remote, c.next_op_id);
}

/// Once an operation is completed, no list of pending operations holds it.
pub proof fn lemma_completed_op_is_gone(c: CacheView, op: PendingOpView)
    ensures
        !ops_of(without_op(c.pending, op.id), op.repo).contains(op),
        !without_op(c.pending, op.id).contains(op),
{
    let rest = without_op(c.pending, op.id);
    if rest.contains(op) {
        let at = choose|at: int| 0 <= at < rest.len() && rest[at] == op;
        lemma_kept_row(c.pending, |o: PendingOpView| o.id != op.id, at);
    }
    if ops_of(rest, op.repo).contains(op) {
        rest.lemma_filter_contains_rev(|o: PendingOpView| o.repo == op.repo, op);
    }
}

/// Completing an operation twice changes nothing the second time.
pub proof fn lemma_complete_op_idempotent(rows: Seq<PendingOpView>, id: i64)
    ensures
        without_op(without_op(rows, id), id) == without_op(rows, id),
{
    lemma_filter_twice(rows, |o: PendingOpView| o.id != id);
}

/// In an ordered queue the row at position `k` has an id of at least `k + 1`.
pub proof fn lemma_queue_ids_spread(rows: Seq<PendingOpView>, next_op_id: i64, k: int)
    requires
        queue_ordered(rows, next_op_id),
        0 <= k < rows.len(),
    ensures
        rows[k].id >= k + 1,
    decreases k,
{
    if k > 0 {
        lemma_queue_ids_spread(rows, next_op_id, k - 1);
        let rel = |a: PendingOpView, b: PendingOpView| a.id < b.id;
        assert(rel(rows[k - 1], rows[k]));
    }
}

/// Appends an operation to the queue of `repo` and returns its id. Ids are
/// handed out in growing order and never twice.
pub fn queue_op(cache: &mut Cache, repo: &str, op_type: &str, payload: &str, now: &str) -> (r:
    Result<i64, CacheError>)
    requires
        old(cache).well_formed(),
    ensures
        final(cache).well_formed(),
        match r {
            Ok(id) => {
                &&& id == old(cache)@.next_op_id
                &&& id < i64::MAX
                &&& final(cache)@ == (CacheView {
                    pending: old(cache)@.pending.push(
                        PendingOpView {
                            id,
                            repo: repo@,
                            op_type: op_type@,
                            payload: payload@,
                            created_at: now@,
                        },
                    ),
                    next_op_id: (id + 1) as i64,
                    ..old(cache)@
                })
            },
            Err(e) => {
                &&& e == CacheError::QueueFull
                &&& old(cache)@.next_op_id == i64::MAX
                &&& final(cache)@ == old(cache)@
            },
        },
{
    proof {
        cache.lemma_view();
    }
    if cache.next_op_id == i64::MAX {
        return Err(CacheError::QueueFull);
    }
    let id = cache.next_op_id;
    let op = PendingOp {
        id,
        repo: repo.to_owned(),
        op_type: op_type.to_owned(),
        payload: payload.to_owned(),
        created_at: now.to_owned(),
    };
    let ghost before = cache.pending@;
    cache.pending.push(op);
    cache.next_op_id = id + 1;
    proof {
        cache.lemma_view();
        assert(views(cache.pending@) =~= views(before).push(op@));
    }
    Ok(id)
}

/// The operations queued for `repo`, oldest first.
pub fn load_pending_ops(cache: &Cache, repo: &str) -> (ops: Vec<PendingOp>)
    requires
        cache.well_formed(),
    ensures
        views(ops@) == ops_of(cache@.pending, repo@),
        ids_increasing(views(ops@)),
{
    proof {
        cache.lemma_view();
        lemma_pending_ops_sorted(cache@, repo@);
    }
    let of_repo = |o: &PendingOp| -> (b: bool)
        ensures
            b == (o@.repo == repo@),
        {
            same_text(o.repo.as_str(), repo)
        };
    select_rows(&cache.pending, of_repo, Ghost(|o: PendingOpView| o.repo == repo@))
}

/// Takes the operation with the given id out of the queue. Where no
/// operation has that id, nothing changes.
pub fn complete_op(cache: &mut Cache, id: i64)
    requires
        old(cache).well_formed(),
    ensures
        final(cache).well_formed(),
        final(cache)@ == (CacheView {
            pending: without_op(old(cache)@.pending, id),
            ..old(cache)@
        }),
{
    proof {
        cache.lemma_view();
        lemma_filter_keeps_order(cache@.pending, |o: PendingOpView| o.id != id, cache@.next_op_id);
    }
    let other = |o: &PendingOp| -> (b: bool)
        ensures
            b == (o@.id != id),
        {
            o.id != id
        };
    let kept = select_rows(&cache.pending, other, Ghost(|o: PendingOpView| o.id != id));
    cache.pending = kept;
    proof {
        cache.lemma_view();
    }
}

/// How many operations are queued for `repo`.
pub fn count_pending_ops(cache: &Cache, repo: &str) -> (n: i64)
    requires
        cache.well_formed(),
    ensures
        n == ops_of(cache@.pending, repo@).len(),
{
    let ops = load_pending_ops(cache, repo);
    proof {
        cache.lemma_view();
        let rows = cache@.pending;
        rows.lemma_filter_len(|o: PendingOpView| o.repo == repo@);
        if rows.len() > 0 {
            lemma_queue_ids_spread(rows, cache@.next_op_id, rows.len() - 1);
        }
        assert(views(ops@).len() == ops@.len());
    }
    ops.len() as i64
}

} // verus!
