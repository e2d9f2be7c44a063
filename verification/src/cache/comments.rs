//! The comment table: replaced whole for one remote container at a time, read
//! back issue by issue.

use vstd::prelude::*;
use vstd::seq_lib::*;
use crate::cache::{Cache, CacheError, CacheView, CommentRow, CommentRowView, cache_wf};
use crate::forge::{Comment, CommentView};
use crate::rows::{
    all_apart, lemma_filter_pairwise, lemma_kept_iff, lemma_kept_row, lemma_pairwise_add, pairwise,
    select_rows, views,
};
use crate::text::same_text;

verus! {

/// The rows of `remote` that belong to the issue `issue_number`, in table
/// order.
pub open spec fn comments_of(rows: Seq<CommentRowView>, remote: Seq<char>, issue_number: u64) -> Seq<
    CommentRowView,
> {
    rows.filter(|r: CommentRowView| r.remote == remote && r.comment.issue_number == issue_number)
}

/// The comments that the rows carry.
pub open spec fn carried(rows: Seq<CommentRowView>) -> Seq<CommentView> {
    rows.map_values(|r: CommentRowView| r.comment)
}

/// No two comments of the list have the same id.
pub open spec fn distinct_ids(comments: Seq<CommentView>) -> bool {
    pairwise(comments, |a: CommentView, b: CommentView| a.comment_id != b.comment_id)
}

/// The rows that stand for the comments `comments` of `remote`.
pub open spec fn tagged_comments(remote: Seq<char>, comments: Seq<CommentView>) -> Seq<
    CommentRowView,
> {
    comments.map_values(|x: CommentView| CommentRowView { remote, comment: x })
}

/// The store after the comments of `remote` were replaced by `comments`.
pub open spec fn with_comments(c: CacheView, remote: Seq<char>, comments: Seq<CommentView>) -> CacheView {
    CacheView {
        comments: c.comments.filter(|r: CommentRowView| r.remote != remote) + tagged_comments(
            remote,
            comments,
        ),
        ..c
    }
}

/// Replacing the comments of a remote container keeps the invariant of the
/// store, as long as the new comments have distinct ids.
pub proof fn lemma_with_comments_wf(c: CacheView, remote: Seq<char>, comments: Seq<CommentView>)
    requires
        cache_wf(c),
        distinct_ids(comments),
    ensures
        cache_wf(with_comments(c, remote, comments)),
{
    let unique = |a: CommentRowView, b: CommentRowView|
        !(a.remote == b.remote && a.comment.comment_id == b.comment.comment_id);
    let others = |r: CommentRowView| r.remote != remote;
    let kept = c.comments.filter(others);
    let fresh = tagged_comments(remote, comments);
    lemma_filter_pairwise(c.comments, others, unique);
    assert forall|i: int, j: int| 0 <= i < j < fresh.len() implies #[trigger] unique(
        fresh[i],
        fresh[j],
    ) by {
        let differ = |a: CommentView, b: CommentView| a.comment_id != b.comment_id;
        assert(differ(comments[i], comments[j]));
    }
    assert forall|i: int, j: int| 0 <= i < kept.len() && 0 <= j < fresh.len() implies #[trigger] unique(
        kept[i],
        fresh[j],
    ) by {
        lemma_kept_row(c.comments, others, i);
    }
    lemma_pairwise_add(kept, fresh, unique);
}

/// Right after the comments of a remote container were saved, the comments
/// of each of its issues are the saved comments of that issue, in the order
/// in which they were given.
pub proof fn lemma_saved_comments_load_back(
    c: CacheView,
    remote: Seq<char>,
    comments: Seq<CommentView>,
    issue_number: u64,
)
    ensures
        carried(comments_of(with_comments(c, remote, comments).comments, remote, issue_number))
            == comments.filter(|x: CommentView| x.issue_number == issue_number),
{
    let others = |r: CommentRowView| r.remote != remote;
    let mine = |r: CommentRowView| r.remote == remote && r.comment.issue_number == issue_number;
    let kept = c.comments.filter(others);
    let fresh = tagged_comments(remote, comments);
    Seq::filter_distributes_over_add(kept, fresh, mine);
    assert forall|i: int| 0 <= i < kept.len() implies !mine(#[trigger] kept[i]) by {
        lemma_kept_row(c.comments, others, i);
    }
    kept.lemma_all_neg_filter_empty(mine);
    assert(kept.filter(mine) =~= Seq::empty());
    assert(kept.filter(mine) + fresh.filter(mine) =~= fresh.filter(mine));
    lemma_tagged_filter(remote, comments, issue_number);
}

/// Tagging comments and picking those of one issue is picking them and
/// tagging them.
pub proof fn lemma_tagged_filter(remote: Seq<char>, comments: Seq<CommentView>, issue_number: u64)
    ensures
        carried(
            tagged_comments(remote, comments).filter(
                |r: CommentRowView| r.remote == remote && r.comment.issue_number == issue_number,
            ),
        ) == comments.filter(|x: CommentView| x.issue_number == issue_number),
    decreases comments.len(),
{
    reveal(Seq::filter);
    let mine = |r: CommentRowView| r.remote == remote && r.comment.issue_number == issue_number;
    let on_issue = |x: CommentView| x.issue_number == issue_number;
    if comments.len() > 0 {
        let front = comments.drop_last();
        lemma_tagged_filter(remote, front, issue_number);
        assert(tagged_comments(remote, comments).drop_last() =~= tagged_comments(remote, front));
        let picked = tagged_comments(remote, front).filter(mine);
        if on_issue(comments.last()) {
            assert(carried(picked.push(tagged_comments(remote, comments).last())) =~= carried(
                picked,
            ).push(comments.last()));
        }
    } else {
        assert(carried(tagged_comments(remote, comments).filter(mine)) =~= Seq::empty());
    }
}

/// Replaces the comments of `repo` by `comments`, all or nothing. Comments
/// with one id twice are refused and leave the cache as it was.
pub fn save_comments(cache: &mut Cache, repo: &str, comments: &[Comment]) -> (r: Result<
    (),
    CacheError,
>)
    requires
        old(cache).well_formed(),
    ensures
        final(cache).well_formed(),
        match r {
            Ok(()) => {
                &&& distinct_ids(views(comments@))
                &&& final(cache)@ == with_comments(old(cache)@, repo@, views(comments@))
            },
            Err(e) => {
                &&& e == CacheError::DuplicateComment
                &&& !distinct_ids(views(comments@))
                &&& final(cache)@ == old(cache)@
            },
        },
{
    proof {
        cache.lemma_view();
    }
    let differ = |a: &Comment, b: &Comment| -> (d: bool)
        ensures
            d == (a@.comment_id != b@.comment_id),
        {
            !same_text(a.comment_id.as_str(), b.comment_id.as_str())
        };
    if !all_apart(
        comments,
        differ,
        Ghost(|a: CommentView, b: CommentView| a.comment_id != b.comment_id),
    ) {
        return Err(CacheError::DuplicateComment);
    }
    let other = |r: &CommentRow| -> (b: bool)
        ensures
            b == (r@.remote != repo@),
        {
            !same_text(r.remote.as_str(), repo)
        };
    let mut rows = select_rows(&cache.comments, other, Ghost(|r: CommentRowView| r.remote != repo@));
    let ghost kept = views(rows@);
    let ghost fresh = tagged_comments(repo@, views(comments@));
    let mut i: usize = 0;
    while i < comments.len()
        invariant
            i <= comments.len(),
            fresh == tagged_comments(repo@, views(comments@)),
            views(rows@) == kept + fresh.take(i as int),
        decreases comments.len() - i,
    {
        let ghost before = rows@;
        let row = CommentRow { remote: repo.to_owned(), comment: comments[i].copy() };
        rows.push(row);
        proof {
            assert(views(rows@) =~= views(before).push(row@));
            assert(fresh.take(i + 1) =~= fresh.take(i as int).push(fresh[i as int]));
            assert(views(rows@) =~= kept + fresh.take(i + 1));
        }
        i += 1;
    }
    proof {
        assert(fresh.take(i as int) =~= fresh);
        lemma_with_comments_wf(old(cache)@, repo@, views(comments@));
    }
    cache.comments = rows;
    proof {
        cache.lemma_view();
    }
    Ok(())
}

/// The comments on the issue `issue_number` of `repo`, in table order.
pub fn load_comments(cache: &Cache, repo: &str, issue_number: u64) -> (comments: Vec<Comment>)
    requires
        cache.well_formed(),
    ensures
        views(comments@) == carried(comments_of(cache@.comments, repo@, issue_number)),
{
    proof {
        cache.lemma_view();
    }
    let mine = |r: &CommentRow| -> (b: bool)
        ensures
            b == (r@.remote == repo@ && r@.comment.issue_number == issue_number),
        {
            r.comment.issue_number == issue_number && same_text(r.remote.as_str(), repo)
        };
    let rows = select_rows(
        &cache.comments,
        mine,
        Ghost(|r: CommentRowView| r.remote == repo@ && r.comment.issue_number == issue_number),
    );
    let mut comments: Vec<Comment> = Vec::new();
    let mut i: usize = 0;
    while i < rows.len()
        invariant
            i <= rows.len(),
            views(comments@) == carried(views(rows@)).take(i as int),
        decreases rows.len() - i,
    {
        let ghost before = comments@;
        let c = rows[i].comment.copy();
        comments.push(c);
        proof {
            assert(views(comments@) =~= views(before).push(c@));
            assert(carried(views(rows@)).take(i + 1) =~= carried(views(rows@)).take(i as int).push(
                c@,
            ));
        }
        i += 1;
    }
    proof {
        assert(carried(views(rows@)).take(i as int) =~= carried(views(rows@)));
    }
    comments
}

/// How many comments the issue `issue_number` of `repo` has.
pub fn count_comments(cache: &Cache, repo: &str, issue_number: u64) -> (n: usize)
    requires
        cache.well_formed(),
    ensures
        n == comments_of(cache@.comments, repo@, issue_number).len(),
{
    let comments = load_comments(cache, repo, issue_number);
    proof {
        assert(views(comments@).len() == comments@.len());
        assert(carried(comments_of(cache@.comments, repo@, issue_number)).len() == comments_of(
            cache@.comments,
            repo@,
            issue_number,
        ).len());
    }
    comments.len()
}

/// Whether `counts` tells for each issue of `remote` that has comments, and
/// for no other issue, how many it has, each issue once.
pub open spec fn counts_listed(
    counts: Seq<(u64, usize)>,
    rows: Seq<CommentRowView>,
    remote: Seq<char>,
) -> bool {
    &&& pairwise(counts, |a: (u64, usize), b: (u64, usize)| a.0 != b.0)
    &&& forall|k: int|
        0 <= k < counts.len() ==> (#[trigger] counts[k]).1 > 0 && counts[k].1 == comments_of(
            rows,
            remote,
            counts[k].0,
        ).len()
    &&& forall|i: int|
        0 <= i < rows.len() && (#[trigger] rows[i]).remote == remote ==> exists|k: int|
            0 <= k < counts.len() && (#[trigger] counts[k]).0 == rows[i].comment.issue_number
}

/// Whether `n` is one of `numbers`.
fn is_among(numbers: &Vec<u64>, n: u64) -> (b: bool)
    ensures
        b == numbers@.contains(n),
{
    let mut i: usize = 0;
    while i < numbers.len()
        invariant
            i <= numbers.len(),
            forall|k: int| 0 <= k < i ==> numbers@[k] != n,
        decreases numbers.len() - i,
    {
        if numbers[i] == n {
            return true;
        }
        i += 1;
    }
    false
}

/// Whether one of the rows is a comment on the issue `n`.
pub open spec fn comments_on(rows: Seq<CommentRowView>, n: u64) -> bool {
    exists|j: int| 0 <= j < rows.len() && (#[trigger] rows[j]).comment.issue_number == n
}

/// How many comments each issue of `repo` has, for the issues that have any,
/// in the order in which the issues first occur in the table.
pub fn count_comments_by_issue(cache: &Cache, repo: &str) -> (counts: Vec<(u64, usize)>)
    requires
        cache.well_formed(),
    ensures
        counts_listed(counts@, cache@.comments, repo@),
{
    proof {
        cache.lemma_view();
    }
    let ghost rows = cache@.comments;
    let ghost of_remote = |r: CommentRowView| r.remote == repo@;
    let is_of_remote = |r: &CommentRow| -> (b: bool)
        ensures
            b == (r@.remote == repo@),
        {
            same_text(r.remote.as_str(), repo)
        };
    let mine = select_rows(&cache.comments, is_of_remote, Ghost(of_remote));
    let ghost kept = views(mine@);
    let mut numbers: Vec<u64> = Vec::new();
    let mut i: usize = 0;
    while i < mine.len()
        invariant
            i <= mine.len(),
            kept == views(mine@),
            forall|a: int, b: int| 0 <= a < b < numbers.len() ==> numbers@[a] != numbers@[b],
            forall|m: int| 0 <= m < numbers.len() ==> comments_on(kept, #[trigger] numbers@[m]),
            forall|j: int|
                0 <= j < i ==> numbers@.contains((#[trigger] kept[j]).comment.issue_number),
        decreases mine.len() - i,
    {
        let n = mine[i].comment.issue_number;
        let ghost before = numbers@;
        proof {
            assert(kept[i as int].comment.issue_number == n);
        }
        if !is_among(&numbers, n) {
            numbers.push(n);
            proof {
                assert(numbers@[before.len() as int] == n);
                assert forall|j: int| 0 <= j < i + 1 implies numbers@.contains(
                    (#[trigger] kept[j]).comment.issue_number,
                ) by {
                    if j < i {
                        let k = choose|k: int|
                            0 <= k < before.len() && before[k] == kept[j].comment.issue_number;
                        assert(numbers@[k] == kept[j].comment.issue_number);
                    }
                }
                assert forall|m: int| 0 <= m < numbers.len() implies comments_on(
                    kept,
                    #[trigger] numbers@[m],
                ) by {
                    if m < before.len() {
                        assert(comments_on(kept, before[m]));
                    }
                }
            }
        }
        i += 1;
    }
    let mut counts: Vec<(u64, usize)> = Vec::new();
    let mut k: usize = 0;
    while k < numbers.len()
        invariant
            k <= numbers.len(),
            cache.well_formed(),
            rows == cache@.comments,
            kept == rows.filter(of_remote),
            of_remote == (|r: CommentRowView| r.remote == repo@),
            counts.len() == k,
            forall|m: int| 0 <= m < k ==> (#[trigger] counts@[m]).0 == numbers@[m],
            forall|m: int|
                0 <= m < k ==> (#[trigger] counts@[m]).1 > 0 && counts@[m].1 == comments_of(
                    rows,
                    repo@,
                    counts@[m].0,
                ).len(),
            forall|m: int| 0 <= m < numbers.len() ==> comments_on(kept, #[trigger] numbers@[m]),
        decreases numbers.len() - k,
    {
        let n = numbers[k];
        let count = count_comments(cache, repo, n);
        proof {
            assert(comments_on(kept, numbers@[k as int]));
            let j = choose|j: int|
                0 <= j < kept.len() && (#[trigger] kept[j]).comment.issue_number == n;
            lemma_kept_row(rows, of_remote, j);
            let on_issue = |r: CommentRowView| r.remote == repo@ && r.comment.issue_number == n;
            lemma_kept_iff(rows, on_issue, kept[j]);
            assert(rows.filter(on_issue).contains(kept[j]));
        }
        counts.push((n, count));
        k += 1;
    }
    proof {
        let apart = |a: (u64, usize), b: (u64, usize)| a.0 != b.0;
        assert forall|a: int, b: int| 0 <= a < b < counts.len() implies #[trigger] apart(
            counts@[a],
            counts@[b],
        ) by {
            assert(counts@[a].0 == numbers@[a]);
            assert(counts@[b].0 == numbers@[b]);
        }
        assert forall|i: int| 0 <= i < rows.len() && (#[trigger] rows[i]).remote
            == repo@ implies exists|k: int|
            0 <= k < counts.len() && (#[trigger] counts@[k]).0 == rows[i].comment.issue_number by {
            lemma_kept_iff(rows, of_remote, rows[i]);
            assert(rows.contains(rows[i]));
            let j = choose|j: int| 0 <= j < kept.len() && kept[j] == rows[i];
            assert(numbers@.contains(kept[j].comment.issue_number));
            let m = choose|m: int|
                0 <= m < numbers.len() && numbers@[m] == kept[j].comment.issue_number;
            assert(counts@[m].0 == rows[i].comment.issue_number);
        }
    }
    counts
}

} // verus!
