//! The issue table: replaced whole for one remote container at a time, read
//! back highest number first.

use vstd::prelude::*;
use vstd::seq_lib::*;
use crate::cache::{
    Cache, CacheError, CacheView, IssueRow, IssueRowView, SyncState, SyncStateView, cache_wf,
};
use crate::forge::{Issue, IssueView};
use crate::json::{labels_json, serialize_labels};
use crate::rows::{
    find_row, lemma_filter_pairwise, lemma_kept_iff, lemma_kept_row, lemma_pairwise_add,
    lemma_pairwise_push, pairwise, select_rows, views,
};
use crate::text::{contains, has_infix, opt_str, same_text};

verus! {

/// Whether the serialized labels of an issue hold `label` as a part of their
/// text.
pub open spec fn label_listed(labels: Seq<Seq<char>>, label: Seq<char>) -> bool {
    match labels_json(labels) {
        Some(text) => has_infix(text, label),
        None => false,
    }
}

/// Whether an issue passes the filters that are set: the state exactly, the
/// label as a part of the serialized labels.
pub open spec fn issue_matches(
    issue: IssueView,
    label: Option<Seq<char>>,
    state: Option<Seq<char>>,
) -> bool {
    &&& (state matches Some(s) ==> issue.state == s)
    &&& (label matches Some(l) ==> label_listed(issue.labels, l))
}

/// Whether a row belongs to `remote` and passes the filters.
pub open spec fn row_selected(
    row: IssueRowView,
    remote: Seq<char>,
    label: Option<Seq<char>>,
    state: Option<Seq<char>>,
) -> bool {
    row.remote == remote && issue_matches(row.issue, label, state)
}

/// The rows of `remote` that pass the filters, in table order.
pub open spec fn selected_issues(
    rows: Seq<IssueRowView>,
    remote: Seq<char>,
    label: Option<Seq<char>>,
    state: Option<Seq<char>>,
) -> Seq<IssueRowView> {
    rows.filter(|r: IssueRowView| row_selected(r, remote, label, state))
}

/// The numbers fall strictly along the list.
pub open spec fn numbers_descend(issues: Seq<IssueView>) -> bool {
    pairwise(issues, |a: IssueView, b: IssueView| a.number > b.number)
}

/// No two issues of the list have the same number.
pub open spec fn distinct_numbers(issues: Seq<IssueView>) -> bool {
    pairwise(issues, |a: IssueView, b: IssueView| a.number != b.number)
}

/// An issue is the issue of one of the rows.
pub open spec fn among(rows: Seq<IssueRowView>, x: IssueView) -> bool {
    exists|i: int| 0 <= i < rows.len() && (#[trigger] rows[i]).issue == x
}

/// `sorted` holds exactly the issues of `rows`, highest number first.
pub open spec fn lists_descending(sorted: Seq<IssueView>, rows: Seq<IssueRowView>) -> bool {
    &&& numbers_descend(sorted)
    &&& forall|x: IssueView| sorted.contains(x) <==> among(rows, x)
}

/// The rows that stand for the issues `issues` of `remote`.
pub open spec fn tagged(remote: Seq<char>, issues: Seq<IssueView>) -> Seq<IssueRowView> {
    issues.map_values(|x: IssueView| IssueRowView { remote, issue: x })
}

/// The sync states with the one of `state.repo` replaced by `state`.
pub open spec fn with_sync_state(states: Seq<SyncStateView>, state: SyncStateView) -> Seq<
    SyncStateView,
> {
    states.filter(|s: SyncStateView| s.repo != state.repo).push(state)
}

/// The store after the issues of `remote` were replaced by `issues` at the
/// time `now`.
pub open spec fn with_issues(
    c: CacheView,
    remote: Seq<char>,
    issues: Seq<IssueView>,
    now: Seq<char>,
) -> CacheView {
    CacheView {
        issues: c.issues.filter(|r: IssueRowView| r.remote != remote) + tagged(remote, issues),
        sync_states: with_sync_state(
            c.sync_states,
            SyncStateView { repo: remote, last_sync: now, issue_count: issues.len() as i64 },
        ),
        ..c
    }
}

/// The sync state of `remote`, where it has one.
pub open spec fn sync_state_of(states: Seq<SyncStateView>, remote: Seq<char>) -> Option<
    SyncStateView,
> {
    if exists|i: int| 0 <= i < states.len() && (#[trigger] states[i]).repo == remote {
        let i = choose|i: int| 0 <= i < states.len() && (#[trigger] states[i]).repo == remote;
        Some(states[i])
    } else {
        None
    }
}

/// Replacing the issues of a remote container keeps the invariant of the
/// store, as long as the new issues have distinct numbers.
pub proof fn lemma_with_issues_wf(
    c: CacheView,
    remote: Seq<char>,
    issues: Seq<IssueView>,
    now: Seq<char>,
)
    requires
        cache_wf(c),
        distinct_numbers(issues),
    ensures
        cache_wf(with_issues(c, remote, issues, now)),
{
    let unique = |a: IssueRowView, b: IssueRowView|
        !(a.remote == b.remote && a.issue.number == b.issue.number);
    let others = |r: IssueRowView| r.remote != remote;
    let kept = c.issues.filter(others);
    let fresh = tagged(remote, issues);
    lemma_filter_pairwise(c.issues, others, unique);
    assert forall|i: int, j: int| 0 <= i < j < fresh.len() implies #[trigger] unique(
        fresh[i],
        fresh[j],
    ) by {
        let differ = |a: IssueView, b: IssueView| a.number != b.number;
        assert(differ(issues[i], issues[j]));
    }
    assert forall|i: int, j: int| 0 <= i < kept.len() && 0 <= j < fresh.len() implies #[trigger] unique(
        kept[i],
        fresh[j],
    ) by {
        lemma_kept_row(c.issues, others, i);
    }
    lemma_pairwise_add(kept, fresh, unique);

    let state = SyncStateView { repo: remote, last_sync: now, issue_count: issues.len() as i64 };
    let apart = |a: SyncStateView, b: SyncStateView| a.repo != b.repo;
    let other_states = |s: SyncStateView| s.repo != state.repo;
    let rest = c.sync_states.filter(other_states);
    lemma_filter_pairwise(c.sync_states, other_states, apart);
    assert forall|i: int| 0 <= i < rest.len() implies #[trigger] apart(rest[i], state) by {
        lemma_kept_row(c.sync_states, other_states, i);
    }
    lemma_pairwise_push(rest, state, apart);
}

/// Two lists with falling numbers that hold the same issues are one list.
pub proof fn lemma_descending_unique(a: Seq<IssueView>, b: Seq<IssueView>)
    requires
        numbers_descend(a),
        numbers_descend(b),
        forall|x: IssueView| a.contains(x) <==> b.contains(x),
    ensures
        a == b,
    decreases a.len(),
{
    let falls = |x: IssueView, y: IssueView| x.number > y.number;
    if a.len() == 0 {
        if b.len() > 0 {
            assert(b.contains(b[0]));
        }
        assert(a =~= b);
    } else {
        assert(a.contains(a[0]));
        let k = choose|k: int| 0 <= k < b.len() && b[k] == a[0];
        assert(b.contains(b[0]));
        let m = choose|m: int| 0 <= m < a.len() && a[m] == b[0];
        if m > 0 {
            assert(falls(a[0], a[m]));
        }
        if k > 0 {
            assert(falls(b[0], b[k]));
        }
        assert(k == 0);
        let ta = a.drop_first();
        let tb = b.drop_first();
        assert forall|i: int, j: int| 0 <= i < j < ta.len() implies #[trigger] falls(ta[i], ta[j]) by {
            assert(falls(a[i + 1], a[j + 1]));
        }
        assert forall|i: int, j: int| 0 <= i < j < tb.len() implies #[trigger] falls(tb[i], tb[j]) by {
            assert(falls(b[i + 1], b[j + 1]));
        }
        assert forall|x: IssueView| ta.contains(x) <==> tb.contains(x) by {
            if ta.contains(x) {
                let i = choose|i: int| 0 <= i < ta.len() && ta[i] == x;
                assert(a[i + 1] == x);
                assert(falls(a[0], a[i + 1]));
                assert(a.contains(x));
                let j = choose|j: int| 0 <= j < b.len() && b[j] == x;
                assert(j > 0);
                assert(tb[j - 1] == x);
            }
            if tb.contains(x) {
                let i = choose|i: int| 0 <= i < tb.len() && tb[i] == x;
                assert(b[i + 1] == x);
                assert(falls(b[0], b[i + 1]));
                assert(b.contains(x));
                let j = choose|j: int| 0 <= j < a.len() && a[j] == x;
                assert(j > 0);
                assert(ta[j - 1] == x);
            }
        }
        lemma_descending_unique(ta, tb);
        assert(a =~= seq![a[0]] + ta);
        assert(b =~= seq![b[0]] + tb);
    }
}

/// Right after the issues of a remote container were saved, loading them
/// without a filter gives exactly the saved issues, highest number first, and
/// the sync state counts them.
pub proof fn lemma_saved_issues_load_back(
    c: CacheView,
    remote: Seq<char>,
    issues: Seq<IssueView>,
    now: Seq<char>,
    loaded: Seq<IssueView>,
)
    requires
        cache_wf(c),
        distinct_numbers(issues),
        issues.len() <= i64::MAX,
        lists_descending(
            loaded,
            selected_issues(with_issues(c, remote, issues, now).issues, remote, None, None),
        ),
    ensures
        numbers_descend(loaded),
        forall|x: IssueView| loaded.contains(x) <==> issues.contains(x),
        sync_state_of(with_issues(c, remote, issues, now).sync_states, remote) == Some(
            SyncStateView { repo: remote, last_sync: now, issue_count: issues.len() as i64 },
        ),
{
    let after = with_issues(c, remote, issues, now);
    let others = |r: IssueRowView| r.remote != remote;
    let mine = |r: IssueRowView| row_selected(r, remote, None, None);
    let kept = c.issues.filter(others);
    let fresh = tagged(remote, issues);
    let chosen = after.issues.filter(mine);
    assert forall|x: IssueView| among(chosen, x) <==> issues.contains(x) by {
        if among(chosen, x) {
            let i = choose|i: int| 0 <= i < chosen.len() && (#[trigger] chosen[i]).issue == x;
            lemma_kept_row(after.issues, mine, i);
            let at = choose|at: int| 0 <= at < after.issues.len() && after.issues[at] == chosen[i];
            if at < kept.len() {
                lemma_kept_row(c.issues, others, at);
            } else {
                assert(issues[at - kept.len()] == x);
            }
        }
        if issues.contains(x) {
            let j = choose|j: int| 0 <= j < issues.len() && issues[j] == x;
            let row = IssueRowView { remote, issue: x };
            assert(after.issues[kept.len() + j] == row);
            assert(after.issues.contains(row));
            lemma_kept_iff(after.issues, mine, row);
            let i = choose|i: int| 0 <= i < chosen.len() && chosen[i] == row;
            assert(chosen[i].issue == x);
        }
    }
    let state = SyncStateView { repo: remote, last_sync: now, issue_count: issues.len() as i64 };
    let states = after.sync_states;
    let rest = c.sync_states.filter(|s: SyncStateView| s.repo != state.repo);
    assert(states[rest.len() as int] == state);
    lemma_with_issues_wf(c, remote, issues, now);
    let i = choose|i: int| 0 <= i < states.len() && (#[trigger] states[i]).repo == remote;
    let apart = |a: SyncStateView, b: SyncStateView| a.repo != b.repo;
    if i < rest.len() {
        assert(apart(states[i], states[rest.len() as int]));
    }
}

/// Whether the serialized form `serialized` of an issue's labels holds
/// `label` as a part of its text.
pub fn serialized_labels_hold(serialized: &str, label: &str) -> (b: bool)
    ensures
        b == has_infix(serialized@, label@),
{
    contains(serialized, label)
}

/// Whether the labels, once serialized, hold `label` as a part of their text.
pub fn labels_hold(labels: &Vec<String>, label: &str) -> (b: bool)
    ensures
        b == label_listed(crate::text::texts(labels@), label@),
{
    match serialize_labels(labels) {
        Some(text) => serialized_labels_hold(text.as_str(), label),
        None => false,
    }
}

/// Whether a row belongs to `repo` and passes the filters that are set.
pub fn is_selected(row: &IssueRow, repo: &str, label: Option<&str>, state: Option<&str>) -> (b:
    bool)
    ensures
        b == row_selected(row@, repo@, opt_str(label), opt_str(state)),
{
    if !same_text(row.remote.as_str(), repo) {
        return false;
    }
    let state_fits = match state {
        Some(s) => same_text(row.issue.state.as_str(), s),
        None => true,
    };
    if !state_fits {
        return false;
    }
    match label {
        Some(l) => labels_hold(&row.issue.labels, l),
        None => true,
    }
}

/// Whether two of the issues have the same number.
pub fn has_duplicate_numbers(issues: &[Issue]) -> (b: bool)
    ensures
        b == !distinct_numbers(views(issues@)),
{
    let ghost all = views(issues@);
    let ghost differ = |a: IssueView, b: IssueView| a.number != b.number;
    let mut j: usize = 0;
    while j < issues.len()
        invariant
            j <= issues.len(),
            all == views(issues@),
            differ == (|a: IssueView, b: IssueView| a.number != b.number),
            forall|x: int, y: int| 0 <= x < y < j ==> #[trigger] differ(all[x], all[y]),
        decreases issues.len() - j,
    {
        let mut i: usize = 0;
        while i < j
            invariant
                i <= j < issues.len(),
                all == views(issues@),
                differ == (|a: IssueView, b: IssueView| a.number != b.number),
                forall|x: int| 0 <= x < i ==> #[trigger] differ(all[x], all[j as int]),
            decreases j - i,
        {
            if issues[i].number == issues[j].number {
                assert(!differ(all[i as int], all[j as int]));
                return true;
            }
            i += 1;
        }
        j += 1;
    }
    false
}

/// The issues of the rows, highest number first.
pub fn sort_descending(rows: &Vec<IssueRow>) -> (sorted: Vec<Issue>)
    requires
        pairwise(views(rows@), |a: IssueRowView, b: IssueRowView| a.issue.number != b.issue.number),
    ensures
        lists_descending(views(sorted@), views(rows@)),
{
    let ghost all = views(rows@);
    let ghost differ = |a: IssueRowView, b: IssueRowView| a.issue.number != b.issue.number;
    let ghost falls = |a: IssueView, b: IssueView| a.number > b.number;
    let mut sorted: Vec<Issue> = Vec::new();
    let mut i: usize = 0;
    while i < rows.len()
        invariant
            i <= rows.len(),
            all == views(rows@),
            differ == (|a: IssueRowView, b: IssueRowView| a.issue.number != b.issue.number),
            falls == (|a: IssueView, b: IssueView| a.number > b.number),
            pairwise(all, differ),
            pairwise(views(sorted@), falls),
            forall|k: int|
                0 <= k < sorted.len() ==> exists|j: int|
                    0 <= j < i && (#[trigger] all[j]).issue == #[trigger] views(sorted@)[k],
            forall|j: int| 0 <= j < i ==> views(sorted@).contains((#[trigger] all[j]).issue),
        decreases rows.len() - i,
    {
        let x = rows[i].issue.copy();
        let ghost before = views(sorted@);
        let mut p: usize = 0;
        while p < sorted.len() && sorted[p].number > x.number
            invariant
                p <= sorted.len(),
                before == views(sorted@),
                forall|k: int| 0 <= k < p ==> (#[trigger] before[k]).number > x.number,
            decreases sorted.len() - p,
        {
            p += 1;
        }
        sorted.insert(p, x);
        proof {
            let after = views(sorted@);
            assert(after =~= before.insert(p as int, x@));
            assert forall|k: int| p <= k < before.len() implies (#[trigger] before[k]).number
                < x@.number by {
                let j = choose|j: int| 0 <= j < i && (#[trigger] all[j]).issue == before[k];
                assert(differ(all[j], all[i as int]));
                if k > p {
                    assert(falls(before[p as int], before[k]));
                }
                let jp = choose|jp: int|
                    0 <= jp < i && (#[trigger] all[jp]).issue == before[p as int];
                assert(differ(all[jp], all[i as int]));
            }
            assert forall|k: int, l: int| 0 <= k < l < after.len() implies #[trigger] falls(
                after[k],
                after[l],
            ) by {
                if l < p {
                    assert(falls(before[k], before[l]));
                } else if l == p {
                } else if k < p {
                    assert(falls(before[k], before[l - 1]));
                } else if k == p {
                } else {
                    assert(falls(before[k - 1], before[l - 1]));
                }
            }
            assert forall|k: int| 0 <= k < after.len() implies exists|j: int|
                0 <= j < i + 1 && (#[trigger] all[j]).issue == #[trigger] after[k] by {
                if k < p {
                    let j = choose|j: int| 0 <= j < i && (#[trigger] all[j]).issue == before[k];
                    assert(all[j].issue == after[k]);
                } else if k == p {
                    assert(all[i as int].issue == after[k]);
                } else {
                    let j = choose|j: int|
                        0 <= j < i && (#[trigger] all[j]).issue == before[k - 1];
                    assert(all[j].issue == after[k]);
                }
            }
            assert forall|j: int| 0 <= j < i + 1 implies after.contains((#[trigger] all[j]).issue) by {
                if j < i {
                    let k = choose|k: int| 0 <= k < before.len() && before[k] == all[j].issue;
                    if k < p {
                        assert(after[k] == all[j].issue);
                    } else {
                        assert(after[k + 1] == all[j].issue);
                    }
                } else {
                    assert(after[p as int] == all[j].issue);
                }
            }
        }
        i += 1;
    }
    proof {
        let done = views(sorted@);
        assert forall|x: IssueView| done.contains(x) <==> among(all, x) by {
            if done.contains(x) {
                let k = choose|k: int| 0 <= k < done.len() && done[k] == x;
                let j = choose|j: int| 0 <= j < i && (#[trigger] all[j]).issue == done[k];
                assert(all[j].issue == x);
            }
            if among(all, x) {
                let j = choose|j: int| 0 <= j < all.len() && (#[trigger] all[j]).issue == x;
                assert(done.contains(all[j].issue));
            }
        }
    }
    sorted
}

/// The issues of `repo` that pass the filters, highest number first. A filter
/// that is not set lets every issue pass; `state` must match exactly, `label`
/// must be a part of the issue's serialized labels.
pub fn load_issues_filtered(
    cache: &Cache,
    repo: &str,
    label: Option<&str>,
    state: Option<&str>,
) -> (issues: Vec<Issue>)
    requires
        cache.well_formed(),
    ensures
        lists_descending(
            views(issues@),
            selected_issues(cache@.issues, repo@, opt_str(label), opt_str(state)),
        ),
{
    proof {
        cache.lemma_view();
    }
    let ghost chosen = |r: IssueRowView| row_selected(r, repo@, opt_str(label), opt_str(state));
    let pick = |r: &IssueRow| -> (b: bool)
        ensures
            b == row_selected(r@, repo@, opt_str(label), opt_str(state)),
        {
            is_selected(r, repo, label, state)
        };
    let rows = select_rows(&cache.issues, pick, Ghost(chosen));
    proof {
        let unique = |a: IssueRowView, b: IssueRowView|
            !(a.remote == b.remote && a.issue.number == b.issue.number);
        let differ = |a: IssueRowView, b: IssueRowView| a.issue.number != b.issue.number;
        let kept = views(rows@);
        lemma_filter_pairwise(cache@.issues, chosen, unique);
        assert forall|i: int, j: int| 0 <= i < j < kept.len() implies #[trigger] differ(
            kept[i],
            kept[j],
        ) by {
            lemma_kept_row(cache@.issues, chosen, i);
            lemma_kept_row(cache@.issues, chosen, j);
            assert(unique(kept[i], kept[j]));
        }
    }
    sort_descending(&rows)
}

/// All issues of `repo`, highest number first.
pub fn load_issues(cache: &Cache, repo: &str) -> (issues: Vec<Issue>)
    requires
        cache.well_formed(),
    ensures
        lists_descending(views(issues@), selected_issues(cache@.issues, repo@, None, None)),
{
    load_issues_filtered(cache, repo, None, None)
}

/// The issue of `repo` with the given number, where the cache holds it.
pub fn load_issue(cache: &Cache, repo: &str, number: u64) -> (issue: Option<Issue>)
    requires
        cache.well_formed(),
    ensures
        match issue {
            Some(x) => x@.number == number && cache@.issues.contains(
                IssueRowView { remote: repo@, issue: x@ },
            ),
            None => forall|i: int|
                0 <= i < cache@.issues.len() ==> !((#[trigger] cache@.issues[i]).remote == repo@
                    && cache@.issues[i].issue.number == number),
        },
{
    proof {
        cache.lemma_view();
    }
    let wanted = |r: &IssueRow| -> (b: bool)
        ensures
            b == (r@.remote == repo@ && r@.issue.number == number),
        {
            r.issue.number == number && same_text(r.remote.as_str(), repo)
        };
    let found = find_row(
        &cache.issues,
        wanted,
        Ghost(|r: IssueRowView| r.remote == repo@ && r.issue.number == number),
    );
    match found {
        Some(at) => {
            let x = cache.issues[at].issue.copy();
            proof {
                assert(cache@.issues[at as int] == (IssueRowView { remote: repo@, issue: x@ }));
            }
            Some(x)
        },
        None => None,
    }
}

/// When `repo` was last read in full and how many issues it had then, where
/// it was ever read.
pub fn get_sync_state(cache: &Cache, repo: &str) -> (state: Option<(String, i64)>)
    requires
        cache.well_formed(),
    ensures
        match state {
            Some((last_sync, issue_count)) => cache@.sync_states.contains(
                SyncStateView { repo: repo@, last_sync: last_sync@, issue_count },
            ),
            None => forall|i: int|
                0 <= i < cache@.sync_states.len() ==> (#[trigger] cache@.sync_states[i]).repo
                    != repo@,
        },
{
    proof {
        cache.lemma_view();
    }
    let wanted = |s: &SyncState| -> (b: bool)
        ensures
            b == (s@.repo == repo@),
        {
            same_text(s.repo.as_str(), repo)
        };
    let found = find_row(&cache.sync_states, wanted, Ghost(|s: SyncStateView| s.repo == repo@));
    match found {
        Some(at) => {
            let row = &cache.sync_states[at];
            proof {
                assert(cache@.sync_states[at as int] == row@);
            }
            Some((row.last_sync.clone(), row.issue_count))
        },
        None => None,
    }
}

/// Replaces the issues of `repo` by `issues` and notes the time and the
/// count, all or nothing. Issues with one number twice are refused and leave
/// the cache as it was.
pub fn save_issues(cache: &mut Cache, repo: &str, issues: &[Issue], now: &str) -> (r: Result<
    (),
    CacheError,
>)
    requires
        old(cache).well_formed(),
        issues@.len() <= i64::MAX,
    ensures
        final(cache).well_formed(),
        match r {
            Ok(()) => {
                &&& distinct_numbers(views(issues@))
                &&& final(cache)@ == with_issues(old(cache)@, repo@, views(issues@), now@)
            },
            Err(e) => {
                &&& e == CacheError::DuplicateIssue
                &&& !distinct_numbers(views(issues@))
                &&& final(cache)@ == old(cache)@
            },
        },
{
    proof {
        cache.lemma_view();
    }
    if has_duplicate_numbers(issues) {
        return Err(CacheError::DuplicateIssue);
    }
    let other = |r: &IssueRow| -> (b: bool)
        ensures
            b == (r@.remote != repo@),
        {
            !same_text(r.remote.as_str(), repo)
        };
    let mut rows = select_rows(&cache.issues, other, Ghost(|r: IssueRowView| r.remote != repo@));
    let ghost kept = views(rows@);
    let ghost fresh = tagged(repo@, views(issues@));
    let mut i: usize = 0;
    while i < issues.len()
        invariant
            i <= issues.len(),
            fresh == tagged(repo@, views(issues@)),
            views(rows@) == kept + fresh.take(i as int),
        decreases issues.len() - i,
    {
        let ghost before = rows@;
        let row = IssueRow { remote: repo.to_owned(), issue: issues[i].copy() };
        rows.push(row);
        proof {
            assert(views(rows@) =~= views(before).push(row@));
            assert(fresh.take(i + 1) =~= fresh.take(i as int).push(fresh[i as int]));
            assert(views(rows@) =~= kept + fresh.take(i + 1));
        }
        i += 1;
    }
    proof {
        assert(fresh.take(i as int) =~= fresh);
    }
    let other_state = |s: &SyncState| -> (b: bool)
        ensures
            b == (s@.repo != repo@),
        {
            !same_text(s.repo.as_str(), repo)
        };
    let mut states = select_rows(
        &cache.sync_states,
        other_state,
        Ghost(|s: SyncStateView| s.repo != repo@),
    );
    let ghost rest = views(states@);
    let state = SyncState {
        repo: repo.to_owned(),
        last_sync: now.to_owned(),
        issue_count: issues.len() as i64,
    };
    states.push(state);
    proof {
        assert(views(states@) =~= rest.push(state@));
        lemma_with_issues_wf(old(cache)@, repo@, views(issues@), now@);
    }
    cache.issues = rows;
    cache.sync_states = states;
    proof {
        cache.lemma_view();
    }
    Ok(())
}

} // verus!
