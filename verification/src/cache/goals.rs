//! The goal table: replaced whole for one remote container at a time, or one
//! goal at a time when a forge hands back a goal it has just made.

use vstd::prelude::*;
use vstd::seq_lib::*;
use crate::cache::{Cache, CacheError, CacheView, GoalRow, GoalRowView, cache_wf};
use crate::forge::{Goal, GoalState, GoalView};
use crate::rows::{
    all_apart, find_row, lemma_filter_pairwise, lemma_kept_row, lemma_pairwise_add,
    lemma_pairwise_push, pairwise, select_rows, views,
};
use crate::text::same_text;

verus! {

/// Whether a goal passes the state filter, where one is set.
pub open spec fn goal_matches(goal: GoalView, state: Option<GoalState>) -> bool {
    state matches Some(s) ==> goal.state == s
}

/// The rows of `remote` that pass the state filter, in table order.
pub open spec fn goals_of(rows: Seq<GoalRowView>, remote: Seq<char>, state: Option<GoalState>) -> Seq<
    GoalRowView,
> {
    rows.filter(|r: GoalRowView| r.remote == remote && goal_matches(r.goal, state))
}

/// The goals that the rows carry.
pub open spec fn carried_goals(rows: Seq<GoalRowView>) -> Seq<GoalView> {
    rows.map_values(|r: GoalRowView| r.goal)
}

/// No two goals of the list have the same id.
pub open spec fn distinct_goal_ids(goals: Seq<GoalView>) -> bool {
    pairwise(goals, |a: GoalView, b: GoalView| a.id != b.id)
}

/// The rows that stand for the goals `goals` of `remote`.
pub open spec fn tagged_goals(remote: Seq<char>, goals: Seq<GoalView>) -> Seq<GoalRowView> {
    goals.map_values(|x: GoalView| GoalRowView { remote, goal: x })
}

/// The store after the goals of `remote` were replaced by `goals`.
pub open spec fn with_goals(c: CacheView, remote: Seq<char>, goals: Seq<GoalView>) -> CacheView {
    CacheView {
        goals: c.goals.filter(|r: GoalRowView| r.remote != remote) + tagged_goals(remote, goals),
        ..c
    }
}

/// The store after one goal of `remote` was saved: the goal with its id is
/// replaced, every other goal stays.
pub open spec fn with_goal(c: CacheView, remote: Seq<char>, goal: GoalView) -> CacheView {
    CacheView {
        goals: c.goals.filter(|r: GoalRowView| !(r.remote == remote && r.goal.id == goal.id)).push(
            GoalRowView { remote, goal },
        ),
        ..c
    }
}

/// Replacing the goals of a remote container keeps the invariant of the
/// store, as long as the new goals have distinct ids.
pub proof fn lemma_with_goals_wf(c: CacheView, remote: Seq<char>, goals: Seq<GoalView>)
    requires
        cache_wf(c),
        distinct_goal_ids(goals),
    ensures
        cache_wf(with_goals(c, remote, goals)),
{
    let unique = |a: GoalRowView, b: GoalRowView| !(a.remote == b.remote && a.goal.id == b.goal.id);
    let others = |r: GoalRowView| r.remote != remote;
    let kept = c.goals.filter(others);
    let fresh = tagged_goals(remote, goals);
    lemma_filter_pairwise(c.goals, others, unique);
    assert forall|i: int, j: int| 0 <= i < j < fresh.len() implies #[trigger] unique(
        fresh[i],
        fresh[j],
    ) by {
        let differ = |a: GoalView, b: GoalView| a.id != b.id;
        assert(differ(goals[i], goals[j]));
    }
    assert forall|i: int, j: int| 0 <= i < kept.len() && 0 <= j < fresh.len() implies #[trigger] unique(
        kept[i],
        fresh[j],
    ) by {
        lemma_kept_row(c.goals, others, i);
    }
    lemma_pairwise_add(kept, fresh, unique);
}

/// Saving one goal keeps the invariant of the store.
pub proof fn lemma_with_goal_wf(c: CacheView, remote: Seq<char>, goal: GoalView)
    requires
        cache_wf(c),
    ensures
        cache_wf(with_goal(c, remote, goal)),
{
    let unique = |a: GoalRowView, b: GoalRowView| !(a.remote == b.remote && a.goal.id == b.goal.id);
    let others = |r: GoalRowView| !(r.remote == remote && r.goal.id == goal.id);
    let kept = c.goals.filter(others);
    let row = GoalRowView { remote, goal };
    lemma_filter_pairwise(c.goals, others, unique);
    assert forall|i: int| 0 <= i < kept.len() implies #[trigger] unique(kept[i], row) by {
        lemma_kept_row(c.goals, others, i);
    }
    lemma_pairwise_push(kept, row, unique);
}

/// The goals that the rows carry, copied.
fn goals_carried(rows: &Vec<GoalRow>) -> (goals: Vec<Goal>)
    ensures
        views(goals@) == carried_goals(views(rows@)),
{
    let mut goals: Vec<Goal> = Vec::new();
    let mut i: usize = 0;
    while i < rows.len()
        invariant
            i <= rows.len(),
            views(goals@) == carried_goals(views(rows@)).take(i as int),
        decreases rows.len() - i,
    {
        let ghost before = goals@;
        let g = rows[i].goal.copy();
        goals.push(g);
        proof {
            assert(views(goals@) =~= views(before).push(g@));
            assert(carried_goals(views(rows@)).take(i + 1) =~= carried_goals(views(rows@)).take(
                i as int,
            ).push(g@));
        }
        i += 1;
    }
    proof {
        assert(carried_goals(views(rows@)).take(i as int) =~= carried_goals(views(rows@)));
    }
    goals
}

/// Replaces the goals of `repo` by `goals`, all or nothing. Goals with one
/// id twice are refused and leave the cache as it was.
pub fn save_goals(cache: &mut Cache, repo: &str, goals: &[Goal]) -> (r: Result<(), CacheError>)
    requires
        old(cache).well_formed(),
    ensures
        final(cache).well_formed(),
        match r {
            Ok(()) => {
                &&& distinct_goal_ids(views(goals@))
                &&& final(cache)@ == with_goals(old(cache)@, repo@, views(goals@))
            },
            Err(e) => {
                &&& e == CacheError::DuplicateGoal
                &&& !distinct_goal_ids(views(goals@))
                &&& final(cache)@ == old(cache)@
            },
        },
{
    proof {
        cache.lemma_view();
    }
    let differ = |a: &Goal, b: &Goal| -> (d: bool)
        ensures
            d == (a@.id != b@.id),
        {
            !same_text(a.id.as_str(), b.id.as_str())
        };
    if !all_apart(goals, differ, Ghost(|a: GoalView, b: GoalView| a.id != b.id)) {
        return Err(CacheError::DuplicateGoal);
    }
    let other = |r: &GoalRow| -> (b: bool)
        ensures
            b == (r@.remote != repo@),
        {
            !same_text(r.remote.as_str(), repo)
        };
    let mut rows = select_rows(&cache.goals, other, Ghost(|r: GoalRowView| r.remote != repo@));
    let ghost kept = views(rows@);
    let ghost fresh = tagged_goals(repo@, views(goals@));
    let mut i: usize = 0;
    while i < goals.len()
        invariant
            i <= goals.len(),
            fresh == tagged_goals(repo@, views(goals@)),
            views(rows@) == kept + fresh.take(i as int),
        decreases goals.len() - i,
    {
        let ghost before = rows@;
        let row = GoalRow { remote: repo.to_owned(), goal: goals[i].copy() };
        rows.push(row);
        proof {
            assert(views(rows@) =~= views(before).push(row@));
            assert(fresh.take(i + 1) =~= fresh.take(i as int).push(fresh[i as int]));
            assert(views(rows@) =~= kept + fresh.take(i + 1));
        }
        i += 1;
    }
    proof {
        assert(fresh.take(i as int) =~= fresh);
        lemma_with_goals_wf(old(cache)@, repo@, views(goals@));
    }
    cache.goals = rows;
    proof {
        cache.lemma_view();
    }
    Ok(())
}

/// Saves one goal of `repo`: it takes the place of the goal with its id, or
/// is added where there is none.
pub fn save_goal(cache: &mut Cache, repo: &str, goal: &Goal)
    requires
        old(cache).well_formed(),
    ensures
        final(cache).well_formed(),
        final(cache)@ == with_goal(old(cache)@, repo@, goal@),
{
    proof {
        cache.lemma_view();
        lemma_with_goal_wf(cache@, repo@, goal@);
    }
    let other = |r: &GoalRow| -> (b: bool)
        ensures
            b == !(r@.remote == repo@ && r@.goal.id == goal@.id),
        {
            !(same_text(r.remote.as_str(), repo) && same_text(r.goal.id.as_str(), goal.id.as_str()))
        };
    let mut rows = select_rows(
        &cache.goals,
        other,
        Ghost(|r: GoalRowView| !(r.remote == repo@ && r.goal.id == goal@.id)),
    );
    let ghost kept = views(rows@);
    let row = GoalRow { remote: repo.to_owned(), goal: goal.copy() };
    rows.push(row);
    proof {
        assert(views(rows@) =~= kept.push(row@));
    }
    cache.goals = rows;
    proof {
        cache.lemma_view();
    }
}

/// The goals of `repo` in the given state, or all of them where no state is
/// given, in table order.
pub fn load_goals(cache: &Cache, repo: &str, state_filter: Option<GoalState>) -> (goals: Vec<Goal>)
    requires
        cache.well_formed(),
    ensures
        views(goals@) == carried_goals(goals_of(cache@.goals, repo@, state_filter)),
{
    proof {
        cache.lemma_view();
    }
    let mine = |r: &GoalRow| -> (b: bool)
        ensures
            b == (r@.remote == repo@ && goal_matches(r@.goal, state_filter)),
        {
            let fits = match state_filter {
                Some(s) => r.goal.state == s,
                None => true,
            };
            fits && same_text(r.remote.as_str(), repo)
        };
    let rows = select_rows(
        &cache.goals,
        mine,
        Ghost(|r: GoalRowView| r.remote == repo@ && goal_matches(r.goal, state_filter)),
    );
    goals_carried(&rows)
}

/// The first goal of `repo`, in table order, that has the name `name`.
pub fn load_goal_by_name(cache: &Cache, repo: &str, name: &str) -> (goal: Option<Goal>)
    requires
        cache.well_formed(),
    ensures
        match goal {
            Some(g) => exists|at: int|
                {
                    &&& 0 <= at < cache@.goals.len()
                    &&& #[trigger] cache@.goals[at] == (GoalRowView { remote: repo@, goal: g@ })
                    &&& g@.name == name@
                    &&& forall|j: int|
                        0 <= j < at ==> !((#[trigger] cache@.goals[j]).remote == repo@
                            && cache@.goals[j].goal.name == name@)
                },
            None => forall|j: int|
                0 <= j < cache@.goals.len() ==> !((#[trigger] cache@.goals[j]).remote == repo@
                    && cache@.goals[j].goal.name == name@),
        },
{
    proof {
        cache.lemma_view();
    }
    let wanted = |r: &GoalRow| -> (b: bool)
        ensures
            b == (r@.remote == repo@ && r@.goal.name == name@),
        {
            same_text(r.remote.as_str(), repo) && same_text(r.goal.name.as_str(), name)
        };
    let found = find_row(
        &cache.goals,
        wanted,
        Ghost(|r: GoalRowView| r.remote == repo@ && r.goal.name == name@),
    );
    match found {
        Some(at) => {
            let g = cache.goals[at].goal.copy();
            proof {
                assert(cache@.goals[at as int] == (GoalRowView { remote: repo@, goal: g@ }));
            }
            Some(g)
        },
        None => None,
    }
}

/// How many goals `repo` has.
pub fn count_goals(cache: &Cache, repo: &str) -> (n: usize)
    requires
        cache.well_formed(),
    ensures
        n == goals_of(cache@.goals, repo@, None).len(),
{
    let goals = load_goals(cache, repo, None);
    proof {
        assert(views(goals@).len() == goals@.len());
        assert(carried_goals(goals_of(cache@.goals, repo@, None)).len() == goals_of(
            cache@.goals,
            repo@,
            None,
        ).len());
    }
    goals.len()
}

} // verus!
