//! What is known of each forge's request budget, and whether a forge is to be
//! left alone for now.

use vstd::prelude::*;
use vstd::seq_lib::*;
use crate::cache::{Cache, CacheView, RateLimitState, RateLimitStateView};
use crate::rows::{
    find_row, lemma_filter_pairwise, lemma_kept_row, lemma_pairwise_push, lemma_the_row_at,
    select_rows, the_row, views,
};
use crate::text::{opt_str, same_text};

verus! {

/// The rate-limit state of a forge, where one was ever noted.
pub open spec fn limit_of(rows: Seq<RateLimitStateView>, forge_type: Seq<char>) -> Option<
    RateLimitStateView,
> {
    the_row(rows, |s: RateLimitStateView| s.forge_type == forge_type)
}

/// Whether a forge is to be left alone at the time `now`: it has a reset
/// time, and that time has not come.
pub open spec fn cooling_down(rows: Seq<RateLimitStateView>, forge_type: Seq<char>, now: i64) -> bool {
    match limit_of(rows, forge_type) {
        Some(s) => match s.reset_at {
            Some(reset_at) => now < reset_at,
            None => false,
        },
        None => false,
    }
}

/// The states with the one of `state.forge_type` replaced by `state`.
pub open spec fn with_limit(rows: Seq<RateLimitStateView>, state: RateLimitStateView) -> Seq<
    RateLimitStateView,
> {
    rows.filter(|s: RateLimitStateView| s.forge_type != state.forge_type).push(state)
}

/// The state of a forge after it signalled a backoff: the reset time and the
/// error are the new ones, the budget is what was known before.
pub open spec fn after_signal(
    rows: Seq<RateLimitStateView>,
    forge_type: Seq<char>,
    reset_at: Option<i64>,
    last_error: Option<Seq<char>>,
    now: Seq<char>,
) -> RateLimitStateView {
    RateLimitStateView {
        forge_type,
        limit: match limit_of(rows, forge_type) {
            Some(s) => s.limit,
            None => None,
        },
        remaining: match limit_of(rows, forge_type) {
            Some(s) => s.remaining,
            None => None,
        },
        reset_at,
        last_error,
        updated_at: now,
    }
}

/// The state of a forge after it reported its budget: the budget and the
/// reset time are the new ones, and no error stands.
pub open spec fn after_budget(
    forge_type: Seq<char>,
    limit: Option<u32>,
    remaining: u32,
    reset_at: i64,
    now: Seq<char>,
) -> RateLimitStateView {
    RateLimitStateView {
        forge_type,
        limit,
        remaining: Some(remaining),
        reset_at: Some(reset_at),
        last_error: None,
        updated_at: now,
    }
}

/// What an optional state holds.
pub open spec fn opt_limit(state: Option<RateLimitState>) -> Option<RateLimitStateView> {
    match state {
        Some(s) => Some(s@),
        None => None,
    }
}

/// The rate-limit state of `forge_type`, where one was ever noted.
pub fn get_rate_limit_state(cache: &Cache, forge_type: &str) -> (state: Option<RateLimitState>)
    requires
        cache.well_formed(),
    ensures
        opt_limit(state) == limit_of(cache@.rate_limits, forge_type@),
        state matches Some(s) ==> s@.forge_type == forge_type@ && cache@.rate_limits.contains(s@),
        state is None ==> forall|i: int|
            0 <= i < cache@.rate_limits.len() ==> (#[trigger] cache@.rate_limits[i]).forge_type
                != forge_type@,
{
    proof {
        cache.lemma_view();
    }
    let ghost this = |s: RateLimitStateView| s.forge_type == forge_type@;
    let is_this = |s: &RateLimitState| -> (b: bool)
        ensures
            b == (s@.forge_type == forge_type@),
        {
            same_text(s.forge_type.as_str(), forge_type)
        };
    let found = find_row(&cache.rate_limits, is_this, Ghost(this));
    match found {
        Some(at) => {
            proof {
                lemma_the_row_at(
                    cache@.rate_limits,
                    this,
                    |a: RateLimitStateView, b: RateLimitStateView| a.forge_type != b.forge_type,
                    at as int,
                );
            }
            Some(cache.rate_limits[at].copy())
        },
        None => None,
    }
}

/// Whether `forge_type` is to be left alone at `now`, in seconds since the
/// Unix epoch.
pub fn is_rate_limited(cache: &Cache, forge_type: &str, now: i64) -> (b: bool)
    requires
        cache.well_formed(),
    ensures
        b == cooling_down(cache@.rate_limits, forge_type@, now),
{
    match get_rate_limit_state(cache, forge_type) {
        Some(state) => match state.reset_at {
            Some(reset_at) => now < reset_at,
            None => false,
        },
        None => false,
    }
}

/// Replaces the state of one forge.
fn put_limit(cache: &mut Cache, state: RateLimitState)
    requires
        old(cache).well_formed(),
    ensures
        final(cache).well_formed(),
        final(cache)@ == (CacheView {
            rate_limits: with_limit(old(cache)@.rate_limits, state@),
            ..old(cache)@
        }),
{
    proof {
        cache.lemma_view();
    }
    let ghost rows = cache@.rate_limits;
    let ghost apart = |a: RateLimitStateView, b: RateLimitStateView| a.forge_type != b.forge_type;
    let ghost others = |s: RateLimitStateView| s.forge_type != state@.forge_type;
    let is_other = |s: &RateLimitState| -> (b: bool)
        ensures
            b == (s@.forge_type != state@.forge_type),
        {
            !same_text(s.forge_type.as_str(), state.forge_type.as_str())
        };
    let mut kept = select_rows(&cache.rate_limits, is_other, Ghost(others));
    let ghost rest = views(kept@);
    let ghost added = state@;
    kept.push(state);
    proof {
        assert(views(kept@) =~= rest.push(added));
        lemma_filter_pairwise(rows, others, apart);
        assert forall|i: int| 0 <= i < rest.len() implies #[trigger] apart(rest[i], added) by {
            lemma_kept_row(rows, others, i);
        }
        lemma_pairwise_push(rest, added, apart);
    }
    cache.rate_limits = kept;
    proof {
        cache.lemma_view();
    }
}

/// Notes that `forge_type` signalled a backoff: until `reset_at` it is to be
/// left alone, and `last_error` says why.
pub fn set_rate_limit_state(
    cache: &mut Cache,
    forge_type: &str,
    reset_at: Option<i64>,
    last_error: Option<&str>,
    now: &str,
)
    requires
        old(cache).well_formed(),
    ensures
        final(cache).well_formed(),
        final(cache)@ == (CacheView {
            rate_limits: with_limit(
                old(cache)@.rate_limits,
                after_signal(
                    old(cache)@.rate_limits,
                    forge_type@,
                    reset_at,
                    opt_str(last_error),
                    now@,
                ),
            ),
            ..old(cache)@
        }),
{
    let known = get_rate_limit_state(cache, forge_type);
    let (limit, remaining) = match known {
        Some(s) => (s.limit, s.remaining),
        None => (None, None),
    };
    let state = RateLimitState {
        forge_type: forge_type.to_owned(),
        limit,
        remaining,
        reset_at,
        last_error: match last_error {
            Some(e) => Some(e.to_owned()),
            None => None,
        },
        updated_at: now.to_owned(),
    };
    put_limit(cache, state)
}

/// Notes the budget that `forge_type` reported after a read.
pub fn update_rate_limit_budget(
    cache: &mut Cache,
    forge_type: &str,
    limit: Option<u32>,
    remaining: u32,
    reset_at: i64,
    now: &str,
)
    requires
        old(cache).well_formed(),
    ensures
        final(cache).well_formed(),
        final(cache)@ == (CacheView {
            rate_limits: with_limit(
                old(cache)@.rate_limits,
                after_budget(forge_type@, limit, remaining, reset_at, now@),
            ),
            ..old(cache)@
        }),
{
    let state = RateLimitState {
        forge_type: forge_type.to_owned(),
        limit,
        remaining: Some(remaining),
        reset_at: Some(reset_at),
        last_error: None,
        updated_at: now.to_owned(),
    };
    put_limit(cache, state)
}

} // verus!
