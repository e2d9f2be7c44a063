//! The rate-limit governor: how long to wait after a failure, when a response
//! means "slow down", and which sources sit out a cycle.

use vstd::prelude::*;
use vstd::string::StringExecFns;
use crate::rows::{
    find_row, lemma_filter_pairwise, lemma_kept_row, lemma_pairwise_push, lemma_the_row_at, pairwise,
    select_rows, the_row, views, Row,
};
use crate::text::{
    chars_of, contains, decimal_digits, decimal_of, has_infix, opt_text, parse_decimal,
    push_decimal, same_text,
};

verus! {

/// Seconds between two reconciliation cycles, before jitter.
pub const SYNC_INTERVAL_SECS: u64 = 30;

/// The longest backoff of one source, in seconds, before jitter.
pub const MAX_BACKOFF_SECS: u64 = 3600;

/// How often one page request is tried before its error is passed on.
pub const MAX_RETRIES: u32 = 3;

/// How many requests may be in flight at once.
pub const MAX_CONCURRENT_REQUESTS: usize = 80;

/// The least time between two writes to one forge, in milliseconds.
pub const WRITE_SPACING_MILLIS: u64 = 1000;

/// Seconds a forge is left alone when it throttles and gives no reset time.
pub const FALLBACK_COOLDOWN_SECS: i64 = 60;

/// Two to the power `n`.
pub open spec fn two_to(n: nat) -> nat
    decreases n,
{
    if n == 0 {
        1
    } else {
        2 * two_to((n - 1) as nat)
    }
}

/// The backoff before jitter, in seconds: the interval doubled once per
/// failure, at most six times, and never above the maximum.
pub open spec fn backoff_base(failures: nat) -> nat {
    let doublings = if failures < 6 {
        failures
    } else {
        6
    };
    let grown = SYNC_INTERVAL_SECS as nat * two_to(doublings);
    if grown < MAX_BACKOFF_SECS as nat {
        grown
    } else {
        MAX_BACKOFF_SECS as nat
    }
}

/// A duration of `secs` seconds stretched by a factor between 0.75 and 1.25
/// that grows evenly with `roll`, in milliseconds, and at least one second.
pub open spec fn jittered_millis(secs: nat, roll: u32) -> nat {
    let raw = secs * 750 + (secs * 500 * roll as nat) / 0x1_0000_0000;
    if raw < 1000 {
        1000
    } else {
        raw
    }
}

/// The backoff after `failures` failures for a given roll, in milliseconds.
pub open spec fn backoff_millis(failures: nat, roll: u32) -> nat {
    jittered_millis(backoff_base(failures), roll)
}

/// The base never leaves the range from one interval to the maximum.
pub proof fn lemma_backoff_base_range(failures: nat)
    ensures
        SYNC_INTERVAL_SECS <= backoff_base(failures) <= MAX_BACKOFF_SECS,
        failures <= 6 ==> backoff_base(failures) == 30 * two_to(failures),
        failures >= 6 ==> backoff_base(failures) == 1920,
{
    reveal_with_fuel(two_to, 8);
}

/// Whatever the roll, the jittered time is within a quarter of the plain one.
pub proof fn lemma_jitter_range(secs: nat, roll: u32)
    requires
        secs >= 2,
    ensures
        750 * secs <= jittered_millis(secs, roll) <= 1250 * secs,
        jittered_millis(secs, roll) >= 1000,
{
    let span = secs * 500 * roll as nat;
    assert(span <= secs * 500 * 0x1_0000_0000) by (nonlinear_arith)
        requires
            span == secs * 500 * roll as nat,
            roll <= 0xFFFF_FFFF,
    ;
    assert(span / 0x1_0000_0000 <= secs * 500) by (nonlinear_arith)
        requires
            span <= secs * 500 * 0x1_0000_0000,
    ;
}

/// For every failure count and every roll the backoff lies between three
/// quarters and five quarters of `min(30 * 2^min(n, 6), 3600)` seconds, and is
/// never under one second.
pub proof fn lemma_backoff_bounds(failures: nat, roll: u32)
    ensures
        750 * backoff_base(failures) <= backoff_millis(failures, roll) <= 1250 * backoff_base(
            failures,
        ),
        backoff_millis(failures, roll) >= 1000,
{
    lemma_backoff_base_range(failures);
    lemma_jitter_range(backoff_base(failures), roll);
}

/// The backoff before jitter, in seconds.
pub fn base_backoff_secs(failures: u32) -> (secs: u64)
    ensures
        secs == backoff_base(failures as nat),
{
    let doublings: u32 = if failures < 6 {
        failures
    } else {
        6
    };
    let mut grown: u64 = SYNC_INTERVAL_SECS;
    let mut i: u32 = 0;
    while i < doublings
        invariant
            i <= doublings <= 6,
            grown == SYNC_INTERVAL_SECS * two_to(i as nat),
            grown <= 30 * 64,
        decreases doublings - i,
    {
        proof {
            reveal_with_fuel(two_to, 8);
        }
        grown = grown * 2;
        i += 1;
    }
    if grown < MAX_BACKOFF_SECS {
        grown
    } else {
        MAX_BACKOFF_SECS
    }
}

/// Stretches `secs` seconds by the factor that `roll` picks.
pub fn jitter(secs: u64, roll: u32) -> (millis: u64)
    requires
        secs <= MAX_BACKOFF_SECS,
    ensures
        millis == jittered_millis(secs as nat, roll),
{
    let scale: u64 = secs * 500;
    let wide: u64 = roll as u64;
    assert(scale * wide <= 1_800_000 * 0xFFFF_FFFF) by (nonlinear_arith)
        requires
            scale <= 1_800_000,
            wide <= 0xFFFF_FFFF,
    ;
    let span: u64 = scale * wide;
    let raw: u64 = secs * 750 + span / 0x1_0000_0000;
    if raw < 1000 {
        1000
    } else {
        raw
    }
}

/// The backoff after `failures` failures for the roll `roll`, in milliseconds.
pub fn backoff_for_roll(failures: u32, roll: u32) -> (millis: u64)
    ensures
        millis == backoff_millis(failures as nat, roll),
        750 * backoff_base(failures as nat) <= millis <= 1250 * backoff_base(failures as nat),
        millis >= 1000,
{
    proof {
        lemma_backoff_bounds(failures as nat, roll);
        lemma_backoff_base_range(failures as nat);
    }
    jitter(base_backoff_secs(failures), roll)
}

/// `rand::random` for `u32`: a number drawn anew on every call. Nothing is
/// claimed of it.
#[verifier::external_body]
pub(crate) fn random_roll() -> (roll: u32) {
    rand::random::<u32>()
}

/// How long a source waits after `failures` consecutive failures, in
/// milliseconds: the doubled interval with a jitter of a quarter either way.
pub fn calculate_backoff(failures: u32) -> (millis: u64)
    ensures
        exists|roll: u32| millis == backoff_millis(failures as nat, roll),
        750 * backoff_base(failures as nat) <= millis <= 1250 * backoff_base(failures as nat),
        millis >= 1000,
{
    let roll = random_roll();
    backoff_for_roll(failures, roll)
}

/// The pause between two cycles for a given roll, in milliseconds: the
/// interval stretched by a factor between 0.9 and 1.1.
pub open spec fn cycle_pause_millis(roll: u32) -> nat {
    SYNC_INTERVAL_SECS as nat * 900 + (SYNC_INTERVAL_SECS as nat * 200 * roll as nat)
        / 0x1_0000_0000
}

/// The pause between two cycles for the roll `roll`.
pub fn cycle_pause_for_roll(roll: u32) -> (millis: u64)
    ensures
        millis == cycle_pause_millis(roll),
        27000 <= millis <= 33000,
{
    let scale: u64 = SYNC_INTERVAL_SECS * 200;
    let wide: u64 = roll as u64;
    assert(scale * wide <= 6000 * 0xFFFF_FFFF) by (nonlinear_arith)
        requires
            scale == 6000,
            wide <= 0xFFFF_FFFF,
    ;
    let span: u64 = scale * wide;
    SYNC_INTERVAL_SECS * 900 + span / 0x1_0000_0000
}

/// The pause before the next cycle, in milliseconds, jittered by a tenth
/// either way so that many machines do not reconcile in step.
pub fn cycle_pause() -> (millis: u64)
    ensures
        exists|roll: u32| millis == cycle_pause_millis(roll),
        27000 <= millis <= 33000,
{
    let roll = random_roll();
    cycle_pause_for_roll(roll)
}

/// Whether an answer tells the caller to slow down: the status is 403 or
/// 429 and the body speaks of a rate limit.
pub open spec fn rate_limit_signal(status: u16, body: Seq<char>) -> bool {
    (status == 403 || status == 429) && (has_infix(body, "rate limit"@) || has_infix(
        body,
        "secondary rate limit"@,
    ))
}

/// Whether the answer with the given status and body tells the caller to
/// slow down.
pub fn is_rate_limited(status: u16, body: &str) -> (b: bool)
    ensures
        b == rate_limit_signal(status, body@),
{
    (status == 403 || status == 429) && (contains(body, "rate limit") || contains(
        body,
        "secondary rate limit",
    ))
}

/// How many seconds to wait before the next try: what the `Retry-After`
/// header says where it is a number, else two to the power of the attempt.
pub open spec fn retry_delay(retry_after: Option<Seq<char>>, attempt: u32) -> nat {
    match retry_after {
        Some(text) => match decimal_of(text, u64::MAX) {
            Some(secs) => secs as nat,
            None => two_to(attempt as nat),
        },
        None => two_to(attempt as nat),
    }
}

/// Powers of two grow with the exponent.
pub proof fn lemma_two_to_grows(a: nat, b: nat)
    requires
        a <= b,
    ensures
        two_to(a) <= two_to(b),
    decreases b - a,
{
    if a < b {
        lemma_two_to_grows(a + 1, b);
    }
}

/// Two to the power `exponent`.
pub fn power_of_two(exponent: u32) -> (p: u64)
    requires
        exponent < 64,
    ensures
        p == two_to(exponent as nat),
{
    let mut p: u64 = 1;
    let mut i: u32 = 0;
    while i < exponent
        invariant
            i <= exponent < 64,
            p == two_to(i as nat),
        decreases exponent - i,
    {
        proof {
            lemma_two_to_grows(i as nat, 62);
            assert(two_to(62) == 0x4000_0000_0000_0000) by {
                reveal_with_fuel(two_to, 63);
            }
        }
        p = p * 2;
        i += 1;
    }
    p
}

/// How many seconds to wait before try number `attempt + 1`, given what the
/// `Retry-After` header of the answer holds, if it has one.
pub fn get_retry_delay(retry_after: Option<&str>, attempt: u32) -> (secs: u64)
    requires
        attempt < 64,
    ensures
        secs == retry_delay(crate::text::opt_str(retry_after), attempt),
{
    match retry_after {
        Some(text) => {
            let chars = chars_of(text);
            match parse_decimal(&chars, u64::MAX) {
                Some(secs) => secs,
                None => power_of_two(attempt),
            }
        },
        None => power_of_two(attempt),
    }
}

/// What came of one try to fetch a page.
#[derive(Debug)]
pub enum FetchOutcome {
    /// The request got no answer; the message says why.
    NoAnswer { message: String },
    /// The answer was a success and its body was read.
    Page,
    /// The answer was a success, but its body could not be read.
    BadBody { message: String },
    /// The answer was no success.
    Refused { status: u16, retry_after: Option<String>, body: String },
}

/// What a fetch outcome holds.
pub enum FetchOutcomeView {
    NoAnswer { message: Seq<char> },
    Page,
    BadBody { message: Seq<char> },
    Refused { status: u16, retry_after: Option<Seq<char>>, body: Seq<char> },
}

impl View for FetchOutcome {
    type V = FetchOutcomeView;

    open spec fn view(&self) -> FetchOutcomeView {
        match self {
            FetchOutcome::NoAnswer { message } => FetchOutcomeView::NoAnswer { message: message@ },
            FetchOutcome::Page => FetchOutcomeView::Page,
            FetchOutcome::BadBody { message } => FetchOutcomeView::BadBody { message: message@ },
            FetchOutcome::Refused { status, retry_after, body } => FetchOutcomeView::Refused {
                status: *status,
                retry_after: opt_text(*retry_after),
                body: body@,
            },
        }
    }
}

/// What to do after one try to fetch a page.
#[derive(Debug)]
pub enum RetryStep {
    /// The page is there.
    Finished,
    /// Wait so many seconds, then try again.
    Wait { secs: u64 },
    /// Give up with this error.
    GiveUp { message: String },
}

/// What a retry step holds.
pub enum RetryStepView {
    Finished,
    Wait { secs: u64 },
    GiveUp { message: Seq<char> },
}

impl View for RetryStep {
    type V = RetryStepView;

    open spec fn view(&self) -> RetryStepView {
        match self {
            RetryStep::Finished => RetryStepView::Finished,
            RetryStep::Wait { secs } => RetryStepView::Wait { secs: *secs },
            RetryStep::GiveUp { message } => RetryStepView::GiveUp { message: message@ },
        }
    }
}

/// The error of a refused request, as it is passed on.
pub open spec fn api_error_text(status: u16, body: Seq<char>) -> Seq<char> {
    "GitHub API error "@ + decimal_digits(status as nat) + ": "@ + body
}

/// The step after try number `attempt + 1` ended in `outcome`. Before the
/// last try, a request without answer and an unreadable body are tried again
/// after two to the power of the attempt seconds, and a rate-limit signal
/// after what the answer asks for. Everything else, and every failure of the
/// last try, ends the fetch with its error.
pub open spec fn fetch_step(attempt: u32, outcome: FetchOutcomeView) -> RetryStepView {
    match outcome {
        FetchOutcomeView::Page => RetryStepView::Finished,
        FetchOutcomeView::NoAnswer { message } => if attempt + 1 < MAX_RETRIES {
            RetryStepView::Wait { secs: two_to(attempt as nat) as u64 }
        } else {
            RetryStepView::GiveUp { message }
        },
        FetchOutcomeView::BadBody { message } => if attempt + 1 < MAX_RETRIES {
            RetryStepView::Wait { secs: two_to(attempt as nat) as u64 }
        } else {
            RetryStepView::GiveUp { message }
        },
        FetchOutcomeView::Refused { status, retry_after, body } => if rate_limit_signal(
            status,
            body,
        ) && attempt + 1 < MAX_RETRIES {
            RetryStepView::Wait { secs: retry_delay(retry_after, attempt) as u64 }
        } else {
            RetryStepView::GiveUp { message: api_error_text(status, body) }
        },
    }
}

/// The error text for a refused request.
pub fn api_error(status: u16, body: &str) -> (text: String)
    ensures
        text@ == api_error_text(status, body@),
{
    let mut text = String::from_str("GitHub API error ");
    push_decimal(&mut text, status as u64);
    text.append(": ");
    text.append(body);
    text
}

/// What to do after try number `attempt + 1` of a page fetch ended in
/// `outcome`.
pub fn next_fetch_step(attempt: u32, outcome: &FetchOutcome) -> (step: RetryStep)
    requires
        attempt < MAX_RETRIES,
    ensures
        step@ == fetch_step(attempt, outcome@),
{
    let may_retry = attempt + 1 < MAX_RETRIES;
    match outcome {
        FetchOutcome::Page => RetryStep::Finished,
        FetchOutcome::NoAnswer { message } => {
            if may_retry {
                RetryStep::Wait { secs: power_of_two(attempt) }
            } else {
                RetryStep::GiveUp { message: message.clone() }
            }
        },
        FetchOutcome::BadBody { message } => {
            if may_retry {
                RetryStep::Wait { secs: power_of_two(attempt) }
            } else {
                RetryStep::GiveUp { message: message.clone() }
            }
        },
        FetchOutcome::Refused { status, retry_after, body } => {
            if is_rate_limited(*status, body.as_str()) && may_retry {
                let header = match retry_after {
                    Some(text) => Some(text.as_str()),
                    None => None,
                };
                RetryStep::Wait { secs: get_retry_delay(header, attempt) }
            } else {
                RetryStep::GiveUp { message: api_error(*status, body.as_str()) }
            }
        },
    }
}

/// How many pages of `per_page` entries hold `total` entries.
pub open spec fn pages_for(total: nat, per_page: nat) -> nat {
    if total % per_page == 0 {
        total / per_page
    } else {
        total / per_page + 1
    }
}

/// How many entries one page request asks for.
pub const PER_PAGE: usize = 100;

/// How many page requests fetch `total` entries.
pub fn page_count(total: usize) -> (pages: usize)
    ensures
        pages == pages_for(total as nat, PER_PAGE as nat),
        pages * PER_PAGE >= total,
        total > 0 ==> (pages - 1) * PER_PAGE < total,
{
    if total % PER_PAGE == 0 {
        total / PER_PAGE
    } else {
        total / PER_PAGE + 1
    }
}

/// How long a write waits so that it follows the last write by at least the
/// write spacing, in milliseconds. `since_last` is the time since the last
/// write, where there was one.
pub open spec fn write_wait(since_last: Option<u64>) -> nat {
    match since_last {
        Some(elapsed) => if elapsed < WRITE_SPACING_MILLIS {
            (WRITE_SPACING_MILLIS - elapsed) as nat
        } else {
            0
        },
        None => 0,
    }
}

/// How long a write waits before it is sent, in milliseconds.
pub fn throttle_write(since_last: Option<u64>) -> (wait: u64)
    ensures
        wait == write_wait(since_last),
        since_last matches Some(elapsed) ==> elapsed + wait >= WRITE_SPACING_MILLIS,
{
    match since_last {
        Some(elapsed) => {
            if elapsed < WRITE_SPACING_MILLIS {
                WRITE_SPACING_MILLIS - elapsed
            } else {
                0
            }
        },
        None => 0,
    }
}

/// How often a source has failed in a row, and when it may be tried again.
#[derive(Debug)]
pub struct SourceBackoff {
    pub remote: String,
    pub consecutive_failures: u32,
    /// Milliseconds on the clock of the loop.
    pub next_attempt: u64,
}

/// What a backoff entry holds.
pub struct SourceBackoffView {
    pub remote: Seq<char>,
    pub consecutive_failures: u32,
    pub next_attempt: u64,
}

impl View for SourceBackoff {
    type V = SourceBackoffView;

    open spec fn view(&self) -> SourceBackoffView {
        SourceBackoffView {
            remote: self.remote@,
            consecutive_failures: self.consecutive_failures,
            next_attempt: self.next_attempt,
        }
    }
}

impl Row for SourceBackoff {
    fn duplicate(&self) -> (r: SourceBackoff) {
        SourceBackoff {
            remote: self.remote.clone(),
            consecutive_failures: self.consecutive_failures,
            next_attempt: self.next_attempt,
        }
    }
}

/// The sources that have failed and not yet succeeded again. It lives as
/// long as the loop and is owned by it.
pub struct BackoffTable {
    pub entries: Vec<SourceBackoff>,
}

impl View for BackoffTable {
    type V = Seq<SourceBackoffView>;

    open spec fn view(&self) -> Seq<SourceBackoffView> {
        views(self.entries@)
    }
}

/// Each source has at most one entry.
pub open spec fn backoff_keys_unique(entries: Seq<SourceBackoffView>) -> bool {
    pairwise(entries, |a: SourceBackoffView, b: SourceBackoffView| a.remote != b.remote)
}

/// The entry of a source, where it has one.
pub open spec fn backoff_of(entries: Seq<SourceBackoffView>, remote: Seq<char>) -> Option<
    SourceBackoffView,
> {
    the_row(entries, |e: SourceBackoffView| e.remote == remote)
}

/// Whether a source sits out at the time `now`: it has an entry, and the
/// time of its next attempt has not come.
pub open spec fn sits_out(entries: Seq<SourceBackoffView>, remote: Seq<char>, now: u64) -> bool {
    match backoff_of(entries, remote) {
        Some(e) => now < e.next_attempt,
        None => false,
    }
}

/// How often a source has failed in a row before now.
pub open spec fn failures_so_far(entries: Seq<SourceBackoffView>, remote: Seq<char>) -> u32 {
    match backoff_of(entries, remote) {
        Some(e) => e.consecutive_failures,
        None => 0,
    }
}

/// One more, but never above the largest count.
pub open spec fn one_more(n: u32) -> u32 {
    if n < u32::MAX {
        (n + 1) as u32
    } else {
        n
    }
}

/// A time so many milliseconds after `now`, but never after the end of the
/// clock.
pub open spec fn after(now: u64, millis: nat) -> u64 {
    if now + millis <= u64::MAX {
        (now + millis) as u64
    } else {
        u64::MAX
    }
}

/// The entry of a source after it failed at `now`: one more failure, and the
/// next attempt after the backoff for the failures before this one.
pub open spec fn failed_entry(
    entries: Seq<SourceBackoffView>,
    remote: Seq<char>,
    now: u64,
    roll: u32,
) -> SourceBackoffView {
    SourceBackoffView {
        remote,
        consecutive_failures: one_more(failures_so_far(entries, remote)),
        next_attempt: after(now, backoff_millis(failures_so_far(entries, remote) as nat, roll)),
    }
}

/// The table after a source failed at `now`.
pub open spec fn with_failure(
    entries: Seq<SourceBackoffView>,
    remote: Seq<char>,
    now: u64,
    roll: u32,
) -> Seq<SourceBackoffView> {
    entries.filter(|e: SourceBackoffView| e.remote != remote).push(
        failed_entry(entries, remote, now, roll),
    )
}

/// The table after a source succeeded: it has no entry.
pub open spec fn with_success(entries: Seq<SourceBackoffView>, remote: Seq<char>) -> Seq<
    SourceBackoffView,
> {
    entries.filter(|e: SourceBackoffView| e.remote != remote)
}

/// After a failure the next attempt of a source lies between three quarters
/// and five quarters of the interval, doubled once for each failure before
/// this one and at most six times, after the time of the failure.
pub proof fn lemma_failure_entry_bounds(
    entries: Seq<SourceBackoffView>,
    remote: Seq<char>,
    now: u64,
    roll: u32,
)
    requires
        now + 1250 * MAX_BACKOFF_SECS <= u64::MAX,
    ensures
        failed_entry(entries, remote, now, roll).next_attempt >= now + 750 * backoff_base(
            failures_so_far(entries, remote) as nat,
        ),
        failed_entry(entries, remote, now, roll).next_attempt <= now + 1250 * backoff_base(
            failures_so_far(entries, remote) as nat,
        ),
{
    lemma_backoff_bounds(failures_so_far(entries, remote) as nat, roll);
    lemma_backoff_base_range(failures_so_far(entries, remote) as nat);
}

/// A source that has just succeeded does not sit out.
pub proof fn lemma_success_clears(entries: Seq<SourceBackoffView>, remote: Seq<char>, now: u64)
    ensures
        !sits_out(with_success(entries, remote), remote, now),
{
    let rest = with_success(entries, remote);
    let this = |e: SourceBackoffView| e.remote == remote;
    if exists|i: int| 0 <= i < rest.len() && this(#[trigger] rest[i]) {
        let i = choose|i: int| 0 <= i < rest.len() && this(#[trigger] rest[i]);
        lemma_kept_row(entries, |e: SourceBackoffView| e.remote != remote, i);
    }
}

impl BackoffTable {
    /// Whether the table keeps its invariant.
    pub open spec fn well_formed(&self) -> bool {
        backoff_keys_unique(self@)
    }

    /// A table without entries.
    pub fn new() -> (table: BackoffTable)
        ensures
            table@ == Seq::<SourceBackoffView>::empty(),
            table.well_formed(),
    {
        let table = BackoffTable { entries: Vec::new() };
        proof {
            assert(table@ =~= Seq::<SourceBackoffView>::empty());
        }
        table
    }

    /// The entry of `remote`, where it has one.
    pub fn entry(&self, remote: &str) -> (found: Option<SourceBackoff>)
        requires
            self.well_formed(),
        ensures
            match found {
                Some(e) => backoff_of(self@, remote@) == Some(e@),
                None => backoff_of(self@, remote@) is None,
            },
    {
        let ghost this = |e: SourceBackoffView| e.remote == remote@;
        let is_this = |e: &SourceBackoff| -> (b: bool)
            ensures
                b == (e@.remote == remote@),
            {
                same_text(e.remote.as_str(), remote)
            };
        match find_row(&self.entries, is_this, Ghost(this)) {
            Some(at) => {
                proof {
                    lemma_the_row_at(
                        self@,
                        this,
                        |a: SourceBackoffView, b: SourceBackoffView| a.remote != b.remote,
                        at as int,
                    );
                }
                Some(self.entries[at].duplicate())
            },
            None => None,
        }
    }

    /// Whether `remote` sits out the cycle that runs at `now`.
    pub fn should_skip(&self, remote: &str, now: u64) -> (skip: bool)
        requires
            self.well_formed(),
        ensures
            skip == sits_out(self@, remote@, now),
    {
        match self.entry(remote) {
            Some(e) => now < e.next_attempt,
            None => false,
        }
    }

    /// Notes that `remote` was synced: it has no entry any more.
    pub fn record_success(&mut self, remote: &str)
        requires
            old(self).well_formed(),
        ensures
            final(self).well_formed(),
            final(self)@ == with_success(old(self)@, remote@),
    {
        proof {
            lemma_filter_pairwise(
                self@,
                |e: SourceBackoffView| e.remote != remote@,
                |a: SourceBackoffView, b: SourceBackoffView| a.remote != b.remote,
            );
        }
        let is_other = |e: &SourceBackoff| -> (b: bool)
            ensures
                b == (e@.remote != remote@),
            {
                !same_text(e.remote.as_str(), remote)
            };
        let kept = select_rows(
            &self.entries,
            is_other,
            Ghost(|e: SourceBackoffView| e.remote != remote@),
        );
        self.entries = kept;
    }

    /// Notes that the sync of `remote` failed at `now`, with the jitter that
    /// `roll` picks.
    pub fn record_failure_with_roll(&mut self, remote: &str, now: u64, roll: u32) -> (entry:
        SourceBackoff)
        requires
            old(self).well_formed(),
        ensures
            final(self).well_formed(),
            final(self)@ == with_failure(old(self)@, remote@, now, roll),
            entry@ == failed_entry(old(self)@, remote@, now, roll),
    {
        let ghost rows = self@;
        let ghost apart = |a: SourceBackoffView, b: SourceBackoffView| a.remote != b.remote;
        let ghost others = |e: SourceBackoffView| e.remote != remote@;
        let so_far: u32 = match self.entry(remote) {
            Some(e) => e.consecutive_failures,
            None => 0,
        };
        let millis = backoff_for_roll(so_far, roll);
        let next_attempt = match now.checked_add(millis) {
            Some(t) => t,
            None => u64::MAX,
        };
        let failures = if so_far < u32::MAX {
            so_far + 1
        } else {
            so_far
        };
        let is_other = |e: &SourceBackoff| -> (b: bool)
            ensures
                b == (e@.remote != remote@),
            {
                !same_text(e.remote.as_str(), remote)
            };
        let mut kept = select_rows(&self.entries, is_other, Ghost(others));
        let ghost rest = views(kept@);
        let row = SourceBackoff {
            remote: remote.to_owned(),
            consecutive_failures: failures,
            next_attempt,
        };
        let entry = row.duplicate();
        kept.push(row);
        proof {
            assert(views(kept@) =~= rest.push(row@));
            lemma_filter_pairwise(rows, others, apart);
            assert forall|i: int| 0 <= i < rest.len() implies #[trigger] apart(rest[i], row@) by {
                lemma_kept_row(rows, others, i);
            }
            lemma_pairwise_push(rest, row@, apart);
        }
        self.entries = kept;
        entry
    }

    /// Notes that the sync of `remote` failed at `now`, and says until when
    /// the source sits out. The next attempt comes after the backoff for the
    /// failures before this one, with a jitter of a quarter either way.
    pub fn record_failure(&mut self, remote: &str, now: u64) -> (entry: SourceBackoff)
        requires
            old(self).well_formed(),
        ensures
            final(self).well_formed(),
            exists|roll: u32|
                final(self)@ == #[trigger] with_failure(old(self)@, remote@, now, roll) && entry@
                    == failed_entry(old(self)@, remote@, now, roll),
            entry@.remote == remote@,
            entry@.consecutive_failures == one_more(failures_so_far(old(self)@, remote@)),
    {
        let roll = random_roll();
        self.record_failure_with_roll(remote, now, roll)
    }
}

} // verus!
