//! The GraphQL forge: the shape of what it sends and how that is brought
//! into the common shape.

use vstd::prelude::*;
use vstd::seq_lib::*;
use vstd::string::StringExecFns;
use crate::forge::{
    Comment, CommentView, Goal, GoalState, GoalView, Issue, IssueView, RateLimitInfo,
    PROGRESS_FULL,
};
use crate::rows::views;
use crate::text::{
    chars_of, copy_opt, copy_texts, decimal_of, opt_str, opt_text, parse_decimal, parse_signed,
    same_text, signed_of, texts,
};

verus! {

/// A team of the forge.
#[derive(Debug)]
pub struct LinearTeam {
    pub id: String,
    pub name: String,
    pub key: String,
}

/// The organization that the token belongs to.
#[derive(Debug)]
pub struct LinearOrganization {
    pub url_key: String,
    pub name: String,
}

/// Whether a workflow state of the given type means that the work is over.
pub open spec fn is_finished(state_type: Seq<char>) -> bool {
    state_type == "completed"@ || state_type == "canceled"@
}

/// The state of an issue in the common shape: closed where the workflow
/// state is of a finished type, open for every other type.
pub open spec fn common_state(state_type: Seq<char>) -> Seq<char> {
    if is_finished(state_type) {
        "closed"@
    } else {
        "open"@
    }
}

/// Whether a workflow state of the type `state_type` means that the work is
/// over.
pub fn finished(state_type: &str) -> (b: bool)
    ensures
        b == is_finished(state_type@),
{
    same_text(state_type, "completed") || same_text(state_type, "canceled")
}

/// The state of an issue whose workflow state is of the type `state_type`.
pub fn issue_state(state_type: &str) -> (state: &'static str)
    ensures
        state@ == common_state(state_type@),
{
    if finished(state_type) {
        "closed"
    } else {
        "open"
    }
}

/// An issue as the forge sends it.
#[derive(Debug)]
pub struct LinearIssue {
    pub identifier: String,
    pub number: u64,
    pub title: String,
    pub description: Option<String>,
    pub state_type: String,
    pub creator: Option<String>,
    pub labels: Vec<String>,
    pub project: Option<String>,
    pub created_at: String,
    pub updated_at: String,
}

/// The issue in the common shape: the title carries the identifier in
/// front, the address is made of the organization key and the identifier, an
/// issue without creator is by `unknown`.
pub open spec fn common_issue(issue: LinearIssue, url_key: Seq<char>) -> IssueView {
    IssueView {
        number: issue.number,
        title: issue.identifier@ + " "@ + issue.title@,
        body: opt_text(issue.description),
        state: common_state(issue.state_type@),
        author: match issue.creator {
            Some(name) => name@,
            None => "unknown"@,
        },
        labels: texts(issue.labels@),
        created_at: issue.created_at@,
        updated_at: issue.updated_at@,
        url: Some("https://linear.app/"@ + url_key + "/issue/"@ + issue.identifier@),
        milestone: opt_text(issue.project),
    }
}

impl LinearIssue {
    /// The issue in the common shape.
    pub fn to_issue(&self, url_key: &str) -> (issue: Issue)
        ensures
            issue@ == common_issue(*self, url_key@),
    {
        let mut title = self.identifier.clone();
        title.append(" ");
        title.append(self.title.as_str());
        let mut url = String::from_str("https://linear.app/");
        url.append(url_key);
        url.append("/issue/");
        url.append(self.identifier.as_str());
        Issue {
            number: self.number,
            title,
            body: copy_opt(&self.description),
            state: String::from_str(issue_state(self.state_type.as_str())),
            author: match &self.creator {
                Some(name) => name.clone(),
                None => String::from_str("unknown"),
            },
            labels: copy_texts(&self.labels),
            created_at: self.created_at.clone(),
            updated_at: self.updated_at.clone(),
            url: Some(url),
            milestone: copy_opt(&self.project),
        }
    }
}

/// A project as the forge sends it. The progress is in thousandths; the
/// state types are those of the issues of the project, where they were asked
/// for.
#[derive(Debug)]
pub struct LinearProject {
    pub id: String,
    pub name: String,
    pub description: Option<String>,
    pub state: String,
    pub target_date: Option<String>,
    pub created_at: String,
    pub updated_at: String,
    pub url: String,
    pub progress: u32,
    pub issue_state_types: Option<Vec<String>>,
}

/// How many of the state types are types of finished work.
pub open spec fn finished_count(state_types: Seq<Seq<char>>) -> nat {
    state_types.filter(|t: Seq<char>| is_finished(t)).len()
}

/// The state types of the issues of a project; none where they were not
/// asked for.
pub open spec fn project_states(p: LinearProject) -> Seq<Seq<char>> {
    match p.issue_state_types {
        Some(list) => texts(list@),
        None => Seq::empty(),
    }
}

/// The project as a goal: it is closed where its state is a finished one; its
/// closed issues are those in a finished state, its open issues all others;
/// its progress is never more than the whole.
pub open spec fn goal_of(p: LinearProject) -> GoalView {
    GoalView {
        id: p.id@,
        name: p.name@,
        description: opt_text(p.description),
        target_date: opt_text(p.target_date),
        state: if is_finished(p.state@) {
            GoalState::Closed
        } else {
            GoalState::Open
        },
        progress: if p.progress <= PROGRESS_FULL {
            p.progress
        } else {
            PROGRESS_FULL
        },
        open_count: Some((project_states(p).len() - finished_count(project_states(p))) as u64),
        closed_count: Some(finished_count(project_states(p)) as u64),
        created_at: p.created_at@,
        updated_at: p.updated_at@,
        html_url: Some(p.url@),
    }
}

/// How many of `state_types` are types of finished work.
pub fn count_finished(state_types: &Vec<String>) -> (n: usize)
    ensures
        n == finished_count(texts(state_types@)),
        n <= state_types.len(),
{
    let ghost all = texts(state_types@);
    let ghost done = |t: Seq<char>| is_finished(t);
    let mut n: usize = 0;
    let mut i: usize = 0;
    proof {
        reveal(Seq::filter);
        assert(all.take(0) =~= Seq::empty());
    }
    while i < state_types.len()
        invariant
            i <= state_types.len(),
            all == texts(state_types@),
            done == (|t: Seq<char>| is_finished(t)),
            n == all.take(i as int).filter(done).len(),
            n <= i,
        decreases state_types.len() - i,
    {
        proof {
            all.take(i as int).lemma_filter_push(all[i as int], done);
            assert(all.take(i + 1) =~= all.take(i as int).push(all[i as int]));
        }
        if finished(state_types[i].as_str()) {
            n += 1;
        }
        i += 1;
    }
    proof {
        assert(all.take(i as int) =~= all);
    }
    n
}

impl LinearProject {
    /// The project as a goal.
    pub fn to_goal(&self) -> (goal: Goal)
        ensures
            goal@ == goal_of(*self),
            goal.well_formed(),
    {
        let (open, closed): (u64, u64) = match &self.issue_state_types {
            Some(list) => {
                let done = count_finished(list);
                proof {
                    assert(texts(list@).len() == list@.len());
                }
                ((list.len() - done) as u64, done as u64)
            },
            None => {
                proof {
                    reveal(Seq::filter);
                    assert(finished_count(Seq::<Seq<char>>::empty()) == 0);
                }
                (0, 0)
            },
        };
        Goal {
            id: self.id.clone(),
            name: self.name.clone(),
            description: copy_opt(&self.description),
            target_date: copy_opt(&self.target_date),
            state: if finished(self.state.as_str()) {
                GoalState::Closed
            } else {
                GoalState::Open
            },
            progress: if self.progress <= PROGRESS_FULL {
                self.progress
            } else {
                PROGRESS_FULL
            },
            open_count: Some(open),
            closed_count: Some(closed),
            created_at: self.created_at.clone(),
            updated_at: self.updated_at.clone(),
            html_url: Some(self.url.clone()),
        }
    }
}

/// The type of the workflow state that closes an issue.
pub const CLOSE_STATE_TYPE: &'static str = "completed";

/// The type of workflow state to look up next for a reopening, after
/// `failed` lookups have found none: first the backlog, then the states of
/// work not started, then those of work started. After these three there is
/// no fourth, and the reopening fails.
pub open spec fn reopen_type(failed: nat) -> Option<Seq<char>> {
    if failed == 0 {
        Some("backlog"@)
    } else if failed == 1 {
        Some("unstarted"@)
    } else if failed == 2 {
        Some("started"@)
    } else {
        None
    }
}

/// The type of workflow state to look up next for a reopening.
pub fn next_reopen_type(failed: usize) -> (state_type: Option<&'static str>)
    ensures
        opt_str(state_type) == reopen_type(failed as nat),
{
    if failed == 0 {
        Some("backlog")
    } else if failed == 1 {
        Some("unstarted")
    } else if failed == 2 {
        Some("started")
    } else {
        None
    }
}

/// The budget that two headers of an answer tell of: how many requests
/// remain and when the budget is filled again. Both must be there and be
/// numbers.
pub open spec fn budget_of(remaining: Option<Seq<char>>, reset_at: Option<Seq<char>>) -> Option<
    RateLimitInfo,
> {
    match (remaining, reset_at) {
        (Some(r), Some(t)) => match (decimal_of(r, u32::MAX as u64), signed_of(t)) {
            (Some(n), Some(at)) => Some(RateLimitInfo { remaining: n as u32, reset_at: at }),
            _ => None,
        },
        _ => None,
    }
}

/// The budget that the two rate-limit headers of an answer tell of.
pub fn rate_limit_from(remaining: Option<&str>, reset_at: Option<&str>) -> (info: Option<
    RateLimitInfo,
>)
    ensures
        info == budget_of(opt_str(remaining), opt_str(reset_at)),
{
    match (remaining, reset_at) {
        (Some(r), Some(t)) => {
            let rc = chars_of(r);
            let tc = chars_of(t);
            match (parse_decimal(&rc, 0xffff_ffff), parse_signed(&tc)) {
                (Some(n), Some(at)) => Some(RateLimitInfo { remaining: n as u32, reset_at: at }),
                _ => None,
            }
        },
        _ => None,
    }
}

/// A comment as the forge sends it, nested in its issue.
#[derive(Debug)]
pub struct LinearComment {
    pub id: String,
    pub body: String,
    pub user: Option<String>,
    pub created_at: String,
}

/// The comment in the common shape; a comment without user is by `unknown`.
pub open spec fn common_comment(c: LinearComment, issue_number: u64) -> CommentView {
    CommentView {
        comment_id: c.id@,
        issue_number,
        body: c.body@,
        author: match c.user {
            Some(name) => name@,
            None => "unknown"@,
        },
        created_at: c.created_at@,
    }
}

/// The comments of one issue in the common shape.
pub open spec fn common_comments(list: Seq<LinearComment>, issue_number: u64) -> Seq<CommentView> {
    list.map_values(|c: LinearComment| common_comment(c, issue_number))
}

/// An issue with its comments, as the forge sends them.
#[derive(Debug)]
pub struct IssueWithComments {
    pub number: u64,
    pub comments: Vec<LinearComment>,
}

/// The comments of all issues in one list, issue after issue.
pub open spec fn all_comments(issues: Seq<IssueWithComments>) -> Seq<CommentView>
    decreases issues.len(),
{
    if issues.len() == 0 {
        Seq::empty()
    } else {
        all_comments(issues.drop_last()) + common_comments(
            issues.last().comments@,
            issues.last().number,
        )
    }
}

/// The comments of all issues in the common shape, issue after issue.
pub fn flatten_comments(issues: &[IssueWithComments]) -> (comments: Vec<Comment>)
    ensures
        views(comments@) == all_comments(issues@),
{
    let mut comments: Vec<Comment> = Vec::new();
    let mut i: usize = 0;
    proof {
        assert(views(comments@) =~= Seq::empty());
        assert(issues@.take(0) =~= Seq::empty());
    }
    while i < issues.len()
        invariant
            i <= issues.len(),
            views(comments@) == all_comments(issues@.take(i as int)),
        decreases issues.len() - i,
    {
        let issue = &issues[i];
        let ghost done = views(comments@);
        let ghost these = common_comments(issue.comments@, issue.number);
        let mut j: usize = 0;
        proof {
            assert(these.take(0) =~= Seq::empty());
            assert(done + these.take(0) =~= done);
        }
        while j < issue.comments.len()
            invariant
                j <= issue.comments.len(),
                these == common_comments(issue.comments@, issue.number),
                views(comments@) == done + these.take(j as int),
            decreases issue.comments.len() - j,
        {
            let ghost before = comments@;
            let c = &issue.comments[j];
            let comment = Comment {
                comment_id: c.id.clone(),
                issue_number: issue.number,
                body: c.body.clone(),
                author: match &c.user {
                    Some(name) => name.clone(),
                    None => String::from_str("unknown"),
                },
                created_at: c.created_at.clone(),
            };
            comments.push(comment);
            proof {
                assert(views(comments@) =~= views(before).push(comment@));
                assert(these.take(j + 1) =~= these.take(j as int).push(these[j as int]));
                assert(done + these.take(j + 1) =~= (done + these.take(j as int)).push(
                    these[j as int],
                ));
            }
            j += 1;
        }
        proof {
            assert(these.take(j as int) =~= these);
            assert(issues@.take(i + 1).drop_last() =~= issues@.take(i as int));
            assert(issues@.take(i + 1).last() == issues@[i as int]);
        }
        i += 1;
    }
    proof {
        assert(issues@.take(i as int) =~= issues@);
    }
    comments
}

} // verus!
