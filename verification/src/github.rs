//! The REST forge: the shape of what it sends, how that is brought into the
//! common shape, and the request that each write becomes.

use vstd::prelude::*;
use vstd::seq_lib::*;
use vstd::string::StringExecFns;
use crate::forge::{
    goal_state_named, Comment, CommentView, Goal, GoalState, GoalView, Issue, IssueView,
    PROGRESS_FULL,
};
use crate::json::{json_quoted, labels_json, quote_json, serialize_labels};
use crate::queue::{ForgeCall, ForgeCallView};
use crate::repo::{Repo, RepoView};
use crate::rows::views;
use crate::text::{
    chars_of, copy_opt, decimal_digits, decimal_of, decimal_text, opt_text, parse_decimal,
    push_decimal, slice_chars, texts, unicode_lower,
};

verus! {

/// A user of the forge.
#[derive(Debug)]
pub struct User {
    pub login: String,
}

/// A label of the forge.
#[derive(Debug)]
pub struct Label {
    pub name: String,
    pub color: String,
}

/// An issue as the forge sends it.
#[derive(Debug)]
pub struct RestIssue {
    pub number: u64,
    pub title: String,
    pub body: Option<String>,
    pub state: String,
    pub user: User,
    pub labels: Vec<Label>,
    pub created_at: String,
    pub updated_at: String,
    pub html_url: Option<String>,
    pub milestone: Option<String>,
}

/// The names of a list of labels.
pub open spec fn label_names(labels: Seq<Label>) -> Seq<Seq<char>> {
    labels.map_values(|l: Label| l.name@)
}

/// The issue in the common shape: the author is the login of the user, the
/// labels are their names.
pub open spec fn common_issue(issue: RestIssue) -> IssueView {
    IssueView {
        number: issue.number,
        title: issue.title@,
        body: opt_text(issue.body),
        state: issue.state@,
        author: issue.user.login@,
        labels: label_names(issue.labels@),
        created_at: issue.created_at@,
        updated_at: issue.updated_at@,
        url: opt_text(issue.html_url),
        milestone: opt_text(issue.milestone),
    }
}

impl RestIssue {
    /// The issue in the common shape.
    pub fn to_issue(&self) -> (issue: Issue)
        ensures
            issue@ == common_issue(*self),
    {
        let mut labels: Vec<String> = Vec::new();
        let mut i: usize = 0;
        while i < self.labels.len()
            invariant
                i <= self.labels.len(),
                texts(labels@) == label_names(self.labels@).take(i as int),
            decreases self.labels.len() - i,
        {
            let ghost before = labels@;
            let name = self.labels[i].name.clone();
            labels.push(name);
            proof {
                assert(texts(labels@) =~= texts(before).push(name@));
                assert(label_names(self.labels@).take(i + 1) =~= label_names(self.labels@).take(
                    i as int,
                ).push(name@));
            }
            i += 1;
        }
        proof {
            assert(label_names(self.labels@).take(i as int) =~= label_names(self.labels@));
        }
        Issue {
            number: self.number,
            title: self.title.clone(),
            body: copy_opt(&self.body),
            state: self.state.clone(),
            author: self.user.login.clone(),
            labels,
            created_at: self.created_at.clone(),
            updated_at: self.updated_at.clone(),
            url: copy_opt(&self.html_url),
            milestone: copy_opt(&self.milestone),
        }
    }
}

/// A comment as the forge sends it.
#[derive(Debug)]
pub struct GitHubComment {
    pub id: u64,
    pub issue_url: String,
    pub body: String,
    pub user: User,
    pub created_at: String,
}

/// The part of a text after its last `c`; all of it where it has none.
pub open spec fn after_last(s: Seq<char>, c: char) -> Seq<char>
    decreases s.len(),
{
    if s.len() == 0 || s.last() == c {
        Seq::empty()
    } else {
        after_last(s.drop_last(), c).push(s.last())
    }
}

/// The number of the issue that a comment belongs to: the last part of the
/// path of its issue URL, where that is a number.
pub open spec fn issue_number_of(issue_url: Seq<char>) -> Option<u64> {
    decimal_of(after_last(issue_url, '/'), u64::MAX)
}

/// The part of `s` after its last `c`.
pub fn last_segment(s: &Vec<char>, c: char) -> (tail: Vec<char>)
    ensures
        tail@ == after_last(s@, c),
{
    let mut start: usize = s.len();
    proof {
        assert(s@.subrange(s.len() as int, s.len() as int) =~= Seq::empty());
    }
    while start > 0 && s[start - 1] != c
        invariant
            start <= s.len(),
            forall|k: int| start <= k < s.len() ==> s@[k] != c,
        decreases start,
    {
        start = start - 1;
    }
    proof {
        lemma_after_last(s@, c, start as int);
    }
    slice_chars(s, start, s.len())
}

/// Where no `c` stands from `start` on, and one stands right before `start`
/// unless `start` is the beginning, the part after the last `c` begins at
/// `start`.
pub proof fn lemma_after_last(s: Seq<char>, c: char, start: int)
    requires
        0 <= start <= s.len(),
        forall|k: int| start <= k < s.len() ==> s[k] != c,
        start > 0 ==> s[start - 1] == c,
    ensures
        after_last(s, c) == s.subrange(start, s.len() as int),
    decreases s.len(),
{
    if s.len() == 0 || s.last() == c {
        assert(s.subrange(start, s.len() as int) =~= Seq::empty());
    } else {
        let front = s.drop_last();
        lemma_after_last(front, c, start);
        assert(s.subrange(start, s.len() as int) =~= front.subrange(start, front.len() as int).push(
            s.last(),
        ));
    }
}

impl GitHubComment {
    /// The number of the issue that the comment belongs to.
    pub fn issue_number(&self) -> (n: Option<u64>)
        ensures
            n == issue_number_of(self.issue_url@),
    {
        let chars = chars_of(self.issue_url.as_str());
        let tail = last_segment(&chars, '/');
        parse_decimal(&tail, u64::MAX)
    }
}

/// The comment in the common shape, where its issue URL names an issue: the
/// id is written in base ten, the author is the login of the user.
pub open spec fn common_comment(c: GitHubComment) -> Option<CommentView> {
    match issue_number_of(c.issue_url@) {
        Some(n) => Some(
            CommentView {
                comment_id: decimal_digits(c.id as nat),
                issue_number: n,
                body: c.body@,
                author: c.user.login@,
                created_at: c.created_at@,
            },
        ),
        None => None,
    }
}

/// The comments in the common shape, without those whose issue URL names no
/// issue.
pub fn comments_from(list: &[GitHubComment]) -> (comments: Vec<Comment>)
    ensures
        views(comments@) == list@.filter_map(|c: GitHubComment| common_comment(c)),
{
    let ghost common = |c: GitHubComment| common_comment(c);
    let mut comments: Vec<Comment> = Vec::new();
    let mut i: usize = 0;
    proof {
        assert(list@.take(0).filter_map(common) =~= Seq::empty());
        assert(views(comments@) =~= Seq::empty());
    }
    while i < list.len()
        invariant
            i <= list.len(),
            common == (|c: GitHubComment| common_comment(c)),
            views(comments@) == list@.take(i as int).filter_map(common),
        decreases list.len() - i,
    {
        let ghost before = comments@;
        proof {
            list@.lemma_filter_map_take_succ(common, i as int);
        }
        let c = &list[i];
        match c.issue_number() {
            Some(n) => {
                let comment = Comment {
                    comment_id: crate::text::decimal_text(c.id),
                    issue_number: n,
                    body: c.body.clone(),
                    author: c.user.login.clone(),
                    created_at: c.created_at.clone(),
                };
                comments.push(comment);
                proof {
                    assert(views(comments@) =~= views(before).push(comment@));
                }
            },
            None => {},
        }
        i += 1;
    }
    proof {
        assert(list@.take(i as int) =~= list@);
    }
    comments
}

/// The address of everything that belongs to a repository.
pub open spec fn repo_url(repo: RepoView) -> Seq<char> {
    "https://api.github.com/repos/"@ + repo.owner + "/"@ + repo.name
}

/// The address that counts the open issues of a repository.
pub open spec fn search_url_text(repo: RepoView) -> Seq<char> {
    "https://api.github.com/search/issues?q=repo:"@ + repo.owner + "/"@ + repo.name
        + "+state:open+is:issue&per_page=1"@
}

/// The address of one page of the open issues of a repository.
pub open spec fn issues_page_text(repo: RepoView, page: u64) -> Seq<char> {
    repo_url(repo) + "/issues?state=open&per_page=100&page="@ + decimal_digits(page as nat)
}

/// The address of one page of the comments of a repository.
pub open spec fn comments_page_text(repo: RepoView, page: u64) -> Seq<char> {
    repo_url(repo) + "/issues/comments?per_page=100&page="@ + decimal_digits(page as nat)
}

/// The address of one issue.
pub open spec fn issue_url_text(repo: RepoView, number: u64) -> Seq<char> {
    repo_url(repo) + "/issues/"@ + decimal_digits(number as nat)
}

/// The address of everything that belongs to `repo`.
pub fn repo_address(repo: &Repo) -> (url: String)
    ensures
        url@ == repo_url(repo@),
{
    let mut url = String::from_str("https://api.github.com/repos/");
    url.append(repo.owner.as_str());
    url.append("/");
    url.append(repo.name.as_str());
    url
}

/// The address that counts the open issues of `repo`.
pub fn search_url(repo: &Repo) -> (url: String)
    ensures
        url@ == search_url_text(repo@),
{
    let mut url = String::from_str("https://api.github.com/search/issues?q=repo:");
    url.append(repo.owner.as_str());
    url.append("/");
    url.append(repo.name.as_str());
    url.append("+state:open+is:issue&per_page=1");
    url
}

/// The address of page `page` of the open issues of `repo`.
pub fn issues_page_url(repo: &Repo, page: u64) -> (url: String)
    ensures
        url@ == issues_page_text(repo@, page),
{
    let mut url = repo_address(repo);
    url.append("/issues?state=open&per_page=100&page=");
    push_decimal(&mut url, page);
    url
}

/// The address of page `page` of the comments of `repo`.
pub fn comments_page_url(repo: &Repo, page: u64) -> (url: String)
    ensures
        url@ == comments_page_text(repo@, page),
{
    let mut url = repo_address(repo);
    url.append("/issues/comments?per_page=100&page=");
    push_decimal(&mut url, page);
    url
}

/// The address of the issue `number` of `repo`.
pub fn issue_url(repo: &Repo, number: u64) -> (url: String)
    ensures
        url@ == issue_url_text(repo@, number),
{
    let mut url = repo_address(repo);
    url.append("/issues/");
    push_decimal(&mut url, number);
    url
}

/// How a request is sent.
#[derive(Debug, Clone, Copy, PartialEq, Eq, Structural)]
pub enum Method {
    Get,
    Post,
    Patch,
    Delete,
}

/// One request to the forge.
#[derive(Debug)]
pub struct RestRequest {
    pub method: Method,
    pub url: String,
    /// The JSON that is sent, where the request sends any.
    pub body: Option<String>,
    /// Whether the answer "not found" counts as done.
    pub missing_is_done: bool,
}

/// What a request holds.
pub struct RestRequestView {
    pub method: Method,
    pub url: Seq<char>,
    pub body: Option<Seq<char>>,
    pub missing_is_done: bool,
}

impl View for RestRequest {
    type V = RestRequestView;

    open spec fn view(&self) -> RestRequestView {
        RestRequestView {
            method: self.method,
            url: self.url@,
            body: opt_text(self.body),
            missing_is_done: self.missing_is_done,
        }
    }
}

/// The JSON that opens an issue: the title, the body where there is one, the
/// labels where there are any; the members in the order of their names.
pub open spec fn create_body(
    title: Seq<char>,
    body: Option<Seq<char>>,
    labels: Seq<Seq<char>>,
) -> Option<Seq<char>> {
    let body_part = match body {
        Some(b) => match json_quoted(b) {
            Some(q) => Some("\"body\":"@ + q + ","@),
            None => None,
        },
        None => Some(Seq::empty()),
    };
    let labels_part = if labels.len() > 0 {
        match labels_json(labels) {
            Some(l) => Some("\"labels\":"@ + l + ","@),
            None => None,
        }
    } else {
        Some(Seq::empty())
    };
    if body_part is Some && labels_part is Some && json_quoted(title) is Some {
        Some(
            "{"@ + body_part->0 + labels_part->0 + "\"title\":"@ + json_quoted(title)->0 + "}"@,
        )
    } else {
        None
    }
}

/// An optional string as a JSON value: the string in quotes, or `null`.
pub open spec fn quoted_or_null(x: Option<Seq<char>>) -> Option<Seq<char>> {
    match x {
        Some(s) => json_quoted(s),
        None => Some("null"@),
    }
}

/// The JSON that opens a goal, which this forge calls a milestone: the
/// description, the day it is due and the title.
pub open spec fn goal_body(
    name: Seq<char>,
    description: Option<Seq<char>>,
    target_date: Option<Seq<char>>,
) -> Option<Seq<char>> {
    if quoted_or_null(description) is Some && quoted_or_null(target_date) is Some && json_quoted(
        name,
    ) is Some {
        Some(
            "{\"description\":"@ + quoted_or_null(description)->0 + ",\"due_on\":"@
                + quoted_or_null(target_date)->0 + ",\"title\":"@ + json_quoted(name)->0 + "}"@,
        )
    } else {
        None
    }
}

/// The request that a write becomes. A goal is a milestone of this forge
/// and is named by its number. `None` where a string could not be written as
/// JSON, or where the id of the goal to assign to is no number.
pub open spec fn request_of(repo: RepoView, call: ForgeCallView) -> Option<RestRequestView> {
    match call {
        ForgeCallView::CreateIssue { title, body, labels, .. } => match create_body(
            title,
            body,
            labels,
        ) {
            Some(json) => Some(
                RestRequestView {
                    method: Method::Post,
                    url: repo_url(repo) + "/issues"@,
                    body: Some(json),
                    missing_is_done: false,
                },
            ),
            None => None,
        },
        ForgeCallView::CreateComment { issue_number, body } => match json_quoted(body) {
            Some(q) => Some(
                RestRequestView {
                    method: Method::Post,
                    url: issue_url_text(repo, issue_number) + "/comments"@,
                    body: Some("{\"body\":"@ + q + "}"@),
                    missing_is_done: false,
                },
            ),
            None => None,
        },
        ForgeCallView::CloseIssue { issue_number } => Some(
            RestRequestView {
                method: Method::Patch,
                url: issue_url_text(repo, issue_number),
                body: Some("{\"state\":\"closed\"}"@),
                missing_is_done: false,
            },
        ),
        ForgeCallView::ReopenIssue { issue_number } => Some(
            RestRequestView {
                method: Method::Patch,
                url: issue_url_text(repo, issue_number),
                body: Some("{\"state\":\"open\"}"@),
                missing_is_done: false,
            },
        ),
        ForgeCallView::AddLabel { issue_number, label } => match json_quoted(label) {
            Some(q) => Some(
                RestRequestView {
                    method: Method::Post,
                    url: issue_url_text(repo, issue_number) + "/labels"@,
                    body: Some("{\"labels\":["@ + q + "]}"@),
                    missing_is_done: false,
                },
            ),
            None => None,
        },
        ForgeCallView::RemoveLabel { issue_number, label } => Some(
            RestRequestView {
                method: Method::Delete,
                url: issue_url_text(repo, issue_number) + "/labels/"@ + label,
                body: None,
                missing_is_done: true,
            },
        ),
        ForgeCallView::AssignIssue { issue_number, assignee } => match json_quoted(assignee) {
            Some(q) => Some(
                RestRequestView {
                    method: Method::Post,
                    url: issue_url_text(repo, issue_number) + "/assignees"@,
                    body: Some("{\"assignees\":["@ + q + "]}"@),
                    missing_is_done: false,
                },
            ),
            None => None,
        },
        ForgeCallView::CreateGoal { name, description, target_date } => match goal_body(
            name,
            description,
            target_date,
        ) {
            Some(json) => Some(
                RestRequestView {
                    method: Method::Post,
                    url: repo_url(repo) + "/milestones"@,
                    body: Some(json),
                    missing_is_done: false,
                },
            ),
            None => None,
        },
        ForgeCallView::CloseGoal { goal_id } => Some(
            RestRequestView {
                method: Method::Patch,
                url: repo_url(repo) + "/milestones/"@ + goal_id,
                body: Some("{\"state\":\"closed\"}"@),
                missing_is_done: false,
            },
        ),
        ForgeCallView::AssignToGoal { issue_number, goal_id } => match decimal_of(
            goal_id,
            u64::MAX,
        ) {
            Some(milestone) => Some(
                RestRequestView {
                    method: Method::Patch,
                    url: issue_url_text(repo, issue_number),
                    body: Some("{\"milestone\":"@ + decimal_digits(milestone as nat) + "}"@),
                    missing_is_done: false,
                },
            ),
            None => None,
        },
    }
}

/// What an optional request holds.
pub open spec fn opt_request(r: Option<RestRequest>) -> Option<RestRequestView> {
    match r {
        Some(req) => Some(req@),
        None => None,
    }
}

/// The JSON that opens an issue.
fn build_create_body(title: &String, body: &Option<String>, labels: &Vec<String>) -> (json: Option<
    String,
>)
    ensures
        opt_text(json) == create_body(title@, opt_text(*body), texts(labels@)),
{
    let mut out = String::from_str("{");
    match body {
        Some(b) => match quote_json(b.as_str()) {
            Some(q) => {
                out.append("\"body\":");
                out.append(q.as_str());
                out.append(",");
            },
            None => {
                return None;
            },
        },
        None => {},
    }
    proof {
        assert(texts(labels@).len() == labels@.len());
    }
    if labels.len() > 0 {
        match serialize_labels(labels) {
            Some(l) => {
                out.append("\"labels\":");
                out.append(l.as_str());
                out.append(",");
            },
            None => {
                return None;
            },
        }
    }
    match quote_json(title.as_str()) {
        Some(q) => {
            out.append("\"title\":");
            out.append(q.as_str());
            out.append("}");
            Some(out)
        },
        None => None,
    }
}

/// A request with a JSON body.
fn with_body(method: Method, url: String, open: &str, quoted: Option<String>, close: &str) -> (r:
    Option<RestRequest>)
    ensures
        opt_request(r) == (match quoted {
            Some(q) => Some(
                RestRequestView {
                    method,
                    url: url@,
                    body: Some(open@ + q@ + close@),
                    missing_is_done: false,
                },
            ),
            None => None,
        }),
{
    match quoted {
        Some(q) => {
            let mut body = String::from_str(open);
            body.append(q.as_str());
            body.append(close);
            Some(RestRequest { method, url, body: Some(body), missing_is_done: false })
        },
        None => None,
    }
}

/// The request that `call` becomes for the repository `repo`.
pub fn request_for(repo: &Repo, call: &ForgeCall) -> (r: Option<RestRequest>)
    ensures
        opt_request(r) == request_of(repo@, call@),
{
    match call {
        ForgeCall::CreateIssue { title, body, labels, .. } => {
            match build_create_body(title, body, labels) {
                Some(json) => {
                    let mut url = repo_address(repo);
                    url.append("/issues");
                    Some(
                        RestRequest {
                            method: Method::Post,
                            url,
                            body: Some(json),
                            missing_is_done: false,
                        },
                    )
                },
                None => None,
            }
        },
        ForgeCall::CreateComment { issue_number, body } => {
            let mut url = issue_url(repo, *issue_number);
            url.append("/comments");
            with_body(Method::Post, url, "{\"body\":", quote_json(body.as_str()), "}")
        },
        ForgeCall::CloseIssue { issue_number } => Some(
            RestRequest {
                method: Method::Patch,
                url: issue_url(repo, *issue_number),
                body: Some(String::from_str("{\"state\":\"closed\"}")),
                missing_is_done: false,
            },
        ),
        ForgeCall::ReopenIssue { issue_number } => Some(
            RestRequest {
                method: Method::Patch,
                url: issue_url(repo, *issue_number),
                body: Some(String::from_str("{\"state\":\"open\"}")),
                missing_is_done: false,
            },
        ),
        ForgeCall::AddLabel { issue_number, label } => {
            let mut url = issue_url(repo, *issue_number);
            url.append("/labels");
            with_body(Method::Post, url, "{\"labels\":[", quote_json(label.as_str()), "]}")
        },
        ForgeCall::RemoveLabel { issue_number, label } => {
            let mut url = issue_url(repo, *issue_number);
            url.append("/labels/");
            url.append(label.as_str());
            Some(RestRequest { method: Method::Delete, url, body: None, missing_is_done: true })
        },
        ForgeCall::AssignIssue { issue_number, assignee } => {
            let mut url = issue_url(repo, *issue_number);
            url.append("/assignees");
            with_body(Method::Post, url, "{\"assignees\":[", quote_json(assignee.as_str()), "]}")
        },
        ForgeCall::CreateGoal { name, description, target_date } => {
            let d = quote_or_null(description);
            let t = quote_or_null(target_date);
            let n = quote_json(name.as_str());
            match (d, t, n) {
                (Some(d), Some(t), Some(n)) => {
                    let mut body = String::from_str("{\"description\":");
                    body.append(d.as_str());
                    body.append(",\"due_on\":");
                    body.append(t.as_str());
                    body.append(",\"title\":");
                    body.append(n.as_str());
                    body.append("}");
                    let mut url = repo_address(repo);
                    url.append("/milestones");
                    Some(
                        RestRequest {
                            method: Method::Post,
                            url,
                            body: Some(body),
                            missing_is_done: false,
                        },
                    )
                },
                _ => None,
            }
        },
        ForgeCall::CloseGoal { goal_id } => {
            let mut url = repo_address(repo);
            url.append("/milestones/");
            url.append(goal_id.as_str());
            Some(
                RestRequest {
                    method: Method::Patch,
                    url,
                    body: Some(String::from_str("{\"state\":\"closed\"}")),
                    missing_is_done: false,
                },
            )
        },
        ForgeCall::AssignToGoal { issue_number, goal_id } => {
            let chars = chars_of(goal_id.as_str());
            match parse_decimal(&chars, u64::MAX) {
                Some(milestone) => {
                    let mut body = String::from_str("{\"milestone\":");
                    push_decimal(&mut body, milestone);
                    body.append("}");
                    Some(
                        RestRequest {
                            method: Method::Patch,
                            url: issue_url(repo, *issue_number),
                            body: Some(body),
                            missing_is_done: false,
                        },
                    )
                },
                None => None,
            }
        },
    }
}

/// An optional string as a JSON value.
fn quote_or_null(x: &Option<String>) -> (json: Option<String>)
    ensures
        opt_text(json) == quoted_or_null(opt_text(*x)),
{
    match x {
        Some(s) => quote_json(s.as_str()),
        None => Some(String::from_str("null")),
    }
}

/// Whether an answer with the status `status` means that the request is
/// done: a success, or "not found" where that counts as done.
pub open spec fn answer_is_done(request: RestRequestView, status: u16) -> bool {
    (200 <= status < 300) || (request.missing_is_done && status == 404)
}

/// Whether the answer with the status `status` means that `request` is done.
pub fn is_done(request: &RestRequest, status: u16) -> (b: bool)
    ensures
        b == answer_is_done(request@, status),
{
    (200 <= status && status < 300) || (request.missing_is_done && status == 404)
}

/// A milestone as the forge sends it.
#[derive(Debug)]
pub struct RestMilestone {
    pub number: u64,
    pub title: String,
    pub description: Option<String>,
    pub state: String,
    pub due_on: Option<String>,
    pub open_issues: u64,
    pub closed_issues: u64,
    pub created_at: String,
    pub updated_at: String,
    pub html_url: Option<String>,
}

/// The closed share of a number of issues, in thousandths; nothing where
/// there are no issues.
pub open spec fn closed_share(open: u64, closed: u64) -> u32 {
    if open + closed == 0 {
        0
    } else {
        ((closed * 1000) / (open + closed)) as u32
    }
}

/// The milestone as a goal: its id is its number, its progress the closed
/// share of its issues.
pub open spec fn milestone_goal(m: RestMilestone) -> GoalView {
    GoalView {
        id: decimal_digits(m.number as nat),
        name: m.title@,
        description: opt_text(m.description),
        target_date: opt_text(m.due_on),
        state: goal_state_named(unicode_lower(m.state@)),
        progress: closed_share(m.open_issues, m.closed_issues),
        open_count: Some(m.open_issues),
        closed_count: Some(m.closed_issues),
        created_at: m.created_at@,
        updated_at: m.updated_at@,
        html_url: opt_text(m.html_url),
    }
}

/// The closed share of `open + closed` issues, in thousandths.
pub fn share_closed(open: u64, closed: u64) -> (share: u32)
    ensures
        share == closed_share(open, closed),
        share <= PROGRESS_FULL,
{
    let total: u128 = open as u128 + closed as u128;
    if total == 0 {
        0
    } else {
        let scaled: u128 = closed as u128 * 1000;
        assert(scaled / total <= 1000) by (nonlinear_arith)
            requires
                scaled == closed * 1000,
                total >= closed,
                total > 0,
        ;
        (scaled / total) as u32
    }
}

impl RestMilestone {
    /// The milestone as a goal.
    pub fn to_goal(&self) -> (goal: Goal)
        ensures
            goal@ == milestone_goal(*self),
            goal.well_formed(),
    {
        Goal {
            id: decimal_text(self.number),
            name: self.title.clone(),
            description: copy_opt(&self.description),
            target_date: copy_opt(&self.due_on),
            state: GoalState::from_str(self.state.as_str()),
            progress: share_closed(self.open_issues, self.closed_issues),
            open_count: Some(self.open_issues),
            closed_count: Some(self.closed_issues),
            created_at: self.created_at.clone(),
            updated_at: self.updated_at.clone(),
            html_url: copy_opt(&self.html_url),
        }
    }
}

} // verus!
