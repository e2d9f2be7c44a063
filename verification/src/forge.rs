//! The forge-agnostic vocabulary: which trackers exist, what an issue, a
//! comment and a goal look like, and what can be asked of a tracker.

use vstd::prelude::*;
use vstd::string::StringExecFns;
use crate::text::{
    chars_of, copy_opt, copy_texts, find_char, first_index, opt_text, same_text, slice_chars,
    string_of, texts, unicode_lower,
};

verus! {

/// The issue trackers that a source can be linked to.
#[derive(Debug, Clone, Copy, PartialEq, Eq, Structural)]
pub enum ForgeType {
    GitHub,
    Linear,
}

/// The forge that a lowercase name stands for.
pub open spec fn forge_named(lower: Seq<char>) -> Option<ForgeType> {
    if lower == "github"@ {
        Some(ForgeType::GitHub)
    } else if lower == "linear"@ {
        Some(ForgeType::Linear)
    } else {
        None
    }
}

/// The name under which a forge is stored and typed.
pub open spec fn forge_name(forge: ForgeType) -> Seq<char> {
    match forge {
        ForgeType::GitHub => "github"@,
        ForgeType::Linear => "linear"@,
    }
}

impl ForgeType {
    /// The name of the forge, in lowercase.
    pub fn as_str(&self) -> (name: &'static str)
        ensures
            name@ == forge_name(*self),
    {
        match self {
            ForgeType::GitHub => "github",
            ForgeType::Linear => "linear",
        }
    }

    /// The forge with the given lowercase name.
    pub fn from_lowercase(lower: &str) -> (forge: Option<ForgeType>)
        ensures
            forge == forge_named(lower@),
    {
        if same_text(lower, "github") {
            Some(ForgeType::GitHub)
        } else if same_text(lower, "linear") {
            Some(ForgeType::Linear)
        } else {
            None
        }
    }

    /// The forge with the given name, whatever its case.
    pub fn from_str(s: &str) -> (forge: Option<ForgeType>)
        ensures
            forge == forge_named(unicode_lower(s@)),
    {
        let lower = s.to_lowercase();
        ForgeType::from_lowercase(lower.as_str())
    }
}

/// Every supported forge, in the order in which they are offered.
pub fn all_forge_types() -> (all: Vec<ForgeType>)
    ensures
        all@ == seq![ForgeType::GitHub, ForgeType::Linear],
{
    let mut all: Vec<ForgeType> = Vec::new();
    all.push(ForgeType::GitHub);
    all.push(ForgeType::Linear);
    all
}

/// Whether a goal still takes issues.
#[derive(Debug, Clone, Copy, PartialEq, Eq, Structural)]
pub enum GoalState {
    Open,
    Closed,
}

/// The state that a lowercase state name stands for: the three names of a
/// finished goal mean closed, every other text means open.
pub open spec fn goal_state_named(lower: Seq<char>) -> GoalState {
    if lower == "closed"@ || lower == "completed"@ || lower == "canceled"@ {
        GoalState::Closed
    } else {
        GoalState::Open
    }
}

/// The name under which a goal state is stored.
pub open spec fn goal_state_name(state: GoalState) -> Seq<char> {
    match state {
        GoalState::Open => "open"@,
        GoalState::Closed => "closed"@,
    }
}

impl GoalState {
    /// The name of the state.
    pub fn as_str(&self) -> (name: &'static str)
        ensures
            name@ == goal_state_name(*self),
    {
        match self {
            GoalState::Open => "open",
            GoalState::Closed => "closed",
        }
    }

    /// The state with the given lowercase name.
    pub fn from_lowercase(lower: &str) -> (state: GoalState)
        ensures
            state == goal_state_named(lower@),
    {
        if same_text(lower, "closed") || same_text(lower, "completed") || same_text(
            lower,
            "canceled",
        ) {
            GoalState::Closed
        } else {
            GoalState::Open
        }
    }

    /// The state with the given name, whatever its case.
    pub fn from_str(s: &str) -> (state: GoalState)
        ensures
            state == goal_state_named(unicode_lower(s@)),
    {
        let lower = s.to_lowercase();
        GoalState::from_lowercase(lower.as_str())
    }
}

/// A name read back is the forge it was written for.
pub proof fn lemma_forge_name_round_trip(forge: ForgeType)
    ensures
        forge_named(forge_name(forge)) == Some(forge),
{
    reveal_strlit("github");
    reveal_strlit("linear");
    assert("github"@.len() == 6);
    assert("linear"@.len() == 6);
    assert("github"@[0] == 'g');
    assert("linear"@[0] == 'l');
}

/// A state name read back is the state it was written for.
pub proof fn lemma_goal_state_round_trip(state: GoalState)
    ensures
        goal_state_named(goal_state_name(state)) == state,
{
    reveal_strlit("open");
    reveal_strlit("closed");
    reveal_strlit("completed");
    reveal_strlit("canceled");
    assert("open"@.len() == 4);
    assert("closed"@.len() == 6);
    assert("completed"@.len() == 9);
    assert("canceled"@.len() == 8);
}

/// One issue, in the shape that every forge is mapped to.
#[derive(Debug)]
pub struct Issue {
    pub number: u64,
    pub title: String,
    pub body: Option<String>,
    pub state: String,
    pub author: String,
    pub labels: Vec<String>,
    pub created_at: String,
    pub updated_at: String,
    pub url: Option<String>,
    /// The name of the goal that the issue belongs to.
    pub milestone: Option<String>,
}

/// What an issue holds.
pub struct IssueView {
    pub number: u64,
    pub title: Seq<char>,
    pub body: Option<Seq<char>>,
    pub state: Seq<char>,
    pub author: Seq<char>,
    pub labels: Seq<Seq<char>>,
    pub created_at: Seq<char>,
    pub updated_at: Seq<char>,
    pub url: Option<Seq<char>>,
    pub milestone: Option<Seq<char>>,
}

impl View for Issue {
    type V = IssueView;

    open spec fn view(&self) -> IssueView {
        IssueView {
            number: self.number,
            title: self.title@,
            body: opt_text(self.body),
            state: self.state@,
            author: self.author@,
            labels: texts(self.labels@),
            created_at: self.created_at@,
            updated_at: self.updated_at@,
            url: opt_text(self.url),
            milestone: opt_text(self.milestone),
        }
    }
}

impl Issue {
    /// A copy of the issue.
    pub fn copy(&self) -> (r: Issue)
        ensures
            r@ == self@,
    {
        Issue {
            number: self.number,
            title: self.title.clone(),
            body: copy_opt(&self.body),
            state: self.state.clone(),
            author: self.author.clone(),
            labels: copy_texts(&self.labels),
            created_at: self.created_at.clone(),
            updated_at: self.updated_at.clone(),
            url: copy_opt(&self.url),
            milestone: copy_opt(&self.milestone),
        }
    }
}

/// One comment on an issue.
#[derive(Debug)]
pub struct Comment {
    pub comment_id: String,
    pub issue_number: u64,
    pub body: String,
    pub author: String,
    pub created_at: String,
}

/// What a comment holds.
pub struct CommentView {
    pub comment_id: Seq<char>,
    pub issue_number: u64,
    pub body: Seq<char>,
    pub author: Seq<char>,
    pub created_at: Seq<char>,
}

impl View for Comment {
    type V = CommentView;

    open spec fn view(&self) -> CommentView {
        CommentView {
            comment_id: self.comment_id@,
            issue_number: self.issue_number,
            body: self.body@,
            author: self.author@,
            created_at: self.created_at@,
        }
    }
}

impl Comment {
    /// A copy of the comment.
    pub fn copy(&self) -> (r: Comment)
        ensures
            r@ == self@,
    {
        Comment {
            comment_id: self.comment_id.clone(),
            issue_number: self.issue_number,
            body: self.body.clone(),
            author: self.author.clone(),
            created_at: self.created_at.clone(),
        }
    }
}

/// A time-bound container of issues: a milestone or a project.
#[derive(Debug)]
pub struct Goal {
    pub id: String,
    pub name: String,
    pub description: Option<String>,
    pub target_date: Option<String>,
    pub state: GoalState,
    /// The finished share of the goal in thousandths, from 0 to 1000.
    pub progress: u32,
    pub open_count: Option<u64>,
    pub closed_count: Option<u64>,
    pub created_at: String,
    pub updated_at: String,
    pub html_url: Option<String>,
}

/// What a goal holds.
pub struct GoalView {
    pub id: Seq<char>,
    pub name: Seq<char>,
    pub description: Option<Seq<char>>,
    pub target_date: Option<Seq<char>>,
    pub state: GoalState,
    pub progress: u32,
    pub open_count: Option<u64>,
    pub closed_count: Option<u64>,
    pub created_at: Seq<char>,
    pub updated_at: Seq<char>,
    pub html_url: Option<Seq<char>>,
}

impl View for Goal {
    type V = GoalView;

    open spec fn view(&self) -> GoalView {
        GoalView {
            id: self.id@,
            name: self.name@,
            description: opt_text(self.description),
            target_date: opt_text(self.target_date),
            state: self.state,
            progress: self.progress,
            open_count: self.open_count,
            closed_count: self.closed_count,
            created_at: self.created_at@,
            updated_at: self.updated_at@,
            html_url: opt_text(self.html_url),
        }
    }
}

/// The largest value of a goal's progress: all of it done.
pub const PROGRESS_FULL: u32 = 1000;

impl Goal {
    /// The progress is a share of the whole.
    pub open spec fn well_formed(&self) -> bool {
        self.progress <= PROGRESS_FULL
    }

    /// A copy of the goal.
    pub fn copy(&self) -> (r: Goal)
        ensures
            r@ == self@,
    {
        Goal {
            id: self.id.clone(),
            name: self.name.clone(),
            description: copy_opt(&self.description),
            target_date: copy_opt(&self.target_date),
            state: self.state,
            progress: self.progress,
            open_count: self.open_count,
            closed_count: self.closed_count,
            created_at: self.created_at.clone(),
            updated_at: self.updated_at.clone(),
            html_url: copy_opt(&self.html_url),
        }
    }
}

/// What is needed to open a new issue.
#[derive(Debug)]
pub struct CreateIssueRequest {
    pub title: String,
    pub body: Option<String>,
    pub labels: Vec<String>,
    pub goal_id: Option<String>,
}

/// What is needed to open a new goal.
#[derive(Debug)]
pub struct CreateGoalRequest {
    pub name: String,
    pub description: Option<String>,
    pub target_date: Option<String>,
}

/// What a forge reports of its request budget.
#[derive(Debug, Clone, Copy, PartialEq, Eq, Structural)]
pub struct RateLimitInfo {
    pub remaining: u32,
    /// When the budget is filled again, in seconds since the Unix epoch.
    pub reset_at: i64,
}

/// The token that an authorization flow ends with.
#[derive(Debug)]
pub struct OAuthToken {
    pub access_token: String,
    pub refresh_token: Option<String>,
    pub expires_in: Option<u64>,
}

/// What linking a source to a forge has found.
#[derive(Debug)]
pub struct LinkResult {
    pub forge_repo: String,
    pub display_name: String,
    pub issues: Vec<Issue>,
}

/// Where the token of a forge can come from, and how it is named to the
/// user.
#[derive(Debug)]
pub struct AuthConfig {
    /// The name of the forge in the keyring.
    pub keyring_service: String,
    /// The environment variable that may hold a token.
    pub env_var: String,
    /// The command that prints a token, where the forge has such a tool.
    pub cli_command: Option<Vec<String>>,
    /// The name of the forge in messages.
    pub display_name: String,
    /// The command that links a source to the forge.
    pub link_command: String,
}

/// What an auth configuration holds.
pub struct AuthConfigView {
    pub keyring_service: Seq<char>,
    pub env_var: Seq<char>,
    pub cli_command: Option<Seq<Seq<char>>>,
    pub display_name: Seq<char>,
    pub link_command: Seq<char>,
}

impl View for AuthConfig {
    type V = AuthConfigView;

    open spec fn view(&self) -> AuthConfigView {
        AuthConfigView {
            keyring_service: self.keyring_service@,
            env_var: self.env_var@,
            cli_command: match self.cli_command {
                Some(words) => Some(texts(words@)),
                None => None,
            },
            display_name: self.display_name@,
            link_command: self.link_command@,
        }
    }
}

/// The auth configuration of each forge.
pub open spec fn auth_of(forge: ForgeType) -> AuthConfigView {
    match forge {
        ForgeType::GitHub => AuthConfigView {
            keyring_service: "github"@,
            env_var: "GITHUB_TOKEN"@,
            cli_command: Some(seq!["gh"@, "auth"@, "token"@]),
            display_name: "GitHub"@,
            link_command: "isq link github"@,
        },
        ForgeType::Linear => AuthConfigView {
            keyring_service: "linear"@,
            env_var: "LINEAR_API_KEY"@,
            cli_command: None,
            display_name: "Linear"@,
            link_command: "isq link linear"@,
        },
    }
}

impl ForgeType {
    /// Where the token of the forge can come from.
    pub fn auth(&self) -> (config: AuthConfig)
        ensures
            config@ == auth_of(*self),
    {
        match self {
            ForgeType::GitHub => {
                let mut words: Vec<String> = Vec::new();
                words.push(String::from_str("gh"));
                words.push(String::from_str("auth"));
                words.push(String::from_str("token"));
                proof {
                    assert(texts(words@) =~= seq!["gh"@, "auth"@, "token"@]);
                }
                AuthConfig {
                    keyring_service: String::from_str("github"),
                    env_var: String::from_str("GITHUB_TOKEN"),
                    cli_command: Some(words),
                    display_name: String::from_str("GitHub"),
                    link_command: String::from_str("isq link github"),
                }
            },
            ForgeType::Linear => AuthConfig {
                keyring_service: String::from_str("linear"),
                env_var: String::from_str("LINEAR_API_KEY"),
                cli_command: None,
                display_name: String::from_str("Linear"),
                link_command: String::from_str("isq link linear"),
            },
        }
    }
}

/// The first word of the command that prints a token, where there is one.
pub open spec fn cli_tool(config: AuthConfigView) -> Option<Seq<char>> {
    match config.cli_command {
        Some(words) => if words.len() > 0 {
            Some(words[0])
        } else {
            None
        },
        None => None,
    }
}

/// The message for a forge that no token was found for: it names the ways to
/// get one, numbered from 1, the tool of the forge first where it has one.
pub open spec fn auth_error_text(config: AuthConfigView) -> Seq<char> {
    let head = config.display_name + " not authenticated.\n\n"@;
    match cli_tool(config) {
        Some(tool) => head + "Option 1: Install "@ + tool + " CLI and authenticate\n"@
            + "Option 2: Run: "@ + config.link_command + "\n"@ + "Option 3: Set "@
            + config.env_var + " environment variable"@,
        None => head + "Option 1: Run: "@ + config.link_command + "\n"@ + "Option 2: Set "@
            + config.env_var + " environment variable"@,
    }
}

/// The token that is used: the one the tool of the forge printed, else the
/// stored one, else the one of the environment; the error message where
/// there is none.
pub open spec fn token_chosen(
    config: AuthConfigView,
    from_cli: Option<Seq<char>>,
    stored: Option<Seq<char>>,
    from_env: Option<Seq<char>>,
) -> Result<Seq<char>, Seq<char>> {
    match from_cli {
        Some(t) => Ok(t),
        None => match stored {
            Some(t) => Ok(t),
            None => match from_env {
                Some(t) => Ok(t),
                None => Err(auth_error_text(config)),
            },
        },
    }
}

impl AuthConfig {
    /// The message for the case that no token was found.
    pub fn auth_error(&self) -> (text: String)
        ensures
            text@ == auth_error_text(self@),
    {
        let mut text = self.display_name.clone();
        text.append(" not authenticated.\n\n");
        let tool: Option<&String> = match &self.cli_command {
            Some(words) => if words.len() > 0 {
                Some(&words[0])
            } else {
                None
            },
            None => None,
        };
        match tool {
            Some(tool) => {
                text.append("Option 1: Install ");
                text.append(tool.as_str());
                text.append(" CLI and authenticate\n");
                text.append("Option 2: Run: ");
                text.append(self.link_command.as_str());
                text.append("\n");
                text.append("Option 3: Set ");
                text.append(self.env_var.as_str());
                text.append(" environment variable");
            },
            None => {
                text.append("Option 1: Run: ");
                text.append(self.link_command.as_str());
                text.append("\n");
                text.append("Option 2: Set ");
                text.append(self.env_var.as_str());
                text.append(" environment variable");
            },
        }
        text
    }

    /// The token to use, given what each source of tokens gave: the tool of
    /// the forge, the keyring and the environment, in this order.
    pub fn get_token(
        &self,
        from_cli: Option<String>,
        stored: Option<String>,
        from_env: Option<String>,
    ) -> (r: Result<String, String>)
        ensures
            (match r {
                Ok(t) => Ok::<Seq<char>, Seq<char>>(t@),
                Err(e) => Err(e@),
            }) == token_chosen(self@, opt_text(from_cli), opt_text(stored), opt_text(from_env)),
    {
        match from_cli {
            Some(t) => Ok(t),
            None => match stored {
                Some(t) => Ok(t),
                None => match from_env {
                    Some(t) => Ok(t),
                    None => Err(self.auth_error()),
                },
            },
        }
    }

    /// Whether one of the sources of tokens gave one.
    pub fn has_credentials(&self, from_cli: bool, stored: bool, from_env: bool) -> (b: bool)
        ensures
            b == (from_cli || stored || from_env),
    {
        from_cli || stored || from_env
    }
}

/// What the options of the link command say.
#[derive(Debug)]
pub struct LinkArgs {
    pub team: Option<String>,
    pub list_teams: bool,
}

/// What link arguments hold.
pub struct LinkArgsView {
    pub team: Option<Seq<char>>,
    pub list_teams: bool,
}

impl View for LinkArgs {
    type V = LinkArgsView;

    open spec fn view(&self) -> LinkArgsView {
        LinkArgsView { team: opt_text(self.team), list_teams: self.list_teams }
    }
}

/// Why an option of the link command was refused.
#[derive(Debug)]
pub enum LinkArgsError {
    /// The option has a key that is not known.
    UnknownOption(String),
    /// The option is neither a flag nor of the form key=value.
    InvalidFormat(String),
}

/// What a link argument error holds.
pub enum LinkArgsErrorView {
    UnknownOption(Seq<char>),
    InvalidFormat(Seq<char>),
}

impl View for LinkArgsError {
    type V = LinkArgsErrorView;

    open spec fn view(&self) -> LinkArgsErrorView {
        match self {
            LinkArgsError::UnknownOption(k) => LinkArgsErrorView::UnknownOption(k@),
            LinkArgsError::InvalidFormat(o) => LinkArgsErrorView::InvalidFormat(o@),
        }
    }
}

/// The sentence for a link argument error.
pub open spec fn link_args_error_text(e: LinkArgsErrorView) -> Seq<char> {
    match e {
        LinkArgsErrorView::UnknownOption(k) => "Unknown option: "@ + k,
        LinkArgsErrorView::InvalidFormat(o) => "Invalid option format: "@ + o
            + ". Use key=value or flag name."@,
    }
}

impl LinkArgsError {
    /// The error as a sentence.
    pub fn message(&self) -> (text: String)
        ensures
            text@ == link_args_error_text(self@),
    {
        match self {
            LinkArgsError::UnknownOption(k) => {
                let mut text = String::from_str("Unknown option: ");
                text.append(k.as_str());
                text
            },
            LinkArgsError::InvalidFormat(o) => {
                let mut text = String::from_str("Invalid option format: ");
                text.append(o.as_str());
                text.append(". Use key=value or flag name.");
                text
            },
        }
    }
}

/// The arguments after one more option: the flag `list-teams` sets the
/// flag; `team=` and a value sets the team; any other key, and an option
/// without `=`, is an error.
pub open spec fn with_option(args: LinkArgsView, opt: Seq<char>) -> Result<
    LinkArgsView,
    LinkArgsErrorView,
> {
    if opt == "list-teams"@ {
        Ok(LinkArgsView { list_teams: true, ..args })
    } else if first_index(opt, '=') < opt.len() {
        let key = opt.take(first_index(opt, '='));
        let value = opt.skip(first_index(opt, '=') + 1);
        if key == "team"@ {
            Ok(LinkArgsView { team: Some(value), ..args })
        } else {
            Err(LinkArgsErrorView::UnknownOption(key))
        }
    } else {
        Err(LinkArgsErrorView::InvalidFormat(opt))
    }
}

/// What a list of options says: each option in turn, up to the first that is
/// refused.
pub open spec fn link_args_of(opts: Seq<Seq<char>>) -> Result<LinkArgsView, LinkArgsErrorView>
    decreases opts.len(),
{
    if opts.len() == 0 {
        Ok(LinkArgsView { team: None, list_teams: false })
    } else {
        match link_args_of(opts.drop_last()) {
            Ok(args) => with_option(args, opts.last()),
            Err(e) => Err(e),
        }
    }
}

/// The view of what `LinkArgs::parse` returns.
pub open spec fn link_args_result(r: Result<LinkArgs, LinkArgsError>) -> Result<
    LinkArgsView,
    LinkArgsErrorView,
> {
    match r {
        Ok(a) => Ok(a@),
        Err(e) => Err(e@),
    }
}

impl LinkArgs {
    /// Reads the options of the link command, each a flag or `key=value`.
    pub fn parse(opts: &[String]) -> (r: Result<LinkArgs, LinkArgsError>)
        ensures
            link_args_result(r) == link_args_of(texts(opts@)),
    {
        let mut args = LinkArgs { team: None, list_teams: false };
        let mut i: usize = 0;
        proof {
            assert(texts(opts@).take(0) =~= Seq::empty());
        }
        while i < opts.len()
            invariant
                i <= opts.len(),
                link_args_of(texts(opts@).take(i as int)) == Ok::<LinkArgsView, LinkArgsErrorView>(
                    args@,
                ),
            decreases opts.len() - i,
        {
            let opt = opts[i].as_str();
            let ghost upto = texts(opts@).take(i + 1);
            proof {
                assert(upto.drop_last() =~= texts(opts@).take(i as int));
                assert(upto.last() == opt@);
            }
            if same_text(opt, "list-teams") {
                args.list_teams = true;
            } else {
                let chars = chars_of(opt);
                match find_char(&chars, '=') {
                    Some(at) => {
                        let key = slice_chars(&chars, 0, at);
                        let value = slice_chars(&chars, at + 1, chars.len());
                        proof {
                            assert(chars@.subrange(0, at as int) == chars@.take(at as int));
                            assert(chars@.subrange(at + 1, chars.len() as int) == chars@.skip(
                                at + 1,
                            ));
                        }
                        let key_text = string_of(&key);
                        if same_text(key_text.as_str(), "team") {
                            args.team = Some(string_of(&value));
                        } else {
                            proof {
                                lemma_link_args_error_sticks(texts(opts@), i + 1);
                            }
                            return Err(LinkArgsError::UnknownOption(key_text));
                        }
                    },
                    None => {
                        proof {
                            lemma_link_args_error_sticks(texts(opts@), i + 1);
                        }
                        return Err(LinkArgsError::InvalidFormat(opts[i].clone()));
                    },
                }
            }
            i += 1;
        }
        proof {
            assert(texts(opts@).take(i as int) =~= texts(opts@));
        }
        Ok(args)
    }
}

/// Once an option is refused, the options after it change nothing.
pub proof fn lemma_link_args_error_sticks(opts: Seq<Seq<char>>, k: int)
    requires
        0 <= k <= opts.len(),
        link_args_of(opts.take(k)) is Err,
    ensures
        link_args_of(opts) == link_args_of(opts.take(k)),
    decreases opts.len() - k,
{
    if k < opts.len() {
        assert(opts.take(k + 1).drop_last() =~= opts.take(k));
        lemma_link_args_error_sticks(opts, k + 1);
    } else {
        assert(opts.take(k) =~= opts);
    }
}

} // verus!
