//! Remote containers by owner and name, and how they are read from the URL of
//! a git remote.

use vstd::prelude::*;
use vstd::string::StringExecFns;
use crate::text::{
    chars_of, ends_with, find_char, first_index, is_prefix, is_suffix, slice_chars, starts_with,
    string_of, unicode_lower,
};

verus! {

/// A remote container: a repository by owner and name, or a team by key and
/// id.
#[derive(Debug)]
pub struct Repo {
    pub owner: String,
    pub name: String,
}

/// What a container holds.
pub struct RepoView {
    pub owner: Seq<char>,
    pub name: Seq<char>,
}

impl View for Repo {
    type V = RepoView;

    open spec fn view(&self) -> RepoView {
        RepoView { owner: self.owner@, name: self.name@ }
    }
}

impl Repo {
    /// The owner and the name with a slash between them.
    pub fn full_name(&self) -> (full: String)
        ensures
            full@ == self@.owner + "/"@ + self@.name,
    {
        let mut full = self.owner.clone();
        full.append("/");
        full.append(self.name.as_str());
        full
    }
}

/// Why a text names no container.
#[derive(Debug)]
pub enum RepoError {
    /// The URL begins with none of the known hosts.
    UnsupportedUrl(String),
    /// The path has no slash between an owner and a name.
    NoOwner(String),
}

/// What a repo error holds.
pub enum RepoErrorView {
    UnsupportedUrl(Seq<char>),
    NoOwner(Seq<char>),
}

impl View for RepoError {
    type V = RepoErrorView;

    open spec fn view(&self) -> RepoErrorView {
        match self {
            RepoError::UnsupportedUrl(u) => RepoErrorView::UnsupportedUrl(u@),
            RepoError::NoOwner(p) => RepoErrorView::NoOwner(p@),
        }
    }
}

/// The sentence for a repo error.
pub open spec fn repo_error_text(e: RepoErrorView) -> Seq<char> {
    match e {
        RepoErrorView::UnsupportedUrl(u) => "Unsupported git remote URL format: "@ + u,
        RepoErrorView::NoOwner(p) => "Could not parse owner/repo from: "@ + p,
    }
}

impl RepoError {
    /// The error as a sentence.
    pub fn message(&self) -> (text: String)
        ensures
            text@ == repo_error_text(self@),
    {
        match self {
            RepoError::UnsupportedUrl(u) => {
                let mut text = String::from_str("Unsupported git remote URL format: ");
                text.append(u.as_str());
                text
            },
            RepoError::NoOwner(p) => {
                let mut text = String::from_str("Could not parse owner/repo from: ");
                text.append(p.as_str());
                text
            },
        }
    }
}

/// The ending of the path of a repository that is no part of its name.
pub open spec fn git_suffix() -> Seq<char> {
    seq!['.', 'g', 'i', 't']
}

/// A text without every `.git` at its end.
pub open spec fn without_git_suffix(s: Seq<char>) -> Seq<char>
    decreases s.len(),
{
    if is_suffix(git_suffix(), s) {
        without_git_suffix(s.take(s.len() - 4))
    } else {
        s
    }
}

/// The part of a text before its first `c`; all of it where it has none.
pub open spec fn before_first(s: Seq<char>, c: char) -> Seq<char> {
    s.take(first_index(s, c))
}

/// The part of a text after its first `c`; nothing where it has none.
pub open spec fn after_first(s: Seq<char>, c: char) -> Seq<char> {
    if first_index(s, c) < s.len() {
        s.skip(first_index(s, c) + 1)
    } else {
        Seq::empty()
    }
}

/// Whether a text holds the character `c`.
pub open spec fn holds_char(s: Seq<char>, c: char) -> bool {
    first_index(s, c) < s.len()
}

/// The container that a path of the form `owner/name` names, with or without
/// `.git` at its end and whatever follows a second slash: `None` where the
/// path has no slash.
pub open spec fn owner_and_name(path: Seq<char>) -> Option<RepoView> {
    let p = without_git_suffix(path);
    if holds_char(p, '/') {
        Some(RepoView { owner: before_first(p, '/'), name: before_first(after_first(p, '/'), '/') })
    } else {
        None
    }
}

/// The part of a URL after the host, where the URL begins with one of the
/// four known hosts.
pub open spec fn path_of_url(url: Seq<char>) -> Option<Seq<char>> {
    if is_prefix("git@github.com:"@, url) {
        Some(url.skip("git@github.com:"@.len() as int))
    } else if is_prefix("https://github.com/"@, url) {
        Some(url.skip("https://github.com/"@.len() as int))
    } else if is_prefix("git@gitlab.com:"@, url) {
        Some(url.skip("git@gitlab.com:"@.len() as int))
    } else if is_prefix("https://gitlab.com/"@, url) {
        Some(url.skip("https://gitlab.com/"@.len() as int))
    } else {
        None
    }
}

/// What the URL of a git remote names: a container, or the reason why none.
pub open spec fn repo_of_url(url: Seq<char>) -> Result<RepoView, RepoErrorView> {
    match path_of_url(url) {
        Some(path) => match owner_and_name(path) {
            Some(repo) => Ok(repo),
            None => Err(RepoErrorView::NoOwner(without_git_suffix(path))),
        },
        None => Err(RepoErrorView::UnsupportedUrl(url)),
    }
}

/// The view of what the parsers return.
pub open spec fn repo_result(r: Result<Repo, RepoError>) -> Result<RepoView, RepoErrorView> {
    match r {
        Ok(repo) => Ok(repo@),
        Err(e) => Err(e@),
    }
}

/// The text without every `.git` at its end.
pub fn trim_git_suffix(path: &Vec<char>) -> (trimmed: Vec<char>)
    ensures
        trimmed@ == without_git_suffix(path@),
{
    let suffix = chars_of(".git");
    proof {
        reveal_strlit(".git");
        assert(suffix@ =~= git_suffix());
    }
    let mut end: usize = path.len();
    proof {
        assert(path@.take(path.len() as int) =~= path@);
    }
    while end >= 4 && ends_with_at(path, &suffix, end)
        invariant
            end <= path.len(),
            suffix@ == git_suffix(),
            without_git_suffix(path@) == without_git_suffix(path@.take(end as int)),
        decreases end,
    {
        proof {
            assert(path@.take(end as int).take(end - 4) == path@.take(end - 4));
        }
        end = end - 4;
    }
    proof {
        assert(path@.subrange(0, end as int) == path@.take(end as int));
    }
    slice_chars(path, 0, end)
}

/// Whether the first `end` characters of `s` end with `p`.
fn ends_with_at(s: &Vec<char>, p: &Vec<char>, end: usize) -> (r: bool)
    requires
        end <= s.len(),
    ensures
        r == is_suffix(p@, s@.take(end as int)),
{
    let head = slice_chars(s, 0, end);
    proof {
        assert(s@.subrange(0, end as int) == s@.take(end as int));
    }
    ends_with(&head, p)
}

/// The container that the path `owner/name` names.
pub fn parse_owner_name(path: &str) -> (r: Result<Repo, RepoError>)
    ensures
        repo_result(r) == (match owner_and_name(path@) {
            Some(repo) => Ok::<RepoView, RepoErrorView>(repo),
            None => Err(RepoErrorView::NoOwner(without_git_suffix(path@))),
        }),
{
    let all = chars_of(path);
    let p = trim_git_suffix(&all);
    match find_char(&p, '/') {
        None => Err(RepoError::NoOwner(string_of(&p))),
        Some(at) => {
            let owner = slice_chars(&p, 0, at);
            let rest = slice_chars(&p, at + 1, p.len());
            let name_end = match find_char(&rest, '/') {
                Some(second) => second,
                None => rest.len(),
            };
            let name = slice_chars(&rest, 0, name_end);
            proof {
                assert(p@.subrange(0, at as int) == p@.take(at as int));
                assert(p@.subrange(at + 1, p.len() as int) == p@.skip(at + 1));
                assert(rest@.subrange(0, name_end as int) == rest@.take(name_end as int));
            }
            Ok(Repo { owner: string_of(&owner), name: string_of(&name) })
        },
    }
}

/// The rest of `url` after `prefix`, where `url` begins with it.
fn strip_prefix(url: &Vec<char>, prefix: &str) -> (rest: Option<Vec<char>>)
    ensures
        match rest {
            Some(r) => is_prefix(prefix@, url@) && r@ == url@.skip(prefix@.len() as int),
            None => !is_prefix(prefix@, url@),
        },
{
    let p = chars_of(prefix);
    if starts_with(url, &p) {
        let rest = slice_chars(url, p.len(), url.len());
        proof {
            assert(url@.subrange(p.len() as int, url.len() as int) == url@.skip(p.len() as int));
        }
        Some(rest)
    } else {
        None
    }
}

/// The container that the URL of a git remote names. The URL is of one of
/// four forms: `git@` or `https://` with `github.com` or `gitlab.com`.
pub fn parse_repo_url(url: &str) -> (r: Result<Repo, RepoError>)
    ensures
        repo_result(r) == repo_of_url(url@),
{
    let all = chars_of(url);
    let path = match strip_prefix(&all, "git@github.com:") {
        Some(rest) => Some(rest),
        None => match strip_prefix(&all, "https://github.com/") {
            Some(rest) => Some(rest),
            None => match strip_prefix(&all, "git@gitlab.com:") {
                Some(rest) => Some(rest),
                None => strip_prefix(&all, "https://gitlab.com/"),
            },
        },
    };
    match path {
        Some(rest) => {
            let text = string_of(&rest);
            parse_owner_name(text.as_str())
        },
        None => Err(RepoError::UnsupportedUrl(url.to_owned())),
    }
}

/// The container that the id of a remote names, where the id is two parts
/// with one slash between them.
pub open spec fn two_parts(remote_id: Seq<char>) -> Option<RepoView> {
    if holds_char(remote_id, '/') && !holds_char(after_first(remote_id, '/'), '/') {
        Some(RepoView { owner: before_first(remote_id, '/'), name: after_first(remote_id, '/') })
    } else {
        None
    }
}

/// What an optional container holds.
pub open spec fn opt_repo(r: Option<Repo>) -> Option<RepoView> {
    match r {
        Some(repo) => Some(repo@),
        None => None,
    }
}

/// The container that `remote_id` names: `None` unless the id is exactly two
/// parts with a slash between them.
pub fn split_remote(remote_id: &str) -> (r: Option<Repo>)
    ensures
        opt_repo(r) == two_parts(remote_id@),
{
    let all = chars_of(remote_id);
    match find_char(&all, '/') {
        None => None,
        Some(at) => {
            let owner = slice_chars(&all, 0, at);
            let rest = slice_chars(&all, at + 1, all.len());
            proof {
                assert(all@.subrange(0, at as int) == all@.take(at as int));
                assert(all@.subrange(at + 1, all.len() as int) == all@.skip(at + 1));
            }
            match find_char(&rest, '/') {
                Some(_) => None,
                None => Some(Repo { owner: string_of(&owner), name: string_of(&rest) }),
            }
        },
    }
}

/// Names the answer of `char::is_alphanumeric`: whether Unicode counts the
/// character as a letter or a number.
pub uninterp spec fn alphanumeric(c: char) -> bool;

/// `char::is_alphanumeric` says whether the character is a letter or a
/// number, as Unicode defines them. The answer is a function of the
/// character alone.
pub assume_specification[ char::is_alphanumeric ](c: char) -> (b: bool)
    ensures
        b == alphanumeric(c),
;

/// A text with every character that is neither letter nor number replaced
/// by a dash.
pub open spec fn dashed(s: Seq<char>) -> Seq<char> {
    s.map_values(
        |c: char|
            if alphanumeric(c) {
                c
            } else {
                '-'
            },
    )
}

/// A text without dashes at its beginning and its end, and with every run of
/// dashes inside it drawn together to one dash.
pub open spec fn squeezed(s: Seq<char>) -> Seq<char>
    decreases s.len(),
{
    if s.len() == 0 {
        Seq::empty()
    } else {
        let front = squeezed(s.drop_last());
        if s.last() == '-' {
            front
        } else if front.len() > 0 && s.len() >= 2 && s[s.len() - 2] == '-' {
            front.push('-').push(s.last())
        } else {
            front.push(s.last())
        }
    }
}

/// The longest slug, in characters.
pub const SLUG_LENGTH: usize = 50;

/// The first fifty characters of a text, or all of it.
pub open spec fn clipped(s: Seq<char>) -> Seq<char> {
    if s.len() > SLUG_LENGTH {
        s.take(SLUG_LENGTH as int)
    } else {
        s
    }
}

/// The slug of a text: in lower case, its letters and numbers in runs with
/// one dash between two runs, and at most fifty characters long.
pub open spec fn slug_of(s: Seq<char>) -> Seq<char> {
    clipped(squeezed(dashed(unicode_lower(s))))
}

/// The text with every character that is neither letter nor number replaced
/// by a dash.
pub fn dash_out(s: &Vec<char>) -> (r: Vec<char>)
    ensures
        r@ == dashed(s@),
{
    let mut r: Vec<char> = Vec::new();
    let mut i: usize = 0;
    while i < s.len()
        invariant
            i <= s.len(),
            r@ == dashed(s@).take(i as int),
        decreases s.len() - i,
    {
        let c = s[i];
        let d = if c.is_alphanumeric() {
            c
        } else {
            '-'
        };
        r.push(d);
        proof {
            assert(dashed(s@).take(i + 1) =~= dashed(s@).take(i as int).push(d));
        }
        i += 1;
    }
    proof {
        assert(dashed(s@).take(i as int) =~= dashed(s@));
    }
    r
}

/// The text without dashes at its ends and with every run of dashes inside
/// it drawn together to one.
pub fn squeeze(s: &Vec<char>) -> (r: Vec<char>)
    ensures
        r@ == squeezed(s@),
{
    let mut r: Vec<char> = Vec::new();
    let mut i: usize = 0;
    proof {
        assert(s@.take(0) =~= Seq::empty());
    }
    while i < s.len()
        invariant
            i <= s.len(),
            r@ == squeezed(s@.take(i as int)),
        decreases s.len() - i,
    {
        let c = s[i];
        proof {
            assert(s@.take(i + 1).drop_last() =~= s@.take(i as int));
            assert(s@.take(i + 1).last() == c);
            if i >= 1 {
                assert(s@.take(i + 1)[i - 1] == s@[i - 1]);
            }
        }
        if c != '-' {
            if r.len() > 0 && i >= 1 && s[i - 1] == '-' {
                r.push('-');
            }
            r.push(c);
        }
        i += 1;
    }
    proof {
        assert(s@.take(i as int) =~= s@);
    }
    r
}

/// The slug of a text that is in lower case already.
pub fn slug_of_lowercase(lower: &str) -> (slug: String)
    ensures
        slug@ == clipped(squeezed(dashed(lower@))),
{
    let chars = chars_of(lower);
    let marked = dash_out(&chars);
    let joined = squeeze(&marked);
    if joined.len() > SLUG_LENGTH {
        let head = slice_chars(&joined, 0, SLUG_LENGTH);
        proof {
            assert(joined@.subrange(0, SLUG_LENGTH as int) == joined@.take(SLUG_LENGTH as int));
        }
        string_of(&head)
    } else {
        string_of(&joined)
    }
}

/// The slug of a text, for use in the name of a branch.
pub fn slugify(s: &str) -> (slug: String)
    ensures
        slug@ == slug_of(s@),
{
    let lower = s.to_lowercase();
    slug_of_lowercase(lower.as_str())
}

} // verus!
