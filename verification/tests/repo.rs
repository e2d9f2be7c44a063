use isq::repo::{parse_owner_name, parse_repo_url, slugify, split_remote, Repo, RepoError};

#[test]
fn test_parse_repo_url_github_ssh() {
    let repo = parse_repo_url("git@github.com:owner/repo.git").unwrap();
    assert_eq!(repo.owner, "owner");
    assert_eq!(repo.name, "repo");
}

#[test]
fn test_parse_repo_url_github_https() {
    let repo = parse_repo_url("https://github.com/owner/repo.git").unwrap();
    assert_eq!(repo.owner, "owner");
    assert_eq!(repo.name, "repo");
}

#[test]
fn parse_repo_url_reads_gitlab_too() {
    let repo = parse_repo_url("git@gitlab.com:group/project").unwrap();
    assert_eq!((repo.owner.as_str(), repo.name.as_str()), ("group", "project"));
    let repo = parse_repo_url("https://gitlab.com/group/project.git.git").unwrap();
    assert_eq!((repo.owner.as_str(), repo.name.as_str()), ("group", "project"));
    // what follows a second slash is left out
    let repo = parse_repo_url("https://gitlab.com/group/sub/project.git").unwrap();
    assert_eq!((repo.owner.as_str(), repo.name.as_str()), ("group", "sub"));
}

#[test]
fn parse_repo_url_refuses_other_hosts() {
    let err = parse_repo_url("https://example.com/owner/repo.git").unwrap_err();
    assert!(matches!(&err, RepoError::UnsupportedUrl(u) if u == "https://example.com/owner/repo.git"));
    assert_eq!(
        err.message(),
        "Unsupported git remote URL format: https://example.com/owner/repo.git"
    );
}

#[test]
fn parse_owner_name_needs_a_slash() {
    let err = parse_owner_name("repo.git").unwrap_err();
    assert!(matches!(&err, RepoError::NoOwner(p) if p == "repo"));
    assert_eq!(err.message(), "Could not parse owner/repo from: repo");
    let repo = parse_owner_name("/repo").unwrap();
    assert_eq!((repo.owner.as_str(), repo.name.as_str()), ("", "repo"));
}

#[test]
fn full_name_joins_owner_and_name() {
    let repo = Repo { owner: "owner".to_string(), name: "repo".to_string() };
    assert_eq!(repo.full_name(), "owner/repo");
}

#[test]
fn split_remote_wants_exactly_two_parts() {
    let repo = split_remote("owner/repo").unwrap();
    assert_eq!((repo.owner.as_str(), repo.name.as_str()), ("owner", "repo"));
    let repo = split_remote("ENG/0a1b").unwrap();
    assert_eq!((repo.owner.as_str(), repo.name.as_str()), ("ENG", "0a1b"));
    assert!(split_remote("team-id").is_none());
    assert!(split_remote("a/b/c").is_none());
    assert!(split_remote("").is_none());
    let repo = split_remote("/").unwrap();
    assert_eq!((repo.owner.as_str(), repo.name.as_str()), ("", ""));
}

#[test]
fn slugify_makes_branch_names() {
    assert_eq!(slugify("Fix the login bug"), "fix-the-login-bug");
    assert_eq!(slugify("  --Hello,   World!!  "), "hello-world");
    assert_eq!(slugify("ÄRGER mit Ünïcode"), "ärger-mit-ünïcode");
    assert_eq!(slugify(""), "");
    assert_eq!(slugify("---"), "");
    assert_eq!(slugify("a_b"), "a-b");
}

#[test]
fn slugify_clips_at_fifty_characters() {
    let long = "x".repeat(49) + " yz and more";
    let slug = slugify(&long);
    assert_eq!(slug.chars().count(), 50);
    assert_eq!(slug, "x".repeat(49) + "-");
    assert_eq!(slugify(&"ab ".repeat(30)).chars().count(), 50);
}
