//! The sources: which directories are watched, and which remote container
//! each directory is linked to.

use vstd::prelude::*;
use vstd::seq_lib::*;
use crate::cache::{
    Cache, CacheView, RepoLink, RepoLinkView, WatchedRepo, WatchedRepoView, cache_wf,
    link_keys_unique, watched_keys_unique,
};
use crate::rows::{
    decides, find_row, lemma_filter_all, lemma_filter_pairwise, lemma_filter_twice, lemma_kept_row,
    lemma_pairwise_push, lemma_the_row_at, select_rows, sort_rows, sorted_by, the_row, transitive,
    views,
};
use crate::text::{
    lemma_sorts_before_total, lemma_sorts_before_transitive, opt_str, same_text, sorts_before,
    text_stands_before, texts,
};

verus! {

/// The watched row of a directory, where it is watched.
pub open spec fn watched_row(rows: Seq<WatchedRepoView>, repo: Seq<char>) -> Option<
    WatchedRepoView,
> {
    the_row(rows, |w: WatchedRepoView| w.repo == repo)
}

/// The watch list after `repo` was accessed at `now`: its row carries the new
/// time; a directory that was not watched is, from `now` on.
pub open spec fn touched(rows: Seq<WatchedRepoView>, repo: Seq<char>, now: Seq<char>) -> Seq<
    WatchedRepoView,
> {
    let added_at = match watched_row(rows, repo) {
        Some(w) => w.added_at,
        None => now,
    };
    rows.filter(|w: WatchedRepoView| w.repo != repo).push(
        WatchedRepoView { repo, last_accessed: now, added_at },
    )
}

/// The order of the watch list: the later access first; of two directories
/// accessed at one time, the one whose path stands first.
pub open spec fn more_recent(a: WatchedRepoView, b: WatchedRepoView) -> bool {
    sorts_before(b.last_accessed, a.last_accessed) || (a.last_accessed == b.last_accessed
        && sorts_before(a.repo, b.repo))
}

/// The link of a directory, where it has one.
pub open spec fn link_of(rows: Seq<RepoLinkView>, repo_path: Seq<char>) -> Option<RepoLinkView> {
    the_row(rows, |l: RepoLinkView| l.repo_path == repo_path)
}

/// The links after `repo_path` was linked at `now`. A directory that had a
/// link keeps the time at which it was first linked.
pub open spec fn with_link(
    rows: Seq<RepoLinkView>,
    repo_path: Seq<char>,
    forge_type: Seq<char>,
    forge_repo: Seq<char>,
    display_name: Option<Seq<char>>,
    now: Seq<char>,
) -> Seq<RepoLinkView> {
    let created_at = match link_of(rows, repo_path) {
        Some(l) => l.created_at,
        None => now,
    };
    rows.filter(|l: RepoLinkView| l.repo_path != repo_path).push(
        RepoLinkView { repo_path, forge_type, forge_repo, display_name, created_at },
    )
}

/// The order in which links are listed: the later link first; of two links
/// made at one time, the one whose path stands first.
pub open spec fn newer_link(a: RepoLinkView, b: RepoLinkView) -> bool {
    sorts_before(b.created_at, a.created_at) || (a.created_at == b.created_at && sorts_before(
        a.repo_path,
        b.repo_path,
    ))
}

/// Whether a directory is on the watch list.
pub open spec fn is_watched(rows: Seq<WatchedRepoView>, repo: Seq<char>) -> bool {
    exists|i: int| 0 <= i < rows.len() && (#[trigger] rows[i]).repo == repo
}

/// The store after a cleanup in which `present` are the directories that
/// exist: every watched directory that does not exist is off the watch list
/// and has no link any more.
pub open spec fn cleaned(c: CacheView, present: Seq<Seq<char>>) -> CacheView {
    CacheView {
        watched: c.watched.filter(|w: WatchedRepoView| present.contains(w.repo)),
        links: c.links.filter(
            |l: RepoLinkView| !(is_watched(c.watched, l.repo_path) && !present.contains(l.repo_path)),
        ),
        ..c
    }
}

/// How many entries a cleanup removes from the watch list.
pub open spec fn stale_count(c: CacheView, present: Seq<Seq<char>>) -> nat {
    (c.watched.len() - cleaned(c, present).watched.len()) as nat
}

/// The order of the watch list carries over chains.
pub proof fn lemma_more_recent_transitive()
    ensures
        transitive(|a: WatchedRepoView, b: WatchedRepoView| more_recent(a, b)),
{
    assert forall|a: WatchedRepoView, b: WatchedRepoView, c: WatchedRepoView|
        more_recent(a, b) && more_recent(b, c) implies more_recent(a, c) by {
        if sorts_before(b.last_accessed, a.last_accessed) && sorts_before(
            c.last_accessed,
            b.last_accessed,
        ) {
            lemma_sorts_before_transitive(c.last_accessed, b.last_accessed, a.last_accessed);
        } else if a.last_accessed == b.last_accessed && b.last_accessed == c.last_accessed {
            lemma_sorts_before_transitive(a.repo, b.repo, c.repo);
        }
    }
}

/// The order of the watch list decides between any two watched directories.
pub proof fn lemma_more_recent_decides(rows: Seq<WatchedRepoView>)
    requires
        watched_keys_unique(rows),
    ensures
        decides(rows, |a: WatchedRepoView, b: WatchedRepoView| more_recent(a, b)),
{
    let apart = |a: WatchedRepoView, b: WatchedRepoView| a.repo != b.repo;
    assert forall|i: int, j: int| 0 <= i < j < rows.len() implies more_recent(rows[i], rows[j])
        || more_recent(rows[j], rows[i]) by {
        assert(apart(rows[i], rows[j]));
        if rows[i].last_accessed != rows[j].last_accessed {
            lemma_sorts_before_total(rows[i].last_accessed, rows[j].last_accessed);
        } else {
            lemma_sorts_before_total(rows[i].repo, rows[j].repo);
        }
    }
}

/// The order of the links carries over chains.
pub proof fn lemma_newer_link_transitive()
    ensures
        transitive(|a: RepoLinkView, b: RepoLinkView| newer_link(a, b)),
{
    assert forall|a: RepoLinkView, b: RepoLinkView, c: RepoLinkView|
        newer_link(a, b) && newer_link(b, c) implies newer_link(a, c) by {
        if sorts_before(b.created_at, a.created_at) && sorts_before(c.created_at, b.created_at) {
            lemma_sorts_before_transitive(c.created_at, b.created_at, a.created_at);
        } else if a.created_at == b.created_at && b.created_at == c.created_at {
            lemma_sorts_before_transitive(a.repo_path, b.repo_path, c.repo_path);
        }
    }
}

/// The order of the links decides between any two links.
pub proof fn lemma_newer_link_decides(rows: Seq<RepoLinkView>)
    requires
        link_keys_unique(rows),
    ensures
        decides(rows, |a: RepoLinkView, b: RepoLinkView| newer_link(a, b)),
{
    let apart = |a: RepoLinkView, b: RepoLinkView| a.repo_path != b.repo_path;
    assert forall|i: int, j: int| 0 <= i < j < rows.len() implies newer_link(rows[i], rows[j])
        || newer_link(rows[j], rows[i]) by {
        assert(apart(rows[i], rows[j]));
        if rows[i].created_at != rows[j].created_at {
            lemma_sorts_before_total(rows[i].created_at, rows[j].created_at);
        } else {
            lemma_sorts_before_total(rows[i].repo_path, rows[j].repo_path);
        }
    }
}

/// A cleanup keeps the invariant of the store.
pub proof fn lemma_cleaned_wf(c: CacheView, present: Seq<Seq<char>>)
    requires
        cache_wf(c),
    ensures
        cache_wf(cleaned(c, present)),
{
    lemma_filter_pairwise(
        c.watched,
        |w: WatchedRepoView| present.contains(w.repo),
        |a: WatchedRepoView, b: WatchedRepoView| a.repo != b.repo,
    );
    lemma_filter_pairwise(
        c.links,
        |l: RepoLinkView| !(is_watched(c.watched, l.repo_path) && !present.contains(l.repo_path)),
        |a: RepoLinkView, b: RepoLinkView| a.repo_path != b.repo_path,
    );
}

/// A second cleanup right after a first, with the same directories present,
/// changes nothing and removes no entry.
pub proof fn lemma_cleanup_idempotent(c: CacheView, present: Seq<Seq<char>>)
    ensures
        cleaned(cleaned(c, present), present) == cleaned(c, present),
        stale_count(cleaned(c, present), present) == 0,
{
    let once = cleaned(c, present);
    let here = |w: WatchedRepoView| present.contains(w.repo);
    lemma_filter_twice(c.watched, here);
    let still = |l: RepoLinkView|
        !(is_watched(once.watched, l.repo_path) && !present.contains(l.repo_path));
    assert forall|i: int| 0 <= i < once.links.len() implies still(#[trigger] once.links[i]) by {
        let path = once.links[i].repo_path;
        if is_watched(once.watched, path) {
            let k = choose|k: int| 0 <= k < once.watched.len() && (#[trigger] once.watched[k]).repo
                == path;
            lemma_kept_row(c.watched, here, k);
        }
    }
    lemma_filter_all(once.links, still);
}

/// Whether `path` is one of the listed paths.
pub fn is_listed(present: &[String], path: &str) -> (b: bool)
    ensures
        b == texts(present@).contains(path@),
{
    let mut i: usize = 0;
    while i < present.len()
        invariant
            i <= present.len(),
            forall|j: int| 0 <= j < i ==> texts(present@)[j] != path@,
        decreases present.len() - i,
    {
        if same_text(present[i].as_str(), path) {
            assert(texts(present@)[i as int] == path@);
            return true;
        }
        i += 1;
    }
    false
}

/// Puts `repo` on the watch list, accessed at `now`. A directory that is
/// watched already only gets the new access time.
pub fn add_watched_repo(cache: &mut Cache, repo: &str, now: &str)
    requires
        old(cache).well_formed(),
    ensures
        final(cache).well_formed(),
        final(cache)@ == (CacheView {
            watched: touched(old(cache)@.watched, repo@, now@),
            ..old(cache)@
        }),
{
    proof {
        cache.lemma_view();
    }
    let ghost rows = cache@.watched;
    let ghost apart = |a: WatchedRepoView, b: WatchedRepoView| a.repo != b.repo;
    let ghost this = |w: WatchedRepoView| w.repo == repo@;
    let ghost others = |w: WatchedRepoView| w.repo != repo@;
    let is_this = |w: &WatchedRepo| -> (b: bool)
        ensures
            b == (w@.repo == repo@),
        {
            same_text(w.repo.as_str(), repo)
        };
    let found = find_row(&cache.watched, is_this, Ghost(this));
    let added_at = match found {
        Some(at) => {
            proof {
                lemma_the_row_at(rows, this, apart, at as int);
            }
            cache.watched[at].added_at.clone()
        },
        None => now.to_owned(),
    };
    let is_other = |w: &WatchedRepo| -> (b: bool)
        ensures
            b == (w@.repo != repo@),
        {
            !same_text(w.repo.as_str(), repo)
        };
    let mut kept = select_rows(&cache.watched, is_other, Ghost(others));
    let ghost rest = views(kept@);
    let row = WatchedRepo { repo: repo.to_owned(), last_accessed: now.to_owned(), added_at };
    kept.push(row);
    proof {
        assert(views(kept@) =~= rest.push(row@));
        lemma_filter_pairwise(rows, others, apart);
        assert forall|i: int| 0 <= i < rest.len() implies #[trigger] apart(rest[i], row@) by {
            lemma_kept_row(rows, others, i);
        }
        lemma_pairwise_push(rest, row@, apart);
    }
    cache.watched = kept;
    proof {
        cache.lemma_view();
    }
}

/// Notes that `repo` was accessed at `now`, which raises its priority. A
/// directory that is not watched yet is put on the watch list.
pub fn touch_repo(cache: &mut Cache, repo: &str, now: &str)
    requires
        old(cache).well_formed(),
    ensures
        final(cache).well_formed(),
        final(cache)@ == (CacheView {
            watched: touched(old(cache)@.watched, repo@, now@),
            ..old(cache)@
        }),
{
    add_watched_repo(cache, repo, now)
}

/// The watch list, the most recently accessed directory first.
pub fn list_watched_repos(cache: &Cache) -> (list: Vec<WatchedRepo>)
    requires
        cache.well_formed(),
    ensures
        sorted_by(
            views(list@),
            cache@.watched,
            |a: WatchedRepoView, b: WatchedRepoView| more_recent(a, b),
        ),
{
    proof {
        cache.lemma_view();
        lemma_more_recent_transitive();
        lemma_more_recent_decides(cache@.watched);
    }
    let first = |x: &WatchedRepo, y: &WatchedRepo| -> (b: bool)
        ensures
            b == more_recent(x@, y@),
        {
            text_stands_before(y.last_accessed.as_str(), x.last_accessed.as_str()) || (same_text(
                x.last_accessed.as_str(),
                y.last_accessed.as_str(),
            ) && text_stands_before(x.repo.as_str(), y.repo.as_str()))
        };
    sort_rows(
        &cache.watched,
        first,
        Ghost(|a: WatchedRepoView, b: WatchedRepoView| more_recent(a, b)),
    )
}

/// Takes `repo` off the watch list.
pub fn remove_watched_repo(cache: &mut Cache, repo: &str)
    requires
        old(cache).well_formed(),
    ensures
        final(cache).well_formed(),
        final(cache)@ == (CacheView {
            watched: old(cache)@.watched.filter(|w: WatchedRepoView| w.repo != repo@),
            ..old(cache)@
        }),
{
    proof {
        cache.lemma_view();
        lemma_filter_pairwise(
            cache@.watched,
            |w: WatchedRepoView| w.repo != repo@,
            |a: WatchedRepoView, b: WatchedRepoView| a.repo != b.repo,
        );
    }
    let is_other = |w: &WatchedRepo| -> (b: bool)
        ensures
            b == (w@.repo != repo@),
        {
            !same_text(w.repo.as_str(), repo)
        };
    let kept = select_rows(&cache.watched, is_other, Ghost(|w: WatchedRepoView| w.repo != repo@));
    cache.watched = kept;
    proof {
        cache.lemma_view();
    }
}

/// Drops every watched directory that is not among `present`, the
/// directories found to exist, together with its link, and says how many
/// watch-list entries were dropped.
pub fn cleanup_stale_repos(cache: &mut Cache, present: &[String]) -> (removed: usize)
    requires
        old(cache).well_formed(),
    ensures
        final(cache).well_formed(),
        final(cache)@ == cleaned(old(cache)@, texts(present@)),
        removed == stale_count(old(cache)@, texts(present@)),
{
    proof {
        cache.lemma_view();
        lemma_cleaned_wf(cache@, texts(present@));
    }
    let ghost before = cache@;
    let ghost here = |w: WatchedRepoView| texts(present@).contains(w.repo);
    let ghost stays = |l: RepoLinkView|
        !(is_watched(before.watched, l.repo_path) && !texts(present@).contains(l.repo_path));
    let exists_still = |w: &WatchedRepo| -> (b: bool)
        ensures
            b == texts(present@).contains(w@.repo),
        {
            is_listed(present, w.repo.as_str())
        };
    let kept = select_rows(&cache.watched, exists_still, Ghost(here));
    let watched = &cache.watched;
    let keep_link = |l: &RepoLink| -> (b: bool)
        ensures
            b == !(is_watched(views(watched@), l@.repo_path) && !texts(present@).contains(
                l@.repo_path,
            )),
        {
            !(is_watched_path(watched, l.repo_path.as_str()) && !is_listed(
                present,
                l.repo_path.as_str(),
            ))
        };
    let links = select_rows(&cache.links, keep_link, Ghost(stays));
    proof {
        before.watched.lemma_filter_len(here);
    }
    let removed = cache.watched.len() - kept.len();
    cache.watched = kept;
    cache.links = links;
    proof {
        cache.lemma_view();
    }
    removed
}

/// Whether `path` is on the watch list `rows`.
pub fn is_watched_path(rows: &Vec<WatchedRepo>, path: &str) -> (b: bool)
    ensures
        b == is_watched(views(rows@), path@),
{
    let is_this = |w: &WatchedRepo| -> (b: bool)
        ensures
            b == (w@.repo == path@),
        {
            same_text(w.repo.as_str(), path)
        };
    let found = find_row(rows, is_this, Ghost(|w: WatchedRepoView| w.repo == path@));
    found.is_some()
}

/// The link of `repo_path`, where it has one.
pub fn get_repo_link(cache: &Cache, repo_path: &str) -> (link: Option<RepoLink>)
    requires
        cache.well_formed(),
    ensures
        opt_link(link) == link_of(cache@.links, repo_path@),
        link matches Some(l) ==> l@.repo_path == repo_path@ && cache@.links.contains(l@),
        link is None ==> forall|i: int|
            0 <= i < cache@.links.len() ==> (#[trigger] cache@.links[i]).repo_path != repo_path@,
{
    proof {
        cache.lemma_view();
    }
    let ghost this = |l: RepoLinkView| l.repo_path == repo_path@;
    let is_this = |l: &RepoLink| -> (b: bool)
        ensures
            b == (l@.repo_path == repo_path@),
        {
            same_text(l.repo_path.as_str(), repo_path)
        };
    let found = find_row(&cache.links, is_this, Ghost(this));
    match found {
        Some(at) => {
            proof {
                lemma_the_row_at(
                    cache@.links,
                    this,
                    |a: RepoLinkView, b: RepoLinkView| a.repo_path != b.repo_path,
                    at as int,
                );
            }
            Some(cache.links[at].copy())
        },
        None => None,
    }
}

/// What an optional link holds.
pub open spec fn opt_link(link: Option<RepoLink>) -> Option<RepoLinkView> {
    match link {
        Some(l) => Some(l@),
        None => None,
    }
}

/// Links `repo_path` to the container `forge_repo` of the forge
/// `forge_type`. A directory that was linked before keeps the time of its
/// first link and gets the new target.
pub fn set_repo_link(
    cache: &mut Cache,
    repo_path: &str,
    forge_type: &str,
    forge_repo: &str,
    display_name: Option<&str>,
    now: &str,
)
    requires
        old(cache).well_formed(),
    ensures
        final(cache).well_formed(),
        final(cache)@ == (CacheView {
            links: with_link(
                old(cache)@.links,
                repo_path@,
                forge_type@,
                forge_repo@,
                opt_str(display_name),
                now@,
            ),
            ..old(cache)@
        }),
{
    proof {
        cache.lemma_view();
    }
    let ghost rows = cache@.links;
    let ghost apart = |a: RepoLinkView, b: RepoLinkView| a.repo_path != b.repo_path;
    let ghost this = |l: RepoLinkView| l.repo_path == repo_path@;
    let ghost others = |l: RepoLinkView| l.repo_path != repo_path@;
    let is_this = |l: &RepoLink| -> (b: bool)
        ensures
            b == (l@.repo_path == repo_path@),
        {
            same_text(l.repo_path.as_str(), repo_path)
        };
    let found = find_row(&cache.links, is_this, Ghost(this));
    let created_at = match found {
        Some(at) => {
            proof {
                lemma_the_row_at(rows, this, apart, at as int);
            }
            cache.links[at].created_at.clone()
        },
        None => now.to_owned(),
    };
    let is_other = |l: &RepoLink| -> (b: bool)
        ensures
            b == (l@.repo_path != repo_path@),
        {
            !same_text(l.repo_path.as_str(), repo_path)
        };
    let mut kept = select_rows(&cache.links, is_other, Ghost(others));
    let ghost rest = views(kept@);
    let row = RepoLink {
        repo_path: repo_path.to_owned(),
        forge_type: forge_type.to_owned(),
        forge_repo: forge_repo.to_owned(),
        display_name: match display_name {
            Some(name) => Some(name.to_owned()),
            None => None,
        },
        created_at,
    };
    kept.push(row);
    proof {
        assert(views(kept@) =~= rest.push(row@));
        lemma_filter_pairwise(rows, others, apart);
        assert forall|i: int| 0 <= i < rest.len() implies #[trigger] apart(rest[i], row@) by {
            lemma_kept_row(rows, others, i);
        }
        lemma_pairwise_push(rest, row@, apart);
    }
    cache.links = kept;
    proof {
        cache.lemma_view();
    }
}

/// Removes the link of `repo_path`.
pub fn remove_repo_link(cache: &mut Cache, repo_path: &str)
    requires
        old(cache).well_formed(),
    ensures
        final(cache).well_formed(),
        final(cache)@ == (CacheView {
            links: old(cache)@.links.filter(|l: RepoLinkView| l.repo_path != repo_path@),
            ..old(cache)@
        }),
{
    proof {
        cache.lemma_view();
        lemma_filter_pairwise(
            cache@.links,
            |l: RepoLinkView| l.repo_path != repo_path@,
            |a: RepoLinkView, b: RepoLinkView| a.repo_path != b.repo_path,
        );
    }
    let is_other = |l: &RepoLink| -> (b: bool)
        ensures
            b == (l@.repo_path != repo_path@),
        {
            !same_text(l.repo_path.as_str(), repo_path)
        };
    let kept = select_rows(
        &cache.links,
        is_other,
        Ghost(|l: RepoLinkView| l.repo_path != repo_path@),
    );
    cache.links = kept;
    proof {
        cache.lemma_view();
    }
}

/// All links, the most recently made first.
pub fn list_repo_links(cache: &Cache) -> (list: Vec<RepoLink>)
    requires
        cache.well_formed(),
    ensures
        sorted_by(views(list@), cache@.links, |a: RepoLinkView, b: RepoLinkView| newer_link(a, b)),
{
    proof {
        cache.lemma_view();
        lemma_newer_link_transitive();
        lemma_newer_link_decides(cache@.links);
    }
    let first = |x: &RepoLink, y: &RepoLink| -> (b: bool)
        ensures
            b == newer_link(x@, y@),
        {
            text_stands_before(y.created_at.as_str(), x.created_at.as_str()) || (same_text(
                x.created_at.as_str(),
                y.created_at.as_str(),
            ) && text_stands_before(x.repo_path.as_str(), y.repo_path.as_str()))
        };
    sort_rows(&cache.links, first, Ghost(|a: RepoLinkView, b: RepoLinkView| newer_link(a, b)))
}

} // verus!
