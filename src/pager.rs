use vstd::prelude::*;
use crate::error::ShapeError;
use crate::search::RepositoryResponse;
use crate::topics::{
    lacks_team_topic,
    missing_required_topic,
    texts,
    Repository,
};

verus! {

/// Every repository of `repos` has a topic node list.
pub open spec fn all_have_topics(repos: Seq<Repository>) -> bool {
    forall|i: int| 0 <= i < repos.len() ==> (#[trigger] repos[i]).topics is Some
}

/// The names of the repositories of `repos` that carry no topic of `team`, in order.
pub open spec fn lacking_names(repos: Seq<Repository>, team: Seq<String>) -> Seq<Seq<char>>
    decreases repos.len(),
{
    if repos.len() == 0 {
        seq![]
    } else {
        let rest = lacking_names(repos.drop_last(), team);
        let last = repos.last();
        if lacks_team_topic(last.topics->0@, team) {
            rest.push(last.name@)
        } else {
            rest
        }
    }
}

/// The names of the repositories of `repositories` that carry none of
/// `team_topics`, in their order.
///
/// Fails when a repository has no topic node list.
pub fn report(repositories: &Vec<Repository>, team_topics: &Vec<String>) -> (r: Result<
    Vec<String>,
    ShapeError,
>)
    ensures
        all_have_topics(repositories@) ==> r is Ok && texts(r->Ok_0@) == lacking_names(
            repositories@,
            team_topics@,
        ),
        !all_have_topics(repositories@) ==> r == Err::<Vec<String>, ShapeError>(
            ShapeError::MissingTopics,
        ),
{
    let mut names: Vec<String> = Vec::new();
    let mut i: usize = 0;
    while i < repositories.len()
        invariant
            i <= repositories.len(),
            all_have_topics(repositories@.take(i as int)),
            texts(names@) == lacking_names(repositories@.take(i as int), team_topics@),
        decreases repositories.len() - i,
    {
        let ghost seen = repositories@.take(i as int);
        let ghost next = repositories@.take(i as int + 1);
        assert(next.drop_last() =~= seen);
        let lacks = missing_required_topic(&repositories[i], team_topics);
        match lacks {
            Err(e) => {
                assert(!all_have_topics(repositories@));
                return Err(e);
            },
            Ok(lacks) => {
                if lacks {
                    names.push(repositories[i].name.clone());
                }
                assert(texts(names@) =~= lacking_names(next, team_topics@));
                assert(all_have_topics(next));
            },
        }
        i = i + 1;
    }
    assert(repositories@.take(i as int) =~= repositories@);
    Ok(names)
}

/// Where the walk over the pages of the search stands.
pub enum Pager {
    /// A page is still to be fetched, after the given cursor.
    Fetching { after: Option<String> },
    /// The last page has been handled.
    Done,
}

/// The state after a page whose next-page cursor is `cursor`.
pub open spec fn after_page(cursor: Option<String>) -> Pager {
    match cursor {
        Some(c) => Pager::Fetching { after: Some(c) },
        None => Pager::Done,
    }
}

impl Pager {
    /// The walk before the first page: fetch from the start.
    pub fn new() -> (r: Pager)
        ensures
            r == (Pager::Fetching { after: None }),
    {
        Pager::Fetching { after: None }
    }

    /// Whether the walk is over.
    pub fn is_done(&self) -> (r: bool)
        ensures
            r == (*self is Done),
    {
        match self {
            Pager::Done => true,
            Pager::Fetching { .. } => false,
        }
    }

    /// Handles the page just fetched: returns the next state and the names to
    /// report from it, in order.
    ///
    /// Fails when a repository of the page has no topic node list.
    pub fn on_page(self, page: RepositoryResponse, team_topics: &Vec<String>) -> (r: Result<
        (Pager, Vec<String>),
        ShapeError,
    >)
        requires
            self is Fetching,
        ensures
            all_have_topics(page.repositories@) ==> r is Ok && r->Ok_0.0 == after_page(
                page.after_cursor,
            ) && texts(r->Ok_0.1@) == lacking_names(page.repositories@, team_topics@),
            !all_have_topics(page.repositories@) ==> r == Err::<(Pager, Vec<String>), ShapeError>(
                ShapeError::MissingTopics,
            ),
    {
        match report(&page.repositories, team_topics) {
            Err(e) => Err(e),
            Ok(names) => {
                let next = match page.after_cursor {
                    Some(c) => Pager::Fetching { after: Some(c) },
                    None => Pager::Done,
                };
                Ok((next, names))
            },
        }
    }
}

/// The requests the walk makes from `state`, and the names it reports, when
/// the search answers its requests with `pages` in turn. The walk stops at the
/// first page without a cursor, at the first page with a repository that has
/// no topic node list, or when `pages` has no answer left.
pub open spec fn run(state: Pager, pages: Seq<RepositoryResponse>, team: Seq<String>) -> (
    nat,
    Seq<Seq<char>>,
)
    decreases pages.len(),
{
    match state {
        Pager::Done => (0, seq![]),
        Pager::Fetching { .. } => {
            if pages.len() == 0 {
                (0, seq![])
            } else if !all_have_topics(pages[0].repositories@) {
                (1, seq![])
            } else {
                let rest = run(after_page(pages[0].after_cursor), pages.drop_first(), team);
                (rest.0 + 1, lacking_names(pages[0].repositories@, team) + rest.1)
            }
        },
    }
}

/// The names to report from each page of `pages`, page after page.
pub open spec fn lacking_names_of_pages(pages: Seq<RepositoryResponse>, team: Seq<String>) -> Seq<
    Seq<char>,
>
    decreases pages.len(),
{
    if pages.len() == 0 {
        seq![]
    } else {
        lacking_names(pages[0].repositories@, team) + lacking_names_of_pages(
            pages.drop_first(),
            team,
        )
    }
}

/// Page `k` (counted from one) is the first page of `pages` without a
/// next-page cursor.
pub open spec fn last_page_is(pages: Seq<RepositoryResponse>, k: int) -> bool {
    &&& 1 <= k <= pages.len()
    &&& forall|i: int| 0 <= i < k - 1 ==> (#[trigger] pages[i]).after_cursor is Some
    &&& pages[k - 1].after_cursor is None
}

/// Every repository of the first `k` pages of `pages` has a topic node list.
pub open spec fn pages_have_topics(pages: Seq<RepositoryResponse>, k: int) -> bool {
    forall|i: int| 0 <= i < k ==> all_have_topics((#[trigger] pages[i]).repositories@)
}

proof fn lemma_run_until_last_page(
    after: Option<String>,
    pages: Seq<RepositoryResponse>,
    k: int,
    team: Seq<String>,
)
    requires
        last_page_is(pages, k),
        pages_have_topics(pages, k),
    ensures
        run(Pager::Fetching { after }, pages, team) == (k as nat, lacking_names_of_pages(
            pages.take(k),
            team,
        )),
    decreases k,
{
    assert(all_have_topics(pages[0].repositories@));
    let rest = pages.drop_first();
    let taken = pages.take(k);
    assert(taken[0] == pages[0]);
    if k == 1 {
        assert(taken.drop_first() =~= Seq::<RepositoryResponse>::empty());
        assert(lacking_names_of_pages(taken.drop_first(), team) == Seq::<Seq<char>>::empty());
        assert(after_page(pages[0].after_cursor) == Pager::Done);
        assert(lacking_names_of_pages(taken, team) =~= lacking_names(pages[0].repositories@, team)
            + Seq::<Seq<char>>::empty());
        assert(run(Pager::Done, rest, team) == (0nat, Seq::<Seq<char>>::empty()));
        assert(run(Pager::Fetching { after }, pages, team).0 == 1);
        assert(run(Pager::Fetching { after }, pages, team).1 == lacking_names_of_pages(taken, team));
    } else {
        assert forall|i: int| 0 <= i < k - 2 implies (#[trigger] rest[i]).after_cursor is Some by {
            assert(rest[i] == pages[i + 1]);
        }
        assert forall|i: int| 0 <= i < k - 1 implies all_have_topics(
            (#[trigger] rest[i]).repositories@,
        ) by {
            assert(rest[i] == pages[i + 1]);
        }
        assert(pages[0].after_cursor is Some);
        lemma_run_until_last_page(pages[0].after_cursor, rest, k - 1, team);
        assert(taken.drop_first() =~= rest.take(k - 1));
        assert(run(Pager::Fetching { after }, pages, team).0 == k);
        assert(run(Pager::Fetching { after }, pages, team).1 == lacking_names_of_pages(taken, team));
    }
}

/// When page `k` is the first page without a next-page cursor, the walk makes
/// exactly `k` requests and then stops, however many more pages the search
/// could answer with.
pub proof fn lemma_walk_requests_one_per_page(
    pages: Seq<RepositoryResponse>,
    k: int,
    team: Seq<String>,
)
    requires
        last_page_is(pages, k),
        pages_have_topics(pages, k),
    ensures
        run(Pager::Fetching { after: None }, pages, team).0 == k,
{
    lemma_run_until_last_page(None, pages, k, team);
}

/// The walk reports the names of each page in the order the page gives
/// them, and the names of an earlier page before those of a later one.
pub proof fn lemma_walk_keeps_order(pages: Seq<RepositoryResponse>, k: int, team: Seq<String>)
    requires
        last_page_is(pages, k),
        pages_have_topics(pages, k),
    ensures
        run(Pager::Fetching { after: None }, pages, team).1 == lacking_names_of_pages(
            pages.take(k),
            team,
        ),
{
    lemma_run_until_last_page(None, pages, k, team);
}

} // verus!
