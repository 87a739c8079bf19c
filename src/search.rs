use vstd::prelude::*;
use crate::error::ShapeError;
use crate::topics::Repository;

verus! {

/// One result of a repository search; the search may also match other kinds of node.
pub enum SearchNode {
    Repository(Repository),
    /// A match that is not a repository.
    Other,
}

/// The search payload of one response.
pub struct SearchPage {
    /// The matches, `None` when the response held no node list.
    pub nodes: Option<Vec<Option<SearchNode>>>,
    /// Where the next page starts, `None` on the last page.
    pub end_cursor: Option<String>,
}

/// The repositories of one page, with the cursor of the next page.
pub struct RepositoryResponse {
    pub repositories: Vec<Repository>,
    pub after_cursor: Option<String>,
}

/// The repositories among `nodes`, in their order; null nodes and other
/// kinds of match are left out.
pub open spec fn repositories_of(nodes: Seq<Option<SearchNode>>) -> Seq<Repository>
    decreases nodes.len(),
{
    if nodes.len() == 0 {
        seq![]
    } else {
        let rest = repositories_of(nodes.drop_first());
        match nodes[0] {
            Some(SearchNode::Repository(r)) => seq![r] + rest,
            _ => rest,
        }
    }
}

/// Keeps the repositories of `nodes`, in order.
pub fn repositories_in(nodes: Vec<Option<SearchNode>>) -> (r: Vec<Repository>)
    ensures
        r@ == repositories_of(nodes@),
{
    let mut rest = nodes;
    let mut r: Vec<Repository> = Vec::new();
    while rest.len() > 0
        invariant
            r@ + repositories_of(rest@) == repositories_of(nodes@),
        decreases rest.len(),
    {
        let ghost before = rest@;
        let node = rest.remove(0);
        assert(rest@ =~= before.drop_first());
        match node {
            Some(SearchNode::Repository(repository)) => {
                assert(r@.push(repository) + repositories_of(rest@) =~= r@ + repositories_of(
                    before,
                ));
                r.push(repository);
            },
            _ => {},
        }
    }
    assert(r@ =~= r@ + repositories_of(rest@));
    r
}

/// The repositories of a response and the cursor of the next page.
///
/// Fails when the response has no data payload, or the payload no node list.
pub fn repository_response(data: Option<SearchPage>) -> (r: Result<RepositoryResponse, ShapeError>)
    ensures
        data is None ==> r == Err::<RepositoryResponse, ShapeError>(ShapeError::MissingData),
        data is Some && data->0.nodes is None ==> r == Err::<RepositoryResponse, ShapeError>(
            ShapeError::MissingNodes,
        ),
        data is Some && data->0.nodes is Some ==> r is Ok && r->Ok_0.repositories@
            == repositories_of(data->0.nodes->0@) && r->Ok_0.after_cursor == data->0.end_cursor,
{
    match data {
        None => Err(ShapeError::MissingData),
        Some(page) => match page.nodes {
            None => Err(ShapeError::MissingNodes),
            Some(nodes) => Ok(
                RepositoryResponse {
                    repositories: repositories_in(nodes),
                    after_cursor: page.end_cursor,
                },
            ),
        },
    }
}

} // verus!
