use vstd::prelude::*;
use crate::error::ShapeError;

verus! {

/// A repository as the search reports it: its name and its topic nodes.
///
/// `topics` is `None` when the response held no topic node list; a node of
/// the list is `None` when the response held a null in its place.
pub struct Repository {
    pub name: String,
    pub topics: Option<Vec<Option<String>>>,
}

/// The text of each string of a sequence.
pub open spec fn texts(v: Seq<String>) -> Seq<Seq<char>> {
    v.map_values(|s: String| s@)
}

/// `name` is one of the topics of `team`.
pub open spec fn is_team_topic(name: Seq<char>, team: Seq<String>) -> bool {
    exists|j: int| 0 <= j < team.len() && #[trigger] team[j]@ == name
}

/// No present node of `nodes` names a topic of `team`.
pub open spec fn lacks_team_topic(nodes: Seq<Option<String>>, team: Seq<String>) -> bool {
    forall|i: int|
        0 <= i < nodes.len() && #[trigger] nodes[i] is Some ==> !is_team_topic(nodes[i]->0@, team)
}

/// The six topics that mark a repository as owned by a team.
pub open spec fn team_topic_texts() -> Seq<Seq<char>> {
    seq![
        "platform"@,
        "delivery"@,
        "customer"@,
        "automation"@,
        "reporting"@,
        "operations"@,
    ]
}

/// The topics that mark a repository as owned by a team.
pub fn team_topics() -> (r: Vec<String>)
    ensures
        texts(r@) == team_topic_texts(),
{
    let mut r: Vec<String> = Vec::new();
    r.push("platform".to_owned());
    r.push("delivery".to_owned());
    r.push("customer".to_owned());
    r.push("automation".to_owned());
    r.push("reporting".to_owned());
    r.push("operations".to_owned());
    assert(texts(r@) =~= team_topic_texts());
    r
}

/// Whether `name` is one of `team_topics`, compared exactly.
pub fn is_team_topic_name(name: &String, team_topics: &Vec<String>) -> (r: bool)
    ensures
        r == is_team_topic(name@, team_topics@),
{
    let mut j: usize = 0;
    while j < team_topics.len()
        invariant
            j <= team_topics.len(),
            forall|k: int| 0 <= k < j ==> team_topics@[k]@ != name@,
        decreases team_topics.len() - j,
    {
        if team_topics[j] == *name {
            return true;
        }
        j = j + 1;
    }
    false
}

/// Whether `repository` carries none of `team_topics`.
///
/// Fails when the repository has no topic node list: that is a broken
/// response, not a repository without topics.
pub fn missing_required_topic(repository: &Repository, team_topics: &Vec<String>) -> (r: Result<
    bool,
    ShapeError,
>)
    ensures
        repository.topics is None ==> r == Err::<bool, ShapeError>(ShapeError::MissingTopics),
        repository.topics is Some ==> r == Ok::<bool, ShapeError>(
            lacks_team_topic(repository.topics->0@, team_topics@),
        ),
{
    match &repository.topics {
        None => Err(ShapeError::MissingTopics),
        Some(nodes) => {
            let mut i: usize = 0;
            while i < nodes.len()
                invariant
                    i <= nodes.len(),
                    repository.topics == Some(*nodes),
                    forall|k: int|
                        0 <= k < i && #[trigger] nodes@[k] is Some ==> !is_team_topic(
                            nodes@[k]->0@,
                            team_topics@,
                        ),
                decreases nodes.len() - i,
            {
                match &nodes[i] {
                    Some(name) => {
                        if is_team_topic_name(name, team_topics) {
                            assert(nodes@[i as int] is Some);
                            return Ok(false);
                        }
                    },
                    None => {},
                }
                i = i + 1;
            }
            Ok(true)
        },
    }
}

/// A topic list with a present node that names one of the team topics is
/// not missing a team topic.
pub proof fn lemma_team_topic_is_enough(nodes: Seq<Option<String>>, team: Seq<String>, i: int)
    requires
        texts(team) == team_topic_texts(),
        0 <= i < nodes.len(),
        nodes[i] is Some,
        team_topic_texts().contains(nodes[i]->0@),
    ensures
        !lacks_team_topic(nodes, team),
{
    let j = choose|j: int| 0 <= j < team_topic_texts().len() && team_topic_texts()[j] == nodes[i]->0@;
    assert(texts(team)[j] == team[j]@);
    assert(is_team_topic(nodes[i]->0@, team));
}

/// A topic list none of whose present nodes names a team topic, the empty
/// list among them, is missing a team topic.
pub proof fn lemma_no_team_topic_is_missing(nodes: Seq<Option<String>>, team: Seq<String>)
    requires
        texts(team) == team_topic_texts(),
        forall|i: int|
            0 <= i < nodes.len() && #[trigger] nodes[i] is Some ==> !team_topic_texts().contains(
                nodes[i]->0@,
            ),
    ensures
        lacks_team_topic(nodes, team),
{
    assert forall|i: int| 0 <= i < nodes.len() && #[trigger] nodes[i] is Some implies !is_team_topic(
        nodes[i]->0@,
        team,
    ) by {
        if is_team_topic(nodes[i]->0@, team) {
            let j = choose|j: int| 0 <= j < team.len() && #[trigger] team[j]@ == nodes[i]->0@;
            assert(texts(team)[j] == team[j]@);
            assert(team_topic_texts().contains(nodes[i]->0@));
        }
    }
}

} // verus!
