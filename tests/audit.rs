use repo_topics::error::ShapeError;
use repo_topics::pager::{report, Pager};
use repo_topics::query::ListRepositories;
use repo_topics::search::{repository_response, repositories_in, RepositoryResponse, SearchNode, SearchPage};
use repo_topics::topics::{is_team_topic_name, missing_required_topic, team_topics, Repository};

fn repo(name: &str, topics: &[&str]) -> Repository {
    Repository {
        name: name.to_string(),
        topics: Some(topics.iter().map(|t| Some(t.to_string())).collect()),
    }
}

fn page(repos: Vec<Repository>, cursor: Option<&str>) -> SearchPage {
    SearchPage {
        nodes: Some(repos.into_iter().map(|r| Some(SearchNode::Repository(r))).collect()),
        end_cursor: cursor.map(|c| c.to_string()),
    }
}

/// Runs the walk against `pages`, answering each request with the next page.
/// Returns the cursors that were sent and the printed text.
fn walk(pages: Vec<SearchPage>) -> Result<(Vec<Option<String>>, String), ShapeError> {
    let team = team_topics();
    let mut pages = pages.into_iter();
    let mut sent = Vec::new();
    let mut out = String::new();
    let mut pager = Pager::new();
    while let Pager::Fetching { after } = &pager {
        sent.push(after.clone());
        let response = repository_response(pages.next())?;
        let (next, names) = pager.on_page(response, &team)?;
        for name in names {
            out.push_str(&name);
            out.push('\n');
        }
        pager = next;
    }
    Ok((sent, out))
}

#[test]
fn team_topics_are_the_six_names() {
    assert_eq!(
        team_topics(),
        vec!["platform", "delivery", "customer", "automation", "reporting", "operations"]
    );
}

#[test]
fn each_team_topic_makes_a_repository_compliant() {
    let team = team_topics();
    for topic in ["platform", "delivery", "customer", "automation", "reporting", "operations"] {
        let r = repo("x", &["other", topic, "misc"]);
        assert_eq!(missing_required_topic(&r, &team), Ok(false));
    }
}

#[test]
fn topics_without_a_team_topic_are_missing_one() {
    let team = team_topics();
    assert_eq!(missing_required_topic(&repo("x", &[]), &team), Ok(true));
    assert_eq!(missing_required_topic(&repo("x", &["rust", "cli"]), &team), Ok(true));
    let with_null = Repository {
        name: "x".to_string(),
        topics: Some(vec![None, Some("other".to_string())]),
    };
    assert_eq!(missing_required_topic(&with_null, &team), Ok(true));
}

#[test]
fn topic_comparison_is_case_sensitive() {
    let team = team_topics();
    assert_eq!(missing_required_topic(&repo("x", &["Platform"]), &team), Ok(true));
    assert!(!is_team_topic_name(&"Platform".to_string(), &team));
    assert!(is_team_topic_name(&"platform".to_string(), &team));
}

#[test]
fn absent_topic_list_is_an_error() {
    let team = team_topics();
    let r = Repository { name: "x".to_string(), topics: None };
    assert_eq!(missing_required_topic(&r, &team), Err(ShapeError::MissingTopics));
    let repos = vec![repo("a", &[]), r];
    assert_eq!(report(&repos, &team), Err(ShapeError::MissingTopics));
}

#[test]
fn absent_topic_list_aborts_the_walk() {
    let broken = SearchPage {
        nodes: Some(vec![Some(SearchNode::Repository(Repository {
            name: "x".to_string(),
            topics: None,
        }))]),
        end_cursor: Some("c1".to_string()),
    };
    assert_eq!(walk(vec![broken]).err(), Some(ShapeError::MissingTopics));
}

#[test]
fn report_keeps_the_order_of_the_page() {
    let team = team_topics();
    let repos = vec![
        repo("b", &[]),
        repo("a", &["platform"]),
        repo("d", &["x"]),
        repo("c", &[]),
    ];
    assert_eq!(report(&repos, &team), Ok(vec!["b".to_string(), "d".to_string(), "c".to_string()]));
}

#[test]
fn other_nodes_and_nulls_are_dropped() {
    let nodes = vec![
        Some(SearchNode::Other),
        Some(SearchNode::Repository(repo("one", &[]))),
        None,
        Some(SearchNode::Repository(repo("two", &["platform"]))),
        Some(SearchNode::Other),
    ];
    let repos = repositories_in(nodes);
    let names: Vec<&str> = repos.iter().map(|r| r.name.as_str()).collect();
    assert_eq!(names, vec!["one", "two"]);
}

#[test]
fn missing_data_and_missing_nodes_are_errors() {
    assert_eq!(repository_response(None).err(), Some(ShapeError::MissingData));
    let no_nodes = SearchPage { nodes: None, end_cursor: None };
    assert_eq!(repository_response(Some(no_nodes)).err(), Some(ShapeError::MissingNodes));
}

#[test]
fn response_carries_the_cursor() {
    let r: RepositoryResponse = repository_response(Some(page(vec![repo("a", &[])], Some("abc")))).ok().unwrap();
    assert_eq!(r.after_cursor, Some("abc".to_string()));
    assert_eq!(r.repositories.len(), 1);
    assert_eq!(r.repositories[0].name, "a");
}

#[test]
fn search_text_names_the_organization() {
    assert_eq!(ListRepositories::search_text("researchsquare"), "org:researchsquare archived:false");
    assert_eq!(ListRepositories::search_text(""), "org: archived:false");
}

#[test]
fn walk_makes_one_request_per_page() {
    let pages = vec![
        page(vec![], Some("c1")),
        page(vec![], Some("c2")),
        page(vec![], None),
        page(vec![repo("never", &[])], None),
    ];
    let (sent, out) = walk(pages).ok().unwrap();
    assert_eq!(sent, vec![None, Some("c1".to_string()), Some("c2".to_string())]);
    assert_eq!(out, "");
}

#[test]
fn walk_keeps_page_order() {
    let pages = vec![
        page(vec![repo("p1a", &[]), repo("p1b", &["delivery"]), repo("p1c", &[])], Some("c1")),
        page(vec![repo("p2a", &["z"]), repo("p2b", &[])], None),
    ];
    let (_, out) = walk(pages).ok().unwrap();
    assert_eq!(out, "p1a\np1c\np2a\np2b\n");
}

#[test]
fn walk_end_to_end() {
    let pages = vec![
        page(vec![repo("alpha", &["other"]), repo("beta", &["platform"])], Some("cursor1")),
        page(vec![repo("gamma", &[])], None),
    ];
    let (sent, out) = walk(pages).ok().unwrap();
    assert_eq!(sent, vec![None, Some("cursor1".to_string())]);
    assert_eq!(out, "alpha\ngamma\n");
}

#[test]
fn pager_states() {
    assert!(!Pager::new().is_done());
    assert!(Pager::Done.is_done());
}

#[test]
fn error_messages() {
    assert_eq!(ShapeError::MissingData.message(), "missing response data");
    assert_eq!(ShapeError::MissingNodes.message(), "no nodes found");
    assert_eq!(ShapeError::MissingTopics.message(), "no repository topic list found");
}
