use gitlab_provider::fetch::{FetchRun, FetchState, FetchStep, PageEvent, Provider};
use gitlab_provider::project::{select_page, ProjectNode, RawProject};
use gitlab_provider::provider::{ProviderError, SelfGitlabProvider};
use gitlab_provider::repository::Repository;

fn provider(name: &str, max: usize, use_ssh: bool) -> SelfGitlabProvider {
    SelfGitlabProvider::new(
        name.to_string(),
        "https://gitlab.example.com".to_string(),
        "/tmp/repos".to_string(),
        "ACME_TOKEN".to_string(),
        max,
        use_ssh,
    )
}

fn secret() -> Option<String> {
    Some("s3cr3t".to_string())
}

fn entry(path: &str) -> RawProject {
    RawProject {
        path_with_namespace: Some(path.to_string()),
        ssh_url_to_repo: Some(format!("git@gitlab.example.com:{}.git", path)),
        http_url_to_repo: Some(format!("https://gitlab.example.com/{}.git", path)),
        archived: false,
        default_branch: Some("main".to_string()),
    }
}

fn archived(path: &str) -> RawProject {
    RawProject { archived: true, ..entry(path) }
}

fn page(paths: &[&str]) -> PageEvent {
    PageEvent::Page(paths.iter().map(|p| entry(p)).collect())
}

fn destinations(repositories: &[Repository]) -> Vec<String> {
    repositories.iter().map(|r| r.destination_path().to_string()).collect()
}

fn urls(repositories: &[Repository]) -> Vec<String> {
    repositories.iter().map(|r| r.clone_url().to_string()).collect()
}

fn repositories_of(run: FetchRun) -> Vec<Repository> {
    match run.outcome {
        Ok(repositories) => repositories,
        Err(error) => panic!("the fetch failed: {:?}", error),
    }
}

fn started(p: &SelfGitlabProvider) -> FetchState {
    match p.begin_fetch(&secret()) {
        Ok(state) => state,
        Err(error) => panic!("no fetch: {:?}", error),
    }
}

#[test]
fn repository_keeps_its_parts() {
    let r = Repository::new(
        "/tmp/a".to_string(),
        "git@h:a.git".to_string(),
        Some("main".to_string()),
        None,
    );
    assert_eq!(r.destination_path(), "/tmp/a");
    assert_eq!(r.clone_url(), "git@h:a.git");
    assert_eq!(r.default_branch(), &Some("main".to_string()));
    assert_eq!(r.extra(), &None);
    let c = r.clone();
    assert_eq!(c.destination_path(), "/tmp/a");
    assert_eq!(c.clone_url(), "git@h:a.git");
    assert_eq!(c.default_branch(), &Some("main".to_string()));
    assert_eq!(c.extra(), &None);
    let e = Repository::new(String::new(), String::new(), None, Some("x".to_string()));
    assert_eq!(e.default_branch(), &None);
    assert_eq!(e.extra(), &Some("x".to_string()));
}

#[test]
fn select_takes_a_complete_entry() {
    let node = entry("acme/tool").select(true).expect("taken");
    assert!(!node.archived);
    assert_eq!(node.full_path, "acme/tool");
    assert_eq!(node.clone_url, "git@gitlab.example.com:acme/tool.git");
    assert_eq!(node.default_branch, Some("main".to_string()));
    let node = entry("acme/tool").select(false).expect("taken");
    assert_eq!(node.full_path, "acme/tool");
    assert_eq!(node.clone_url, "https://gitlab.example.com/acme/tool.git");
}

#[test]
fn select_carries_an_absent_branch_through() {
    let e = RawProject { default_branch: None, ..entry("acme/empty") };
    assert_eq!(e.select(true).expect("taken").default_branch, None);
}

#[test]
fn select_skips_archived_and_incomplete_entries() {
    assert!(archived("acme/old").select(true).is_none());
    assert!(archived("acme/old").select(false).is_none());
    let no_path = RawProject { path_with_namespace: None, ..entry("x") };
    assert!(no_path.select(true).is_none());
    assert!(no_path.select(false).is_none());
    let no_ssh = RawProject { ssh_url_to_repo: None, ..entry("x") };
    assert!(no_ssh.select(true).is_none());
    assert!(no_ssh.select(false).is_none());
    let no_http = RawProject { http_url_to_repo: None, ..entry("x") };
    assert!(no_http.select(false).is_none());
    assert_eq!(no_http.select(true).expect("taken").clone_url, "git@gitlab.example.com:x.git");
}

#[test]
fn select_page_appends_in_order() {
    let mut nodes: Vec<ProjectNode> = Vec::new();
    select_page(&mut nodes, &vec![entry("a"), archived("b"), entry("c")], true);
    select_page(&mut nodes, &vec![], true);
    select_page(&mut nodes, &vec![entry("d")], false);
    let paths: Vec<&str> = nodes.iter().map(|n| n.full_path.as_str()).collect();
    assert_eq!(paths, vec!["a", "c", "d"]);
    assert_eq!(nodes[2].clone_url, "https://gitlab.example.com/d.git");
}

#[test]
fn fetch_does_not_begin_without_a_credential() {
    let p = provider("acme", 3, true);
    assert!(matches!(p.begin_fetch(&None), Err(ProviderError::MissingCredential)));
    let run = p.fetch_repositories(&None, &vec![page(&["a"])]);
    assert!(matches!(run.outcome, Err(ProviderError::MissingCredential)));
    assert_eq!(run.requests, 0);
}

#[test]
fn first_request_asks_for_page_one_of_the_lower_case_group() {
    let p = provider("Acme/Org", 3, true);
    let state = started(&p);
    assert_eq!(state.page(), 1);
    assert_eq!(state.gathered(), 0);
    let request = p.next_request(&state);
    assert_eq!(
        request.url,
        "https://gitlab.example.com/api/v4/groups/acme/org/projects?page=1"
    );
    assert_eq!(request.header, "PRIVATE-TOKEN");
    assert_eq!(request.token, "s3cr3t");
}

#[test]
fn a_page_below_the_limit_asks_for_the_next() {
    let p = provider("Acme", 3, true);
    let next = p.advance(started(&p), &page(&["a", "b"]));
    let state = match next {
        FetchStep::Request(state) => state,
        other => panic!("expected a request, got {:?}", other),
    };
    assert_eq!(state.page(), 2);
    assert_eq!(state.gathered(), 2);
    assert_eq!(
        p.next_request(&state).url,
        "https://gitlab.example.com/api/v4/groups/acme/projects?page=2"
    );
}

#[test]
fn a_page_of_skipped_entries_only_asks_for_the_next() {
    let p = provider("acme", 3, true);
    let next = p.advance(started(&p), &PageEvent::Page(vec![archived("a")]));
    match next {
        FetchStep::Request(state) => {
            assert_eq!(state.page(), 2);
            assert_eq!(state.gathered(), 0);
        },
        other => panic!("expected a request, got {:?}", other),
    }
}

#[test]
fn an_empty_page_ends_the_fetch() {
    let p = provider("acme", 3, true);
    let state = match p.advance(started(&p), &page(&["a"])) {
        FetchStep::Request(state) => state,
        other => panic!("expected a request, got {:?}", other),
    };
    match p.advance(state, &PageEvent::Page(vec![])) {
        FetchStep::Finished(repositories) => {
            assert_eq!(destinations(&repositories), vec!["/tmp/repos/a"]);
        },
        other => panic!("expected the end, got {:?}", other),
    }
}

#[test]
fn reaching_the_limit_ends_the_fetch() {
    let p = provider("acme", 2, true);
    match p.advance(started(&p), &page(&["a", "b", "c"])) {
        FetchStep::Finished(repositories) => {
            assert_eq!(destinations(&repositories), vec!["/tmp/repos/a", "/tmp/repos/b"]);
        },
        other => panic!("expected the end, got {:?}", other),
    }
}

#[test]
fn a_failure_ends_the_fetch_with_nothing() {
    let p = provider("acme", 5, true);
    assert!(matches!(
        p.advance(started(&p), &PageEvent::RequestFailed),
        FetchStep::Failed(ProviderError::RemoteRequestFailed)
    ));
    assert!(matches!(
        p.advance(started(&p), &PageEvent::DecodeFailed),
        FetchStep::Failed(ProviderError::RemoteDecodeFailed)
    ));
    let run = p.fetch_repositories(&secret(), &vec![page(&["a"]), PageEvent::RequestFailed]);
    assert!(matches!(run.outcome, Err(ProviderError::RemoteRequestFailed)));
    assert_eq!(run.requests, 2);
    let run = p.fetch_repositories(&secret(), &vec![page(&["a"]), PageEvent::DecodeFailed]);
    assert!(matches!(run.outcome, Err(ProviderError::RemoteDecodeFailed)));
    assert_eq!(run.requests, 2);
}

#[test]
fn deliver_cuts_then_drops_archived_nodes() {
    let p = provider("acme", 2, true);
    let node = |path: &str, archived: bool| ProjectNode {
        archived,
        full_path: path.to_string(),
        clone_url: format!("git@h:{}.git", path),
        default_branch: None,
    };
    let repositories = p.deliver(vec![node("a", true), node("b", false), node("c", false)]);
    assert_eq!(destinations(&repositories), vec!["/tmp/repos/b"]);
    assert_eq!(urls(&repositories), vec!["git@h:b.git"]);
    assert_eq!(repositories[0].default_branch(), &None);
    assert_eq!(repositories[0].extra(), &None);
    assert!(p.deliver(vec![]).is_empty());
}

#[test]
fn two_pages_are_cut_to_the_limit() {
    let p = provider("Acme/Org", 3, true);
    let events = vec![
        PageEvent::Page(vec![entry("acme/org/one"), archived("acme/org/old"), entry("acme/org/two")]),
        page(&["acme/org/three", "acme/org/four"]),
        page(&["acme/org/five"]),
    ];
    let run = p.fetch_repositories(&secret(), &events);
    assert_eq!(run.requests, 2);
    let repositories = repositories_of(run);
    assert_eq!(
        destinations(&repositories),
        vec![
            "/tmp/repos/acme/org/one",
            "/tmp/repos/acme/org/two",
            "/tmp/repos/acme/org/three",
        ]
    );
    assert_eq!(
        urls(&repositories),
        vec![
            "git@gitlab.example.com:acme/org/one.git",
            "git@gitlab.example.com:acme/org/two.git",
            "git@gitlab.example.com:acme/org/three.git",
        ]
    );
    for r in &repositories {
        assert_eq!(r.default_branch(), &Some("main".to_string()));
        assert_eq!(r.extra(), &None);
    }
}

#[test]
fn never_more_than_the_limit() {
    let events = vec![page(&["a", "b", "c"]), page(&["d", "e", "f"]), page(&["g"])];
    for max in 0..9 {
        let p = provider("acme", max, true);
        let repositories = repositories_of(p.fetch_repositories(&secret(), &events));
        assert!(repositories.len() <= max);
        assert_eq!(repositories.len(), max.min(7));
    }
}

#[test]
fn limit_of_zero_returns_nothing_after_one_request() {
    let p = provider("acme", 0, true);
    let run = p.fetch_repositories(&secret(), &vec![page(&["a", "b"]), page(&["c"])]);
    assert_eq!(run.requests, 1);
    assert!(repositories_of(run).is_empty());
}

#[test]
fn archived_entries_are_left_out_wherever_they_stand() {
    let p = provider("acme", 10, true);
    let events = vec![
        PageEvent::Page(vec![archived("x1"), entry("a"), archived("x2")]),
        PageEvent::Page(vec![archived("x3")]),
        PageEvent::Page(vec![entry("b"), archived("x4")]),
    ];
    let run = p.fetch_repositories(&secret(), &events);
    assert_eq!(run.requests, 4);
    assert_eq!(destinations(&repositories_of(run)), vec!["/tmp/repos/a", "/tmp/repos/b"]);
}

#[test]
fn incomplete_entries_are_left_out() {
    let p = provider("acme", 10, true);
    let events = vec![PageEvent::Page(vec![
        RawProject { path_with_namespace: None, ..entry("a") },
        RawProject { ssh_url_to_repo: None, ..entry("b") },
        entry("c"),
    ])];
    let run = p.fetch_repositories(&secret(), &events);
    assert_eq!(destinations(&repositories_of(run)), vec!["/tmp/repos/c"]);
}

#[test]
fn first_empty_page_ends_paging() {
    let p = provider("acme", 10, true);
    let events = vec![page(&["a"]), page(&[]), page(&["b"])];
    let run = p.fetch_repositories(&secret(), &events);
    assert_eq!(run.requests, 2);
    assert_eq!(destinations(&repositories_of(run)), vec!["/tmp/repos/a"]);
}

#[test]
fn answers_that_run_out_end_paging_like_an_empty_page() {
    let p = provider("acme", 10, true);
    let run = p.fetch_repositories(&secret(), &vec![page(&["a"]), page(&["b"])]);
    assert_eq!(run.requests, 3);
    assert_eq!(destinations(&repositories_of(run)), vec!["/tmp/repos/a", "/tmp/repos/b"]);
    let run = p.fetch_repositories(&secret(), &vec![]);
    assert_eq!(run.requests, 1);
    assert!(repositories_of(run).is_empty());
}

#[test]
fn paging_ends_once_the_limit_is_reached() {
    let p = provider("acme", 2, true);
    let events = vec![page(&["a"]), page(&["b", "c"]), PageEvent::RequestFailed];
    let run = p.fetch_repositories(&secret(), &events);
    assert_eq!(run.requests, 2);
    assert_eq!(destinations(&repositories_of(run)), vec!["/tmp/repos/a", "/tmp/repos/b"]);
}

#[test]
fn transport_changes_the_urls_only() {
    let events = vec![
        PageEvent::Page(vec![entry("a"), archived("x"), entry("b")]),
        page(&["c", "d"]),
    ];
    let by_ssh = provider("acme", 3, true).fetch_repositories(&secret(), &events);
    let by_http = provider("acme", 3, false).fetch_repositories(&secret(), &events);
    assert_eq!(by_ssh.requests, by_http.requests);
    let by_ssh = repositories_of(by_ssh);
    let by_http = repositories_of(by_http);
    assert_eq!(destinations(&by_ssh), destinations(&by_http));
    assert_eq!(
        urls(&by_ssh),
        vec![
            "git@gitlab.example.com:a.git",
            "git@gitlab.example.com:b.git",
            "git@gitlab.example.com:c.git",
        ]
    );
    assert_eq!(
        urls(&by_http),
        vec![
            "https://gitlab.example.com/a.git",
            "https://gitlab.example.com/b.git",
            "https://gitlab.example.com/c.git",
        ]
    );
}

#[test]
fn entry_without_http_url_is_left_out_over_http() {
    let events = vec![PageEvent::Page(vec![
        RawProject { http_url_to_repo: None, ..entry("a") },
        entry("b"),
    ])];
    let by_ssh = provider("acme", 5, true).fetch_repositories(&secret(), &events);
    let by_http = provider("acme", 5, false).fetch_repositories(&secret(), &events);
    assert_eq!(destinations(&repositories_of(by_ssh)), vec!["/tmp/repos/a", "/tmp/repos/b"]);
    assert_eq!(destinations(&repositories_of(by_http)), vec!["/tmp/repos/b"]);
}

#[test]
fn destination_is_directory_separator_path() {
    let p = provider("acme", 5, true);
    let run = p.fetch_repositories(&secret(), &vec![page(&["acme/tools/cli"])]);
    let repositories = repositories_of(run);
    assert_eq!(repositories[0].destination_path(), "/tmp/repos/acme/tools/cli");
}
