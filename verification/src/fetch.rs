//! The paging state machine: which request comes next, what a page adds to
//! what was gathered, and when the fetch ends.
//!
//! A fetch ends with a failure, with an empty page, or once it has gathered
//! as many nodes as the limit. Nothing else ends it: the number of pages is
//! not bounded, and a remote that keeps sending pages that are not empty and
//! add nothing is asked for as long as it answers.

use crate::project::{nodes_view, page_view, select_page, selected, ProjectNode, ProjectNodeView, RawProject, RawProjectView};
use crate::provider::{diagnostic_lines, listing, listing_url, ProviderError, ProviderView, SelfGitlabProvider};
use crate::repository::{copy_text, text_of, Repository, RepositoryView};
use crate::text::{ends_with_separator, has_trailing_separator, join_path, joined, lowercase, lowercase_of};
use vstd::prelude::*;
use vstd::string::*;

verus! {

/// The views of a sequence of repositories, in order.
pub open spec fn repositories_view(repositories: Seq<Repository>) -> Seq<RepositoryView> {
    repositories.map_values(|r: Repository| r@)
}

/// The first `max` nodes, or all of them where there are fewer.
pub open spec fn capped(nodes: Seq<ProjectNodeView>, max: nat) -> Seq<ProjectNodeView> {
    if max <= nodes.len() {
        nodes.take(max as int)
    } else {
        nodes
    }
}

/// The nodes that are not archived, in order.
pub open spec fn live(nodes: Seq<ProjectNodeView>) -> Seq<ProjectNodeView> {
    nodes.filter(|n: ProjectNodeView| !n.archived)
}

/// The repository that a node stands for, below the directory `path`.
pub open spec fn repository_of(path: Seq<char>, node: ProjectNodeView) -> RepositoryView {
    RepositoryView {
        destination_path: joined(path, node.full_path),
        clone_url: node.clone_url,
        default_branch: node.default_branch,
        extra: None,
    }
}

/// What a fetch returns for the nodes it gathered: the first `max` of them,
/// without those that are archived, each as a repository below `path`.
pub open spec fn delivered(path: Seq<char>, max: nat, nodes: Seq<ProjectNodeView>) -> Seq<
    RepositoryView,
> {
    live(capped(nodes, max)).map_values(|n: ProjectNodeView| repository_of(path, n))
}

/// What a [`FetchState`] holds, as plain values.
pub ghost struct FetchStateView {
    /// The number of the page to ask for next; the first page is page 1.
    pub page: nat,
    pub token: Seq<char>,
    /// The name of the group as it stands in each request.
    pub namespace: Seq<char>,
    /// The nodes gathered from the pages received so far.
    pub nodes: Seq<ProjectNodeView>,
}

/// A fetch in progress, between two requests.
#[derive(Debug)]
pub struct FetchState {
    page: u64,
    token: String,
    namespace: String,
    nodes: Vec<ProjectNode>,
}

impl View for FetchState {
    type V = FetchStateView;

    closed spec fn view(&self) -> FetchStateView {
        FetchStateView {
            page: self.page as nat,
            token: self.token@,
            namespace: self.namespace@,
            nodes: nodes_view(self.nodes@),
        }
    }
}

/// What a [`PageEvent`] holds, as plain values.
pub ghost enum PageEventView {
    Page(Seq<RawProjectView>),
    RequestFailed,
    DecodeFailed,
}

/// What came back for one request.
#[derive(Debug)]
pub enum PageEvent {
    /// The decoded entries of the page, in the order of the remote.
    Page(Vec<RawProject>),
    /// No answer, or an answer with a failure status.
    RequestFailed,
    /// An answer whose body is not a list of entries.
    DecodeFailed,
}

impl View for PageEvent {
    type V = PageEventView;

    open spec fn view(&self) -> PageEventView {
        match self {
            PageEvent::Page(entries) => PageEventView::Page(page_view(entries@)),
            PageEvent::RequestFailed => PageEventView::RequestFailed,
            PageEvent::DecodeFailed => PageEventView::DecodeFailed,
        }
    }
}

/// What a [`FetchStep`] holds, as plain values.
pub ghost enum FetchStepView {
    Request(FetchStateView),
    Finished(Seq<RepositoryView>),
    Failed(ProviderError),
}

/// What follows an answer of the remote.
#[derive(Debug)]
pub enum FetchStep {
    /// Another page is needed: send the request of this state.
    Request(FetchState),
    /// The fetch is complete, with these repositories.
    Finished(Vec<Repository>),
    /// The fetch has failed; nothing is returned.
    Failed(ProviderError),
}

impl View for FetchStep {
    type V = FetchStepView;

    open spec fn view(&self) -> FetchStepView {
        match self {
            FetchStep::Request(state) => FetchStepView::Request(state@),
            FetchStep::Finished(repositories) => FetchStepView::Finished(
                repositories_view(repositories@),
            ),
            FetchStep::Failed(error) => FetchStepView::Failed(*error),
        }
    }
}

/// The request for one page.
#[derive(Debug)]
pub struct PageRequest {
    /// The URL to get.
    pub url: String,
    /// The name of the header that carries the credential.
    pub header: String,
    /// The credential.
    pub token: String,
}

/// The state in which a fetch starts: page 1, nothing gathered.
pub open spec fn initial(config: ProviderView, token: Seq<char>) -> FetchStateView {
    FetchStateView {
        page: 1,
        token,
        namespace: lowercase_of(config.name),
        nodes: Seq::empty(),
    }
}

/// The transition of the state machine. A failure ends the fetch with that
/// failure. An empty page ends it with what was gathered before. Any other
/// page adds its selected entries; the fetch then ends if it has gathered as
/// many nodes as the limit or more, and asks for the next page if not.
pub open spec fn step(config: ProviderView, state: FetchStateView, event: PageEventView)
    -> FetchStepView {
    match event {
        PageEventView::RequestFailed => FetchStepView::Failed(ProviderError::RemoteRequestFailed),
        PageEventView::DecodeFailed => FetchStepView::Failed(ProviderError::RemoteDecodeFailed),
        PageEventView::Page(entries) => {
            if entries.len() == 0 {
                FetchStepView::Finished(delivered(config.path, config.max, state.nodes))
            } else {
                let nodes = state.nodes + selected(entries, config.use_ssh);
                if nodes.len() >= config.max {
                    FetchStepView::Finished(delivered(config.path, config.max, nodes))
                } else {
                    FetchStepView::Request(
                        FetchStateView { page: state.page + 1, nodes, ..state },
                    )
                }
            }
        },
    }
}

/// The views of a sequence of answers, in order.
pub open spec fn events_view(events: Seq<PageEvent>) -> Seq<PageEventView> {
    events.map_values(|e: PageEvent| e@)
}

/// How a fetch ended, and how many requests it made.
pub ghost struct FetchRunView {
    pub outcome: Result<Seq<RepositoryView>, ProviderError>,
    pub requests: nat,
}

/// How a fetch ended, and how many requests it made.
#[derive(Debug)]
pub struct FetchRun {
    /// The repositories, or why there are none.
    pub outcome: Result<Vec<Repository>, ProviderError>,
    /// The number of requests that were made.
    pub requests: usize,
}

impl View for FetchRun {
    type V = FetchRunView;

    open spec fn view(&self) -> FetchRunView {
        FetchRunView {
            outcome: match self.outcome {
                Ok(repositories) => Ok(repositories_view(repositories@)),
                Err(error) => Err(error),
            },
            requests: self.requests as nat,
        }
    }
}

/// The rest of a fetch that is in `state` and gets `events[from]` as its next
/// answer, `events[from + 1]` as the one after that, and so on. A remote
/// whose answers have run out answers with an empty page.
pub open spec fn run(
    config: ProviderView,
    state: FetchStateView,
    events: Seq<PageEventView>,
    from: int,
) -> FetchRunView
    decreases events.len() - from,
{
    if from < 0 || from >= events.len() {
        FetchRunView { outcome: Ok(delivered(config.path, config.max, state.nodes)), requests: 1 }
    } else {
        match step(config, state, events[from]) {
            FetchStepView::Failed(error) => FetchRunView { outcome: Err(error), requests: 1 },
            FetchStepView::Finished(repositories) => FetchRunView {
                outcome: Ok(repositories),
                requests: 1,
            },
            FetchStepView::Request(next) => {
                let rest = run(config, next, events, from + 1);
                FetchRunView { outcome: rest.outcome, requests: rest.requests + 1 }
            },
        }
    }
}

/// A whole fetch against a remote that gives `events` as its answers, in
/// order. Without a credential it fails before any request.
pub open spec fn fetched(
    config: ProviderView,
    token: Option<Seq<char>>,
    events: Seq<PageEventView>,
) -> FetchRunView {
    match token {
        None => FetchRunView { outcome: Err(ProviderError::MissingCredential), requests: 0 },
        Some(t) => run(config, initial(config, t), events, 0),
    }
}

/// A source of repositories: some group or user on some forge. A provider
/// checks its configuration, and fetches the repositories to clone. It does
/// neither input nor output: the credential that was found is handed in, and
/// so is what the remote answers.
pub trait Provider {
    /// What the remote sends back for one request.
    type Answer;

    /// The number of repositories that a fetch returns at most.
    spec fn limit(&self) -> nat;

    /// Tells whether the configuration can be used, given the credential that
    /// was found, if any. Without a credential it cannot.
    fn correctly_configured(&self, token: &Option<String>) -> (ok: bool)
        ensures
            token is None ==> !ok,
    ;

    /// Runs a whole fetch against recorded answers, the first of which
    /// answers the first request. Without a credential the fetch fails
    /// before any request; with one it makes at most one request more than
    /// there are answers, and returns no more repositories than the limit.
    fn fetch_repositories(&self, token: &Option<String>, answers: &Vec<Self::Answer>) -> (done:
        FetchRun)
        requires
            answers.len() < usize::MAX,
        ensures
            token is None ==> done@ == (FetchRunView {
                outcome: Err(ProviderError::MissingCredential),
                requests: 0,
            }),
            token is Some ==> 1 <= done.requests <= answers.len() + 1,
            done.outcome matches Ok(repositories) ==> repositories.len() <= self.limit(),
    ;
}

impl FetchState {
    /// The number of the page to ask for next.
    pub fn page(&self) -> (page: u64)
        ensures
            page == self@.page,
    {
        self.page
    }

    /// The number of nodes gathered so far.
    pub fn gathered(&self) -> (n: usize)
        ensures
            n == self@.nodes.len(),
    {
        self.nodes.len()
    }
}

impl SelfGitlabProvider {
    /// Starts a fetch with the credential that was found, if any. Without a
    /// credential there is no fetch.
    pub fn begin_fetch(&self, token: &Option<String>) -> (r: Result<FetchState, ProviderError>)
        ensures
            match r {
                Ok(state) => token is Some && state@ == initial(self@, token->0@),
                Err(error) => token is None && error == ProviderError::MissingCredential,
            },
    {
        match token {
            None => Err(ProviderError::MissingCredential),
            Some(t) => {
                let state = FetchState {
                    page: 1,
                    token: t.clone(),
                    namespace: lowercase(self.name.as_str()),
                    nodes: Vec::new(),
                };
                assert(nodes_view(state.nodes@) =~= Seq::<ProjectNodeView>::empty());
                Ok(state)
            },
        }
    }

    /// The request that a state asks for: the listing of its page, with the
    /// credential in the header `PRIVATE-TOKEN`.
    pub fn next_request(&self, state: &FetchState) -> (request: PageRequest)
        ensures
            request.url@ == listing(self@.url, state@.namespace, state@.page),
            request.header@ == "PRIVATE-TOKEN"@,
            request.token@ == state@.token,
    {
        PageRequest {
            url: listing_url(self.url.as_str(), state.namespace.as_str(), state.page),
            header: String::from_str("PRIVATE-TOKEN"),
            token: state.token.clone(),
        }
    }

    /// Ends a fetch: keeps the first `max` nodes, drops those that are
    /// archived, and turns each of the others into a repository.
    pub fn deliver(&self, nodes: Vec<ProjectNode>) -> (repositories: Vec<Repository>)
        ensures
            repositories_view(repositories@) == delivered(
                self@.path,
                self@.max,
                nodes_view(nodes@),
            ),
            repositories.len() <= self@.max,
    {
        let mut nodes = nodes;
        let ghost all: Seq<ProjectNodeView> = nodes_view(nodes@);
        nodes.truncate(self.max);
        let ghost kept: Seq<ProjectNodeView> = nodes_view(nodes@);
        assert(kept =~= capped(all, self@.max));
        let ghost unarchived = |n: ProjectNodeView| !n.archived;
        let ghost as_repository = |n: ProjectNodeView| repository_of(self@.path, n);
        let mut repositories: Vec<Repository> = Vec::new();
        let mut i: usize = 0;
        while i < nodes.len()
            invariant
                i <= nodes.len(),
                nodes.len() <= self@.max,
                kept == nodes_view(nodes@),
                unarchived == (|n: ProjectNodeView| !n.archived),
                as_repository == (|n: ProjectNodeView| repository_of(self@.path, n)),
                repositories_view(repositories@) == kept.take(i as int).filter(
                    unarchived,
                ).map_values(as_repository),
                repositories.len() <= i,
            decreases nodes.len() - i,
        {
            let ghost before: Seq<RepositoryView> = repositories_view(repositories@);
            proof {
                assert(kept.take(i + 1).drop_last() =~= kept.take(i as int));
                reveal(Seq::filter);
            }
            let node: &ProjectNode = &nodes[i];
            if !node.archived {
                let repository = Repository::new(
                    join_path(self.path.as_str(), node.full_path.as_str()),
                    node.clone_url.clone(),
                    copy_text(&node.default_branch),
                    None,
                );
                repositories.push(repository);
                assert(repositories_view(repositories@) =~= before.push(
                    repository_of(self@.path, node@),
                ));
            }
            i = i + 1;
        }
        assert(kept.take(i as int) =~= kept);
        repositories
    }

    /// Takes the answer to the request of `state` and says what follows: the
    /// next request, the repositories, or the failure.
    pub fn advance(&self, state: FetchState, event: &PageEvent) -> (next: FetchStep)
        requires
            state@.page < u64::MAX,
        ensures
            next@ == step(self@, state@, event@),
            next matches FetchStep::Finished(repositories) ==> repositories.len() <= self@.max,
    {
        match event {
            PageEvent::RequestFailed => FetchStep::Failed(ProviderError::RemoteRequestFailed),
            PageEvent::DecodeFailed => FetchStep::Failed(ProviderError::RemoteDecodeFailed),
            PageEvent::Page(entries) => {
                let FetchState { page, token, namespace, nodes } = state;
                let mut nodes = nodes;
                if entries.len() == 0 {
                    FetchStep::Finished(self.deliver(nodes))
                } else {
                    select_page(&mut nodes, entries, self.use_ssh);
                    if nodes.len() >= self.max {
                        FetchStep::Finished(self.deliver(nodes))
                    } else {
                        FetchStep::Request(FetchState { page: page + 1, token, namespace, nodes })
                    }
                }
            },
        }
    }

}

impl Provider for SelfGitlabProvider {
    type Answer = PageEvent;

    open spec fn limit(&self) -> nat {
        self@.max
    }

    /// Tells whether the configuration can be used, given the credential that
    /// was found, if any: a credential is there, and the name does not end
    /// with a path separator.
    fn correctly_configured(&self, token: &Option<String>) -> (ok: bool)
        ensures
            ok == (token is Some && !ends_with_separator(self@.name)),
            ok == (diagnostic_lines(self@, token is Some).len() == 0),
    {
        token.is_some() && !has_trailing_separator(self.name.as_str())
    }

    /// Runs a whole fetch against recorded answers: `events[0]` answers the
    /// request for page 1, `events[1]` the one for page 2, and so on; once
    /// they have run out, the remote answers with an empty page. Answers
    /// that the fetch does not ask for are not looked at.
    fn fetch_repositories(&self, token: &Option<String>, events: &Vec<PageEvent>) -> (done:
        FetchRun)
        ensures
            done@ == fetched(self@, text_of(*token), events_view(events@)),
    {
        let ghost answers: Seq<PageEventView> = events_view(events@);
        let mut state: FetchState = match self.begin_fetch(token) {
            Ok(state) => state,
            Err(error) => {
                return FetchRun { outcome: Err(error), requests: 0 };
            },
        };
        let ghost whole: FetchRunView = fetched(self@, text_of(*token), answers);
        let mut i: usize = 0;
        while i < events.len()
            invariant
                i <= events.len(),
                events.len() < usize::MAX,
                answers == events_view(events@),
                whole == fetched(self@, text_of(*token), answers),
                state@.page == i + 1,
                whole.outcome == run(self@, state@, answers, i as int).outcome,
                whole.requests == run(self@, state@, answers, i as int).requests + i,
            decreases events.len() - i,
        {
            match self.advance(state, &events[i]) {
                FetchStep::Request(next) => {
                    state = next;
                    i = i + 1;
                },
                FetchStep::Finished(repositories) => {
                    return FetchRun { outcome: Ok(repositories), requests: i + 1 };
                },
                FetchStep::Failed(error) => {
                    return FetchRun { outcome: Err(error), requests: i + 1 };
                },
            }
        }
        let FetchState { page, token, namespace, nodes } = state;
        FetchRun { outcome: Ok(self.deliver(nodes)), requests: i + 1 }
    }
}

} // verus!
