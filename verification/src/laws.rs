//! What holds of every fetch, whatever the remote answers.

use crate::fetch::{capped, delivered, fetched, initial, live, repository_of, run, step, FetchRunView, FetchStateView, FetchStepView, PageEventView};
use crate::project::{chosen_url, selected, selection, taken, ProjectNodeView, RawProjectView};
use crate::provider::{ProviderError, ProviderView};
use crate::repository::RepositoryView;
use crate::text::{ends_with_separator, joined, joined_by_one, separator, starts_with_separator};
use vstd::prelude::*;

verus! {

/// Whether answer `j` is a page that has an entry at index `k`.
pub open spec fn on_page(events: Seq<PageEventView>, j: int, k: int) -> bool {
    &&& 0 <= j < events.len()
    &&& events[j] is Page
    &&& 0 <= k < events[j]->Page_0.len()
}

/// The entry at index `k` of the page that is answer `j`.
pub open spec fn entry_at(events: Seq<PageEventView>, j: int, k: int) -> RawProjectView {
    events[j]->Page_0[k]
}

/// Whether `repository` is what a fetch with `config` makes of `entry`:
/// the entry is taken, and the repository is the one of its node.
pub open spec fn comes_from(
    config: ProviderView,
    repository: RepositoryView,
    entry: RawProjectView,
) -> bool {
    &&& taken(entry, config.use_ssh)
    &&& repository == repository_of(config.path, selection(entry, config.use_ssh)->0)
}

/// Whether `node` is the selection of an entry of one of the pages.
pub open spec fn has_origin(config: ProviderView, events: Seq<PageEventView>, node: ProjectNodeView)
    -> bool {
    exists|j: int, k: int| #[trigger]
        on_page(events, j, k) && selection(entry_at(events, j, k), config.use_ssh) == Some(node)
}

/// What is delivered is never more than the limit.
proof fn lemma_delivered_bounded(path: Seq<char>, max: nat, nodes: Seq<ProjectNodeView>)
    ensures
        delivered(path, max, nodes).len() <= max,
{
    capped(nodes, max).lemma_filter_len(|n: ProjectNodeView| !n.archived);
}

/// Each repository that is delivered is the repository of one of the nodes,
/// and that node is not archived.
proof fn lemma_delivered_from_nodes(
    path: Seq<char>,
    max: nat,
    nodes: Seq<ProjectNodeView>,
    i: int,
) -> (node: ProjectNodeView)
    requires
        0 <= i < delivered(path, max, nodes).len(),
    ensures
        nodes.contains(node),
        !node.archived,
        delivered(path, max, nodes)[i] == repository_of(path, node),
{
    let unarchived = |n: ProjectNodeView| !n.archived;
    let first = capped(nodes, max);
    let node = first.filter(unarchived)[i];
    first.lemma_filter_pred(unarchived, i);
    first.lemma_filter_contains_rev(unarchived, node);
    let at = choose|at: int| 0 <= at < first.len() && first[at] == node;
    node
}

/// Each node that a page adds is the selection of one of its entries.
proof fn lemma_selected_from_entries(entries: Seq<RawProjectView>, use_ssh: bool, node: ProjectNodeView)
    -> (k: int)
    requires
        selected(entries, use_ssh).contains(node),
    ensures
        0 <= k < entries.len(),
        selection(entries[k], use_ssh) == Some(node),
{
    let pick = |e: RawProjectView| selection(e, use_ssh);
    entries.lemma_filter_map_contains(pick, node);
    let entry = choose|t: RawProjectView| #[trigger] entries.contains(t) && pick(t) == Some(node);
    let k = choose|k: int| 0 <= k < entries.len() && entries[k] == entry;
    k
}

/// Where each node of a state is the selection of an entry of some page,
/// each repository that the rest of the fetch delivers comes from such an
/// entry.
proof fn lemma_run_origin(
    config: ProviderView,
    state: FetchStateView,
    events: Seq<PageEventView>,
    from: int,
    i: int,
) -> (at: (int, int))
    requires
        0 <= from <= events.len(),
        forall|n: ProjectNodeView| #[trigger] state.nodes.contains(n) ==> has_origin(config, events, n),
        run(config, state, events, from).outcome is Ok,
        0 <= i < run(config, state, events, from).outcome->Ok_0.len(),
    ensures
        on_page(events, at.0, at.1),
        comes_from(
            config,
            run(config, state, events, from).outcome->Ok_0[i],
            entry_at(events, at.0, at.1),
        ),
    decreases events.len() - from,
{
    if from >= events.len() {
        lemma_delivered_origin(config, events, state.nodes, i)
    } else {
        match events[from] {
            PageEventView::Page(entries) => {
                if entries.len() == 0 {
                    lemma_delivered_origin(config, events, state.nodes, i)
                } else {
                    let nodes = state.nodes + selected(entries, config.use_ssh);
                    assert forall|n: ProjectNodeView| #[trigger] nodes.contains(n) implies has_origin(
                        config,
                        events,
                        n,
                    ) by {
                        let at = choose|at: int| 0 <= at < nodes.len() && nodes[at] == n;
                        if at < state.nodes.len() {
                            assert(state.nodes.contains(n));
                        } else {
                            let k = lemma_selected_from_entries(entries, config.use_ssh, n);
                            assert(on_page(events, from, k));
                        }
                    }
                    if nodes.len() >= config.max {
                        lemma_delivered_origin(config, events, nodes, i)
                    } else {
                        let next = FetchStateView { page: state.page + 1, nodes, ..state };
                        lemma_run_origin(config, next, events, from + 1, i)
                    }
                }
            },
            _ => (0, 0),
        }
    }
}

/// Where each node is the selection of an entry of some page, each
/// repository that is delivered comes from such an entry.
proof fn lemma_delivered_origin(
    config: ProviderView,
    events: Seq<PageEventView>,
    nodes: Seq<ProjectNodeView>,
    i: int,
) -> (at: (int, int))
    requires
        forall|n: ProjectNodeView| #[trigger] nodes.contains(n) ==> has_origin(config, events, n),
        0 <= i < delivered(config.path, config.max, nodes).len(),
    ensures
        on_page(events, at.0, at.1),
        comes_from(
            config,
            delivered(config.path, config.max, nodes)[i],
            entry_at(events, at.0, at.1),
        ),
{
    let node = lemma_delivered_from_nodes(config.path, config.max, nodes, i);
    let (j, k) = choose|j: int, k: int| #[trigger]
        on_page(events, j, k) && selection(entry_at(events, j, k), config.use_ssh) == Some(node);
    (j, k)
}

/// A fetch returns at most as many repositories as the limit of its
/// configuration, whatever the remote answers.
pub proof fn law_at_most_max(
    config: ProviderView,
    token: Option<Seq<char>>,
    events: Seq<PageEventView>,
)
    ensures
        fetched(config, token, events).outcome matches Ok(repositories) ==> repositories.len()
            <= config.max,
{
    if let Some(t) = token {
        lemma_run_bounded(config, initial(config, t), events, 0);
    }
}

/// The rest of a fetch delivers at most as many repositories as the limit.
proof fn lemma_run_bounded(
    config: ProviderView,
    state: FetchStateView,
    events: Seq<PageEventView>,
    from: int,
)
    requires
        0 <= from <= events.len(),
    ensures
        run(config, state, events, from).outcome matches Ok(repositories) ==> repositories.len()
            <= config.max,
    decreases events.len() - from,
{
    lemma_delivered_bounded(config.path, config.max, state.nodes);
    if from < events.len() {
        if let PageEventView::Page(entries) = events[from] {
            let nodes = state.nodes + selected(entries, config.use_ssh);
            lemma_delivered_bounded(config.path, config.max, nodes);
            if entries.len() > 0 && nodes.len() < config.max {
                let next = FetchStateView { page: state.page + 1, nodes, ..state };
                lemma_run_bounded(config, next, events, from + 1);
            }
        }
    }
}

/// Every repository that a fetch returns is made of an entry that stands on
/// one of the pages and is taken: whatever the remote answers, the fetch
/// returns nothing else.
pub proof fn law_returned_come_from_taken_entries(
    config: ProviderView,
    token: Option<Seq<char>>,
    events: Seq<PageEventView>,
    i: int,
) -> (at: (int, int))
    requires
        fetched(config, token, events).outcome is Ok,
        0 <= i < fetched(config, token, events).outcome->Ok_0.len(),
    ensures
        on_page(events, at.0, at.1),
        comes_from(
            config,
            fetched(config, token, events).outcome->Ok_0[i],
            entry_at(events, at.0, at.1),
        ),
{
    let t = token->0;
    lemma_run_origin(config, initial(config, t), events, 0, i)
}

/// No archived entry is ever returned, wherever it stands on a page and
/// whichever page it stands on: each repository that a fetch returns is made
/// of an entry that is not archived.
pub proof fn law_archived_never_returned(
    config: ProviderView,
    token: Option<Seq<char>>,
    events: Seq<PageEventView>,
    i: int,
) -> (at: (int, int))
    requires
        fetched(config, token, events).outcome is Ok,
        0 <= i < fetched(config, token, events).outcome->Ok_0.len(),
    ensures
        on_page(events, at.0, at.1),
        !entry_at(events, at.0, at.1).archived,
        comes_from(
            config,
            fetched(config, token, events).outcome->Ok_0[i],
            entry_at(events, at.0, at.1),
        ),
{
    law_returned_come_from_taken_entries(config, token, events, i)
}

/// No entry without a clone URL or without a full path is ever returned:
/// each repository that a fetch returns is made of an entry that has its
/// full path, its SSH clone URL and the clone URL of the chosen transport,
/// and holds that path below the configured directory and that URL.
pub proof fn law_incomplete_never_returned(
    config: ProviderView,
    token: Option<Seq<char>>,
    events: Seq<PageEventView>,
    i: int,
) -> (at: (int, int))
    requires
        fetched(config, token, events).outcome is Ok,
        0 <= i < fetched(config, token, events).outcome->Ok_0.len(),
    ensures
        on_page(events, at.0, at.1),
        entry_at(events, at.0, at.1).path_with_namespace is Some,
        entry_at(events, at.0, at.1).ssh_url_to_repo is Some,
        chosen_url(entry_at(events, at.0, at.1), config.use_ssh) is Some,
        fetched(config, token, events).outcome->Ok_0[i].clone_url == chosen_url(
            entry_at(events, at.0, at.1),
            config.use_ssh,
        )->0,
        fetched(config, token, events).outcome->Ok_0[i].destination_path
            == joined(
            config.path,
            entry_at(events, at.0, at.1).path_with_namespace->0,
        ),
{
    law_returned_come_from_taken_entries(config, token, events, i)
}

/// The nodes that the first `upto` answers give, in order: the selected
/// entries of each page among them.
pub open spec fn gathered(use_ssh: bool, events: Seq<PageEventView>, upto: int) -> Seq<
    ProjectNodeView,
>
    decreases upto,
{
    if upto <= 0 {
        Seq::empty()
    } else {
        gathered(use_ssh, events, upto - 1) + (match events[upto - 1] {
            PageEventView::Page(entries) => selected(entries, use_ssh),
            _ => Seq::empty(),
        })
    }
}

/// Whether the fetch asks for another page after answer `j`: the answer is a
/// page with at least one entry, and with it fewer nodes than the limit are
/// gathered.
pub open spec fn goes_on(config: ProviderView, events: Seq<PageEventView>, j: int) -> bool {
    &&& events[j] matches PageEventView::Page(entries)
    &&& entries.len() > 0
    &&& gathered(config.use_ssh, events, j + 1).len() < config.max
}

/// How a fetch ends whose last request is answered by answer `k`, or by the
/// empty page that follows the last answer where `k` is their number.
pub open spec fn ending(config: ProviderView, events: Seq<PageEventView>, k: int) -> Result<
    Seq<RepositoryView>,
    ProviderError,
> {
    if k < events.len() && events[k] is RequestFailed {
        Err(ProviderError::RemoteRequestFailed)
    } else if k < events.len() && events[k] is DecodeFailed {
        Err(ProviderError::RemoteDecodeFailed)
    } else {
        Ok(
            delivered(
                config.path,
                config.max,
                gathered(config.use_ssh, events, if k < events.len() {
                    k + 1
                } else {
                    k
                }),
            ),
        )
    }
}

/// The rest of a fetch that has gathered what the first `from` answers give
/// ends with the first answer after which it does not go on.
proof fn lemma_run_ends_at_first_stop(
    config: ProviderView,
    state: FetchStateView,
    events: Seq<PageEventView>,
    from: int,
    k: int,
)
    requires
        0 <= from <= k <= events.len(),
        state.nodes == gathered(config.use_ssh, events, from),
        forall|j: int| from <= j < k ==> #[trigger] goes_on(config, events, j),
        k < events.len() ==> !goes_on(config, events, k),
    ensures
        run(config, state, events, from) == (FetchRunView {
            outcome: ending(config, events, k),
            requests: (k - from + 1) as nat,
        }),
    decreases k - from,
{
    if from < events.len() {
        if from < k {
            assert(goes_on(config, events, from));
            let next = FetchStateView {
                page: state.page + 1,
                nodes: gathered(config.use_ssh, events, from + 1),
                ..state
            };
            lemma_run_ends_at_first_stop(config, next, events, from + 1, k);
        }
    }
}

/// No node that a page gives is archived.
proof fn lemma_selected_are_live(entries: Seq<RawProjectView>, use_ssh: bool, i: int)
    requires
        0 <= i < selected(entries, use_ssh).len(),
    ensures
        !selected(entries, use_ssh)[i].archived,
{
    let node = selected(entries, use_ssh)[i];
    assert(selected(entries, use_ssh).contains(node));
    let k = lemma_selected_from_entries(entries, use_ssh, node);
}

/// No node that a fetch gathers is archived.
proof fn lemma_gathered_are_live(use_ssh: bool, events: Seq<PageEventView>, upto: int, i: int)
    requires
        0 <= upto <= events.len(),
        0 <= i < gathered(use_ssh, events, upto).len(),
    ensures
        !gathered(use_ssh, events, upto)[i].archived,
    decreases upto,
{
    let before = gathered(use_ssh, events, upto - 1);
    if i < before.len() {
        lemma_gathered_are_live(use_ssh, events, upto - 1, i);
    } else if let PageEventView::Page(entries) = events[upto - 1] {
        lemma_selected_are_live(entries, use_ssh, i - before.len());
    }
}

/// Where no node is archived, dropping the archived ones drops none.
proof fn lemma_live_keeps_all(nodes: Seq<ProjectNodeView>)
    requires
        forall|i: int| 0 <= i < nodes.len() ==> !(#[trigger] nodes[i]).archived,
    ensures
        live(nodes) == nodes,
    decreases nodes.len(),
{
    reveal(Seq::filter);
    if nodes.len() > 0 {
        let rest = nodes.drop_last();
        assert forall|i: int| 0 <= i < rest.len() implies !(#[trigger] rest[i]).archived by {
            assert(rest[i] == nodes[i]);
        }
        lemma_live_keeps_all(rest);
        assert(!nodes[nodes.len() - 1].archived);
        assert(rest.push(nodes.last()) =~= nodes);
    }
}

/// The second look at the archived flag, after the cut to the limit, drops
/// nothing, since no archived entry is gathered in the first place: of the
/// nodes that its pages gave, a fetch returns the first ones up to the
/// limit, each of them, in their order.
pub proof fn law_delivers_first_gathered(config: ProviderView, events: Seq<PageEventView>, upto: int)
    requires
        0 <= upto <= events.len(),
    ensures
        delivered(config.path, config.max, gathered(config.use_ssh, events, upto)) == capped(
            gathered(config.use_ssh, events, upto),
            config.max,
        ).map_values(|n: ProjectNodeView| repository_of(config.path, n)),
        delivered(config.path, config.max, gathered(config.use_ssh, events, upto)).len() == if config.max
            <= gathered(config.use_ssh, events, upto).len() {
            config.max
        } else {
            gathered(config.use_ssh, events, upto).len()
        },
{
    let all = gathered(config.use_ssh, events, upto);
    let first = capped(all, config.max);
    assert forall|i: int| 0 <= i < first.len() implies !(#[trigger] first[i]).archived by {
        lemma_gathered_are_live(config.use_ssh, events, upto, i);
        assert(first[i] == all[i]);
    }
    lemma_live_keeps_all(first);
}

/// A fetch makes one request after another for as long as each answer is a
/// page with at least one entry and fewer nodes than the limit are gathered.
/// It ends with the first answer `k` of which that does not hold, or with
/// the empty page that follows the last answer: it has then made `k + 1`
/// requests, and it fails if that answer is a failure and returns what it
/// has gathered, cut to the limit, if not.
pub proof fn law_fetch_ends_at_first_stop(
    config: ProviderView,
    token: Seq<char>,
    events: Seq<PageEventView>,
    k: int,
)
    requires
        0 <= k <= events.len(),
        forall|j: int| 0 <= j < k ==> #[trigger] goes_on(config, events, j),
        k < events.len() ==> !goes_on(config, events, k),
    ensures
        fetched(config, Some(token), events) == (FetchRunView {
            outcome: ending(config, events, k),
            requests: (k + 1) as nat,
        }),
{
    lemma_run_ends_at_first_stop(config, initial(config, token), events, 0, k);
}

/// Where the limit is not reached before it, the first empty page ends the
/// fetch: no request follows the one that it answers, and the fetch returns
/// what the pages before it gave.
pub proof fn law_ends_at_first_empty_page(
    config: ProviderView,
    token: Seq<char>,
    events: Seq<PageEventView>,
    k: int,
)
    requires
        0 <= k < events.len(),
        events[k] == PageEventView::Page(Seq::empty()),
        forall|j: int| 0 <= j < k ==> #[trigger] goes_on(config, events, j),
    ensures
        fetched(config, Some(token), events).requests == k + 1,
        fetched(config, Some(token), events).outcome == Ok::<Seq<RepositoryView>, ProviderError>(
            delivered(config.path, config.max, gathered(config.use_ssh, events, k)),
        ),
{
    law_fetch_ends_at_first_stop(config, token, events, k);
}

/// The page with which the limit is reached ends the fetch, wherever on the
/// page that happens: no request follows the one that it answers, and the
/// fetch returns the first nodes gathered, exactly as many as the limit.
pub proof fn law_ends_at_limit(
    config: ProviderView,
    token: Seq<char>,
    events: Seq<PageEventView>,
    k: int,
)
    requires
        0 <= k < events.len(),
        events[k] is Page,
        gathered(config.use_ssh, events, k + 1).len() >= config.max,
        forall|j: int| 0 <= j < k ==> #[trigger] goes_on(config, events, j),
    ensures
        fetched(config, Some(token), events).requests == k + 1,
        fetched(config, Some(token), events).outcome == Ok::<Seq<RepositoryView>, ProviderError>(
            delivered(config.path, config.max, gathered(config.use_ssh, events, k + 1)),
        ),
        fetched(config, Some(token), events).outcome->Ok_0.len() == config.max,
{
    law_fetch_ends_at_first_stop(config, token, events, k);
    law_delivers_first_gathered(config, events, k + 1);
}

/// A node without its clone URL.
pub open spec fn without_url(node: ProjectNodeView) -> ProjectNodeView {
    ProjectNodeView { clone_url: Seq::empty(), ..node }
}

/// The nodes without their clone URLs, in order.
pub open spec fn without_urls(nodes: Seq<ProjectNodeView>) -> Seq<ProjectNodeView> {
    nodes.map_values(|n: ProjectNodeView| without_url(n))
}

/// A repository without its clone URL.
pub open spec fn repository_without_url(repository: RepositoryView) -> RepositoryView {
    RepositoryView { clone_url: Seq::empty(), ..repository }
}

/// The repositories without their clone URLs, in order.
pub open spec fn repositories_without_urls(repositories: Seq<RepositoryView>) -> Seq<
    RepositoryView,
> {
    repositories.map_values(|r: RepositoryView| repository_without_url(r))
}

/// Whether an entry that is taken over SSH has an HTTP clone URL too.
pub open spec fn has_both_urls(entry: RawProjectView) -> bool {
    taken(entry, true) ==> entry.http_url_to_repo is Some
}

/// Whether each entry on the pages that is taken over SSH has an HTTP clone
/// URL too.
pub open spec fn urls_come_in_pairs(events: Seq<PageEventView>) -> bool {
    forall|j: int, k: int| #[trigger] on_page(events, j, k) ==> has_both_urls(entry_at(events, j, k))
}

/// The same configuration with the given transport.
pub open spec fn with_transport(config: ProviderView, use_ssh: bool) -> ProviderView {
    ProviderView { use_ssh, ..config }
}

/// Nodes that differ in their clone URLs only are as many, and differ in
/// their clone URLs only at each place.
proof fn lemma_without_urls_at(xs: Seq<ProjectNodeView>, ys: Seq<ProjectNodeView>, i: int)
    requires
        without_urls(xs) == without_urls(ys),
        0 <= i < xs.len(),
    ensures
        xs.len() == ys.len(),
        without_url(xs[i]) == without_url(ys[i]),
        xs[i].archived == ys[i].archived,
{
    assert(without_urls(ys).len() == ys.len());
    assert(without_urls(ys)[i] == without_url(ys[i]));
}

/// Nodes that differ in their clone URLs only are as many.
proof fn lemma_without_urls_len(xs: Seq<ProjectNodeView>, ys: Seq<ProjectNodeView>)
    requires
        without_urls(xs) == without_urls(ys),
    ensures
        xs.len() == ys.len(),
{
    assert(without_urls(ys).len() == ys.len());
}

/// On a page whose entries taken over SSH have an HTTP clone URL too, both
/// transports select the same entries.
proof fn lemma_selected_transport(entries: Seq<RawProjectView>)
    requires
        forall|k: int| 0 <= k < entries.len() ==> has_both_urls(#[trigger] entries[k]),
    ensures
        without_urls(selected(entries, true)) == without_urls(selected(entries, false)),
    decreases entries.len(),
{
    if entries.len() > 0 {
        let rest = entries.drop_last();
        assert forall|k: int| 0 <= k < rest.len() implies has_both_urls(#[trigger] rest[k]) by {
            assert(rest[k] == entries[k]);
        }
        assert(has_both_urls(entries[entries.len() - 1]));
        lemma_selected_transport(rest);
        let by_ssh = selected(rest, true);
        let by_http = selected(rest, false);
        lemma_without_urls_len(by_ssh, by_http);
        assert forall|i: int| 0 <= i < by_ssh.len() implies without_url(by_ssh[i]) == without_url(
            by_http[i],
        ) by {
            lemma_without_urls_at(by_ssh, by_http, i);
        }
    }
}

/// Nodes that differ in their clone URLs only keep the same places once the
/// archived ones are dropped.
proof fn lemma_live_transport(xs: Seq<ProjectNodeView>, ys: Seq<ProjectNodeView>)
    requires
        without_urls(xs) == without_urls(ys),
    ensures
        without_urls(live(xs)) == without_urls(live(ys)),
    decreases xs.len(),
{
    reveal(Seq::filter);
    lemma_without_urls_len(xs, ys);
    if xs.len() > 0 {
        lemma_without_urls_at(xs, ys, xs.len() - 1);
        assert(without_urls(xs.drop_last()) =~= without_urls(xs).drop_last());
        assert(without_urls(ys.drop_last()) =~= without_urls(ys).drop_last());
        lemma_live_transport(xs.drop_last(), ys.drop_last());
        let a = live(xs.drop_last());
        let b = live(ys.drop_last());
        lemma_without_urls_len(a, b);
        assert forall|i: int| 0 <= i < a.len() implies without_url(a[i]) == without_url(b[i]) by {
            lemma_without_urls_at(a, b, i);
        }
    }
}

/// Nodes that differ in their clone URLs only are delivered as repositories
/// that differ in their clone URLs only.
proof fn lemma_delivered_transport(
    path: Seq<char>,
    max: nat,
    xs: Seq<ProjectNodeView>,
    ys: Seq<ProjectNodeView>,
)
    requires
        without_urls(xs) == without_urls(ys),
    ensures
        repositories_without_urls(delivered(path, max, xs)) == repositories_without_urls(
            delivered(path, max, ys),
        ),
{
    lemma_without_urls_len(xs, ys);
    let a = capped(xs, max);
    let b = capped(ys, max);
    assert forall|i: int| 0 <= i < a.len() implies without_url(a[i]) == without_url(b[i]) by {
        lemma_without_urls_at(xs, ys, i);
    }
    assert(without_urls(a) =~= without_urls(b));
    lemma_live_transport(a, b);
    let c = live(a);
    let d = live(b);
    lemma_without_urls_len(c, d);
    assert forall|i: int| 0 <= i < c.len() implies repository_without_url(
        repository_of(path, c[i]),
    ) == repository_without_url(repository_of(path, d[i])) by {
        lemma_without_urls_at(c, d, i);
    }
}

/// Two fetches that differ in the transport only, from states that differ in
/// the clone URLs of their nodes only, go the same way.
proof fn lemma_run_transport(
    config: ProviderView,
    by_ssh: FetchStateView,
    by_http: FetchStateView,
    events: Seq<PageEventView>,
    from: int,
)
    requires
        0 <= from <= events.len(),
        urls_come_in_pairs(events),
        without_urls(by_ssh.nodes) == without_urls(by_http.nodes),
    ensures
        same_but_for_urls(
            run(with_transport(config, true), by_ssh, events, from),
            run(with_transport(config, false), by_http, events, from),
        ),
    decreases events.len() - from,
{
    lemma_delivered_transport(config.path, config.max, by_ssh.nodes, by_http.nodes);
    if from < events.len() {
        if let PageEventView::Page(entries) = events[from] {
            assert forall|k: int| 0 <= k < entries.len() implies has_both_urls(
                #[trigger] entries[k],
            ) by {
                assert(on_page(events, from, k));
            }
            lemma_selected_transport(entries);
            let xs = by_ssh.nodes + selected(entries, true);
            let ys = by_http.nodes + selected(entries, false);
            let p = selected(entries, true);
            let q = selected(entries, false);
            lemma_without_urls_len(by_ssh.nodes, by_http.nodes);
            lemma_without_urls_len(p, q);
            assert forall|i: int| 0 <= i < xs.len() implies without_url(xs[i]) == without_url(
                ys[i],
            ) by {
                if i < by_ssh.nodes.len() {
                    lemma_without_urls_at(by_ssh.nodes, by_http.nodes, i);
                } else {
                    lemma_without_urls_at(p, q, i - by_ssh.nodes.len());
                }
            }
            assert(without_urls(xs) =~= without_urls(ys));
            lemma_delivered_transport(config.path, config.max, xs, ys);
            if entries.len() > 0 && xs.len() < config.max {
                let next_ssh = FetchStateView { page: by_ssh.page + 1, nodes: xs, ..by_ssh };
                let next_http = FetchStateView { page: by_http.page + 1, nodes: ys, ..by_http };
                lemma_run_transport(config, next_ssh, next_http, events, from + 1);
            }
        }
    }
}

/// Whether two fetches made as many requests and ended alike: with the same
/// failure, or with repositories that differ in their clone URLs only.
pub open spec fn same_but_for_urls(one: FetchRunView, other: FetchRunView) -> bool {
    &&& one.requests == other.requests
    &&& match one.outcome {
        Ok(repositories) => other.outcome is Ok && repositories_without_urls(repositories)
            == repositories_without_urls(other.outcome->Ok_0),
        Err(error) => other.outcome == Err::<Seq<RepositoryView>, ProviderError>(error),
    }
}

/// The transport decides the clone URL of each repository and nothing else.
/// Against a remote whose entries that are taken over SSH have an HTTP clone
/// URL too, a fetch over SSH and a fetch over HTTP make as many requests,
/// end alike, and return repositories of the same entries in the same
/// order; they differ in the clone URLs only.
pub proof fn law_transport_changes_only_urls(
    config: ProviderView,
    token: Option<Seq<char>>,
    events: Seq<PageEventView>,
)
    requires
        urls_come_in_pairs(events),
    ensures
        same_but_for_urls(
            fetched(with_transport(config, true), token, events),
            fetched(with_transport(config, false), token, events),
        ),
{
    if let Some(t) = token {
        let by_ssh = initial(with_transport(config, true), t);
        let by_http = initial(with_transport(config, false), t);
        lemma_run_transport(config, by_ssh, by_http, events, 0);
    }
}

/// Over SSH an entry that is taken gives its SSH clone URL, over HTTP its
/// HTTP clone URL; its path and its default branch are the same either way.
pub proof fn law_transport_selects_url(entry: RawProjectView, use_ssh: bool)
    requires
        taken(entry, use_ssh),
    ensures
        selection(entry, use_ssh)->0.clone_url == (if use_ssh {
            entry.ssh_url_to_repo->0
        } else {
            entry.http_url_to_repo->0
        }),
        selection(entry, use_ssh)->0.full_path == entry.path_with_namespace->0,
        selection(entry, use_ssh)->0.default_branch == entry.default_branch,
        entry.http_url_to_repo is Some ==> taken(entry, !use_ssh) && without_url(
            selection(entry, use_ssh)->0,
        ) == without_url(selection(entry, !use_ssh)->0),
{
}

/// The destination of a node is the configured directory, one separator and
/// the node's path, each as it was given.
pub proof fn law_destination_shape(path: Seq<char>, node: ProjectNodeView)
    ensures
        repository_of(path, node).destination_path.len() == path.len() + 1 + node.full_path.len(),
        repository_of(path, node).destination_path.take(path.len() as int) == path,
        repository_of(path, node).destination_path[path.len() as int] == separator(),
        repository_of(path, node).destination_path.skip(path.len() as int + 1) == node.full_path,
{
    let whole = repository_of(path, node).destination_path;
}

/// Where the configured directory does not end with a separator and the
/// node's path does not start with one, exactly one separator stands between
/// them in the destination.
pub proof fn law_destination_has_one_separator(path: Seq<char>, node: ProjectNodeView)
    requires
        !ends_with_separator(path),
        !starts_with_separator(node.full_path),
    ensures
        repository_of(path, node).destination_path == joined_by_one(path, node.full_path),
{
}

} // verus!
