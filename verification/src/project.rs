//! The entries of a listing page and the selection made among them.

use crate::repository::{copy_text, text_of};
use vstd::prelude::*;

verus! {

/// What a [`RawProject`] holds, as plain text.
pub ghost struct RawProjectView {
    pub path_with_namespace: Option<Seq<char>>,
    pub ssh_url_to_repo: Option<Seq<char>>,
    pub http_url_to_repo: Option<Seq<char>>,
    pub archived: bool,
    pub default_branch: Option<Seq<char>>,
}

/// One entry of a listing page, as the remote sent it.
#[derive(Debug)]
pub struct RawProject {
    pub path_with_namespace: Option<String>,
    pub ssh_url_to_repo: Option<String>,
    pub http_url_to_repo: Option<String>,
    pub archived: bool,
    pub default_branch: Option<String>,
}

impl View for RawProject {
    type V = RawProjectView;

    open spec fn view(&self) -> RawProjectView {
        RawProjectView {
            path_with_namespace: text_of(self.path_with_namespace),
            ssh_url_to_repo: text_of(self.ssh_url_to_repo),
            http_url_to_repo: text_of(self.http_url_to_repo),
            archived: self.archived,
            default_branch: text_of(self.default_branch),
        }
    }
}

/// What a [`ProjectNode`] holds, as plain text.
pub ghost struct ProjectNodeView {
    pub archived: bool,
    pub full_path: Seq<char>,
    pub clone_url: Seq<char>,
    pub default_branch: Option<Seq<char>>,
}

/// A selected entry: its path below the instance, the clone URL of the chosen
/// transport and its default branch.
#[derive(Debug)]
pub struct ProjectNode {
    pub archived: bool,
    pub full_path: String,
    pub clone_url: String,
    pub default_branch: Option<String>,
}

impl View for ProjectNode {
    type V = ProjectNodeView;

    open spec fn view(&self) -> ProjectNodeView {
        ProjectNodeView {
            archived: self.archived,
            full_path: self.full_path@,
            clone_url: self.clone_url@,
            default_branch: text_of(self.default_branch),
        }
    }
}

/// The clone URL of an entry for the chosen transport, where it has one.
pub open spec fn chosen_url(entry: RawProjectView, use_ssh: bool) -> Option<Seq<char>> {
    if use_ssh {
        entry.ssh_url_to_repo
    } else {
        entry.http_url_to_repo
    }
}

/// Whether an entry is taken: it has an SSH clone URL, the clone URL of the
/// chosen transport and a full path, and it is not archived.
pub open spec fn taken(entry: RawProjectView, use_ssh: bool) -> bool {
    &&& entry.ssh_url_to_repo is Some
    &&& chosen_url(entry, use_ssh) is Some
    &&& entry.path_with_namespace is Some
    &&& !entry.archived
}

/// The node made of an entry that is taken, and nothing for any other entry.
pub open spec fn selection(entry: RawProjectView, use_ssh: bool) -> Option<ProjectNodeView> {
    if taken(entry, use_ssh) {
        Some(
            ProjectNodeView {
                archived: entry.archived,
                full_path: entry.path_with_namespace->0,
                clone_url: chosen_url(entry, use_ssh)->0,
                default_branch: entry.default_branch,
            },
        )
    } else {
        None
    }
}

/// The views of the entries of a page, in order.
pub open spec fn page_view(page: Seq<RawProject>) -> Seq<RawProjectView> {
    page.map_values(|e: RawProject| e@)
}

/// The views of a sequence of nodes, in order.
pub open spec fn nodes_view(nodes: Seq<ProjectNode>) -> Seq<ProjectNodeView> {
    nodes.map_values(|n: ProjectNode| n@)
}

/// The nodes of the entries of a page that are taken, in the page's order.
pub open spec fn selected(page: Seq<RawProjectView>, use_ssh: bool) -> Seq<ProjectNodeView> {
    page.filter_map(|e: RawProjectView| selection(e, use_ssh))
}

impl RawProject {
    /// Selects the entry for the chosen transport: the node of an entry that
    /// is taken, nothing for an entry that is skipped.
    pub fn select(&self, use_ssh: bool) -> (node: Option<ProjectNode>)
        ensures
            match node {
                Some(n) => selection(self@, use_ssh) == Some(n@),
                None => selection(self@, use_ssh) is None,
            },
    {
        if self.archived {
            return None;
        }
        let ssh: &String = match &self.ssh_url_to_repo {
            Some(u) => u,
            None => {
                return None;
            },
        };
        let path: &String = match &self.path_with_namespace {
            Some(p) => p,
            None => {
                return None;
            },
        };
        let url: &String = if use_ssh {
            ssh
        } else {
            match &self.http_url_to_repo {
                Some(u) => u,
                None => {
                    return None;
                },
            }
        };
        Some(
            ProjectNode {
                archived: self.archived,
                full_path: path.clone(),
                clone_url: url.clone(),
                default_branch: copy_text(&self.default_branch),
            },
        )
    }
}

/// Appends to `nodes` the selection of each entry of `page`, in order.
pub fn select_page(nodes: &mut Vec<ProjectNode>, page: &Vec<RawProject>, use_ssh: bool)
    ensures
        nodes_view(final(nodes)@) == nodes_view(old(nodes)@) + selected(page_view(page@), use_ssh),
{
    let ghost before: Seq<ProjectNodeView> = nodes_view(nodes@);
    let ghost entries: Seq<RawProjectView> = page_view(page@);
    let ghost choose_node = |e: RawProjectView| selection(e, use_ssh);
    let mut i: usize = 0;
    while i < page.len()
        invariant
            i <= page.len(),
            entries == page_view(page@),
            entries.len() == page.len(),
            choose_node == (|e: RawProjectView| selection(e, use_ssh)),
            nodes_view(nodes@) == before + entries.take(i as int).filter_map(choose_node),
        decreases page.len() - i,
    {
        let ghost prior: Seq<ProjectNodeView> = nodes_view(nodes@);
        proof {
            entries.lemma_filter_map_take_succ(choose_node, i as int);
        }
        match page[i].select(use_ssh) {
            Some(n) => {
                nodes.push(n);
                assert(nodes_view(nodes@) =~= prior.push(n@));
            },
            None => {},
        }
        i = i + 1;
    }
    assert(entries.take(i as int) =~= entries);
}

} // verus!
