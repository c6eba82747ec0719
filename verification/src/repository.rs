//! The record that describes one discovered repository.

use vstd::prelude::*;

verus! {

/// The text held by an optional string, or nothing.
pub open spec fn text_of(o: Option<String>) -> Option<Seq<char>> {
    match o {
        Some(s) => Some(s@),
        None => None,
    }
}

/// A copy of an optional string.
pub fn copy_text(o: &Option<String>) -> (c: Option<String>)
    ensures
        text_of(c) == text_of(*o),
{
    match o {
        Some(s) => Some(s.clone()),
        None => None,
    }
}

/// What a [`Repository`] holds, as plain text.
pub ghost struct RepositoryView {
    pub destination_path: Seq<char>,
    pub clone_url: Seq<char>,
    pub default_branch: Option<Seq<char>>,
    pub extra: Option<Seq<char>>,
}

/// One repository to clone: where it goes, where it comes from, and the
/// branch that the remote reports as its default, if it reports one.
#[derive(Debug)]
pub struct Repository {
    destination_path: String,
    clone_url: String,
    default_branch: Option<String>,
    extra: Option<String>,
}

impl View for Repository {
    type V = RepositoryView;

    closed spec fn view(&self) -> RepositoryView {
        RepositoryView {
            destination_path: self.destination_path@,
            clone_url: self.clone_url@,
            default_branch: text_of(self.default_branch),
            extra: text_of(self.extra),
        }
    }
}

impl Repository {
    /// Makes a record from its four parts.
    pub fn new(
        destination_path: String,
        clone_url: String,
        default_branch: Option<String>,
        extra: Option<String>,
    ) -> (r: Repository)
        ensures
            r@ == (RepositoryView {
                destination_path: destination_path@,
                clone_url: clone_url@,
                default_branch: text_of(default_branch),
                extra: text_of(extra),
            }),
    {
        Repository { destination_path, clone_url, default_branch, extra }
    }

    /// The local path under which the repository is to be cloned.
    pub fn destination_path(&self) -> (s: &str)
        ensures
            s@ == self@.destination_path,
    {
        self.destination_path.as_str()
    }

    /// The URL to clone from.
    pub fn clone_url(&self) -> (s: &str)
        ensures
            s@ == self@.clone_url,
    {
        self.clone_url.as_str()
    }

    /// The default branch, where the remote reported one.
    pub fn default_branch(&self) -> (b: &Option<String>)
        ensures
            text_of(*b) == self@.default_branch,
    {
        &self.default_branch
    }

    /// Further metadata, where there is any.
    pub fn extra(&self) -> (e: &Option<String>)
        ensures
            text_of(*e) == self@.extra,
    {
        &self.extra
    }
}

impl Clone for Repository {
    fn clone(&self) -> (r: Repository)
        ensures
            r@ == self@,
    {
        Repository {
            destination_path: self.destination_path.clone(),
            clone_url: self.clone_url.clone(),
            default_branch: copy_text(&self.default_branch),
            extra: copy_text(&self.extra),
        }
    }
}

} // verus!
