//! The repository-metadata query shapes, as plain values. The query
//! building and transport live outside this crate; these types carry what
//! the rest of the pipeline reads.

use vstd::prelude::*;

verus! {

/// The variables a repository query is made with.
pub struct GetAllValuesVariables<'a> {
    pub owner: &'a str,
    pub name: &'a str,
    pub tag_name: &'a str,
}

/// A tree object: its entries.
pub struct Tree {
    pub entries: Vec<TreeEntry>,
}

/// One entry of a tree: its name and its kind.
pub struct TreeEntry {
    pub name: String,
    pub type_: String,
}

/// The whole query result: the repository, if it exists.
pub struct GetAllValues {
    pub repository: Option<Repository>,
}

/// The repository fields the pipeline reads.
pub struct Repository {
    pub has_issues_enabled: bool,
    pub license_info: Option<License>,
    pub owner: RepositoryOwner,
    pub object: Option<GetAllValuesGitObject>,
    pub release: Option<Release>,
    pub topics: RepositoryTopicConnection,
    pub url: String,
}

/// The repository's topics.
pub struct RepositoryTopicConnection {
    pub nodes: Vec<RepositoryTopic>,
}

/// One topic node.
pub struct RepositoryTopic {
    pub topic: Topic,
}

/// A topic: its name.
pub struct Topic {
    pub name: String,
}

/// A release: its rendered description and its address.
pub struct Release {
    pub description_html: Option<String>,
    pub url: String,
}

/// The repository's owner: its address.
pub struct RepositoryOwner {
    pub url: String,
}

/// The repository's license.
pub struct License {
    pub key: String,
    pub is_pseudo: bool,
    pub spdx_id: Option<String>,
}

/// The object at the repository root: a tree, or something this pipeline
/// does not read.
pub enum GetAllValuesGitObject {
    Tree(Tree),
    Unknown,
}

} // verus!
