//! One entry of a directory listing.

use crate::text::{contains_folded, matches_folded, text_of};
use vstd::prelude::*;

verus! {

/// A snapshot of one filesystem node, made anew by every listing.
#[derive(Debug, PartialEq, Eq)]
pub struct FileEntry {
    pub name: String,
    /// Absolute path of the node.
    pub path: String,
    /// Size in bytes; 0 for a directory.
    pub size: u64,
    pub is_dir: bool,
    /// Time of the last modification, in seconds since the Unix epoch.
    pub mod_time: i64,
    /// The description stored with the node, if it has one.
    pub description: Option<String>,
    /// Ten characters: the kind, then `rwx` for user, group and others.
    pub permissions: String,
    pub owner: String,
    pub group: String,
}

/// What a [`FileEntry`] holds, as text and numbers.
pub struct EntryView {
    pub name: Seq<char>,
    pub path: Seq<char>,
    pub size: u64,
    pub is_dir: bool,
    pub mod_time: i64,
    pub description: Option<Seq<char>>,
    pub permissions: Seq<char>,
    pub owner: Seq<char>,
    pub group: Seq<char>,
}

impl View for FileEntry {
    type V = EntryView;

    open spec fn view(&self) -> EntryView {
        EntryView {
            name: self.name@,
            path: self.path@,
            size: self.size,
            is_dir: self.is_dir,
            mod_time: self.mod_time,
            description: text_of(self.description),
            permissions: self.permissions@,
            owner: self.owner@,
            group: self.group@,
        }
    }
}

/// The views of a sequence of entries.
pub open spec fn views(entries: Seq<FileEntry>) -> Seq<EntryView> {
    entries.map_values(|e: FileEntry| e@)
}

impl EntryView {
    /// The entry stands for the directory itself or for its parent.
    pub open spec fn is_synthetic(self) -> bool {
        self.name == "."@ || self.name == ".."@
    }
}

impl Clone for FileEntry {
    fn clone(&self) -> (r: FileEntry)
        ensures
            r == *self,
    {
        FileEntry {
            name: self.name.clone(),
            path: self.path.clone(),
            size: self.size,
            is_dir: self.is_dir,
            mod_time: self.mod_time,
            description: match &self.description {
                Some(d) => Some(d.clone()),
                None => None,
            },
            permissions: self.permissions.clone(),
            owner: self.owner.clone(),
            group: self.group.clone(),
        }
    }
}

/// A name or a description holds the query, whatever the case of the
/// letters. The query is given in its lower-case form.
pub open spec fn is_hit(name: Seq<char>, description: Option<Seq<char>>, folded_query: Seq<char>) -> bool {
    matches_folded(name, folded_query) || match description {
        Some(d) => matches_folded(d, folded_query),
        None => false,
    }
}

/// Tests a name and a description against a query in lower-case form.
pub fn hit(name: &str, description: &Option<String>, folded_query: &str) -> (r: bool)
    ensures
        r == is_hit(name@, text_of(*description), folded_query@),
{
    if contains_folded(name, folded_query) {
        true
    } else {
        match description {
            Some(d) => contains_folded(d.as_str(), folded_query),
            None => false,
        }
    }
}

/// Copies a list of entries.
pub fn clone_entries(list: &Vec<FileEntry>) -> (r: Vec<FileEntry>)
    ensures
        r@ == list@,
{
    let mut r: Vec<FileEntry> = Vec::new();
    let mut i: usize = 0;
    while i < list.len()
        invariant
            i <= list@.len(),
            r@ == list@.take(i as int),
        decreases list@.len() - i,
    {
        r.push(list[i].clone());
        assert(list@.take(i + 1) =~= list@.take(i as int).push(list@[i as int]));
        i += 1;
    }
    assert(list@.take(list@.len() as int) =~= list@);
    r
}

} // verus!
