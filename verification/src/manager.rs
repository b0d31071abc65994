//! The directory model: one current directory, and what is computed from
//! what was read under it.

use crate::entry::{hit, is_hit, views, EntryView, FileEntry};
use crate::listing::{
    insert_position, is_ordered, lemma_insert_position, lemma_sorted_entries, rank, sort_entries,
    sorted_entries,
};
use crate::paths::{join_paths, parent_of, path_join, path_parent};
use crate::text::{
    clone_text, contains_text, decimal, decimal_string, lowercase, pairs, text_of, texts, to_lowercase,
};
use vstd::prelude::*;
use vstd::string::*;

verus! {

/// Why a directory operation was refused.
#[derive(Clone, Copy, Debug, PartialEq, Eq, Structural)]
pub enum FsError {
    /// The target of a navigation is not a directory.
    NotADirectory,
}

impl FsError {
    /// The message shown for the error.
    pub fn message(&self) -> (r: String)
        ensures
            r@ == "Not a directory"@,
    {
        String::from_str("Not a directory")
    }
}

/// Mode bits and numeric owner of a node, where the platform has them.
#[derive(Clone, Copy, Debug, PartialEq, Eq, Structural)]
pub struct UnixAttributes {
    pub mode: u32,
    pub uid: u32,
    pub gid: u32,
}

/// What was read about one node.
#[derive(Clone, Copy, Debug, PartialEq, Eq, Structural)]
pub struct Metadata {
    pub is_dir: bool,
    /// Length in bytes as the filesystem reports it.
    pub len: u64,
    /// Time of the last modification, in seconds since the Unix epoch.
    pub modified: i64,
    /// `None` on a platform without mode bits and numeric owners.
    pub unix: Option<UnixAttributes>,
}

/// One character of a permission string: `letter` if `mode` has a bit of
/// `mask`, a dash if not.
pub open spec fn permission_char(mode: u32, mask: u32, letter: char) -> char {
    if mode & mask != 0 {
        letter
    } else {
        '-'
    }
}

/// The symbolic form of the mode bits: `d` or a dash for the kind, then
/// `rwx` for the user, the group and the others.
pub open spec fn permission_string(is_dir: bool, mode: u32) -> Seq<char> {
    seq![
        if is_dir {
            'd'
        } else {
            '-'
        },
        permission_char(mode, 0o400, 'r'),
        permission_char(mode, 0o200, 'w'),
        permission_char(mode, 0o100, 'x'),
        permission_char(mode, 0o040, 'r'),
        permission_char(mode, 0o020, 'w'),
        permission_char(mode, 0o010, 'x'),
        permission_char(mode, 0o004, 'r'),
        permission_char(mode, 0o002, 'w'),
        permission_char(mode, 0o001, 'x'),
    ]
}

/// Permissions, owner and group as they are shown for a node.
pub open spec fn metadata_info(metadata: Metadata) -> (Seq<char>, Seq<char>, Seq<char>) {
    match metadata.unix {
        Some(unix) => (
            permission_string(metadata.is_dir, unix.mode),
            decimal(unix.uid as nat),
            decimal(unix.gid as nat),
        ),
        None => ("-"@, "unknown"@, "unknown"@),
    }
}

fn permission_letter(mode: u32, mask: u32, letter: char) -> (c: char)
    ensures
        c == permission_char(mode, mask, letter),
{
    if mode & mask != 0 {
        letter
    } else {
        '-'
    }
}

/// Permissions, owner and group as strings.
fn metadata_strings(metadata: &Metadata) -> (r: (String, String, String))
    ensures
        (r.0@, r.1@, r.2@) == metadata_info(*metadata),
{
    match metadata.unix {
        Some(unix) => {
            let mode = unix.mode;
            let mut permissions = String::new();
            permissions.push(
                if metadata.is_dir {
                    'd'
                } else {
                    '-'
                },
            );
            permissions.push(permission_letter(mode, 0o400, 'r'));
            permissions.push(permission_letter(mode, 0o200, 'w'));
            permissions.push(permission_letter(mode, 0o100, 'x'));
            permissions.push(permission_letter(mode, 0o040, 'r'));
            permissions.push(permission_letter(mode, 0o020, 'w'));
            permissions.push(permission_letter(mode, 0o010, 'x'));
            permissions.push(permission_letter(mode, 0o004, 'r'));
            permissions.push(permission_letter(mode, 0o002, 'w'));
            permissions.push(permission_letter(mode, 0o001, 'x'));
            assert(permissions@ =~= permission_string(metadata.is_dir, mode));
            (permissions, decimal_string(unix.uid), decimal_string(unix.gid))
        },
        None => (String::from_str("-"), String::from_str("unknown"), String::from_str("unknown")),
    }
}

/// One node as it was read from a directory or met on a walk.
#[derive(Debug)]
pub struct RawEntry {
    pub name: String,
    /// Absolute path of the node.
    pub path: String,
    pub metadata: Metadata,
    /// The description stored with the node, if it has one.
    pub description: Option<String>,
}

/// What a [`RawEntry`] holds, as text and numbers.
pub struct RawEntryView {
    pub name: Seq<char>,
    pub path: Seq<char>,
    pub metadata: Metadata,
    pub description: Option<Seq<char>>,
}

impl View for RawEntry {
    type V = RawEntryView;

    open spec fn view(&self) -> RawEntryView {
        RawEntryView {
            name: self.name@,
            path: self.path@,
            metadata: self.metadata,
            description: text_of(self.description),
        }
    }
}

/// The views of a sequence of raw entries.
pub open spec fn raw_views(entries: Seq<RawEntry>) -> Seq<RawEntryView> {
    entries.map_values(|e: RawEntry| e@)
}

/// What was read of a directory for a listing.
#[derive(Debug)]
pub struct DirectoryScan {
    /// The metadata of the directory itself.
    pub this: Metadata,
    /// The metadata of its parent; `None` where it has no parent.
    pub parent: Option<Metadata>,
    /// The children, in the order in which they were read.
    pub children: Vec<RawEntry>,
}

/// What a [`DirectoryScan`] holds, as text and numbers.
pub struct ScanView {
    pub this: Metadata,
    pub parent: Option<Metadata>,
    pub children: Seq<RawEntryView>,
}

impl View for DirectoryScan {
    type V = ScanView;

    open spec fn view(&self) -> ScanView {
        ScanView { this: self.this, parent: self.parent, children: raw_views(self.children@) }
    }
}

/// The listing entry of a node that was read: a directory counts no bytes.
pub open spec fn child_entry(raw: RawEntryView) -> EntryView {
    EntryView {
        name: raw.name,
        path: raw.path,
        size: if raw.metadata.is_dir {
            0
        } else {
            raw.metadata.len
        },
        is_dir: raw.metadata.is_dir,
        mod_time: raw.metadata.modified,
        description: raw.description,
        permissions: metadata_info(raw.metadata).0,
        owner: metadata_info(raw.metadata).1,
        group: metadata_info(raw.metadata).2,
    }
}

/// The entry named `name` that stands for a directory reached from the
/// listing itself: the current directory or its parent.
pub open spec fn synthetic_entry(name: Seq<char>, path: Seq<char>, metadata: Metadata) -> EntryView {
    EntryView {
        name,
        path,
        size: 0,
        is_dir: true,
        mod_time: metadata.modified,
        description: None,
        permissions: metadata_info(metadata).0,
        owner: metadata_info(metadata).1,
        group: metadata_info(metadata).2,
    }
}

/// The entry for the parent directory, where there is a parent and its
/// metadata was read.
pub open spec fn parent_entries(current: Seq<char>, parent: Option<Metadata>) -> Seq<EntryView> {
    match (path_parent(current), parent) {
        (Some(path), Some(metadata)) => seq![synthetic_entry(".."@, path, metadata)],
        _ => Seq::empty(),
    }
}

/// The entries of a listing before they are put in order: the directory
/// itself, its parent, then the children as they were read.
pub open spec fn assembled(current: Seq<char>, scan: ScanView) -> Seq<EntryView> {
    seq![synthetic_entry("."@, current, scan.this)] + parent_entries(current, scan.parent)
        + scan.children.map_values(|c: RawEntryView| child_entry(c))
}

/// The listing of the directory `current` from what was read of it.
pub open spec fn listing(current: Seq<char>, scan: ScanView) -> Seq<EntryView> {
    sorted_entries(assembled(current, scan))
}

fn entry_from_raw(raw: RawEntry) -> (r: FileEntry)
    ensures
        r@ == child_entry(raw@),
{
    let info = metadata_strings(&raw.metadata);
    FileEntry {
        name: raw.name,
        path: raw.path,
        size: if raw.metadata.is_dir {
            0
        } else {
            raw.metadata.len
        },
        is_dir: raw.metadata.is_dir,
        mod_time: raw.metadata.modified,
        description: raw.description,
        permissions: info.0,
        owner: info.1,
        group: info.2,
    }
}

fn synthetic(name: &str, path: String, metadata: &Metadata) -> (r: FileEntry)
    ensures
        r@ == synthetic_entry(name@, path@, *metadata),
{
    let info = metadata_strings(metadata);
    FileEntry {
        name: String::from_str(name),
        path,
        size: 0,
        is_dir: true,
        mod_time: metadata.modified,
        description: None,
        permissions: info.0,
        owner: info.1,
        group: info.2,
    }
}

/// The most entries that a deep search gives back.
pub const SEARCH_LIMIT: usize = 1000;

/// The test of a deep search on one node.
pub open spec fn hit_test(folded_query: Seq<char>) -> spec_fn(RawEntryView) -> bool {
    |c: RawEntryView| is_hit(c.name, c.description, folded_query)
}

/// The entries of all nodes that a query matches, in the order of the nodes.
pub open spec fn hits(candidates: Seq<RawEntryView>, folded_query: Seq<char>) -> Seq<EntryView> {
    candidates.filter(hit_test(folded_query)).map_values(|c: RawEntryView| child_entry(c))
}

/// At most the first [`SEARCH_LIMIT`] entries.
pub open spec fn capped(found: Seq<EntryView>) -> Seq<EntryView> {
    if found.len() > SEARCH_LIMIT {
        found.take(SEARCH_LIMIT as int)
    } else {
        found
    }
}

/// What a deep search for `query` gives back on the nodes that a walk met.
pub open spec fn search_results(candidates: Seq<RawEntryView>, query: Seq<char>) -> Seq<EntryView> {
    capped(hits(candidates, lowercase(query)))
}

/// Taking one more node into account adds its entry if the query matches
/// it, and nothing else.
pub proof fn lemma_hits_step(candidates: Seq<RawEntryView>, folded_query: Seq<char>, i: int)
    requires
        0 <= i < candidates.len(),
    ensures
        hits(candidates.take(i + 1), folded_query) == if is_hit(
            candidates[i].name,
            candidates[i].description,
            folded_query,
        ) {
            hits(candidates.take(i), folded_query).push(child_entry(candidates[i]))
        } else {
            hits(candidates.take(i), folded_query)
        },
{
    let shorter = candidates.take(i);
    let test = hit_test(folded_query);
    assert(candidates.take(i + 1) =~= shorter.push(candidates[i]));
    shorter.lemma_filter_push(candidates[i], test);
    let kept = shorter.filter(test);
    if is_hit(candidates[i].name, candidates[i].description, folded_query) {
        assert(kept.push(candidates[i]).map_values(|c: RawEntryView| child_entry(c)) =~= kept.map_values(
            |c: RawEntryView| child_entry(c),
        ).push(child_entry(candidates[i])));
    }
}

/// A deep search in progress: the query, and what has been found so far.
/// It takes the nodes of a walk one by one and stops taking once it holds
/// [`SEARCH_LIMIT`] entries.
pub struct DeepSearch {
    folded: String,
    results: Vec<FileEntry>,
}

impl DeepSearch {
    #[verifier::type_invariant]
    spec fn inv(&self) -> bool {
        &&& self.results@.len() <= SEARCH_LIMIT
        &&& forall|i: int|
            0 <= i < self.results@.len() ==> is_hit(
                (#[trigger] self.results@[i])@.name,
                self.results@[i]@.description,
                self.folded@,
            )
    }

    /// The query in lower-case form.
    pub closed spec fn folded_query(&self) -> Seq<char> {
        self.folded@
    }

    /// The entries found so far.
    pub closed spec fn found(&self) -> Seq<EntryView> {
        views(self.results@)
    }

    /// Starts a search for `query` with nothing found.
    pub fn new(query: &str) -> (r: DeepSearch)
        ensures
            r.folded_query() == lowercase(query@),
            r.found() == Seq::<EntryView>::empty(),
    {
        let r = DeepSearch { folded: to_lowercase(query), results: Vec::new() };
        assert(views(r.results@) =~= Seq::<EntryView>::empty());
        r
    }

    /// True once the search holds as many entries as it may give back.
    pub fn is_full(&self) -> (r: bool)
        ensures
            r == (self.found().len() >= SEARCH_LIMIT),
    {
        self.results.len() >= SEARCH_LIMIT
    }

    /// True when the search would take a node with this name and
    /// description: it is not full and the query matches.
    pub fn wants(&self, name: &str, description: &Option<String>) -> (r: bool)
        ensures
            r == (self.found().len() < SEARCH_LIMIT && is_hit(
                name@,
                text_of(*description),
                self.folded_query(),
            )),
    {
        !self.is_full() && hit(name, description, self.folded.as_str())
    }

    /// Offers one node. Its entry is added if the search wants it.
    pub fn offer(self, candidate: &RawEntry) -> (r: DeepSearch)
        ensures
            r.folded_query() == self.folded_query(),
            r.found() == if self.found().len() < SEARCH_LIMIT && is_hit(
                candidate@.name,
                candidate@.description,
                self.folded_query(),
            ) {
                self.found().push(child_entry(candidate@))
            } else {
                self.found()
            },
    {
        proof {
            use_type_invariant(&self);
        }
        if self.wants(candidate.name.as_str(), &candidate.description) {
            let entry = entry_from_raw(
                RawEntry {
                    name: candidate.name.clone(),
                    path: candidate.path.clone(),
                    metadata: candidate.metadata,
                    description: clone_text(&candidate.description),
                },
            );
            let ghost before = self.results@;
            let mut results = self.results;
            results.push(entry);
            assert(views(results@) =~= views(before).push(child_entry(candidate@)));
            DeepSearch { folded: self.folded, results }
        } else {
            self
        }
    }

    /// Ends the search. It gives back at most [`SEARCH_LIMIT`] entries, and
    /// none that the query does not match.
    pub fn into_results(self) -> (r: Vec<FileEntry>)
        ensures
            views(r@) == self.found(),
            r@.len() <= SEARCH_LIMIT,
            forall|i: int|
                0 <= i < r@.len() ==> is_hit(
                    (#[trigger] r@[i])@.name,
                    r@[i]@.description,
                    self.folded_query(),
                ),
    {
        proof {
            use_type_invariant(&self);
        }
        self.results
    }
}

/// One extended attribute: its name and its value.
#[derive(Debug, PartialEq, Eq)]
pub struct Attribute {
    pub name: String,
    pub value: Vec<u8>,
}

impl View for Attribute {
    type V = (Seq<char>, Seq<u8>);

    open spec fn view(&self) -> (Seq<char>, Seq<u8>) {
        (self.name@, self.value@)
    }
}

/// The names and values of a list of attributes.
pub open spec fn attribute_views(attributes: Seq<Attribute>) -> Seq<(Seq<char>, Seq<u8>)> {
    attributes.map_values(|a: Attribute| a@)
}

/// The test for an attribute that a destination lacks.
pub open spec fn is_missing(present: Seq<Seq<char>>) -> spec_fn((Seq<char>, Seq<u8>)) -> bool {
    |a: (Seq<char>, Seq<u8>)| !present.contains(a.0)
}

/// Where a move stands. A move reads the attributes of the source, tries to
/// rename, and behind a failed rename copies and deletes; after either way
/// it restores the attributes that the destination lacks.
#[derive(Clone, Copy, Debug, PartialEq, Eq, Structural)]
pub enum MoveStage {
    /// Read the extended attributes of the source.
    ReadAttributes,
    /// Rename the source to the destination.
    Rename,
    /// The rename failed: copy the source to the destination.
    Copy,
    /// After a rename: restore the attributes that the destination lacks.
    RestoreAfterRename,
    /// After a copy: restore the attributes that the destination lacks.
    RestoreAfterCopy,
    /// After a copy: delete the source.
    DeleteSource,
    /// The move is complete.
    Done,
    /// The move was given up: the copy or the deletion failed.
    Failed,
}

/// The stage that follows `stage` once its work has succeeded or failed.
/// Reading and restoring attributes is done as far as it goes: its failure
/// does not stop the move.
pub open spec fn next_stage(stage: MoveStage, succeeded: bool) -> MoveStage {
    match stage {
        MoveStage::ReadAttributes => MoveStage::Rename,
        MoveStage::Rename => if succeeded {
            MoveStage::RestoreAfterRename
        } else {
            MoveStage::Copy
        },
        MoveStage::Copy => if succeeded {
            MoveStage::RestoreAfterCopy
        } else {
            MoveStage::Failed
        },
        MoveStage::RestoreAfterRename => MoveStage::Done,
        MoveStage::RestoreAfterCopy => MoveStage::DeleteSource,
        MoveStage::DeleteSource => if succeeded {
            MoveStage::Done
        } else {
            MoveStage::Failed
        },
        MoveStage::Done => MoveStage::Done,
        MoveStage::Failed => MoveStage::Failed,
    }
}

/// Every attribute that was read from the source is borne by the
/// destination already or is among those to restore.
pub proof fn lemma_restore_covers(saved: Seq<(Seq<char>, Seq<u8>)>, present: Seq<Seq<char>>, i: int)
    requires
        0 <= i < saved.len(),
    ensures
        present.contains(saved[i].0) || saved.filter(is_missing(present)).contains(saved[i]),
{
    if !present.contains(saved[i].0) {
        saved.lemma_filter_contains(is_missing(present), i);
    }
}

/// A move whose rename fails goes on to copy, restores the attributes and
/// deletes the source; it is complete if the copy and the deletion succeed,
/// whatever comes of the attributes.
pub proof fn lemma_move_falls_back(read: bool, restored: bool)
    ensures
        next_stage(MoveStage::ReadAttributes, read) == MoveStage::Rename,
        next_stage(MoveStage::Rename, false) == MoveStage::Copy,
        next_stage(MoveStage::Copy, true) == MoveStage::RestoreAfterCopy,
        next_stage(MoveStage::RestoreAfterCopy, restored) == MoveStage::DeleteSource,
        next_stage(MoveStage::DeleteSource, true) == MoveStage::Done,
{
}

/// The pairs of source and destination for the children `names` of a
/// directory that is copied from `src` to `dst`.
pub open spec fn child_pairs(src: Seq<char>, dst: Seq<char>, names: Seq<Seq<char>>) -> Seq<
    (Seq<char>, Seq<char>),
> {
    names.map_values(|n: Seq<char>| (path_join(src, n), path_join(dst, n)))
}

/// A recursive copy in progress: the pairs of source and destination that
/// are still to be copied. A directory is created at its destination and its
/// children are copied before anything else that waits.
pub struct CopyJob {
    /// The pairs that wait, the next one last.
    waiting: Vec<(String, String)>,
}

impl View for CopyJob {
    type V = Seq<(Seq<char>, Seq<char>)>;

    /// The pairs that wait, the next one first.
    closed spec fn view(&self) -> Seq<(Seq<char>, Seq<char>)> {
        pairs(self.waiting@).reverse()
    }
}

impl CopyJob {
    /// The next pair to copy, or `None` when the copy is complete.
    pub fn next(&mut self) -> (r: Option<(String, String)>)
        ensures
            match r {
                Some(pair) => old(self)@.len() > 0 && (pair.0@, pair.1@) == old(self)@[0] && final(self)@
                    == old(self)@.drop_first(),
                None => old(self)@.len() == 0 && final(self)@ == old(self)@,
            },
    {
        let ghost before = self.waiting@;
        let r = self.waiting.pop();
        proof {
            let f = |p: (String, String)| (p.0@, p.1@);
            if before.len() > 0 {
                assert(self.waiting@.map_values(f).reverse() =~= before.map_values(f).reverse().drop_first());
            }
        }
        r
    }

    /// Tells the job that `src` is a directory with the children `names`:
    /// they are copied next, in the order given, each to the same name under
    /// `dst`.
    pub fn descend(&mut self, src: &str, dst: &str, names: &Vec<String>)
        ensures
            final(self)@ == child_pairs(src@, dst@, texts(names@)) + old(self)@,
    {
        let ghost before = self.waiting@;
        let ghost f = |p: (String, String)| (p.0@, p.1@);
        let ghost all = child_pairs(src@, dst@, texts(names@));
        let mut i: usize = names.len();
        while i > 0
            invariant
                i <= names@.len(),
                all == child_pairs(src@, dst@, texts(names@)),
                f == |p: (String, String)| (p.0@, p.1@),
                self.waiting@.map_values(f).reverse() == all.skip(i as int) + before.map_values(f).reverse(),
            decreases i,
        {
            i -= 1;
            let ghost sofar = self.waiting@;
            let name = names[i].as_str();
            self.waiting.push((join_paths(src, name), join_paths(dst, name)));
            proof {
                assert(texts(names@)[i as int] == names@[i as int]@);
                assert(all[i as int] == (path_join(src@, names@[i as int]@), path_join(dst@, names@[i as int]@)));
                assert(self.waiting@.map_values(f).reverse() =~= seq![all[i as int]] + sofar.map_values(
                    f,
                ).reverse());
                assert(all.skip(i as int) =~= seq![all[i as int]] + all.skip(i + 1));
            }
        }
        assert(all.skip(0) =~= all);
    }
}

/// Owns the current directory of the browser: one absolute path, changed
/// only by a navigation that succeeds.
#[derive(Debug)]
pub struct FileSystemManager {
    current_dir: String,
}

impl View for FileSystemManager {
    type V = Seq<char>;

    /// The current directory.
    closed spec fn view(&self) -> Seq<char> {
        self.current_dir@
    }
}

impl FileSystemManager {
    /// Starts at the canonical form of the start directory, or at `.` where
    /// that could not be resolved.
    pub fn new(resolved: Option<String>) -> (r: FileSystemManager)
        ensures
            r@ == match resolved {
                Some(path) => path@,
                None => "."@,
            },
    {
        match resolved {
            Some(path) => FileSystemManager { current_dir: path },
            None => FileSystemManager { current_dir: String::from_str(".") },
        }
    }

    /// The current directory.
    pub fn current_path(&self) -> (r: &str)
        ensures
            r@ == self@,
    {
        self.current_dir.as_str()
    }

    /// Where `path` points when it is taken relative to the current
    /// directory. The caller resolves the answer on disk before it calls
    /// [`FileSystemManager::navigate_to`].
    pub fn resolve(&self, path: &str) -> (r: String)
        ensures
            r@ == path_join(self@, path@),
    {
        join_paths(self.current_dir.as_str(), path)
    }

    /// Makes `resolved` the current directory if it is a directory. Any
    /// other target is refused and the current directory stays.
    pub fn navigate_to(&mut self, resolved: String, is_dir: bool) -> (r: Result<(), FsError>)
        ensures
            is_dir ==> r is Ok && final(self)@ == resolved@,
            !is_dir ==> r == Err::<(), FsError>(FsError::NotADirectory) && final(self)@ == old(self)@,
    {
        if is_dir {
            self.current_dir = resolved;
            Ok(())
        } else {
            Err(FsError::NotADirectory)
        }
    }

    /// Moves to the parent of the current directory. Returns whether there
    /// was one; at the root nothing changes.
    pub fn navigate_up(&mut self) -> (r: bool)
        ensures
            match path_parent(old(self)@) {
                Some(parent) => r && final(self)@ == parent,
                None => !r && final(self)@ == old(self)@,
            },
    {
        match parent_of(self.current_dir.as_str()) {
            Some(parent) => {
                self.current_dir = parent;
                true
            },
            None => false,
        }
    }

    /// Permissions, owner and group of a node as they are shown: the mode
    /// bits in symbolic form and the numeric ids, or placeholders where the
    /// platform has neither.
    pub fn get_metadata_info(&self, metadata: &Metadata) -> (r: (String, String, String))
        ensures
            (r.0@, r.1@, r.2@) == metadata_info(*metadata),
    {
        metadata_strings(metadata)
    }

    /// The listing of the current directory from what was read of it. The
    /// entries `.` and `..` are added, `..` only where the directory has a
    /// parent, and everything is put in listing order.
    pub fn list_directory(&self, scan: DirectoryScan) -> (r: Vec<FileEntry>)
        ensures
            views(r@) == listing(self@, scan@),
            is_ordered(views(r@)),
            r@.len() >= 1,
            r@[0]@ == synthetic_entry("."@, self@, scan.this),
    {
        let ghost all = assembled(self@, scan@);
        let ghost raws = raw_views(scan.children@);
        let this = scan.this;
        let parent = scan.parent;
        let mut entries: Vec<FileEntry> = Vec::new();
        entries.push(synthetic(".", self.current_dir.clone(), &this));
        match parent {
            Some(metadata) => {
                match parent_of(self.current_dir.as_str()) {
                    Some(path) => {
                        entries.push(synthetic("..", path, &metadata));
                    },
                    None => {},
                }
            },
            None => {},
        }
        assert(views(entries@) =~= seq![synthetic_entry("."@, self@, this)] + parent_entries(
            self@,
            parent,
        ));
        let ghost head = views(entries@);
        for raw in it: scan.children
            invariant
                it.seq() == scan.children@,
                raws == raw_views(scan.children@),
                views(entries@) == head + raws.take(it.index() as int).map_values(
                    |c: RawEntryView| child_entry(c),
                ),
        {
            let ghost sofar = views(entries@);
            let ghost n = it.index() as int;
            entries.push(entry_from_raw(raw));
            proof {
                let f = |c: RawEntryView| child_entry(c);
                assert(raws[n] == raw@);
                assert(views(entries@) =~= sofar.push(child_entry(raws[n])));
                assert(raws.take(n + 1).map_values(f) =~= raws.take(n).map_values(f).push(child_entry(raws[n])));
            }
        }
        proof {
            assert(raws.take(raws.len() as int) =~= raws);
            assert(views(entries@) =~= all);
            lemma_listing_head(self@, scan@);
        }
        sort_entries(entries)
    }

    /// What a deep search for `query` gives back on the nodes that a walk
    /// met, in the order of the walk: the entries of the nodes whose name or
    /// description holds the query in any case of letters, and no more than
    /// [`SEARCH_LIMIT`] of them.
    pub fn search_recursive(&self, candidates: &Vec<RawEntry>, query: &str) -> (r: Vec<FileEntry>)
        ensures
            views(r@) == search_results(raw_views(candidates@), query@),
            r@.len() <= SEARCH_LIMIT,
            forall|i: int|
                0 <= i < r@.len() ==> is_hit(
                    (#[trigger] r@[i])@.name,
                    r@[i]@.description,
                    lowercase(query@),
                ),
    {
        let ghost all = raw_views(candidates@);
        let ghost folded = lowercase(query@);
        let mut search = DeepSearch::new(query);
        let mut i: usize = 0;
        proof {
            reveal(Seq::filter);
            assert(all.take(0) =~= Seq::<RawEntryView>::empty());
            assert(hits(all.take(0), folded) =~= Seq::<EntryView>::empty());
        }
        while i < candidates.len()
            invariant
                i <= candidates@.len(),
                all == raw_views(candidates@),
                search.folded_query() == folded,
                search.found() == capped(hits(all.take(i as int), folded)),
            decreases candidates@.len() - i,
        {
            proof {
                lemma_hits_step(all, folded, i as int);
                assert(all[i as int] == candidates@[i as int]@);
                let longer = hits(all.take(i as int), folded).push(child_entry(all[i as int]));
                if hits(all.take(i as int), folded).len() >= SEARCH_LIMIT {
                    assert(longer.take(SEARCH_LIMIT as int) =~= hits(all.take(i as int), folded).take(
                        SEARCH_LIMIT as int,
                    ));
                    assert(hits(all.take(i as int), folded).len() == SEARCH_LIMIT ==> hits(
                        all.take(i as int),
                        folded,
                    ).take(SEARCH_LIMIT as int) =~= hits(all.take(i as int), folded));
                }
            }
            search = search.offer(&candidates[i]);
            i += 1;
        }
        proof {
            assert(all.take(all.len() as int) =~= all);
        }
        search.into_results()
    }

    /// The stage of a move that follows `stage`, given whether the work of
    /// `stage` succeeded. A failed rename falls back to copying and deleting;
    /// a failed copy or deletion gives the move up.
    pub fn move_entry(&self, stage: MoveStage, succeeded: bool) -> (r: MoveStage)
        ensures
            r == next_stage(stage, succeeded),
    {
        match stage {
            MoveStage::ReadAttributes => MoveStage::Rename,
            MoveStage::Rename => if succeeded {
                MoveStage::RestoreAfterRename
            } else {
                MoveStage::Copy
            },
            MoveStage::Copy => if succeeded {
                MoveStage::RestoreAfterCopy
            } else {
                MoveStage::Failed
            },
            MoveStage::RestoreAfterRename => MoveStage::Done,
            MoveStage::RestoreAfterCopy => MoveStage::DeleteSource,
            MoveStage::DeleteSource => if succeeded {
                MoveStage::Done
            } else {
                MoveStage::Failed
            },
            MoveStage::Done => MoveStage::Done,
            MoveStage::Failed => MoveStage::Failed,
        }
    }

    /// The attributes to restore after a move: those that were read from the
    /// source and whose names the destination does not bear.
    pub fn attributes_to_restore(&self, saved: &Vec<Attribute>, present: &Vec<String>) -> (r: Vec<Attribute>)
        ensures
            attribute_views(r@) == attribute_views(saved@).filter(is_missing(texts(present@))),
    {
        let ghost all = attribute_views(saved@);
        let ghost test = is_missing(texts(present@));
        let mut r: Vec<Attribute> = Vec::new();
        let mut i: usize = 0;
        proof {
            reveal(Seq::filter);
            assert(all.take(0) =~= Seq::<(Seq<char>, Seq<u8>)>::empty());
            assert(attribute_views(r@) =~= all.take(0).filter(test));
        }
        while i < saved.len()
            invariant
                i <= saved@.len(),
                all == attribute_views(saved@),
                test == is_missing(texts(present@)),
                attribute_views(r@) == all.take(i as int).filter(test),
            decreases saved@.len() - i,
        {
            let ghost sofar = r@;
            proof {
                assert(all.take(i + 1) =~= all.take(i as int).push(saved@[i as int]@));
                all.take(i as int).lemma_filter_push(saved@[i as int]@, test);
            }
            if !contains_text(present, saved[i].name.as_str()) {
                r.push(Attribute { name: saved[i].name.clone(), value: saved[i].value.clone() });
                assert(attribute_views(r@) =~= attribute_views(sofar).push(saved@[i as int]@));
            }
            i += 1;
        }
        proof {
            assert(all.take(all.len() as int) =~= all);
        }
        r
    }

    /// Starts a recursive copy of `src` to `dst`.
    pub fn copy_recursive(&self, src: String, dst: String) -> (r: CopyJob)
        ensures
            r@ == seq![(src@, dst@)],
    {
        let mut waiting: Vec<(String, String)> = Vec::new();
        waiting.push((src, dst));
        let r = CopyJob { waiting };
        assert(r@ =~= seq![(src@, dst@)]);
        r
    }
}

/// The entry for the directory itself is the first of its listing, and the
/// listing is in order. Where no child bears the name `.`, the entry for the
/// parent, if there is one, is the second, and the children follow in their
/// own order.
pub proof fn lemma_listing_head(current: Seq<char>, scan: ScanView)
    ensures
        is_ordered(listing(current, scan)),
        listing(current, scan).len() == 1 + parent_entries(current, scan.parent).len()
            + scan.children.len(),
        listing(current, scan)[0] == synthetic_entry("."@, current, scan.this),
        (forall|i: int| 0 <= i < scan.children.len() ==> (#[trigger] scan.children[i]).name != "."@)
            ==> listing(current, scan) == seq![synthetic_entry("."@, current, scan.this)]
            + parent_entries(current, scan.parent) + sorted_entries(
            scan.children.map_values(|c: RawEntryView| child_entry(c)),
        ),
{
    broadcast use vstd::seq_lib::group_to_multiset_ensures;

    let this = scan.this;
    let parent = scan.parent;
    let children = scan.children;
    let dot = synthetic_entry("."@, current, this);
    let all = assembled(current, scan);
    let kids = children.map_values(|c: RawEntryView| child_entry(c));
    let after_dot = parent_entries(current, parent) + kids;
    lemma_sorted_entries(all);
    assert(all.drop_first() =~= after_dot);
    assert(all.first() == dot);
    let rest = sorted_entries(after_dot);
    lemma_sorted_entries(after_dot);
    assert(rank(dot) == 0);
    lemma_insert_position(dot, rest, 0);
    assert(insert_position(dot, rest) == 0);
    assert(listing(current, scan) =~= seq![dot] + rest);
    if forall|i: int| 0 <= i < children.len() ==> (#[trigger] children[i]).name != "."@ {
        if parent_entries(current, parent).len() > 0 {
            let up = parent_entries(current, parent)[0];
            assert(after_dot.drop_first() =~= kids);
            assert(after_dot.first() == up);
            let sorted_kids = sorted_entries(kids);
            lemma_sorted_entries(kids);
            reveal_strlit(".");
            reveal_strlit("..");
            assert(up.name == ".."@);
            assert("."@.len() == 1 && ".."@.len() == 2);
            assert(rank(up) == 1);
            if sorted_kids.len() > 0 {
                let first = sorted_kids[0];
                assert(sorted_kids.to_multiset().count(first) > 0);
                assert(kids.to_multiset().count(first) > 0);
                assert(kids.contains(first));
                let i = choose|i: int| 0 <= i < kids.len() && kids[i] == first;
                assert(kids[i] == child_entry(children[i]));
                assert(first.name != "."@);
            }
            lemma_insert_position(up, sorted_kids, 0);
            assert(rest =~= seq![up] + sorted_kids);
        } else {
            assert(after_dot =~= kids);
        }
    }
}

} // verus!
