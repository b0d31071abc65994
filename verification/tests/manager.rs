use xplore::entry::FileEntry;
use xplore::listing::sort_entries;
use xplore::manager::{
    Attribute, DeepSearch, DirectoryScan, FileSystemManager, FsError, Metadata, MoveStage,
    RawEntry, UnixAttributes, SEARCH_LIMIT,
};

fn unix_meta(is_dir: bool, len: u64, mode: u32) -> Metadata {
    Metadata { is_dir, len, modified: 1_700_000_000, unix: Some(UnixAttributes { mode, uid: 1000, gid: 100 }) }
}

fn node(dir: &str, name: &str, is_dir: bool) -> RawEntry {
    RawEntry {
        name: name.to_string(),
        path: format!("{}/{}", dir, name),
        metadata: unix_meta(is_dir, if is_dir { 4096 } else { 12 }, if is_dir { 0o755 } else { 0o644 }),
        description: None,
    }
}

fn described(dir: &str, name: &str, description: &str) -> RawEntry {
    let mut raw = node(dir, name, false);
    raw.description = Some(description.to_string());
    raw
}

fn manager_at(path: &str) -> FileSystemManager {
    FileSystemManager::new(Some(path.to_string()))
}

fn scan_of(children: Vec<RawEntry>) -> DirectoryScan {
    DirectoryScan {
        this: unix_meta(true, 4096, 0o755),
        parent: Some(unix_meta(true, 4096, 0o700)),
        children,
    }
}

fn names_of(entries: &[FileEntry]) -> Vec<String> {
    entries.iter().map(|e| e.name.clone()).collect()
}

#[test]
fn new_starts_at_the_resolved_path_or_at_dot() {
    assert_eq!(manager_at("/home/me").current_path(), "/home/me");
    assert_eq!(FileSystemManager::new(None).current_path(), ".");
}

#[test]
fn navigate_to_enters_a_directory() {
    let mut manager = manager_at("/home/me");
    assert_eq!(manager.navigate_to("/home/me/docs".to_string(), true), Ok(()));
    assert_eq!(manager.current_path(), "/home/me/docs");
}

#[test]
fn navigate_to_refuses_what_is_no_directory() {
    let mut manager = manager_at("/home/me");
    assert_eq!(manager.navigate_to("/home/me/a.txt".to_string(), false), Err(FsError::NotADirectory));
    assert_eq!(manager.current_path(), "/home/me");
    assert_eq!(FsError::NotADirectory.message(), "Not a directory");
}

#[test]
fn resolve_joins_relative_and_replaces_absolute() {
    let manager = manager_at("/home/me");
    assert_eq!(manager.resolve("docs"), "/home/me/docs");
    assert_eq!(manager.resolve("docs/a.txt"), "/home/me/docs/a.txt");
    assert_eq!(manager.resolve("/tmp"), "/tmp");
    assert_eq!(manager.resolve(""), "/home/me/");
}

#[test]
fn navigate_up_goes_to_the_parent() {
    let mut manager = manager_at("/tmp/sub");
    assert!(manager.navigate_up());
    assert_eq!(manager.current_path(), "/tmp");
    assert!(manager.navigate_up());
    assert_eq!(manager.current_path(), "/");
}

#[test]
fn navigate_up_stays_at_the_root() {
    let mut manager = manager_at("/");
    assert!(!manager.navigate_up());
    assert_eq!(manager.current_path(), "/");
}

#[test]
fn metadata_info_renders_mode_bits() {
    let manager = manager_at("/");
    let info = manager.get_metadata_info(&unix_meta(true, 0, 0o755));
    assert_eq!(info, ("drwxr-xr-x".to_string(), "1000".to_string(), "100".to_string()));
    let info = manager.get_metadata_info(&unix_meta(false, 0, 0o640));
    assert_eq!(info.0, "-rw-r-----");
    let info = manager.get_metadata_info(&unix_meta(false, 0, 0o007));
    assert_eq!(info.0, "-------rwx");
    let info = manager.get_metadata_info(&unix_meta(false, 0, 0o100644));
    assert_eq!(info.0, "-rw-r--r--");
    let info = manager.get_metadata_info(&unix_meta(true, 0, 0));
    assert_eq!(info.0, "d---------");
}

#[test]
fn metadata_info_renders_ids_in_decimal() {
    let manager = manager_at("/");
    let metadata = Metadata {
        is_dir: false,
        len: 1,
        modified: 0,
        unix: Some(UnixAttributes { mode: 0o777, uid: 0, gid: 4_294_967_295 }),
    };
    let info = manager.get_metadata_info(&metadata);
    assert_eq!(info, ("-rwxrwxrwx".to_string(), "0".to_string(), "4294967295".to_string()));
}

#[test]
fn metadata_info_degrades_to_placeholders() {
    let manager = manager_at("/");
    let metadata = Metadata { is_dir: true, len: 0, modified: 0, unix: None };
    let info = manager.get_metadata_info(&metadata);
    assert_eq!(info, ("-".to_string(), "unknown".to_string(), "unknown".to_string()));
}

#[test]
fn listing_is_ordered() {
    let manager = manager_at("/base");
    let listing = manager.list_directory(scan_of(vec![
        node("/base", "b.txt", false),
        node("/base", "Zeta", true),
        node("/base", "A.txt", false),
        node("/base", "alpha", true),
        node("/base", "c.TXT", false),
    ]));
    assert_eq!(names_of(&listing), vec![".", "..", "alpha", "Zeta", "A.txt", "b.txt", "c.TXT"]);
}

#[test]
fn listing_adds_the_directory_and_its_parent() {
    let manager = manager_at("/base/here");
    let listing = manager.list_directory(scan_of(vec![node("/base/here", "a.txt", false)]));
    assert_eq!(listing.len(), 3);
    assert_eq!(listing[0].name, ".");
    assert_eq!(listing[0].path, "/base/here");
    assert!(listing[0].is_dir);
    assert_eq!(listing[0].size, 0);
    assert_eq!(listing[0].description, None);
    assert_eq!(listing[0].permissions, "drwxr-xr-x");
    assert_eq!(listing[0].mod_time, 1_700_000_000);
    assert_eq!(listing[1].name, "..");
    assert_eq!(listing[1].path, "/base");
    assert!(listing[1].is_dir);
    assert_eq!(listing[1].permissions, "drwx------");
    assert_eq!(listing[2].name, "a.txt");
    assert_eq!(listing[2].path, "/base/here/a.txt");
    assert_eq!(listing[2].size, 12);
    assert_eq!(listing[2].owner, "1000");
    assert_eq!(listing[2].group, "100");
}

#[test]
fn listing_of_the_root_has_no_parent_entry() {
    let manager = manager_at("/");
    let listing = manager.list_directory(scan_of(vec![node("", "etc", true)]));
    assert_eq!(names_of(&listing), vec![".", "etc"]);
}

#[test]
fn listing_of_an_empty_directory() {
    let manager = manager_at("/base");
    let listing = manager.list_directory(scan_of(vec![]));
    assert_eq!(names_of(&listing), vec![".", ".."]);
}

#[test]
fn listing_counts_no_bytes_for_a_directory() {
    let manager = manager_at("/base");
    let listing = manager.list_directory(scan_of(vec![node("/base", "sub", true)]));
    assert_eq!(listing[2].name, "sub");
    assert_eq!(listing[2].size, 0);
    assert!(listing[2].is_dir);
}

#[test]
fn listing_keeps_the_order_of_names_that_differ_only_in_case() {
    let manager = manager_at("/base");
    let listing = manager.list_directory(scan_of(vec![
        node("/base", "readme", false),
        node("/base", "README", false),
        node("/base", "Readme", false),
    ]));
    assert_eq!(names_of(&listing), vec![".", "..", "readme", "README", "Readme"]);
}

#[test]
fn sort_entries_orders_by_bytes_of_the_folded_name() {
    let manager = manager_at("/base");
    let mut entries = manager.list_directory(scan_of(vec![
        node("/base", "a10", false),
        node("/base", "a2", false),
        node("/base", "a", false),
        node("/base", "\u{e9}t\u{e9}", false),
        node("/base", "z", false),
    ]));
    entries.reverse();
    let sorted = sort_entries(entries);
    assert_eq!(names_of(&sorted), vec![".", "..", "a", "a10", "a2", "z", "\u{e9}t\u{e9}"]);
}

#[test]
fn search_matches_names_in_any_case() {
    let manager = manager_at("/");
    let candidates = vec![
        node("/a", "README.md", false),
        node("/a", "notes.txt", false),
        node("/b", "Readme", true),
        node("/b", "thread.rs", false),
    ];
    let found = manager.search_recursive(&candidates, "ReAd");
    assert_eq!(names_of(&found), vec!["README.md", "Readme", "thread.rs"]);
    assert_eq!(found[0].path, "/a/README.md");
    assert_eq!(found[1].size, 0);
}

#[test]
fn search_matches_descriptions() {
    let manager = manager_at("/");
    let candidates = vec![
        described("/a", "img1.png", "Holiday PHOTOS"),
        described("/a", "img2.png", "work"),
        node("/a", "img3.png", false),
    ];
    let found = manager.search_recursive(&candidates, "photos");
    assert_eq!(names_of(&found), vec!["img1.png"]);
    assert_eq!(found[0].description, Some("Holiday PHOTOS".to_string()));
}

#[test]
fn search_leaves_out_what_does_not_match() {
    let manager = manager_at("/");
    let candidates = vec![node("/a", "one", false), described("/a", "two", "second")];
    assert_eq!(manager.search_recursive(&candidates, "three").len(), 0);
}

#[test]
fn search_gives_back_at_most_the_limit() {
    let manager = manager_at("/");
    let mut candidates = Vec::new();
    for i in 0..1500 {
        candidates.push(node("/many", &format!("file{}", i), false));
        candidates.push(node("/many", &format!("other{}", i), false));
    }
    let found = manager.search_recursive(&candidates, "FILE");
    assert_eq!(SEARCH_LIMIT, 1000);
    assert_eq!(found.len(), 1000);
    assert_eq!(found[0].name, "file0");
    assert_eq!(found[999].name, "file999");
    assert!(found.iter().all(|e| e.name.starts_with("file")));
}

#[test]
fn search_with_an_empty_query_matches_everything() {
    let manager = manager_at("/");
    let candidates = vec![node("/a", "one", false), node("/a", "two", true)];
    assert_eq!(names_of(&manager.search_recursive(&candidates, "")), vec!["one", "two"]);
}

#[test]
fn deep_search_takes_nodes_one_by_one() {
    let mut search = DeepSearch::new("Log");
    assert!(!search.is_full());
    assert!(search.wants("syslog", &None));
    assert!(search.wants("x", &Some("catalogue".to_string())));
    assert!(!search.wants("x", &Some("other".to_string())));
    search = search.offer(&node("/var", "syslog", false));
    search = search.offer(&node("/var", "mail", false));
    search = search.offer(&described("/var", "x", "LOGBOOK"));
    let found = search.into_results();
    assert_eq!(names_of(&found), vec!["syslog", "x"]);
}

#[test]
fn deep_search_stops_taking_when_full() {
    let mut search = DeepSearch::new("f");
    for i in 0..SEARCH_LIMIT {
        search = search.offer(&node("/", &format!("f{}", i), false));
    }
    assert!(search.is_full());
    assert!(!search.wants("f", &None));
    search = search.offer(&node("/", "flast", false));
    let found = search.into_results();
    assert_eq!(found.len(), SEARCH_LIMIT);
    assert_eq!(found[SEARCH_LIMIT - 1].name, "f999");
}

#[test]
fn move_renames_where_it_can() {
    let manager = manager_at("/");
    let mut stage = MoveStage::ReadAttributes;
    stage = manager.move_entry(stage, true);
    assert_eq!(stage, MoveStage::Rename);
    stage = manager.move_entry(stage, true);
    assert_eq!(stage, MoveStage::RestoreAfterRename);
    stage = manager.move_entry(stage, true);
    assert_eq!(stage, MoveStage::Done);
    assert_eq!(manager.move_entry(stage, true), MoveStage::Done);
}

#[test]
fn move_falls_back_to_copy_and_delete() {
    let manager = manager_at("/");
    let mut stage = manager.move_entry(MoveStage::ReadAttributes, false);
    assert_eq!(stage, MoveStage::Rename);
    stage = manager.move_entry(stage, false);
    assert_eq!(stage, MoveStage::Copy);
    stage = manager.move_entry(stage, true);
    assert_eq!(stage, MoveStage::RestoreAfterCopy);
    stage = manager.move_entry(stage, false);
    assert_eq!(stage, MoveStage::DeleteSource);
    stage = manager.move_entry(stage, true);
    assert_eq!(stage, MoveStage::Done);
}

#[test]
fn move_is_given_up_when_copy_or_delete_fails() {
    let manager = manager_at("/");
    assert_eq!(manager.move_entry(MoveStage::Copy, false), MoveStage::Failed);
    assert_eq!(manager.move_entry(MoveStage::DeleteSource, false), MoveStage::Failed);
    assert_eq!(manager.move_entry(MoveStage::Failed, true), MoveStage::Failed);
    assert_eq!(manager.move_entry(MoveStage::RestoreAfterRename, false), MoveStage::Done);
}

#[test]
fn attributes_that_the_destination_lacks_are_restored() {
    let manager = manager_at("/");
    let saved = vec![
        Attribute { name: "user.xplore.description".to_string(), value: vec![104, 105] },
        Attribute { name: "user.tag".to_string(), value: vec![1] },
        Attribute { name: "user.other".to_string(), value: vec![] },
    ];
    let present = vec!["user.tag".to_string()];
    let restore = manager.attributes_to_restore(&saved, &present);
    assert_eq!(
        restore,
        vec![
            Attribute { name: "user.xplore.description".to_string(), value: vec![104, 105] },
            Attribute { name: "user.other".to_string(), value: vec![] },
        ]
    );
    assert_eq!(manager.attributes_to_restore(&saved, &vec![]), saved);
    let all: Vec<String> = saved.iter().map(|a| a.name.clone()).collect();
    assert_eq!(manager.attributes_to_restore(&saved, &all), vec![]);
}

#[test]
fn copy_walks_a_tree_depth_first() {
    let manager = manager_at("/");
    let mut job = manager.copy_recursive("/src".to_string(), "/dst".to_string());
    assert_eq!(job.next(), Some(("/src".to_string(), "/dst".to_string())));
    job.descend("/src", "/dst", &vec!["a".to_string(), "b.txt".to_string()]);
    assert_eq!(job.next(), Some(("/src/a".to_string(), "/dst/a".to_string())));
    job.descend("/src/a", "/dst/a", &vec!["x".to_string(), "y".to_string()]);
    assert_eq!(job.next(), Some(("/src/a/x".to_string(), "/dst/a/x".to_string())));
    assert_eq!(job.next(), Some(("/src/a/y".to_string(), "/dst/a/y".to_string())));
    assert_eq!(job.next(), Some(("/src/b.txt".to_string(), "/dst/b.txt".to_string())));
    assert_eq!(job.next(), None);
    assert_eq!(job.next(), None);
}

#[test]
fn copy_of_an_empty_directory_ends_at_once() {
    let manager = manager_at("/");
    let mut job = manager.copy_recursive("/src".to_string(), "/dst".to_string());
    assert_eq!(job.next(), Some(("/src".to_string(), "/dst".to_string())));
    job.descend("/src", "/dst", &vec![]);
    assert_eq!(job.next(), None);
}
