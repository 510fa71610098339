use symlink_manager::enumerate::{build_item_list, DirEntryRecord};
use symlink_manager::models::ItemStatus;
use symlink_manager::text::{join_path, lowercase, str_eq, str_lex_le};

fn entry(name: &str, is_directory: bool, path: &str) -> DirEntryRecord {
    DirEntryRecord { name: name.to_string(), is_directory, path: path.to_string() }
}

#[test]
fn directories_sort_before_files() {
    let items = build_item_list(vec![
        entry("readme.txt", false, "/src/ModA/readme.txt"),
        entry("Textures", true, "/src/ModA/Textures"),
        entry("b.txt", false, "/src/ModA/b.txt"),
        entry("A.txt", false, "/src/ModA/A.txt"),
    ]);
    let names: Vec<&str> = items.iter().map(|i| i.name.as_str()).collect();
    assert_eq!(names, vec!["Textures", "A.txt", "b.txt", "readme.txt"]);
    assert!(items[0].is_directory);
    assert!(items.iter().all(|i| i.status == ItemStatus::Inactive && !i.enabled));
}

#[test]
fn ordering_is_case_insensitive() {
    // "a.txt" must come before "B.txt": by raw code points 'B' < 'a', so this
    // order only appears after case folding.
    let items = build_item_list(vec![
        entry("B.txt", false, "/s/B.txt"),
        entry("a.txt", false, "/s/a.txt"),
    ]);
    let names: Vec<&str> = items.iter().map(|i| i.name.as_str()).collect();
    assert_eq!(names, vec!["a.txt", "B.txt"]);
}

#[test]
fn hidden_entries_are_dropped() {
    let items = build_item_list(vec![
        entry(".git", true, "/s/.git"),
        entry("mod", true, "/s/mod"),
        entry(".DS_Store", false, "/s/.DS_Store"),
    ]);
    let names: Vec<&str> = items.iter().map(|i| i.name.as_str()).collect();
    assert_eq!(names, vec!["mod"]);
}

#[test]
fn enumeration_of_empty_directory_is_empty() {
    let items = build_item_list(Vec::new());
    assert!(items.is_empty());
}

#[test]
fn string_helpers_behave() {
    assert!(str_eq("abc", "abc"));
    assert!(!str_eq("abc", "abd"));
    assert!(!str_eq("abc", "ab"));
    assert!(str_lex_le("ab", "abc"));
    assert!(str_lex_le("abc", "abc"));
    assert!(!str_lex_le("b", "abc"));
    assert_eq!(lowercase("MiXeD"), "mixed");
    assert_eq!(join_path("/Game", "Textures"), "/Game/Textures");
}
