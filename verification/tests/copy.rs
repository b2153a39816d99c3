use auto_backup::copy::{list_contains, skip_list, skip_pattern};
use auto_backup::{decide_entry, directory_start, DirEntry, DirectoryStart, EntryAction};

fn file(name: &str) -> DirEntry {
    DirEntry { name: name.to_string(), is_dir: false }
}

fn dir(name: &str) -> DirEntry {
    DirEntry { name: name.to_string(), is_dir: true }
}

#[test]
fn the_pattern_is_the_extension_behind_the_last_dot() {
    assert_eq!(skip_pattern("a.txt"), "*.txt");
    assert_eq!(skip_pattern("b.tmp"), "*.tmp");
    assert_eq!(skip_pattern("archive.tar.gz"), "*.gz");
    assert_eq!(skip_pattern("보고서.hwp"), "*.hwp");
    assert_eq!(skip_pattern(".hidden.txt"), "*.txt");
}

#[test]
fn a_name_without_extension_has_the_bare_pattern() {
    assert_eq!(skip_pattern("README"), "*.");
    assert_eq!(skip_pattern(""), "*.");
    assert_eq!(skip_pattern(".bashrc"), "*.");
    assert_eq!(skip_pattern("name."), "*.");
    assert_eq!(skip_pattern(".."), "*.");
}

#[test]
fn the_pattern_agrees_with_the_standard_extension() {
    for name in ["a.txt", "README", ".bashrc", "a.b.c", "name.", "..", "a..b", ".a.b", "x.tar.gz"] {
        let extension = std::path::Path::new(name).extension().unwrap_or_default().to_str().unwrap();
        assert_eq!(skip_pattern(name), format!("*.{}", extension));
    }
}

#[test]
fn a_list_holds_what_equals_one_of_its_entries() {
    let list = vec!["*.tmp".to_string(), "*.log".to_string()];
    assert!(list_contains(&list, "*.tmp"));
    assert!(list_contains(&list, "*.log"));
    assert!(!list_contains(&list, "*.txt"));
    assert!(!list_contains(&list, "*.tm"));
    assert!(!list_contains(&list, "*.TMP"));
    assert!(!list_contains(&list, ""));
    assert!(!list_contains(&Vec::new(), "*.tmp"));
}

#[test]
fn an_exclusion_list_is_split_at_spaces() {
    assert_eq!(skip_list("*.tmp *.log"), vec!["*.tmp", "*.log"]);
    assert_eq!(skip_list("node_modules"), vec!["node_modules"]);
    assert_eq!(skip_list(""), vec![""]);
}

#[test]
fn a_directory_is_excluded_by_its_whole_name_only() {
    let folders = skip_list("node_modules .git");
    let files = skip_list("");
    assert_eq!(decide_entry(&dir("node_modules"), &files, &folders), EntryAction::Skip);
    assert_eq!(decide_entry(&dir(".git"), &files, &folders), EntryAction::Skip);
    assert_eq!(decide_entry(&dir("node_modules2"), &files, &folders), EntryAction::Descend);
    assert_eq!(decide_entry(&dir("node"), &files, &folders), EntryAction::Descend);
    assert_eq!(decide_entry(&dir("Node_Modules"), &files, &folders), EntryAction::Descend);
}

#[test]
fn the_two_lists_do_not_mix() {
    let files = skip_list("*.tmp");
    let folders = skip_list("cache");
    assert_eq!(decide_entry(&dir("old.tmp"), &files, &folders), EntryAction::Descend);
    assert_eq!(decide_entry(&file("cache"), &files, &folders), EntryAction::CopyFile);
    assert_eq!(decide_entry(&dir("*.tmp"), &files, &folders), EntryAction::Descend);
}

#[test]
fn files_without_extension_are_excluded_by_the_bare_pattern() {
    assert_eq!(decide_entry(&file("README"), &skip_list("*."), &skip_list("")), EntryAction::Skip);
    assert_eq!(decide_entry(&file("README"), &skip_list(""), &skip_list("")), EntryAction::CopyFile);
    assert_eq!(decide_entry(&file("README"), &skip_list("*.tmp"), &skip_list("")), EntryAction::CopyFile);
}

#[test]
fn a_missing_source_is_left_alone() {
    assert_eq!(directory_start(false, false), DirectoryStart::Nothing);
    assert_eq!(directory_start(false, true), DirectoryStart::Nothing);
}

#[test]
fn a_missing_destination_is_created_first() {
    assert_eq!(directory_start(true, false), DirectoryStart::CreateThenRead);
    assert_eq!(directory_start(true, true), DirectoryStart::Read);
}

#[test]
fn a_file_of_an_excluded_extension_is_skipped() {
    let files = skip_list("*.tmp");
    let folders = skip_list("");
    assert_eq!(decide_entry(&file("a.txt"), &files, &folders), EntryAction::CopyFile);
    assert_eq!(decide_entry(&file("b.tmp"), &files, &folders), EntryAction::Skip);
    assert_eq!(decide_entry(&file("b.tmp.txt"), &files, &folders), EntryAction::CopyFile);
    assert_eq!(decide_entry(&file("tmp"), &files, &folders), EntryAction::CopyFile);
}
