use editor_core::file_handling::{
    file_extension, get_parent, get_relative_path, join_paths, sort_folder_entries, FileEntry,
    FolderEntry, PathError,
};
use std::cmp::Ordering;
use editor_core::state::{contains, EditorState};
use editor_core::text_buffer::Language;

#[test]
fn file_entry_has_name_and_extension() {
    let entry = FileEntry::new("/home/user/main.py".to_string());
    assert_eq!(entry.path, "/home/user/main.py");
    assert_eq!(entry.name, "main.py");
    assert_eq!(entry.extension, "py");
    let archive = FileEntry::new("dir/archive.tar.gz".to_string());
    assert_eq!(archive.name, "archive.tar.gz");
    assert_eq!(archive.extension, "gz");
}

#[test]
fn extension_rules() {
    assert_eq!(file_extension(".bashrc"), "");
    assert_eq!(file_extension("README"), "");
    assert_eq!(file_extension("name."), "");
    assert_eq!(file_extension("a.b.c"), "c");
    let hidden = FileEntry::new("/x/.config".to_string());
    assert_eq!(hidden.name, ".config");
    assert_eq!(hidden.extension, "");
}

#[test]
fn relative_path_below_base() {
    assert_eq!(get_relative_path("/a", "/a/b/c"), Ok("b/c".to_string()));
    assert_eq!(get_relative_path("/x", "/a/b"), Err(PathError::NotAPrefix));
}

#[test]
fn parent_of_path() {
    assert_eq!(get_parent("/a/b"), Ok("/a".to_string()));
    assert_eq!(get_parent("/"), Err(PathError::NoParent));
}

#[test]
fn joined_paths() {
    assert_eq!(join_paths("/a", "b"), Ok("/a/b".to_string()));
    assert_eq!(join_paths("/a", "/c"), Ok("/c".to_string()));
}

#[test]
fn substring_search() {
    assert!(contains("/home/u/file.py", "u/file"));
    assert!(contains("abc", ""));
    assert!(!contains("abc", "abcd"));
    assert!(!contains("abc", "bd"));
}

#[test]
fn editor_state_finds_and_closes_buffers() {
    let mut state = EditorState::new();
    let a = state.add_buffer("x\n".to_string(), "/p/a.py".to_string(), Language::Python);
    let b = state.add_buffer("y".to_string(), "/p/b.txt".to_string(), Language::PlainText);
    assert_eq!((a, b), (0, 1));
    assert_eq!(state.find_buffer("/p/b.txt"), Some(1));
    assert_eq!(state.find_buffer("/q/c.txt"), None);
    assert_eq!(state.text_buffers[0].language, Language::Python);
    state.delete_buffer(0);
    assert_eq!(state.find_buffer("/p/b.txt"), Some(0));
    assert_eq!(state.text_buffers.len(), 1);
}

fn entry(name: &str, is_dir: bool) -> FolderEntry {
    FolderEntry {
        path: format!("/root/{}", name),
        is_dir,
        name: name.to_string(),
        extension: file_extension(name),
    }
}

#[test]
fn folders_come_first_then_names_ignoring_case() {
    let a = entry("b.txt", false);
    let b = entry("Zeta", true);
    assert_eq!(a.cmp(&b), Ordering::Greater);
    assert_eq!(b.partial_cmp(&a), Some(Ordering::Less));
    assert_eq!(entry("Apple", false).cmp(&entry("apple", false)), Ordering::Equal);
    assert_eq!(entry("apple", false).cmp(&entry("Banana", false)), Ordering::Less);
}

#[test]
fn folder_listing_is_sorted() {
    let sorted = sort_folder_entries(vec![
        entry("readme.md", false),
        entry("src", true),
        entry("Cargo.toml", false),
        entry("assets", true),
        entry("build.rs", false),
    ]);
    let names: Vec<&str> = sorted.iter().map(|e| e.name.as_str()).collect();
    assert_eq!(names, vec!["assets", "src", "build.rs", "Cargo.toml", "readme.md"]);
    assert_eq!(sort_folder_entries(vec![]).len(), 0);
}
