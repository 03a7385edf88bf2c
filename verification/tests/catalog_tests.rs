use capture_archive::catalog::{
    list_directory, lookup_path, sort_entries, sort_keyed, CatalogEntry, KeyedEntry, Listing,
};
use capture_archive::sandbox::PathSandbox;

fn entry(name: &str) -> CatalogEntry {
    CatalogEntry { name: String::from(name), path: format!("/sandbox/{}", name) }
}

fn names(entries: &[CatalogEntry]) -> Vec<String> {
    entries.iter().map(|e| e.name.clone()).collect()
}

#[test]
fn empty_directory_inside_the_sandbox_is_pruned() {
    let sandbox = PathSandbox::new("/sandbox");
    assert_eq!(list_directory(&sandbox, "/sandbox/label1", &Some(Vec::new())), Listing::Prune);
    assert_eq!(list_directory(&sandbox, "/sandbox//label1/", &Some(Vec::new())), Listing::Prune);
}

#[test]
fn the_root_is_never_pruned() {
    let sandbox = PathSandbox::new("/sandbox");
    assert_eq!(list_directory(&sandbox, "/sandbox", &Some(Vec::new())), Listing::Show(Vec::new()));
    assert_eq!(list_directory(&sandbox, "//sandbox", &Some(Vec::new())), Listing::Show(Vec::new()));
}

#[test]
fn empty_directory_outside_the_sandbox_is_shown_empty() {
    let sandbox = PathSandbox::new("/sandbox");
    assert_eq!(list_directory(&sandbox, "/media/usb0", &Some(Vec::new())), Listing::Show(Vec::new()));
    assert_eq!(list_directory(&sandbox, "/", &Some(Vec::new())), Listing::Show(Vec::new()));
}

#[test]
fn directory_that_does_not_exist_lists_as_empty() {
    let sandbox = PathSandbox::new("/sandbox");
    assert_eq!(list_directory(&sandbox, "/sandbox/gone", &None), Listing::Show(Vec::new()));
    assert_eq!(list_directory(&sandbox, "/nowhere", &None), Listing::Show(Vec::new()));
    assert_eq!(list_directory(&sandbox, "/sandbox", &None), Listing::Show(Vec::new()));
}

#[test]
fn directory_with_entries_is_shown_in_order() {
    let sandbox = PathSandbox::new("/sandbox");
    let found = Some(vec![entry("zebra"), entry("Apple"), entry("mango")]);
    assert_eq!(
        list_directory(&sandbox, "/sandbox/label1", &found),
        Listing::Show(vec![entry("Apple"), entry("mango"), entry("zebra")])
    );
}

#[test]
fn names_are_ordered_without_regard_to_case() {
    let sorted = sort_entries(&vec![entry("b"), entry("C"), entry("a"), entry("D")]);
    assert_eq!(names(&sorted), vec!["a", "b", "C", "D"]);
}

#[test]
fn names_that_differ_in_case_only_keep_their_order() {
    let sorted = sort_entries(&vec![entry("b"), entry("A"), entry("C"), entry("a"), entry("B")]);
    assert_eq!(names(&sorted), vec!["A", "a", "b", "B", "C"]);
    let sorted = sort_entries(&vec![entry("a"), entry("A")]);
    assert_eq!(names(&sorted), vec!["a", "A"]);
}

#[test]
fn a_name_comes_before_those_it_begins() {
    let sorted = sort_entries(&vec![entry("label10"), entry("label"), entry("Label1")]);
    assert_eq!(names(&sorted), vec!["label", "Label1", "label10"]);
}

#[test]
fn names_beyond_ascii_are_lowered_too() {
    let sorted = sort_entries(&vec![entry("Ü2"), entry("ü1"), entry("z")]);
    assert_eq!(names(&sorted), vec!["z", "ü1", "Ü2"]);
}

#[test]
fn entries_keep_their_paths() {
    let found = vec![
        CatalogEntry { name: String::from("b"), path: String::from("/x/b") },
        CatalogEntry { name: String::from("a"), path: String::from("/y/a") },
    ];
    assert_eq!(
        sort_entries(&found),
        vec![
            CatalogEntry { name: String::from("a"), path: String::from("/y/a") },
            CatalogEntry { name: String::from("b"), path: String::from("/x/b") },
        ]
    );
}

#[test]
fn listing_agrees_with_the_standard_sort() {
    let found: Vec<CatalogEntry> = [
        "2024-03-05_07.08.09.jpg", "b", "B", "a10", "a9", "", "Zz", "zZ", "é", "E", "b", "_x", "a",
    ]
    .iter()
    .map(|n| entry(n))
    .collect();
    let mut expected: Vec<String> = names(&found);
    expected.sort_by(|a, b| a.to_lowercase().cmp(&b.to_lowercase()));
    assert_eq!(names(&sort_entries(&found)), expected);
}

#[test]
fn keyed_entries_are_ordered_by_their_keys() {
    let items = vec![
        KeyedEntry { key: String::from("2"), entry: entry("first") },
        KeyedEntry { key: String::from("1"), entry: entry("second") },
        KeyedEntry { key: String::from("2"), entry: entry("third") },
        KeyedEntry { key: String::from(""), entry: entry("fourth") },
    ];
    assert_eq!(names(&sort_keyed(&items)), vec!["fourth", "second", "first", "third"]);
    assert_eq!(sort_keyed(&Vec::new()), Vec::new());
}

#[test]
fn requested_path_is_sanitized_before_it_is_looked_up() {
    assert_eq!(lookup_path("/sandbox/label1"), "/sandbox/label1");
    assert_eq!(lookup_path("/sandbox/../etc"), "/sandbox/xx/etc");
    assert_eq!(lookup_path("/media/"), "/media/");
}
