use capture_archive::paths::{file_name, join, parent, parent_name};

fn some(s: &str) -> Option<String> {
    Some(String::from(s))
}

#[test]
fn file_name_is_the_last_name() {
    assert_eq!(file_name("/sandbox/label1/photo.jpg"), some("photo.jpg"));
    assert_eq!(file_name("photo.jpg"), some("photo.jpg"));
    assert_eq!(file_name("/sandbox/label1/"), some("label1"));
    assert_eq!(file_name("/sandbox//label1///"), some("label1"));
}

#[test]
fn dot_segments_are_no_names() {
    assert_eq!(file_name("/sandbox/label1/."), some("label1"));
    assert_eq!(file_name("/sandbox/./label1/./"), some("label1"));
    assert_eq!(file_name("/sandbox/.hidden"), some(".hidden"));
    assert_eq!(file_name("/sandbox/..."), some("..."));
}

#[test]
fn paths_without_a_name_have_no_file_name() {
    assert_eq!(file_name(""), None);
    assert_eq!(file_name("/"), None);
    assert_eq!(file_name("///"), None);
    assert_eq!(file_name("."), None);
    assert_eq!(file_name("/sandbox/.."), None);
    assert_eq!(file_name(".."), None);
}

#[test]
fn parent_name_is_the_name_before_the_last() {
    assert_eq!(parent_name("/sandbox/label1/photo.jpg"), some("label1"));
    assert_eq!(parent_name("label1/photo.jpg"), some("label1"));
    assert_eq!(parent_name("/sandbox/label1//photo.jpg/"), some("label1"));
    assert_eq!(parent_name("/sandbox/label1/./photo.jpg"), some("label1"));
}

#[test]
fn parent_name_may_be_missing() {
    assert_eq!(parent_name("photo.jpg"), None);
    assert_eq!(parent_name("/photo.jpg"), None);
    assert_eq!(parent_name("../photo.jpg"), None);
    assert_eq!(parent_name("/sandbox/../photo.jpg"), None);
    assert_eq!(parent_name(""), None);
    assert_eq!(parent_name("/sandbox/.."), some("sandbox"));
}

#[test]
fn parent_is_the_path_without_its_last_name() {
    assert_eq!(parent("/sandbox/label1/photo.jpg"), some("/sandbox/label1"));
    assert_eq!(parent("/sandbox/label1//photo.jpg//"), some("/sandbox/label1"));
    assert_eq!(parent("/sandbox/label1/./photo.jpg"), some("/sandbox/label1"));
    assert_eq!(parent("/sandbox/label1/.."), some("/sandbox/label1"));
    assert_eq!(parent("a/b"), some("a"));
}

#[test]
fn parent_of_a_single_name() {
    assert_eq!(parent("/sandbox"), some("/"));
    assert_eq!(parent("sandbox"), some(""));
    assert_eq!(parent("//sandbox/"), some("/"));
}

#[test]
fn parent_of_a_name_written_from_the_current_directory() {
    assert_eq!(parent("./f"), some("."));
    assert_eq!(parent(".//f/"), some("."));
    assert_eq!(parent("././f"), some("."));
    assert_eq!(parent("./saved/f"), some("./saved"));
    assert_eq!(parent(".hidden"), some(""));
    assert_eq!(parent(".f/g"), some(".f"));
}

#[test]
fn paths_without_a_name_have_no_parent() {
    assert_eq!(parent(""), None);
    assert_eq!(parent("/"), None);
    assert_eq!(parent("/."), None);
}

#[test]
fn the_current_directory_has_an_empty_parent() {
    assert_eq!(parent("."), some(""));
    assert_eq!(parent("./"), some(""));
}

#[test]
fn join_puts_one_separator_between() {
    assert_eq!(join("/media/usb", "label1"), "/media/usb/label1");
    assert_eq!(join("/media/usb/", "label1"), "/media/usb/label1");
    assert_eq!(join("", "label1"), "label1");
    assert_eq!(join("/media/usb", ""), "/media/usb/");
}

#[test]
fn join_with_an_absolute_name_gives_the_name() {
    assert_eq!(join("/media/usb", "/etc/passwd"), "/etc/passwd");
}

#[test]
fn names_agree_with_the_standard_library() {
    let paths = [
        "/sandbox/label1/photo.jpg",
        "/sandbox/label1/",
        "/sandbox//label1//photo.jpg",
        "/sandbox/./label1/./photo.jpg/.",
        "/a/..",
        "/a/../b",
        "a",
        "/a",
        "/",
        "",
        "a/b/c",
        "/é/ü.jpg",
        "./f",
        "././f",
        ".//f/",
        "./saved/label1/photo.jpg",
        ".hidden",
        ".f/g",
        "./..",
        "saved/./f",
        ".",
        "./",
        ".//.",
        "/.",
        "//",
        "..",
        "../..",
    ];
    for p in paths {
        let std_path = std::path::Path::new(p);
        let expected = std_path.file_name().map(|n| n.to_str().unwrap().to_string());
        assert_eq!(file_name(p), expected, "file name of {:?}", p);
        let expected_parent_name = std_path
            .parent()
            .and_then(|d| d.file_name())
            .map(|n| n.to_str().unwrap().to_string());
        assert_eq!(parent_name(p), expected_parent_name, "parent name of {:?}", p);
        let expected_parent = std_path.parent().map(|d| d.to_str().unwrap().to_string());
        assert_eq!(parent(p), expected_parent, "parent of {:?}", p);
    }
}

#[test]
fn join_agrees_with_the_standard_library() {
    let cases = [("/media/usb", "a"), ("/media/usb/", "a"), ("", "a"), ("/m", "/abs"), ("m", "a-b.jpg")];
    for (base, name) in cases {
        let expected = std::path::Path::new(base).join(name);
        assert_eq!(join(base, name), expected.to_str().unwrap());
    }
}
