use capture_archive::sanitize::{sanitize_label, sanitize_path};

#[test]
fn label_keeps_letters_and_digits() {
    assert_eq!(sanitize_label("Shipment42"), "Shipment42");
}

#[test]
fn label_replaces_everything_else() {
    assert_eq!(sanitize_label("a b-c"), "axbxc");
    assert_eq!(sanitize_label("../etc/passwd"), "xxxetcxpasswd");
    assert_eq!(sanitize_label("x\ny"), "xxy");
    assert_eq!(sanitize_label("_"), "x");
}

#[test]
fn label_replaces_each_character_by_one_placeholder() {
    assert_eq!(sanitize_label("né€"), "nxx");
    assert_eq!(sanitize_label("\u{1F600}"), "x");
}

#[test]
fn empty_label_stays_empty() {
    assert_eq!(sanitize_label(""), "");
}

#[test]
fn label_holds_only_letters_and_digits_for_many_inputs() {
    let inputs = ["", "abc", "A-Z", "0/9", "  ", "ünï", "a\tb", "$1", "x", "[^A-Za-z0-9]"];
    for raw in inputs {
        let label = sanitize_label(raw);
        assert!(label.chars().all(|c| c.is_ascii_alphanumeric()));
        assert_eq!(label.chars().count(), raw.chars().count());
    }
}

#[test]
fn path_keeps_separators() {
    assert_eq!(sanitize_path("/sandbox/label1"), "/sandbox/label1");
    assert_eq!(sanitize_path("/my-app/saved/a b"), "/myxapp/saved/axb");
    assert_eq!(sanitize_path("/a/../b"), "/a/xx/b");
}

#[test]
fn sanitizing_a_label_again_changes_nothing() {
    let label = sanitize_label("my label/2");
    assert_eq!(sanitize_label(&label), label);
    assert_eq!(sanitize_path(&label), label);
}
