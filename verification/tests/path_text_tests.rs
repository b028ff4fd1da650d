use move_bytecode_converter::path_text::{
    extension_of, file_name_of, file_stem_of, find_last, join_path, same_text, trimmed_length,
};
use std::path::Path;

#[test]
fn find_last_finds_the_last_occurrence() {
    assert_eq!(find_last("a.b.c", '.'), Some(3));
    assert_eq!(find_last(".abc", '.'), Some(0));
    assert_eq!(find_last("abc", '.'), None);
    assert_eq!(find_last("", '.'), None);
}

#[test]
fn find_last_counts_characters_not_bytes() {
    assert_eq!(find_last("é.mv", '.'), Some(1));
    assert_eq!(find_last("日本/語.json", '/'), Some(2));
}

#[test]
fn same_text_compares_characters() {
    assert!(same_text("mv", "mv"));
    assert!(same_text("", ""));
    assert!(!same_text("mv", "mw"));
    assert!(!same_text("mv", "mvv"));
    assert!(!same_text("json", "mv"));
}

#[test]
fn trimmed_length_drops_separators_and_dots_at_the_end() {
    assert_eq!(trimmed_length("a/b"), 3);
    assert_eq!(trimmed_length("a/b/"), 3);
    assert_eq!(trimmed_length("a/b//"), 3);
    assert_eq!(trimmed_length("a/b/."), 3);
    assert_eq!(trimmed_length("a/b/.//./"), 3);
    assert_eq!(trimmed_length("a/b."), 4);
    assert_eq!(trimmed_length("a/.."), 4);
    assert_eq!(trimmed_length("a/.b"), 4);
    assert_eq!(trimmed_length("."), 1);
    assert_eq!(trimmed_length("./"), 1);
    assert_eq!(trimmed_length("/."), 0);
    assert_eq!(trimmed_length("/"), 0);
    assert_eq!(trimmed_length(""), 0);
    assert_eq!(trimmed_length("é/"), 1);
}

#[test]
fn file_name_is_the_final_component() {
    assert_eq!(file_name_of("a/b/c.mv"), Some("c.mv"));
    assert_eq!(file_name_of("c.mv"), Some("c.mv"));
    assert_eq!(file_name_of("/c.mv"), Some("c.mv"));
    assert_eq!(file_name_of("a/"), Some("a"));
    assert_eq!(file_name_of("a/b.json/."), Some("b.json"));
    assert_eq!(file_name_of("module.mv//"), Some("module.mv"));
    assert_eq!(file_name_of("a/..."), Some("..."));
}

#[test]
fn some_paths_have_no_file_name() {
    for path in ["", "/", "//", ".", "./", "./.", "/.", "..", "a/..", "a/../", "../."] {
        assert_eq!(file_name_of(path), None);
        assert_eq!(extension_of(path), None);
        assert_eq!(file_stem_of(path), None);
    }
}

#[test]
fn extension_follows_the_last_dot() {
    assert_eq!(extension_of("a/b/c.mv"), Some("mv"));
    assert_eq!(extension_of("c.tar.json"), Some("json"));
    assert_eq!(extension_of("c."), Some(""));
    assert_eq!(extension_of("c"), None);
    assert_eq!(extension_of(".hidden"), None);
    assert_eq!(extension_of("a.b/c"), None);
    assert_eq!(extension_of("module.mv/"), Some("mv"));
    assert_eq!(extension_of("a/b.json/."), Some("json"));
}

#[test]
fn stem_is_the_name_without_the_extension() {
    assert_eq!(file_stem_of("a/b/c.mv"), Some("c"));
    assert_eq!(file_stem_of("c.tar.json"), Some("c.tar"));
    assert_eq!(file_stem_of("c"), Some("c"));
    assert_eq!(file_stem_of(".hidden"), Some(".hidden"));
    assert_eq!(file_stem_of("a.b/c"), Some("c"));
    assert_eq!(file_stem_of("é.mv"), Some("é"));
    assert_eq!(file_stem_of("module.mv/"), Some("module"));
    assert_eq!(file_stem_of("a/b.json/."), Some("b"));
}

#[test]
fn join_puts_one_separator_between() {
    assert_eq!(join_path("/out", "module.json"), "/out/module.json");
    assert_eq!(join_path("/out/", "module.json"), "/out/module.json");
    assert_eq!(join_path("", "module.json"), "module.json");
    assert_eq!(join_path("/", "module.json"), "/module.json");
    assert_eq!(join_path("a/b", "c"), "a/b/c");
}

#[test]
fn join_agrees_with_the_platform() {
    for dir in ["", "/", "out", "out/", "/a/b", "a//"] {
        for name in ["module.json", "m.mv", "x"] {
            assert_eq!(Path::new(&join_path(dir, name)), Path::new(dir).join(name).as_path());
        }
    }
}

#[test]
fn paths_split_as_the_platform_splits_them() {
    let paths = [
        "module.mv", "a/b/module.json", "/x/y.z/module.mv", "a.b.c", "plain", "d/.hid",
        "module.mv/", "a/b.json/.", "a/", "", "/", "//", ".", "./", "./.", "/.", "..", "a/..",
        "a/../", "...", "a/.../", "./a", "a/./b.mv", "a//b.json//", "x./", ".x.", "a/b/./.",
        "é.mv/", "日本/語.json",
    ];
    for path in paths {
        let std_path = Path::new(path);
        assert_eq!(extension_of(path), std_path.extension().and_then(|e| e.to_str()));
        assert_eq!(file_stem_of(path), std_path.file_stem().and_then(|e| e.to_str()));
        assert_eq!(file_name_of(path), std_path.file_name().and_then(|e| e.to_str()));
    }
}
