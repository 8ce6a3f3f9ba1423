use code_report_rs::extensions::extension_of;
use code_report_rs::extensions::ExtensionSet;

fn strs(v: &[&str]) -> Vec<String> {
    v.iter().map(|s| s.to_string()).collect()
}

#[test]
fn dedup_removes_duplicates_and_preserves_order() {
    let set = ExtensionSet::from_args(strs(&["rs", "txt", "rs", "md", "txt"]), false);
    assert_eq!(set.as_list(), &strs(&["rs", "txt", "md"]));
}

#[test]
fn defaults_merge_with_user_list_and_dedup() {
    let set = ExtensionSet::from_args(strs(&["rs", "go"]), true);
    assert_eq!(set.as_list(), &strs(&["rs", "go", "cs", "toml", "java", "html"]));
}

#[test]
fn empty_user_list_without_flag_gives_defaults() {
    let set = ExtensionSet::from_args(Vec::new(), false);
    assert_eq!(set.as_list(), &strs(&["rs", "go", "cs", "toml", "java", "html"]));
}

#[test]
fn user_list_alone_when_flag_is_false() {
    let set = ExtensionSet::from_args(strs(&["shtml", "css"]), false);
    assert_eq!(set.as_list(), &strs(&["shtml", "css"]));
}

#[test]
fn defaults_flag_appends_new_extensions() {
    let set = ExtensionSet::from_args(strs(&["shtml", "css"]), true);
    assert_eq!(
        set.as_list(),
        &strs(&["rs", "go", "cs", "toml", "java", "html", "shtml", "css"])
    );
}

#[test]
fn discovery_matching_is_case_sensitive() {
    let set = ExtensionSet::from_args(strs(&["rs"]), false);
    assert!(set.matches_name("a.rs"));
    assert!(!set.matches_name("b.RS"));
    assert!(!set.matches_name("c.txt"));
}

#[test]
fn extension_is_the_part_after_the_last_dot() {
    assert_eq!(extension_of("archive.tar.gz"), b"gz".to_vec());
    assert_eq!(extension_of("main.rs"), b"rs".to_vec());
    assert_eq!(extension_of("noext"), Vec::<u8>::new());
    assert_eq!(extension_of("trailing."), Vec::<u8>::new());
}

#[test]
fn name_without_dot_matches_only_the_empty_extension() {
    let with_empty = ExtensionSet::from_args(strs(&[""]), false);
    assert!(with_empty.matches_name("Makefile"));
    let without = ExtensionSet::from_args(strs(&["rs"]), false);
    assert!(!without.matches_name("Makefile"));
}
