use markdown_index::entry::{is_markdown_file, listing, Entry};
use markdown_index::path::{is_markdown_path, relative_path};
use markdown_index::text::chars_of;

fn plain_file(path: &str) -> Entry {
    Entry { path: path.to_string(), is_dir: false, modified: None }
}

fn plain_directory(path: &str) -> Entry {
    Entry { path: path.to_string(), is_dir: true, modified: None }
}

#[test]
fn upper_case_extension_is_included() {
    assert!(is_markdown_path("README.MD"));
    assert!(is_markdown_file(&plain_file("README.MD")));
}

#[test]
fn text_file_is_excluded() {
    assert!(!is_markdown_path("notes.txt"));
    assert!(!is_markdown_file(&plain_file("notes.txt")));
}

#[test]
fn every_spelling_of_the_extension_is_included() {
    assert!(is_markdown_path("a.md"));
    assert!(is_markdown_path("a.MD"));
    assert!(is_markdown_path("a.Md"));
    assert!(is_markdown_path("a.mD"));
    assert!(is_markdown_path("docs/sub/a.mD"));
}

#[test]
fn near_misses_of_the_extension_are_excluded() {
    assert!(!is_markdown_path("a.mdx"));
    assert!(!is_markdown_path("a.m"));
    assert!(!is_markdown_path("a.dm"));
    assert!(!is_markdown_path("a.markdown"));
    assert!(!is_markdown_path("a.md "));
    assert!(!is_markdown_path("a.nd"));
    assert!(!is_markdown_path("a.me"));
    assert!(!is_markdown_path("a.\u{ff4d}\u{ff44}"));
}

#[test]
fn file_without_extension_is_excluded() {
    assert!(!is_markdown_path("README"));
    assert!(!is_markdown_path("docs/README"));
    assert!(!is_markdown_path("md"));
    assert!(!is_markdown_path(""));
    assert!(!is_markdown_file(&plain_file("Makefile")));
}

#[test]
fn only_the_last_extension_counts() {
    assert!(is_markdown_path("archive.tar.md"));
    assert!(!is_markdown_path("a.md.bak"));
    assert!(!is_markdown_path("a.md."));
    assert!(is_markdown_path("a..md"));
}

#[test]
fn leading_dot_starts_no_extension() {
    assert!(!is_markdown_path(".md"));
    assert!(!is_markdown_path("docs/.md"));
    assert!(!is_markdown_path("docs/.MD"));
    assert!(is_markdown_path(".hidden.md"));
    assert!(is_markdown_path("docs/.hidden.md"));
}

#[test]
fn extension_is_looked_for_in_the_file_name_only() {
    assert!(!is_markdown_path("docs.md/readme"));
    assert!(!is_markdown_path("docs.md/"));
    assert!(is_markdown_path("docs.txt/readme.md"));
    assert!(is_markdown_path("./a.md"));
}

#[test]
fn paths_with_other_scripts_are_read_by_character() {
    assert!(is_markdown_path("docs/\u{fc}ber.md"));
    assert!(is_markdown_path("\u{6587}\u{66f8}/\u{8aad}\u{3080}.MD"));
    assert!(!is_markdown_path("docs/\u{fc}ber.m\u{64}\u{301}"));
}

#[test]
fn directory_is_no_markdown_file() {
    assert!(!is_markdown_file(&plain_directory("notes.md")));
    assert!(!is_markdown_file(&plain_directory("docs")));
    assert!(is_markdown_file(&plain_file("notes.md")));
}

#[test]
fn relative_path_strips_root_and_separator() {
    assert_eq!(relative_path("docs", "docs/a.md"), Some("a.md".to_string()));
    assert_eq!(relative_path("docs", "docs/sub/c.md"), Some("sub/c.md".to_string()));
    assert_eq!(relative_path(".", "./a.md"), Some("a.md".to_string()));
    assert_eq!(relative_path("/srv/docs", "/srv/docs/a.md"), Some("a.md".to_string()));
}

#[test]
fn relative_path_of_root_with_separator() {
    assert_eq!(relative_path("docs/", "docs/a.md"), Some("a.md".to_string()));
    assert_eq!(relative_path("/", "/a.md"), Some("a.md".to_string()));
    assert_eq!(relative_path("docs/", "docs/"), Some(String::new()));
    assert_eq!(relative_path("docs/", "docs"), None);
}

#[test]
fn relative_path_of_the_root_itself_is_empty() {
    assert_eq!(relative_path("docs", "docs"), Some(String::new()));
    assert_eq!(relative_path(".", "."), Some(String::new()));
    assert_eq!(relative_path("docs", "docs/"), Some(String::new()));
    assert_eq!(relative_path("", ""), Some(String::new()));
}

#[test]
fn relative_path_of_empty_root_is_the_path() {
    assert_eq!(relative_path("", "a.md"), Some("a.md".to_string()));
    assert_eq!(relative_path("", "sub/a.md"), Some("sub/a.md".to_string()));
}

#[test]
fn path_outside_the_root_has_no_relative_path() {
    assert_eq!(relative_path("docs", "other/a.md"), None);
    assert_eq!(relative_path("docs", "a.md"), None);
    assert_eq!(relative_path("docs", "doc"), None);
    assert_eq!(relative_path("docs", ""), None);
    assert_eq!(relative_path("./docs", "docs/a.md"), None);
}

#[test]
fn root_must_end_at_a_component() {
    assert_eq!(relative_path("doc", "docs/a.md"), None);
    assert_eq!(relative_path("docs", "docs2/a.md"), None);
    assert_eq!(relative_path("docs", "docs.md"), None);
}

#[test]
fn relative_path_keeps_what_follows_one_separator() {
    assert_eq!(relative_path("docs", "docs//a.md"), Some("/a.md".to_string()));
    assert_eq!(relative_path("docs", "docs/./a.md"), Some("./a.md".to_string()));
}

#[test]
fn relative_path_counts_characters_not_bytes() {
    assert_eq!(
        relative_path("b\u{fc}cher", "b\u{fc}cher/\u{fc}ber.md"),
        Some("\u{fc}ber.md".to_string())
    );
    assert_eq!(relative_path("b\u{fc}cher", "bucher/a.md"), None);
}

#[test]
fn listing_gives_relative_path_of_markdown_file() {
    assert_eq!(listing("docs", &plain_file("docs/sub/c.md")), Some("sub/c.md".to_string()));
    assert_eq!(listing(".", &plain_file("./b.MD")), Some("b.MD".to_string()));
}

#[test]
fn listing_leaves_out_what_is_no_markdown_file() {
    assert_eq!(listing("docs", &plain_file("docs/readme.txt")), None);
    assert_eq!(listing("docs", &plain_directory("docs/sub.md")), None);
    assert_eq!(listing("docs", &plain_directory("docs")), None);
}

#[test]
fn listing_leaves_out_what_lies_outside_the_root() {
    assert_eq!(listing("docs", &plain_file("other/a.md")), None);
    assert_eq!(listing("docs", &plain_file("docs2/a.md")), None);
}

#[test]
fn chars_of_gives_each_character_once() {
    assert_eq!(chars_of(""), Vec::<char>::new());
    assert_eq!(chars_of("a.md"), vec!['a', '.', 'm', 'd']);
    assert_eq!(chars_of("\u{fc}/\u{6587}"), vec!['\u{fc}', '/', '\u{6587}']);
}
