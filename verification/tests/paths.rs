use dir_server::paths::{
    components, extension, find_last, is_a_component, join, join_components,
};

fn texts(parts: &[&str]) -> Vec<String> {
    parts.iter().map(|p| p.to_string()).collect()
}

#[test]
fn find_last_gives_the_last_occurrence() {
    assert_eq!(find_last("a/b/c", '/'), Some(3));
    assert_eq!(find_last("/", '/'), Some(0));
    assert_eq!(find_last("abc", '/'), None);
    assert_eq!(find_last("", '/'), None);
}

#[test]
fn find_last_counts_characters_not_bytes() {
    assert_eq!(find_last("é/ü/x", '/'), Some(3));
}

#[test]
fn a_component_is_neither_empty_nor_a_dot() {
    assert!(is_a_component("a"));
    assert!(is_a_component(".."));
    assert!(is_a_component(".a"));
    assert!(!is_a_component(""));
    assert!(!is_a_component("."));
}

#[test]
fn components_are_the_texts_between_separators() {
    assert_eq!(components("a/b/c"), texts(&["a", "b", "c"]));
    assert_eq!(components("/srv/www"), texts(&["srv", "www"]));
    assert_eq!(components("a.txt"), texts(&["a.txt"]));
}

#[test]
fn components_pass_over_repeated_and_trailing_separators() {
    assert_eq!(components("sub/"), texts(&["sub"]));
    assert_eq!(components("sub//inner///"), texts(&["sub", "inner"]));
    assert_eq!(components("//a"), texts(&["a"]));
}

#[test]
fn components_pass_over_dots() {
    assert_eq!(components("."), texts(&[]));
    assert_eq!(components("./"), texts(&[]));
    assert_eq!(components("./."), texts(&[]));
    assert_eq!(components("sub/."), texts(&["sub"]));
    assert_eq!(components("./sub/./inner/."), texts(&["sub", "inner"]));
    assert_eq!(components("/srv/www/."), texts(&["srv", "www"]));
}

#[test]
fn components_keep_parent_components() {
    assert_eq!(components("sub/.."), texts(&["sub", ".."]));
    assert_eq!(components("../x"), texts(&["..", "x"]));
    assert_eq!(components("..."), texts(&["..."]));
}

#[test]
fn components_of_nothing_are_none() {
    assert_eq!(components(""), texts(&[]));
    assert_eq!(components("/"), texts(&[]));
    assert_eq!(components("///"), texts(&[]));
}

#[test]
fn join_components_puts_separators_between() {
    assert_eq!(join_components(&texts(&[])), "");
    assert_eq!(join_components(&texts(&["a"])), "a");
    assert_eq!(join_components(&texts(&["a", "b", "c"])), "a/b/c");
}

#[test]
fn joined_components_are_read_back() {
    for parts in [texts(&[]), texts(&["a"]), texts(&["sub", "..", "é b", ".x"])] {
        assert_eq!(components(&join_components(&parts)), parts);
    }
}

#[test]
fn extension_follows_the_last_dot() {
    assert_eq!(extension("/srv/a.txt"), Some("txt".to_string()));
    assert_eq!(extension("archive.tar.gz"), Some("gz".to_string()));
    assert_eq!(extension("dir.d/file"), None);
    assert_eq!(extension("a."), Some(String::new()));
}

#[test]
fn extension_is_missing_for_hidden_and_plain_names() {
    assert_eq!(extension("README"), None);
    assert_eq!(extension(".bashrc"), None);
    assert_eq!(extension(".."), None);
    assert_eq!(extension("a.b/.."), None);
    assert_eq!(extension(""), None);
    assert_eq!(extension("/"), None);
}

#[test]
fn extension_is_read_from_the_last_component() {
    assert_eq!(extension("/srv/site.d/"), Some("d".to_string()));
    assert_eq!(extension("/srv/a.txt/."), Some("txt".to_string()));
    assert_eq!(extension("/srv/a.txt//"), Some("txt".to_string()));
}

#[test]
fn join_puts_one_separator_between() {
    assert_eq!(join("/srv", "a.txt"), "/srv/a.txt");
    assert_eq!(join("/srv/", "a.txt"), "/srv/a.txt");
    assert_eq!(join("", "a.txt"), "a.txt");
    assert_eq!(join("/srv", ""), "/srv/");
    assert_eq!(join("", ""), "");
}

#[test]
fn join_lets_an_absolute_path_replace_the_base() {
    assert_eq!(join("/srv", "/etc/passwd"), "/etc/passwd");
}

#[test]
fn join_keeps_parent_components() {
    assert_eq!(join("/srv/www", "../secret"), "/srv/www/../secret");
}

#[test]
fn join_adds_the_components_of_a_relative_path() {
    for (base, rel) in [("/srv", "sub/f"), ("/srv/", "./sub//f"), ("", "f"), ("/srv", "")] {
        let mut expected = components(base);
        expected.extend(components(rel));
        assert_eq!(components(&join(base, rel)), expected);
    }
}
