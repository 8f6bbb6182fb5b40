use dir_server::listing::{
    entry_for, handle_dir, heading, is_valid_name, list_entries, listing_body_from, locate, Child,
    DirEntry,
};
use dir_server::paths::{components, join};
use dir_server::resolve::resolve;

const ROOT: &str = "/srv/www";

fn child(name: &str, is_dir: bool) -> Child {
    Child { name: name.to_string(), is_dir }
}

fn rows(entries: &[DirEntry]) -> Vec<(String, String)> {
    entries.iter().map(|e| (e.name.clone(), e.link_path.clone())).collect()
}

fn row(name: &str, link: &str) -> (String, String) {
    (name.to_string(), link.to_string())
}

#[test]
fn a_name_is_valid_without_separator() {
    assert!(is_valid_name("a.txt"));
    assert!(is_valid_name(".."));
    assert!(!is_valid_name(""));
    assert!(!is_valid_name("a/b"));
    assert!(!is_valid_name("/"));
}

#[test]
fn a_relative_directory_lies_under_the_root() {
    let l = locate(ROOT, "sub/inner");
    assert!(l.under_root);
    assert_eq!(l.components, vec!["sub", "inner"]);
    let l = locate(ROOT, "");
    assert!(l.under_root);
    assert!(l.components.is_empty());
}

#[test]
fn the_root_is_the_root_however_it_is_written() {
    for dir in ["", ".", "./", "./.", ".//."] {
        let l = locate(ROOT, dir);
        assert!(l.under_root);
        assert!(l.components.is_empty());
    }
}

#[test]
fn an_absolute_directory_lies_where_its_components_say() {
    let l = locate(ROOT, "/srv/www");
    assert!(l.under_root);
    assert!(l.components.is_empty());
    let l = locate(ROOT, "/srv//www/./sub");
    assert!(l.under_root);
    assert_eq!(l.components, vec!["sub"]);
    let l = locate(ROOT, "/etc");
    assert!(!l.under_root);
    assert_eq!(l.components, vec!["etc"]);
    let l = locate(ROOT, "/srv");
    assert!(!l.under_root);
    assert_eq!(l.components, vec!["srv"]);
    let l = locate(ROOT, "/");
    assert!(!l.under_root);
    assert!(l.components.is_empty());
}

#[test]
fn entry_for_a_file_and_a_directory() {
    let file = entry_for(&locate(ROOT, "sub"), &child("b.html", false));
    assert_eq!((file.name.as_str(), file.link_path.as_str()), ("b.html", "/sub/b.html"));
    let dir = entry_for(&locate(ROOT, ""), &child("sub", true));
    assert_eq!((dir.name.as_str(), dir.link_path.as_str()), ("sub/", "/sub"));
}

#[test]
fn the_root_listing_has_no_parent_row() {
    let entries = list_entries(ROOT, "", &vec![child("a.txt", false), child("sub", true)]);
    assert_eq!(rows(&entries), vec![row("a.txt", "/a.txt"), row("sub/", "/sub")]);
}

#[test]
fn the_root_written_with_a_dot_has_no_parent_row() {
    assert!(list_entries(ROOT, ".", &vec![]).is_empty());
    for dir in [".", "./", "./.", "/srv/www", "/srv/www/."] {
        let entries = list_entries(ROOT, dir, &vec![child("a.txt", false)]);
        assert_eq!(rows(&entries), vec![row("a.txt", "/a.txt")]);
    }
}

#[test]
fn a_subdirectory_listing_starts_with_the_parent_row() {
    let entries = list_entries(ROOT, "sub", &vec![child("b.html", false)]);
    assert_eq!(rows(&entries), vec![row("..", "/"), row("b.html", "/sub/b.html")]);
}

#[test]
fn a_subdirectory_written_with_a_dot_has_the_same_rows() {
    let entries = list_entries(ROOT, "sub/.", &vec![]);
    assert_eq!(rows(&entries), vec![row("..", "/")]);
    for dir in ["sub/.", "./sub", "sub//", "./sub/./", "/srv/www/sub"] {
        let entries = list_entries(ROOT, dir, &vec![child("b.html", false)]);
        assert_eq!(rows(&entries), vec![row("..", "/"), row("b.html", "/sub/b.html")]);
    }
}

#[test]
fn the_parent_row_of_a_nested_directory_leads_one_level_up() {
    let entries = list_entries(ROOT, "sub/inner/", &vec![]);
    assert_eq!(rows(&entries), vec![row("..", "/sub")]);
    let entries = list_entries(ROOT, "sub/./inner/.", &vec![]);
    assert_eq!(rows(&entries), vec![row("..", "/sub")]);
}

#[test]
fn a_parent_component_is_kept_as_written() {
    let entries = list_entries(ROOT, "sub/..", &vec![child("f", false)]);
    assert_eq!(rows(&entries), vec![row("..", "/sub"), row("f", "/sub/../f")]);
}

#[test]
fn a_directory_outside_the_root_is_linked_from_the_file_system_root() {
    let entries = list_entries(ROOT, "/etc/ssl", &vec![child("certs", true)]);
    assert_eq!(rows(&entries), vec![row("..", "//etc"), row("certs/", "//etc/ssl/certs")]);
    let entries = list_entries(ROOT, "/", &vec![child("etc", true)]);
    assert_eq!(rows(&entries), vec![row("..", "//"), row("etc/", "//etc")]);
}

#[test]
fn children_keep_the_order_given() {
    let entries =
        list_entries(ROOT, "", &vec![child("z", false), child("a", false), child("m", true)]);
    assert_eq!(rows(&entries), vec![row("z", "/z"), row("a", "/a"), row("m/", "/m")]);
}

#[test]
fn children_with_invalid_names_are_skipped() {
    let entries = list_entries(
        ROOT,
        "",
        &vec![child("", false), child("ok", false), child("a/b", true), child("last", true)],
    );
    assert_eq!(rows(&entries), vec![row("ok", "/ok"), row("last/", "/last")]);
}

#[test]
fn there_is_one_row_for_each_child_and_one_more_below_the_root() {
    let children = vec![child("a", false), child("b", true), child("c", false)];
    for dir in ["", ".", "./"] {
        assert_eq!(list_entries(ROOT, dir, &children).len(), 3);
    }
    for dir in ["sub", "sub/.", "a/b/c", "/etc"] {
        assert_eq!(list_entries(ROOT, dir, &children).len(), 4);
    }
}

#[test]
fn an_empty_root_lists_nothing() {
    assert!(list_entries(ROOT, "", &vec![]).is_empty());
}

#[test]
fn heading_starts_at_the_name_of_the_root() {
    assert_eq!(heading("/srv/www", ""), "www/");
    assert_eq!(heading("/srv/www", "sub"), "www/sub/");
    assert_eq!(heading("/srv/www/", "sub/inner/"), "www/sub/inner/");
    assert_eq!(heading("/", ""), "/");
    assert_eq!(heading("/", "sub"), "sub/");
}

#[test]
fn heading_passes_over_dots_and_repeated_separators() {
    assert_eq!(heading("/srv/www", "."), "www/");
    assert_eq!(heading("/srv/www", "./"), "www/");
    assert_eq!(heading("/srv/www", "sub/."), "www/sub/");
    assert_eq!(heading("/srv/www", "./sub//inner/."), "www/sub/inner/");
    assert_eq!(heading("/srv/www", "/srv/www/sub"), "www/sub/");
}

#[test]
fn heading_outside_the_root_is_the_whole_path() {
    assert_eq!(heading("/srv/www", "/etc/ssl"), "/etc/ssl/");
    assert_eq!(heading("/srv/www", "/"), "/");
}

#[test]
fn every_link_resolves_to_the_entry_it_was_made_for() {
    let children = vec![child("a.txt", false), child("d", true), child("é b", false)];
    for dir in ["", ".", "sub/inner", "./sub//inner/.", "sub/..", "/srv/www/sub", "/etc", "/"] {
        let entries = list_entries(ROOT, dir, &children);
        let directory = join(ROOT, dir);
        let mut rest = &entries[..];
        if entries.len() == 4 {
            let mut above = components(&directory);
            above.pop();
            let resolved = resolve(ROOT, &entries[0].link_path).unwrap().resolved;
            assert_eq!(components(&resolved), above);
            assert!(resolved.starts_with('/'));
            rest = &entries[1..];
        }
        assert_eq!(rest.len(), 3);
        for (entry, c) in rest.iter().zip(children.iter()) {
            let target = join(&directory, &c.name);
            let resolved = resolve(ROOT, &entry.link_path).unwrap().resolved;
            assert_eq!(components(&resolved), components(&target));
            assert!(resolved.starts_with('/'));
        }
    }
}

#[test]
fn a_link_with_an_escape_resolves_elsewhere() {
    let entries = list_entries("/srv", "", &vec![child("a%41", false)]);
    assert_eq!(entries[0].link_path, "/a%41");
    assert_eq!(resolve("/srv", &entries[0].link_path).unwrap().resolved, "/srv/aA");
}

#[test]
fn handle_dir_renders_the_page() {
    let body = handle_dir("/srv/www", "", &vec![child("a.txt", false), child("sub", true)]);
    let expected = "<!DOCTYPE html>\n<html>\n<head>\n<meta charset=\"utf-8\">\n\
<title>Index of www&#x2F;</title>\n</head>\n<body>\n<h1>Index of www&#x2F;</h1>\n<ul>\n\
<li><a href=\"&#x2F;a.txt\">a.txt</a></li>\n\
<li><a href=\"&#x2F;sub\">sub&#x2F;</a></li>\n\
</ul>\n</body>\n</html>\n";
    assert_eq!(String::from_utf8(body).unwrap(), expected);
}

#[test]
fn handle_dir_of_the_root_written_with_a_dot_is_the_same_page() {
    let children = vec![child("a.txt", false), child("sub", true)];
    assert_eq!(handle_dir(ROOT, ".", &children), handle_dir(ROOT, "", &children));
    assert_eq!(handle_dir(ROOT, "sub/.", &children), handle_dir(ROOT, "sub", &children));
}

#[test]
fn handle_dir_escapes_markup_in_names() {
    let body = handle_dir("/srv/www", "", &vec![child("<b>&.txt", false)]);
    let page = String::from_utf8(body).unwrap();
    assert!(page.contains("&lt;b&gt;&amp;.txt</a>"));
    assert!(!page.contains("<b>"));
}

#[test]
fn handle_dir_of_a_subdirectory_links_to_its_parent() {
    let body = handle_dir("/srv/www", "sub", &vec![child("b.html", false)]);
    let page = String::from_utf8(body).unwrap();
    assert!(page.contains("<h1>Index of www&#x2F;sub&#x2F;</h1>"));
    assert!(page.contains("<li><a href=\"&#x2F;\">..</a></li>"));
    assert!(page.contains("<li><a href=\"&#x2F;sub&#x2F;b.html\">b.html</a></li>"));
}

#[test]
fn listing_body_from_a_page_is_its_bytes() {
    assert_eq!(listing_body_from(Ok("<p>é</p>".to_string())), "<p>é</p>".as_bytes().to_vec());
}

#[test]
fn listing_body_from_a_failure_tells_of_it() {
    assert_eq!(
        listing_body_from(Err("Failed to render 'one_off'".to_string())),
        b"500 Internal server error: Failed to render 'one_off'".to_vec()
    );
}
