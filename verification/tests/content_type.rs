use dir_server::content_type::{classify, content_type, content_type_from, Target};

#[test]
fn classify_tells_directories_from_the_rest() {
    assert_eq!(classify(true), Target::Directory);
    assert_eq!(classify(false), Target::File);
}

#[test]
fn a_directory_is_always_html() {
    assert_eq!(content_type(Target::Directory, "/srv/www"), "text/html; charset=utf-8");
    assert_eq!(content_type(Target::Directory, "/srv/www/photo.png"), "text/html; charset=utf-8");
}

#[test]
fn a_file_is_typed_by_its_extension() {
    assert_eq!(content_type(Target::File, "/srv/b.html"), "text/html");
    assert_eq!(content_type(Target::File, "/srv/photo.png"), "image/png");
    assert_eq!(content_type(Target::File, "/srv/data.json"), "application/json");
}

#[test]
fn the_case_of_an_extension_does_not_matter() {
    assert_eq!(content_type(Target::File, "/srv/B.HTML"), "text/html");
    assert_eq!(content_type(Target::File, "/srv/photo.PnG"), "image/png");
}

#[test]
fn an_unknown_extension_is_plain_text() {
    assert_eq!(content_type(Target::File, "/srv/a.zzzzzz"), "text/plain");
    assert_eq!(content_type(Target::File, "/srv/a."), "text/plain");
}

#[test]
fn a_missing_extension_is_plain_text() {
    assert_eq!(content_type(Target::File, "/srv/README"), "text/plain");
    assert_eq!(content_type(Target::File, "/srv/.hidden"), "text/plain");
    assert_eq!(content_type(Target::File, ""), "text/plain");
}

#[test]
fn a_text_file_is_plain_text() {
    assert_eq!(content_type(Target::File, "/srv/a.txt"), "text/plain");
}

#[test]
fn content_type_from_falls_back_to_plain_text() {
    assert_eq!(content_type_from(Some(Some("image/gif".to_string()))), "image/gif");
    assert_eq!(content_type_from(Some(None)), "text/plain");
    assert_eq!(content_type_from(None), "text/plain");
}
