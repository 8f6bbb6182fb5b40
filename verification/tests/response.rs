use dir_server::error::ServeError;
use dir_server::response::{allowed_header_names, assemble};

#[test]
fn assemble_sets_the_default_headers() {
    let r = assemble(b"hi".to_vec(), "text/plain".to_string(), false);
    assert_eq!(r.status, 200);
    assert_eq!(r.body, b"hi".to_vec());
    assert_eq!(r.headers.content_type, "text/plain");
    assert_eq!(r.headers.content_length, 2);
    assert_eq!(r.headers.server, "dir_server/0.1.0");
}

#[test]
fn assemble_without_cors_sets_no_cross_origin_header() {
    let r = assemble(b"hi".to_vec(), "text/plain".to_string(), false);
    assert_eq!(r.headers.access_control_allow_origin, None);
    assert_eq!(r.headers.access_control_allow_headers, None);
}

#[test]
fn assemble_with_cors_sets_both_cross_origin_headers() {
    let r = assemble(b"hi".to_vec(), "text/plain".to_string(), true);
    assert_eq!(r.headers.access_control_allow_origin, Some("*".to_string()));
    assert_eq!(
        r.headers.access_control_allow_headers,
        Some(vec![
            "Range".to_string(),
            "Content-Type".to_string(),
            "Accept".to_string(),
            "Origin".to_string()
        ])
    );
}

#[test]
fn assemble_counts_the_bytes_of_an_empty_and_of_a_long_body() {
    assert_eq!(assemble(Vec::new(), "text/plain".to_string(), false).headers.content_length, 0);
    let long = vec![7u8; 100_000];
    let r = assemble(long, "application/octet-stream".to_string(), true);
    assert_eq!(r.headers.content_length, 100_000);
    assert_eq!(r.body.len(), 100_000);
}

#[test]
fn allowed_header_names_are_four() {
    assert_eq!(allowed_header_names(), vec!["Range", "Content-Type", "Accept", "Origin"]);
}

#[test]
fn serve_error_messages() {
    assert_eq!(ServeError::Decode.message(), "the request path is not percent-encoded UTF-8");
    assert_eq!(ServeError::Io("gone".to_string()).message(), "gone");
    assert_eq!(ServeError::Render("bad".to_string()).message(), "bad");
}

#[test]
fn serve_error_bodies() {
    assert_eq!(
        ServeError::Decode.body(),
        b"Error: the request path is not percent-encoded UTF-8".to_vec()
    );
    assert_eq!(ServeError::Io("gone".to_string()).body(), b"Error: gone".to_vec());
    assert_eq!(
        ServeError::Render("bad".to_string()).body(),
        b"500 Internal server error: bad".to_vec()
    );
    assert_eq!(ServeError::Io(String::new()).body(), b"Error: ".to_vec());
}
