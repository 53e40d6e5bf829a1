use collatz_dispatch::server::{content_type_for, sanitize_path, PathError};

fn seg(s: &str) -> Vec<u8> {
    s.as_bytes().to_vec()
}

#[test]
fn sanitize_keeps_normal_components() {
    assert_eq!(
        sanitize_path(b"/dist/app.js"),
        Ok(vec![seg("dist"), seg("app.js")])
    );
    assert_eq!(sanitize_path(b"dist/a/b.png"), Ok(vec![seg("dist"), seg("a"), seg("b.png")]));
}

#[test]
fn sanitize_drops_separators_and_inner_dots() {
    assert_eq!(sanitize_path(b""), Ok(vec![]));
    assert_eq!(sanitize_path(b"/"), Ok(vec![]));
    assert_eq!(sanitize_path(b"//a//b/"), Ok(vec![seg("a"), seg("b")]));
    assert_eq!(sanitize_path(b"a/./b"), Ok(vec![seg("a"), seg("b")]));
    assert_eq!(sanitize_path(b"/./x"), Ok(vec![seg("x")]));
    assert_eq!(sanitize_path(b"a/."), Ok(vec![seg("a")]));
}

#[test]
fn sanitize_keeps_hidden_files() {
    assert_eq!(sanitize_path(b".hidden"), Ok(vec![seg(".hidden")]));
}

#[test]
fn sanitize_rejects_parent_dir_components() {
    assert_eq!(sanitize_path(b".."), Err(PathError::InvalidComponent));
    assert_eq!(sanitize_path(b"a/../b"), Err(PathError::InvalidComponent));
    assert_eq!(sanitize_path(b"/dist/.."), Err(PathError::InvalidComponent));
}

#[test]
fn sanitize_rejects_leading_current_dir() {
    assert_eq!(sanitize_path(b"."), Err(PathError::InvalidComponent));
    assert_eq!(sanitize_path(b"./x"), Err(PathError::InvalidComponent));
}

#[test]
fn content_types_follow_the_extension() {
    assert_eq!(content_type_for(b"index.html"), "text/html");
    assert_eq!(content_type_for(b"style.css"), "text/css");
    assert_eq!(content_type_for(b"app.js"), "application/javascript");
    assert_eq!(content_type_for(b"demo.wasm"), "application/wasm");
    assert_eq!(content_type_for(b"logo.png"), "image/png");
    assert_eq!(content_type_for(b"a.jpg"), "image/jpg");
    assert_eq!(content_type_for(b"a.jpeg"), "image/jpg");
    assert_eq!(content_type_for(b"a.gif"), "image/gif");
    assert_eq!(content_type_for(b"a.svg"), "image/svg+xml");
    assert_eq!(content_type_for(b"data.json"), "application/json");
    assert_eq!(content_type_for(b"archive.tar.gz"), "application/octet-stream");
    assert_eq!(content_type_for(b"README"), "application/octet-stream");
    assert_eq!(content_type_for(b".hidden"), "application/octet-stream");
    assert_eq!(content_type_for(b"noext."), "application/octet-stream");
    assert_eq!(content_type_for(b""), "application/octet-stream");
}
