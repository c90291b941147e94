use thasia::protocol::{
    extract_path_param, file_response, image_url, mime_for_path, requested_path, FileLookup,
    ResponseBody,
};

#[test]
fn image_url_encodes_path() {
    let url = image_url("/tmp/my file.jpg");
    assert!(url.starts_with("thasia://image?path="));
    assert!(url.contains("%2Ftmp%2Fmy%20file.jpg") || url.contains("%2Ftmp%2Fmy+file.jpg"));
}

#[test]
fn extract_path_param_decodes() {
    let uri = "thasia://image?path=%2Ftmp%2Ffoo.jpg";
    assert_eq!(extract_path_param(uri), Some("/tmp/foo.jpg".into()));
}

#[test]
fn extract_path_param_handles_encoded_equals_in_path() {
    let uri = "thasia://image?path=%2Ftmp%2Ffoo%3Dbar.jpg";
    assert_eq!(extract_path_param(uri), Some("/tmp/foo=bar.jpg".into()));
}

#[test]
fn extract_path_param_missing_returns_none() {
    assert!(extract_path_param("thasia://image").is_none());
}

#[test]
fn mime_for_jpeg() {
    assert_eq!(mime_for_path("x.jpg"), "image/jpeg");
    assert_eq!(mime_for_path("x.JPG"), "image/jpeg");
}

#[test]
fn mime_for_png() {
    assert_eq!(mime_for_path("x.png"), "image/png");
}

#[test]
fn image_url_is_exact_percent_encoding() {
    assert_eq!(image_url("/a b/é~.png"), "thasia://image?path=%2Fa%20b%2F%C3%A9~.png");
}

#[test]
fn image_url_round_trips_through_extract() {
    let path = "/tmp/odd name=1&x.webp";
    assert_eq!(extract_path_param(&image_url(path)), Some(path.to_string()));
}

#[test]
fn extract_path_param_takes_first_path_pair() {
    let uri = "thasia://image?other=1&path=%2Fa&path=%2Fb";
    assert_eq!(extract_path_param(uri), Some("/a".to_string()));
}

#[test]
fn extract_path_param_rejects_non_url() {
    assert!(extract_path_param("not a url").is_none());
}

#[test]
fn mime_for_other_types() {
    assert_eq!(mime_for_path("/x/page.WebP"), "image/webp");
    assert_eq!(mime_for_path("/x/page.avif"), "image/avif");
    assert_eq!(mime_for_path("/x/page.jpeg"), "image/jpeg");
    assert_eq!(mime_for_path("/x/page.gif"), "application/octet-stream");
    assert_eq!(mime_for_path("/x/page"), "application/octet-stream");
    assert_eq!(mime_for_path("/x/.png"), "application/octet-stream");
}

#[test]
fn requested_path_missing_gives_400() {
    let response = requested_path("thasia://image").unwrap_err();
    assert_eq!(response.status, 400);
    assert!(matches!(response.body, ResponseBody::Message("missing path param")));
    assert!(response.content_type.is_none());
    assert_eq!(response.allow_origin, "*");
    assert_eq!(requested_path("thasia://image?path=%2Fa.png").unwrap(), "/a.png");
}

#[test]
fn file_response_statuses() {
    let missing = file_response("/a.png", FileLookup::NotFound);
    assert_eq!(missing.status, 404);
    assert!(matches!(missing.body, ResponseBody::Message("file not found")));
    let unreadable = file_response("/a.png", FileLookup::ReadFailed);
    assert_eq!(unreadable.status, 500);
    assert!(matches!(unreadable.body, ResponseBody::Message("read error")));
    let ok = file_response("/a.PNG", FileLookup::Contents(vec![1, 2, 3]));
    assert_eq!(ok.status, 200);
    assert_eq!(ok.content_type, Some("image/png"));
    assert_eq!(ok.allow_origin, "*");
    assert_eq!(missing.allow_origin, "*");
    assert_eq!(unreadable.allow_origin, "*");
    match ok.body {
        ResponseBody::File(bytes) => assert_eq!(bytes, vec![1, 2, 3]),
        ResponseBody::Message(_) => panic!("expected file body"),
    }
}
