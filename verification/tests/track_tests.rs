use rkbx_osc::track::{classify_response, parse_track_body, TrackResponse};

fn classify_body(body: &str) -> Option<rkbx_osc::keeper::TrackInfo> {
    classify_response(parse_track_body(body))
}

#[test]
fn successful_reply_yields_metadata() {
    let body = r#"{"item":{"Title":"T","ArtistName":"A","FolderPath":"P","FileNameL":"F"}}"#;
    let info = classify_body(body).unwrap();
    assert_eq!(info.title, "T");
    assert_eq!(info.artist, "A");
    assert_eq!(info.folder_path, "P");
}

#[test]
fn empty_title_falls_back_to_file_name() {
    let body = r#"{"item":{"Title":"","ArtistName":"A","FolderPath":"P","FileNameL":"F"}}"#;
    let info = classify_body(body).unwrap();
    assert_eq!(info.title, "F");
}

#[test]
fn missing_fields_report_empty() {
    let body = r#"{"item":{}}"#;
    let info = classify_body(body).unwrap();
    assert_eq!(info.title, "");
    assert_eq!(info.artist, "");
    assert_eq!(info.folder_path, "");
}

#[test]
fn code_404_is_never_usable() {
    assert!(classify_body(r#"{"code":404}"#).is_none());
    assert!(classify_body(r#"{"code":404,"item":{"Title":"T"}}"#).is_none());
}

#[test]
fn in_band_error_codes_are_rejected() {
    assert!(classify_body(r#"{"code":500,"error":"x"}"#).is_none());
    assert!(classify_body(r#"{"code":201,"item":{}}"#).is_none());
}

#[test]
fn code_200_with_item_is_usable() {
    let body = r#"{"code":200,"item":{"Title":"T"}}"#;
    let info = classify_body(body).unwrap();
    assert_eq!(info.title, "T");
}

#[test]
fn reply_without_item_is_rejected() {
    assert!(classify_body(r#"{"ok":true}"#).is_none());
}

#[test]
fn malformed_body_is_rejected() {
    assert!(classify_body("not json at all").is_none());
    assert!(classify_body("").is_none());
}

#[test]
fn non_integer_code_reads_as_absent() {
    // A code that is not an integer does not make the reply an error.
    let body = r#"{"code":"oops","item":{"Title":"T"}}"#;
    let info = classify_body(body).unwrap();
    assert_eq!(info.title, "T");
}

#[test]
fn classify_is_exactly_the_usability_test() {
    let usable = TrackResponse {
        code: Some(200),
        has_item: true,
        title: Some("T".to_string()),
        artist: None,
        folder_path: None,
        file_name: None,
    };
    assert!(classify_response(usable).is_some());
    let no_item = TrackResponse {
        code: None,
        has_item: false,
        title: Some("T".to_string()),
        artist: None,
        folder_path: None,
        file_name: None,
    };
    assert!(classify_response(no_item).is_none());
}
