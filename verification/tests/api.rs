use erasmus_validator::api::extractors::{body_format, BodyFormat};

#[test]
fn csv_content_type() {
    assert_eq!(body_format(Some(Ok("text/csv"))).unwrap(), BodyFormat::Csv);
}

#[test]
fn json_content_type() {
    assert_eq!(body_format(Some(Ok("application/json"))).unwrap(), BodyFormat::Json);
}

#[test]
fn other_content_type_is_unsupported() {
    let r = body_format(Some(Ok("text/plain"))).unwrap_err();
    assert_eq!(r.status, 415);
    assert_eq!(
        r.message,
        "Only accepting text/csv or application/json content types, found: text/plain"
    );
}

#[test]
fn unreadable_content_type() {
    let r = body_format(Some(Err("failed to convert header to a str".to_string()))).unwrap_err();
    assert_eq!(r.status, 400);
    assert_eq!(r.message, "Error decoding content-type: failed to convert header to a str");
}

#[test]
fn missing_content_type() {
    let r = body_format(None).unwrap_err();
    assert_eq!(r.status, 400);
    assert_eq!(r.message, "No content-type provided, accepting only text/csv or application/json");
}
