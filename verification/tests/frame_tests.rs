use stream_entropy::frame::{merge_loaded, validate_headers, CaptureError, Source};

fn src(url: &str) -> Source {
    Source {
        source: String::from(url),
        headers: Vec::new(),
    }
}

#[test]
fn merge_keeps_loaded_files_in_order() {
    let outcomes = vec![
        Some(vec![src("https://a/1.m3u8"), src("https://a/2.m3u8")]),
        None,
        Some(vec![src("https://b/3.m3u8")]),
    ];
    let catalog = merge_loaded(outcomes);
    let urls: Vec<&str> = catalog.iter().map(|s| s.source.as_str()).collect();
    assert_eq!(urls, vec!["https://a/1.m3u8", "https://a/2.m3u8", "https://b/3.m3u8"]);
}

#[test]
fn merge_of_only_failures_is_empty() {
    let catalog = merge_loaded(vec![None, None]);
    assert!(catalog.is_empty());
}

#[test]
fn valid_headers_pass_whole() {
    let headers = vec![
        (String::from("Authorization"), String::from("Bearer abc")),
        (String::from("X-Custom"), String::from("1")),
    ];
    assert!(validate_headers(&headers).is_ok());
}

#[test]
fn invalid_header_name_fails_the_set() {
    let headers = vec![
        (String::from("Fine"), String::from("ok")),
        (String::from("bad name"), String::from("ok")),
    ];
    match validate_headers(&headers) {
        Err(CaptureError::InvalidHeaderName(name)) => assert_eq!(name, "bad name"),
        _ => panic!("expected the bad name to fail the whole set"),
    }
}

#[test]
fn invalid_header_value_fails_the_set() {
    let headers = vec![(String::from("X-Thing"), String::from("line\nbreak"))];
    match validate_headers(&headers) {
        Err(CaptureError::InvalidHeaderValue(value)) => assert_eq!(value, "line\nbreak"),
        _ => panic!("expected the bad value to fail the whole set"),
    }
}

#[test]
fn empty_header_set_is_valid() {
    assert!(validate_headers(&Vec::new()).is_ok());
}

#[test]
fn first_bad_pair_decides_the_error() {
    let headers = vec![
        (String::from("no spaces"), String::from("ok")),
        (String::from("Fine"), String::from("also\nbad")),
    ];
    // Both pairs are bad; the earlier one names the failure.
    match validate_headers(&headers) {
        Err(CaptureError::InvalidHeaderName(name)) => assert_eq!(name, "no spaces"),
        _ => panic!("expected the first pair's name to fail the set"),
    }
}
