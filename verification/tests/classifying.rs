use ptv::{classify_response, Classified, FetchResult};

#[test]
fn success_status_hands_the_body_on() {
    let got = classify_response(FetchResult::Delivered {
        status: 200,
        body: "{\"routes\":[]}".to_string(),
    });
    assert_eq!(got, Classified::Success { body: "{\"routes\":[]}".to_string() });
}

#[test]
fn error_envelope_yields_api_failure() {
    let body = "{\"message\":\"not found\",\"status\":{\"version\":\"3.0\",\"health\":1}}";
    let got = classify_response(FetchResult::Delivered { status: 404, body: body.to_string() });
    assert_eq!(got, Classified::ApiFailure { status: 404, message: "not found".to_string() });
}

#[test]
fn unparsable_error_body_yields_bare_status() {
    let got = classify_response(FetchResult::Delivered {
        status: 502,
        body: "<html>bad gateway</html>".to_string(),
    });
    assert_eq!(got, Classified::StatusFailure { status: 502 });
}

#[test]
fn incomplete_envelope_yields_bare_status() {
    let got = classify_response(FetchResult::Delivered {
        status: 400,
        body: "{\"message\":\"no status here\"}".to_string(),
    });
    assert_eq!(got, Classified::StatusFailure { status: 400 });
}

#[test]
fn transport_failure_is_surfaced_as_such() {
    let got = classify_response(FetchResult::Failed { cause: "connection refused".to_string() });
    assert_eq!(got, Classified::Transport { cause: "connection refused".to_string() });
}

#[test]
fn success_boundary_is_the_two_hundreds() {
    let s299 = classify_response(FetchResult::Delivered { status: 299, body: "x".to_string() });
    assert_eq!(s299, Classified::Success { body: "x".to_string() });
    let s300 = classify_response(FetchResult::Delivered { status: 300, body: "x".to_string() });
    assert_eq!(s300, Classified::StatusFailure { status: 300 });
    let s199 = classify_response(FetchResult::Delivered { status: 199, body: "x".to_string() });
    assert_eq!(s199, Classified::StatusFailure { status: 199 });
}

#[test]
fn envelope_with_extra_fields_still_decodes() {
    let body = "{\"message\":\"m\",\"extra\":true,\"status\":{\"version\":\"3.0\",\"health\":0,\"x\":1}}";
    let got = classify_response(FetchResult::Delivered { status: 403, body: body.to_string() });
    assert_eq!(got, Classified::ApiFailure { status: 403, message: "m".to_string() });
}
