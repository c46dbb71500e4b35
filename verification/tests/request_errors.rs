use carbon::request::{RequestContext, RequestError, RequestErrorDetails};

#[test]
fn classify_prefers_status_then_timeout_then_connect_then_decode() {
    let d = RequestErrorDetails::classify(Some(404), true, true, true, "x".to_string());
    assert!(matches!(d, RequestErrorDetails::UnexpectedStatus { status: 404, details: None }));
    let d = RequestErrorDetails::classify(None, true, true, true, "x".to_string());
    assert!(matches!(d, RequestErrorDetails::Timeout));
    let d = RequestErrorDetails::classify(None, false, true, true, "x".to_string());
    assert!(matches!(d, RequestErrorDetails::ConnectionFailed));
    let d = RequestErrorDetails::classify(None, false, false, true, "x".to_string());
    assert!(matches!(d, RequestErrorDetails::MalformedResponse));
    let d = RequestErrorDetails::classify(None, false, false, false, "oops".to_string());
    assert!(matches!(d, RequestErrorDetails::Unknown(ref t) if t == "oops"));
}

#[test]
fn context_text() {
    assert_eq!(RequestContext::none().describe(), "<no url>");
    let c = RequestContext { url: Some("https://example.com/".to_string()) };
    assert_eq!(c.describe(), "https://example.com/");
}

fn response(status: u16) -> reqwest::Response {
    reqwest::Response::from(http::Response::builder().status(status).body("").unwrap())
}

#[test]
fn error_from_unexpected_status() {
    let e = RequestError::from_status(&response(503));
    assert!(matches!(e.error, RequestErrorDetails::UnexpectedStatus { status: 503, details: None }));
    assert_eq!(e.context.describe(), "http://no.url.provided.local/");
}

#[test]
fn error_from_reqwest_error() {
    let err = response(404).error_for_status().unwrap_err();
    let e = RequestError::from_error(err);
    assert!(matches!(e.error, RequestErrorDetails::UnexpectedStatus { status: 404, details: None }));
    assert_eq!(e.context.url.as_deref(), Some("http://no.url.provided.local/"));

    let err = response(418).error_for_status().unwrap_err();
    let e = RequestError::from_error_censored(err);
    assert!(matches!(e.error, RequestErrorDetails::UnexpectedStatus { status: 418, details: None }));
    assert_eq!(e.context.url.as_deref(), Some("http://no.url.provided.local/"));
}

#[test]
fn builder_errors_are_unknown() {
    let err = reqwest::Client::new().get("not a url").build().unwrap_err();
    let d = RequestErrorDetails::from_error(err);
    match d {
        RequestErrorDetails::Unknown(text) => assert!(text.contains("Builder")),
        other => panic!("unexpected {other:?}"),
    }
    let err = reqwest::Client::new().get("not a url").build().unwrap_err();
    let e = RequestError::from_error_censored(err);
    assert!(e.context.url.is_none());
}

#[test]
fn censored_description_is_that_of_the_error_without_url() {
    let err = reqwest::Client::new().get("not a url").build().unwrap_err();
    let expected = format!("{:#?}", err.without_url());
    let err = reqwest::Client::new().get("not a url").build().unwrap_err();
    match RequestErrorDetails::from_error_censored(err) {
        RequestErrorDetails::Unknown(text) => assert_eq!(text, expected),
        other => panic!("unexpected {other:?}"),
    }
}
