use auth_query::response::{BAD_REQUEST, SEE_OTHER};
use auth_query::{
    parse_query, AuthorizationQueryParsingError as Error, ErrorResponse, RedirectUri,
};

fn target() -> RedirectUri {
    RedirectUri::new("https://example.org/cb").unwrap()
}

fn redirect(code: &str, body: &str) -> ErrorResponse {
    ErrorResponse {
        status: 303,
        location: Some(format!("https://example.org/cb?error={}", code)),
        body: body.to_owned(),
    }
}

#[test]
fn status_codes_are_the_http_ones() {
    assert_eq!(BAD_REQUEST, 400);
    assert_eq!(SEE_OTHER, 303);
}

#[test]
fn invalid_uri_is_answered_flat() {
    let response = Error::InvalidUri.into_response();
    assert_eq!(
        response,
        ErrorResponse {
            status: 400,
            location: None,
            body: "the redirect_uri is invalid".to_owned(),
        }
    );
    assert_eq!(Error::InvalidUri.status(), 400);
    assert_eq!(Error::InvalidUri.standard_error_text(), "server_error");
}

#[test]
fn undecodable_query_is_answered_flat() {
    let response = Error::ParsingError.into_response();
    assert_eq!(
        response,
        ErrorResponse {
            status: 400,
            location: None,
            body: "the query is not in urlencoded format".to_owned(),
        }
    );
    assert_eq!(Error::ParsingError.status(), 400);
    assert_eq!(Error::ParsingError.standard_error_text(), "invalid_request");
}

#[test]
fn missing_or_unparsable_redirect_uri_gets_no_location() {
    for query in [
        "response_type=code&client_id=abc",
        "response_type=code&client_id=abc&redirect_uri=",
        "response_type=code&client_id=abc&redirect_uri=not%20a%20url",
        "response_type=code&client_id=abc&redirect_uri=https%3A%2F%2Fex.org%2Fcb%23frag",
    ] {
        let response = parse_query(query).unwrap_err().into_response();
        assert_eq!(response.status, 400);
        assert_eq!(response.location, None);
    }
}

#[test]
fn unsupported_response_type_redirects() {
    let error = Error::UnsupportedResponseType(target());
    assert_eq!(error.status(), 303);
    assert_eq!(error.standard_error_text(), "unsupported_response_type");
    assert_eq!(
        error.into_response(),
        redirect(
            "unsupported_response_type",
            "only the \"code\" response_type is supported"
        )
    );
}

#[test]
fn missing_parameter_redirects() {
    let error = Error::MissingParameter("client_id", target());
    assert_eq!(error.status(), 303);
    assert_eq!(error.standard_error_text(), "invalid_request");
    assert_eq!(
        error.into_response(),
        redirect("invalid_request", "missing parameter \"client_id\"")
    );
}

#[test]
fn repeated_parameter_redirects() {
    let error = Error::RepeatedParameter("state", target());
    assert_eq!(error.status(), 303);
    assert_eq!(error.standard_error_text(), "invalid_request");
    assert_eq!(
        error.into_response(),
        redirect("invalid_request", "parameter \"state\" sent more than once")
    );
}

#[test]
fn invalid_scope_redirects() {
    let error = Error::InvalidScope("a\"b".to_owned(), target());
    assert_eq!(error.status(), 303);
    assert_eq!(error.standard_error_text(), "invalid_scope");
    assert_eq!(
        error.into_response(),
        redirect(
            "invalid_scope",
            "invalid scope format on `\"a\\\"b\"`. check section 3.3 of RFC 6749 for the allowed characters"
        )
    );
}

#[test]
fn location_keeps_the_query_of_the_target() {
    let target = RedirectUri::new("https://example.org/foo/bar?hey=now&test").unwrap();
    let response = Error::MissingParameter("client_id", target).into_response();
    assert_eq!(response.status, 303);
    assert_eq!(
        response.location.as_deref(),
        Some("https://example.org/foo/bar?hey=now&test=&error=invalid_request")
    );
}

#[test]
fn location_encodes_the_pairs_anew() {
    let target = RedirectUri::new("https://example.org/cb?a=b%20c&d=%C3%A0").unwrap();
    assert_eq!(
        target.query_pairs(),
        &vec![
            ("a".to_owned(), "b c".to_owned()),
            ("d".to_owned(), "à".to_owned())
        ]
    );
    assert_eq!(
        target.error_location("invalid_scope").as_deref(),
        Some("https://example.org/cb?a=b+c&d=%C3%A0&error=invalid_scope")
    );
}

#[test]
fn with_query_replaces_the_query() {
    let target = RedirectUri::new("https://example.org/cb?old=1").unwrap();
    assert_eq!(
        target.with_query("new=2").as_deref(),
        Some("https://example.org/cb?new=2")
    );
    assert_eq!(
        target.with_query("").as_deref(),
        Some("https://example.org/cb?")
    );
    let bare = RedirectUri::new("app://host").unwrap();
    assert_eq!(bare.with_query("a=b").as_deref(), Some("app://host?a=b"));
}

#[test]
fn respond_redirects_where_there_is_a_location() {
    let error = Error::MissingParameter("client_id", target());
    assert_eq!(
        error.respond(Some("https://example.org/elsewhere".to_owned())),
        ErrorResponse {
            status: 303,
            location: Some("https://example.org/elsewhere".to_owned()),
            body: "missing parameter \"client_id\"".to_owned(),
        }
    );
    assert_eq!(
        error.respond(None),
        ErrorResponse {
            status: 400,
            location: None,
            body: "missing parameter \"client_id\"".to_owned(),
        }
    );
}

#[test]
fn end_to_end_missing_response_type() {
    let error = parse_query("client_id=abc&redirect_uri=https%3A%2F%2Fex.org%2Fcb").unwrap_err();
    assert_eq!(
        error,
        Error::MissingParameter("response_type", RedirectUri::new("https://ex.org/cb").unwrap())
    );
    let response = error.into_response();
    assert_eq!(response.status, 303);
    assert_eq!(
        response.location.as_deref(),
        Some("https://ex.org/cb?error=invalid_request")
    );
    assert_eq!(response.body, "missing parameter \"response_type\"");
}

#[test]
fn target_is_the_one_that_the_error_carries() {
    assert_eq!(Error::InvalidUri.target(), None);
    assert_eq!(Error::ParsingError.target(), None);
    assert_eq!(
        Error::UnsupportedResponseType(target()).target(),
        Some(&target())
    );
    assert_eq!(
        Error::RepeatedParameter("scope", target()).target(),
        Some(&target())
    );
    assert_eq!(
        Error::MissingParameter("client_id", target()).target(),
        Some(&target())
    );
    assert_eq!(
        Error::InvalidScope("x y".to_owned(), target()).target(),
        Some(&target())
    );
}

#[test]
fn as_response_and_into_response_agree() {
    for error in [
        Error::InvalidUri,
        Error::ParsingError,
        Error::UnsupportedResponseType(target()),
        Error::RepeatedParameter("scope", target()),
        Error::MissingParameter("client_id", target()),
        Error::InvalidScope("à".to_owned(), target()),
    ] {
        let by_reference = error.as_response();
        assert_eq!(by_reference.status, error.status());
        assert_eq!(by_reference.body, error.message());
        assert_eq!(by_reference, error.into_response());
    }
}

#[test]
fn messages_quote_what_was_sent() {
    assert_eq!(
        Error::InvalidScope("invalid_scope_à".to_owned(), target()).message(),
        "invalid scope format on `\"invalid_scope_à\"`. check section 3.3 of RFC 6749 for the allowed characters"
    );
    assert_eq!(
        Error::InvalidScope("a\\b\n".to_owned(), target()).message(),
        "invalid scope format on `\"a\\\\b\\n\"`. check section 3.3 of RFC 6749 for the allowed characters"
    );
}
