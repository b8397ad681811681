use auth_query::{
    AuthorizationQueryParams as Params, AuthorizationQueryParsingError as Error,
    AuthorizationRequestQuery, OpaqueParameters, RedirectUri, ResponseType, Scope, ScopeList,
};

fn parse_authorization_query(query: &str) -> Result<AuthorizationRequestQuery, Error> {
    query.parse()
}

fn redirect_uri() -> RedirectUri {
    RedirectUri::new("https://example.org/foo/bar?hey=now&test").unwrap()
}

#[test]
fn test_trivial_query() {
    let trivial_query = serde_urlencoded::to_string([
        ("response_type", "code"),
        ("client_id", "valid_client_id"),
        ("redirect_uri", "https://example.org/foo/bar?hey=now&test"),
        ("scope", "scope_a scope_b"),
    ])
    .unwrap();

    let trivial_auth_query = AuthorizationRequestQuery {
        opaque_parameters: OpaqueParameters(vec![]),
        response_type: ResponseType::Code,
        client_id: "valid_client_id".to_owned(),
        redirect_uri: redirect_uri(),
        scope: ScopeList(vec![
            "scope_a".try_into().unwrap(),
            "scope_b".try_into().unwrap(),
        ]),
        state: None,
    };

    assert_eq!(
        parse_authorization_query(&trivial_query).unwrap(),
        trivial_auth_query
    );
}

#[test]
fn test_missing_parameters() {
    let missing_response_type = serde_urlencoded::to_string([
        ("client_id", "valid_client_id"),
        ("redirect_uri", "https://example.org/foo/bar?hey=now&test"),
    ])
    .unwrap();

    assert_eq!(
        parse_authorization_query(&missing_response_type),
        Err(Error::MissingParameter(
            Params::ResponseType.name(),
            redirect_uri()
        ))
    );

    // a parameter without a value counts as not sent
    let missing_response_type = serde_urlencoded::to_string([
        ("response_type", ""),
        ("client_id", "valid_client_id"),
        ("redirect_uri", "https://example.org/foo/bar?hey=now&test"),
    ])
    .unwrap();

    assert_eq!(
        parse_authorization_query(&missing_response_type),
        Err(Error::MissingParameter(
            Params::ResponseType.name(),
            redirect_uri()
        ))
    );

    let missing_client_id = serde_urlencoded::to_string([
        ("response_type", "code"),
        ("redirect_uri", "https://example.org/foo/bar?hey=now&test"),
    ])
    .unwrap();

    assert_eq!(
        parse_authorization_query(&missing_client_id),
        Err(Error::MissingParameter(
            Params::ClientId.name(),
            redirect_uri()
        ))
    );

    let missing_client_id = serde_urlencoded::to_string([
        ("response_type", "code"),
        ("client_id", ""),
        ("redirect_uri", "https://example.org/foo/bar?hey=now&test"),
    ])
    .unwrap();

    assert_eq!(
        parse_authorization_query(&missing_client_id),
        Err(Error::MissingParameter(
            Params::ClientId.name(),
            redirect_uri()
        ))
    );

    // without a redirect target there is nothing to carry the parameter's name to
    let missing_redirect_uri =
        serde_urlencoded::to_string([("response_type", "code"), ("client_id", "valid_client_id")])
            .unwrap();

    assert_eq!(
        parse_authorization_query(&missing_redirect_uri),
        Err(Error::InvalidUri)
    );

    let missing_redirect_uri = serde_urlencoded::to_string([
        ("response_type", "code"),
        ("client_id", "valid_client_id"),
        ("redirect_uri", ""),
    ])
    .unwrap();

    assert_eq!(
        parse_authorization_query(&missing_redirect_uri),
        Err(Error::InvalidUri)
    );
}

#[test]
fn test_invalid_parameters() {
    let invalid_redirect_uri = serde_urlencoded::to_string([
        ("response_type", "code"),
        ("client_id", "valid_client_id"),
        ("redirect_uri", "ht/tps://example.org/foo/bar?hey=now&test"),
        ("scope", "scope_a scope_b"),
    ])
    .unwrap();

    assert_eq!(
        parse_authorization_query(&invalid_redirect_uri),
        Err(Error::InvalidUri)
    );
}

#[test]
fn test_invalid_scope() {
    let invalid_scope = serde_urlencoded::to_string([
        ("response_type", "code"),
        ("client_id", "valid_client_id"),
        ("redirect_uri", "https://example.org/foo/bar?hey=now&test"),
        ("scope", "invalid_scope_à"),
    ])
    .unwrap();

    assert_eq!(
        parse_authorization_query(&invalid_scope),
        Err(Error::InvalidScope(
            "invalid_scope_à".to_owned(),
            redirect_uri()
        ))
    );
}

#[test]
fn test_ignore_opaque_parameters() {
    let repeated_opaque_params = serde_urlencoded::to_string([
        ("repeated1", "hey"),
        ("response_type", "code"),
        ("repeated1", ""),
        ("client_id", "valid_client_id"),
        ("repeated2", "once"),
        ("redirect_uri", "https://example.org/foo/bar?hey=now&test"),
        ("scope", "scope_a scope_b"),
        ("repeated2", "twice"),
        ("repeated2", "thrice"),
    ])
    .unwrap();

    let scope_a: Scope = "scope_a".try_into().unwrap();
    let scope_b: Scope = "scope_b".try_into().unwrap();
    let repeated_opaque_params_query = AuthorizationRequestQuery {
        opaque_parameters: OpaqueParameters(vec![
            ("repeated1".to_owned(), "hey".to_owned()),
            ("repeated1".to_owned(), "".to_owned()),
            ("repeated2".to_owned(), "once".to_owned()),
            ("repeated2".to_owned(), "twice".to_owned()),
            ("repeated2".to_owned(), "thrice".to_owned()),
        ]),
        response_type: ResponseType::Code,
        client_id: "valid_client_id".to_owned(),
        redirect_uri: redirect_uri(),
        scope: ScopeList(vec![scope_a, scope_b]),
        state: None,
    };

    assert_eq!(
        parse_authorization_query(&repeated_opaque_params).unwrap(),
        repeated_opaque_params_query
    );
}

#[test]
fn test_repeated_parameters() {
    let repeated_response_type = serde_urlencoded::to_string([
        ("response_type", "code"),
        ("response_type", ""),
        ("client_id", "valid_client_id"),
        ("redirect_uri", "https://example.org/foo/bar?hey=now&test"),
        ("scope", "scope_a scope_b"),
        ("state", "opaque"),
    ])
    .unwrap();

    assert_eq!(
        parse_authorization_query(&repeated_response_type),
        Err(Error::RepeatedParameter(
            Params::ResponseType.name(),
            redirect_uri()
        ))
    );

    let repeated_client_id = serde_urlencoded::to_string([
        ("response_type", "code"),
        ("client_id", "valid_client_id"),
        ("client_id", ""),
        ("redirect_uri", "https://example.org/foo/bar?hey=now&test"),
        ("scope", "scope_a scope_b"),
        ("state", "opaque"),
    ])
    .unwrap();

    assert_eq!(
        parse_authorization_query(&repeated_client_id),
        Err(Error::RepeatedParameter(
            Params::ClientId.name(),
            redirect_uri()
        ))
    );

    // a redirect target that is sent twice is no target at all
    let repeated_redirect_uri = serde_urlencoded::to_string([
        ("response_type", "code"),
        ("client_id", "valid_client_id"),
        ("redirect_uri", "https://example.org/foo/bar?hey=now&test"),
        ("redirect_uri", ""),
        ("scope", "scope_a scope_b"),
        ("state", "opaque"),
    ])
    .unwrap();

    assert_eq!(
        parse_authorization_query(&repeated_redirect_uri),
        Err(Error::InvalidUri)
    );

    let repeated_scope = serde_urlencoded::to_string([
        ("response_type", "code"),
        ("client_id", "valid_client_id"),
        ("redirect_uri", "https://example.org/foo/bar?hey=now&test"),
        ("scope", "scope_a scope_b"),
        ("scope", ""),
        ("state", "opaque"),
    ])
    .unwrap();

    assert_eq!(
        parse_authorization_query(&repeated_scope),
        Err(Error::RepeatedParameter(
            Params::Scope.name(),
            redirect_uri()
        ))
    );

    let repeated_state = serde_urlencoded::to_string([
        ("response_type", "code"),
        ("client_id", "valid_client_id"),
        ("redirect_uri", "https://example.org/foo/bar?hey=now&test"),
        ("scope", "scope_a scope_b"),
        ("state", "opaque"),
        ("state", ""),
    ])
    .unwrap();

    assert_eq!(
        parse_authorization_query(&repeated_state),
        Err(Error::RepeatedParameter(
            Params::State.name(),
            redirect_uri()
        ))
    );
}

#[test]
fn test_unsupported_response_type() {
    let unsupported_response_type = serde_urlencoded::to_string([
        ("response_type", "not_code"),
        ("client_id", "valid_client_id"),
        ("redirect_uri", "https://example.org/foo/bar?hey=now&test"),
        ("scope", "scope_a scope_b"),
    ])
    .unwrap();

    assert_eq!(
        parse_authorization_query(&unsupported_response_type),
        Err(Error::UnsupportedResponseType(redirect_uri()))
    );
}
