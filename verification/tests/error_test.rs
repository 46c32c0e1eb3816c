use oak_website_backend::error::AppError;

#[test]
fn error_into_response_maps_status_and_message() {
    let cases: Vec<(AppError, u16, &str)> = vec![
        (AppError::Internal("boom".to_string()), 500, "boom"),
        (AppError::BadRequest("bad".to_string()), 400, "bad"),
        (AppError::NotFound("missing".to_string()), 404, "missing"),
        (AppError::Unauthorized, 401, "unauthorized"),
        (AppError::External("ext".to_string()), 502, "ext"),
        (AppError::Config("cfg".to_string()), 500, "cfg"),
    ];
    for (err, status, message) in cases {
        assert_eq!(err.status_code(), status);
        assert_eq!(err.response_message(), message);
    }
}

#[test]
fn database_error_maps_to_internal_server_error() {
    let err = AppError::Database("test db error".to_string());
    assert_eq!(err.status_code(), 500);
    assert_eq!(err.response_message(), "database error");
    assert_eq!(err.description(), "database error: test db error");
}

#[test]
fn app_error_descriptions() {
    assert_eq!(AppError::Internal("x".to_string()).description(), "internal error: x");
    assert_eq!(AppError::BadRequest("x".to_string()).description(), "bad request: x");
    assert_eq!(AppError::NotFound("x".to_string()).description(), "not found: x");
    assert_eq!(AppError::Unauthorized.description(), "unauthorized");
    assert_eq!(AppError::External("x".to_string()).description(), "external service error: x");
    assert_eq!(AppError::Config("x".to_string()).description(), "configuration error: x");
}
