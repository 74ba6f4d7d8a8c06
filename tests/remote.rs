use ghcount::remote::{authenticated_clone_url, classify_clone_failure, fetch_error, CloneError, FetchError};

#[test]
fn token_goes_into_public_host_urls() {
    assert_eq!(
        authenticated_clone_url("https://github.com/myorg/api.git", "tok"),
        "https://tok@github.com/myorg/api.git"
    );
    assert_eq!(
        authenticated_clone_url("https://example.com/myorg/api.git", "tok"),
        "https://example.com/myorg/api.git"
    );
    assert_eq!(authenticated_clone_url("", "tok"), "");
    assert_eq!(
        authenticated_clone_url("https://github.com/a/https://github.com/", "t"),
        "https://t@github.com/a/https://t@github.com/"
    );
}

#[test]
fn clone_failures() {
    assert!(matches!(classify_clone_failure("fatal: Authentication failed for 'x'"), CloneError::AuthFailure));
    assert!(matches!(classify_clone_failure("remote: access denied"), CloneError::AuthFailure));
    match classify_clone_failure("fatal: repository not found") {
        CloneError::Failed { message } => assert_eq!(message, "fatal: repository not found"),
        other => panic!("unexpected {:?}", other),
    }
}

#[test]
fn fetch_errors_by_status() {
    assert!(matches!(fetch_error(401, String::new()), FetchError::Unauthorized));
    assert!(matches!(fetch_error(403, String::new()), FetchError::Forbidden));
    assert!(matches!(fetch_error(404, String::new()), FetchError::NotFound));
    match fetch_error(500, "boom".to_string()) {
        FetchError::Other { status, body } => {
            assert_eq!(status, 500);
            assert_eq!(body, "boom");
        }
        other => panic!("unexpected {:?}", other),
    }
}
