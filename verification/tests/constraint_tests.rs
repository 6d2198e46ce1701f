use querykit::constraint::map_constraint;
use querykit::error::{AppError, DbErrorInfo};
use querykit::response::ErrorResponse;

#[test]
fn two_fields_yield_joined_message_under_first_key() {
    let mapped = map_constraint("users_email$$$username_key").unwrap();
    assert_eq!(mapped.0, "email");
    assert_eq!(mapped.1, "email with username already exists");
}

#[test]
fn one_field_yields_its_own_message() {
    let mapped = map_constraint("users_email_key").unwrap();
    assert_eq!(mapped.0, "email");
    assert_eq!(mapped.1, "email already exists");
}

#[test]
fn three_fields_join_middle_with_comma_and_last_with_and() {
    let mapped = map_constraint("t_a$$$b$$$c$$$d_key").unwrap();
    assert_eq!(mapped.0, "a");
    assert_eq!(mapped.1, "a with b, c and d already exists");
}

#[test]
fn marker_inside_a_field_name_reads_as_a_space() {
    let mapped = map_constraint("users_first_name_key").unwrap();
    assert_eq!(mapped.0, "first_name");
    assert_eq!(mapped.1, "first name already exists");
}

#[test]
fn identifier_without_markers_is_unrecognized() {
    assert!(map_constraint("nomarkers").is_none());
}

#[test]
fn identifier_with_one_marker_is_unrecognized() {
    assert!(map_constraint("abc_def").is_none());
}

#[test]
fn empty_identifier_is_unrecognized() {
    assert!(map_constraint("").is_none());
}

#[test]
fn unique_violation_maps_to_field_error() {
    let err = AppError::DBError(DbErrorInfo {
        code: Some("23505".to_string()),
        constraint: Some("users_email_key".to_string()),
    });
    let (status, body) = err.into_response();
    assert_eq!(status, 400);
    let errors = body.errors.unwrap();
    assert_eq!(errors.len(), 1);
    assert_eq!(errors[0].0, "email");
    assert_eq!(errors[0].1, "email already exists");
    assert!(body.error.is_none());
}

#[test]
fn unrecognized_violation_is_an_opaque_client_error() {
    let err = AppError::DBError(DbErrorInfo {
        code: Some("23505".to_string()),
        constraint: Some("nomarkers".to_string()),
    });
    let (status, body) = err.into_response();
    assert_eq!(status, 400);
    assert!(body.errors.is_none());
    assert_eq!(body.error.as_deref(), Some("Unexpected error"));
}

#[test]
fn violation_without_identifier_is_an_opaque_client_error() {
    let err = AppError::DBError(DbErrorInfo {
        code: Some("23505".to_string()),
        constraint: None,
    });
    let (status, body) = err.into_response();
    assert_eq!(status, 400);
    assert_eq!(body.error.as_deref(), Some("Unexpected error"));
}

#[test]
fn other_storage_errors_are_opaque_internal_failures() {
    let err = AppError::DBError(DbErrorInfo {
        code: Some("08006".to_string()),
        constraint: None,
    });
    let (status, body) = err.into_response();
    assert_eq!(status, 500);
    assert_eq!(body.error.as_deref(), Some("Unexpected error"));
}

#[test]
fn non_storage_reported_errors_are_opaque_internal_failures() {
    let err = AppError::DBError(DbErrorInfo {
        code: None,
        constraint: None,
    });
    let (status, body) = err.into_response();
    assert_eq!(status, 500);
    assert_eq!(body.error.as_deref(), Some("Failed to proceed"));
}

#[test]
fn not_found_maps_to_404() {
    let (status, body) = AppError::NotFound("User not found".to_string()).into_response();
    assert_eq!(status, 404);
    assert_eq!(body.error.as_deref(), Some("User not found"));
}

#[test]
fn unexpected_error_maps_to_500() {
    let (status, body) = AppError::UnexpectedError.into_response();
    assert_eq!(status, 500);
    assert_eq!(body.error.as_deref(), Some("something went wrong"));
}

#[test]
fn fatal_error_carries_its_message() {
    let (status, body) = AppError::FatalError("boom".to_string()).into_response();
    assert_eq!(status, 500);
    assert_eq!(body.error.as_deref(), Some("boom"));
}

#[test]
fn validation_findings_map_to_field_errors() {
    let err = AppError::ValidationErrors(vec![(
        "email".to_string(),
        "invalid email value".to_string(),
    )]);
    let (status, body) = err.into_response();
    assert_eq!(status, 400);
    let errors = body.errors.unwrap();
    assert_eq!(errors[0].0, "email");
    assert_eq!(errors[0].1, "invalid email value");
}

#[test]
fn prepared_envelope_passes_through_at_400() {
    let err = AppError::ErrorResponse(ErrorResponse::create_error("Invalid user id"));
    let (status, body) = err.into_response();
    assert_eq!(status, 400);
    assert_eq!(body.error.as_deref(), Some("Invalid user id"));
}
