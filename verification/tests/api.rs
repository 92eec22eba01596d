use bom_version_control::configuration::Environment;
use bom_version_control::domain::error::DomainError;
use bom_version_control::domain::BomVersion;
use bom_version_control::domain::BOMChangeEvent;
use bom_version_control::errors::ApiError as FlatApiError;
use bom_version_control::routes::ApiError;
use bom_version_control::services::error::ServiceError;
use uuid::Uuid;

#[test]
fn environment_names_its_configuration_file() {
    assert_eq!(Environment::Local.as_str(), "local");
    assert_eq!(Environment::Production.as_str(), "production");
}

#[test]
fn environment_is_parsed_case_insensitively() {
    assert_eq!(
        Environment::try_from("LOCAL".to_string()),
        Ok(Environment::Local)
    );
    assert_eq!(
        Environment::try_from("Production".to_string()),
        Ok(Environment::Production)
    );
}

#[test]
fn unknown_environment_is_reported_back() {
    let result = Environment::try_from("staging".to_string());

    assert_eq!(
        result,
        Err(
            "staging is not a supported environment. Use either `local` or `production`."
                .to_string()
        )
    );
}

#[test]
fn internal_error_carries_status_and_detail() {
    let error = FlatApiError::new_internal("connection lost".to_string());

    assert_eq!(error.status_code, 500);
    assert_eq!(error.detail, "Internal server error: connection lost");
}

#[test]
fn api_error_kinds_map_to_status_codes() {
    assert_eq!(ApiError::Unexpected("x".to_string()).status_code(), 500);
    assert_eq!(ApiError::BadRequest("x".to_string()).status_code(), 400);
    assert_eq!(ApiError::NotFound("x".to_string()).status_code(), 404);
}

#[test]
fn service_errors_map_to_api_errors() {
    assert_eq!(
        ApiError::from(ServiceError::DomainError(DomainError::ValidationError(
            "bad input".to_string()
        ))),
        ApiError::BadRequest("bad input".to_string())
    );
    assert_eq!(
        ApiError::from(ServiceError::DomainError(DomainError::ConversionError(
            "broken row".to_string()
        ))),
        ApiError::Unexpected("broken row".to_string())
    );
    assert_eq!(
        ApiError::from(ServiceError::InvalidData("stale version".to_string())),
        ApiError::BadRequest("stale version".to_string())
    );
}

#[test]
fn version_log_entry_keeps_its_parts() {
    let bom_id = Uuid::new_v4().as_u128();
    let changes = vec![BOMChangeEvent::NameChanged("TestBom".to_string())];

    let entry = BomVersion::new(&bom_id, 3, Box::new(changes.clone()));

    assert_eq!(entry.bom_id, bom_id);
    assert_eq!(entry.version, 3);
    assert_eq!(*entry.changes, changes);
}
