use bom_version_control::domain::validation::is_valid_string;
use bom_version_control::domain::validation::BOMChangeEventValidator;
use bom_version_control::domain::validation::ValidationError;
use bom_version_control::domain::validation::Validator;
use bom_version_control::domain::BOMChangeEvent;
use bom_version_control::domain::Component;
use bom_version_control::domain::Price;
use uuid::Uuid;

fn create_test_component() -> Component {
    Component {
        id: Uuid::new_v4().as_u128(),
        name: "Test Component".to_string(),
        description: Some("Test Description".to_string()),
        part_number: "123456".to_string(),
        supplier: "Test Supplier".to_string(),
        price: Price {
            value: 10,
            currency: "USD".to_string(),
        },
    }
}

#[test]
fn test_is_valid_string() {
    assert!(is_valid_string("valid string"));
    assert!(!is_valid_string("invalid string/"));
    assert!(!is_valid_string("invalid string("));
    assert!(!is_valid_string("invalid string)"));
    assert!(!is_valid_string("invalid string\""));
    assert!(!is_valid_string("invalid string<"));
    assert!(!is_valid_string("invalid string>"));
    assert!(!is_valid_string("invalid string\\"));
    assert!(!is_valid_string("invalid string{"));
    assert!(!is_valid_string("invalid string}"));
    assert!(!is_valid_string("iiiiiiiiiiiiiiiiiiiiiiiiiiiiiiiiiiiiiiiiiiiiiiiiiiiiiiiiiiiiiiiiiiiiiiiiiiiiiiiiiiiiiiiiiiiiiiiiiiiiiiiiiiiiiiiiiiiiiiiiiiiiiiiiiiiiiiiiiiiiiiiiiiiiiiiiiiiiiiiiiiiiiiiiiiiiiiiiiiiiiiiiiiiiiiiiiiiiiiiiiiiiiiiiiiiiiiiiiiiiiiiiiiiiiiiiiiiiiiiiiiiiiiiiiiiiiiiiiiiiiiiiiiiiiiiiiiiiiiiiiiiiiiiiiiiiiiiiiiiiiiiiiiiiiiiiiii"));
    assert!(!is_valid_string(" "));
    assert!(!is_valid_string(""));
}

#[test]
fn test_is_valid_string_grapheme_boundary() {
    let just_under = "a".repeat(254);
    let at_limit = "a".repeat(255);

    assert!(is_valid_string(&just_under));
    assert!(!is_valid_string(&at_limit));
}

#[test]
fn test_validate_name() {
    let validator = BOMChangeEventValidator;
    let name = "valid name".to_string();
    let invalid_name = "invalid name/".to_string();

    assert_eq!(
        validator.validate(&BOMChangeEvent::NameChanged(name)),
        Ok(())
    );
    assert_eq!(
        validator.validate(&BOMChangeEvent::NameChanged(invalid_name)),
        Err(ValidationError("Invalid name input".to_string()))
    );
}

#[test]
fn test_validate_description() {
    let validator = BOMChangeEventValidator;
    let description = "valid description".to_string();
    let invalid_description = "invalid description/".to_string();

    assert_eq!(
        validator.validate(&BOMChangeEvent::DescriptionChanged(description)),
        Ok(())
    );
    assert_eq!(
        validator.validate(&BOMChangeEvent::DescriptionChanged(invalid_description)),
        Err(ValidationError("Invalid description input".to_string()))
    );
}

#[test]
fn test_validate_component_added() {
    let validator = BOMChangeEventValidator;
    let qty = 1;

    let test_component = create_test_component();

    assert_eq!(
        validator.validate(&BOMChangeEvent::ComponentAdded(test_component, qty)),
        Ok(())
    );
}

#[test]
fn test_validate_component_with_invalid_quantity() {
    let validator = BOMChangeEventValidator;
    let qty = 0;

    let test_component: Component = create_test_component();

    assert_eq!(
        validator.validate(&BOMChangeEvent::ComponentAdded(test_component, qty)),
        Err(ValidationError(
            "Quantity must be greater than 0".to_string()
        ))
    );
}

#[test]
fn test_validate_component_updated() {
    let validator = BOMChangeEventValidator;
    let qty = 1;

    assert_eq!(
        validator.validate(&BOMChangeEvent::ComponentUpdated(
            Uuid::new_v4().as_u128(),
            qty
        )),
        Ok(())
    );
}

#[test]
fn test_validate_component_updated_with_invalid_quantity() {
    let validator = BOMChangeEventValidator;
    let qty = 0;

    assert_eq!(
        validator.validate(&BOMChangeEvent::ComponentUpdated(
            Uuid::new_v4().as_u128(),
            qty
        )),
        Err(ValidationError(
            "Quantity must be greater than 0".to_string()
        ))
    );
}

#[test]
fn test_validate_component_removed() {
    let validator = BOMChangeEventValidator;
    let test_component = create_test_component();

    assert_eq!(
        validator.validate(&BOMChangeEvent::ComponentRemoved(test_component)),
        Ok(())
    );
}

#[test]
fn test_whitespace_only_name_is_rejected() {
    let validator = BOMChangeEventValidator;

    assert_eq!(
        validator.validate(&BOMChangeEvent::NameChanged("\t \n".to_string())),
        Err(ValidationError("Invalid name input".to_string()))
    );
}
