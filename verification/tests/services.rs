use bom_version_control::domain::error::DomainError;
use bom_version_control::domain::newtypes::new_bom::NewBOM;
use bom_version_control::domain::newtypes::new_component::NewComponent;
use bom_version_control::domain::BOMChangeEvent;
use bom_version_control::domain::Component;
use bom_version_control::domain::CountedComponent;
use bom_version_control::domain::PartialDiff;
use bom_version_control::domain::Price;
use bom_version_control::domain::BOM;
use bom_version_control::services::bom_service::find_bom_by_version_and_id;
use bom_version_control::services::bom_service::get_bom_diff;
use bom_version_control::services::bom_service::insert_bom;
use bom_version_control::services::bom_service::revert_bom_to_version;
use bom_version_control::services::bom_service::update_bom;
use bom_version_control::services::bom_service::UpdateOperation;
use bom_version_control::services::converters::assemble_bom;
use bom_version_control::services::converters::component_from_new;
use bom_version_control::services::converters::transform_counted_components;
use bom_version_control::services::converters::BomComponent;
use bom_version_control::services::error::ServiceError;
use uuid::Uuid;

fn test_component() -> Component {
    Component {
        id: Uuid::new_v4().as_u128(),
        name: "TestComp".to_string(),
        part_number: "123456".to_string(),
        description: Some("TestComponentDescription".to_string()),
        supplier: "TestSupplier".to_string(),
        price: Price {
            value: 100,
            currency: "EUR".to_string(),
        },
    }
}

/// A freshly created BOM named "TestBom" holding one component at
/// quantity one, together with its creation log entry.
fn create_test_bom() -> (BOM, bom_version_control::domain::BomVersion, Component) {
    let comp = test_component();
    let new_bom = NewBOM::new(vec![
        BOMChangeEvent::NameChanged("TestBom".to_string()),
        BOMChangeEvent::ComponentAdded(comp.clone(), 1),
    ]);
    let (bom, entry) = insert_bom(&new_bom).expect("creation must succeed");
    (bom, entry, comp)
}

#[test]
fn create_bom_commits_version_one() {
    let (bom, entry, comp) = create_test_bom();

    assert_eq!(bom.version, 1);
    assert_eq!(bom.name, "TestBom");
    assert_eq!(bom.description, None);
    assert_eq!(bom.components, vec![CountedComponent::new(comp, 1)]);
    assert_eq!(entry.bom_id, bom.id);
    assert_eq!(entry.version, 0);
    assert_eq!(entry.changes.len(), 2);
}

#[test]
fn create_bom_without_name_is_rejected() {
    let comp = test_component();
    let new_bom = NewBOM::new(vec![BOMChangeEvent::ComponentAdded(comp, 1)]);

    let result = insert_bom(&new_bom);

    assert_eq!(
        result.err().unwrap(),
        ServiceError::DomainError(DomainError::ValidationError(
            "Creating a BOM without name is not allowed. Please provide a name".to_string()
        ))
    );
}

#[test]
fn scenario_create_update_and_inspect_history() {
    let (bom, entry0, comp) = create_test_bom();

    let (updated, entry1) = update_bom(
        bom.clone(),
        Box::new(vec![
            BOMChangeEvent::ComponentUpdated(comp.id, 2),
            BOMChangeEvent::NameChanged("UpdatedName".to_string()),
        ]),
        UpdateOperation::Incremental,
    )
    .expect("update must succeed");

    assert_eq!(updated.version, 2);
    assert_eq!(updated.name, "UpdatedName");
    assert_eq!(
        updated.components,
        vec![CountedComponent::new(comp.clone(), 2)]
    );
    assert_eq!(entry1.version, 1);

    let old_bom = find_bom_by_version_and_id(&updated, &vec![entry0.clone()], 1)
        .expect("version one must be reconstructable");

    assert_eq!(old_bom.id, bom.id);
    assert_eq!(old_bom.version, 1);
    assert_eq!(old_bom.name, "TestBom");
    assert_eq!(
        old_bom.components,
        vec![CountedComponent::new(comp.clone(), 1)]
    );

    let diff = get_bom_diff(&vec![entry0, entry1], 1, 2).expect("diff must succeed");

    assert_eq!(
        diff.name_changed,
        Some(PartialDiff {
            from: "TestBom".to_string(),
            to: "UpdatedName".to_string()
        })
    );
    assert_eq!(diff.description_changed, None);
    assert_eq!(
        diff.components_updated.get(&comp.id),
        Some(&PartialDiff {
            from: (comp.clone(), 1),
            to: (comp.clone(), 2)
        })
    );
    assert!(diff.components_added.is_empty());
    assert!(diff.components_removed.is_empty());
}

#[test]
fn scenario_revert_restores_old_content_under_new_version() {
    let (bom, entry0, comp) = create_test_bom();

    let (updated, _entry1) = update_bom(
        bom,
        Box::new(vec![
            BOMChangeEvent::ComponentUpdated(comp.id, 2),
            BOMChangeEvent::NameChanged("UpdatedName".to_string()),
        ]),
        UpdateOperation::Incremental,
    )
    .expect("update must succeed");

    let (reverted, entry2) = revert_bom_to_version(updated.clone(), &vec![entry0], 1)
        .expect("revert must succeed");

    assert_eq!(reverted.id, updated.id);
    assert_eq!(reverted.version, 3);
    assert_eq!(reverted.name, "TestBom");
    assert_eq!(reverted.description, None);
    assert_eq!(reverted.components, vec![CountedComponent::new(comp, 1)]);
    assert_eq!(entry2.version, 2);
}

#[test]
fn replaying_the_same_prefix_twice_is_deterministic() {
    let (bom, entry0, _comp) = create_test_bom();

    let versions = vec![entry0];
    let first = find_bom_by_version_and_id(&bom, &versions, 1).expect("replay must succeed");
    let second = find_bom_by_version_and_id(&bom, &versions, 1).expect("replay must succeed");

    assert_eq!(first, second);
}

#[test]
fn created_bom_round_trips_through_its_log() {
    let (bom, entry0, _comp) = create_test_bom();

    let reconstructed = find_bom_by_version_and_id(&bom, &vec![entry0], 1)
        .expect("replay must succeed");

    assert_eq!(reconstructed, bom);
}

#[test]
fn version_beyond_history_is_not_found() {
    let (bom, _entry0, _comp) = create_test_bom();

    let result = find_bom_by_version_and_id(&bom, &vec![], 2);

    assert_eq!(
        result.err().unwrap(),
        ServiceError::InvalidData("Version not found".to_string())
    );
}

#[test]
fn revert_beyond_history_is_not_found() {
    let (bom, _entry0, _comp) = create_test_bom();

    let result = revert_bom_to_version(bom, &vec![], 5);

    assert_eq!(
        result.err().unwrap(),
        ServiceError::InvalidData("Version not found".to_string())
    );
}

#[test]
fn update_with_invalid_event_is_rejected() {
    let (bom, _entry0, _comp) = create_test_bom();

    let result = update_bom(
        bom,
        Box::new(vec![BOMChangeEvent::NameChanged("bad/name".to_string())]),
        UpdateOperation::Incremental,
    );

    assert_eq!(
        result.err().unwrap(),
        ServiceError::DomainError(DomainError::ValidationError(
            "Invalid name input".to_string()
        ))
    );
}

#[test]
fn diff_with_empty_range_is_rejected() {
    let (_bom, entry0, _comp) = create_test_bom();

    let result = get_bom_diff(&vec![entry0], 1, 1);

    assert_eq!(
        result.err().unwrap(),
        ServiceError::InvalidData("Invalid version range".to_string())
    );
}

#[test]
fn assemble_bom_joins_associations_with_catalog() {
    let (bom, _entry0, comp) = create_test_bom();

    let associations = transform_counted_components(&bom.id, &bom.components);
    let catalog = vec![comp.clone()];

    let snapshot = BOM {
        components: Vec::new(),
        ..bom.clone()
    };
    let assembled = assemble_bom(snapshot, &associations, &catalog).expect("join must succeed");

    assert_eq!(assembled.id, bom.id);
    assert_eq!(assembled.name, bom.name);
    assert_eq!(assembled.version, bom.version);
    assert_eq!(assembled.components, vec![CountedComponent::new(comp, 1)]);
}

#[test]
fn assemble_bom_with_missing_component_is_a_defect() {
    let (bom, _entry0, _comp) = create_test_bom();

    let associations = vec![BomComponent::new(bom.id, Uuid::new_v4().as_u128(), 1)];
    let catalog: Vec<Component> = vec![];

    let result = assemble_bom(bom, &associations, &catalog);

    assert_eq!(
        result.err().unwrap().message().as_str(),
        "Component not found"
    );
}

#[test]
fn association_rows_carry_bom_component_and_quantity() {
    let comp = test_component();
    let bom_id = Uuid::new_v4().as_u128();
    let counted = vec![CountedComponent::new(comp.clone(), 4)];

    let rows = transform_counted_components(&bom_id, &counted);

    assert_eq!(rows, vec![BomComponent::new(bom_id, comp.id, 4)]);
    assert_eq!(rows[0], BomComponent::from((&bom_id, &counted[0])));
}

#[test]
fn new_component_keeps_its_submitted_fields() {
    let new_component = NewComponent::new(
        "TestComp".to_string(),
        "123456".to_string(),
        Some("TestComponentDescription".to_string()),
        "TestSupplier".to_string(),
        Price {
            value: 100,
            currency: "EUR".to_string(),
        },
    );

    let component = component_from_new(new_component);

    assert_eq!(component.name, "TestComp");
    assert_eq!(component.part_number, "123456");
    assert_eq!(
        component.description,
        Some("TestComponentDescription".to_string())
    );
    assert_eq!(component.supplier, "TestSupplier");
    assert_eq!(component.price.value, 100);
    assert_eq!(component.price.currency, "EUR");
}
