//! Conversions between persisted parts and domain values: association rows,
//! catalog assignment for new components, and the join that assembles a
//! BOM's component list from its snapshot, association rows and catalog
//! entries.

use vstd::prelude::*;

use crate::domain::models::bom::BomView;
use crate::domain::models::bom::BOM;
use crate::domain::models::component::Component;
use crate::domain::models::component::ComponentView;
use crate::domain::models::component::CountedComponent;
use crate::domain::models::component::CountedComponentView;
use crate::domain::models::diff::ConversionError;
use crate::domain::newtypes::new_component::NewComponent;
use crate::fresh::fresh_id;

verus! {

/// One association row: which component a BOM holds, and in what quantity.
#[derive(Debug, Clone, Copy, PartialEq)]
pub struct BomComponent {
    pub bom_id: u128,
    pub component_id: u128,
    pub quantity: i32,
}

impl BomComponent {
    pub fn new(bom_id: u128, component_id: u128, quantity: i32) -> (r: Self)
        ensures
            r == (BomComponent { bom_id, component_id, quantity }),
    {
        BomComponent { bom_id, component_id, quantity }
    }

    /// The association row a counted component of the given BOM stands for.
    pub fn from(value: (&u128, &CountedComponent)) -> (r: Self)
        ensures
            r == (BomComponent {
                bom_id: *value.0,
                component_id: value.1.component.id,
                quantity: value.1.quantity,
            }),
    {
        BomComponent {
            bom_id: *value.0,
            component_id: value.1.component.id,
            quantity: value.1.quantity,
        }
    }
}

/// The association rows of a whole component collection, in order.
pub fn transform_counted_components(bom_id: &u128, counted_components: &Vec<CountedComponent>) -> (r:
    Vec<BomComponent>)
    ensures
        r@.len() == counted_components@.len(),
        forall|i: int|
            0 <= i < r@.len() ==> r@[i] == (BomComponent {
                bom_id: *bom_id,
                component_id: counted_components.deep_view()[i].component.id,
                quantity: counted_components.deep_view()[i].quantity,
            }),
{
    let n = counted_components.len();
    let mut out: Vec<BomComponent> = Vec::new();
    let mut i: usize = 0;
    while i < n
        invariant
            0 <= i <= n,
            n == counted_components@.len(),
            out@.len() == i,
            forall|j: int|
                0 <= j < i ==> out@[j] == (BomComponent {
                    bom_id: *bom_id,
                    component_id: counted_components.deep_view()[j].component.id,
                    quantity: counted_components.deep_view()[j].quantity,
                }),
        decreases n - i,
    {
        out.push(BomComponent::from((bom_id, &counted_components[i])));
        i += 1;
    }
    out
}

/// A catalog component built from a submitted payload, under a freshly
/// drawn identifier.
pub fn component_from_new(value: NewComponent) -> (r: Component)
    ensures
        r@.name == value.name@,
        r@.part_number == value.part_number@,
        r@.description == value.description.deep_view(),
        r@.supplier == value.supplier@,
        r@.price == value.price@,
{
    Component {
        id: fresh_id(),
        name: value.name,
        part_number: value.part_number,
        description: value.description,
        supplier: value.supplier,
        price: value.price,
    }
}

/// The first catalog entry with the given identifier.
pub open spec fn find_catalog(catalog: Seq<ComponentView>, id: u128) -> Option<ComponentView>
    decreases catalog.len(),
{
    if catalog.len() == 0 {
        None
    } else if catalog[0].id == id {
        Some(catalog[0])
    } else {
        find_catalog(catalog.subrange(1, catalog.len() as int), id)
    }
}

/// Whether every association row's component occurs in the catalog.
pub open spec fn join_ok(assocs: Seq<BomComponent>, catalog: Seq<ComponentView>) -> bool {
    forall|i: int| 0 <= i < assocs.len() ==> find_catalog(catalog, assocs[i].component_id) is Some
}

/// The component collection the join produces: each association row paired
/// with its catalog entry, in association order.
pub open spec fn joined_components(
    assocs: Seq<BomComponent>,
    catalog: Seq<ComponentView>,
) -> Seq<CountedComponentView> {
    Seq::new(
        assocs.len(),
        |i: int|
            CountedComponentView {
                component: find_catalog(catalog, assocs[i].component_id)->Some_0,
                quantity: assocs[i].quantity,
            },
    )
}

/// A first catalog match at index `i`, with no earlier match, is what
/// `find_catalog` returns.
proof fn lemma_find_catalog_at(catalog: Seq<ComponentView>, id: u128, i: int)
    requires
        0 <= i < catalog.len(),
        catalog[i].id == id,
        forall|j: int| 0 <= j < i ==> catalog[j].id != id,
    ensures
        find_catalog(catalog, id) == Some(catalog[i]),
    decreases i,
{
    if i > 0 {
        let rest = catalog.subrange(1, catalog.len() as int);
        lemma_find_catalog_at(rest, id, i - 1);
    }
}

/// With no catalog match anywhere, `find_catalog` returns nothing.
proof fn lemma_find_catalog_none(catalog: Seq<ComponentView>, id: u128)
    requires
        forall|j: int| 0 <= j < catalog.len() ==> catalog[j].id != id,
    ensures
        find_catalog(catalog, id) is None,
    decreases catalog.len(),
{
    if catalog.len() > 0 {
        lemma_find_catalog_none(catalog.subrange(1, catalog.len() as int), id);
    }
}

/// The first catalog component with the given identifier.
fn find_catalog_component(catalog: &Vec<Component>, id: u128) -> (r: Option<&Component>)
    ensures
        match r {
            Some(c) => find_catalog(catalog.deep_view(), id) == Some(c@),
            None => find_catalog(catalog.deep_view(), id) is None,
        },
{
    let n = catalog.len();
    let mut i: usize = 0;
    while i < n
        invariant
            0 <= i <= n,
            n == catalog@.len(),
            forall|j: int| 0 <= j < i ==> catalog.deep_view()[j].id != id,
        decreases n - i,
    {
        if catalog[i].id == id {
            proof {
                lemma_find_catalog_at(catalog.deep_view(), id, i as int);
            }
            return Some(&catalog[i]);
        }
        i += 1;
    }
    proof {
        lemma_find_catalog_none(catalog.deep_view(), id);
    }
    None
}

/// Assemble a BOM from its persisted parts: the snapshot row carries
/// identity, name, description, version and timestamps, and each
/// association row is joined with its catalog entry to rebuild the
/// component collection. An association whose component is missing from
/// the catalog is a defect, surfaced as a [`ConversionError`].
pub fn assemble_bom(bom: BOM, associations: &Vec<BomComponent>, catalog: &Vec<Component>) -> (r:
    Result<BOM, ConversionError>)
    ensures
        match r {
            Ok(b) => {
                &&& join_ok(associations@, catalog.deep_view())
                &&& b@ == (BomView {
                    components: joined_components(associations@, catalog.deep_view()),
                    ..bom@
                })
            },
            Err(e) => {
                &&& !join_ok(associations@, catalog.deep_view())
                &&& e@ == "Component not found"@
            },
        },
{
    let ghost orig = bom@;
    let ghost assocs = associations@;
    let ghost cat = catalog.deep_view();
    let mut components: Vec<CountedComponent> = Vec::new();
    let n = associations.len();
    let mut i: usize = 0;
    proof {
        assert(components.deep_view() =~= Seq::<CountedComponentView>::empty());
    }
    while i < n
        invariant
            0 <= i <= n,
            n == assocs.len(),
            assocs == associations@,
            cat == catalog.deep_view(),
            forall|j: int| 0 <= j < i ==> find_catalog(cat, assocs[j].component_id) is Some,
            components.deep_view() == joined_components(assocs, cat).take(i as int),
        decreases n - i,
    {
        let assoc = &associations[i];
        match find_catalog_component(catalog, assoc.component_id) {
            Some(c) => {
                let ghost before = components.deep_view();
                components.push(CountedComponent::new(c.clone(), assoc.quantity));
                proof {
                    assert(components.deep_view() =~= before.push(
                        CountedComponentView { component: c@, quantity: assoc.quantity },
                    ));
                    assert(components.deep_view() =~= joined_components(assocs, cat).take(
                        i as int + 1,
                    ));
                }
            },
            None => {
                proof {
                    assert(find_catalog(cat, assocs[i as int].component_id) is None);
                    assert(!join_ok(assocs, cat));
                }
                return Err(ConversionError::new("Component not found".to_owned()));
            },
        }
        i += 1;
    }
    let mut result = bom;
    result.components = components;
    proof {
        assert(joined_components(assocs, cat).take(n as int) =~= joined_components(assocs, cat));
        assert(result@ =~= (BomView {
            components: joined_components(assocs, cat),
            ..orig
        }));
    }
    Ok(result)
}

} // verus!
