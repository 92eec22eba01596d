//! The closed set of atomic mutations that can be applied to a BOM.

use vstd::prelude::*;

use super::component::Component;
use super::component::ComponentView;

verus! {

/// One atomic, replayable change to a BOM. Component payloads are embedded in
/// full, so a stored event can be replayed without any catalog lookup.
#[derive(Debug, PartialEq)]
pub enum BOMChangeEvent {
    NameChanged(String),
    DescriptionChanged(String),
    ComponentAdded(Component, i32),
    ComponentRemoved(Component),
    ComponentUpdated(u128, i32),
}

/// The mathematical value of a [`BOMChangeEvent`].
#[verifier::ext_equal]
pub ghost enum BOMChangeEventView {
    NameChanged(Seq<char>),
    DescriptionChanged(Seq<char>),
    ComponentAdded(ComponentView, i32),
    ComponentRemoved(ComponentView),
    ComponentUpdated(u128, i32),
}

impl View for BOMChangeEvent {
    type V = BOMChangeEventView;

    open spec fn view(&self) -> BOMChangeEventView {
        match self {
            BOMChangeEvent::NameChanged(name) => BOMChangeEventView::NameChanged(name@),
            BOMChangeEvent::DescriptionChanged(description) => BOMChangeEventView::DescriptionChanged(
                description@,
            ),
            BOMChangeEvent::ComponentAdded(component, qty) => BOMChangeEventView::ComponentAdded(
                component@,
                *qty,
            ),
            BOMChangeEvent::ComponentRemoved(component) => BOMChangeEventView::ComponentRemoved(
                component@,
            ),
            BOMChangeEvent::ComponentUpdated(id, qty) => BOMChangeEventView::ComponentUpdated(
                *id,
                *qty,
            ),
        }
    }
}

impl DeepView for BOMChangeEvent {
    type V = BOMChangeEventView;

    open spec fn deep_view(&self) -> BOMChangeEventView {
        self.view()
    }
}

impl Clone for BOMChangeEvent {
    fn clone(&self) -> (r: Self)
        ensures
            r == *self,
    {
        match self {
            BOMChangeEvent::NameChanged(name) => BOMChangeEvent::NameChanged(name.clone()),
            BOMChangeEvent::DescriptionChanged(description) => BOMChangeEvent::DescriptionChanged(
                description.clone(),
            ),
            BOMChangeEvent::ComponentAdded(component, qty) => BOMChangeEvent::ComponentAdded(
                component.clone(),
                *qty,
            ),
            BOMChangeEvent::ComponentRemoved(component) => BOMChangeEvent::ComponentRemoved(
                component.clone(),
            ),
            BOMChangeEvent::ComponentUpdated(id, qty) => BOMChangeEvent::ComponentUpdated(*id, *qty),
        }
    }
}

} // verus!
