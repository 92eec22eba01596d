//! Catalog components and the (component, quantity) pairs a BOM holds.

use vstd::prelude::*;

verus! {

/// A monetary amount in minor units together with its currency code.
#[derive(Debug, PartialEq)]
pub struct Price {
    pub value: i64,
    pub currency: String,
}

/// The mathematical value of a [`Price`].
#[verifier::ext_equal]
pub ghost struct PriceView {
    pub value: i64,
    pub currency: Seq<char>,
}

impl View for Price {
    type V = PriceView;

    open spec fn view(&self) -> PriceView {
        PriceView { value: self.value, currency: self.currency@ }
    }
}

impl Clone for Price {
    fn clone(&self) -> (r: Self)
        ensures
            r == *self,
    {
        Price { value: self.value, currency: self.currency.clone() }
    }
}

/// An immutable catalog entry. Change events embed full copies of it, so
/// replaying history never needs a catalog lookup.
#[derive(Debug, PartialEq)]
pub struct Component {
    pub id: u128,
    pub name: String,
    pub part_number: String,
    pub description: Option<String>,
    pub supplier: String,
    pub price: Price,
}

/// The mathematical value of a [`Component`].
#[verifier::ext_equal]
pub ghost struct ComponentView {
    pub id: u128,
    pub name: Seq<char>,
    pub part_number: Seq<char>,
    pub description: Option<Seq<char>>,
    pub supplier: Seq<char>,
    pub price: PriceView,
}

impl View for Component {
    type V = ComponentView;

    open spec fn view(&self) -> ComponentView {
        ComponentView {
            id: self.id,
            name: self.name@,
            part_number: self.part_number@,
            description: match self.description {
                Some(d) => Some(d@),
                None => None,
            },
            supplier: self.supplier@,
            price: self.price@,
        }
    }
}

impl DeepView for Component {
    type V = ComponentView;

    open spec fn deep_view(&self) -> ComponentView {
        self.view()
    }
}

impl Clone for Component {
    fn clone(&self) -> (r: Self)
        ensures
            r == *self,
    {
        Component {
            id: self.id,
            name: self.name.clone(),
            part_number: self.part_number.clone(),
            description: match &self.description {
                Some(d) => Some(d.clone()),
                None => None,
            },
            supplier: self.supplier.clone(),
            price: self.price.clone(),
        }
    }
}

/// A component together with the quantity of it that a BOM holds.
#[derive(Debug, PartialEq)]
pub struct CountedComponent {
    pub component: Component,
    pub quantity: i32,
}

/// The mathematical value of a [`CountedComponent`].
#[verifier::ext_equal]
pub ghost struct CountedComponentView {
    pub component: ComponentView,
    pub quantity: i32,
}

impl View for CountedComponent {
    type V = CountedComponentView;

    open spec fn view(&self) -> CountedComponentView {
        CountedComponentView { component: self.component@, quantity: self.quantity }
    }
}

impl DeepView for CountedComponent {
    type V = CountedComponentView;

    open spec fn deep_view(&self) -> CountedComponentView {
        self.view()
    }
}

impl Clone for CountedComponent {
    fn clone(&self) -> (r: Self)
        ensures
            r == *self,
    {
        CountedComponent { component: self.component.clone(), quantity: self.quantity }
    }
}

impl CountedComponent {
    pub fn new(component: Component, quantity: i32) -> (r: Self)
        ensures
            r == (CountedComponent { component, quantity }),
    {
        CountedComponent { component, quantity }
    }
}

} // verus!
