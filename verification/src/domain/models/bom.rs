//! The BOM aggregate and its reducer.
//!
//! A [`BOM`] is the mutable projection of an ordered event history. Its one
//! state-transition operation is [`BOM::apply_change`], which gates every
//! event through a [`Validator`] and, on acceptance, performs exactly the
//! mutation the event describes. The spec-level reducer ([`apply_event`],
//! [`apply_events_content`]) is what every contract of this library speaks
//! of.

use vstd::prelude::*;

use super::bom_change_event::BOMChangeEvent;
use super::bom_change_event::BOMChangeEventView;
use super::component::CountedComponent;
use super::component::CountedComponentView;
use crate::domain::error::DomainError;
use crate::domain::error::DomainErrorView;
use crate::domain::newtypes::new_bom::NewBOM;
use crate::domain::validation::event_valid;
use crate::domain::validation::rejection_reason;
use crate::domain::validation::BOMChangeEventValidator;
use crate::domain::validation::Validator;
use crate::fresh::fresh_id;
use crate::fresh::now_micros;

verus! {

/// The aggregate: identity, name, description, version counter and the
/// collection of counted components, keyed by component identifier.
#[derive(Debug, PartialEq)]
pub struct BOM {
    pub id: u128,
    pub name: String,
    pub version: i32,
    pub description: Option<String>,
    pub components: Vec<CountedComponent>,
    pub created_at: i64,
    pub updated_at: i64,
}

/// The mathematical value of a [`BOM`].
#[verifier::ext_equal]
pub ghost struct BomView {
    pub id: u128,
    pub name: Seq<char>,
    pub version: i32,
    pub description: Option<Seq<char>>,
    pub components: Seq<CountedComponentView>,
    pub created_at: i64,
    pub updated_at: i64,
}

impl View for BOM {
    type V = BomView;

    open spec fn view(&self) -> BomView {
        BomView {
            id: self.id,
            name: self.name@,
            version: self.version,
            description: self.description.deep_view(),
            components: self.components.deep_view(),
            created_at: self.created_at,
            updated_at: self.updated_at,
        }
    }
}

impl Clone for BOM {
    fn clone(&self) -> (r: Self)
        ensures
            r@ == self@,
    {
        let r = BOM {
            id: self.id,
            name: self.name.clone(),
            version: self.version,
            description: match &self.description {
                Some(d) => Some(d.clone()),
                None => None,
            },
            components: self.components.clone(),
            created_at: self.created_at,
            updated_at: self.updated_at,
        };
        proof {
            assert(r.components.deep_view() =~= self.components.deep_view());
            assert(r@ =~= self@);
        }
        r
    }
}

/// The part of a BOM that change events act on: name, description and the
/// component collection. Identity, version and timestamps are governed by
/// the version log, not by the reducer.
#[verifier::ext_equal]
pub ghost struct BomContent {
    pub name: Seq<char>,
    pub description: Option<Seq<char>>,
    pub components: Seq<CountedComponentView>,
}

/// The event-visible content of a BOM state.
pub open spec fn content_of(b: BomView) -> BomContent {
    BomContent { name: b.name, description: b.description, components: b.components }
}

/// `b` with its event-visible content replaced by `c`.
pub open spec fn with_content(b: BomView, c: BomContent) -> BomView {
    BomView {
        id: b.id,
        name: c.name,
        version: b.version,
        description: c.description,
        components: c.components,
        created_at: b.created_at,
        updated_at: b.updated_at,
    }
}

/// The content of a default (empty) BOM.
pub open spec fn empty_content() -> BomContent {
    BomContent {
        name: Seq::<char>::empty(),
        description: None,
        components: Seq::<CountedComponentView>::empty(),
    }
}

/// The component collection with every entry of the given component
/// identifier deleted.
pub open spec fn remove_component(
    s: Seq<CountedComponentView>,
    id: u128,
) -> Seq<CountedComponentView>
    decreases s.len(),
{
    if s.len() == 0 {
        Seq::<CountedComponentView>::empty()
    } else {
        let rest = remove_component(s.drop_last(), id);
        if s.last().component.id == id {
            rest
        } else {
            rest.push(s.last())
        }
    }
}

/// The component collection with the quantity of every entry of the given
/// component identifier set to `qty`; entries of other identifiers stay.
pub open spec fn update_quantity(
    s: Seq<CountedComponentView>,
    id: u128,
    qty: i32,
) -> Seq<CountedComponentView> {
    Seq::new(
        s.len(),
        |i: int|
            if s[i].component.id == id {
                CountedComponentView { component: s[i].component, quantity: qty }
            } else {
                s[i]
            },
    )
}

/// What one accepted change event does to the content of a BOM.
pub open spec fn apply_event_content(c: BomContent, e: BOMChangeEventView) -> BomContent {
    match e {
        BOMChangeEventView::NameChanged(name) => BomContent {
            name,
            description: c.description,
            components: c.components,
        },
        BOMChangeEventView::DescriptionChanged(description) => BomContent {
            name: c.name,
            description: Some(description),
            components: c.components,
        },
        BOMChangeEventView::ComponentAdded(component, qty) => BomContent {
            name: c.name,
            description: c.description,
            components: c.components.push(CountedComponentView { component, quantity: qty }),
        },
        BOMChangeEventView::ComponentRemoved(component) => BomContent {
            name: c.name,
            description: c.description,
            components: remove_component(c.components, component.id),
        },
        BOMChangeEventView::ComponentUpdated(id, qty) => BomContent {
            name: c.name,
            description: c.description,
            components: update_quantity(c.components, id, qty),
        },
    }
}

/// What one accepted change event does to a BOM state.
pub open spec fn apply_event(b: BomView, e: BOMChangeEventView) -> BomView {
    with_content(b, apply_event_content(content_of(b), e))
}

/// The content reached by folding a whole event sequence, in order.
pub open spec fn apply_events_content(
    c: BomContent,
    events: Seq<BOMChangeEventView>,
) -> BomContent
    decreases events.len(),
{
    if events.len() == 0 {
        c
    } else {
        apply_event_content(apply_events_content(c, events.drop_last()), events.last())
    }
}

/// The content of a BOM built from scratch out of an event sequence.
pub open spec fn replayed_content(events: Seq<BOMChangeEventView>) -> BomContent {
    apply_events_content(empty_content(), events)
}

/// Whether every event of the sequence passes the standard validator.
pub open spec fn all_events_valid(events: Seq<BOMChangeEventView>) -> bool {
    forall|i: int| 0 <= i < events.len() ==> event_valid(events[i])
}

/// The index of the first event the standard validator rejects.
pub open spec fn first_invalid(events: Seq<BOMChangeEventView>) -> int
    decreases events.len(),
{
    if events.len() == 0 {
        0
    } else if !event_valid(events[0]) {
        0
    } else {
        1 + first_invalid(events.subrange(1, events.len() as int))
    }
}

/// Whether the sequence holds a name-change event.
pub open spec fn has_name_event(events: Seq<BOMChangeEventView>) -> bool {
    exists|i: int| 0 <= i < events.len() && events[i] is NameChanged
}

/// Whether a candidate event list can construct a BOM from scratch: it is
/// non-empty, holds a name change and every event passes the standard
/// validator.
pub open spec fn creation_ok(events: Seq<BOMChangeEventView>) -> bool {
    events.len() > 0 && has_name_event(events) && all_events_valid(events)
}

/// The message with which construction from the event list fails.
pub open spec fn creation_error_message(events: Seq<BOMChangeEventView>) -> Seq<char> {
    if events.len() == 0 {
        "Unable to construct BOM without input"@
    } else if !has_name_event(events) {
        "Creating a BOM without name is not allowed. Please provide a name"@
    } else {
        rejection_reason(events[first_invalid(events)])
    }
}

/// A prefix of valid events followed by an invalid one pins down
/// `first_invalid`.
pub(crate) proof fn lemma_first_invalid_at(events: Seq<BOMChangeEventView>, i: int)
    requires
        0 <= i < events.len(),
        forall|j: int| 0 <= j < i ==> event_valid(events[j]),
        !event_valid(events[i]),
    ensures
        first_invalid(events) == i,
    decreases i,
{
    if i > 0 {
        let rest = events.subrange(1, events.len() as int);
        lemma_first_invalid_at(rest, i - 1);
    }
}

impl Default for BOM {
    /// A default, empty aggregate: fresh identity, empty name, version 0,
    /// no description, no components, both timestamps drawn from the clock.
    fn default() -> (r: Self)
        ensures
            r@.name == Seq::<char>::empty(),
            r@.version == 0,
            r@.description is None,
            r@.components == Seq::<CountedComponentView>::empty(),
    {
        let r = BOM {
            id: fresh_id(),
            name: String::new(),
            version: 0,
            description: None,
            components: Vec::new(),
            created_at: now_micros(),
            updated_at: now_micros(),
        };
        proof {
            assert(r.components.deep_view() =~= Seq::<CountedComponentView>::empty());
        }
        r
    }
}

impl BOM {
    /// Gate `event` through `validator` and, on acceptance, perform exactly
    /// the mutation the event describes. A rejected event leaves the
    /// aggregate untouched and surfaces the validator's message.
    pub fn apply_change<T: Validator<BOMChangeEvent>>(
        &mut self,
        event: &BOMChangeEvent,
        validator: T,
    ) -> (r: Result<(), DomainError>)
        ensures
            match r {
                Ok(_) => validator.accepts(event@) && final(self)@ == apply_event(
                    old(self)@,
                    event@,
                ),
                Err(e) => {
                    &&& !validator.accepts(event@)
                    &&& final(self)@ == old(self)@
                    &&& e@ == DomainErrorView::ValidationError(validator.reason(event@))
                },
            },
    {
        match validator.validate(event) {
            Err(e) => Err(DomainError::ValidationError(e.0)),
            Ok(_) => {
                match event {
                    BOMChangeEvent::NameChanged(name) => {
                        self.name = name.clone();
                        proof {
                            assert(self@ =~= apply_event(old(self)@, event@));
                        }
                    },
                    BOMChangeEvent::DescriptionChanged(description) => {
                        self.description = Some(description.clone());
                        proof {
                            assert(self@ =~= apply_event(old(self)@, event@));
                        }
                    },
                    BOMChangeEvent::ComponentAdded(component, qty) => {
                        let ghost before = self.components.deep_view();
                        self.components.push(CountedComponent::new(component.clone(), *qty));
                        proof {
                            assert(self.components.deep_view() =~= before.push(
                                CountedComponentView { component: component@, quantity: *qty },
                            ));
                            assert(self@ =~= apply_event(old(self)@, event@));
                        }
                    },
                    BOMChangeEvent::ComponentRemoved(component) => {
                        let ghost dv = self.components.deep_view();
                        let cid = component.id;
                        let n = self.components.len();
                        let mut kept: Vec<CountedComponent> = Vec::new();
                        let mut i: usize = 0;
                        while i < n
                            invariant
                                n == self.components.len(),
                                dv == self.components.deep_view(),
                                0 <= i <= n,
                                kept.deep_view() == remove_component(dv.take(i as int), cid),
                            decreases n - i,
                        {
                            proof {
                                assert(dv.take(i as int + 1).drop_last() =~= dv.take(i as int));
                            }
                            let ghost kept_before = kept.deep_view();
                            let cc = &self.components[i];
                            if cc.component.id != cid {
                                kept.push(cc.clone());
                                proof {
                                    assert(kept.deep_view() =~= kept_before.push(dv[i as int]));
                                }
                            }
                            i += 1;
                        }
                        proof {
                            assert(dv.take(n as int) =~= dv);
                        }
                        self.components = kept;
                        proof {
                            assert(self@ =~= apply_event(old(self)@, event@));
                        }
                    },
                    BOMChangeEvent::ComponentUpdated(id, qty) => {
                        let ghost dv = self.components.deep_view();
                        let n = self.components.len();
                        let mut i: usize = 0;
                        while i < n
                            invariant
                                n == self.components.len(),
                                dv.len() == n,
                                dv == old(self).components.deep_view(),
                                self.id == old(self).id,
                                self.name == old(self).name,
                                self.version == old(self).version,
                                self.description == old(self).description,
                                self.created_at == old(self).created_at,
                                self.updated_at == old(self).updated_at,
                                0 <= i <= n,
                                forall|j: int| i <= j < n ==> self.components.deep_view()[j]
                                    == dv[j],
                                forall|j: int| 0 <= j < i ==> self.components.deep_view()[j]
                                    == update_quantity(dv, *id, *qty)[j],
                            decreases n - i,
                        {
                            if self.components[i].component.id == *id {
                                let component = self.components[i].component.clone();
                                self.components[i] = CountedComponent {
                                    component,
                                    quantity: *qty,
                                };
                            }
                            i += 1;
                        }
                        proof {
                            assert(self.components.deep_view() =~= update_quantity(
                                dv,
                                *id,
                                *qty,
                            ));
                            assert(self@ =~= apply_event(old(self)@, event@));
                        }
                    },
                }
                Ok(())
            },
        }
    }

    /// Bump the version counter by exactly one. The caller invokes this once
    /// per committed update, not once per event.
    pub fn increment_version(&mut self)
        requires
            old(self).version < i32::MAX,
        ensures
            final(self)@ == (BomView { version: (old(self).version + 1) as i32, ..old(self)@ }),
    {
        self.version = self.version + 1;
        proof {
            assert(self@ =~= (BomView { version: self.version, ..old(self)@ }));
        }
    }

    /// Discard the live description and component state, keeping identity,
    /// name, version and timestamps: the destructive base onto which a
    /// historical event window is replayed.
    pub fn clean_for_revert(&mut self)
        ensures
            final(self)@ == (BomView {
                description: None,
                components: Seq::<CountedComponentView>::empty(),
                ..old(self)@
            }),
    {
        self.description = None;
        self.components = Vec::new();
        proof {
            assert(self.components.deep_view() =~= Seq::<CountedComponentView>::empty());
            assert(self@ =~= (BomView {
                description: None,
                components: Seq::<CountedComponentView>::empty(),
                ..old(self)@
            }));
        }
    }

    /// Construct a BOM from scratch by folding a candidate event list, in
    /// order, through the reducer. The list must be non-empty and must hold
    /// a name change; each event is gated by the standard validator and the
    /// first rejected event aborts the construction.
    pub fn try_from(value: &NewBOM) -> (r: Result<BOM, DomainError>)
        ensures
            match r {
                Ok(bom) => {
                    &&& creation_ok(value.events.deep_view())
                    &&& bom@.version == 0
                    &&& content_of(bom@) == replayed_content(value.events.deep_view())
                },
                Err(e) => {
                    &&& !creation_ok(value.events.deep_view())
                    &&& e@ == DomainErrorView::ValidationError(
                        creation_error_message(value.events.deep_view()),
                    )
                },
            },
    {
        let ghost evs = value.events.deep_view();
        if value.events.len() == 0 {
            return Err(
                DomainError::ValidationError("Unable to construct BOM without input".to_owned()),
            );
        }
        let n = value.events.len();
        let mut has_name = false;
        let mut i: usize = 0;
        while i < n
            invariant
                n == value.events.len(),
                evs == value.events.deep_view(),
                0 <= i <= n,
                has_name <==> exists|j: int| 0 <= j < i && evs[j] is NameChanged,
            decreases n - i,
        {
            let is_name = match &value.events[i] {
                BOMChangeEvent::NameChanged(_) => true,
                _ => false,
            };
            proof {
                assert(evs[i as int] == value.events@[i as int].deep_view());
                assert(is_name == (evs[i as int] is NameChanged));
            }
            if is_name {
                has_name = true;
            }
            i += 1;
        }
        if !has_name {
            return Err(
                DomainError::ValidationError(
                    "Creating a BOM without name is not allowed. Please provide a name".to_owned(),
                ),
            );
        }
        let mut bom = BOM::default();
        let ghost init = bom@;
        proof {
            assert(content_of(init) =~= empty_content());
        }
        let mut k: usize = 0;
        while k < n
            invariant
                n == value.events.len(),
                evs == value.events.deep_view(),
                has_name_event(evs),
                evs.len() > 0,
                0 <= k <= n,
                forall|j: int| 0 <= j < k ==> event_valid(evs[j]),
                bom@ == with_content(init, apply_events_content(empty_content(), evs.take(k as int))),
                init.version == 0,
            decreases n - k,
        {
            let ghost before = bom@;
            match bom.apply_change(&value.events[k], BOMChangeEventValidator) {
                Err(e) => {
                    proof {
                        lemma_first_invalid_at(evs, k as int);
                    }
                    return Err(e);
                },
                Ok(_) => {},
            }
            proof {
                assert(evs.take(k as int + 1).drop_last() =~= evs.take(k as int));
                assert(content_of(before) == apply_events_content(
                    empty_content(),
                    evs.take(k as int),
                ));
                assert(bom@ =~= with_content(
                    init,
                    apply_events_content(empty_content(), evs.take(k as int + 1)),
                ));
            }
            k += 1;
        }
        proof {
            assert(evs.take(n as int) =~= evs);
            assert(content_of(bom@) =~= replayed_content(evs));
        }
        Ok(bom)
    }
}

} // verus!
