//! Structured before/after comparison of two version boundaries.
//!
//! [`BOMDiff::from`] folds an event window, strictly in order, against a
//! fixed base state. Events that touch the same component several times
//! within the window collapse to their net effect: a second addition
//! overwrites the first, an update of a component added in the window
//! mutates the added entry, and a removal cancels the component's transient
//! added or updated entry. The spec-level engine is [`diff_of`].

use vstd::prelude::*;

use super::bom::content_of;
use super::bom::BomContent;
use super::bom_change_event::BOMChangeEvent;
use super::bom_change_event::BOMChangeEventView;
use super::component::Component;
use super::component::ComponentView;
use super::component::CountedComponent;
use super::component::CountedComponentView;
use super::bom::BOM;

verus! {

/// An internal invariant violated while assembling a result.
#[derive(Debug, PartialEq)]
pub struct ConversionError(pub(crate) String);

impl View for ConversionError {
    type V = Seq<char>;

    closed spec fn view(&self) -> Seq<char> {
        self.0@
    }
}

impl ConversionError {
    /// A conversion failure with the given description.
    pub(crate) fn new(message: String) -> (r: Self)
        ensures
            r@ == message@,
    {
        ConversionError(message)
    }

    /// The description of the violated invariant.
    pub fn message(&self) -> (r: &String)
        ensures
            r@ == self@,
    {
        &self.0
    }
}

/// A before/after pair for one field.
#[derive(Debug, PartialEq)]
pub struct PartialDiff<T> {
    pub from: T,
    pub to: T,
}

/// The mathematical value of a [`PartialDiff`].
#[verifier::ext_equal]
pub ghost struct PartialDiffView<T> {
    pub from: T,
    pub to: T,
}

impl<T: View> View for PartialDiff<T> {
    type V = PartialDiffView<T::V>;

    open spec fn view(&self) -> PartialDiffView<T::V> {
        PartialDiffView { from: self.from@, to: self.to@ }
    }
}

/// A set keyed by component identifier, with at most one entry per key.
/// Its mathematical value is a [`Map`] from identifier to the value's view.
#[derive(Debug)]
pub struct DiffMap<V> {
    entries: Vec<(u128, V)>,
}

impl<V: View> View for DiffMap<V> {
    type V = Map<u128, V::V>;

    closed spec fn view(&self) -> Map<u128, V::V> {
        Self::entries_map(self.entries@)
    }
}

impl<V> DiffMap<V> {
    /// Well-formedness: one entry per key. Constructors establish it and
    /// every method preserves it.
    pub closed spec fn wf(&self) -> bool {
        forall|i: int, j: int|
            0 <= i < j < self.entries@.len() ==> self.entries@[i].0 != self.entries@[j].0
    }
}

impl<V: View> DiffMap<V> {
    /// The map an entry list stands for, later entries overriding earlier
    /// ones.
    spec fn entries_map(s: Seq<(u128, V)>) -> Map<u128, V::V>
        decreases s.len(),
    {
        if s.len() == 0 {
            Map::<u128, V::V>::empty()
        } else {
            Self::entries_map(s.drop_last()).insert(s.last().0, s.last().1@)
        }
    }

    /// With one entry per key, the map holds exactly the listed keys, each
    /// at its listed value.
    proof fn lemma_entries_map_characterize(s: Seq<(u128, V)>)
        requires
            forall|i: int, j: int| 0 <= i < j < s.len() ==> s[i].0 != s[j].0,
        ensures
            forall|k: u128|
                #[trigger] Self::entries_map(s).contains_key(k) <==> exists|i: int|
                    0 <= i < s.len() && s[i].0 == k,
            forall|i: int|
                0 <= i < s.len() ==> Self::entries_map(s).contains_key(#[trigger] s[i].0)
                    && Self::entries_map(s)[s[i].0] == s[i].1@,
        decreases s.len(),
    {
        if s.len() > 0 {
            assert(forall|a: int| 0 <= a < s.len() - 1 ==> s.drop_last()[a] == s[a]);
            Self::lemma_entries_map_characterize(s.drop_last());
            assert forall|k: u128| #[trigger]
                Self::entries_map(s).contains_key(k) implies exists|i: int|
                0 <= i < s.len() && s[i].0 == k by {
                if k == s.last().0 {
                    assert(s[s.len() - 1].0 == k);
                } else {
                    assert(Self::entries_map(s.drop_last()).contains_key(k));
                    let i = choose|i: int|
                        0 <= i < s.drop_last().len() && s.drop_last()[i].0 == k;
                    assert(s[i].0 == k);
                }
            }
            assert forall|i: int| 0 <= i < s.len() implies Self::entries_map(s).contains_key(
                #[trigger] s[i].0,
            ) && Self::entries_map(s)[s[i].0] == s[i].1@ by {
                if i < s.len() - 1 {
                    assert(s.drop_last()[i] == s[i]);
                    assert(s[i].0 != s.last().0);
                }
            }
        }
    }

    /// An empty set.
    pub fn new() -> (r: Self)
        ensures
            r.wf(),
            r@ == Map::<u128, V::V>::empty(),
    {
        let r = DiffMap { entries: Vec::new() };
        proof {
            assert(r.entries@.len() == 0);
        }
        r
    }

    /// Whether no key is present.
    pub fn is_empty(&self) -> (r: bool)
        requires
            self.wf(),
        ensures
            r == (self@ == Map::<u128, V::V>::empty()),
    {
        proof {
            Self::lemma_entries_map_characterize(self.entries@);
            if self.entries@.len() > 0 {
                assert(self@.contains_key(self.entries@[0].0));
            } else {
                assert(self@ =~= Map::<u128, V::V>::empty());
            }
        }
        self.entries.len() == 0
    }

    /// The entries of the set, one per key, in insertion order.
    pub fn entries(&self) -> (r: &Vec<(u128, V)>)
        requires
            self.wf(),
        ensures
            forall|i: int, j: int| 0 <= i < j < r@.len() ==> r@[i].0 != r@[j].0,
            forall|i: int|
                0 <= i < r@.len() ==> self@.contains_key(#[trigger] r@[i].0) && self@[r@[i].0]
                    == r@[i].1@,
            forall|k: u128|
                #[trigger] self@.contains_key(k) ==> exists|i: int|
                    0 <= i < r@.len() && r@[i].0 == k,
    {
        proof {
            Self::lemma_entries_map_characterize(self.entries@);
        }
        &self.entries
    }

    /// The value at `k`, if one is present.
    pub fn get(&self, k: &u128) -> (r: Option<&V>)
        requires
            self.wf(),
        ensures
            match r {
                Some(v) => self@.contains_key(*k) && v@ == self@[*k],
                None => !self@.contains_key(*k),
            },
    {
        proof {
            Self::lemma_entries_map_characterize(self.entries@);
        }
        let n = self.entries.len();
        let mut i: usize = 0;
        while i < n
            invariant
                n == self.entries.len(),
                0 <= i <= n,
                forall|j: int| 0 <= j < i ==> self.entries@[j].0 != *k,
            decreases n - i,
        {
            if self.entries[i].0 == *k {
                return Some(&self.entries[i].1);
            }
            i += 1;
        }
        None
    }

    /// Bind `k` to `v`, replacing any earlier binding.
    pub fn insert(&mut self, k: u128, v: V)
        requires
            old(self).wf(),
        ensures
            final(self).wf(),
            final(self)@ == old(self)@.insert(k, v@),
    {
        proof {
            Self::lemma_entries_map_characterize(self.entries@);
        }
        let ghost s0 = self.entries@;
        let n = self.entries.len();
        let mut i: usize = 0;
        while i < n
            invariant
                n == self.entries.len(),
                s0 == self.entries@,
                forall|a: int, b: int| 0 <= a < b < s0.len() ==> s0[a].0 != s0[b].0,
                0 <= i <= n,
                forall|j: int| 0 <= j < i ==> self.entries@[j].0 != k,
            decreases n - i,
        {
            if self.entries[i].0 == k {
                self.entries[i] = (k, v);
                proof {
                    let s1 = self.entries@;
                    Self::lemma_entries_map_characterize(s0);
                    assert(forall|a: int, b: int| 0 <= a < b < s1.len() ==> s1[a].0 != s1[b].0);
                    Self::lemma_entries_map_characterize(s1);
                    assert forall|k2: u128|
                        #[trigger] Self::entries_map(s1).contains_key(k2)
                            == Self::entries_map(s0).insert(k, v@).contains_key(k2) && (
                        Self::entries_map(s1).contains_key(k2)
                            ==> Self::entries_map(s1)[k2] == Self::entries_map(s0).insert(
                            k,
                            v@,
                        )[k2]) by {
                        if k2 == k {
                            assert(s1[i as int].0 == k);
                        } else {
                            if Self::entries_map(s1).contains_key(k2) {
                                let a = choose|a: int| 0 <= a < s1.len() && s1[a].0 == k2;
                                assert(s0[a].0 == k2);
                            }
                            if Self::entries_map(s0).contains_key(k2) {
                                let a = choose|a: int| 0 <= a < s0.len() && s0[a].0 == k2;
                                assert(s1[a].0 == k2);
                            }
                        }
                    }
                    assert(self@ =~= old(self)@.insert(k, v@));
                }
                return ;
            }
            i += 1;
        }
        self.entries.push((k, v));
        proof {
            Self::lemma_entries_map_characterize(s0);
            assert(self.entries@.drop_last() =~= s0);
            assert(self@ =~= old(self)@.insert(k, v@));
        }
    }

    /// Drop the binding of `k`, handing back its value if one was present.
    pub fn remove(&mut self, k: &u128) -> (r: Option<V>)
        requires
            old(self).wf(),
        ensures
            final(self).wf(),
            final(self)@ == old(self)@.remove(*k),
            match r {
                Some(v) => old(self)@.contains_key(*k) && v@ == old(self)@[*k],
                None => !old(self)@.contains_key(*k),
            },
    {
        proof {
            Self::lemma_entries_map_characterize(self.entries@);
        }
        let ghost s0 = self.entries@;
        let n = self.entries.len();
        let mut i: usize = 0;
        while i < n
            invariant
                n == self.entries.len(),
                s0 == self.entries@,
                forall|a: int, b: int| 0 <= a < b < s0.len() ==> s0[a].0 != s0[b].0,
                0 <= i <= n,
                forall|j: int| 0 <= j < i ==> self.entries@[j].0 != *k,
            decreases n - i,
        {
            if self.entries[i].0 == *k {
                let e = self.entries.remove(i);
                proof {
                    let s1 = self.entries@;
                    Self::lemma_entries_map_characterize(s0);
                    assert(forall|a: int, b: int|
                        0 <= a < b < s1.len() ==> s1[a].0 != s1[b].0) by {
                        assert(forall|a: int| 0 <= a < s1.len() ==> s1[a] == (if a < i as int {
                            s0[a]
                        } else {
                            s0[a + 1]
                        }));
                    }
                    Self::lemma_entries_map_characterize(s1);
                    assert forall|k2: u128|
                        #[trigger] Self::entries_map(s1).contains_key(k2)
                            == Self::entries_map(s0).remove(*k).contains_key(k2) && (
                        Self::entries_map(s1).contains_key(k2)
                            ==> Self::entries_map(s1)[k2] == Self::entries_map(s0).remove(
                            *k,
                        )[k2]) by {
                        if Self::entries_map(s1).contains_key(k2) {
                            let a = choose|a: int| 0 <= a < s1.len() && s1[a].0 == k2;
                            if a < i as int {
                                assert(s0[a].0 == k2);
                            } else {
                                assert(s0[a + 1].0 == k2);
                            }
                        }
                        if k2 != *k && Self::entries_map(s0).contains_key(k2) {
                            let a = choose|a: int| 0 <= a < s0.len() && s0[a].0 == k2;
                            if a < i as int {
                                assert(s1[a].0 == k2);
                            } else {
                                assert(s1[a - 1].0 == k2);
                            }
                        }
                    }
                    assert(self@ =~= old(self)@.remove(*k));
                }
                return Some(e.1);
            }
            i += 1;
        }
        proof {
            Self::lemma_entries_map_characterize(s0);
            assert(self@ =~= old(self)@.remove(*k));
        }
        None
    }
}

/// The first entry of the collection with the given component identifier.
pub open spec fn find_in_components(
    s: Seq<CountedComponentView>,
    id: u128,
) -> Option<CountedComponentView>
    decreases s.len(),
{
    if s.len() == 0 {
        None
    } else if s[0].component.id == id {
        Some(s[0])
    } else {
        find_in_components(s.subrange(1, s.len() as int), id)
    }
}

/// The field-level comparison of a base state with the state an event
/// window leads to.
#[derive(Debug)]
pub struct BOMDiff {
    pub name_changed: Option<PartialDiff<String>>,
    pub description_changed: Option<PartialDiff<String>>,
    pub components_added: DiffMap<(Component, i32)>,
    pub components_removed: Vec<Component>,
    pub components_updated: DiffMap<PartialDiff<(Component, i32)>>,
}

/// The mathematical value of a [`BOMDiff`].
#[verifier::ext_equal]
pub ghost struct BOMDiffView {
    pub name_changed: Option<PartialDiffView<Seq<char>>>,
    pub description_changed: Option<PartialDiffView<Seq<char>>>,
    pub components_added: Map<u128, (ComponentView, i32)>,
    pub components_removed: Seq<ComponentView>,
    pub components_updated: Map<u128, PartialDiffView<(ComponentView, i32)>>,
}

impl BOMDiff {
    /// Well-formedness of the diff's keyed sets.
    pub open spec fn wf(&self) -> bool {
        self.components_added.wf() && self.components_updated.wf()
    }
}

impl View for BOMDiff {
    type V = BOMDiffView;

    open spec fn view(&self) -> BOMDiffView {
        BOMDiffView {
            name_changed: match &self.name_changed {
                Some(p) => Some(p@),
                None => None,
            },
            description_changed: match &self.description_changed {
                Some(p) => Some(p@),
                None => None,
            },
            components_added: self.components_added@,
            components_removed: self.components_removed.deep_view(),
            components_updated: self.components_updated@,
        }
    }
}

/// The diff of an empty window: nothing changed.
pub open spec fn empty_diff() -> BOMDiffView {
    BOMDiffView {
        name_changed: None,
        description_changed: None,
        components_added: Map::<u128, (ComponentView, i32)>::empty(),
        components_removed: Seq::<ComponentView>::empty(),
        components_updated: Map::<u128, PartialDiffView<(ComponentView, i32)>>::empty(),
    }
}

/// How one event of the window moves the accumulated diff forward. `base`
/// is the state at the window's start and never changes while the window is
/// folded.
pub open spec fn diff_step(base: BomContent, d: BOMDiffView, e: BOMChangeEventView) -> BOMDiffView {
    match e {
        BOMChangeEventView::NameChanged(name) => BOMDiffView {
            name_changed: Some(PartialDiffView { from: base.name, to: name }),
            ..d
        },
        BOMChangeEventView::DescriptionChanged(description) => BOMDiffView {
            description_changed: Some(
                PartialDiffView {
                    from: match base.description {
                        Some(s) => s,
                        None => Seq::<char>::empty(),
                    },
                    to: description,
                },
            ),
            ..d
        },
        BOMChangeEventView::ComponentAdded(component, qty) => BOMDiffView {
            components_added: d.components_added.insert(component.id, (component, qty)),
            ..d
        },
        BOMChangeEventView::ComponentUpdated(id, qty) => match find_in_components(
            base.components,
            id,
        ) {
            Some(cc) => BOMDiffView {
                components_updated: d.components_updated.insert(
                    id,
                    PartialDiffView {
                        from: (cc.component, cc.quantity),
                        to: (cc.component, qty),
                    },
                ),
                ..d
            },
            None => if d.components_added.contains_key(id) {
                BOMDiffView {
                    components_added: d.components_added.insert(
                        id,
                        (d.components_added[id].0, qty),
                    ),
                    ..d
                }
            } else {
                d
            },
        },
        BOMChangeEventView::ComponentRemoved(component) => {
            let in_added = d.components_added.contains_key(component.id);
            let in_updated = d.components_updated.contains_key(component.id);
            BOMDiffView {
                components_added: d.components_added.remove(component.id),
                components_updated: d.components_updated.remove(component.id),
                components_removed: if !in_added && !in_updated {
                    d.components_removed.push(component)
                } else {
                    d.components_removed
                },
                ..d
            }
        },
    }
}

/// The diff of a whole window against a base state: the events folded
/// strictly in order.
pub open spec fn diff_of(base: BomContent, events: Seq<BOMChangeEventView>) -> BOMDiffView
    decreases events.len(),
{
    if events.len() == 0 {
        empty_diff()
    } else {
        diff_step(base, diff_of(base, events.drop_last()), events.last())
    }
}

impl Default for BOMDiff {
    /// The diff of an empty window.
    fn default() -> (r: Self)
        ensures
            r.wf(),
            r@ == empty_diff(),
    {
        let r = BOMDiff {
            name_changed: None,
            description_changed: None,
            components_added: DiffMap::new(),
            components_removed: Vec::new(),
            components_updated: DiffMap::new(),
        };
        proof {
            assert(r.components_removed.deep_view() =~= Seq::<ComponentView>::empty());
            assert(r@ =~= empty_diff());
        }
        r
    }
}

/// The first component of the BOM's collection with the given identifier.
fn find_component(bom: &BOM, id: u128) -> (r: Option<&CountedComponent>)
    ensures
        match r {
            Some(cc) => find_in_components(bom@.components, id) == Some(cc@),
            None => find_in_components(bom@.components, id) is None,
        },
{
    let n = bom.components.len();
    let mut i: usize = 0;
    while i < n
        invariant
            n == bom.components.len(),
            0 <= i <= n,
            forall|j: int| 0 <= j < i ==> bom@.components[j].component.id != id,
        decreases n - i,
    {
        if bom.components[i].component.id == id {
            proof {
                lemma_find_in_components_at(bom@.components, id, i as int);
            }
            return Some(&bom.components[i]);
        }
        i += 1;
    }
    proof {
        lemma_find_in_components_none(bom@.components, id);
    }
    None
}

/// A first match at index `i`, with no earlier match, is what
/// `find_in_components` returns.
proof fn lemma_find_in_components_at(s: Seq<CountedComponentView>, id: u128, i: int)
    requires
        0 <= i < s.len(),
        s[i].component.id == id,
        forall|j: int| 0 <= j < i ==> s[j].component.id != id,
    ensures
        find_in_components(s, id) == Some(s[i]),
    decreases i,
{
    if i > 0 {
        let rest = s.subrange(1, s.len() as int);
        lemma_find_in_components_at(rest, id, i - 1);
    }
}

/// With no match anywhere, `find_in_components` returns nothing.
proof fn lemma_find_in_components_none(s: Seq<CountedComponentView>, id: u128)
    requires
        forall|j: int| 0 <= j < s.len() ==> s[j].component.id != id,
    ensures
        find_in_components(s, id) is None,
    decreases s.len(),
{
    if s.len() > 0 {
        lemma_find_in_components_none(s.subrange(1, s.len() as int), id);
    }
}

impl BOMDiff {
    /// The diff of the event window against the base state, the events
    /// processed strictly in order.
    pub fn from(value: (&BOM, &Vec<BOMChangeEvent>)) -> (r: BOMDiff)
        ensures
            r.wf(),
            r@ == diff_of(content_of(value.0@), value.1.deep_view()),
    {
        let (bom, events) = value;
        let ghost base = content_of(bom@);
        let ghost evs = events.deep_view();
        let mut diff = BOMDiff::default();
        let n = events.len();
        let mut i: usize = 0;
        while i < n
            invariant
                n == events.len(),
                evs == events.deep_view(),
                base == content_of(bom@),
                0 <= i <= n,
                diff.wf(),
                diff@ == diff_of(base, evs.take(i as int)),
            decreases n - i,
        {
            let ghost before = diff@;
            match &events[i] {
                BOMChangeEvent::NameChanged(name) => {
                    diff.name_changed = Some(
                        PartialDiff { from: bom.name.clone(), to: name.clone() },
                    );
                },
                BOMChangeEvent::DescriptionChanged(description) => {
                    let from = match &bom.description {
                        Some(d) => d.clone(),
                        None => String::new(),
                    };
                    diff.description_changed = Some(
                        PartialDiff { from, to: description.clone() },
                    );
                },
                BOMChangeEvent::ComponentAdded(component, qty) => {
                    diff.components_added.insert(component.id, (component.clone(), *qty));
                },
                BOMChangeEvent::ComponentUpdated(id, qty) => {
                    match find_component(bom, *id) {
                        Some(cc) => {
                            let from_pair = (cc.component.clone(), cc.quantity);
                            let to_pair = (cc.component.clone(), *qty);
                            diff.components_updated.insert(
                                *id,
                                PartialDiff { from: from_pair, to: to_pair },
                            );
                        },
                        None => {
                            let added = diff.components_added.remove(id);
                            match added {
                                Some(entry) => {
                                    diff.components_added.insert(*id, (entry.0, *qty));
                                    proof {
                                        assert(diff.components_added@ =~= before
                                            .components_added.insert(
                                            *id,
                                            (before.components_added[*id as u128].0, *qty),
                                        ));
                                    }
                                },
                                None => {},
                            }
                        },
                    }
                },
                BOMChangeEvent::ComponentRemoved(component) => {
                    let was_added = diff.components_added.remove(&component.id);
                    let was_updated = diff.components_updated.remove(&component.id);
                    if was_added.is_none() && was_updated.is_none() {
                        let ghost removed_before = diff.components_removed.deep_view();
                        diff.components_removed.push(component.clone());
                        proof {
                            assert(diff.components_removed.deep_view() =~= removed_before.push(
                                component@,
                            ));
                        }
                    }
                },
            }
            proof {
                assert(evs.take(i as int + 1).drop_last() =~= evs.take(i as int));
                assert(diff@ =~= diff_step(base, before, evs[i as int]));
            }
            i += 1;
        }
        proof {
            assert(evs.take(n as int) =~= evs);
        }
        diff
    }
}

/// Whether an event adds the given component identifier to the window.
pub open spec fn adds_id(e: BOMChangeEventView, id: u128) -> bool {
    match e {
        BOMChangeEventView::ComponentAdded(c, _) => c.id == id,
        _ => false,
    }
}

/// Whether an event removes the given component identifier.
pub open spec fn removes_id(e: BOMChangeEventView, id: u128) -> bool {
    match e {
        BOMChangeEventView::ComponentRemoved(c) => c.id == id,
        _ => false,
    }
}

/// Whether an event updates the quantity of the given component identifier.
pub open spec fn updates_id(e: BOMChangeEventView, id: u128) -> bool {
    match e {
        BOMChangeEventView::ComponentUpdated(id2, _) => id2 == id,
        _ => false,
    }
}

/// The quantity carried by the window's last update of the given component
/// identifier.
pub open spec fn last_update_qty(w: Seq<BOMChangeEventView>, id: u128) -> i32
    decreases w.len(),
{
    if w.len() == 0 {
        0
    } else if updates_id(w.last(), id) {
        w.last()->ComponentUpdated_1
    } else {
        last_update_qty(w.drop_last(), id)
    }
}

/// A window that never removes the identifier leaves no trace of it in the
/// removed list.
proof fn lemma_removed_list_clean(base: BomContent, w: Seq<BOMChangeEventView>, id: u128)
    requires
        forall|k: int| 0 <= k < w.len() ==> !removes_id(w[k], id),
    ensures
        forall|l: int|
            0 <= l < diff_of(base, w).components_removed.len() ==> diff_of(
                base,
                w,
            ).components_removed[l].id != id,
    decreases w.len(),
{
    if w.len() > 0 {
        assert(forall|k: int| 0 <= k < w.len() - 1 ==> w.drop_last()[k] == w[k]);
        lemma_removed_list_clean(base, w.drop_last(), id);
        assert(!removes_id(w[w.len() - 1], id));
    }
}

/// After an addition of the identifier, as long as no event removes it, it
/// stays in the added set; and with no removal at all, the removed list
/// stays clean of it.
proof fn lemma_added_persists(base: BomContent, w: Seq<BOMChangeEventView>, id: u128, i: int)
    requires
        0 <= i < w.len(),
        adds_id(w[i], id),
        forall|k: int| 0 <= k < w.len() ==> !removes_id(w[k], id),
    ensures
        diff_of(base, w).components_added.contains_key(id),
        forall|l: int|
            0 <= l < diff_of(base, w).components_removed.len() ==> diff_of(
                base,
                w,
            ).components_removed[l].id != id,
    decreases w.len(),
{
    lemma_removed_list_clean(base, w, id);
    let m = w.len() - 1;
    assert(forall|k: int| 0 <= k < m ==> w.drop_last()[k] == w[k]);
    if i == m {
        assert(diff_of(base, w) == diff_step(base, diff_of(base, w.drop_last()), w[m]));
    } else {
        lemma_added_persists(base, w.drop_last(), id, i);
        assert(!removes_id(w[m], id));
        assert(!(w[m] is ComponentRemoved && w[m]->ComponentRemoved_0.id == id));
    }
}

/// Diff cancellation law: a component added within the window and removed
/// later within it appears in neither the added set nor the removed list
/// of the window's diff — the two events net to no visible change for that
/// identifier. The removal at `j` must be the window's first removal of the
/// identifier, and no later event may add or remove it again; any other
/// event, updates of it included, may stand anywhere.
pub proof fn lemma_diff_cancellation(
    base: BomContent,
    w: Seq<BOMChangeEventView>,
    i: int,
    j: int,
    id: u128,
)
    requires
        0 <= i < j < w.len(),
        adds_id(w[i], id),
        removes_id(w[j], id),
        forall|k: int| 0 <= k < j ==> !removes_id(w[k], id),
        forall|k: int| j < k < w.len() ==> !adds_id(w[k], id) && !removes_id(w[k], id),
    ensures
        !diff_of(base, w).components_added.contains_key(id),
        forall|l: int|
            0 <= l < diff_of(base, w).components_removed.len() ==> diff_of(
                base,
                w,
            ).components_removed[l].id != id,
    decreases w.len(),
{
    let m = w.len() - 1;
    assert(forall|k: int| 0 <= k < m ==> w.drop_last()[k] == w[k]);
    if m == j {
        lemma_added_persists(base, w.drop_last(), id, i);
        assert(diff_of(base, w) == diff_step(base, diff_of(base, w.drop_last()), w[m]));
    } else {
        lemma_diff_cancellation(base, w.drop_last(), i, j, id);
        assert(!adds_id(w[m], id) && !removes_id(w[m], id));
        assert(diff_of(base, w) == diff_step(base, diff_of(base, w.drop_last()), w[m]));
    }
}

/// Diff net-update law: when a component of the base state is updated one
/// or more times within the window, and the window neither adds nor
/// removes it, the diff holds exactly one updated entry for it — from the
/// base state's quantity to the quantity of the window's last update.
pub proof fn lemma_diff_net_update(
    base: BomContent,
    w: Seq<BOMChangeEventView>,
    id: u128,
    cc: CountedComponentView,
)
    requires
        find_in_components(base.components, id) == Some(cc),
        exists|k: int| 0 <= k < w.len() && updates_id(w[k], id),
        forall|k: int| 0 <= k < w.len() ==> !adds_id(w[k], id) && !removes_id(w[k], id),
    ensures
        diff_of(base, w).components_updated.contains_key(id),
        diff_of(base, w).components_updated[id] == (PartialDiffView {
            from: (cc.component, cc.quantity),
            to: (cc.component, last_update_qty(w, id)),
        }),
    decreases w.len(),
{
    let k0 = choose|k: int| 0 <= k < w.len() && updates_id(w[k], id);
    let m = w.len() - 1;
    assert(forall|k: int| 0 <= k < m ==> w.drop_last()[k] == w[k]);
    assert(diff_of(base, w) == diff_step(base, diff_of(base, w.drop_last()), w[m]));
    if updates_id(w[m], id) {
        assert(w[m] is ComponentUpdated && w[m]->ComponentUpdated_0 == id);
    } else {
        assert(k0 < m);
        assert(updates_id(w.drop_last()[k0], id));
        lemma_diff_net_update(base, w.drop_last(), id, cc);
        assert(!adds_id(w[m], id) && !removes_id(w[m], id));
    }
}

} // verus!
