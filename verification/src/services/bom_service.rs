//! The versioned-aggregate engine's boundary operations.
//!
//! Each operation is a pure function over state the caller has loaded: the
//! current aggregate and the version-log entries that belong to it. The
//! caller persists what comes back — the new snapshot and the new log entry
//! — atomically, or not at all.
//!
//! Log entries are numbered from zero: the entry numbered `k` holds the
//! event batch that took the aggregate from version `k` to version `k + 1`,
//! so an aggregate at version `v` owns exactly the entries `0 .. v`, and
//! the state at version `v` is the replay of the entries numbered below
//! `v`.

use vstd::prelude::*;

use crate::domain::models::bom::all_events_valid;
use crate::domain::models::bom::apply_events_content;
use crate::domain::models::bom::content_of;
use crate::domain::models::bom::creation_error_message;
use crate::domain::models::bom::creation_ok;
use crate::domain::models::bom::empty_content;
use crate::domain::models::bom::has_name_event;
use crate::domain::models::bom::first_invalid;
use crate::domain::models::bom::lemma_first_invalid_at;
use crate::domain::models::bom::replayed_content;
use crate::domain::models::bom::with_content;
use crate::domain::models::bom::BomContent;
use crate::domain::models::bom::BomView;
use crate::domain::models::bom::BOM;
use crate::domain::models::bom_change_event::BOMChangeEvent;
use crate::domain::models::bom_change_event::BOMChangeEventView;
use crate::domain::models::bom_version::BomVersion;
use crate::domain::models::bom_version::BomVersionView;
use crate::domain::models::component::CountedComponentView;
use crate::domain::models::diff::diff_of;
use crate::domain::models::diff::BOMDiff;
use crate::domain::error::DomainError;
use crate::domain::error::DomainErrorView;
use crate::domain::newtypes::new_bom::NewBOM;
use crate::domain::validation::event_valid;
use crate::domain::validation::rejection_reason;
use crate::domain::validation::BOMChangeEventValidator;
use crate::services::error::ServiceError;
use crate::services::error::ServiceErrorView;

verus! {

/// Whether an update extends the aggregate's live state or replaces it
/// with replayed historical content.
#[derive(Debug, PartialEq)]
pub enum UpdateOperation {
    Incremental,
    Revert,
}

/// The content an update starts from: the live content for an incremental
/// update, the cleared content (name kept, description and components
/// discarded) for a revert.
pub open spec fn update_start_content(b: BomView, operation: UpdateOperation) -> BomContent {
    match operation {
        UpdateOperation::Incremental => content_of(b),
        UpdateOperation::Revert => BomContent {
            name: b.name,
            description: None,
            components: Seq::<CountedComponentView>::empty(),
        },
    }
}

/// The cleared content a replay starts from: the stored name kept, no
/// description, no components.
pub open spec fn replay_base(b: BomView) -> BomContent {
    BomContent {
        name: b.name,
        description: None,
        components: Seq::<CountedComponentView>::empty(),
    }
}

/// The version number a replay derives from the log: one past the last
/// consumed entry's number; with no entries the stored version stands.
pub open spec fn replayed_version(b: BomView, versions: Seq<BomVersionView>) -> int {
    if versions.len() == 0 {
        b.version as int
    } else {
        versions.last().version + 1
    }
}

/// The event sequences of consecutive log entries, concatenated in order.
pub open spec fn concat_events(versions: Seq<BomVersionView>) -> Seq<BOMChangeEventView>
    decreases versions.len(),
{
    if versions.len() == 0 {
        Seq::<BOMChangeEventView>::empty()
    } else {
        concat_events(versions.drop_last()) + versions.last().changes
    }
}

/// Fold a batch of events through the aggregate, validating each with the
/// standard validator; the first rejected event aborts the whole batch.
fn apply_change_events(bom: &mut BOM, events: &Vec<BOMChangeEvent>) -> (r: Result<(), DomainError>)
    ensures
        match r {
            Ok(_) => {
                &&& all_events_valid(events.deep_view())
                &&& final(bom)@ == with_content(
                    old(bom)@,
                    apply_events_content(content_of(old(bom)@), events.deep_view()),
                )
            },
            Err(e) => {
                &&& !all_events_valid(events.deep_view())
                &&& e@ == DomainErrorView::ValidationError(
                    rejection_reason(events.deep_view()[first_invalid(events.deep_view())]),
                )
            },
        },
{
    let ghost init = bom@;
    let ghost evs = events.deep_view();
    let n = events.len();
    let mut k: usize = 0;
    while k < n
        invariant
            0 <= k <= n,
            forall|j: int| 0 <= j < k ==> event_valid(evs[j]),
            bom@ == with_content(init, apply_events_content(content_of(init), evs.take(k as int))),
        decreases n - k,
    {
        let ghost before = bom@;
        match bom.apply_change(&events[k], BOMChangeEventValidator) {
            Err(e) => {
                proof {
                    lemma_first_invalid_at(evs, k as int);
                }
                return Err(e);
            },
            Ok(_) => {},
        }
        proof {
            assert(evs.take(k as int + 1).drop_last() =~= evs.take(k as int));
            assert(bom@ =~= with_content(
                init,
                apply_events_content(content_of(init), evs.take(k as int + 1)),
            ));
        }
        k += 1;
    }
    proof {
        assert(evs.take(n as int) =~= evs);
        assert(bom@ =~= with_content(init, apply_events_content(content_of(init), evs)));
    }
    Ok(())
}

/// The events of the log entries with indices in `lo .. hi`, in order, as
/// one batch.
fn collect_events_range(versions: &Vec<BomVersion>, lo: usize, hi: usize) -> (r: Vec<
    BOMChangeEvent,
>)
    requires
        lo <= hi <= versions@.len(),
    ensures
        r.deep_view() == concat_events(versions.deep_view().subrange(lo as int, hi as int)),
{
    let ghost vs = versions.deep_view();
    let mut out: Vec<BOMChangeEvent> = Vec::new();
    proof {
        assert(out.deep_view() =~= Seq::<BOMChangeEventView>::empty());
        assert(vs.subrange(lo as int, lo as int) =~= Seq::<BomVersionView>::empty());
    }
    let mut vi: usize = lo;
    while vi < hi
        invariant
            lo <= vi <= hi,
            out.deep_view() == concat_events(vs.subrange(lo as int, vi as int)),
        decreases hi - vi,
    {
        let changes = &versions[vi].changes;
        let ghost seg = vs[vi as int].changes;
        let m = changes.len();
        let mut ci: usize = 0;
        while ci < m
            invariant
                0 <= ci <= m,
                out.deep_view() == concat_events(vs.subrange(lo as int, vi as int)) + seg.take(
                    ci as int,
                ),
            decreases m - ci,
        {
            let ghost before = out.deep_view();
            out.push(changes[ci].clone());
            proof {
                assert(out.deep_view() =~= before.push(seg[ci as int]));
                assert(out.deep_view() =~= concat_events(vs.subrange(lo as int, vi as int))
                    + seg.take(ci as int + 1));
            }
            ci += 1;
        }
        proof {
            assert(seg.take(m as int) =~= seg);
            assert(vs.subrange(lo as int, vi as int + 1).drop_last() =~= vs.subrange(
                lo as int,
                vi as int,
            ));
            assert(out.deep_view() =~= concat_events(vs.subrange(lo as int, vi as int + 1)));
        }
        vi += 1;
    }
    out
}

/// Construct a BOM from a candidate event list and commit it as version
/// one: the returned log entry, numbered zero, holds the whole list.
pub fn insert_bom(new_bom: &NewBOM) -> (r: Result<(BOM, BomVersion), ServiceError>)
    ensures
        match r {
            Ok((bom, entry)) => {
                &&& creation_ok(new_bom.events.deep_view())
                &&& bom@.version == 1
                &&& content_of(bom@) == replayed_content(new_bom.events.deep_view())
                &&& entry.bom_id == bom@.id
                &&& entry.version == 0
                &&& entry.changes.deep_view() == new_bom.events.deep_view()
            },
            Err(e) => {
                &&& !creation_ok(new_bom.events.deep_view())
                &&& e@ == ServiceErrorView::DomainError(
                    DomainErrorView::ValidationError(
                        creation_error_message(new_bom.events.deep_view()),
                    ),
                )
            },
        },
{
    let mut bom = match BOM::try_from(new_bom) {
        Ok(b) => b,
        Err(e) => {
            return Err(ServiceError::DomainError(e));
        },
    };
    bom.increment_version();
    let changes = new_bom.events.clone();
    proof {
        assert(changes.deep_view() =~= new_bom.events.deep_view());
    }
    let entry = BomVersion::new(&bom.id, 0, Box::new(changes));
    Ok((bom, entry))
}

/// Apply one committed update: optionally clear for a revert, bump the
/// version by one, fold the batch through the reducer, and hand back the
/// updated aggregate together with the log entry that records the batch.
pub fn update_bom(
    bom: BOM,
    change_events: Box<Vec<BOMChangeEvent>>,
    operation: UpdateOperation,
) -> (r: Result<(BOM, BomVersion), ServiceError>)
    requires
        bom.version < i32::MAX,
    ensures
        match r {
            Ok((updated, entry)) => {
                &&& all_events_valid(change_events.deep_view())
                &&& updated@.id == bom@.id
                &&& updated@.version == bom@.version + 1
                &&& updated@.created_at == bom@.created_at
                &&& updated@.updated_at == bom@.updated_at
                &&& content_of(updated@) == apply_events_content(
                    update_start_content(bom@, operation),
                    change_events.deep_view(),
                )
                &&& entry.bom_id == bom@.id
                &&& entry.version == bom@.version
                &&& entry.changes.deep_view() == change_events.deep_view()
            },
            Err(e) => {
                &&& !all_events_valid(change_events.deep_view())
                &&& e@ == ServiceErrorView::DomainError(
                    DomainErrorView::ValidationError(
                        rejection_reason(
                            change_events.deep_view()[first_invalid(change_events.deep_view())],
                        ),
                    ),
                )
            },
        },
{
    let ghost orig = bom@;
    let mut bom = bom;
    match operation {
        UpdateOperation::Revert => {
            bom.clean_for_revert();
        },
        UpdateOperation::Incremental => {},
    }
    bom.increment_version();
    proof {
        assert(content_of(bom@) =~= update_start_content(orig, operation));
    }
    match apply_change_events(&mut bom, &change_events) {
        Err(e) => {
            return Err(ServiceError::DomainError(e));
        },
        Ok(_) => {},
    }
    let entry_version = bom.version - 1;
    let entry = BomVersion::new(&bom.id, entry_version, change_events);
    Ok((bom, entry))
}

/// Reconstruct the aggregate as of the given version from the log entries
/// the caller fetched: the entries numbered below `version`, ordered by
/// version ascending. The resulting version number is derived from the
/// entries consumed, not copied from stored state; a version beyond the
/// aggregate's current one is not found.
pub fn find_bom_by_version_and_id(bom: &BOM, versions: &Vec<BomVersion>, version: i32) -> (r:
    Result<BOM, ServiceError>)
    requires
        forall|i: int|
            0 <= i < versions.deep_view().len() ==> versions.deep_view()[i].version < i32::MAX,
    ensures
        match r {
            Ok(b) => {
                &&& bom@.version >= version
                &&& all_events_valid(concat_events(versions.deep_view()))
                &&& b@.id == bom@.id
                &&& b@.created_at == bom@.created_at
                &&& b@.updated_at == bom@.updated_at
                &&& b@.version == replayed_version(bom@, versions.deep_view())
                &&& content_of(b@) == apply_events_content(
                    replay_base(bom@),
                    concat_events(versions.deep_view()),
                )
            },
            Err(e) => {
                ||| {
                    &&& bom@.version < version
                    &&& e@ == ServiceErrorView::InvalidData("Version not found"@)
                }
                ||| {
                    &&& bom@.version >= version
                    &&& !all_events_valid(concat_events(versions.deep_view()))
                    &&& e@ == ServiceErrorView::DomainError(
                        DomainErrorView::ValidationError(
                            rejection_reason(
                                concat_events(versions.deep_view())[first_invalid(
                                    concat_events(versions.deep_view()),
                                )],
                            ),
                        ),
                    )
                }
            },
        },
{
    if bom.version < version {
        return Err(ServiceError::InvalidData("Version not found".to_owned()));
    }
    let mut result = bom.clone();
    result.clean_for_revert();
    if versions.len() > 0 {
        result.version = versions[versions.len() - 1].version + 1;
    }
    let ghost start = result@;
    let events = collect_events_range(versions, 0, versions.len());
    proof {
        assert(versions.deep_view().subrange(0, versions.deep_view().len() as int)
            =~= versions.deep_view());
    }
    match apply_change_events(&mut result, &events) {
        Err(e) => Err(ServiceError::DomainError(e)),
        Ok(_) => {
            proof {
                assert(content_of(result@) =~= apply_events_content(
                    replay_base(bom@),
                    concat_events(versions.deep_view()),
                ));
            }
            Ok(result)
        },
    }
}

/// Restore the content of an earlier version as a new, forward-only
/// version: the whole event history up to the target version, fetched by
/// the caller as the entries numbered below `version`, is replayed onto
/// the cleared aggregate through one revert update.
pub fn revert_bom_to_version(bom: BOM, versions: &Vec<BomVersion>, version: i32) -> (r: Result<
    (BOM, BomVersion),
    ServiceError,
>)
    requires
        bom.version < i32::MAX,
    ensures
        match r {
            Ok((updated, entry)) => {
                &&& bom@.version >= version
                &&& all_events_valid(concat_events(versions.deep_view()))
                &&& updated@.id == bom@.id
                &&& updated@.version == bom@.version + 1
                &&& updated@.created_at == bom@.created_at
                &&& updated@.updated_at == bom@.updated_at
                &&& content_of(updated@) == apply_events_content(
                    replay_base(bom@),
                    concat_events(versions.deep_view()),
                )
                &&& entry.bom_id == bom@.id
                &&& entry.version == bom@.version
                &&& entry.changes.deep_view() == concat_events(versions.deep_view())
            },
            Err(e) => {
                ||| {
                    &&& bom@.version < version
                    &&& e@ == ServiceErrorView::InvalidData("Version not found"@)
                }
                ||| {
                    &&& bom@.version >= version
                    &&& !all_events_valid(concat_events(versions.deep_view()))
                    &&& e@ == ServiceErrorView::DomainError(
                        DomainErrorView::ValidationError(
                            rejection_reason(
                                concat_events(versions.deep_view())[first_invalid(
                                    concat_events(versions.deep_view()),
                                )],
                            ),
                        ),
                    )
                }
            },
        },
{
    if bom.version < version {
        return Err(ServiceError::InvalidData("Version not found".to_owned()));
    }
    let change_events = collect_events_range(versions, 0, versions.len());
    proof {
        assert(versions.deep_view().subrange(0, versions.deep_view().len() as int)
            =~= versions.deep_view());
    }
    update_bom(bom, Box::new(change_events), UpdateOperation::Revert)
}

/// The index splitting the fetched entries into the base prefix (state at
/// `from`) and the diff window.
pub open spec fn diff_split(versions: Seq<BomVersionView>, from: i32) -> int {
    if from < 0 {
        0
    } else if from as int > versions.len() {
        versions.len() as int
    } else {
        from as int
    }
}

/// Compare two version boundaries: the entries numbered below `from` build
/// the base state, and the events of the remaining entries, fetched by the
/// caller up to `to`, form the window whose net effect the diff reports.
/// `from` must lie below `to`.
pub fn get_bom_diff(versions: &Vec<BomVersion>, from: i32, to: i32) -> (r: Result<
    BOMDiff,
    ServiceError,
>)
    ensures
        match r {
            Ok(d) => {
                &&& from < to
                &&& creation_ok(
                    concat_events(
                        versions.deep_view().subrange(0, diff_split(versions.deep_view(), from)),
                    ),
                )
                &&& d.wf()
                &&& d@ == diff_of(
                    replayed_content(
                        concat_events(
                            versions.deep_view().subrange(
                                0,
                                diff_split(versions.deep_view(), from),
                            ),
                        ),
                    ),
                    concat_events(
                        versions.deep_view().subrange(
                            diff_split(versions.deep_view(), from),
                            versions.deep_view().len() as int,
                        ),
                    ),
                )
            },
            Err(e) => {
                ||| {
                    &&& from >= to
                    &&& e@ == ServiceErrorView::InvalidData("Invalid version range"@)
                }
                ||| {
                    &&& from < to
                    &&& !creation_ok(
                        concat_events(
                            versions.deep_view().subrange(
                                0,
                                diff_split(versions.deep_view(), from),
                            ),
                        ),
                    )
                    &&& e@ == ServiceErrorView::DomainError(
                        DomainErrorView::ValidationError(
                            creation_error_message(
                                concat_events(
                                    versions.deep_view().subrange(
                                        0,
                                        diff_split(versions.deep_view(), from),
                                    ),
                                ),
                            ),
                        ),
                    )
                }
            },
        },
{
    if from >= to {
        return Err(ServiceError::InvalidData("Invalid version range".to_owned()));
    }
    let split: usize = if from <= 0 {
        0
    } else if (from as usize) <= versions.len() {
        from as usize
    } else {
        versions.len()
    };
    let base_events = collect_events_range(versions, 0, split);
    let window_events = collect_events_range(versions, split, versions.len());
    let new_bom = NewBOM::new(base_events);
    let starting_bom = match BOM::try_from(&new_bom) {
        Ok(b) => b,
        Err(e) => {
            return Err(ServiceError::DomainError(e));
        },
    };
    let diff = BOMDiff::from((&starting_bom, &window_events));
    Ok(diff)
}

/// Replaying a batch, the starting name is immaterial to everything but
/// the name, and immaterial even to the name once the batch holds a name
/// change.
proof fn lemma_start_name_immaterial(
    c1: BomContent,
    c2: BomContent,
    events: Seq<BOMChangeEventView>,
)
    requires
        c1.description == c2.description,
        c1.components == c2.components,
    ensures
        apply_events_content(c1, events).description == apply_events_content(
            c2,
            events,
        ).description,
        apply_events_content(c1, events).components == apply_events_content(c2, events).components,
        has_name_event(events) ==> apply_events_content(c1, events) == apply_events_content(
            c2,
            events,
        ),
        !has_name_event(events) ==> apply_events_content(c1, events).name == c1.name
            && apply_events_content(c2, events).name == c2.name,
    decreases events.len(),
{
    if events.len() == 0 {
        assert(!has_name_event(events));
    } else {
        let init = events.drop_last();
        lemma_start_name_immaterial(c1, c2, init);
        assert(has_name_event(events) <==> (has_name_event(init)
            || events.last() is NameChanged)) by {
            if has_name_event(events) {
                let i = choose|i: int| 0 <= i < events.len() && events[i] is NameChanged;
                if i < events.len() - 1 {
                    assert(init[i] is NameChanged);
                }
            }
            if has_name_event(init) {
                let i = choose|i: int| 0 <= i < init.len() && init[i] is NameChanged;
                assert(events[i] is NameChanged);
            }
            if events.last() is NameChanged {
                assert(events[events.len() - 1] is NameChanged);
            }
        }
        let r1 = apply_events_content(c1, init);
        let r2 = apply_events_content(c2, init);
        if has_name_event(init) {
            assert(r1 == r2);
        }
    }
}

/// Replay determinism: reconstructing an aggregate twice from the same
/// version log prefix yields the same content and the same version number.
/// `b1` and `b2` stand for any two results that
/// [`find_bom_by_version_and_id`] may hand back for the same inputs.
pub proof fn lemma_replay_deterministic(
    bom: BomView,
    versions: Seq<BomVersionView>,
    b1: BomView,
    b2: BomView,
)
    requires
        content_of(b1) == apply_events_content(replay_base(bom), concat_events(versions)),
        b1.version == replayed_version(bom, versions),
        content_of(b2) == apply_events_content(replay_base(bom), concat_events(versions)),
        b2.version == replayed_version(bom, versions),
    ensures
        content_of(b1) == content_of(b2),
        b1.version == b2.version,
{
}

/// Round trip of create: a freshly created BOM, reconstructed from its own
/// single-entry version log, carries the same content and the same version
/// number. Identity and timestamps are generated anew and so excepted.
pub proof fn lemma_create_round_trip(
    events: Seq<BOMChangeEventView>,
    created: BomView,
    entry: BomVersionView,
)
    requires
        creation_ok(events),
        created.version == 1,
        content_of(created) == replayed_content(events),
        entry.version == 0,
        entry.changes == events,
    ensures
        concat_events(seq![entry]) == events,
        apply_events_content(replay_base(created), concat_events(seq![entry])) == content_of(
            created,
        ),
        replayed_version(created, seq![entry]) == created.version,
{
    let vs = seq![entry];
    assert(vs.len() == 1);
    assert(vs.drop_last() =~= Seq::<BomVersionView>::empty());
    assert(vs.last() == entry);
    assert(concat_events(vs.drop_last()) =~= Seq::<BOMChangeEventView>::empty());
    assert(concat_events(vs) == concat_events(vs.drop_last()) + vs.last().changes);
    assert(concat_events(vs) =~= events);
    lemma_start_name_immaterial(replay_base(created), empty_content(), events);
}

} // verus!
