//! Reconciliation of a device record with the state its broker reported.
//!
//! The reconciliation is a small state machine: each step either names the
//! next call to make on the resource store or finishes with a result. The
//! caller performs the call and hands its reply to the next step.
use vstd::prelude::*;
use crate::properties::Properties;
use crate::store::StoreError;

verus! {

/// The property of a device record that holds the state its broker reported.
pub const STATE_PROPERTY: &'static str = "akri.sh/actual-state";

/// Why a reconciliation failed.
pub enum ReconcileError {
    /// The device record could not be fetched.
    Lookup(StoreError),
    /// The updated device record could not be written.
    Update(StoreError),
}

/// What a reconciliation does next.
pub enum Step {
    /// Fetch the device record.
    FindDevice,
    /// Write these properties to the device record.
    UpdateDevice(Properties),
    /// The reconciliation is over.
    Finished(Result<(), ReconcileError>),
}

/// A step with the properties it would write as a map.
pub enum StepModel {
    FindDevice,
    UpdateDevice(Map<Seq<char>, Seq<char>>),
    Finished(Result<(), ReconcileError>),
}

impl View for Step {
    type V = StepModel;

    open spec fn view(&self) -> StepModel {
        match self {
            Step::FindDevice => StepModel::FindDevice,
            Step::UpdateDevice(p) => StepModel::UpdateDevice(p@),
            Step::Finished(r) => StepModel::Finished(*r),
        }
    }
}

/// The record already holds `new_state` as its state.
pub open spec fn is_current(record: Map<Seq<char>, Seq<char>>, new_state: Seq<char>) -> bool {
    record.contains_key(STATE_PROPERTY@) && record[STATE_PROPERTY@] == new_state
}

/// The first step of a reconciliation towards `new_state`.
pub open spec fn first_step(new_state: Seq<char>) -> StepModel {
    if new_state.len() == 0 {
        StepModel::Finished(Ok(()))
    } else {
        StepModel::FindDevice
    }
}

/// The step that follows a successful fetch of the device record.
pub open spec fn step_after_record(record: Map<Seq<char>, Seq<char>>, new_state: Seq<char>) -> StepModel {
    if is_current(record, new_state) {
        StepModel::Finished(Ok(()))
    } else {
        StepModel::UpdateDevice(record.insert(STATE_PROPERTY@, new_state))
    }
}

/// A call made on the resource store.
pub enum StoreCall {
    FindDevice,
    UpdateDevice(Map<Seq<char>, Seq<char>>),
}

/// The calls on the store that a reconciliation towards `new_state` makes,
/// in order, when the store holds `record` and accepts every update.
pub open spec fn store_calls(new_state: Seq<char>, record: Map<Seq<char>, Seq<char>>) -> Seq<StoreCall> {
    match first_step(new_state) {
        StepModel::FindDevice => seq![StoreCall::FindDevice] + match step_after_record(record, new_state) {
            StepModel::UpdateDevice(m) => seq![StoreCall::UpdateDevice(m)],
            _ => Seq::empty(),
        },
        _ => Seq::empty(),
    }
}

/// Starts a reconciliation towards `new_state`. An empty state is a write in
/// progress, not a state: it finishes at once, without touching the store.
pub fn start(new_state: &String) -> (r: Step)
    ensures
        r@ == first_step(new_state@),
{
    if new_state.as_str().is_empty() {
        Step::Finished(Ok(()))
    } else {
        Step::FindDevice
    }
}

/// The step after the store answered the fetch of the device record: an
/// update only where the record's state differs from `new_state` or is
/// missing.
pub fn after_lookup(found: Result<Properties, StoreError>, new_state: &String) -> (r: Step)
    requires
        found matches Ok(p) ==> p.wf(),
    ensures
        match found {
            Ok(p) => r@ == step_after_record(p@, new_state@),
            Err(e) => r@ == StepModel::Finished(Err(ReconcileError::Lookup(e))),
        },
        r matches Step::UpdateDevice(p) ==> p.wf(),
{
    match found {
        Err(e) => Step::Finished(Err(ReconcileError::Lookup(e))),
        Ok(mut record) => {
            let key = STATE_PROPERTY.to_owned();
            let same = match record.get(&key) {
                Some(current) => *current == *new_state,
                None => false,
            };
            if same {
                Step::Finished(Ok(()))
            } else {
                record.insert(key, new_state.clone());
                Step::UpdateDevice(record)
            }
        },
    }
}

/// The step after the store answered the update of the device record: the
/// reconciliation is over.
pub fn after_update(result: Result<(), StoreError>) -> (r: Step)
    ensures
        match result {
            Ok(()) => r@ == StepModel::Finished(Ok(())),
            Err(e) => r@ == StepModel::Finished(Err(ReconcileError::Update(e))),
        },
{
    match result {
        Ok(()) => Step::Finished(Ok(())),
        Err(e) => Step::Finished(Err(ReconcileError::Update(e))),
    }
}

/// A record without a state property gets exactly one update, which sets
/// the state property to the new state.
pub proof fn lemma_missing_state_updates_once(record: Map<Seq<char>, Seq<char>>, new_state: Seq<char>)
    requires
        new_state.len() > 0,
        !record.contains_key(STATE_PROPERTY@),
    ensures
        store_calls(new_state, record) == seq![
            StoreCall::FindDevice,
            StoreCall::UpdateDevice(record.insert(STATE_PROPERTY@, new_state)),
        ],
        record.insert(STATE_PROPERTY@, new_state)[STATE_PROPERTY@] == new_state,
{
    assert(store_calls(new_state, record) =~= seq![
        StoreCall::FindDevice,
        StoreCall::UpdateDevice(record.insert(STATE_PROPERTY@, new_state)),
    ]);
}

/// A record whose state property already holds the new state gets a fetch
/// and no update.
pub proof fn lemma_current_state_no_update(record: Map<Seq<char>, Seq<char>>, new_state: Seq<char>)
    requires
        new_state.len() > 0,
        is_current(record, new_state),
    ensures
        store_calls(new_state, record) == seq![StoreCall::FindDevice],
{
    assert(store_calls(new_state, record) =~= seq![StoreCall::FindDevice]);
}

/// An empty state makes no call on the store at all.
pub proof fn lemma_empty_state_no_calls(record: Map<Seq<char>, Seq<char>>)
    ensures
        store_calls(Seq::empty(), record) == Seq::<StoreCall>::empty(),
{
}

/// A record whose state differs from the new state gets exactly one update,
/// which sets the state property to the new state and keeps the others.
pub proof fn lemma_changed_state_updates_once(record: Map<Seq<char>, Seq<char>>, new_state: Seq<char>)
    requires
        new_state.len() > 0,
        !is_current(record, new_state),
    ensures
        store_calls(new_state, record) == seq![
            StoreCall::FindDevice,
            StoreCall::UpdateDevice(record.insert(STATE_PROPERTY@, new_state)),
        ],
{
    assert(store_calls(new_state, record) =~= seq![
        StoreCall::FindDevice,
        StoreCall::UpdateDevice(record.insert(STATE_PROPERTY@, new_state)),
    ]);
}

} // verus!
