//! Aggregation of one change event into the states it reports, by device.
use vstd::prelude::*;
use crate::classify::{classify, device_of, names};
use crate::codec::{decode, decoded};
use crate::properties::Properties;

verus! {

/// The kind of a change event.
#[derive(Clone, Copy, PartialEq, Eq, Structural)]
pub enum ChangeKind {
    Create,
    Modify,
    Other,
}

/// A path named by a change event, with the contents read from it; `None`
/// where it was not read or could not be.
pub struct Observation {
    pub path: Vec<String>,
    pub content: Option<Vec<u8>>,
}

/// The state that `o` reports for a device, if it reports one.
pub open spec fn reported(root: Seq<Seq<char>>, o: Observation) -> Option<(Seq<char>, Seq<char>)> {
    match (device_of(root, names(o.path@)), o.content) {
        (Some(d), Some(c)) => match decoded(c@) {
            Some(t) => Some((d, t)),
            None => None,
        },
        _ => None,
    }
}

/// The states that `obs` reports by device; a later report of a device
/// replaces an earlier one.
pub open spec fn states_of(root: Seq<Seq<char>>, obs: Seq<Observation>) -> Map<Seq<char>, Seq<char>>
    decreases obs.len(),
{
    if obs.len() == 0 {
        Map::empty()
    } else {
        let m = states_of(root, obs.drop_last());
        match reported(root, obs.last()) {
            Some((d, t)) => m.insert(d, t),
            None => m,
        }
    }
}

/// The states that the state files among `observed` report, by device, or
/// `None` where none reports one.
pub fn get_job_state_file_contents(root: &Vec<String>, observed: &Vec<Observation>) -> (r: Option<Properties>)
    ensures
        match r {
            Some(m) => m.wf() && m@ == states_of(names(root@), observed@)
                && m@ != Map::<Seq<char>, Seq<char>>::empty(),
            None => states_of(names(root@), observed@) == Map::<Seq<char>, Seq<char>>::empty(),
        },
{
    let mut map = Properties::new();
    let mut i: usize = 0;
    while i < observed.len()
        invariant
            i <= observed@.len(),
            map.wf(),
            map@ == states_of(names(root@), observed@.subrange(0, i as int)),
        decreases observed@.len() - i,
    {
        let o = &observed[i];
        proof {
            let next = observed@.subrange(0, i + 1);
            assert(next.drop_last() =~= observed@.subrange(0, i as int));
            assert(next.last() == observed@[i as int]);
        }
        match classify(root, &o.path) {
            Some(device) => match &o.content {
                Some(c) => match decode(c.as_slice()) {
                    Some(state) => {
                        map.insert(device, state);
                    },
                    None => {},
                },
                None => {},
            },
            None => {},
        }
        i = i + 1;
    }
    assert(observed@.subrange(0, observed@.len() as int) =~= observed@);
    if map.is_empty() {
        None
    } else {
        Some(map)
    }
}

/// The states that a change event reports, by device. Only a modification
/// counts: a state file is created empty and then written.
pub fn get_state_change_events(root: &Vec<String>, kind: ChangeKind, observed: &Vec<Observation>) -> (r: Option<Properties>)
    ensures
        kind != ChangeKind::Modify ==> r is None,
        kind == ChangeKind::Modify ==> match r {
            Some(m) => m.wf() && m@ == states_of(names(root@), observed@)
                && m@ != Map::<Seq<char>, Seq<char>>::empty(),
            None => states_of(names(root@), observed@) == Map::<Seq<char>, Seq<char>>::empty(),
        },
{
    if kind == ChangeKind::Modify {
        get_job_state_file_contents(root, observed)
    } else {
        None
    }
}

} // verus!
