//! Classification of changed paths under the watched root.
//!
//! A path is given as the sequence of its components. A state file lives at
//! `root/<device>/state.txt`; no other layout is recognised.
use vstd::prelude::*;

verus! {

/// The name of the file in which a broker writes its state.
pub const STATE_FILE: &'static str = "state.txt";

/// The components of a path, as text.
pub open spec fn names(v: Seq<String>) -> Seq<Seq<char>> {
    v.map_values(|s: String| s@)
}

/// `path` lies strictly below `root`.
pub open spec fn is_under(root: Seq<Seq<char>>, path: Seq<Seq<char>>) -> bool {
    path.len() > root.len() && path.subrange(0, root.len() as int) == root
}

/// The device whose state file `path` is, if it is one.
pub open spec fn device_of(root: Seq<Seq<char>>, path: Seq<Seq<char>>) -> Option<Seq<char>> {
    if is_under(root, path) && path.len() == root.len() + 2 && path.last() == STATE_FILE@ {
        Some(path[root.len() as int])
    } else {
        None
    }
}

/// Classifies `path`: the device identifier when it is the state file of a
/// device directory directly under `root`, `None` for anything else.
pub fn classify(root: &Vec<String>, path: &Vec<String>) -> (r: Option<String>)
    ensures
        match r {
            Some(d) => device_of(names(root@), names(path@)) == Some(d@),
            None => device_of(names(root@), names(path@)) is None,
        },
{
    let n = root.len();
    if path.len() < 2 || path.len() - 2 != n {
        return None;
    }
    let mut i: usize = 0;
    while i < n
        invariant
            i <= n,
            n == root@.len(),
            path@.len() == n + 2,
            forall|j: int| 0 <= j < i ==> root@[j]@ == #[trigger] path@[j]@,
        decreases n - i,
    {
        if root[i] != path[i] {
            proof {
                assert(names(path@).subrange(0, n as int)[i as int] != names(root@)[i as int]);
            }
            return None;
        }
        i = i + 1;
    }
    proof {
        assert(names(path@).subrange(0, n as int) =~= names(root@));
    }
    let state_file = STATE_FILE.to_owned();
    if path[n + 1] == state_file {
        Some(path[n].clone())
    } else {
        None
    }
}

/// A path that is not strictly under the root, or whose last component is
/// not the state file, or that does not end in exactly a device directory
/// and the state file, is no state file.
pub proof fn lemma_classify_rejects(root: Seq<Seq<char>>, path: Seq<Seq<char>>)
    requires
        !is_under(root, path) || path.len() != root.len() + 2 || path.last() != STATE_FILE@,
    ensures
        device_of(root, path) is None,
{
}

/// A state file directly inside a device directory under the root is
/// classified as that device's.
pub proof fn lemma_classify_accepts(root: Seq<Seq<char>>, device: Seq<char>)
    ensures
        device_of(root, root.push(device).push(STATE_FILE@)) == Some(device),
{
    let p = root.push(device).push(STATE_FILE@);
    assert(p.subrange(0, root.len() as int) =~= root);
}

} // verus!
