//! The encoder processes a render spawned, remembered so that every exit
//! path can terminate them.
use crate::text::{chars_of, decimal, hex, push_decimal, push_hex, push_str, string_of};
use std::collections::HashSet;
use vstd::std_specs::iter::IteratorSpec;
use vstd::prelude::*;

verus! {

/// The process ids of live encoder children.
pub struct PidRegistry {
    pids: HashSet<i32>,
}

/// The pid as the signal API takes it: positive and within `i32`.
pub open spec fn signal_pid(pid: u32) -> Option<i32> {
    if 0 < pid && pid <= i32::MAX {
        Some(pid as i32)
    } else {
        None
    }
}

/// The registered pids after `register_ffmpeg(pid)`: the pid joins them
/// when the signal API can take it.
pub open spec fn after_register(pids: Set<i32>, pid: u32) -> Set<i32> {
    match signal_pid(pid) {
        Some(p) => pids.insert(p),
        None => pids,
    }
}

/// The registered pids after `unregister_ffmpeg(pid)`: the pid leaves them
/// when it fits in `i32`.
pub open spec fn after_unregister(pids: Set<i32>, pid: u32) -> Set<i32> {
    if pid <= i32::MAX {
        pids.remove(pid as i32)
    } else {
        pids
    }
}

impl PidRegistry {
    #[verifier::type_invariant]
    spec fn wf(self) -> bool {
        forall|p: i32| #[trigger] self.pids@.contains(p) ==> p > 0
    }

    /// The registered pids.
    pub closed spec fn view(&self) -> Set<i32> {
        self.pids@
    }

    /// An empty registry.
    pub fn new() -> (r: PidRegistry)
        ensures
            r@ == Set::<i32>::empty(),
    {
        PidRegistry { pids: HashSet::new() }
    }

    /// Remembers an encoder child; pids that no signal can reach (zero or
    /// beyond `i32`) are ignored.
    pub fn register_ffmpeg(&mut self, pid: u32)
        ensures
            final(self)@ == after_register(old(self)@, pid),
    {
        broadcast use vstd::std_specs::hash::group_hash_axioms;

        proof {
            use_type_invariant(&*self);
        }
        if pid == 0 || pid > i32::MAX as u32 {
            return;
        }
        let p = pid as i32;
        let mut set = HashSet::new();
        std::mem::swap(&mut set, &mut self.pids);
        set.insert(p);
        self.pids = set;
    }

    /// Forgets an encoder child that exited.
    pub fn unregister_ffmpeg(&mut self, pid: u32)
        ensures
            final(self)@ == after_unregister(old(self)@, pid),
    {
        broadcast use vstd::std_specs::hash::group_hash_axioms;

        proof {
            use_type_invariant(&*self);
        }
        if pid > i32::MAX as u32 {
            return;
        }
        let p = pid as i32;
        let mut set = HashSet::new();
        std::mem::swap(&mut set, &mut self.pids);
        set.remove(&p);
        self.pids = set;
    }

    /// Takes every registered pid out, to be signalled; the registry is
    /// left empty.
    pub fn drain(&mut self) -> (r: Vec<i32>)
        ensures
            r@.to_set() == old(self)@,
            r@.no_duplicates(),
            forall|i: int| 0 <= i < r@.len() ==> r@[i] > 0,
            final(self)@ == Set::<i32>::empty(),
    {
        broadcast use vstd::std_specs::hash::group_hash_axioms;

        proof {
            use_type_invariant(&*self);
        }
        let mut v: Vec<i32> = Vec::new();
        let ghost items = vstd::std_specs::hash::spec_hash_keys_iter(&self.pids).remaining().unref();
        proof {
            vstd::std_specs::hash::axiom_spec_hash_keys_iter(&self.pids);
            assert(items.to_set() == self.pids@);
            assert(items.no_duplicates());
        }
        for p in it: self.pids.iter()
            invariant
                it.seq().unref() == items,
                v@ == items.take(it.index() as int),
        {
            let ghost before = v@;
            v.push(*p);
            assert(items.take(it.index() + 1) =~= before.push(*p));
        }
        assert(v@ == items);
        proof {
            assert forall|i: int| 0 <= i < v@.len() implies v@[i] > 0 by {
                assert(v@.to_set().contains(v@[i]));
            }
        }
        let mut set = HashSet::new();
        std::mem::swap(&mut set, &mut self.pids);
        set.clear();
        self.pids = set;
        v
    }
}

/// The name of a process's scratch directory: `havi-<pid>-<nanos in hex>`.
pub fn scratch_dir_name(pid: u32, nanos: u128) -> (r: String)
    ensures
        r@ == "havi-"@ + decimal(pid as nat) + "-"@ + hex(nanos as nat),
{
    let mut out = chars_of("havi-");
    push_decimal(&mut out, pid as u128);
    push_str(&mut out, "-");
    push_hex(&mut out, nanos);
    string_of(&out)
}

/// Unregistering an encoder undoes registering it: its pid is no longer
/// signalled at cleanup, a pid that was not registered before leaves the
/// registry as it was, every other pid keeps its standing, and a pid out of
/// the signal API's range never enters it.
pub proof fn law_register_then_unregister(before: Set<i32>, pid: u32)
    ensures
        pid <= i32::MAX ==> !after_unregister(after_register(before, pid), pid).contains(pid as i32),
        pid <= i32::MAX && !before.contains(pid as i32) ==> after_unregister(after_register(before, pid), pid)
            == before,
        pid > i32::MAX ==> after_register(before, pid) == before && after_unregister(before, pid) == before,
        forall|q: i32|
            q != pid ==> (#[trigger] after_unregister(after_register(before, pid), pid).contains(q)
                == before.contains(q)),
{
    if pid <= i32::MAX && !before.contains(pid as i32) {
        assert(after_unregister(after_register(before, pid), pid) =~= before);
    }
}

} // verus!
