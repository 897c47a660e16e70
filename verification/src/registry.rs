use vstd::prelude::*;
use vstd::string::StringExecFns;
use crate::errors::SupervisorError;

verus! {

/// Live bookkeeping for one supervised logical process.
///
/// `pid` is the OS pid of the spawned shell, which is also used as the
/// process-group id; it is 0 between registration and the first successful
/// spawn, and between restarts. `stop_requested` is the cooperative
/// cancellation flag read by the supervision loop at its decision points.
/// `stdin_open` records whether the child currently has a writable stdin
/// channel.
#[derive(Clone, Copy, Debug, PartialEq, Eq, Structural)]
pub struct ProcessHandle {
    pub pid: u32,
    pub stop_requested: bool,
    pub stdin_open: bool,
}

/// The handle registered before anything has been spawned.
pub open spec fn empty_handle() -> ProcessHandle {
    ProcessHandle { pid: 0, stop_requested: false, stdin_open: false }
}

/// The composite key identifying one supervised process.
pub open spec fn process_key_spec(project_path: Seq<char>, process_name: Seq<char>) -> Seq<char> {
    project_path + "::"@ + process_name
}

/// Builds the registry key for a process identity.
pub fn process_key(project_path: &str, process_name: &str) -> (r: String)
    ensures
        r@ == process_key_spec(project_path@, process_name@),
{
    let mut s: String = project_path.to_owned();
    s.append("::");
    s.append(process_name);
    s
}

/// Map from a process identity's key to its live handle.
///
/// At most one handle exists per identity at any time: registering a
/// duplicate is a rejected operation, not an overwrite. The map is viewed as
/// a `Map<Seq<char>, ProcessHandle>`.
pub struct ProcessRegistry {
    entries: Vec<(String, ProcessHandle)>,
}

/// No two entries share a key.
pub open spec fn distinct_keys(s: Seq<(String, ProcessHandle)>) -> bool {
    forall|i: int, j: int|
        0 <= i < j < s.len() ==> (#[trigger] s[i]).0@ != (#[trigger] s[j]).0@
}

/// The association map denoted by an entry list.
pub open spec fn entries_map(s: Seq<(String, ProcessHandle)>) -> Map<Seq<char>, ProcessHandle>
    decreases s.len(),
{
    if s.len() == 0 {
        Map::empty()
    } else {
        entries_map(s.drop_last()).insert(s.last().0@, s.last().1)
    }
}

impl View for ProcessRegistry {
    type V = Map<Seq<char>, ProcessHandle>;

    closed spec fn view(&self) -> Map<Seq<char>, ProcessHandle> {
        entries_map(self.entries@)
    }
}

proof fn lemma_distinct_prefix(s: Seq<(String, ProcessHandle)>)
    requires
        distinct_keys(s),
        s.len() > 0,
    ensures
        distinct_keys(s.drop_last()),
{
    assert forall|i: int, j: int| 0 <= i < j < s.drop_last().len() implies (#[trigger] s.drop_last()[i]).0@
        != (#[trigger] s.drop_last()[j]).0@ by {
        assert(s.drop_last()[i] == s[i]);
        assert(s.drop_last()[j] == s[j]);
    }
}

proof fn lemma_map_contains(s: Seq<(String, ProcessHandle)>, k: Seq<char>)
    ensures
        entries_map(s).contains_key(k) <==> exists|i: int|
            0 <= i < s.len() && (#[trigger] s[i]).0@ == k,
    decreases s.len(),
{
    if s.len() > 0 {
        lemma_map_contains(s.drop_last(), k);
        if s.last().0@ == k {
            assert(s[s.len() - 1].0@ == k);
        } else {
            if entries_map(s).contains_key(k) {
                let i = choose|i: int| 0 <= i < s.drop_last().len() && (#[trigger] s.drop_last()[i]).0@
                    == k;
                assert(s[i].0@ == k);
            }
            if exists|i: int| 0 <= i < s.len() && (#[trigger] s[i]).0@ == k {
                let i = choose|i: int| 0 <= i < s.len() && (#[trigger] s[i]).0@ == k;
                assert(i < s.len() - 1);
                assert(s.drop_last()[i].0@ == k);
            }
        }
    }
}

proof fn lemma_map_get(s: Seq<(String, ProcessHandle)>, i: int)
    requires
        distinct_keys(s),
        0 <= i < s.len(),
    ensures
        entries_map(s).contains_key(s[i].0@),
        entries_map(s)[s[i].0@] == s[i].1,
    decreases s.len(),
{
    if i == s.len() - 1 {
        assert(s.last() == s[i]);
    } else {
        lemma_distinct_prefix(s);
        assert(s.drop_last()[i] == s[i]);
        lemma_map_get(s.drop_last(), i);
        assert(s[i].0@ != s.last().0@);
    }
}

proof fn lemma_map_update(s: Seq<(String, ProcessHandle)>, i: int, h: ProcessHandle)
    requires
        distinct_keys(s),
        0 <= i < s.len(),
    ensures
        entries_map(s.update(i, (s[i].0, h))) == entries_map(s).insert(s[i].0@, h),
        distinct_keys(s.update(i, (s[i].0, h))),
    decreases s.len(),
{
    let k = s[i].0@;
    let s2 = s.update(i, (s[i].0, h));
    assert forall|p: int, q: int| 0 <= p < q < s2.len() implies (#[trigger] s2[p]).0@ != (
    #[trigger] s2[q]).0@ by {
        assert(s2[p].0@ == s[p].0@);
        assert(s2[q].0@ == s[q].0@);
    }
    if i == s.len() - 1 {
        assert(s2.drop_last() =~= s.drop_last());
        assert(s2.last() == (s[i].0, h));
        assert(entries_map(s2) == entries_map(s.drop_last()).insert(k, h));
        assert(entries_map(s.drop_last()).insert(k, s[i].1).insert(k, h) =~= entries_map(
            s.drop_last(),
        ).insert(k, h));
        assert(s.last() == s[i]);
    } else {
        lemma_distinct_prefix(s);
        assert(s.drop_last()[i] == s[i]);
        lemma_map_update(s.drop_last(), i, h);
        assert(s2.drop_last() =~= s.drop_last().update(i, (s[i].0, h)));
        assert(s2.last() == s.last());
        let m = entries_map(s.drop_last());
        let lk = s.last().0@;
        let lv = s.last().1;
        assert(k != lk);
        assert(entries_map(s2) == m.insert(k, h).insert(lk, lv));
        assert(m.insert(k, h).insert(lk, lv) =~= m.insert(lk, lv).insert(k, h));
    }
}

proof fn lemma_map_remove(s: Seq<(String, ProcessHandle)>, i: int)
    requires
        distinct_keys(s),
        0 <= i < s.len(),
    ensures
        entries_map(s.remove(i)) == entries_map(s).remove(s[i].0@),
        distinct_keys(s.remove(i)),
    decreases s.len(),
{
    let k = s[i].0@;
    let s2 = s.remove(i);
    assert forall|p: int, q: int| 0 <= p < q < s2.len() implies (#[trigger] s2[p]).0@ != (
    #[trigger] s2[q]).0@ by {
        let p0 = if p < i {
            p
        } else {
            p + 1
        };
        let q0 = if q < i {
            q
        } else {
            q + 1
        };
        assert(s2[p] == s[p0]);
        assert(s2[q] == s[q0]);
    }
    if i == s.len() - 1 {
        assert(s2 =~= s.drop_last());
        lemma_distinct_prefix(s);
        assert forall|j: int| 0 <= j < s.drop_last().len() implies (#[trigger] s.drop_last()[j]).0@
            != k by {
            assert(s.drop_last()[j] == s[j]);
        }
        lemma_map_contains(s.drop_last(), k);
        assert(!entries_map(s.drop_last()).contains_key(k));
        assert(s.last() == s[i]);
        assert(entries_map(s) == entries_map(s.drop_last()).insert(k, s[i].1));
        assert(entries_map(s.drop_last()).insert(k, s[i].1).remove(k) =~= entries_map(
            s.drop_last(),
        ));
    } else {
        lemma_distinct_prefix(s);
        assert(s.drop_last()[i] == s[i]);
        lemma_map_remove(s.drop_last(), i);
        assert(s2.drop_last() =~= s.drop_last().remove(i));
        assert(s2.len() == s.len() - 1);
        assert(s2.last() == s.last());
        let m = entries_map(s.drop_last());
        let lk = s.last().0@;
        let lv = s.last().1;
        assert(k != lk);
        assert(entries_map(s2) == m.remove(k).insert(lk, lv));
        assert(m.remove(k).insert(lk, lv) =~= m.insert(lk, lv).remove(k));
    }
}

impl ProcessRegistry {
    /// Well-formedness: no two entries share a key. Constructors establish
    /// it and every method preserves it.
    pub closed spec fn wf(&self) -> bool {
        distinct_keys(self.entries@)
    }

    /// An empty registry.
    pub fn new() -> (r: Self)
        ensures
            r@ == Map::<Seq<char>, ProcessHandle>::empty(),
            r.wf(),
    {
        ProcessRegistry { entries: Vec::new() }
    }

    /// Index of the entry with this key, if present.
    fn find_index(&self, key: &String) -> (r: Option<usize>)
        ensures
            match r {
                Some(i) => i < self.entries@.len() && self.entries@[i as int].0@ == key@,
                None => forall|j: int|
                    0 <= j < self.entries@.len() ==> (#[trigger] self.entries@[j]).0@ != key@,
            },
    {
        let n: usize = self.entries.len();
        let mut i: usize = 0;
        while i < n
            invariant
                0 <= i <= n,
                n == self.entries@.len(),
                forall|j: int| 0 <= j < i ==> (#[trigger] self.entries@[j]).0@ != key@,
            decreases n - i,
        {
            if self.entries[i].0 == *key {
                return Some(i);
            }
            i = i + 1;
        }
        None
    }

    /// Whether the identity is currently registered.
    pub fn contains(&self, key: &String) -> (r: bool)
        requires
            self.wf(),
        ensures
            r == self@.contains_key(key@),
    {
        proof {
            lemma_map_contains(self.entries@, key@);
        }
        match self.find_index(key) {
            Some(_) => true,
            None => false,
        }
    }

    /// The handle of the identity, if registered.
    pub fn get(&self, key: &String) -> (r: Option<ProcessHandle>)
        requires
            self.wf(),
        ensures
            r == if self@.contains_key(key@) {
                Some(self@[key@])
            } else {
                None::<ProcessHandle>
            },
    {
        proof {
            lemma_map_contains(self.entries@, key@);
        }
        match self.find_index(key) {
            Some(i) => {
                proof {
                    lemma_map_get(self.entries@, i as int);
                }
                Some(self.entries[i].1)
            },
            None => None,
        }
    }

    /// Admission control: registers an empty handle for the identity, or
    /// rejects the registration if one already exists. This is the sole
    /// check preventing duplicate supervision loops for one identity.
    pub fn register(&mut self, key: &String) -> (r: Result<(), SupervisorError>)
        requires
            old(self).wf(),
        ensures
            final(self).wf(),
            old(self)@.contains_key(key@) ==> r == Err::<(), SupervisorError>(
                SupervisorError::AlreadyRunning,
            ) && final(self)@ == old(self)@,
            !old(self)@.contains_key(key@) ==> r == Ok::<(), SupervisorError>(()) && final(self)@
                == old(self)@.insert(key@, empty_handle()),
    {
        proof {
            lemma_map_contains(self.entries@, key@);
        }
        match self.find_index(key) {
            Some(i) => {
                proof {
                    lemma_map_get(self.entries@, i as int);
                }
                Err(SupervisorError::AlreadyRunning)
            },
            None => {
                let ghost s = self.entries@;
                let pair = (
                    key.clone(),
                    ProcessHandle { pid: 0, stop_requested: false, stdin_open: false },
                );
                proof {
                    assert(pair.0@ == key@);
                }
                self.entries.push(pair);
                proof {
                    assert(self.entries@.drop_last() =~= s);
                    assert(self.entries@.last() == pair);
                    assert forall|p: int, q: int| 0 <= p < q < self.entries@.len() implies (
                    #[trigger] self.entries@[p]).0@ != (#[trigger] self.entries@[q]).0@ by {
                        if q == self.entries@.len() - 1 {
                            assert(self.entries@[p] == s[p]);
                        } else {
                            assert(self.entries@[p] == s[p]);
                            assert(self.entries@[q] == s[q]);
                        }
                    }
                }
                Ok(())
            },
        }
    }

    /// Removes the identity; a no-op if it is not registered. After removal
    /// the identity is available for a fresh registration.
    pub fn remove(&mut self, key: &String)
        requires
            old(self).wf(),
        ensures
            final(self).wf(),
            final(self)@ == old(self)@.remove(key@),
    {
        proof {
            lemma_map_contains(self.entries@, key@);
        }
        match self.find_index(key) {
            Some(i) => {
                proof {
                    lemma_map_remove(self.entries@, i as int);
                }
                let _ = self.entries.remove(i);
            },
            None => {
                proof {
                    assert(!self@.contains_key(key@));
                    assert(self@.remove(key@) =~= self@);
                }
            },
        }
    }

    /// Records the OS pid (also used as the process-group id) of a freshly
    /// spawned child, and marks its stdin channel open; a no-op if the
    /// identity is not registered.
    pub fn record_spawn(&mut self, key: &String, pid: u32)
        requires
            old(self).wf(),
        ensures
            final(self).wf(),
            old(self)@.contains_key(key@) ==> final(self)@ == old(self)@.insert(
                key@,
                ProcessHandle {
                    pid: pid,
                    stop_requested: old(self)@[key@].stop_requested,
                    stdin_open: true,
                },
            ),
            !old(self)@.contains_key(key@) ==> final(self)@ == old(self)@,
    {
        proof {
            lemma_map_contains(self.entries@, key@);
        }
        match self.find_index(key) {
            Some(i) => {
                proof {
                    lemma_map_get(self.entries@, i as int);
                }
                let old_handle = self.entries[i].1;
                let updated = ProcessHandle {
                    pid: pid,
                    stop_requested: old_handle.stop_requested,
                    stdin_open: true,
                };
                proof {
                    lemma_map_update(self.entries@, i as int, updated);
                }
                self.entries[i].1 = updated;
                proof {
                    assert(self.entries@ =~= old(self).entries@.update(
                        i as int,
                        (old(self).entries@[i as int].0, updated),
                    ));
                }
            },
            None => {},
        }
    }

    /// Clears the stdin channel after the child exited, so that writes to a
    /// dead process fail cleanly; a no-op if the identity is not registered.
    pub fn clear_stdin(&mut self, key: &String)
        requires
            old(self).wf(),
        ensures
            final(self).wf(),
            old(self)@.contains_key(key@) ==> final(self)@ == old(self)@.insert(
                key@,
                ProcessHandle {
                    pid: old(self)@[key@].pid,
                    stop_requested: old(self)@[key@].stop_requested,
                    stdin_open: false,
                },
            ),
            !old(self)@.contains_key(key@) ==> final(self)@ == old(self)@,
    {
        proof {
            lemma_map_contains(self.entries@, key@);
        }
        match self.find_index(key) {
            Some(i) => {
                proof {
                    lemma_map_get(self.entries@, i as int);
                }
                let old_handle = self.entries[i].1;
                let updated = ProcessHandle {
                    pid: old_handle.pid,
                    stop_requested: old_handle.stop_requested,
                    stdin_open: false,
                };
                proof {
                    lemma_map_update(self.entries@, i as int, updated);
                }
                self.entries[i].1 = updated;
                proof {
                    assert(self.entries@ =~= old(self).entries@.update(
                        i as int,
                        (old(self).entries@[i as int].0, updated),
                    ));
                }
            },
            None => {},
        }
    }

    /// Sets the cooperative stop flag of the identity and reports the pid
    /// recorded for it, or `None` if the identity is not registered.
    pub fn request_stop(&mut self, key: &String) -> (r: Option<u32>)
        requires
            old(self).wf(),
        ensures
            final(self).wf(),
            old(self)@.contains_key(key@) ==> r == Some(old(self)@[key@].pid) && final(self)@
                == old(self)@.insert(
                key@,
                ProcessHandle {
                    pid: old(self)@[key@].pid,
                    stop_requested: true,
                    stdin_open: old(self)@[key@].stdin_open,
                },
            ),
            !old(self)@.contains_key(key@) ==> r == None::<u32> && final(self)@ == old(self)@,
    {
        proof {
            lemma_map_contains(self.entries@, key@);
        }
        match self.find_index(key) {
            Some(i) => {
                proof {
                    lemma_map_get(self.entries@, i as int);
                }
                let old_handle = self.entries[i].1;
                let updated = ProcessHandle {
                    pid: old_handle.pid,
                    stop_requested: true,
                    stdin_open: old_handle.stdin_open,
                };
                proof {
                    lemma_map_update(self.entries@, i as int, updated);
                }
                self.entries[i].1 = updated;
                proof {
                    assert(self.entries@ =~= old(self).entries@.update(
                        i as int,
                        (old(self).entries@[i as int].0, updated),
                    ));
                }
                Some(old_handle.pid)
            },
            None => None,
        }
    }

    /// Application-exit sweep: sets the stop flag of every registered
    /// identity and reports every recorded process-group id, so that the
    /// caller can send each group a graceful terminate. Identities whose
    /// handle has not been populated with a real pid yet (pid 0) are
    /// flagged but yield no group to signal.
    pub fn drain_all(&mut self) -> (r: Vec<u32>)
        requires
            old(self).wf(),
        ensures
            final(self).wf(),
            forall|k: Seq<char>| #[trigger]
                final(self)@.contains_key(k) <==> old(self)@.contains_key(k),
            forall|k: Seq<char>| #[trigger]
                old(self)@.contains_key(k) ==> final(self)@[k] == (ProcessHandle {
                    pid: old(self)@[k].pid,
                    stop_requested: true,
                    stdin_open: old(self)@[k].stdin_open,
                }),
            forall|k: Seq<char>| #[trigger]
                old(self)@.contains_key(k) && old(self)@[k].pid > 0 ==> r@.contains(
                    old(self)@[k].pid,
                ),
            forall|p: u32| #[trigger]
                r@.contains(p) ==> p > 0 && exists|k: Seq<char>|
                    old(self)@.contains_key(k) && old(self)@[k].pid == p,
    {
        let ghost s0 = self.entries@;
        let n: usize = self.entries.len();
        let mut out: Vec<u32> = Vec::new();
        let mut i: usize = 0;
        while i < n
            invariant
                0 <= i <= n,
                n == self.entries@.len(),
                self.entries@.len() == s0.len(),
                s0 == old(self).entries@,
                forall|j: int|
                    0 <= j < i ==> #[trigger] self.entries@[j] == (
                    s0[j].0,
                    ProcessHandle {
                        pid: s0[j].1.pid,
                        stop_requested: true,
                        stdin_open: s0[j].1.stdin_open,
                    },
                ),
                forall|j: int| i <= j < n ==> #[trigger] self.entries@[j] == s0[j],
                forall|j: int|
                    0 <= j < i && s0[j].1.pid > 0 ==> out@.contains(#[trigger] s0[j].1.pid),
                forall|p: u32| #[trigger]
                    out@.contains(p) ==> p > 0 && exists|j: int|
                        0 <= j < i && s0[j].1.pid == p,
            decreases n - i,
        {
            let ghost out_pre = out@;
            let handle = self.entries[i].1;
            self.entries[i].1 = ProcessHandle {
                pid: handle.pid,
                stop_requested: true,
                stdin_open: handle.stdin_open,
            };
            if handle.pid > 0 {
                out.push(handle.pid);
                proof {
                    assert(out@.last() == s0[i as int].1.pid);
                    assert forall|p: u32| #[trigger] out@.contains(p) implies p > 0 && exists|
                        j: int,
                    | 0 <= j < i + 1 && s0[j].1.pid == p by {
                        let ix = choose|ix: int| 0 <= ix < out@.len() && out@[ix] == p;
                        if ix < out@.len() - 1 {
                            assert(out_pre[ix] == p);
                            assert(out_pre.contains(p));
                        } else {
                            assert(s0[i as int].1.pid == p);
                        }
                    }
                    assert forall|j: int|
                        0 <= j < i + 1 && s0[j].1.pid > 0 implies out@.contains(
                        #[trigger] s0[j].1.pid,
                    ) by {
                        if j < i {
                            let jx = choose|jx: int|
                                0 <= jx < out_pre.len() && out_pre[jx] == s0[j].1.pid;
                            assert(out@[jx] == s0[j].1.pid);
                        } else {
                            assert(out@[out@.len() - 1] == s0[j].1.pid);
                        }
                    }
                }
            }
            i = i + 1;
        }
        proof {
            let s1 = self.entries@;
            assert forall|p: int, q: int| 0 <= p < q < s1.len() implies (#[trigger] s1[p]).0@ != (
            #[trigger] s1[q]).0@ by {
                assert(s1[p].0@ == s0[p].0@);
                assert(s1[q].0@ == s0[q].0@);
            }
            assert forall|k: Seq<char>| #[trigger]
                entries_map(s1).contains_key(k) <==> entries_map(s0).contains_key(k) by {
                lemma_map_contains(s0, k);
                lemma_map_contains(s1, k);
                if entries_map(s1).contains_key(k) {
                    let ix = choose|ix: int| 0 <= ix < s1.len() && (#[trigger] s1[ix]).0@ == k;
                    assert(s0[ix].0@ == k);
                }
                if entries_map(s0).contains_key(k) {
                    let ix = choose|ix: int| 0 <= ix < s0.len() && (#[trigger] s0[ix]).0@ == k;
                    assert(s1[ix].0@ == k);
                }
            }
            assert forall|k: Seq<char>| #[trigger] entries_map(s0).contains_key(k) implies
                entries_map(s1)[k] == (ProcessHandle {
                    pid: entries_map(s0)[k].pid,
                    stop_requested: true,
                    stdin_open: entries_map(s0)[k].stdin_open,
                }) by {
                lemma_map_contains(s0, k);
                let ix = choose|ix: int| 0 <= ix < s0.len() && (#[trigger] s0[ix]).0@ == k;
                lemma_map_get(s0, ix);
                assert(s1[ix].0@ == k);
                lemma_map_get(s1, ix);
            }
            assert forall|k: Seq<char>| #[trigger]
                entries_map(s0).contains_key(k) && entries_map(s0)[k].pid > 0 implies out@.contains(
                entries_map(s0)[k].pid,
            ) by {
                lemma_map_contains(s0, k);
                let ix = choose|ix: int| 0 <= ix < s0.len() && (#[trigger] s0[ix]).0@ == k;
                lemma_map_get(s0, ix);
            }
            assert forall|p: u32| #[trigger] out@.contains(p) implies p > 0 && exists|k: Seq<char>|
                entries_map(s0).contains_key(k) && entries_map(s0)[k].pid == p by {
                let j = choose|j: int| 0 <= j < s0.len() && s0[j].1.pid == p;
                lemma_map_get(s0, j);
                assert(entries_map(s0).contains_key(s0[j].0@) && entries_map(s0)[s0[j].0@].pid
                    == p);
            }
        }
        out
    }
}

} // verus!
