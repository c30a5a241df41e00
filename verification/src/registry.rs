//! The registry of background jobs: it maps each job type to the table of
//! functions that performs jobs of that type.
//!
//! A table is registered only for jobs whose environment is the runner's
//! own; registering a job type again replaces its table.

use vstd::prelude::*;
use vstd::string::StringExecFns;

verus! {

/// The first table in `entries` registered under the job type `k`.
pub open spec fn lookup<V>(entries: Seq<(String, V)>, k: Seq<char>) -> Option<V>
    decreases entries.len(),
{
    if entries.len() == 0 {
        None
    } else if entries[0].0@ == k {
        Some(entries[0].1)
    } else {
        lookup(entries.drop_first(), k)
    }
}

/// The map from job types to tables that `entries` holds.
pub open spec fn entries_map<V>(entries: Seq<(String, V)>) -> Map<Seq<char>, V> {
    Map::new(|k: Seq<char>| lookup(entries, k) is Some, |k: Seq<char>| lookup(entries, k)->Some_0)
}

/// The map that loading `vtables` gives: the tables for the runner's
/// environment, each under its job type, a later one replacing an earlier one
/// of the same type.
pub open spec fn loaded_map<V>(vtables: Seq<(&str, bool, V)>) -> Map<Seq<char>, V>
    decreases vtables.len(),
{
    if vtables.len() == 0 {
        Map::empty()
    } else {
        let last = vtables.last();
        let before = loaded_map(vtables.drop_last());
        if last.1 {
            before.insert(last.0@, last.2)
        } else {
            before
        }
    }
}

/// The map after registering `vtable` under `job_type`, for a job whose
/// environment is (`same_environment`) or is not the runner's.
pub open spec fn registered<V>(m: Map<Seq<char>, V>, job_type: Seq<char>, vtable: V, same_environment: bool) -> Map<Seq<char>, V> {
    if same_environment {
        m.insert(job_type, vtable)
    } else {
        m
    }
}

proof fn lemma_lookup_found<V>(entries: Seq<(String, V)>, i: int, k: Seq<char>)
    requires
        0 <= i < entries.len(),
        entries[i].0@ == k,
        forall|j: int| 0 <= j < i ==> (#[trigger] entries[j]).0@ != k,
    ensures
        lookup(entries, k) == Some(entries[i].1),
    decreases i,
{
    if i > 0 {
        assert forall|j: int| 0 <= j < i - 1 implies (#[trigger] entries.drop_first()[j]).0@ != k by {
            assert(entries.drop_first()[j] == entries[j + 1]);
        }
        lemma_lookup_found(entries.drop_first(), i - 1, k);
    }
}

proof fn lemma_lookup_absent<V>(entries: Seq<(String, V)>, k: Seq<char>)
    requires
        forall|j: int| 0 <= j < entries.len() ==> (#[trigger] entries[j]).0@ != k,
    ensures
        lookup(entries, k) is None,
    decreases entries.len(),
{
    if entries.len() > 0 {
        assert(entries[0].0@ != k);
        assert forall|j: int| 0 <= j < entries.drop_first().len() implies (
        #[trigger] entries.drop_first()[j]).0@ != k by {
            assert(entries.drop_first()[j] == entries[j + 1]);
        }
        lemma_lookup_absent(entries.drop_first(), k);
    }
}

proof fn lemma_lookup_push<V>(entries: Seq<(String, V)>, e: (String, V), k: Seq<char>)
    ensures
        lookup(entries.push(e), k) == if lookup(entries, k) is Some {
            lookup(entries, k)
        } else if e.0@ == k {
            Some(e.1)
        } else {
            None
        },
    decreases entries.len(),
{
    if entries.len() > 0 {
        assert(entries.push(e)[0] == entries[0]);
        assert(entries.push(e).drop_first() =~= entries.drop_first().push(e));
        lemma_lookup_push(entries.drop_first(), e, k);
    } else {
        assert(entries.push(e)[0] == e);
        assert(entries.push(e).drop_first() =~= Seq::<(String, V)>::empty());
        assert(lookup(Seq::<(String, V)>::empty(), k) is None);
    }
}

proof fn lemma_lookup_update<V>(entries: Seq<(String, V)>, i: int, e: (String, V), k: Seq<char>)
    requires
        0 <= i < entries.len(),
        e.0@ == entries[i].0@,
        forall|j: int| 0 <= j < i ==> (#[trigger] entries[j]).0@ != e.0@,
    ensures
        lookup(entries.update(i, e), k) == if k == e.0@ {
            Some(e.1)
        } else {
            lookup(entries, k)
        },
    decreases i,
{
    if i > 0 {
        assert(entries.update(i, e).drop_first() =~= entries.drop_first().update(i - 1, e));
        assert forall|j: int| 0 <= j < i - 1 implies (#[trigger] entries.drop_first()[j]).0@
            != e.0@ by {
            assert(entries.drop_first()[j] == entries[j + 1]);
        }
        lemma_lookup_update(entries.drop_first(), i - 1, e, k);
    } else {
        assert(entries.update(i, e).drop_first() =~= entries.drop_first());
    }
}

/// The perform tables of the jobs that a runner can run, by job type.
pub struct Registry<V> {
    jobs: Vec<(String, V)>,
}

impl<V> View for Registry<V> {
    type V = Map<Seq<char>, V>;

    closed spec fn view(&self) -> Map<Seq<char>, V> {
        entries_map(self.jobs@)
    }
}

/// The message of the failure of a job whose type no table is registered for.
pub open spec fn spec_unknown_job_message(job_type: Seq<char>) -> Seq<char> {
    seq!['U', 'n', 'k', 'n', 'o', 'w', 'n', ' ', 'j', 'o', 'b', ' ', 't', 'y', 'p', 'e', ' ']
        + job_type
}

impl<V> Registry<V> {
    /// An empty registry.
    pub fn new() -> (r: Registry<V>)
        ensures
            r@ == Map::<Seq<char>, V>::empty(),
    {
        let r = Registry { jobs: Vec::new() };
        assert(r@ =~= Map::<Seq<char>, V>::empty());
        r
    }

    /// The index of the first entry for `job_type`, if any.
    fn find(&self, job_type: &str) -> (res: Option<usize>)
        ensures
            match res {
                Some(i) => {
                    &&& i < self.jobs@.len()
                    &&& self.jobs@[i as int].0@ == job_type@
                    &&& forall|j: int| 0 <= j < i ==> (#[trigger] self.jobs@[j]).0@ != job_type@
                },
                None => forall|j: int|
                    0 <= j < self.jobs@.len() ==> (#[trigger] self.jobs@[j]).0@ != job_type@,
            },
    {
        let key = String::from_str(job_type);
        let n: usize = self.jobs.len();
        let mut i: usize = 0;
        while i < n
            invariant
                n == self.jobs@.len(),
                i <= n,
                key@ == job_type@,
                forall|j: int| 0 <= j < i ==> (#[trigger] self.jobs@[j]).0@ != job_type@,
            decreases n - i,
        {
            if self.jobs[i].0 == key {
                return Some(i);
            }
            i = i + 1;
        }
        None
    }

    /// Registers `vtable` for jobs of type `job_type` if the job's environment
    /// is the runner's (`same_environment`); otherwise the registry is left
    /// unchanged. A table already registered for the type is replaced.
    pub fn register_job(&mut self, job_type: &str, vtable: V, same_environment: bool)
        ensures
            final(self)@ == registered(old(self)@, job_type@, vtable, same_environment),
    {
        if same_environment {
            let entry = (String::from_str(job_type), vtable);
            let ghost old_jobs = self.jobs@;
            match self.find(job_type) {
                Some(i) => {
                    self.jobs.set(i, entry);
                    proof {
                        assert forall|k: Seq<char>|
                            lookup(self.jobs@, k) == (if k == job_type@ {
                                Some(vtable)
                            } else {
                                lookup(old_jobs, k)
                            }) by {
                            lemma_lookup_update(old_jobs, i as int, entry, k);
                        }
                        assert(self@ =~= old(self)@.insert(job_type@, vtable));
                    }
                },
                None => {
                    self.jobs.push(entry);
                    proof {
                        assert forall|k: Seq<char>|
                            lookup(self.jobs@, k) == (if k == job_type@ {
                                Some(vtable)
                            } else {
                                lookup(old_jobs, k)
                            }) by {
                            lemma_lookup_push(old_jobs, entry, k);
                            if k == job_type@ {
                                lemma_lookup_absent(old_jobs, k);
                            }
                        }
                        assert(self@ =~= old(self)@.insert(job_type@, vtable));
                    }
                },
            }
        }
    }

    /// The table registered for jobs of type `job_type`, if any.
    pub fn get(&self, job_type: &str) -> (res: Option<&V>)
        ensures
            match res {
                Some(v) => self@.contains_key(job_type@) && *v == self@[job_type@],
                None => !self@.contains_key(job_type@),
            },
    {
        match self.find(job_type) {
            Some(i) => {
                proof {
                    lemma_lookup_found(self.jobs@, i as int, job_type@);
                }
                Some(&self.jobs[i].1)
            },
            None => {
                proof {
                    lemma_lookup_absent(self.jobs@, job_type@);
                }
                None
            },
        }
    }

    /// The table for jobs of type `job_type`, or the failure `Unknown job type
    /// <job_type>` that a job of an unregistered type ends with.
    pub fn get_or_unknown(&self, job_type: &str) -> (res: Result<&V, String>)
        ensures
            match res {
                Ok(v) => self@.contains_key(job_type@) && *v == self@[job_type@],
                Err(msg) => !self@.contains_key(job_type@) && msg@ == spec_unknown_job_message(
                    job_type@,
                ) && msg@ == "Unknown job type "@ + job_type@,
            },
    {
        proof {
            reveal_strlit("Unknown job type ");
        }
        match self.get(job_type) {
            Some(v) => Ok(v),
            None => {
                let mut msg = String::from_str("Unknown job type ");
                proof {
                    reveal_strlit("Unknown job type ");
                }
                msg.append(job_type);
                assert(msg@ =~= spec_unknown_job_message(job_type@));
                Err(msg)
            },
        }
    }
}

impl<V: Copy> Registry<V> {
    /// The registry of the tables in `vtables` (each with its job type and
    /// whether its environment is the runner's) that are for the runner's
    /// environment; of two tables for one job type the later one stays.
    pub fn load(vtables: &[(&str, bool, V)]) -> (r: Registry<V>)
        ensures
            r@ == loaded_map(vtables@),
            forall|k: Seq<char>| #[trigger] r@.contains_key(k) <==> has_own_table(vtables@, k),
            forall|i: int| #[trigger] is_last_own_table(vtables@, i) ==> r@[vtables@[i].0@] == vtables@[i].2,
    {
        let mut r = Registry::new();
        let n: usize = vtables.len();
        let mut i: usize = 0;
        while i < n
            invariant
                n == vtables@.len(),
                i <= n,
                r@ == loaded_map(vtables@.take(i as int)),
            decreases n - i,
        {
            let entry = &vtables[i];
            r.register_job(entry.0, entry.2, entry.1);
            proof {
                assert(vtables@.take(i + 1).drop_last() =~= vtables@.take(i as int));
                assert(vtables@.take(i + 1).last() == vtables@[i as int]);
            }
            i = i + 1;
        }
        proof {
            assert(vtables@.take(n as int) =~= vtables@);
            lemma_load_keeps_every_own_table(vtables@);
        }
        r
    }
}

/// Law: after registering a table for a job type (for the runner's
/// environment), looking that type up gives the table, and every other job
/// type gives what it gave before.
pub proof fn lemma_get_after_register<V>(m: Map<Seq<char>, V>, job_type: Seq<char>, vtable: V, other: Seq<char>)
    requires
        other != job_type,
    ensures
        registered(m, job_type, vtable, true).contains_key(job_type),
        registered(m, job_type, vtable, true)[job_type] == vtable,
        registered(m, job_type, vtable, true).contains_key(other) == m.contains_key(other),
        registered(m, job_type, vtable, true)[other] == m[other],
{
}

/// Law: a job whose environment is not the runner's is not registered.
pub proof fn lemma_register_other_environment_is_ignored<V>(m: Map<Seq<char>, V>, job_type: Seq<char>, vtable: V)
    ensures
        registered(m, job_type, vtable, false) == m,
{
}

/// Law: registering the same table twice is the same as registering it once.
pub proof fn lemma_register_idempotent<V>(m: Map<Seq<char>, V>, job_type: Seq<char>, vtable: V, same_environment: bool)
    ensures
        registered(registered(m, job_type, vtable, same_environment), job_type, vtable, same_environment)
            == registered(m, job_type, vtable, same_environment),
{
    assert(registered(registered(m, job_type, vtable, same_environment), job_type, vtable, same_environment)
        =~= registered(m, job_type, vtable, same_environment));
}

/// Whether `vtables` holds a table for the job type `k` whose environment is
/// the runner's.
pub open spec fn has_own_table<V>(vtables: Seq<(&str, bool, V)>, k: Seq<char>) -> bool {
    exists|i: int| 0 <= i < vtables.len() && #[trigger] vtables[i].1 && vtables[i].0@ == k
}

/// Whether entry `i` of `vtables` is for the runner's environment and no later
/// such entry has the same job type.
pub open spec fn is_last_own_table<V>(vtables: Seq<(&str, bool, V)>, i: int) -> bool {
    &&& 0 <= i < vtables.len()
    &&& vtables[i].1
    &&& forall|j: int| i < j < vtables.len() && #[trigger] vtables[j].1 ==> vtables[j].0@ != vtables[i].0@
}

/// Law: loading keeps every table for the runner's environment and nothing
/// else: a job type is in the loaded registry exactly when some table for the
/// runner's environment has that type, and its table is the last such one.
pub proof fn lemma_load_keeps_every_own_table<V>(vtables: Seq<(&str, bool, V)>)
    ensures
        forall|k: Seq<char>| #[trigger] loaded_map(vtables).contains_key(k) <==> has_own_table(vtables, k),
        forall|i: int| #[trigger] is_last_own_table(vtables, i) ==> loaded_map(vtables)[vtables[i].0@]
            == vtables[i].2,
    decreases vtables.len(),
{
    if vtables.len() > 0 {
        let p = vtables.drop_last();
        let last = vtables.last();
        lemma_load_keeps_every_own_table(p);
        let n = vtables.len() - 1;
        assert(last == vtables[n]);
        assert(loaded_map(vtables) == if last.1 {
            loaded_map(p).insert(last.0@, last.2)
        } else {
            loaded_map(p)
        });
        assert forall|k: Seq<char>| #[trigger] loaded_map(vtables).contains_key(k) <==> has_own_table(vtables, k) by {
            if loaded_map(vtables).contains_key(k) {
                if last.1 && last.0@ == k {
                    assert(vtables[n].1 && vtables[n].0@ == k);
                } else {
                    assert(has_own_table(p, k));
                    let i = choose|i: int| 0 <= i < p.len() && #[trigger] p[i].1 && p[i].0@ == k;
                    assert(vtables[i] == p[i]);
                }
            }
            if has_own_table(vtables, k) {
                let i = choose|i: int| 0 <= i < vtables.len() && #[trigger] vtables[i].1 && vtables[i].0@ == k;
                if i < n {
                    assert(p[i] == vtables[i]);
                    assert(has_own_table(p, k));
                }
            }
        }
        assert forall|i: int| #[trigger] is_last_own_table(vtables, i) implies loaded_map(vtables)[vtables[i].0@]
            == vtables[i].2 by {
            if i < n {
                assert(p[i] == vtables[i]);
                assert forall|j: int| i < j < p.len() && #[trigger] p[j].1 implies p[j].0@ != p[i].0@ by {
                    assert(p[j] == vtables[j]);
                }
                assert(is_last_own_table(p, i));
                if last.1 {
                    assert(vtables[n].0@ != vtables[i].0@);
                }
            }
        }
    }
}

/// Law: loading a single table for the runner's environment gives a registry
/// holding just that table.
pub proof fn lemma_load_one_table<V>(t: &str, v: V)
    ensures
        loaded_map(seq![(t, true, v)]) == map![t@ => v],
{
    assert(seq![(t, true, v)].drop_last() =~= Seq::<(&str, bool, V)>::empty());
    assert(loaded_map(Seq::<(&str, bool, V)>::empty()) == Map::<Seq<char>, V>::empty());
    assert(seq![(t, true, v)].last() == (t, true, v));
    assert(loaded_map(seq![(t, true, v)]) =~= map![t@ => v]);
}

} // verus!
