//! The shared queue store: the contract between the dispatcher, the status
//! reader, and the external scanner workers.
//!
//! The store holds four pieces of state, all keyed by job id: the FIFO list
//! of pending job payloads, the per-job payload details, the per-job status
//! fields that the worker reports, and the set of job ids currently
//! in flight. This module gives that contract an executable model: every
//! operation states exactly what it does to the four pieces, so the
//! orchestration logic and its laws are proved against it, and an
//! application wires the same operations to an external store.

use vstd::prelude::*;
use crate::dispatch::{build_payload, JobPayload, JobPayloadView, spec_payload_of};
use crate::ids::fresh_id;
use crate::models::ScanConfig;

verus! {

/// The map that an association list denotes: a later entry for a key
/// supersedes an earlier one.
pub open spec fn kv_map<V: View>(entries: Seq<(String, V)>) -> Map<Seq<char>, V::V>
    decreases entries.len(),
{
    if entries.len() == 0 {
        Map::empty()
    } else {
        kv_map(entries.drop_last()).insert(entries.last().0@, entries.last().1@)
    }
}

/// Looks a key up in an association list, honouring the later-entry-wins
/// reading that [`kv_map`] gives it.
fn kv_get<'a, V: View>(entries: &'a Vec<(String, V)>, key: &String) -> (r: Option<&'a V>)
    ensures
        match r {
            Some(v) => kv_map(entries@).contains_key(key@) && v@ == kv_map(entries@)[key@],
            None => !kv_map(entries@).contains_key(key@),
        },
{
    let ghost full = entries@;
    let mut i: usize = entries.len();
    assert(full.take(i as int) =~= full);
    while i > 0
        invariant
            i <= entries.len(),
            full == entries@,
            kv_map(full).contains_key(key@) == kv_map(full.take(i as int)).contains_key(key@),
            kv_map(full).contains_key(key@) ==> kv_map(full)[key@] == kv_map(
                full.take(i as int),
            )[key@],
        decreases i,
    {
        i = i - 1;
        let e = &entries[i];
        proof {
            assert(full.take(i + 1).drop_last() =~= full.take(i as int));
            assert(full.take(i + 1).last() == full[i as int]);
        }
        if e.0 == *key {
            return Some(&e.1);
        }
    }
    assert(full.take(0) =~= Seq::<(String, V)>::empty());
    None
}

/// A job's status snapshot: the free-form mapping from field name to value
/// that the worker processing the job reports. The orchestration core treats
/// it as opaque data; it assumes no particular fields.
pub struct StatusMap {
    entries: Vec<(String, String)>,
}

impl View for StatusMap {
    type V = Map<Seq<char>, Seq<char>>;

    closed spec fn view(&self) -> Map<Seq<char>, Seq<char>> {
        kv_map(self.entries@)
    }
}

impl StatusMap {
    /// The empty snapshot: no fields reported.
    pub fn new() -> (m: StatusMap)
        ensures
            m@ == Map::<Seq<char>, Seq<char>>::empty(),
    {
        StatusMap { entries: Vec::new() }
    }

    /// The snapshot holding exactly the given field-value pairs, a later
    /// pair for a field superseding an earlier one.
    pub fn from_fields(fields: Vec<(String, String)>) -> (m: StatusMap)
        ensures
            m@ == kv_map(fields@),
    {
        StatusMap { entries: fields }
    }

    /// Writes one field, keeping every other field as it was.
    pub fn set(&mut self, field: String, value: String)
        ensures
            final(self)@ == old(self)@.insert(field@, value@),
    {
        self.entries.push((field, value));
        proof {
            assert(self.entries@.drop_last() =~= old(self).entries@);
        }
    }

    /// Reads one field.
    pub fn get(&self, field: &String) -> (r: Option<&String>)
        ensures
            match r {
                Some(v) => self@.contains_key(field@) && v@ == self@[field@],
                None => !self@.contains_key(field@),
            },
    {
        kv_get(&self.entries, field)
    }

    /// Whether no field at all is set. An empty snapshot and a missing one
    /// are the same thing to this subsystem: the job is absent.
    pub fn is_empty(&self) -> (r: bool)
        ensures
            r == (self@ == Map::<Seq<char>, Seq<char>>::empty()),
    {
        if self.entries.len() == 0 {
            true
        } else {
            proof {
                assert(self@.contains_key(self.entries@.last().0@));
                assert(self@ != Map::<Seq<char>, Seq<char>>::empty());
            }
            false
        }
    }

    /// The stored field-value pairs, in write order; a later pair for a
    /// field supersedes an earlier one.
    pub fn fields(&self) -> (r: &Vec<(String, String)>)
        ensures
            kv_map(r@) == self@,
    {
        &self.entries
    }

    /// Copies a snapshot. The copy denotes the same field mapping.
    pub fn duplicate(&self) -> (r: StatusMap)
        ensures
            r@ == self@,
    {
        let mut entries: Vec<(String, String)> = Vec::new();
        let mut i: usize = 0;
        while i < self.entries.len()
            invariant
                i <= self.entries.len(),
                entries@ == self.entries@.take(i as int),
            decreases self.entries.len() - i,
        {
            let e = &self.entries[i];
            entries.push((e.0.clone(), e.1.clone()));
            assert(entries@ =~= self.entries@.take(i + 1));
            i += 1;
        }
        assert(entries@ =~= self.entries@);
        StatusMap { entries }
    }
}

/// The views of a list of payloads, in list order.
pub open spec fn payload_views(ps: Seq<JobPayload>) -> Seq<JobPayloadView> {
    ps.map_values(|p: JobPayload| p@)
}

/// Registers each payload's details in turn, in list order.
pub open spec fn insert_all(
    details: Map<Seq<char>, JobPayloadView>,
    ps: Seq<JobPayloadView>,
) -> Map<Seq<char>, JobPayloadView>
    decreases ps.len(),
{
    if ps.len() == 0 {
        details
    } else {
        insert_all(details, ps.drop_last()).insert(ps.last().job_id, ps.last())
    }
}

/// The shared queue store, as the orchestration core relies on it: pending
/// jobs, published payload details, worker-reported statuses, and the
/// in-flight set. This model is the contract an external store must meet;
/// it is also directly usable as an in-memory store.
pub struct QueueStore {
    pending: Vec<JobPayload>,
    details: Vec<(String, JobPayload)>,
    statuses: Vec<(String, StatusMap)>,
    inflight: Vec<String>,
}

impl QueueStore {
    /// The pending-jobs FIFO, oldest first.
    pub closed spec fn pending_jobs(self) -> Seq<JobPayloadView> {
        self.pending@.map_values(|p: JobPayload| p@)
    }

    /// The published payload details, by job id.
    pub closed spec fn job_details(self) -> Map<Seq<char>, JobPayloadView> {
        kv_map(self.details@)
    }

    /// The worker-reported status fields, by job id.
    pub closed spec fn job_statuses(self) -> Map<Seq<char>, Map<Seq<char>, Seq<char>>> {
        kv_map(self.statuses@)
    }

    /// The job ids currently in flight, in the order the store enumerates
    /// them. Callers may not rely on that order.
    pub closed spec fn inflight_ids(self) -> Seq<Seq<char>> {
        self.inflight@.map_values(|s: String| s@)
    }

    /// A store is well formed when no job id appears twice in the in-flight
    /// set.
    pub open spec fn wf(self) -> bool {
        forall|i: int, j: int|
            0 <= i < j < self.inflight_ids().len() ==> self.inflight_ids()[i]
                != self.inflight_ids()[j]
    }

    /// The status fields stored for a job; the empty mapping where none are.
    pub open spec fn status_fields(self, job_id: Seq<char>) -> Map<Seq<char>, Seq<char>> {
        if self.job_statuses().contains_key(job_id) {
            self.job_statuses()[job_id]
        } else {
            Map::empty()
        }
    }

    /// The status snapshot a reader observes for a job: absent where no
    /// field is stored, whether because no map exists for the job or
    /// because the stored map is empty.
    pub open spec fn status_of(self, job_id: Seq<char>) -> Option<Map<Seq<char>, Seq<char>>> {
        if self.job_statuses().contains_key(job_id) && self.job_statuses()[job_id] != Map::<
            Seq<char>,
            Seq<char>,
        >::empty() {
            Some(self.job_statuses()[job_id])
        } else {
            None
        }
    }

    /// An empty store: nothing pending, no details, no statuses, nothing in
    /// flight.
    pub fn new() -> (q: QueueStore)
        ensures
            q.pending_jobs() == Seq::<JobPayloadView>::empty(),
            q.job_details() == Map::<Seq<char>, JobPayloadView>::empty(),
            q.job_statuses() == Map::<Seq<char>, Map<Seq<char>, Seq<char>>>::empty(),
            q.inflight_ids() == Seq::<Seq<char>>::empty(),
            q.wf(),
    {
        let q = QueueStore {
            pending: Vec::new(),
            details: Vec::new(),
            statuses: Vec::new(),
            inflight: Vec::new(),
        };
        proof {
            assert(q.pending_jobs() =~= Seq::<JobPayloadView>::empty());
            assert(q.inflight_ids() =~= Seq::<Seq<char>>::empty());
        }
        q
    }

    /// Atomically publishes a payload: appends it to the pending FIFO and
    /// stores its details under its job id in one step, so no observer sees
    /// one without the other. Statuses and the in-flight set are untouched.
    pub fn enqueue_job(&mut self, payload: &JobPayload)
        ensures
            final(self).pending_jobs() == old(self).pending_jobs().push(payload@),
            final(self).job_details() == old(self).job_details().insert(
                payload@.job_id,
                payload@,
            ),
            final(self).job_statuses() == old(self).job_statuses(),
            final(self).inflight_ids() == old(self).inflight_ids(),
            final(self).wf() == old(self).wf(),
    {
        self.pending.push(payload.duplicate());
        self.details.push((payload.job_id.clone(), payload.duplicate()));
        proof {
            assert(self.pending_jobs() =~= old(self).pending_jobs().push(payload@));
            assert(self.details@.drop_last() =~= old(self).details@);
        }
    }

    /// Dispatches a configuration: builds its payload under a fresh job id
    /// and publishes it atomically. The returned payload is the one
    /// published. Statuses and the in-flight set are untouched — a freshly
    /// dispatched job has no status yet, and "no status yet" is a normal
    /// transient state for callers.
    pub fn dispatch(&mut self, config: &ScanConfig) -> (p: JobPayload)
        requires
            i32::MIN <= config.duration * 60 <= i32::MAX,
        ensures
            p@ == spec_payload_of(*config, p@.job_id),
            p@.job_id.len() == 36,
            final(self).pending_jobs() == old(self).pending_jobs().push(p@),
            final(self).job_details() == old(self).job_details().insert(p@.job_id, p@),
            final(self).job_statuses() == old(self).job_statuses(),
            final(self).inflight_ids() == old(self).inflight_ids(),
            final(self).wf() == old(self).wf(),
    {
        let job_id = fresh_id();
        let p = build_payload(config, job_id);
        self.enqueue_job(&p);
        p
    }

    /// Dispatches every configuration independently, in order: a best-effort
    /// fan-out, one payload per configuration. A configuration whose stored
    /// URL text does not decode is still dispatched, with an empty target
    /// list.
    pub fn dispatch_all(&mut self, configs: &Vec<ScanConfig>) -> (ps: Vec<JobPayload>)
        requires
            forall|i: int|
                0 <= i < configs@.len() ==> i32::MIN <= #[trigger] configs@[i].duration * 60
                    <= i32::MAX,
        ensures
            ps@.len() == configs@.len(),
            forall|i: int|
                0 <= i < ps@.len() ==> #[trigger] ps@[i]@ == spec_payload_of(
                    configs@[i],
                    ps@[i]@.job_id,
                ),
            final(self).pending_jobs() == old(self).pending_jobs() + payload_views(ps@),
            final(self).job_details() == insert_all(old(self).job_details(), payload_views(ps@)),
            final(self).job_statuses() == old(self).job_statuses(),
            final(self).inflight_ids() == old(self).inflight_ids(),
            final(self).wf() == old(self).wf(),
    {
        let mut ps: Vec<JobPayload> = Vec::new();
        proof {
            assert(payload_views(ps@) =~= Seq::<JobPayloadView>::empty());
            assert(self.pending_jobs() =~= old(self).pending_jobs() + payload_views(ps@));
        }
        let mut i: usize = 0;
        while i < configs.len()
            invariant
                i <= configs.len(),
                ps@.len() == i,
                forall|k: int|
                    0 <= k < configs@.len() ==> i32::MIN <= #[trigger] configs@[k].duration * 60
                        <= i32::MAX,
                forall|k: int|
                    0 <= k < i as int ==> #[trigger] ps@[k]@ == spec_payload_of(
                        configs@[k],
                        ps@[k]@.job_id,
                    ),
                self.pending_jobs() == old(self).pending_jobs() + payload_views(ps@),
                self.job_details() == insert_all(old(self).job_details(), payload_views(ps@)),
                self.job_statuses() == old(self).job_statuses(),
                self.inflight_ids() == old(self).inflight_ids(),
                self.wf() == old(self).wf(),
            decreases configs.len() - i,
        {
            let ghost prev = ps@;
            let p = self.dispatch(&configs[i]);
            ps.push(p);
            proof {
                assert(payload_views(ps@) =~= payload_views(prev).push(ps@.last()@));
                assert(payload_views(ps@).drop_last() =~= payload_views(prev));
                assert(self.pending_jobs() =~= old(self).pending_jobs() + payload_views(ps@));
            }
            i += 1;
        }
        ps
    }

    /// Looks a published payload up by job id.
    pub fn get_job_details(&self, job_id: &String) -> (r: Option<JobPayload>)
        ensures
            match r {
                Some(p) => self.job_details().contains_key(job_id@) && p@
                    == self.job_details()[job_id@],
                None => !self.job_details().contains_key(job_id@),
            },
    {
        match kv_get(&self.details, job_id) {
            Some(p) => Some(p.duplicate()),
            None => None,
        }
    }

    /// Reads a job's status snapshot: absent where no field is stored for
    /// it, whether the map is missing or empty.
    pub fn get_job_status(&self, job_id: &String) -> (r: Option<StatusMap>)
        ensures
            match r {
                Some(m) => self.status_of(job_id@) == Some(m@),
                None => self.status_of(job_id@) is None,
            },
    {
        match kv_get(&self.statuses, job_id) {
            Some(m) => if m.is_empty() {
                None
            } else {
                Some(m.duplicate())
            },
            None => None,
        }
    }

    /// A worker writes one status field for its job, leaving the job's other
    /// fields and every other job untouched. Pending jobs, details and the
    /// in-flight set do not change.
    pub fn set_status_field(&mut self, job_id: &String, field: String, value: String)
        ensures
            final(self).job_statuses() == old(self).job_statuses().insert(
                job_id@,
                old(self).status_fields(job_id@).insert(field@, value@),
            ),
            final(self).pending_jobs() == old(self).pending_jobs(),
            final(self).job_details() == old(self).job_details(),
            final(self).inflight_ids() == old(self).inflight_ids(),
            final(self).wf() == old(self).wf(),
    {
        let mut m = match kv_get(&self.statuses, job_id) {
            Some(m0) => m0.duplicate(),
            None => StatusMap::new(),
        };
        m.set(field, value);
        self.statuses.push((job_id.clone(), m));
        proof {
            assert(self.statuses@.drop_last() =~= old(self).statuses@);
        }
    }

    /// A worker clears its job's status; afterwards the job reads as absent.
    pub fn clear_status(&mut self, job_id: &String)
        ensures
            final(self).job_statuses() == old(self).job_statuses().insert(
                job_id@,
                Map::<Seq<char>, Seq<char>>::empty(),
            ),
            final(self).status_of(job_id@) is None,
            final(self).pending_jobs() == old(self).pending_jobs(),
            final(self).job_details() == old(self).job_details(),
            final(self).inflight_ids() == old(self).inflight_ids(),
            final(self).wf() == old(self).wf(),
    {
        self.statuses.push((job_id.clone(), StatusMap::new()));
        proof {
            assert(self.statuses@.drop_last() =~= old(self).statuses@);
        }
    }

    /// A worker marks its job as running. Marking a job that is already in
    /// flight changes nothing.
    pub fn mark_inflight(&mut self, job_id: &String)
        requires
            old(self).wf(),
        ensures
            final(self).wf(),
            final(self).inflight_ids() == if old(self).inflight_ids().contains(job_id@) {
                old(self).inflight_ids()
            } else {
                old(self).inflight_ids().push(job_id@)
            },
            final(self).pending_jobs() == old(self).pending_jobs(),
            final(self).job_details() == old(self).job_details(),
            final(self).job_statuses() == old(self).job_statuses(),
    {
        let mut found = false;
        let mut i: usize = 0;
        while i < self.inflight.len()
            invariant
                i <= self.inflight.len(),
                self == old(self),
                found ==> old(self).inflight_ids().contains(job_id@),
                !found ==> forall|j: int|
                    0 <= j < i as int ==> old(self).inflight_ids()[j] != job_id@,
            decreases self.inflight.len() - i,
        {
            if self.inflight[i] == *job_id {
                found = true;
                proof {
                    assert(old(self).inflight_ids()[i as int] == job_id@);
                }
            }
            i += 1;
        }
        if !found {
            assert(!old(self).inflight_ids().contains(job_id@));
            let ghost prev = self.inflight_ids();
            self.inflight.push(job_id.clone());
            proof {
                assert(self.inflight_ids() =~= prev.push(job_id@));
                assert forall|a: int, b: int|
                    0 <= a < b < self.inflight_ids().len() implies self.inflight_ids()[a]
                    != self.inflight_ids()[b] by {
                    if b == prev.len() {
                        assert(self.inflight_ids()[a] == prev[a]);
                        assert(prev[a] != job_id@);
                    }
                }
            }
        }
    }

    /// A worker removes its job from the in-flight set; afterwards the job
    /// is no longer listed as running, and every other job's membership is
    /// as it was. Clearing a job that is not in flight changes nothing.
    pub fn clear_inflight(&mut self, job_id: &String)
        requires
            old(self).wf(),
        ensures
            final(self).wf(),
            !final(self).inflight_ids().contains(job_id@),
            forall|x: Seq<char>|
                x != job_id@ ==> (final(self).inflight_ids().contains(x) <==> old(
                    self,
                ).inflight_ids().contains(x)),
            !old(self).inflight_ids().contains(job_id@) ==> final(self).inflight_ids() == old(
                self,
            ).inflight_ids(),
            final(self).pending_jobs() == old(self).pending_jobs(),
            final(self).job_details() == old(self).job_details(),
            final(self).job_statuses() == old(self).job_statuses(),
    {
        let ghost old_ids = old(self).inflight_ids();
        let mut i: usize = 0;
        while i < self.inflight.len()
            invariant
                i <= self.inflight.len(),
                self == old(self),
                old(self).wf(),
                old_ids == old(self).inflight_ids(),
                forall|j: int| 0 <= j < i as int ==> old_ids[j] != job_id@,
            decreases self.inflight.len() - i,
        {
            if self.inflight[i] == *job_id {
                proof {
                    assert(old_ids[i as int] == job_id@);
                }
                self.inflight.remove(i);
                proof {
                    let new_ids = self.inflight_ids();
                    old(self).inflight@.remove_ensures(i as int);
                    old_ids.remove_ensures(i as int);
                    assert(new_ids =~= old_ids.remove(i as int));
                    assert forall|j: int| 0 <= j < new_ids.len() implies new_ids[j] != job_id@ by {
                        if j < i as int {
                            assert(new_ids[j] == old_ids[j]);
                        } else {
                            assert(new_ids[j] == old_ids[j + 1]);
                        }
                    }
                    assert(!new_ids.contains(job_id@));
                    assert forall|x: Seq<char>| x != job_id@ implies (new_ids.contains(x) <==> old_ids.contains(
                        x,
                    )) by {
                        if new_ids.contains(x) {
                            let j = choose|j: int|
                                0 <= j < new_ids.len() && new_ids[j] == x;
                            if j < i as int {
                                assert(old_ids[j] == x);
                            } else {
                                assert(old_ids[j + 1] == x);
                            }
                        }
                        if old_ids.contains(x) {
                            let j = choose|j: int|
                                0 <= j < old_ids.len() && old_ids[j] == x;
                            if j < i as int {
                                assert(new_ids[j] == x);
                            } else {
                                assert(j != i as int);
                                assert(new_ids[j - 1] == x);
                            }
                        }
                    }
                    assert forall|a: int, b: int|
                        0 <= a < b < new_ids.len() implies new_ids[a] != new_ids[b] by {
                        let a0: int = if a < i as int {
                            a
                        } else {
                            a + 1
                        };
                        let b0: int = if b < i as int {
                            b
                        } else {
                            b + 1
                        };
                        assert(new_ids[a] == old_ids[a0]);
                        assert(new_ids[b] == old_ids[b0]);
                    }
                }
                return ;
            }
            i += 1;
        }
        assert(!old_ids.contains(job_id@));
    }

    /// How many published jobs are waiting in the pending FIFO.
    pub fn pending_len(&self) -> (n: usize)
        ensures
            n == self.pending_jobs().len(),
    {
        self.pending.len()
    }

    /// Lists the currently active jobs: for each in-flight job id in turn,
    /// its status snapshot decorated with the job id under the reserved
    /// field name, so heterogeneous maps can be told apart without a side
    /// channel. A job whose status has already been cleared is silently
    /// skipped — the benign race between membership removal and status
    /// clearing. Callers may not rely on the order of the listing.
    pub fn get_active_jobs(&self) -> (r: Vec<StatusMap>)
        ensures
            status_views(r@) == active_list(self.inflight_ids(), self.job_statuses()),
    {
        let mut r: Vec<StatusMap> = Vec::new();
        proof {
            assert(status_views(r@) =~= active_list(
                self.inflight_ids().take(0),
                self.job_statuses(),
            ));
        }
        let mut i: usize = 0;
        while i < self.inflight.len()
            invariant
                i <= self.inflight.len(),
                status_views(r@) == active_list(
                    self.inflight_ids().take(i as int),
                    self.job_statuses(),
                ),
            decreases self.inflight.len() - i,
        {
            let id = &self.inflight[i];
            let ghost ids = self.inflight_ids();
            proof {
                assert(ids.take(i + 1).drop_last() =~= ids.take(i as int));
                assert(ids.take(i + 1).last() == ids[i as int]);
            }
            match self.get_job_status(id) {
                Some(m) => {
                    let t = tag_with_job_id(&m, id);
                    let ghost prev = r@;
                    r.push(t);
                    proof {
                        assert(status_views(r@) =~= status_views(prev).push(r@.last()@));
                    }
                },
                None => {},
            }
            i += 1;
        }
        proof {
            assert(self.inflight_ids().take(self.inflight.len() as int) =~= self.inflight_ids());
        }
        r
    }
}

/// The views of a list of status maps, in list order.
pub open spec fn status_views(ms: Seq<StatusMap>) -> Seq<Map<Seq<char>, Seq<char>>> {
    ms.map_values(|m: StatusMap| m@)
}

/// Whether a job shows up in an active listing: it has a non-empty status.
pub open spec fn has_status(
    statuses: Map<Seq<char>, Map<Seq<char>, Seq<char>>>,
    id: Seq<char>,
) -> bool {
    statuses.contains_key(id) && statuses[id] != Map::<Seq<char>, Seq<char>>::empty()
}

/// The map an active listing reports for one job: its status fields,
/// decorated with the job id under the reserved field name.
pub open spec fn tagged_status(
    statuses: Map<Seq<char>, Map<Seq<char>, Seq<char>>>,
    id: Seq<char>,
) -> Map<Seq<char>, Seq<char>> {
    statuses[id].insert("job_id"@, id)
}

/// The active listing for an enumeration of in-flight job ids: one
/// decorated status per id that still has one; ids whose status is already
/// cleared are skipped.
pub open spec fn active_list(
    ids: Seq<Seq<char>>,
    statuses: Map<Seq<char>, Map<Seq<char>, Seq<char>>>,
) -> Seq<Map<Seq<char>, Seq<char>>>
    decreases ids.len(),
{
    if ids.len() == 0 {
        Seq::empty()
    } else {
        let rest = active_list(ids.drop_last(), statuses);
        if has_status(statuses, ids.last()) {
            rest.push(tagged_status(statuses, ids.last()))
        } else {
            rest
        }
    }
}

/// Decides what a raw list of field-value pairs read back for one job
/// means: absent where nothing came back — an empty and a missing map are
/// the same thing — and the status snapshot otherwise.
pub fn status_from_fields(fields: Vec<(String, String)>) -> (r: Option<StatusMap>)
    ensures
        match r {
            Some(m) => fields@.len() > 0 && m@ == kv_map(fields@),
            None => fields@.len() == 0,
        },
{
    if fields.len() == 0 {
        None
    } else {
        Some(StatusMap::from_fields(fields))
    }
}

/// Decorates one job's status snapshot with its job id under the reserved
/// field name, as the active listing reports it.
pub fn tag_with_job_id(m: &StatusMap, job_id: &String) -> (r: StatusMap)
    ensures
        r@ == m@.insert("job_id"@, job_id@),
{
    let mut r = m.duplicate();
    r.set("job_id".to_owned(), job_id.clone());
    r
}

/// Law: dispatching the same configuration twice yields two payloads that
/// are independently retrievable. Publishing two payloads in turn under
/// distinct job ids leaves each of them findable by detail lookup under its
/// own id. (The ids themselves come from a random generator, so their
/// distinctness is assumed here, not proved.)
pub proof fn lemma_dispatch_twice_independent(
    details: Map<Seq<char>, JobPayloadView>,
    p1: JobPayloadView,
    p2: JobPayloadView,
)
    requires
        p1.job_id != p2.job_id,
    ensures
        details.insert(p1.job_id, p1).insert(p2.job_id, p2).contains_key(p1.job_id),
        details.insert(p1.job_id, p1).insert(p2.job_id, p2).contains_key(p2.job_id),
        details.insert(p1.job_id, p1).insert(p2.job_id, p2)[p1.job_id] == p1,
        details.insert(p1.job_id, p1).insert(p2.job_id, p2)[p2.job_id] == p2,
{
}

/// Law: a job for which no worker ever stored status fields — in
/// particular, one that was never dispatched, since dispatching leaves
/// statuses untouched and a fresh store has none — reads as absent.
pub proof fn lemma_unknown_job_status_absent(q: QueueStore, job_id: Seq<char>)
    requires
        !q.job_statuses().contains_key(job_id),
    ensures
        q.status_of(job_id) is None,
{
}

/// Law: an in-flight job that has status fields is listed among the active
/// jobs, as its own fields decorated with its job id; the decoration
/// changes no other field.
pub proof fn lemma_active_list_includes(
    ids: Seq<Seq<char>>,
    statuses: Map<Seq<char>, Map<Seq<char>, Seq<char>>>,
    id: Seq<char>,
)
    requires
        ids.contains(id),
        has_status(statuses, id),
    ensures
        active_list(ids, statuses).contains(tagged_status(statuses, id)),
        tagged_status(statuses, id)["job_id"@] == id,
        forall|f: Seq<char>|
            f != "job_id"@ && statuses[id].contains_key(f) ==> tagged_status(statuses, id)[f]
                == statuses[id][f],
    decreases ids.len(),
{
    let listing = active_list(ids, statuses);
    let rest = active_list(ids.drop_last(), statuses);
    if ids.last() == id {
        assert(listing.last() == tagged_status(statuses, id));
        assert(listing.contains(tagged_status(statuses, id)));
    } else {
        let j = choose|j: int| 0 <= j < ids.len() && ids[j] == id;
        assert(ids.drop_last()[j] == id);
        assert(ids.drop_last().contains(id));
        lemma_active_list_includes(ids.drop_last(), statuses, id);
        let k = choose|k: int| 0 <= k < rest.len() && rest[k] == tagged_status(statuses, id);
        assert(listing[k] == tagged_status(statuses, id));
        assert(listing.contains(tagged_status(statuses, id)));
    }
}

/// Law: a job that is not in flight is not listed among the active jobs:
/// every map in the listing carries a different id under the reserved
/// field.
pub proof fn lemma_active_list_excludes(
    ids: Seq<Seq<char>>,
    statuses: Map<Seq<char>, Map<Seq<char>, Seq<char>>>,
    id: Seq<char>,
)
    requires
        !ids.contains(id),
    ensures
        forall|k: int|
            0 <= k < active_list(ids, statuses).len() ==> #[trigger] active_list(
                ids,
                statuses,
            )[k]["job_id"@] != id,
    decreases ids.len(),
{
    if ids.len() > 0 {
        assert(!ids.drop_last().contains(id)) by {
            if ids.drop_last().contains(id) {
                let j = choose|j: int|
                    0 <= j < ids.drop_last().len() && ids.drop_last()[j] == id;
                assert(ids[j] == id);
            }
        }
        lemma_active_list_excludes(ids.drop_last(), statuses, id);
        assert(ids.last() != id) by {
            if ids.last() == id {
                assert(ids[ids.len() - 1] == id);
            }
        }
        let listing = active_list(ids, statuses);
        let rest = active_list(ids.drop_last(), statuses);
        if has_status(statuses, ids.last()) {
            assert forall|k: int| 0 <= k < listing.len() implies #[trigger] listing[k]["job_id"@]
                != id by {
                if k < rest.len() {
                    assert(listing[k] == rest[k]);
                } else {
                    assert(listing[k] == tagged_status(statuses, ids.last()));
                }
            }
        }
    }
}

} // verus!
