//! Book-keeping of the outbound half of a connection: packet-id allocation
//! and the publishes that wait for a PUBACK.
use vstd::prelude::*;

verus! {

/// Largest number of QoS-1 publishes that can be in flight at once: one per
/// nonzero packet id.
pub const MAX_IN_FLIGHT: usize = 65535;

/// An outbound QoS-1 publish awaiting its PUBACK.
#[derive(Clone, Copy, Debug, PartialEq, Eq, Structural)]
pub struct Record {
    pub id: u16,
    /// Whether a caller still waits on it; `false` for a no-block publish or
    /// once the caller's future was dropped.
    pub waiter: bool,
}

/// Why the sink would not send.
#[derive(Clone, Copy, Debug, PartialEq, Eq, Structural)]
pub enum SendError {
    /// The sink is closed.
    Disconnected,
    /// Every packet id is in flight.
    BackpressureFull,
}

/// A PUBACK that named no publish in flight.
#[derive(Clone, Copy, Debug, PartialEq, Eq, Structural)]
pub struct UnknownPacketId(pub u16);

/// What to do for one publish that left the in-flight set.
#[derive(Clone, Copy, Debug, PartialEq, Eq, Structural)]
pub struct Completion {
    pub id: u16,
    /// Complete the caller's waiter: with the id on PUBACK, with
    /// `Disconnected` on close.
    pub wake_waiter: bool,
    /// Call the installed ack observer with `(id, disconnected)`.
    pub notify_observer: bool,
    pub disconnected: bool,
}

/// The packet id after `id`: ids wrap from 65535 back to 1, never to 0.
pub open spec fn next_id(id: u16) -> u16 {
    if id == 65535 {
        1
    } else {
        (id + 1) as u16
    }
}

/// The `k`-th packet id tried after `last`.
pub open spec fn candidate(last: u16, k: nat) -> u16
    decreases k,
{
    if k == 0 {
        last
    } else {
        next_id(candidate(last, (k - 1) as nat))
    }
}

/// The ids tried after `last` are the nonzero ids in order, wrapping.
proof fn lemma_candidate_closed_form(last: u16, k: nat)
    requires
        1 <= k,
    ensures
        candidate(last, k) as int == (last as int + k - 1) % 65535 + 1,
    decreases k,
{
    let l = last as int;
    assert(candidate(last, k) == next_id(candidate(last, (k - 1) as nat)));
    if k > 1 {
        lemma_candidate_closed_form(last, (k - 1) as nat);
        let a: int = l + k - 2;
        assert(candidate(last, (k - 1) as nat) as int == a % 65535 + 1);
        assert((a + 1) % 65535 == if a % 65535 == 65534 { 0 } else { a % 65535 + 1 }) by (nonlinear_arith)
            requires
                a >= 0,
        ;
    } else {
        assert(l % 65535 == if l == 65535 { 0 } else { l }) by (nonlinear_arith)
            requires
                0 <= l <= 65535,
        ;
    }
}

/// Every nonzero id is among the first 65535 ids tried after `last`.
proof fn lemma_candidates_cover(last: u16, id: u16)
    requires
        id != 0,
    ensures
        exists|k: nat| 1 <= k <= MAX_IN_FLIGHT && #[trigger] candidate(last, k) == id,
{
    let k: nat = ((id as int - 1 - last as int) % 65535 + 1) as nat;
    lemma_candidate_closed_form(last, k);
    assert(candidate(last, k) == id);
}

/// Every nonzero packet id is taken.
pub open spec fn all_ids_in_flight(records: Seq<Record>) -> bool {
    forall|id: u16| id != 0 ==> #[trigger] holds_id(records, id)
}

pub open spec fn holds_id(records: Seq<Record>, id: u16) -> bool {
    exists|i: int| 0 <= i < records.len() && (#[trigger] records[i]).id == id
}

/// `records` with the waiter of publish `id` released.
pub open spec fn without_waiter(records: Seq<Record>, id: u16) -> Seq<Record> {
    records.map_values(|r: Record| if r.id == id { Record { id, waiter: false } } else { r })
}

/// The outbound state of a connection.
pub struct Sink {
    records: Vec<Record>,
    last_id: u16,
    closed: bool,
    observer: bool,
}

impl Sink {
    /// The publishes in flight, oldest first.
    pub closed spec fn records(&self) -> Seq<Record> {
        self.records@
    }

    /// The id issued last; `0` before the first.
    pub closed spec fn last_id(&self) -> u16 {
        self.last_id
    }

    pub closed spec fn closed(&self) -> bool {
        self.closed
    }

    pub closed spec fn has_observer(&self) -> bool {
        self.observer
    }

    /// Ids in flight are nonzero and distinct.
    pub closed spec fn wf(&self) -> bool {
        &&& forall|i: int| 0 <= i < self.records@.len() ==> (#[trigger] self.records@[i]).id != 0
        &&& forall|i: int, j: int|
            0 <= i < self.records@.len() && 0 <= j < self.records@.len() && i != j
                ==> (#[trigger] self.records@[i]).id != (#[trigger] self.records@[j]).id
    }

    pub fn new() -> (r: Self)
        ensures
            r.wf(),
            r.records() == Seq::<Record>::empty(),
            r.last_id() == 0,
            !r.closed(),
            !r.has_observer(),
    {
        Sink { records: Vec::new(), last_id: 0, closed: false, observer: false }
    }

    pub fn is_closed(&self) -> (r: bool)
        ensures
            r == self.closed(),
    {
        self.closed
    }

    /// Number of publishes in flight.
    pub fn in_flight(&self) -> (r: usize)
        ensures
            r == self.records().len(),
    {
        self.records.len()
    }

    /// Installs the ack observer: from now on every publish leaving the
    /// in-flight set is reported to it.
    pub fn publish_ack_cb(&mut self)
        requires
            old(self).wf(),
        ensures
            final(self).wf(),
            final(self).has_observer(),
            final(self).records() == old(self).records(),
            final(self).last_id() == old(self).last_id(),
            final(self).closed() == old(self).closed(),
    {
        self.observer = true;
    }

    /// Whether `id` is in flight.
    pub fn contains(&self, id: u16) -> (r: bool)
        ensures
            r == holds_id(self.records(), id),
    {
        let mut i: usize = 0;
        while i < self.records.len()
            invariant
                i <= self.records@.len(),
                forall|j: int| 0 <= j < i ==> (#[trigger] self.records@[j]).id != id,
            decreases self.records@.len() - i,
        {
            if self.records[i].id == id {
                return true;
            }
            i = i + 1;
        }
        false
    }

    /// The first id after the last issued one, wrapping and skipping zero,
    /// that is not in flight; `None` when every id is in flight.
    pub fn next_free_id(&self) -> (r: Option<u16>)
        ensures
            r matches Some(id) ==> exists|k: nat|
                1 <= k <= MAX_IN_FLIGHT && id == candidate(self.last_id(), k) && !holds_id(
                    self.records(),
                    id,
                ) && forall|j: nat|
                    1 <= j < k ==> holds_id(self.records(), #[trigger] candidate(self.last_id(), j)),
            r is None <==> all_ids_in_flight(self.records()),
            r matches Some(id) ==> id != 0,
    {
        let mut id: u16 = self.last_id;
        let mut k: usize = 0;
        while k < MAX_IN_FLIGHT
            invariant
                k <= MAX_IN_FLIGHT,
                id == candidate(self.last_id(), k as nat),
                forall|j: nat| 1 <= j <= k ==> holds_id(self.records(), #[trigger] candidate(self.last_id(), j)),
            decreases MAX_IN_FLIGHT - k,
        {
            id = if id == 65535 {
                1
            } else {
                id + 1
            };
            k = k + 1;
            assert(id == candidate(self.last_id(), k as nat));
            if !self.contains(id) {
                return Some(id);
            }
        }
        proof {
            assert forall|id: u16| id != 0 implies #[trigger] holds_id(self.records(), id) by {
                lemma_candidates_cover(self.last_id(), id);
            }
        }
        None
    }

    /// Checks that a QoS-0 publish may be written: only a closed sink refuses.
    pub fn send_at_most_once(&self) -> (r: Result<(), SendError>)
        ensures
            r is Err <==> self.closed(),
            r is Err ==> r == Err::<(), SendError>(SendError::Disconnected),
    {
        if self.closed {
            Err(SendError::Disconnected)
        } else {
            Ok(())
        }
    }

    fn send_qos1(&mut self, waiter: bool) -> (r: Result<u16, SendError>)
        requires
            old(self).wf(),
        ensures
            final(self).wf(),
            final(self).closed() == old(self).closed(),
            final(self).has_observer() == old(self).has_observer(),
            r == Err::<u16, SendError>(SendError::Disconnected) <==> old(self).closed(),
            r == Err::<u16, SendError>(SendError::BackpressureFull) <==> !old(self).closed() && all_ids_in_flight(
                old(self).records(),
            ),
            r is Err ==> final(self).records() == old(self).records() && final(self).last_id() == old(self).last_id(),
            r matches Ok(id) ==> {
                &&& !old(self).closed()
                &&& id != 0
                &&& !holds_id(old(self).records(), id)
                &&& exists|k: nat|
                    1 <= k <= MAX_IN_FLIGHT && id == candidate(old(self).last_id(), k) && forall|j: nat|
                        1 <= j < k ==> holds_id(old(self).records(), #[trigger] candidate(old(self).last_id(), j))
                &&& final(self).records() == old(self).records().push(Record { id, waiter })
                &&& final(self).last_id() == id
            },
    {
        if self.closed {
            return Err(SendError::Disconnected);
        }
        match self.next_free_id() {
            None => Err(SendError::BackpressureFull),
            Some(id) => {
                self.records.push(Record { id, waiter });
                self.last_id = id;
                assert forall|i: int, j: int|
                    0 <= i < self.records@.len() && 0 <= j < self.records@.len() && i != j
                        implies (#[trigger] self.records@[i]).id != (#[trigger] self.records@[j]).id by {
                    if i == self.records@.len() - 1 {
                        assert(old(self).records@[j] == self.records@[j]);
                    } else if j == self.records@.len() - 1 {
                        assert(old(self).records@[i] == self.records@[i]);
                    }
                }
                Ok(id)
            },
        }
    }

    /// Takes a packet id for a QoS-1 publish whose caller waits for its
    /// PUBACK, and records the publish as in flight. On `BackpressureFull`
    /// the caller waits for a slot to free and tries again.
    pub fn send_at_least_once(&mut self) -> (r: Result<u16, SendError>)
        requires
            old(self).wf(),
        ensures
            final(self).wf(),
            final(self).closed() == old(self).closed(),
            final(self).has_observer() == old(self).has_observer(),
            r == Err::<u16, SendError>(SendError::Disconnected) <==> old(self).closed(),
            r == Err::<u16, SendError>(SendError::BackpressureFull) <==> !old(self).closed() && all_ids_in_flight(
                old(self).records(),
            ),
            r is Err ==> final(self).records() == old(self).records() && final(self).last_id() == old(self).last_id(),
            r matches Ok(id) ==> {
                &&& !old(self).closed()
                &&& id != 0
                &&& !holds_id(old(self).records(), id)
                &&& exists|k: nat|
                    1 <= k <= MAX_IN_FLIGHT && id == candidate(old(self).last_id(), k) && forall|j: nat|
                        1 <= j < k ==> holds_id(old(self).records(), #[trigger] candidate(old(self).last_id(), j))
                &&& final(self).records() == old(self).records().push(Record { id, waiter: true })
                &&& final(self).last_id() == id
            },
    {
        self.send_qos1(true)
    }

    /// Like [`Sink::send_at_least_once`], but nobody waits: completion is
    /// reported only through the ack observer.
    pub fn send_at_least_once_no_block(&mut self) -> (r: Result<u16, SendError>)
        requires
            old(self).wf(),
        ensures
            final(self).wf(),
            final(self).closed() == old(self).closed(),
            final(self).has_observer() == old(self).has_observer(),
            r == Err::<u16, SendError>(SendError::Disconnected) <==> old(self).closed(),
            r == Err::<u16, SendError>(SendError::BackpressureFull) <==> !old(self).closed() && all_ids_in_flight(
                old(self).records(),
            ),
            r is Err ==> final(self).records() == old(self).records() && final(self).last_id() == old(self).last_id(),
            r matches Ok(id) ==> {
                &&& !old(self).closed()
                &&& id != 0
                &&& !holds_id(old(self).records(), id)
                &&& exists|k: nat|
                    1 <= k <= MAX_IN_FLIGHT && id == candidate(old(self).last_id(), k) && forall|j: nat|
                        1 <= j < k ==> holds_id(old(self).records(), #[trigger] candidate(old(self).last_id(), j))
                &&& final(self).records() == old(self).records().push(Record { id, waiter: false })
                &&& final(self).last_id() == id
            },
    {
        self.send_qos1(false)
    }

    /// The caller of publish `id` stopped waiting. The publish stays in flight
    /// until its PUBACK or a close; only its waiter is released.
    pub fn drop_waiter(&mut self, id: u16)
        requires
            old(self).wf(),
        ensures
            final(self).wf(),
            final(self).records() == without_waiter(old(self).records(), id),
            final(self).last_id() == old(self).last_id(),
            final(self).closed() == old(self).closed(),
            final(self).has_observer() == old(self).has_observer(),
    {
        let mut i: usize = 0;
        while i < self.records.len()
            invariant
                self.wf(),
                i <= self.records@.len(),
                self.records@.len() == old(self).records@.len(),
                forall|j: int|
                    0 <= j < i ==> #[trigger] self.records@[j] == (if old(self).records@[j].id == id {
                        Record { id, waiter: false }
                    } else {
                        old(self).records@[j]
                    }),
                forall|j: int| i <= j < self.records@.len() ==> #[trigger] self.records@[j] == old(self).records@[j],
                self.last_id == old(self).last_id,
                self.closed == old(self).closed,
                self.observer == old(self).observer,
            decreases self.records@.len() - i,
        {
            if self.records[i].id == id {
                self.records.set(i, Record { id, waiter: false });
            }
            i = i + 1;
        }
        assert(self.records@ =~= without_waiter(old(self).records(), id));
    }

    /// Handles a PUBACK for `id`: the one publish in flight under that id
    /// leaves, its waiter (if any) is completed and the observer (if
    /// installed) is told. A PUBACK for an id not in flight is a protocol
    /// violation and changes nothing.
    pub fn on_publish_ack(&mut self, id: u16) -> (r: Result<Completion, UnknownPacketId>)
        requires
            old(self).wf(),
        ensures
            final(self).wf(),
            final(self).last_id() == old(self).last_id(),
            final(self).closed() == old(self).closed(),
            final(self).has_observer() == old(self).has_observer(),
            r is Err <==> !holds_id(old(self).records(), id),
            r is Err ==> r == Err::<Completion, UnknownPacketId>(UnknownPacketId(id))
                && final(self).records() == old(self).records(),
            r is Ok ==> exists|i: int|
                0 <= i < old(self).records().len() && (#[trigger] old(self).records()[i]).id == id
                    && r == Ok::<Completion, UnknownPacketId>(Completion {
                        id,
                        wake_waiter: old(self).records()[i].waiter,
                        notify_observer: old(self).has_observer(),
                        disconnected: false,
                    }) && final(self).records() == old(self).records().remove(i),
            r is Ok ==> !holds_id(final(self).records(), id),
    {
        let mut i: usize = 0;
        while i < self.records.len()
            invariant
                old(self).wf(),
                i <= self.records@.len(),
                self.records@ == old(self).records@,
                self.last_id == old(self).last_id,
                self.closed == old(self).closed,
                self.observer == old(self).observer,
                forall|j: int| 0 <= j < i ==> (#[trigger] self.records@[j]).id != id,
            decreases self.records@.len() - i,
        {
            if self.records[i].id == id {
                let rec = self.records.remove(i);
                proof {
                    let old_r = old(self).records@;
                    let new_r = self.records@;
                    assert forall|a: int| 0 <= a < new_r.len() implies (#[trigger] new_r[a]).id != id by {
                        if a < i {
                            assert(new_r[a] == old_r[a]);
                        } else {
                            assert(new_r[a] == old_r[a + 1]);
                            assert(old_r[a + 1].id != old_r[i as int].id);
                        }
                    }
                    assert forall|a: int, b: int|
                        0 <= a < new_r.len() && 0 <= b < new_r.len() && a != b
                            implies (#[trigger] new_r[a]).id != (#[trigger] new_r[b]).id by {
                        let a2 = if a < i { a } else { a + 1 };
                        let b2 = if b < i { b } else { b + 1 };
                        assert(new_r[a] == old_r[a2]);
                        assert(new_r[b] == old_r[b2]);
                        assert(old_r[a2].id != old_r[b2].id);
                    }
                    assert forall|a: int| 0 <= a < new_r.len() implies (#[trigger] new_r[a]).id != 0 by {
                        if a < i {
                            assert(new_r[a] == old_r[a]);
                        } else {
                            assert(new_r[a] == old_r[a + 1]);
                        }
                    }
                }
                return Ok(
                    Completion { id, wake_waiter: rec.waiter, notify_observer: self.observer, disconnected: false },
                );
            }
            i = i + 1;
        }
        Err(UnknownPacketId(id))
    }

    /// Closes the sink gracefully: no new publish is accepted, while those in
    /// flight may still be acknowledged. Returns whether the writer can close
    /// now, which is when nothing is in flight; otherwise the caller waits
    /// for the PUBACKs or a timeout, then calls [`Sink::force_close`].
    pub fn close(&mut self) -> (r: bool)
        requires
            old(self).wf(),
        ensures
            final(self).wf(),
            final(self).closed(),
            final(self).records() == old(self).records(),
            final(self).last_id() == old(self).last_id(),
            final(self).has_observer() == old(self).has_observer(),
            r <==> old(self).records().len() == 0,
    {
        self.closed = true;
        self.records.len() == 0
    }

    /// Closes the sink at once: every publish in flight leaves, each waiter
    /// is completed with `Disconnected`, and the observer (if installed) is
    /// told of each id with `disconnected` set, oldest first.
    pub fn force_close(&mut self) -> (r: Vec<Completion>)
        requires
            old(self).wf(),
        ensures
            final(self).wf(),
            final(self).closed(),
            final(self).records().len() == 0,
            final(self).last_id() == old(self).last_id(),
            final(self).has_observer() == old(self).has_observer(),
            r@.len() == old(self).records().len(),
            forall|i: int|
                0 <= i < r@.len() ==> #[trigger] r@[i] == (Completion {
                    id: old(self).records()[i].id,
                    wake_waiter: old(self).records()[i].waiter,
                    notify_observer: old(self).has_observer(),
                    disconnected: true,
                }),
    {
        let mut out: Vec<Completion> = Vec::new();
        let mut i: usize = 0;
        while i < self.records.len()
            invariant
                i <= self.records@.len(),
                self.records@ == old(self).records@,
                self.observer == old(self).observer,
                out@.len() == i,
                forall|j: int|
                    0 <= j < i ==> #[trigger] out@[j] == (Completion {
                        id: old(self).records@[j].id,
                        wake_waiter: old(self).records@[j].waiter,
                        notify_observer: old(self).observer,
                        disconnected: true,
                    }),
            decreases self.records@.len() - i,
        {
            let rec = self.records[i];
            out.push(Completion { id: rec.id, wake_waiter: rec.waiter, notify_observer: self.observer, disconnected: true });
            i = i + 1;
        }
        self.records.clear();
        self.closed = true;
        out
    }
}

/// A PUBACK completes exactly one publish: at most one publish in flight
/// carries a given id, and once that publish has left, the id is no longer in
/// flight, so a repeated PUBACK completes nothing.
pub proof fn lemma_puback_completes_one(s: &Sink, id: u16)
    requires
        s.wf(),
    ensures
        forall|i: int, j: int|
            0 <= i < s.records().len() && 0 <= j < s.records().len() && (#[trigger] s.records()[i]).id == id
                && (#[trigger] s.records()[j]).id == id ==> i == j,
        forall|i: int|
            0 <= i < s.records().len() && (#[trigger] s.records()[i]).id == id ==> !holds_id(
                s.records().remove(i),
                id,
            ),
{
    assert forall|i: int|
        0 <= i < s.records().len() && (#[trigger] s.records()[i]).id == id implies !holds_id(
            s.records().remove(i),
            id,
        ) by {
        let rest = s.records().remove(i);
        assert forall|a: int| 0 <= a < rest.len() implies (#[trigger] rest[a]).id != id by {
            let a2 = if a < i { a } else { a + 1 };
            assert(rest[a] == s.records()[a2]);
            assert(s.records()[a2].id != s.records()[i].id);
        }
    }
}

/// Releasing the waiter of a publish, as when its future is dropped, keeps
/// the publish in flight under the same id, so its PUBACK is still handled
/// and still reported to the ack observer.
pub proof fn lemma_dropped_waiter_stays_in_flight(records: Seq<Record>, id: u16, other: u16)
    ensures
        holds_id(without_waiter(records, other), id) == holds_id(records, id),
{
    let after = without_waiter(records, other);
    if holds_id(records, id) {
        let i = choose|i: int| 0 <= i < records.len() && (#[trigger] records[i]).id == id;
        assert(after[i].id == id);
    }
    if holds_id(after, id) {
        let i = choose|i: int| 0 <= i < after.len() && (#[trigger] after[i]).id == id;
        assert(records[i].id == id);
    }
}

} // verus!
