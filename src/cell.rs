use std::sync::{Arc, Mutex};
use vstd::prelude::*;

verus! {

/// `std::sync::Mutex`, held as an opaque value: its contents are reached
/// only through `with_slot` and `try_with_slot`.
#[verifier::external_type_specification]
#[verifier::external_body]
#[verifier::reject_recursive_types(T)]
pub struct ExMutex<T: ?Sized>(Mutex<T>);

/// Relies on `Mutex::new`, which only wraps its argument; nothing is
/// promised of the lock that it returns.
pub assume_specification<T>[ Mutex::<T>::new ](t: T) -> Mutex<T>;

/// What a shared cell holds: the value, if any, and whether a fetch that
/// will refresh it is in flight.
pub struct Slot<T> {
    pub value: Option<T>,
    pub pending: bool,
}

/// The outcome of a claim on a slot: the slot after it, and whether the
/// claimer is the one to fetch.
pub open spec fn claimed<T>(s: Slot<T>, force: bool) -> (Slot<T>, bool) {
    if !s.pending && (s.value is None || force) {
        (Slot { value: s.value, pending: true }, true)
    } else {
        (s, false)
    }
}

/// How many of a run of claims, made one after another from `s`, win the
/// right to fetch, when no fetch completes in between.
pub open spec fn winning_claims<T>(s: Slot<T>, forces: Seq<bool>) -> nat
    decreases forces.len(),
{
    if forces.len() == 0 {
        0
    } else {
        let (next, won) = claimed(s, forces[0]);
        (if won {
            1nat
        } else {
            0nat
        }) + winning_claims(next, forces.drop_first())
    }
}

/// Whether a read of the cell finds a value: a poisoned lock (`None`) reads
/// as empty.
pub open spec fn reads_as_set<T>(s: Option<&Slot<T>>) -> bool {
    match s {
        Some(s) => s.value is Some,
        None => false,
    }
}

/// The slot once a fetch has ended: a fetched value replaces the held one;
/// a failed fetch leaves the held one as it was.
pub open spec fn finished<T>(s: Slot<T>, fetched: Option<T>) -> Slot<T> {
    Slot {
        value: match fetched {
            Some(v) => Some(v),
            None => s.value,
        },
        pending: false,
    }
}

impl<T> Slot<T> {
    /// A slot with no value and no fetch in flight.
    pub fn empty() -> (r: Slot<T>)
        ensures
            r.value is None,
            !r.pending,
    {
        Slot { value: None, pending: false }
    }

    /// Whether a value is held.
    pub fn is_set(&self) -> (r: bool)
        ensures
            r == self.value is Some,
    {
        self.value.is_some()
    }

    /// Claims the right to fetch. It is granted when no fetch is in flight
    /// and either no value is held or `force` asks for a refresh; the slot
    /// then records a fetch in flight, so that every later claim is refused
    /// until that fetch has ended.
    pub fn claim(&mut self, force: bool) -> (r: bool)
        ensures
            (*final(self), r) == claimed(*old(self), force),
    {
        if self.pending || (self.value.is_some() && !force) {
            false
        } else {
            self.pending = true;
            true
        }
    }

    /// Ends the fetch in flight: a fetched value replaces the held one; a
    /// failed fetch (`None`) leaves the held value as it was.
    pub fn finish(&mut self, fetched: Option<T>)
        ensures
            *final(self) == finished(*old(self), fetched),
    {
        if let Some(v) = fetched {
            self.value = Some(v);
        }
        self.pending = false;
    }

    /// Replaces the held value.
    pub fn set(&mut self, v: T)
        ensures
            final(self).value == Some(v),
            final(self).pending == old(self).pending,
    {
        self.value = Some(v);
    }

    /// Drops the held value.
    pub fn clear(&mut self)
        ensures
            final(self).value is None,
            final(self).pending == old(self).pending,
    {
        self.value = None;
    }
}

/// The value a read finds in a slot, as a reference: the held value, or
/// `None` when the slot holds none or the lock is poisoned (`s` is `None`).
pub open spec fn held<T>(s: Option<&Slot<T>>) -> Option<&T> {
    match s {
        Some(sl) => match sl.value {
            Some(v) => Some(&v),
            None => None,
        },
        None => None,
    }
}

/// Whether `r` is what `f` returns when run on the value read from `s`.
pub open spec fn read_through<T, R, F: FnOnce(Option<&T>) -> R>(f: F, s: Option<&Slot<T>>, r: R) -> bool {
    f.ensures((held(s),), r)
}

/// Whether a claim with `force` on slot `before` leaves slot `after` and
/// answers `granted`.
pub open spec fn claim_outcome<T>(before: Slot<T>, after: Slot<T>, force: bool, granted: bool) -> bool {
    claimed(before, force) == (after, granted)
}

/// Relies on `Mutex::lock`: waits until no other holder has the lock, then
/// runs `step` once on a shared view of the slot; when an earlier holder
/// panicked (the lock is poisoned) it runs `step` on `None` instead.
#[verifier::external_body]
fn read_slot<T, R, F: FnOnce(Option<&Slot<T>>) -> R>(m: &Mutex<Slot<T>>, step: F) -> (r: R)
    requires
        forall|s: Option<&Slot<T>>| step.requires((s,)),
    ensures
        exists|s: Option<&Slot<T>>| step.ensures((s,), r),
{
    match m.lock() {
        Ok(guard) => step(Some(&*guard)),
        Err(_) => step(None),
    }
}

/// Relies on `Mutex::lock`: waits until no other holder has the lock, then
/// runs `step` once on the slot, with exclusive access; when the lock is
/// poisoned, `step` is not run and the result is `None`.
#[verifier::external_body]
fn update_slot<T, R, F: FnOnce(&mut Slot<T>) -> R>(m: &Mutex<Slot<T>>, step: F) -> (r: Option<R>)
    requires
        forall|s: &mut Slot<T>| step.requires((s,)),
    ensures
        r matches Some(x) ==> exists|s: &mut Slot<T>| step.ensures((s,), x),
{
    match m.lock() {
        Ok(mut guard) => Some(step(&mut *guard)),
        Err(_) => None,
    }
}

/// Relies on `Mutex::try_lock`: never waits. When another holder has the
/// lock, `step` is not run and the result is `None`; otherwise `step` runs
/// once on a shared view of the slot, or on `None` when the lock is poisoned.
#[verifier::external_body]
fn try_read_slot<T, R, F: FnOnce(Option<&Slot<T>>) -> R>(m: &Mutex<Slot<T>>, step: F) -> (r: Option<R>)
    requires
        forall|s: Option<&Slot<T>>| step.requires((s,)),
    ensures
        r matches Some(x) ==> exists|s: Option<&Slot<T>>| step.ensures((s,), x),
{
    match m.try_lock() {
        Ok(guard) => Some(step(Some(&*guard))),
        Err(std::sync::TryLockError::Poisoned(_)) => Some(step(None)),
        Err(std::sync::TryLockError::WouldBlock) => None,
    }
}

/// A cell that the render loop and background tasks share: an optional
/// value behind a lock, with a record of the fetch in flight. Every handle
/// made by `clone` refers to the same storage. A lock that a panicking holder
/// left poisoned reads as an empty cell and takes no writes.
#[verifier::reject_recursive_types(T)]
pub struct DaikokuThreadData<T>(Arc<Mutex<Slot<T>>>);

impl<T> DaikokuThreadData<T> {
    /// A cell with no value and no fetch in flight.
    pub fn empty() -> Self {
        DaikokuThreadData(Arc::new(Mutex::new(Slot::empty())))
    }

    /// Another handle on the same storage.
    pub fn clone(&self) -> Self {
        DaikokuThreadData(self.0.clone())
    }

    /// Runs `f` on the held value (or `None`) while holding the lock, waiting
    /// for a writer to finish first, and returns what `f` returned. `f` must
    /// not call a method of this cell that waits for the lock.
    pub fn get<R, F: FnOnce(Option<&T>) -> R>(&self, f: F) -> (r: R)
        requires
            forall|v: Option<&T>| f.requires((v,)),
        ensures
            exists|s: Option<&Slot<T>>| read_through(f, s, r),
    {
        let step = (|s: Option<&Slot<T>>| -> (x: R)
            requires
                forall|v: Option<&T>| f.requires((v,)),
            ensures
                read_through(f, s, x),
            {
                match s {
                    Some(s) => f(s.value.as_ref()),
                    None => f(None),
                }
            });
        let r = read_slot(&self.0, step);
        proof {
            let s = choose|s: Option<&Slot<T>>| step.ensures((s,), r);
            assert(read_through(f, s, r));
        }
        r
    }

    /// Runs `f` on the held value (or `None`) and returns `Some` of what it
    /// returned, unless the lock is held elsewhere at this moment: then `f`
    /// is not run and the result is `None`. Never waits.
    pub fn try_read<R, F: FnOnce(Option<&T>) -> R>(&self, f: F) -> (r: Option<R>)
        requires
            forall|v: Option<&T>| f.requires((v,)),
        ensures
            r matches Some(x) ==> exists|s: Option<&Slot<T>>| read_through(f, s, x),
    {
        let step = (|s: Option<&Slot<T>>| -> (x: R)
            requires
                forall|v: Option<&T>| f.requires((v,)),
            ensures
                read_through(f, s, x),
            {
                match s {
                    Some(s) => f(s.value.as_ref()),
                    None => f(None),
                }
            });
        let r = try_read_slot(&self.0, step);
        proof {
            if r is Some {
                let s = choose|s: Option<&Slot<T>>| step.ensures((s,), r->Some_0);
                assert(read_through(f, s, r->Some_0));
            }
        }
        r
    }

    /// Whether a value is held at this moment: `Slot::is_set` on the slot
    /// read under the lock; false when the lock is poisoned.
    pub fn is_set(&self) -> (r: bool)
        ensures
            exists|s: Option<&Slot<T>>| #[trigger] reads_as_set(s) == r,
    {
        let step = (|s: Option<&Slot<T>>| -> (x: bool)
            ensures
                x == reads_as_set(s),
            {
                match s {
                    Some(s) => s.is_set(),
                    None => false,
                }
            });
        let r = read_slot(&self.0, step);
        proof {
            let s = choose|s: Option<&Slot<T>>| step.ensures((s,), r);
        }
        r
    }

    /// Replaces the held value.
    pub fn set(&self, v: T) {
        let _ = update_slot(&self.0, |s: &mut Slot<T>| s.set(v));
    }

    /// Drops the held value.
    pub fn clear(&self) {
        let _ = update_slot(&self.0, |s: &mut Slot<T>| s.clear());
    }

    /// Claims, under the lock, the right to fetch a fresh value: the answer
    /// and the slot left behind are those of `Slot::claim` on the slot the
    /// cell held at that moment (so the claims that callers make one after
    /// another under the lock obey `lemma_at_most_one_fetch`); false when the
    /// lock is poisoned. The caller that gets `true` must end its fetch with
    /// `finish_refresh`.
    pub fn begin_refresh(&self, force: bool) -> (r: bool)
        ensures
            exists|before: Slot<T>, after: Slot<T>| #[trigger] claim_outcome(before, after, force, r),
    {
        let step = (|s: &mut Slot<T>| -> (x: bool)
            ensures
                claim_outcome(*old(s), *final(s), force, x),
            {
                s.claim(force)
            });
        match update_slot(&self.0, step) {
            Some(x) => {
                proof {
                    let s = choose|s: &mut Slot<T>| step.ensures((s,), x);
                    assert(claim_outcome(*s, *final(s), force, x));
                }
                x
            },
            None => {
                let ghost busy = Slot::<T> { value: None, pending: true };
                assert(claim_outcome(busy, busy, force, false));
                false
            },
        }
    }

    /// Ends the fetch granted by `begin_refresh`: a fetched value is stored;
    /// after a failed fetch (`None`) the held value stays.
    pub fn finish_refresh(&self, fetched: Option<T>) {
        let _ = update_slot(&self.0, |s: &mut Slot<T>| s.finish(fetched));
    }
}

/// Of any run of claims made one after another on a slot, with no fetch
/// ending in between, at most one is granted; when the slot starts with no
/// value and no fetch in flight, exactly one is (the first).
pub proof fn lemma_at_most_one_fetch<T>(s: Slot<T>, forces: Seq<bool>)
    ensures
        winning_claims(s, forces) <= 1,
        s.pending ==> winning_claims(s, forces) == 0,
        s.value is None && !s.pending && forces.len() >= 1 ==> winning_claims(s, forces) == 1,
    decreases forces.len(),
{
    if forces.len() > 0 {
        let (next, won) = claimed(s, forces[0]);
        lemma_at_most_one_fetch(next, forces.drop_first());
    }
}

/// Whether the `i`-th of a run of claims took slot `i`, left slot `i + 1`
/// and answered `granted[i]`.
pub open spec fn claim_at<T>(slots: Seq<Slot<T>>, forces: Seq<bool>, granted: Seq<bool>, i: int) -> bool {
    claim_outcome(slots[i], slots[i + 1], forces[i], granted[i])
}

/// Once a claim is granted, the slot stays pending through every later claim.
proof fn lemma_pending_stays<T>(slots: Seq<Slot<T>>, forces: Seq<bool>, granted: Seq<bool>, k: int)
    requires
        slots.len() == forces.len() + 1,
        granted.len() == forces.len(),
        1 <= k <= forces.len(),
        slots[1].pending,
        forall|i: int| 0 <= i < forces.len() ==> #[trigger] claim_at(slots, forces, granted, i),
    ensures
        slots[k].pending,
    decreases k,
{
    if k > 1 {
        lemma_pending_stays(slots, forces, granted, k - 1);
        assert(claim_at(slots, forces, granted, k - 1));
    }
}

/// Claims made on a shared cell one after another, each taking the slot
/// that the previous one left (as `begin_refresh` describes each call),
/// starting from a cell with no value and no fetch in flight: the first is
/// granted and every later one is refused.
pub proof fn lemma_chained_claims_grant_once<T>(
    slots: Seq<Slot<T>>,
    forces: Seq<bool>,
    granted: Seq<bool>,
)
    requires
        forces.len() >= 1,
        slots.len() == forces.len() + 1,
        granted.len() == forces.len(),
        slots[0].value is None,
        !slots[0].pending,
        forall|i: int| 0 <= i < forces.len() ==> #[trigger] claim_at(slots, forces, granted, i),
    ensures
        granted[0],
        forall|i: int| 1 <= i < forces.len() ==> !granted[i],
{
    assert(claim_at(slots, forces, granted, 0));
    assert forall|i: int| 1 <= i < forces.len() implies !granted[i] by {
        lemma_pending_stays(slots, forces, granted, i);
        assert(claim_at(slots, forces, granted, i));
    }
}

} // verus!
