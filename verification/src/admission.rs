//! Admission control: a bounded source of permits that limits how many
//! requests are in flight at once.
//!
//! The controller never blocks. A caller that is told [`Acquire::Busy`] waits
//! for the next release and asks again; the waiting itself belongs to the
//! caller's scheduler.

use vstd::prelude::*;

verus! {

/// Proof that a slot of an [`Admission`] is held. It cannot be copied; it is
/// given back with [`Admission::release`].
#[derive(Debug)]
pub struct Permit {
    _slot: (),
}

/// What an attempt to take a permit led to.
#[derive(Debug)]
pub enum Acquire {
    /// A slot was free and is now held by the caller.
    Granted(Permit),
    /// Every slot is held; the caller has to wait for a release.
    Busy,
    /// The permit source was shut down; no permit is granted any more.
    Closed,
}

/// The mathematical state of a permit source.
pub struct AdmissionView {
    /// Number of slots.
    pub capacity: nat,
    /// Permits handed out and not yet given back.
    pub held: nat,
    /// Whether the source was shut down.
    pub closed: bool,
}

/// One operation on a permit source.
pub enum AdmissionOp {
    /// An attempt to take a permit.
    TryAcquire,
    /// The return of a permit.
    Release,
    /// The shutdown of the source.
    Close,
}

impl AdmissionView {
    /// A fresh source with `capacity` free slots.
    pub open spec fn initial(capacity: nat) -> AdmissionView {
        AdmissionView { capacity, held: 0, closed: false }
    }

    /// At least one slot, and never more permits out than slots.
    pub open spec fn wf(self) -> bool {
        1 <= self.capacity && self.held <= self.capacity
    }

    /// Whether an attempt to take a permit succeeds in this state.
    pub open spec fn grants(self) -> bool {
        !self.closed && self.held < self.capacity
    }

    /// The state after an attempt to take a permit.
    pub open spec fn try_acquire(self) -> AdmissionView {
        if self.grants() {
            AdmissionView { held: self.held + 1, ..self }
        } else {
            self
        }
    }

    /// The state after a permit was given back.
    pub open spec fn release(self) -> AdmissionView {
        if self.held > 0 {
            AdmissionView { held: (self.held - 1) as nat, ..self }
        } else {
            self
        }
    }

    /// The state after the source was shut down.
    pub open spec fn close(self) -> AdmissionView {
        AdmissionView { closed: true, ..self }
    }

    /// The state after one operation.
    pub open spec fn apply(self, op: AdmissionOp) -> AdmissionView {
        match op {
            AdmissionOp::TryAcquire => self.try_acquire(),
            AdmissionOp::Release => self.release(),
            AdmissionOp::Close => self.close(),
        }
    }

    /// The state after a whole sequence of operations, first to last.
    pub open spec fn run(self, ops: Seq<AdmissionOp>) -> AdmissionView
        decreases ops.len(),
    {
        if ops.len() == 0 {
            self
        } else {
            self.run(ops.drop_last()).apply(ops.last())
        }
    }
}

/// A permit source with a fixed number of slots.
#[derive(Debug)]
pub struct Admission {
    capacity: usize,
    held: usize,
    closed: bool,
}

impl View for Admission {
    type V = AdmissionView;

    closed spec fn view(&self) -> AdmissionView {
        AdmissionView { capacity: self.capacity as nat, held: self.held as nat, closed: self.closed }
    }
}

impl Admission {
    #[verifier::type_invariant]
    spec fn inv(self) -> bool {
        self@.wf()
    }

    /// A source with `capacity` free slots, or `None` when `capacity` is zero.
    pub fn new(capacity: usize) -> (r: Option<Admission>)
        ensures
            r is Some <==> capacity >= 1,
            r matches Some(a) ==> a@ == AdmissionView::initial(capacity as nat),
    {
        if capacity == 0 {
            None
        } else {
            Some(Admission { capacity, held: 0, closed: false })
        }
    }

    /// Number of slots.
    pub fn capacity(&self) -> (n: usize)
        ensures
            n == self@.capacity,
            n >= 1,
    {
        proof {
            use_type_invariant(self);
        }
        self.capacity
    }

    /// Permits handed out and not yet given back; never more than the slots.
    pub fn held(&self) -> (n: usize)
        ensures
            n == self@.held,
            n <= self@.capacity,
    {
        proof {
            use_type_invariant(self);
        }
        self.held
    }

    /// Whether the source was shut down.
    pub fn is_closed(&self) -> (b: bool)
        ensures
            b == self@.closed,
    {
        self.closed
    }

    /// Takes a permit if the source is open and a slot is free.
    pub fn try_acquire(&mut self) -> (r: Acquire)
        ensures
            final(self)@ == old(self)@.try_acquire(),
            final(self)@.wf(),
            r is Granted <==> old(self)@.grants(),
            r is Closed <==> old(self)@.closed,
            r is Busy <==> !old(self)@.closed && old(self)@.held == old(self)@.capacity,
    {
        proof {
            use_type_invariant(&*self);
        }
        if self.closed {
            Acquire::Closed
        } else if self.held < self.capacity {
            self.held = self.held + 1;
            Acquire::Granted(Permit { _slot: () })
        } else {
            Acquire::Busy
        }
    }

    /// Gives a permit back. A source with no permit out stays as it is.
    pub fn release(&mut self, permit: Permit)
        ensures
            final(self)@ == old(self)@.release(),
            final(self)@.wf(),
    {
        proof {
            use_type_invariant(&*self);
        }
        if self.held > 0 {
            self.held = self.held - 1;
        }
    }

    /// Shuts the source down: every later attempt is answered `Closed`.
    /// Permits that are out can still be given back.
    pub fn close(&mut self)
        ensures
            final(self)@ == old(self)@.close(),
            final(self)@.wf(),
    {
        proof {
            use_type_invariant(&*self);
        }
        self.closed = true;
    }
}

/// Every operation keeps a well-formed source well-formed.
pub proof fn lemma_apply_preserves_wf(v: AdmissionView, op: AdmissionOp)
    requires
        v.wf(),
    ensures
        v.apply(op).wf(),
        v.apply(op).capacity == v.capacity,
{
}

/// However permits are taken, given back and the source shut down, the
/// number of permits held at the same time never exceeds the number of slots:
/// it holds after every prefix of every sequence of operations on a source
/// that started with `capacity >= 1` free slots.
pub proof fn lemma_held_never_exceeds_capacity(capacity: nat, ops: Seq<AdmissionOp>)
    requires
        capacity >= 1,
    ensures
        forall|k: int|
            0 <= k <= ops.len() ==> (#[trigger] AdmissionView::initial(capacity).run(
                ops.take(k),
            )).held <= capacity,
{
    assert forall|k: int| 0 <= k <= ops.len() implies (#[trigger] AdmissionView::initial(
        capacity,
    ).run(ops.take(k))).held <= capacity by {
        lemma_run_preserves_wf(AdmissionView::initial(capacity), ops.take(k));
    }
}

/// A whole sequence of operations keeps a well-formed source well-formed and
/// leaves its capacity alone.
pub proof fn lemma_run_preserves_wf(v: AdmissionView, ops: Seq<AdmissionOp>)
    requires
        v.wf(),
    ensures
        v.run(ops).wf(),
        v.run(ops).capacity == v.capacity,
    decreases ops.len(),
{
    if ops.len() > 0 {
        lemma_run_preserves_wf(v, ops.drop_last());
        lemma_apply_preserves_wf(v.run(ops.drop_last()), ops.last());
    }
}

} // verus!
