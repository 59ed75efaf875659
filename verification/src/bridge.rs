//! Ownership of the plugin's state handle across the native boundary.
//!
//! Between the open and close calls, OpenVPN holds the handle only as an
//! opaque address; the adapter must allocate it exactly once at open,
//! lend it out mutably for each event call, and reclaim and destroy it
//! exactly once at close. [`HandleBridge`] is that ownership machine made
//! explicit: a three-phase cell that holds the handle while it is alive.
//! The unsafe part — boxing the bridge and turning its address into the
//! opaque token and back — happens outside this crate; what each phase
//! allows or forbids is enforced here by contract.
//!
//! The trace model ([`step`], [`run`]) states the lifecycle law: an open
//! call, any number of event calls and a close call form a valid session,
//! and every completed session allocates at its single open and frees at
//! its single close, however many event calls stand between them.

use vstd::prelude::*;

verus! {

/// Where a handle stands in its lifecycle.
#[derive(Debug, Copy, Clone, PartialEq, Eq, Structural)]
pub enum BridgePhase {
    /// No handle exists yet; only an open may happen.
    Unopened,
    /// The handle is alive: events may borrow it, a close consumes it.
    Open,
    /// The handle has been consumed; nothing may happen any more.
    Closed,
}

enum BridgeSlot<H> {
    Unopened,
    Open(H),
    Closed,
}

/// The cell that owns the plugin's handle between open and close.
///
/// Exactly one live handle exists per bridge while its phase is `Open`:
/// [`HandleBridge::open`] moves the handle in once,
/// [`HandleBridge::borrow_mut`] lends it out without giving up ownership,
/// and [`HandleBridge::close`] moves it out once, after which the bridge
/// is spent.
pub struct HandleBridge<H> {
    slot: BridgeSlot<H>,
}

impl<H> HandleBridge<H> {
    /// The lifecycle phase the bridge is in.
    pub closed spec fn phase(&self) -> BridgePhase {
        match self.slot {
            BridgeSlot::Unopened => BridgePhase::Unopened,
            BridgeSlot::Open(_) => BridgePhase::Open,
            BridgeSlot::Closed => BridgePhase::Closed,
        }
    }

    /// The handle held while the phase is `Open`.
    pub closed spec fn handle(&self) -> H
        recommends
            self.phase() is Open,
    {
        match self.slot {
            BridgeSlot::Open(handle) => handle,
            _ => vstd::pervasive::arbitrary(),
        }
    }

    /// Creates a bridge with no handle yet.
    pub fn new() -> (bridge: HandleBridge<H>)
        ensures
            bridge.phase() is Unopened,
    {
        HandleBridge { slot: BridgeSlot::Unopened }
    }

    /// Whether the handle is alive: opened and not yet closed.
    pub fn is_open(&self) -> (open: bool)
        ensures
            open == (self.phase() is Open),
    {
        match self.slot {
            BridgeSlot::Open(_) => true,
            _ => false,
        }
    }

    /// Moves the handle a successful open callback returned into the
    /// bridge; from here on it stays alive until `close`.
    pub fn open(&mut self, handle: H)
        requires
            old(self).phase() is Unopened,
        ensures
            final(self).phase() is Open,
            final(self).handle() == handle,
            step(old(self).phase(), BridgeOp::Open) == Some(final(self).phase()),
    {
        self.slot = BridgeSlot::Open(handle);
    }

    /// Lends the live handle out for the duration of one event callback;
    /// the bridge keeps ownership, and whatever the callback leaves behind
    /// is the handle the bridge goes on holding.
    pub fn borrow_mut(&mut self) -> (handle: &mut H)
        requires
            old(self).phase() is Open,
        ensures
            *handle == old(self).handle(),
            final(self).phase() is Open,
            final(self).handle() == *final(handle),
            step(old(self).phase(), BridgeOp::Event) == Some(final(self).phase()),
    {
        match &mut self.slot {
            BridgeSlot::Open(handle) => handle,
            _ => vstd::pervasive::unreached(),
        }
    }

    /// Reclaims full ownership of the handle for the close callback to
    /// consume; the bridge is spent afterwards.
    pub fn close(&mut self) -> (handle: H)
        requires
            old(self).phase() is Open,
        ensures
            final(self).phase() is Closed,
            handle == old(self).handle(),
            step(old(self).phase(), BridgeOp::Close) == Some(final(self).phase()),
    {
        let mut slot = BridgeSlot::Closed;
        core::mem::swap(&mut slot, &mut self.slot);
        match slot {
            BridgeSlot::Open(handle) => handle,
            _ => vstd::pervasive::unreached(),
        }
    }
}

/// One operation of the handle's lifecycle, as the host drives it.
#[derive(Debug, Copy, Clone, PartialEq, Eq, Structural)]
pub enum BridgeOp {
    /// The open entry point: allocates the handle.
    Open,
    /// An event entry point: borrows the handle.
    Event,
    /// The close entry point: consumes and frees the handle.
    Close,
}

/// The phase an operation leads to, or `None` where the operation is not
/// allowed in the given phase.
pub open spec fn step(phase: BridgePhase, op: BridgeOp) -> Option<BridgePhase> {
    match (phase, op) {
        (BridgePhase::Unopened, BridgeOp::Open) => Some(BridgePhase::Open),
        (BridgePhase::Open, BridgeOp::Event) => Some(BridgePhase::Open),
        (BridgePhase::Open, BridgeOp::Close) => Some(BridgePhase::Closed),
        _ => None,
    }
}

/// Runs a sequence of operations from a phase; `None` as soon as one of
/// them is not allowed.
pub open spec fn run(phase: BridgePhase, ops: Seq<BridgeOp>) -> Option<BridgePhase>
    decreases ops.len(),
{
    if ops.len() == 0 {
        Some(phase)
    } else {
        match step(phase, ops[0]) {
            Some(next) => run(next, ops.drop_first()),
            None => None,
        }
    }
}

/// How often an operation occurs in a sequence.
pub open spec fn count_op(ops: Seq<BridgeOp>, op: BridgeOp) -> nat
    decreases ops.len(),
{
    if ops.len() == 0 {
        0
    } else {
        count_op(ops.drop_first(), op) + if ops[0] == op {
            1nat
        } else {
            0nat
        }
    }
}

/// The operation sequence of one full session: an open, `events` event
/// calls, a close.
pub open spec fn session(events: nat) -> Seq<BridgeOp> {
    seq![BridgeOp::Open] + Seq::new(events, |i: int| BridgeOp::Event) + seq![BridgeOp::Close]
}

/// Event calls keep the bridge open: from the open phase, any number of
/// events followed by a close runs through and ends closed.
proof fn lemma_events_then_close(events: nat)
    ensures
        run(BridgePhase::Open, Seq::new(events, |i: int| BridgeOp::Event) + seq![BridgeOp::Close])
            == Some(BridgePhase::Closed),
    decreases events,
{
    let ops = Seq::new(events, |i: int| BridgeOp::Event) + seq![BridgeOp::Close];
    if events == 0 {
        assert(ops =~= seq![BridgeOp::Close]);
        assert(ops.drop_first() =~= Seq::<BridgeOp>::empty());
        assert(ops[0] == BridgeOp::Close);
        assert(run(BridgePhase::Closed, Seq::<BridgeOp>::empty()) == Some(BridgePhase::Closed));
        assert(run(BridgePhase::Open, ops) == Some(BridgePhase::Closed));
    } else {
        lemma_events_then_close((events - 1) as nat);
        assert(ops[0] == BridgeOp::Event);
        assert(ops.drop_first() =~= Seq::new((events - 1) as nat, |i: int| BridgeOp::Event)
            + seq![BridgeOp::Close]);
        assert(step(BridgePhase::Open, BridgeOp::Event) == Some(BridgePhase::Open));
        assert(run(BridgePhase::Open, ops) == run(BridgePhase::Open, ops.drop_first()));
    }
}

/// A session of any length is a valid lifecycle: opened once, driven
/// through its event calls, and closed, it ends in the closed phase.
pub proof fn lemma_session_valid(events: nat)
    ensures
        run(BridgePhase::Unopened, session(events)) == Some(BridgePhase::Closed),
{
    let ops = session(events);
    assert(ops[0] == BridgeOp::Open);
    assert(ops.drop_first() =~= Seq::new(events, |i: int| BridgeOp::Event) + seq![BridgeOp::Close]);
    lemma_events_then_close(events);
}

/// Nothing runs from the closed phase.
proof fn lemma_closed_is_final(ops: Seq<BridgeOp>, end: BridgePhase)
    requires
        run(BridgePhase::Closed, ops) == Some(end),
    ensures
        ops.len() == 0,
        end == BridgePhase::Closed,
{
}

/// A run from the open phase that ends closed closes exactly once and
/// never opens.
proof fn lemma_open_to_closed_counts(ops: Seq<BridgeOp>)
    requires
        run(BridgePhase::Open, ops) == Some(BridgePhase::Closed),
    ensures
        count_op(ops, BridgeOp::Open) == 0,
        count_op(ops, BridgeOp::Close) == 1,
    decreases ops.len(),
{
    assert(ops.len() > 0) by {
        if ops.len() == 0 {
            assert(run(BridgePhase::Open, ops) == Some(BridgePhase::Open));
        }
    }
    let rest = ops.drop_first();
    if ops[0] == BridgeOp::Event {
        assert(run(BridgePhase::Open, ops) == run(BridgePhase::Open, rest));
        lemma_open_to_closed_counts(rest);
    } else if ops[0] == BridgeOp::Close {
        assert(run(BridgePhase::Open, ops) == run(BridgePhase::Closed, rest));
        lemma_closed_is_final(rest, BridgePhase::Closed);
        assert(count_op(rest, BridgeOp::Open) == 0);
        assert(count_op(rest, BridgeOp::Close) == 0);
    } else {
        assert(step(BridgePhase::Open, ops[0]) is None);
        assert(run(BridgePhase::Open, ops) is None);
    }
}

/// The handle of a completed session is allocated exactly once and freed
/// exactly once, however many event calls the session held: allocation
/// happens only in the open operation and deallocation only in the close
/// operation, and every run of operations from the unopened to the closed
/// phase holds exactly one of each.
pub proof fn lemma_one_allocation_one_release(ops: Seq<BridgeOp>)
    requires
        run(BridgePhase::Unopened, ops) == Some(BridgePhase::Closed),
    ensures
        count_op(ops, BridgeOp::Open) == 1,
        count_op(ops, BridgeOp::Close) == 1,
{
    assert(ops[0] == BridgeOp::Open);
    lemma_open_to_closed_counts(ops.drop_first());
}

} // verus!
