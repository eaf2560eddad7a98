//! Executable handle operations over an explicit control block.
//!
//! `ControlBlock` is the shared allocation: two counters and the payload
//! slot. `ArcMake` is a strong (owning) handle token and `WeakMake` a weak
//! (non-owning) one; each operation takes the block it acts on and performs
//! exactly one step of the state machine in `crate::model`. Counter updates
//! that would pass the overflow guard are ruled out by precondition, in place
//! of the abort the guard would otherwise force.

use crate::model::{enabled, init_state, inv, step, Event, State};
use vstd::prelude::*;

verus! {

/// Largest counter value a clone may start from; one past it, a clone storm
/// would have to abort rather than risk wraparound.
pub const COUNTER_LIMIT: usize = usize::MAX / 2;

/// The shared allocation: strong and allocation counters plus the payload slot.
pub struct ControlBlock<T> {
    strong: usize,
    alloc: usize,
    payload: Option<T>,
}

impl<T> View for ControlBlock<T> {
    type V = State<T>;

    closed spec fn view(&self) -> State<T> {
        State { strong: self.strong as nat, alloc: self.alloc as nat, payload: self.payload }
    }
}

/// What a release did to the block.
#[derive(Clone, Copy, Debug, PartialEq, Eq, Structural)]
pub enum ReleaseEffect {
    /// Other handles remain; nothing was torn down.
    Shared,
    /// The last strong handle left: the payload was destroyed in place, but
    /// weak handles still keep the allocation alive.
    PayloadDropped,
    /// The last handle of any kind left: the payload (if still present) is
    /// gone and the allocation itself is dead.
    Deallocated,
}

/// A strong, owning handle: it keeps the payload alive.
pub struct ArcMake {
    owner: (),
}

/// A weak, non-owning handle: it keeps only the allocation alive.
pub struct WeakMake {
    owner: (),
}

impl<T> ControlBlock<T> {
    /// Number of live strong handles.
    pub fn strong_count(&self) -> (n: usize)
        ensures
            n as nat == self@.strong,
    {
        self.strong
    }

    /// Number of live handles of any kind.
    pub fn alloc_count(&self) -> (n: usize)
        ensures
            n as nat == self@.alloc,
    {
        self.alloc
    }

    /// Whether the payload has not yet been torn down.
    pub fn payload_present(&self) -> (b: bool)
        ensures
            b <==> self@.payload is Some,
    {
        self.payload.is_some()
    }
}

impl ArcMake {
    /// Constructs a fresh control block around `payload`, owned by the one
    /// returned strong handle: both counters start at one and the payload is
    /// present.
    pub fn new<T>(payload: T) -> (r: (ArcMake, ControlBlock<T>))
        ensures
            r.1@ == init_state(payload),
            inv(r.1@),
    {
        (ArcMake { owner: () }, ControlBlock { strong: 1, alloc: 1, payload: Some(payload) })
    }

    /// Clones this strong handle: one more strong handle, one more
    /// allocation unit, payload untouched.
    pub fn clone<T>(&self, block: &mut ControlBlock<T>) -> (r: ArcMake)
        requires
            inv(old(block)@),
            enabled(old(block)@, Event::StrongClone),
            old(block)@.strong <= COUNTER_LIMIT as nat,
            old(block)@.alloc <= COUNTER_LIMIT as nat,
        ensures
            final(block)@ == step(old(block)@, Event::StrongClone),
            inv(final(block)@),
    {
        block.alloc = block.alloc + 1;
        block.strong = block.strong + 1;
        ArcMake { owner: () }
    }

    /// Dereferences the payload, which is present because the caller holds a
    /// strong handle.
    pub fn read<'a, T>(&self, block: &'a ControlBlock<T>) -> (r: &'a T)
        requires
            inv(block@),
            block@.strong >= 1,
        ensures
            block@.payload == Some(*r),
    {
        match block.payload.as_ref() {
            Some(r) => r,
            None => vstd::pervasive::unreached(),
        }
    }

    /// Exclusive mutation gate: yields the payload mutably exactly when this
    /// strong handle is the only handle of any kind; otherwise the block is
    /// left untouched and the caller gets the contended-state signal back.
    pub fn get_mut<'a, T>(&self, block: &'a mut ControlBlock<T>) -> (r: Option<&'a mut T>)
        requires
            inv(old(block)@),
            old(block)@.strong >= 1,
        ensures
            (r is Some) <==> old(block)@.alloc == 1,
            match r {
                Some(m) => {
                    &&& *m == old(block)@.payload->Some_0
                    &&& final(block)@.strong == old(block)@.strong
                    &&& final(block)@.alloc == old(block)@.alloc
                    &&& final(block)@.payload == Some(*final(m))
                },
                None => final(block)@ == old(block)@,
            },
            inv(final(block)@),
    {
        if self.is_exclusive(block) {
            match &mut block.payload {
                Some(m) => Some(m),
                None => vstd::pervasive::unreached(),
            }
        } else {
            None
        }
    }

    /// The exclusivity check behind the mutation gate: true exactly when no
    /// other handle, strong or weak, exists.
    pub fn is_exclusive<T>(&self, block: &ControlBlock<T>) -> (b: bool)
        requires
            inv(block@),
            block@.strong >= 1,
        ensures
            b <==> block@.alloc == 1,
    {
        block.alloc == 1
    }

    /// Derives a weak handle: one more allocation unit, the strong counter
    /// and the payload untouched.
    pub fn downgrade<T>(&self, block: &mut ControlBlock<T>) -> (r: WeakMake)
        requires
            inv(old(block)@),
            enabled(old(block)@, Event::Downgrade),
            old(block)@.alloc <= COUNTER_LIMIT as nat,
        ensures
            final(block)@ == step(old(block)@, Event::Downgrade),
            inv(final(block)@),
    {
        block.alloc = block.alloc + 1;
        WeakMake { owner: () }
    }

    /// Releases this strong handle. The last strong release destroys the
    /// payload in place; if no weak handle remains either, the same operation
    /// frees the allocation.
    pub fn release<T>(self, block: &mut ControlBlock<T>) -> (r: ReleaseEffect)
        requires
            inv(old(block)@),
            enabled(old(block)@, Event::StrongRelease),
        ensures
            final(block)@ == step(old(block)@, Event::StrongRelease),
            inv(final(block)@),
            (r == ReleaseEffect::Deallocated) <==> old(block)@.alloc == 1,
            (r == ReleaseEffect::PayloadDropped) <==> (old(block)@.strong == 1
                && old(block)@.alloc > 1),
            (r == ReleaseEffect::Shared) <==> old(block)@.strong > 1,
    {
        block.strong = block.strong - 1;
        if block.strong == 0 {
            block.payload = None;
        }
        block.alloc = block.alloc - 1;
        if block.alloc == 0 {
            ReleaseEffect::Deallocated
        } else if block.strong == 0 {
            ReleaseEffect::PayloadDropped
        } else {
            ReleaseEffect::Shared
        }
    }
}

impl WeakMake {
    /// Clones this weak handle: one more allocation unit, nothing else.
    pub fn clone<T>(&self, block: &mut ControlBlock<T>) -> (r: WeakMake)
        requires
            inv(old(block)@),
            enabled(old(block)@, Event::WeakClone),
            old(block)@.alloc <= COUNTER_LIMIT as nat,
        ensures
            final(block)@ == step(old(block)@, Event::WeakClone),
            inv(final(block)@),
    {
        block.alloc = block.alloc + 1;
        WeakMake { owner: () }
    }

    /// Tries to obtain a strong handle: succeeds exactly while some strong
    /// handle is still alive at the instant of the attempt; once the strong
    /// count has reached zero the payload is gone and upgrading is
    /// permanently impossible.
    pub fn upgrade<T>(&self, block: &mut ControlBlock<T>) -> (r: Option<ArcMake>)
        requires
            inv(old(block)@),
            enabled(old(block)@, Event::UpgradeAttempt),
            old(block)@.strong < usize::MAX as nat,
            old(block)@.alloc <= COUNTER_LIMIT as nat,
        ensures
            final(block)@ == step(old(block)@, Event::UpgradeAttempt),
            inv(final(block)@),
            (r is Some) <==> old(block)@.strong >= 1,
    {
        if block.strong == 0 {
            None
        } else {
            block.alloc = block.alloc + 1;
            block.strong = block.strong + 1;
            Some(ArcMake { owner: () })
        }
    }

    /// Releases this weak handle. The last allocation unit leaving frees the
    /// block; by then the payload is already gone, since every strong handle
    /// holds an allocation unit of its own.
    pub fn release<T>(self, block: &mut ControlBlock<T>) -> (r: ReleaseEffect)
        requires
            inv(old(block)@),
            enabled(old(block)@, Event::WeakRelease),
        ensures
            final(block)@ == step(old(block)@, Event::WeakRelease),
            inv(final(block)@),
            (r == ReleaseEffect::Deallocated) <==> old(block)@.alloc == 1,
            (r == ReleaseEffect::Shared) <==> old(block)@.alloc > 1,
            r != ReleaseEffect::PayloadDropped,
            (r == ReleaseEffect::Deallocated) ==> old(block)@.payload is None,
    {
        block.alloc = block.alloc - 1;
        if block.alloc == 0 {
            ReleaseEffect::Deallocated
        } else {
            ReleaseEffect::Shared
        }
    }
}

} // verus!
