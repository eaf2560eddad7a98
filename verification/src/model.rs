//! Abstract state machine of one control block.
//!
//! A control block carries a strong-handle counter, an allocation counter
//! (one unit per live handle of either kind), and the payload slot. Every
//! executable handle operation in `crate::handle` is specified as exactly one
//! `step` of this machine, so the trace lemmas below apply to any sequence of
//! real operations.

use vstd::prelude::*;

verus! {

/// Abstract state of one control block: the two counters and the payload slot.
pub struct State<T> {
    /// Number of live strong handles.
    pub strong: nat,
    /// Number of live handles of any kind; every strong handle holds one unit.
    pub alloc: nat,
    /// The payload slot: `Some` while the payload has not been torn down.
    pub payload: Option<T>,
}

/// One handle operation on a control block.
pub enum Event {
    /// A strong handle is cloned (one more strong handle, one more allocation unit).
    StrongClone,
    /// A strong handle is released; the last release tears the payload down.
    StrongRelease,
    /// A weak handle is cloned (one more allocation unit).
    WeakClone,
    /// A weak handle is released; the last allocation unit frees the block.
    WeakRelease,
    /// A weak handle is derived from a strong one (one more allocation unit).
    Downgrade,
    /// A weak handle tries to obtain a strong one; it succeeds exactly while
    /// some strong handle is still alive.
    UpgradeAttempt,
}

/// The state of a block freshly constructed around `payload`.
pub open spec fn init_state<T>(payload: T) -> State<T> {
    State { strong: 1, alloc: 1, payload: Some(payload) }
}

/// Well-formedness: every strong handle also holds an allocation unit, and
/// the payload is present exactly while some strong handle is alive.
pub open spec fn inv<T>(s: State<T>) -> bool {
    &&& s.strong <= s.alloc
    &&& (s.payload is Some <==> s.strong >= 1)
}

/// An operation is enabled only while a handle of the kind it acts through
/// can exist: strong operations need a live strong handle, and weak
/// operations need an allocation unit beyond those held by strong handles.
pub open spec fn enabled<T>(s: State<T>, e: Event) -> bool {
    match e {
        Event::StrongClone => s.strong >= 1,
        Event::StrongRelease => s.strong >= 1,
        Event::Downgrade => s.strong >= 1,
        Event::WeakClone => s.alloc >= s.strong + 1,
        Event::WeakRelease => s.alloc >= s.strong + 1,
        Event::UpgradeAttempt => s.alloc >= s.strong + 1,
    }
}

/// The effect of one operation on the block's state.
pub open spec fn step<T>(s: State<T>, e: Event) -> State<T> {
    match e {
        Event::StrongClone => State {
            strong: s.strong + 1,
            alloc: s.alloc + 1,
            payload: s.payload,
        },
        Event::StrongRelease => State {
            strong: (s.strong - 1) as nat,
            alloc: (s.alloc - 1) as nat,
            payload: if s.strong == 1 { None } else { s.payload },
        },
        Event::Downgrade => State { strong: s.strong, alloc: s.alloc + 1, payload: s.payload },
        Event::WeakClone => State { strong: s.strong, alloc: s.alloc + 1, payload: s.payload },
        Event::WeakRelease => State {
            strong: s.strong,
            alloc: (s.alloc - 1) as nat,
            payload: s.payload,
        },
        Event::UpgradeAttempt => if s.strong >= 1 {
            State { strong: s.strong + 1, alloc: s.alloc + 1, payload: s.payload }
        } else {
            s
        },
    }
}

/// The state after running a whole sequence of operations.
pub open spec fn run<T>(s: State<T>, es: Seq<Event>) -> State<T>
    decreases es.len(),
{
    if es.len() == 0 {
        s
    } else {
        run(step(s, es.first()), es.drop_first())
    }
}

/// Every operation of the sequence is enabled in the state it runs from.
pub open spec fn valid_run<T>(s: State<T>, es: Seq<Event>) -> bool
    decreases es.len(),
{
    es.len() == 0 || (enabled(s, es.first()) && valid_run(step(s, es.first()), es.drop_first()))
}

/// How often `e` occurs in `es`.
pub open spec fn count(es: Seq<Event>, e: Event) -> nat
    decreases es.len(),
{
    if es.len() == 0 {
        0
    } else {
        (if es.first() == e { 1nat } else { 0nat }) + count(es.drop_first(), e)
    }
}

/// The sequence consists of strong-handle operations only.
pub open spec fn strong_only(es: Seq<Event>) -> bool {
    forall|i: int| 0 <= i < es.len() ==> es[i] == Event::StrongClone || es[i] == Event::StrongRelease
}

/// Every enabled operation preserves well-formedness.
pub proof fn lemma_step_preserves_inv<T>(s: State<T>, e: Event)
    requires
        inv(s),
        enabled(s, e),
    ensures
        inv(step(s, e)),
{
}

/// A valid run from a well-formed state ends in a well-formed state.
pub proof fn lemma_run_preserves_inv<T>(s: State<T>, es: Seq<Event>)
    requires
        inv(s),
        valid_run(s, es),
    ensures
        inv(run(s, es)),
    decreases es.len(),
{
    if es.len() > 0 {
        lemma_step_preserves_inv(s, es.first());
        lemma_run_preserves_inv(step(s, es.first()), es.drop_first());
    }
}

/// Every prefix of a valid run is itself a valid run.
pub proof fn lemma_valid_run_take<T>(s: State<T>, es: Seq<Event>, i: int)
    requires
        valid_run(s, es),
        0 <= i <= es.len(),
    ensures
        valid_run(s, es.take(i)),
    decreases i,
{
    if i == 0 {
        assert(es.take(0) =~= Seq::<Event>::empty());
    } else {
        assert(es.take(i).first() == es.first());
        assert(es.take(i).drop_first() =~= es.drop_first().take(i - 1));
        lemma_valid_run_take(step(s, es.first()), es.drop_first(), i - 1);
    }
}

/// In a valid run, each operation is enabled in the state reached by the
/// prefix before it.
pub proof fn lemma_enabled_at<T>(s: State<T>, es: Seq<Event>, i: int)
    requires
        valid_run(s, es),
        0 <= i < es.len(),
    ensures
        enabled(run(s, es.take(i)), es[i]),
    decreases i,
{
    if i == 0 {
        assert(es.take(0) =~= Seq::<Event>::empty());
    } else {
        assert(es.take(i).first() == es.first());
        assert(es.take(i).drop_first() =~= es.drop_first().take(i - 1));
        lemma_enabled_at(step(s, es.first()), es.drop_first(), i - 1);
    }
}

/// Counter arithmetic of a run of strong-handle operations alone: the
/// counters move by clones minus releases, and the payload survives, with
/// its original value, exactly while the strong count stays positive.
proof fn lemma_strong_only_run<T>(s: State<T>, es: Seq<Event>)
    requires
        inv(s),
        valid_run(s, es),
        strong_only(es),
    ensures
        run(s, es).strong + count(es, Event::StrongRelease) == s.strong + count(
            es,
            Event::StrongClone,
        ),
        run(s, es).alloc + count(es, Event::StrongRelease) == s.alloc + count(
            es,
            Event::StrongClone,
        ),
        run(s, es).payload == (if run(s, es).strong >= 1 {
            s.payload
        } else {
            None::<T>
        }),
    decreases es.len(),
{
    if es.len() > 0 {
        let e = es.first();
        let s1 = step(s, e);
        let rest = es.drop_first();
        assert(e == Event::StrongClone || e == Event::StrongRelease) by {
            assert(es[0] == e);
        }
        assert(strong_only(rest)) by {
            assert(forall|i: int| 0 <= i < rest.len() ==> rest[i] == es[i + 1]);
        }
        lemma_step_preserves_inv(s, e);
        lemma_strong_only_run(s1, rest);
        if s1.strong == 0 {
            // No strong operation is enabled any more, so the run is over.
            if rest.len() > 0 {
                reveal_with_fuel(valid_run, 2);
                assert(enabled(s1, rest.first()));
                assert(rest[0] == Event::StrongClone || rest[0] == Event::StrongRelease);
                assert(false);
            }
            assert(run(s1, rest) == s1);
        }
    }
}

/// Law: however strong-handle clones and releases of one control block are
/// interleaved, once the releases outnumber the clones by one (every handle,
/// original included, released exactly once), the payload has been destroyed
/// -- and before the final release it is still present, with its original
/// value. The payload is therefore torn down exactly once, by the last
/// release.
pub proof fn lemma_payload_destroyed_once<T>(p: T, es: Seq<Event>)
    requires
        valid_run(init_state(p), es),
        strong_only(es),
        count(es, Event::StrongRelease) == count(es, Event::StrongClone) + 1,
    ensures
        run(init_state(p), es).strong == 0,
        run(init_state(p), es).payload is None,
        forall|i: int|
            0 <= i < es.len() ==> #[trigger] run(init_state(p), es.take(i)).payload == Some(p),
{
    let s0 = init_state(p);
    lemma_strong_only_run(s0, es);
    assert forall|i: int| 0 <= i < es.len() implies #[trigger] run(s0, es.take(i)).payload == Some(
        p,
    ) by {
        lemma_valid_run_take(s0, es, i);
        lemma_enabled_at(s0, es, i);
        assert(strong_only(es.take(i))) by {
            assert(forall|j: int| 0 <= j < es.take(i).len() ==> es.take(i)[j] == es[j]);
        }
        lemma_strong_only_run(s0, es.take(i));
        // The operation at position i is a strong one, so it needs a live
        // strong handle: the prefix state still has strong >= 1.
        assert(es[i] == Event::StrongClone || es[i] == Event::StrongRelease);
        assert(run(s0, es.take(i)).strong >= 1);
    }
}

/// Law: the allocation is freed at most once, and only after the payload has
/// already been torn down. A valid run keeps the allocation counter positive
/// before every operation, so the transition to zero can only be the final
/// one; and a state with allocation count zero has strong count zero and an
/// absent payload.
pub proof fn lemma_dealloc_after_payload<T>(p: T, es: Seq<Event>)
    requires
        valid_run(init_state(p), es),
    ensures
        inv(run(init_state(p), es)),
        run(init_state(p), es).alloc == 0 ==> run(init_state(p), es).strong == 0 && run(
            init_state(p),
            es,
        ).payload is None,
        forall|i: int| 0 <= i < es.len() ==> #[trigger] run(init_state(p), es.take(i)).alloc >= 1,
{
    let s0 = init_state(p);
    lemma_run_preserves_inv(s0, es);
    assert forall|i: int| 0 <= i < es.len() implies #[trigger] run(s0, es.take(i)).alloc >= 1 by {
        lemma_valid_run_take(s0, es, i);
        lemma_run_preserves_inv(s0, es.take(i));
        lemma_enabled_at(s0, es, i);
    }
}

/// The sequence contains no upgrade attempts: only clones, downgrades and
/// releases of the two handle kinds.
pub open spec fn no_upgrades(es: Seq<Event>) -> bool {
    forall|i: int| 0 <= i < es.len() ==> es[i] != Event::UpgradeAttempt
}

/// Counter arithmetic of a run without upgrade attempts: the allocation
/// counter moves by handle creations minus releases, the strong counter by
/// strong clones minus strong releases.
proof fn lemma_counted_run<T>(s: State<T>, es: Seq<Event>)
    requires
        inv(s),
        valid_run(s, es),
        no_upgrades(es),
    ensures
        run(s, es).alloc + count(es, Event::StrongRelease) + count(es, Event::WeakRelease)
            == s.alloc + count(es, Event::StrongClone) + count(es, Event::WeakClone) + count(
            es,
            Event::Downgrade,
        ),
        run(s, es).strong + count(es, Event::StrongRelease) == s.strong + count(
            es,
            Event::StrongClone,
        ),
    decreases es.len(),
{
    if es.len() > 0 {
        let e = es.first();
        let rest = es.drop_first();
        assert(e != Event::UpgradeAttempt) by {
            assert(es[0] == e);
        }
        assert(no_upgrades(rest)) by {
            assert(forall|i: int| 0 <= i < rest.len() ==> rest[i] == es[i + 1]);
        }
        lemma_step_preserves_inv(s, e);
        lemma_counted_run(step(s, e), rest);
    }
}

/// Law: for any interleaving of strong and weak clones, downgrades and
/// releases in which every handle -- the original strong one included -- is
/// released exactly once, the allocation is freed exactly once, by the final
/// release: before every earlier operation it is still alive, and when it
/// goes the payload is already gone.
pub proof fn lemma_dealloc_exactly_once<T>(p: T, es: Seq<Event>)
    requires
        valid_run(init_state(p), es),
        no_upgrades(es),
        count(es, Event::StrongRelease) + count(es, Event::WeakRelease) == count(
            es,
            Event::StrongClone,
        ) + count(es, Event::WeakClone) + count(es, Event::Downgrade) + 1,
    ensures
        run(init_state(p), es).alloc == 0,
        run(init_state(p), es).strong == 0,
        run(init_state(p), es).payload is None,
        forall|i: int| 0 <= i < es.len() ==> #[trigger] run(init_state(p), es.take(i)).alloc >= 1,
{
    let s0 = init_state(p);
    lemma_counted_run(s0, es);
    lemma_run_preserves_inv(s0, es);
    lemma_dealloc_after_payload(p, es);
}

/// Law: a freed block is terminal -- once the allocation counter has reached
/// zero, no handle operation is enabled any more.
pub proof fn lemma_freed_is_terminal<T>(s: State<T>, e: Event)
    requires
        inv(s),
        s.alloc == 0,
    ensures
        !enabled(s, e),
{
}

/// Law: once the strong count has reached zero, it stays zero and the
/// payload stays absent under every valid continuation -- an upgrade
/// observed after that point deterministically fails, and no operation
/// revisits the payload-present states.
pub proof fn lemma_absent_stays_absent<T>(s: State<T>, es: Seq<Event>)
    requires
        inv(s),
        s.strong == 0,
        valid_run(s, es),
    ensures
        run(s, es).strong == 0,
        run(s, es).payload is None,
    decreases es.len(),
{
    if es.len() > 0 {
        lemma_step_preserves_inv(s, es.first());
        lemma_absent_stays_absent(step(s, es.first()), es.drop_first());
    }
}

} // verus!
