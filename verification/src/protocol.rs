//! The reference-count protocol of a record.
//!
//! A dynamic record is shared through an atomic count of live shares; a
//! static record carries no count at all. This module states the protocol as
//! a state machine over plain values and proves its governing laws: a clone
//! adds exactly one share, a drop removes exactly one, the record is freed
//! exactly once, precisely when the count falls from one to zero, and a
//! static record is never counted and never freed.
//!
//! The machine is purely functional: the backing atomic cell of a live
//! dynamic record applies these transitions one at a time. The functions
//! here decide each transition; performing it on shared memory is the
//! backing cell's job.

use vstd::prelude::*;

verus! {

/// A clone may not push the share count past this bound; beyond it the
/// process must abort rather than let the count wrap.
pub const MAX_SHARES: usize = usize::MAX / 2;

/// The lifecycle state of one record.
#[derive(Clone, Copy, PartialEq, Eq, Structural, Debug)]
pub enum RecordState {
    /// A static record: immortal, never counted.
    Static,
    /// A dynamic record with `shares` live shares; `shares` is at least one
    /// for as long as any handle references the record.
    Live { shares: usize },
    /// A dynamic record whose last share has dropped; terminal.
    Destroyed,
}

/// What a drop transition does to the record's memory.
#[derive(Clone, Copy, PartialEq, Eq, Structural, Debug)]
pub enum DropEffect {
    /// The record stays allocated.
    Kept,
    /// The record must be deallocated, exactly now.
    Freed,
}

/// One operation a handle can perform on its record.
#[derive(Clone, Copy, PartialEq, Eq, Structural, Debug)]
pub enum ShareEvent {
    /// A handle was cloned.
    Cloned,
    /// A handle was dropped.
    Dropped,
}

/// A transition may only be asked for by a holder of a live share: the
/// record is static, or dynamic with at least one share outstanding.
pub open spec fn holds_share(s: RecordState) -> bool {
    match s {
        RecordState::Static => true,
        RecordState::Live { shares } => shares >= 1,
        RecordState::Destroyed => false,
    }
}

/// The clone transition. `None` means the count would pass [`MAX_SHARES`]
/// and the process must abort instead of completing the clone.
pub open spec fn spec_clone_share(s: RecordState) -> Option<RecordState> {
    match s {
        RecordState::Static => Some(RecordState::Static),
        RecordState::Live { shares } => if shares < MAX_SHARES {
            Some(RecordState::Live { shares: (shares + 1) as usize })
        } else {
            None
        },
        RecordState::Destroyed => None,
    }
}

/// The drop transition and its effect on the record's memory.
pub open spec fn spec_drop_share(s: RecordState) -> (RecordState, DropEffect) {
    match s {
        RecordState::Static => (RecordState::Static, DropEffect::Kept),
        RecordState::Live { shares } => if shares <= 1 {
            (RecordState::Destroyed, DropEffect::Freed)
        } else {
            (RecordState::Live { shares: (shares - 1) as usize }, DropEffect::Kept)
        },
        RecordState::Destroyed => (RecordState::Destroyed, DropEffect::Kept),
    }
}

/// Construction of a dynamic record: its count starts at one.
pub fn new_dynamic() -> (r: RecordState)
    ensures
        r == (RecordState::Live { shares: 1usize }),
{
    RecordState::Live { shares: 1 }
}

/// Decide a clone: a static record is untouched, a live record gains exactly
/// one share, and a count about to pass [`MAX_SHARES`] demands an abort
/// (`None`) rather than wrapping.
pub fn clone_share(s: RecordState) -> (r: Option<RecordState>)
    requires
        holds_share(s),
    ensures
        r == spec_clone_share(s),
        s is Static ==> r == Some(RecordState::Static),
        match s {
            RecordState::Live { shares } => if shares < MAX_SHARES {
                r == Some(RecordState::Live { shares: (shares + 1) as usize })
            } else {
                r is None
            },
            _ => true,
        },
{
    match s {
        RecordState::Static => Some(RecordState::Static),
        RecordState::Live { shares } => {
            if shares < MAX_SHARES {
                Some(RecordState::Live { shares: shares + 1 })
            } else {
                None
            }
        },
        RecordState::Destroyed => None,
    }
}

/// Decide a drop: a static record is untouched, a live record loses exactly
/// one share, and the record is freed precisely when the count falls from
/// one to zero.
pub fn drop_share(s: RecordState) -> (r: (RecordState, DropEffect))
    requires
        holds_share(s),
    ensures
        r == spec_drop_share(s),
        s is Static ==> r == (RecordState::Static, DropEffect::Kept),
        match s {
            RecordState::Live { shares } => if shares == 1 {
                r == (RecordState::Destroyed, DropEffect::Freed)
            } else {
                r == (RecordState::Live { shares: (shares - 1) as usize }, DropEffect::Kept)
            },
            _ => true,
        },
{
    match s {
        RecordState::Static => (RecordState::Static, DropEffect::Kept),
        RecordState::Live { shares } => {
            if shares <= 1 {
                (RecordState::Destroyed, DropEffect::Freed)
            } else {
                (RecordState::Live { shares: shares - 1 }, DropEffect::Kept)
            }
        },
        RecordState::Destroyed => (RecordState::Destroyed, DropEffect::Kept),
    }
}

/// How many times the record is freed over `k` successive drops from `s`.
pub open spec fn frees_in_drops(s: RecordState, k: nat) -> nat
    decreases k,
{
    if k == 0 {
        0
    } else {
        let (s2, e) = spec_drop_share(s);
        (if e is Freed {
            1nat
        } else {
            0nat
        }) + frees_in_drops(s2, (k - 1) as nat)
    }
}

/// Share accounting: starting from a dynamic record with `n` live shares,
/// dropping each share exactly once frees the record exactly once — on the
/// last drop and never before it.
pub proof fn lemma_drops_free_exactly_once(n: usize, k: nat)
    requires
        1 <= n,
        k <= n,
    ensures
        frees_in_drops(RecordState::Live { shares: n }, k) == if k == n {
            1nat
        } else {
            0nat
        },
    decreases k,
{
    if k > 0 {
        if n == 1 {
            assert(spec_drop_share(RecordState::Live { shares: n }) == (
                RecordState::Destroyed,
                DropEffect::Freed,
            ));
            assert(frees_in_drops(RecordState::Destroyed, (k - 1) as nat) == 0) by {
                lemma_destroyed_never_freed((k - 1) as nat);
            }
        } else {
            lemma_drops_free_exactly_once((n - 1) as usize, (k - 1) as nat);
        }
    }
}

/// A destroyed record is never freed again, over any number of drops.
pub proof fn lemma_destroyed_never_freed(k: nat)
    ensures
        frees_in_drops(RecordState::Destroyed, k) == 0,
    decreases k,
{
    if k > 0 {
        lemma_destroyed_never_freed((k - 1) as nat);
    }
}

/// Cloning and then dropping a share returns a live record to its previous
/// state, with the record kept.
pub proof fn lemma_clone_then_drop(s: RecordState)
    requires
        holds_share(s),
        spec_clone_share(s) is Some,
    ensures
        spec_drop_share(spec_clone_share(s)->Some_0) == (s, DropEffect::Kept),
{
}

/// The state after a sequence of clone and drop events. A clone that would
/// overflow aborts the process, so the machine records no state change for
/// it.
pub open spec fn apply_events(s: RecordState, evs: Seq<ShareEvent>) -> RecordState
    decreases evs.len(),
{
    if evs.len() == 0 {
        s
    } else {
        let s2 = match evs[0] {
            ShareEvent::Cloned => match spec_clone_share(s) {
                Some(next) => next,
                None => s,
            },
            ShareEvent::Dropped => spec_drop_share(s).0,
        };
        apply_events(s2, evs.skip(1))
    }
}

/// How many times the record is freed over a sequence of events from `s`.
pub open spec fn frees_in_events(s: RecordState, evs: Seq<ShareEvent>) -> nat
    decreases evs.len(),
{
    if evs.len() == 0 {
        0
    } else {
        match evs[0] {
            ShareEvent::Cloned => {
                let s2 = match spec_clone_share(s) {
                    Some(next) => next,
                    None => s,
                };
                frees_in_events(s2, evs.skip(1))
            },
            ShareEvent::Dropped => {
                let (s2, e) = spec_drop_share(s);
                (if e is Freed {
                    1nat
                } else {
                    0nat
                }) + frees_in_events(s2, evs.skip(1))
            },
        }
    }
}

/// Static invariance: under any sequence of clones and drops, a static
/// record stays static — it is never counted, never destroyed and never
/// freed.
pub proof fn lemma_static_forever(evs: Seq<ShareEvent>)
    ensures
        apply_events(RecordState::Static, evs) == RecordState::Static,
        frees_in_events(RecordState::Static, evs) == 0,
    decreases evs.len(),
{
    if evs.len() > 0 {
        lemma_static_forever(evs.skip(1));
    }
}

/// The histories that holders of live shares can produce: every event is
/// performed by a holder (at least one share is live before it), and no
/// clone pushes the count past [`MAX_SHARES`].
pub open spec fn valid_history(m: int, evs: Seq<ShareEvent>) -> bool
    decreases evs.len(),
{
    if evs.len() == 0 {
        true
    } else {
        match evs[0] {
            ShareEvent::Cloned => 1 <= m < MAX_SHARES && valid_history(m + 1, evs.skip(1)),
            ShareEvent::Dropped => 1 <= m && valid_history(m - 1, evs.skip(1)),
        }
    }
}

/// The number of live shares after a sequence of events, counting from `m`.
pub open spec fn live_after(m: int, evs: Seq<ShareEvent>) -> int
    decreases evs.len(),
{
    if evs.len() == 0 {
        m
    } else {
        live_after(
            m + if evs[0] is Cloned {
                1int
            } else {
                -1int
            },
            evs.skip(1),
        )
    }
}

/// Share conservation: under any history that holders of live shares can
/// produce — clones and drops in any order — a dynamic record's state tracks
/// exactly the number of outstanding shares, and the record is freed exactly
/// once precisely in the history that drops the last share, never before and
/// never twice.
pub proof fn lemma_share_conservation(n: usize, evs: Seq<ShareEvent>)
    requires
        1 <= n,
        valid_history(n as int, evs),
    ensures
        live_after(n as int, evs) >= 0,
        apply_events(RecordState::Live { shares: n }, evs) == (if live_after(n as int, evs)
            == 0 {
            RecordState::Destroyed
        } else {
            RecordState::Live { shares: live_after(n as int, evs) as usize }
        }),
        frees_in_events(RecordState::Live { shares: n }, evs) == (if live_after(n as int, evs)
            == 0 {
            1nat
        } else {
            0nat
        }),
    decreases evs.len(),
{
    if evs.len() > 0 {
        match evs[0] {
            ShareEvent::Cloned => {
                lemma_share_conservation((n + 1) as usize, evs.skip(1));
            },
            ShareEvent::Dropped => {
                let rest = evs.skip(1);
                if n == 1 {
                    // no share is left, so a valid history ends here
                    assert(valid_history(0int, rest));
                    if rest.len() > 0 {
                        assert(!valid_history(0int, rest)) by {
                            // either kind of event needs a live share
                            if rest[0] is Cloned {
                            } else {
                            }
                        }
                    }
                    assert(rest.len() == 0);
                    assert(live_after(0int, rest) == 0);
                    assert(live_after(n as int, evs) == 0);
                    assert(apply_events(RecordState::Destroyed, rest) == RecordState::Destroyed);
                    assert(apply_events(RecordState::Live { shares: n }, evs)
                        == RecordState::Destroyed);
                    assert(frees_in_events(RecordState::Destroyed, rest) == 0);
                    assert(frees_in_events(RecordState::Live { shares: n }, evs) == 1);
                } else {
                    lemma_share_conservation((n - 1) as usize, evs.skip(1));
                }
            },
        }
    }
}

} // verus!
