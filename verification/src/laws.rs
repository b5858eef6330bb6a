//! Laws that tie the library's operations together, proved once and for
//! all: cycling through a slot's candidates is a total order with
//! wraparound, a backward step undoes a forward step, and a well-formed
//! store never serves a stale or orphaned cache entry.
//!
//! The cycling laws speak of duplicate-free candidate lists: when one
//! fragment occurs twice in a list, a step away from the later occurrence
//! returns to the earlier one, so the cycle degenerates.

use crate::errors::PaperdollError;
use crate::selector::{
    distinct, first_index_of, lemma_first_index_of, lemma_first_index_of_distinct, next_selection,
    prev_selection, valid_selection,
};
use crate::store::PaperdollAsset;
use vstd::prelude::*;

verus! {

/// How many states cycling visits before returning: each candidate, plus
/// the empty state for an optional slot.
pub open spec fn cycle_len(required: bool, cands: Seq<u32>) -> int {
    if required {
        cands.len() as int
    } else {
        cands.len() as int + 1
    }
}

/// The position of a selection state in cycling order: a fragment sits at
/// its first index in the candidate list, the empty state right after the
/// last candidate.
pub open spec fn pos_of(cands: Seq<u32>, cur: Option<u32>) -> int {
    match cur {
        Some(f) => first_index_of(cands, f),
        None => cands.len() as int,
    }
}

/// The selection state at a cycling position.
pub open spec fn state_of(cands: Seq<u32>, p: int) -> Option<u32> {
    if p == cands.len() {
        None
    } else {
        Some(cands[p])
    }
}

/// The state a successful forward step lands on; a failing step leaves the
/// state unchanged, as the store does.
pub open spec fn next_state(required: bool, cands: Seq<u32>, cur: Option<u32>) -> Option<u32> {
    match next_selection(required, cands, cur) {
        Ok(st) => st,
        Err(_) => cur,
    }
}

/// The state a successful backward step lands on; a failing step leaves the
/// state unchanged, as the store does.
pub open spec fn prev_state(required: bool, cands: Seq<u32>, cur: Option<u32>) -> Option<u32> {
    match prev_selection(required, cands, cur) {
        Ok(st) => st,
        Err(_) => cur,
    }
}

/// The state after `n` forward steps.
pub open spec fn iterate_next(required: bool, cands: Seq<u32>, cur: Option<u32>, n: nat) -> Option<
    u32,
>
    decreases n,
{
    if n == 0 {
        cur
    } else {
        iterate_next(required, cands, next_state(required, cands, cur), (n - 1) as nat)
    }
}

/// The state after `n` backward steps.
pub open spec fn iterate_prev(required: bool, cands: Seq<u32>, cur: Option<u32>, n: nat) -> Option<
    u32,
>
    decreases n,
{
    if n == 0 {
        cur
    } else {
        iterate_prev(required, cands, prev_state(required, cands, cur), (n - 1) as nat)
    }
}

/// A valid state sits at a position inside the cycle, and its position
/// names it back.
proof fn lemma_pos_state(required: bool, cands: Seq<u32>, cur: Option<u32>)
    requires
        valid_selection(required, cands, cur),
    ensures
        0 <= pos_of(cands, cur) < cycle_len(required, cands),
        state_of(cands, pos_of(cands, cur)) == cur,
{
    match cur {
        Some(f) => {
            lemma_first_index_of(cands, f);
        },
        None => {},
    }
}

/// Every position inside the cycle names a valid state, and (with
/// duplicate-free candidates) the state sits exactly there.
proof fn lemma_state_of_valid(required: bool, cands: Seq<u32>, p: int)
    requires
        distinct(cands),
        0 <= p < cycle_len(required, cands),
    ensures
        valid_selection(required, cands, state_of(cands, p)),
        pos_of(cands, state_of(cands, p)) == p,
{
    if p < cands.len() {
        assert(cands.contains(cands[p]));
        lemma_first_index_of_distinct(cands, p);
    }
}

/// One forward step moves the position one ahead, wrapping past the end of
/// the cycle to the front.
proof fn lemma_next_step(required: bool, cands: Seq<u32>, cur: Option<u32>)
    requires
        valid_selection(required, cands, cur),
        distinct(cands),
    ensures
        ({
            let p = pos_of(cands, cur);
            let l = cycle_len(required, cands);
            next_selection(required, cands, cur) == Ok::<Option<u32>, PaperdollError>(
                state_of(
                    cands,
                    if p + 1 < l {
                        p + 1
                    } else {
                        0
                    },
                ),
            )
        }),
{
    lemma_pos_state(required, cands, cur);
    match cur {
        Some(f) => {
            lemma_first_index_of(cands, f);
        },
        None => {},
    }
}

/// One backward step moves the position one back, wrapping past the front
/// of the cycle to the end.
proof fn lemma_prev_step(required: bool, cands: Seq<u32>, cur: Option<u32>)
    requires
        valid_selection(required, cands, cur),
        distinct(cands),
    ensures
        ({
            let p = pos_of(cands, cur);
            let l = cycle_len(required, cands);
            prev_selection(required, cands, cur) == Ok::<Option<u32>, PaperdollError>(
                state_of(
                    cands,
                    if p == 0 {
                        l - 1
                    } else {
                        p - 1
                    },
                ),
            )
        }),
{
    lemma_pos_state(required, cands, cur);
    match cur {
        Some(f) => {
            lemma_first_index_of(cands, f);
        },
        None => {},
    }
}

/// Any number of forward steps keeps the state valid. In particular a
/// required slot, whose valid states are exactly its candidates, is never
/// driven to the empty state.
pub proof fn lemma_iterate_next_valid(required: bool, cands: Seq<u32>, cur: Option<u32>, n: nat)
    requires
        valid_selection(required, cands, cur),
        distinct(cands),
    ensures
        valid_selection(required, cands, iterate_next(required, cands, cur, n)),
    decreases n,
{
    if n > 0 {
        lemma_pos_state(required, cands, cur);
        lemma_next_step(required, cands, cur);
        let p = pos_of(cands, cur);
        let l = cycle_len(required, cands);
        let q = if p + 1 < l {
            p + 1
        } else {
            0
        };
        lemma_state_of_valid(required, cands, q);
        lemma_iterate_next_valid(required, cands, next_state(required, cands, cur), (n - 1) as nat);
    }
}

/// Any number of backward steps keeps the state valid.
pub proof fn lemma_iterate_prev_valid(required: bool, cands: Seq<u32>, cur: Option<u32>, n: nat)
    requires
        valid_selection(required, cands, cur),
        distinct(cands),
    ensures
        valid_selection(required, cands, iterate_prev(required, cands, cur, n)),
    decreases n,
{
    if n > 0 {
        lemma_pos_state(required, cands, cur);
        lemma_prev_step(required, cands, cur);
        let p = pos_of(cands, cur);
        let l = cycle_len(required, cands);
        let q = if p == 0 {
            l - 1
        } else {
            p - 1
        };
        lemma_state_of_valid(required, cands, q);
        lemma_iterate_prev_valid(required, cands, prev_state(required, cands, cur), (n - 1) as nat);
    }
}

/// Cycling is a total order: within one lap, `k` forward steps from
/// position `p` land on position `p + k`, less one full cycle once it
/// passes the end of the cycle.
pub proof fn lemma_iterate_next_pos(required: bool, cands: Seq<u32>, cur: Option<u32>, k: nat)
    requires
        valid_selection(required, cands, cur),
        distinct(cands),
        k <= cycle_len(required, cands),
    ensures
        ({
            let p = pos_of(cands, cur);
            let l = cycle_len(required, cands);
            iterate_next(required, cands, cur, k) == state_of(
                cands,
                if p + k < l {
                    p + k
                } else {
                    p + k - l
                },
            )
        }),
    decreases k,
{
    lemma_pos_state(required, cands, cur);
    if k > 0 {
        lemma_next_step(required, cands, cur);
        let p = pos_of(cands, cur);
        let l = cycle_len(required, cands);
        let q = if p + 1 < l {
            p + 1
        } else {
            0
        };
        lemma_state_of_valid(required, cands, q);
        lemma_iterate_next_pos(required, cands, next_state(required, cands, cur), (k - 1) as nat);
    }
}

/// Cycling is a total order with wraparound: one full lap of forward steps
/// — one step per candidate, plus one for the empty state of an optional
/// slot — returns a slot to the selection it started from.
pub proof fn lemma_cycle_wraps(required: bool, cands: Seq<u32>, cur: Option<u32>)
    requires
        valid_selection(required, cands, cur),
        distinct(cands),
    ensures
        iterate_next(required, cands, cur, cycle_len(required, cands) as nat) == cur,
{
    lemma_pos_state(required, cands, cur);
    lemma_iterate_next_pos(required, cands, cur, cycle_len(required, cands) as nat);
}

/// An optional slot starting empty visits each candidate in order: the
/// `k`-th forward step lands on the `k`-th candidate, and one more step
/// (`lemma_cycle_wraps`) returns to empty.
pub proof fn lemma_optional_orbit(cands: Seq<u32>, k: nat)
    requires
        distinct(cands),
        1 <= k <= cands.len(),
    ensures
        iterate_next(false, cands, None, k) == Some(cands[k - 1]),
{
    lemma_iterate_next_pos(false, cands, None, k);
}

/// A backward step undoes a forward step: from any valid state, stepping
/// forward and then backward returns exactly to the starting selection.
pub proof fn lemma_prev_inverts_next(required: bool, cands: Seq<u32>, cur: Option<u32>)
    requires
        valid_selection(required, cands, cur),
        distinct(cands),
    ensures
        next_selection(required, cands, cur) is Ok,
        prev_selection(required, cands, next_state(required, cands, cur)) == Ok::<
            Option<u32>,
            PaperdollError,
        >(cur),
{
    lemma_pos_state(required, cands, cur);
    lemma_next_step(required, cands, cur);
    let p = pos_of(cands, cur);
    let l = cycle_len(required, cands);
    let q = if p + 1 < l {
        p + 1
    } else {
        0
    };
    lemma_state_of_valid(required, cands, q);
    lemma_prev_step(required, cands, next_state(required, cands, cur));
}

/// Peeling one backward step off the end of a run: `n + 1` backward steps
/// are one backward step after `n` of them.
proof fn lemma_iterate_prev_peel(required: bool, cands: Seq<u32>, cur: Option<u32>, n: nat)
    requires
        valid_selection(required, cands, cur),
        distinct(cands),
    ensures
        iterate_prev(required, cands, cur, n + 1) == prev_state(
            required,
            cands,
            iterate_prev(required, cands, cur, n),
        ),
    decreases n,
{
    lemma_pos_state(required, cands, cur);
    lemma_prev_step(required, cands, cur);
    let p = pos_of(cands, cur);
    let l = cycle_len(required, cands);
    let q = if p == 0 {
        l - 1
    } else {
        p - 1
    };
    lemma_state_of_valid(required, cands, q);
    let st1 = prev_state(required, cands, cur);
    assert(iterate_prev(required, cands, cur, n + 1) == iterate_prev(required, cands, st1, n));
    if n > 0 {
        lemma_iterate_prev_peel(required, cands, st1, (n - 1) as nat);
        assert(iterate_prev(required, cands, cur, n) == iterate_prev(
            required,
            cands,
            st1,
            (n - 1) as nat,
        ));
    } else {
        assert(iterate_prev(required, cands, st1, 0) == st1);
        assert(iterate_prev(required, cands, cur, 0) == cur);
    }
}

/// Prev inverts next: for any valid selection and any number of forward
/// steps, an equal number of backward steps returns to the original
/// selection.
pub proof fn lemma_n_prevs_invert_n_nexts(
    required: bool,
    cands: Seq<u32>,
    cur: Option<u32>,
    n: nat,
)
    requires
        valid_selection(required, cands, cur),
        distinct(cands),
    ensures
        iterate_prev(required, cands, iterate_next(required, cands, cur, n), n) == cur,
    decreases n,
{
    if n > 0 {
        lemma_next_step(required, cands, cur);
        let st1 = next_state(required, cands, cur);
        let p = pos_of(cands, cur);
        let l = cycle_len(required, cands);
        let q = if p + 1 < l {
            p + 1
        } else {
            0
        };
        lemma_pos_state(required, cands, cur);
        lemma_state_of_valid(required, cands, q);
        let y = iterate_next(required, cands, st1, (n - 1) as nat);
        lemma_n_prevs_invert_n_nexts(required, cands, st1, (n - 1) as nat);
        lemma_iterate_next_valid(required, cands, st1, (n - 1) as nat);
        lemma_iterate_prev_peel(required, cands, y, (n - 1) as nat);
        lemma_prev_inverts_next(required, cands, cur);
    }
}

/// Cache consistency: in a well-formed store, every cache entry belongs to
/// a live instance and holds an image rendered from that instance's current
/// selection — a cached render is never stale and never orphaned.
pub proof fn lemma_cache_in_sync(store: PaperdollAsset, id: u32)
    requires
        store.wf(),
        store.cached(id),
    ensures
        store.live(id),
        store.textures_view()[id].rendered_from@ == store.selection(id),
        Some(store.textures_view()[id].image) == crate::catalog::render_result(
            store.catalog(),
            store.doll_of(id),
            store.selection(id),
        ),
{
}

/// Legality invariant: in a well-formed store, every selected slot of every
/// live instance is a slot of that instance's doll, and the fragment it
/// holds is one of the slot's candidates.
pub proof fn lemma_selection_legal(store: PaperdollAsset, id: u32, slot_id: u32)
    requires
        store.wf(),
        store.live(id),
        store.selection(id).contains_key(slot_id),
    ensures
        store.slot_of(id, slot_id),
        store.candidates(slot_id).contains(store.selection(id)[slot_id]),
{
    assert(store.instance_wf(id));
}

} // verus!



