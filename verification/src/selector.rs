//! Deterministic forward/backward cycling through a slot's candidates.
//!
//! A selection state for one slot is an `Option<u32>`: the fragment id
//! currently assigned, or `None` for an empty slot. Cycling walks the slot's
//! candidate list in order. An optional slot has one extra conceptual
//! "empty" position after the last candidate (and, symmetrically, before the
//! first); a required slot wraps directly from the last candidate to the
//! first and never exposes an empty position.

use crate::errors::PaperdollError;
use vstd::prelude::*;

verus! {

/// The index of the first occurrence of `x` in `s`, or `-1` if absent.
pub open spec fn first_index_of(s: Seq<u32>, x: u32) -> int
    decreases s.len(),
{
    if s.len() == 0 {
        -1
    } else if s[0] == x {
        0
    } else {
        let sub = first_index_of(s.subrange(1, s.len() as int), x);
        if sub == -1 {
            -1
        } else {
            sub + 1
        }
    }
}

/// `first_index_of` finds exactly the members of `s`, at an index that
/// carries the sought value, and is `-1` exactly on non-members.
pub proof fn lemma_first_index_of(s: Seq<u32>, x: u32)
    ensures
        s.contains(x) <==> 0 <= first_index_of(s, x) < s.len(),
        s.contains(x) ==> s[first_index_of(s, x)] == x,
        !s.contains(x) ==> first_index_of(s, x) == -1,
    decreases s.len(),
{
    if s.len() > 0 && s[0] != x {
        let tail = s.subrange(1, s.len() as int);
        lemma_first_index_of(tail, x);
        if s.contains(x) {
            let i = choose|i: int| 0 <= i < s.len() && s[i] == x;
            assert(tail[i - 1] == x);
        }
        if tail.contains(x) {
            let j = choose|j: int| 0 <= j < tail.len() && tail[j] == x;
            assert(s[j + 1] == x);
        }
    }
}

/// No value occurs twice in `s`.
pub open spec fn distinct(s: Seq<u32>) -> bool {
    forall|i: int, j: int| 0 <= i < j < s.len() ==> s[i] != s[j]
}

/// In a duplicate-free sequence, the first index of `s[i]` is `i` itself.
pub proof fn lemma_first_index_of_distinct(s: Seq<u32>, i: int)
    requires
        distinct(s),
        0 <= i < s.len(),
    ensures
        first_index_of(s, s[i]) == i,
    decreases s.len(),
{
    lemma_first_index_of(s, s[i]);
    if s[0] != s[i] {
        let tail = s.subrange(1, s.len() as int);
        lemma_first_index_of_distinct(tail, i - 1);
    }
}

/// A selection state a slot can legally be in: a required slot always holds
/// a fragment, and whatever fragment is held is one of the candidates.
pub open spec fn valid_selection(required: bool, cands: Seq<u32>, cur: Option<u32>) -> bool {
    &&& (required ==> cur is Some)
    &&& (cur matches Some(fid) ==> cands.contains(fid))
}

/// The state `use_next` moves a slot to, or the error it reports.
///
/// From a fragment at position `p`: the candidate at `p + 1`; past the end,
/// a required slot wraps to the first candidate while an optional slot
/// becomes empty. From an empty optional slot: the first candidate (or empty
/// again if there are no candidates). An empty required slot is an invariant
/// violation; a held fragment that is no longer a candidate is rejected.
pub open spec fn next_selection(required: bool, cands: Seq<u32>, cur: Option<u32>) -> Result<
    Option<u32>,
    PaperdollError,
> {
    match cur {
        Some(fid) => {
            let pos = first_index_of(cands, fid);
            if pos == -1 {
                Err(PaperdollError::NotACandidate)
            } else if pos + 1 < cands.len() {
                Ok(Some(cands[pos + 1]))
            } else if required {
                Ok(Some(cands[0]))
            } else {
                Ok(None)
            }
        },
        None => {
            if required {
                Err(PaperdollError::InconsistentState)
            } else if cands.len() > 0 {
                Ok(Some(cands[0]))
            } else {
                Ok(None)
            }
        },
    }
}

/// The state `use_prev` moves a slot to, or the error it reports.
///
/// Symmetric to `next_selection`: the extra empty position of an optional
/// slot sits conceptually before the first candidate, and a required slot
/// wraps from the first candidate to the last.
pub open spec fn prev_selection(required: bool, cands: Seq<u32>, cur: Option<u32>) -> Result<
    Option<u32>,
    PaperdollError,
> {
    match cur {
        Some(fid) => {
            let pos = first_index_of(cands, fid);
            if pos == -1 {
                Err(PaperdollError::NotACandidate)
            } else if pos > 0 {
                Ok(Some(cands[pos - 1]))
            } else if required {
                Ok(Some(cands[cands.len() - 1]))
            } else {
                Ok(None)
            }
        },
        None => {
            if required {
                Err(PaperdollError::InconsistentState)
            } else if cands.len() > 0 {
                Ok(Some(cands[cands.len() - 1]))
            } else {
                Ok(None)
            }
        },
    }
}

/// Whatever fragment a successful forward step lands on is one of the
/// candidates.
pub proof fn lemma_next_selection_in_candidates(required: bool, cands: Seq<u32>, cur: Option<u32>)
    ensures
        match next_selection(required, cands, cur) {
            Ok(st) => match st {
                Some(f) => cands.contains(f),
                None => true,
            },
            Err(_) => true,
        },
{
    match cur {
        Some(fid) => {
            lemma_first_index_of(cands, fid);
            let pos = first_index_of(cands, fid);
            if 0 <= pos < cands.len() {
                if pos + 1 < cands.len() {
                    assert(cands.contains(cands[pos + 1]));
                } else if required {
                    assert(cands.contains(cands[0]));
                }
            }
        },
        None => {
            if !required && cands.len() > 0 {
                assert(cands.contains(cands[0]));
            }
        },
    }
}

/// Whatever fragment a successful backward step lands on is one of the
/// candidates.
pub proof fn lemma_prev_selection_in_candidates(required: bool, cands: Seq<u32>, cur: Option<u32>)
    ensures
        match prev_selection(required, cands, cur) {
            Ok(st) => match st {
                Some(f) => cands.contains(f),
                None => true,
            },
            Err(_) => true,
        },
{
    match cur {
        Some(fid) => {
            lemma_first_index_of(cands, fid);
            let pos = first_index_of(cands, fid);
            if 0 <= pos < cands.len() {
                if pos > 0 {
                    assert(cands.contains(cands[pos - 1]));
                } else if required {
                    assert(cands.contains(cands[cands.len() - 1]));
                }
            }
        },
        None => {
            if !required && cands.len() > 0 {
                assert(cands.contains(cands[cands.len() - 1]));
            }
        },
    }
}

/// Whether `x` occurs in `v`.
pub fn vec_contains(v: &Vec<u32>, x: u32) -> (r: bool)
    ensures
        r == v@.contains(x),
{
    proof {
        lemma_first_index_of(v@, x);
    }
    match find_first_index(v, x) {
        Some(_) => true,
        None => false,
    }
}

/// Finds the first index of `x` in `v`, as `first_index_of` names it.
pub fn find_first_index(v: &Vec<u32>, x: u32) -> (r: Option<usize>)
    ensures
        match r {
            Some(i) => first_index_of(v@, x) == i as int && i < v@.len() && v@[i as int] == x,
            None => first_index_of(v@, x) == -1,
        },
{
    proof {
        lemma_first_index_of(v@, x);
    }
    let mut i: usize = 0;
    while i < v.len()
        invariant
            0 <= i <= v@.len(),
            forall|j: int| 0 <= j < i ==> v@[j] != x,
            v@.contains(x) <==> 0 <= first_index_of(v@, x) < v@.len(),
            v@.contains(x) ==> v@[first_index_of(v@, x)] == x,
        decreases v@.len() - i,
    {
        if v[i] == x {
            proof {
                lemma_first_index_minimal(v@, x, i as int);
            }
            return Some(i);
        }
        i = i + 1;
    }
    proof {
        if v@.contains(x) {
            let j = first_index_of(v@, x);
            assert(v@[j] == x);
        }
    }
    None
}

/// `first_index_of` points at the earliest occurrence: if `s[i] == x` and
/// nothing before `i` equals `x`, the first index is exactly `i`.
pub proof fn lemma_first_index_minimal(s: Seq<u32>, x: u32, i: int)
    requires
        0 <= i < s.len(),
        s[i] == x,
        forall|j: int| 0 <= j < i ==> s[j] != x,
    ensures
        first_index_of(s, x) == i,
    decreases s.len(),
{
    if s[0] != x {
        let tail = s.subrange(1, s.len() as int);
        assert forall|j: int| 0 <= j < i - 1 implies tail[j] != x by {
            assert(tail[j] == s[j + 1]);
        }
        lemma_first_index_minimal(tail, x, i - 1);
    }
}

/// Computes `next_selection` on a concrete slot definition.
pub fn select_next(required: bool, candidates: &Vec<u32>, current: Option<u32>) -> (r: Result<
    Option<u32>,
    PaperdollError,
>)
    ensures
        r == next_selection(required, candidates@, current),
{
    match current {
        Some(fid) => {
            let n = candidates.len();
            match find_first_index(candidates, fid) {
                None => Err(PaperdollError::NotACandidate),
                Some(pos) => {
                    if pos + 1 < n {
                        Ok(Some(candidates[pos + 1]))
                    } else if required {
                        Ok(Some(candidates[0]))
                    } else {
                        Ok(None)
                    }
                },
            }
        },
        None => {
            if required {
                Err(PaperdollError::InconsistentState)
            } else if candidates.len() > 0 {
                Ok(Some(candidates[0]))
            } else {
                Ok(None)
            }
        },
    }
}

/// Computes `prev_selection` on a concrete slot definition.
pub fn select_prev(required: bool, candidates: &Vec<u32>, current: Option<u32>) -> (r: Result<
    Option<u32>,
    PaperdollError,
>)
    ensures
        r == prev_selection(required, candidates@, current),
{
    match current {
        Some(fid) => {
            let n = candidates.len();
            match find_first_index(candidates, fid) {
                None => Err(PaperdollError::NotACandidate),
                Some(pos) => {
                    if pos > 0 {
                        Ok(Some(candidates[pos - 1]))
                    } else if required {
                        Ok(Some(candidates[n - 1]))
                    } else {
                        Ok(None)
                    }
                },
            }
        },
        None => {
            if required {
                Err(PaperdollError::InconsistentState)
            } else if candidates.len() > 0 {
                Ok(Some(candidates[candidates.len() - 1]))
            } else {
                Ok(None)
            }
        },
    }
}

} // verus!
