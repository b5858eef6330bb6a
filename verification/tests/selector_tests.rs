use paperdoll_store::selector::{find_first_index, select_next, select_prev, vec_contains};
use paperdoll_store::PaperdollError;

#[test]
fn next_walks_candidates_in_order() {
    let cands = vec![10, 20, 30];
    assert_eq!(select_next(false, &cands, None), Ok(Some(10)));
    assert_eq!(select_next(false, &cands, Some(10)), Ok(Some(20)));
    assert_eq!(select_next(false, &cands, Some(20)), Ok(Some(30)));
    assert_eq!(select_next(false, &cands, Some(30)), Ok(None));
}

#[test]
fn next_on_required_slot_wraps_to_first() {
    let cands = vec![10, 20, 30];
    assert_eq!(select_next(true, &cands, Some(30)), Ok(Some(10)));
    assert_eq!(select_next(true, &cands, Some(10)), Ok(Some(20)));
}

#[test]
fn prev_walks_candidates_backwards() {
    let cands = vec![10, 20, 30];
    assert_eq!(select_prev(false, &cands, None), Ok(Some(30)));
    assert_eq!(select_prev(false, &cands, Some(30)), Ok(Some(20)));
    assert_eq!(select_prev(false, &cands, Some(10)), Ok(None));
    assert_eq!(select_prev(true, &cands, Some(10)), Ok(Some(30)));
}

#[test]
fn empty_candidate_lists_cycle_through_empty() {
    let cands: Vec<u32> = vec![];
    assert_eq!(select_next(false, &cands, None), Ok(None));
    assert_eq!(select_prev(false, &cands, None), Ok(None));
}

#[test]
fn required_slot_without_assignment_is_inconsistent() {
    let cands = vec![10, 20];
    assert_eq!(
        select_next(true, &cands, None),
        Err(PaperdollError::InconsistentState)
    );
    assert_eq!(
        select_prev(true, &cands, None),
        Err(PaperdollError::InconsistentState)
    );
}

#[test]
fn stranger_fragment_is_not_a_candidate() {
    let cands = vec![10, 20];
    assert_eq!(
        select_next(false, &cands, Some(77)),
        Err(PaperdollError::NotACandidate)
    );
    assert_eq!(
        select_prev(false, &cands, Some(77)),
        Err(PaperdollError::NotACandidate)
    );
}

#[test]
fn first_index_finds_earliest_occurrence() {
    let v = vec![5, 7, 5, 9];
    assert_eq!(find_first_index(&v, 5), Some(0));
    assert_eq!(find_first_index(&v, 9), Some(3));
    assert_eq!(find_first_index(&v, 8), None);
    assert!(vec_contains(&v, 7));
    assert!(!vec_contains(&v, 8));
}

#[test]
fn duplicate_candidates_step_from_first_occurrence() {
    // with one fragment listed twice, a step leaves from its first index
    let cands = vec![10, 10];
    assert_eq!(select_next(false, &cands, Some(10)), Ok(Some(10)));
    assert_eq!(select_prev(false, &cands, Some(10)), Ok(None));
}
