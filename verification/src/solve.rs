//! The winning-move search over a board and a rack.
//!
//! The search itself is deliberately not designed yet: every call reports
//! that no winning arrangement was found. Only the entry contract exists,
//! which demands a board made of valid sets.

use vstd::prelude::*;
use crate::parser::{Verdict, is_valid_set, spec_check_set};
use crate::tiles::{Tile, wf_set};

verus! {

/// Whether the rack can be fully played onto the board. A board holding an
/// invalid set is a defect of the caller, excluded by precondition. The
/// search is unimplemented, so the answer is always `Err(())`.
pub fn can_win(board: &Vec<Vec<Tile>>, rack: &Vec<Tile>) -> (outcome: Result<(), ()>)
    requires
        forall|k: int|
            0 <= k < board@.len() ==> #[trigger] spec_check_set(board@[k]@) == Verdict::Valid,
        forall|k: int| 0 <= k < board@.len() ==> wf_set(#[trigger] board@[k]@),
    ensures
        outcome is Err,
{
    let mut k: usize = 0;
    while k < board.len()
        invariant
            k <= board@.len(),
            forall|j: int|
                0 <= j < board@.len() ==> #[trigger] spec_check_set(board@[j]@) == Verdict::Valid,
            forall|j: int| 0 <= j < board@.len() ==> wf_set(#[trigger] board@[j]@),
        decreases board@.len() - k,
    {
        let set_ok = is_valid_set(&board[k]);
        assert(set_ok);
        k = k + 1;
    }
    let _ = rack;
    Err(())
}

} // verus!
