//! Moving a selection cursor through a list, wrapping at both ends.
use vstd::prelude::*;

verus! {

/// A selection fits a list of `len` items: none exactly when the list is
/// empty, and otherwise an index into it.
pub open spec fn selection_fits(selected: Option<usize>, len: nat) -> bool {
    match selected {
        Option::None => len == 0,
        Option::Some(i) => i < len,
    }
}

/// The index before `i` in a list of `len` items; index 0 wraps to the last.
pub open spec fn wrap_prev(i: nat, len: nat) -> nat {
    if i == 0 {
        if len == 0 {
            0
        } else {
            (len - 1) as nat
        }
    } else {
        (i - 1) as nat
    }
}

/// The index after `i` in a list of `len` items; the last wraps to 0.
pub open spec fn wrap_next(i: nat, len: nat) -> nat {
    if i + 1 >= len {
        0
    } else {
        i + 1
    }
}

/// The index before `i`, wrapping from the first to the last.
pub fn step_back(i: usize, len: usize) -> (r: usize)
    requires
        i < len,
    ensures
        r == wrap_prev(i as nat, len as nat),
        r < len,
{
    if i > 0 {
        i - 1
    } else {
        len - 1
    }
}

/// The index after `i`, wrapping from the last to the first.
pub fn step_forward(i: usize, len: usize) -> (r: usize)
    requires
        i < len,
    ensures
        r == wrap_next(i as nat, len as nat),
        r < len,
{
    if i < len - 1 {
        i + 1
    } else {
        0
    }
}

/// Wrapping at the ends: back from the first index reaches the last, forward
/// from the last reaches the first, and on a list of one item both stay put.
pub proof fn lemma_wrap_at_ends(len: nat)
    requires
        len > 0,
    ensures
        wrap_prev(0, len) == len - 1,
        wrap_next((len - 1) as nat, len) == 0,
        len == 1 ==> wrap_prev(0, len) == 0 && wrap_next(0, len) == 0,
{
}

} // verus!
