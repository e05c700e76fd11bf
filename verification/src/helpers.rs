//! Small helpers for editing lists of rules.

use vstd::prelude::*;

verus! {

/// Removes the element that `index` points at, if any, and clears `index`.
///
/// With `index` empty, nothing changes.
pub fn remove_opt_index<T>(vec: &mut Vec<T>, index: &mut Option<usize>)
    requires
        *old(index) matches Some(i) ==> i < old(vec)@.len(),
    ensures
        *final(index) == None::<usize>,
        match *old(index) {
            Some(i) => final(vec)@ == old(vec)@.remove(i as int),
            None => final(vec)@ == old(vec)@,
        },
{
    if let Some(i) = *index {
        vec.remove(i);
        *index = None;
    }
}

/// Removes the rule that `index` points at, if any, and clears `index`.
///
/// With `index` empty, nothing changes.
pub fn remove_app<T>(vec: &mut Vec<T>, index: &mut Option<usize>)
    requires
        *old(index) matches Some(i) ==> i < old(vec)@.len(),
    ensures
        *final(index) == None::<usize>,
        match *old(index) {
            Some(i) => final(vec)@ == old(vec)@.remove(i as int),
            None => final(vec)@ == old(vec)@,
        },
{
    remove_opt_index(vec, index);
}

} // verus!
