//! Field addresses: a dot-separated path becomes a pointer into a document.

use crate::bridge::push_char;
use vstd::prelude::*;

verus! {

/// One character of a pointer: a dot of the path separates two segments.
pub open spec fn pointer_char(c: char) -> char {
    if c == '.' {
        '/'
    } else {
        c
    }
}

/// The pointer for a dot-separated path: the root marker `/`, then the path
/// with each `.` written as `/`. The segments are taken as they stand.
pub open spec fn pointer_of(path: Seq<char>) -> Seq<char> {
    seq!['/'] + path.map_values(|c: char| pointer_char(c))
}

/// Converts a dot-separated field path into a pointer.
pub fn dots_to_slashes(path: &str) -> (pointer: String)
    ensures
        pointer@ == pointer_of(path@),
{
    let mut pointer = String::new();
    push_char(&mut pointer, '/');
    for c in it: path.chars()
        invariant
            it.seq() == path@,
            pointer@ == seq!['/'] + path@.take(it.index()).map_values(|c: char| pointer_char(c)),
    {
        if c == '.' {
            push_char(&mut pointer, '/');
        } else {
            push_char(&mut pointer, c);
        }
    }
    pointer
}

} // verus!
