//! The coordinates of a looked-up position, as the lookup service writes
//! them: latitude, a comma, longitude.

use crate::bytes::copy_bytes;
use vstd::prelude::*;
use vstd::slice::slice_subrange;

verus! {

/// The byte of a comma.
pub const COMMA: u8 = 0x2c;

/// `index` is the place of the one comma of `text`.
pub open spec fn is_only_comma(text: Seq<u8>, index: int) -> bool {
    &&& 0 <= index < text.len()
    &&& text[index] == COMMA
    &&& forall|j: int| 0 <= j < text.len() && j != index ==> #[trigger] text[j] != COMMA
}

/// The place of the first comma of `text` from `start` on, or the length of
/// `text` where there is none.
fn find_comma(text: &[u8], start: usize) -> (found: usize)
    requires
        start <= text@.len(),
    ensures
        start <= found <= text@.len(),
        forall|j: int| start <= j < found ==> #[trigger] text@[j] != COMMA,
        found < text@.len() ==> text@[found as int] == COMMA,
{
    let mut i: usize = start;
    while i < text.len()
        invariant
            start <= i <= text@.len(),
            forall|j: int| start <= j < i ==> #[trigger] text@[j] != COMMA,
        decreases text@.len() - i,
    {
        if text[i] == COMMA {
            return i;
        }
        i += 1;
    }
    i
}

/// Splits `text` at its comma into what stands before and after it.
///
/// Returns `None` unless `text` holds exactly one comma.
pub fn split_coordinates(text: &[u8]) -> (parts: Option<(Vec<u8>, Vec<u8>)>)
    ensures
        match parts {
            Some((latitude, longitude)) => {
                &&& is_only_comma(text@, latitude@.len() as int)
                &&& latitude@ == text@.subrange(0, latitude@.len() as int)
                &&& longitude@ == text@.subrange(latitude@.len() as int + 1, text@.len() as int)
            },
            None => forall|i: int| !is_only_comma(text@, i),
        },
{
    let first = find_comma(text, 0);
    if first >= text.len() {
        return None;
    }
    let second = find_comma(text, first + 1);
    if second < text.len() {
        assert forall|i: int| !is_only_comma(text@, i) by {
            if i == first {
                assert(text@[second as int] == COMMA);
            } else {
                assert(text@[first as int] == COMMA);
            }
        }
        return None;
    }
    let latitude = copy_bytes(slice_subrange(text, 0, first));
    let longitude = copy_bytes(slice_subrange(text, first + 1, text.len()));
    Some((latitude, longitude))
}

} // verus!
