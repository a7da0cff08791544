//! The rules by which every record is decoded.

use crate::bit_reader::bit_len;
use crate::error::Error;
use vstd::prelude::*;

verus! {

/// What a decoding step yields: the value or the failure, and the position of
/// the cursor behind it.
pub type Decoded<T> = (Result<T, Error>, nat);

/// The rule of a conditional field: decode it where its condition holds, and
/// take its default, without moving, where it does not.
pub open spec fn defaulted<T>(
    condition: bool,
    default: T,
    decoded: Decoded<T>,
    pos: nat,
) -> Decoded<T> {
    if condition {
        decoded
    } else {
        (Ok(default), pos)
    }
}

/// The value that a step yielded. Where the step failed there is none, and
/// nothing is known of what this names.
pub open spec fn value<T>(decoded: Decoded<T>) -> T {
    match decoded.0 {
        Ok(v) => v,
        Err(e) => arbitrary(),
    }
}

/// The rule of a field that stands behind another: where the earlier step
/// failed, its failure stands, and the cursor stays where that step left it.
pub open spec fn after<S, T>(earlier: Decoded<S>, decoded: Decoded<T>) -> Decoded<T> {
    match earlier {
        (Ok(v), pos) => decoded,
        (Err(e), pos) => (Err(e), pos),
    }
}

/// The rule of a conditional field that stands behind another: `after` the
/// earlier step, and `defaulted` at the position where that step ended.
pub open spec fn conditional<S, T>(
    earlier: Decoded<S>,
    condition: bool,
    default: T,
    decoded: Decoded<T>,
) -> Decoded<T> {
    after(earlier, defaulted(condition, default, decoded, earlier.1))
}

/// The record that is complete once its last field has been decoded.
pub open spec fn finish<S, T>(last: Decoded<S>, record: T) -> Decoded<T> {
    match last {
        (Ok(v), pos) => (Ok(record), pos),
        (Err(e), pos) => (Err(e), pos),
    }
}

/// `count` times `element`.
pub open spec fn repeated<T>(count: nat, element: T) -> Seq<T> {
    Seq::new(count, |i: int| element)
}

/// The context of a record that depends on nothing outside itself.
#[derive(Clone, Copy, Debug, PartialEq, Eq, Structural)]
pub struct Empty {}

/// The view of a decoded value, or the failure as it is.
pub open spec fn viewed<T: View>(r: Result<T, Error>) -> Result<T::V, Error> {
    match r {
        Ok(v) => Ok(v@),
        Err(e) => Err(e),
    }
}

/// Whether a step that started at `pos` left the cursor at or behind `pos`,
/// and inside the buffer if it started inside.
pub open spec fn forward<T>(data: Seq<u8>, pos: nat, decoded: Decoded<T>) -> bool {
    pos <= decoded.1 && (pos <= bit_len(data) ==> decoded.1 <= bit_len(data))
}

} // verus!
