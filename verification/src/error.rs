use vstd::prelude::*;

verus! {

/// The failures the compositing engine itself can detect.
///
/// I/O and decode failures happen before values reach this library and are
/// handled by the caller; the library reports only the structural ones.
#[derive(Clone, Copy, Debug, PartialEq, Eq, Structural)]
pub enum Error {
    /// A buffer's length does not match the declared dimensions, or two
    /// frames in one run disagree on their dimensions.
    DimensionMismatch,
    /// A frame store was requested for an empty frame sequence.
    EmptyInput,
}

} // verus!
