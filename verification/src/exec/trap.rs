//! Fatal outcomes of execution.

use vstd::prelude::*;

verus! {

/// Why execution stopped without completing.
///
/// A trap ends the whole chain of invocations that led to it: it comes out
/// of the outermost call as its result. The machine stays as the trapping
/// instruction found it, but for the unit of fuel that the instruction
/// took: nothing that the instruction did before it failed remains, and
/// the frames and regions of the calls in progress are still in place.
/// The modules and the layout of the store are as they were before the
/// call.
#[derive(Clone, Copy, Debug, PartialEq, Eq, Structural)]
pub enum Trap {
    /// A pop found the operand stack empty, or a call found fewer values
    /// than the callee has parameters.
    StackUnderflow,
    /// A typed pop found a value of another variant on top.
    TypeMismatch,
    /// A memory access reached past the end of the memory.
    MemoryOutOfBounds,
    /// A memory access in a module that has no memory.
    NoMemory,
    /// A local index past the current frame's slots.
    InvalidLocal,
    /// A global index that the current module does not resolve.
    InvalidGlobal,
    /// A write to a global that was declared constant.
    ImmutableGlobal,
    /// A module index past the runtime's module list.
    InvalidModule,
    /// A function index or address that resolves to no function record.
    InvalidFunction,
    /// A call through an import slot that was never linked.
    UnresolvedImport,
    /// A function whose type index is past its module's type table.
    InvalidType,
    /// An indirect call in a module that has no table.
    NoTable,
    /// An indirect call through an index past the end of the table.
    TableOutOfBounds,
    /// An indirect call through a table slot that holds no function.
    UninitializedElement,
    /// An indirect call whose callee has another type than the one declared.
    IndirectCallTypeMismatch,
    /// A branch whose label reaches past the regions of the current function.
    InvalidLabel,
    /// An instruction that needs a frame ran with the frame stack empty.
    NoFrame,
    /// An instruction outside the supported set.
    UnsupportedInstruction,
    /// The instruction budget ran out.
    OutOfFuel,
}

} // verus!
