//! The errors that the library returns.
use vstd::prelude::*;

verus! {

/// `SimulationError` enumerates the errors that the library's verified
/// logic returns.  Errors of the floating-point distributions and of the
/// serialisation formats are added by the application layer.
#[derive(Debug, Clone, Copy, PartialEq, Eq)]
pub enum SimulationError {
    /// Represents an invalid model configuration encountered during simulation
    InvalidModelConfiguration,
    /// Represents an operation requested on a model that does not exist
    ModelNotFound,
    /// Represents an operation requested on a model port that does not exist
    PortNotFound,
    /// Represents a failed clone operation on a model
    ModelCloneError,
    /// Represents an invalid model state
    InvalidModelState,
    /// Represents an invalid state of event scheduling
    EventSchedulingError,
    /// Represents an invalid inter-model message encountered
    InvalidMessage,
    /// Represents a failed serialization operation
    SerializationError,
    /// Represents an empty polynomial configuration used in a simulation
    EmptyPolynomial,
    /// Represents an internal logic error, where prerequisite calculations were not executed
    PrerequisiteCalcError,
    /// Represents a failed conversion to num-traits Float
    FloatConvError,
    /// Represents a message unexpectedly lost/dropped/stuck during simulation execution
    DroppedMessageError,
    /// Weighted Index distribution errors
    WeightedError(rand_distr::WeightedError),
}

} // verus!
