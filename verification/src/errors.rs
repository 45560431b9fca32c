use vstd::prelude::*;

verus! {

/// Error taxonomy of the order service.
///
/// `RowNotFound` carries the row key that was looked up; `DBError`,
/// `EventBrokerError` and `CodecError` carry a human-readable cause.
#[derive(Debug, Clone, PartialEq)]
pub enum OrderServiceError {
    /// The store returned zero rows for the requested key.
    RowNotFound(String),
    /// A decoded row was missing at least one mandatory order field.
    OrderBuildFailed,
    /// Transport or server failure of the wide-column store.
    DBError(String),
    /// Transport or server failure of the event bus.
    EventBrokerError(String),
    /// An event payload could not be decoded.
    CodecError(String),
}

} // verus!
