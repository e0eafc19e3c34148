//! Model of the protocol's 32-bit status codes and of the errors a service
//! call can produce before any reply is available.

use vstd::prelude::*;

verus! {

/// Severity mask of a status code: the two top bits. `01` in those bits means
/// uncertain, `10` means bad; `00` means good.
pub const STATUS_SEVERITY_MASK: u32 = 0xC000_0000;

/// A protocol status code, carried as its raw 32-bit pattern.
#[derive(Clone, Copy, Debug, PartialEq, Eq, Structural)]
pub struct StatusCode {
    pub bits: u32,
}

/// The all-clear status code.
pub const STATUS_GOOD: u32 = 0;

/// The status code reporting an internal server error.
pub const STATUS_BAD_INTERNAL_ERROR: u32 = 0x8002_0000;

impl StatusCode {
    /// Whether the code reports neither a bad nor an uncertain outcome.
    pub open spec fn spec_is_good(self) -> bool {
        self.bits & STATUS_SEVERITY_MASK == 0
    }

    /// Tests the severity bits of the code.
    pub fn is_good(&self) -> (r: bool)
        ensures
            r == self.spec_is_good(),
    {
        self.bits & STATUS_SEVERITY_MASK == 0
    }
}

/// What can go wrong around a service call itself: the guarded session could
/// not be borrowed within its timeout, or the call returned an error code.
#[derive(Clone, Copy, Debug, PartialEq, Eq, Structural)]
pub enum ServiceError {
    /// The session lock was not acquired within the configured timeout.
    LockTimeout,
    /// The service call returned the carried error code.
    Status(StatusCode),
}

} // verus!
