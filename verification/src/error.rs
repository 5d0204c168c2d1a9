//! The closed set of failure outcomes a transaction can report.

use vstd::prelude::*;

verus! {

/// Every way a receive or respond transaction can fail. Each error is
/// terminal for the call that reports it: the engine disarms and resets the
/// controller before returning, and the caller decides whether to retry.
#[derive(Clone, Copy, Debug, PartialEq, Eq, Structural)]
pub enum I2CSlaveError {
    /// A data byte arrived while the cursor already stood at the buffer's
    /// end; the byte was not stored.
    BufferOverflow,
    /// A status code with no row in the transition table, the generic
    /// bus-error code included; carries the exact raw status byte.
    UnknownState(u8),
    /// Marker kept for protocol states intentionally left unsupported; no
    /// transition in this crate produces it.
    NotImplemented,
    /// The master asked for the direction opposite to the one being served:
    /// a read while receiving, or a write while responding.
    NotExpectedTransactionDirection,
    /// Another bus participant won arbitration while this device was
    /// addressed.
    ArbitrationLost,
}

} // verus!
