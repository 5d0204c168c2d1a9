//! The status decoder: a pure mapping from a raw status byte, read from the
//! status register with the prescaler bits cleared, to one logical bus event.
//! The code assignments are the bus controller's slave-mode status codes and
//! are fixed by the hardware datasheet; software can neither originate nor
//! alter them.

use vstd::prelude::*;

verus! {

/// Own address + write acknowledged: the master begins writing to us.
pub const ST_WRITE_REQUESTED: u8 = 0x60;
/// Arbitration lost as master while our own address + write was acknowledged.
pub const ST_WRITE_ARBITRATION_LOST: u8 = 0x68;
/// General-call address acknowledged: a broadcast write begins.
pub const ST_GENERAL_CALL_REQUESTED: u8 = 0x70;
/// Arbitration lost as master while the general-call address was acknowledged.
pub const ST_GENERAL_CALL_ARBITRATION_LOST: u8 = 0x78;
/// Previously addressed with own address + write; a data byte arrived and was
/// acknowledged.
pub const ST_DATA_RECEIVED: u8 = 0x80;
/// Previously addressed with own address + write; a data byte arrived and was
/// not acknowledged: the transfer ends.
pub const ST_DATA_NOT_ACKED: u8 = 0x88;
/// Previously addressed with the general call; a data byte arrived and was
/// acknowledged.
pub const ST_GENERAL_CALL_DATA_RECEIVED: u8 = 0x90;
/// Previously addressed with the general call; a data byte arrived and was
/// not acknowledged: the transfer ends.
pub const ST_GENERAL_CALL_DATA_NOT_ACKED: u8 = 0x98;
/// A stop or repeated-start condition arrived while still addressed.
pub const ST_STOP_OR_REPEATED_START: u8 = 0xA0;
/// Own address + read acknowledged: the master begins reading from us.
pub const ST_READ_REQUESTED: u8 = 0xA8;
/// Arbitration lost as master while our own address + read was acknowledged.
pub const ST_READ_ARBITRATION_LOST: u8 = 0xB0;
/// The byte in the data register went out and the master acknowledged it.
pub const ST_BYTE_SENT_ACKED: u8 = 0xB8;
/// The byte in the data register went out and the master did not acknowledge
/// it: the read ends.
pub const ST_BYTE_SENT_NACKED: u8 = 0xC0;
/// The last byte went out with acknowledge already disabled, yet the master
/// acknowledged it: the read ends.
pub const ST_LAST_BYTE_SENT_ACKED: u8 = 0xC8;

/// One logical bus event, decoded from a raw status byte. Any code outside
/// the table decodes to `Unknown` carrying that exact code.
#[derive(Clone, Copy, Debug, PartialEq, Eq, Structural)]
pub enum BusEvent {
    WriteRequested,
    WriteArbitrationLost,
    GeneralCallRequested,
    GeneralCallArbitrationLost,
    DataReceived,
    DataNotAcked,
    GeneralCallDataReceived,
    GeneralCallDataNotAcked,
    StopOrRepeatedStart,
    ReadRequested,
    ReadArbitrationLost,
    ByteSentAcked,
    ByteSentNacked,
    LastByteSentAcked,
    Unknown(u8),
}

/// The decoding table as a mathematical function.
pub open spec fn spec_decode(status: u8) -> BusEvent {
    if status == ST_WRITE_REQUESTED {
        BusEvent::WriteRequested
    } else if status == ST_WRITE_ARBITRATION_LOST {
        BusEvent::WriteArbitrationLost
    } else if status == ST_GENERAL_CALL_REQUESTED {
        BusEvent::GeneralCallRequested
    } else if status == ST_GENERAL_CALL_ARBITRATION_LOST {
        BusEvent::GeneralCallArbitrationLost
    } else if status == ST_DATA_RECEIVED {
        BusEvent::DataReceived
    } else if status == ST_DATA_NOT_ACKED {
        BusEvent::DataNotAcked
    } else if status == ST_GENERAL_CALL_DATA_RECEIVED {
        BusEvent::GeneralCallDataReceived
    } else if status == ST_GENERAL_CALL_DATA_NOT_ACKED {
        BusEvent::GeneralCallDataNotAcked
    } else if status == ST_STOP_OR_REPEATED_START {
        BusEvent::StopOrRepeatedStart
    } else if status == ST_READ_REQUESTED {
        BusEvent::ReadRequested
    } else if status == ST_READ_ARBITRATION_LOST {
        BusEvent::ReadArbitrationLost
    } else if status == ST_BYTE_SENT_ACKED {
        BusEvent::ByteSentAcked
    } else if status == ST_BYTE_SENT_NACKED {
        BusEvent::ByteSentNacked
    } else if status == ST_LAST_BYTE_SENT_ACKED {
        BusEvent::LastByteSentAcked
    } else {
        BusEvent::Unknown(status)
    }
}

/// Decode one status snapshot into its logical bus event.
pub fn decode(status: u8) -> (event: BusEvent)
    ensures
        event == spec_decode(status),
{
    match status {
        ST_WRITE_REQUESTED => BusEvent::WriteRequested,
        ST_WRITE_ARBITRATION_LOST => BusEvent::WriteArbitrationLost,
        ST_GENERAL_CALL_REQUESTED => BusEvent::GeneralCallRequested,
        ST_GENERAL_CALL_ARBITRATION_LOST => BusEvent::GeneralCallArbitrationLost,
        ST_DATA_RECEIVED => BusEvent::DataReceived,
        ST_DATA_NOT_ACKED => BusEvent::DataNotAcked,
        ST_GENERAL_CALL_DATA_RECEIVED => BusEvent::GeneralCallDataReceived,
        ST_GENERAL_CALL_DATA_NOT_ACKED => BusEvent::GeneralCallDataNotAcked,
        ST_STOP_OR_REPEATED_START => BusEvent::StopOrRepeatedStart,
        ST_READ_REQUESTED => BusEvent::ReadRequested,
        ST_READ_ARBITRATION_LOST => BusEvent::ReadArbitrationLost,
        ST_BYTE_SENT_ACKED => BusEvent::ByteSentAcked,
        ST_BYTE_SENT_NACKED => BusEvent::ByteSentNacked,
        ST_LAST_BYTE_SENT_ACKED => BusEvent::LastByteSentAcked,
        _ => BusEvent::Unknown(status),
    }
}

} // verus!
