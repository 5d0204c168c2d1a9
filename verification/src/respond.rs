//! The respond half of the transaction engine: the master reads a byte
//! stream out of the caller's buffer, one bus edge at a time.
//!
//! Per edge the engine takes one status snapshot, loads the next byte into
//! the data register if one is asked for, moves the transfer cursor and
//! decides the next control register command. When the buffer is exhausted it
//! loads a zero pad byte and stops acknowledging; the pad is transmitted but
//! never counted. `respond_step` is one such decision; `respond` runs a whole
//! transaction over a sequence of status snapshots.

use vstd::prelude::*;

use crate::controller::{
    control_write, lemma_apply_then, no_writes, spec_apply, spec_armed, spec_then, Controller,
    RegisterWrites, CTRL_ACTIVE_NACK, CTRL_ARMED, CTRL_DISCONNECT, CTRL_RESET,
};
use crate::error::I2CSlaveError;
use crate::event::{decode, spec_decode, BusEvent};

verus! {

/// What one respond step leaves behind: the cursor after the step, the
/// register writes it asks for (a `twdr` write is a byte handed to the bus),
/// and the terminal outcome if the step ends the transaction (`None` while
/// the transfer continues). A successful outcome carries the count of real
/// payload bytes, pad bytes excluded.
pub ghost struct RespondStep {
    pub cursor: int,
    pub writes: RegisterWrites,
    pub result: Option<Result<usize, I2CSlaveError>>,
}

/// The respond transition table: one row per decoded event. Events with no
/// row end the transaction with `UnknownState` carrying the raw status code.
/// A read request that finds no byte left to serve (an empty buffer, or the
/// cursor already at the end) loads the zero pad byte and stops
/// acknowledging.
pub open spec fn respond_step_spec(buf: Seq<u8>, cursor: int, status: u8) -> RespondStep {
    match spec_decode(status) {
        BusEvent::ReadRequested => if buf.len() <= cursor {
            RespondStep {
                cursor,
                writes: RegisterWrites { twcr: Some(CTRL_ACTIVE_NACK), twdr: Some(0u8) },
                result: None,
            }
        } else {
            RespondStep {
                cursor: cursor + 1,
                writes: RegisterWrites { twcr: Some(CTRL_ARMED), twdr: Some(buf[cursor]) },
                result: None,
            }
        },
        BusEvent::ByteSentAcked => if buf.len() <= cursor {
            RespondStep {
                cursor,
                writes: RegisterWrites { twcr: Some(CTRL_ACTIVE_NACK), twdr: Some(0u8) },
                result: Some(Ok(cursor as usize)),
            }
        } else {
            RespondStep {
                cursor: cursor + 1,
                writes: RegisterWrites { twcr: Some(CTRL_ARMED), twdr: Some(buf[cursor]) },
                result: None,
            }
        },
        BusEvent::ByteSentNacked | BusEvent::LastByteSentAcked => RespondStep {
            cursor,
            writes: control_write(CTRL_DISCONNECT),
            result: Some(Ok(cursor as usize)),
        },
        BusEvent::ReadArbitrationLost => RespondStep {
            cursor,
            writes: control_write(CTRL_DISCONNECT),
            result: Some(Err(I2CSlaveError::ArbitrationLost)),
        },
        BusEvent::WriteRequested => RespondStep {
            cursor,
            writes: RegisterWrites { twcr: Some(CTRL_DISCONNECT), twdr: Some(0u8) },
            result: Some(Err(I2CSlaveError::NotExpectedTransactionDirection)),
        },
        _ => RespondStep {
            cursor,
            writes: no_writes(),
            result: Some(Err(I2CSlaveError::UnknownState(status))),
        },
    }
}

/// The bytes one round of writes hands to the bus: the data register write,
/// if there is one.
pub open spec fn spec_sent_of(writes: RegisterWrites) -> Seq<u8> {
    match writes.twdr {
        Some(byte) => seq![byte],
        None => Seq::empty(),
    }
}

/// A whole respond run over a sequence of status snapshots, folded through
/// the table above. `sent` collects every byte loaded into the data register,
/// pad bytes included, in bus order. The run stops at the first terminal
/// step, resetting the control register on the way out; a `None` result means
/// the snapshots ran out with the transaction still in flight.
pub ghost struct RespondRun {
    pub cursor: int,
    pub sent: Seq<u8>,
    pub writes: RegisterWrites,
    pub result: Option<Result<usize, I2CSlaveError>>,
}

pub open spec fn respond_run_spec(buf: Seq<u8>, cursor: int, statuses: Seq<u8>) -> RespondRun
    decreases statuses.len(),
{
    if statuses.len() == 0 {
        RespondRun { cursor, sent: Seq::empty(), writes: no_writes(), result: None }
    } else {
        let step = respond_step_spec(buf, cursor, statuses[0]);
        if step.result is Some {
            RespondRun {
                cursor: step.cursor,
                sent: spec_sent_of(step.writes),
                writes: RegisterWrites { twcr: Some(CTRL_RESET), twdr: step.writes.twdr },
                result: step.result,
            }
        } else {
            let rest = respond_run_spec(
                buf,
                step.cursor,
                statuses.subrange(1, statuses.len() as int),
            );
            RespondRun {
                cursor: rest.cursor,
                sent: spec_sent_of(step.writes) + rest.sent,
                writes: spec_then(step.writes, rest.writes),
                result: rest.result,
            }
        }
    }
}

/// Drive the respond state machine across one bus edge. `cursor` is the
/// transfer cursor into `buffer`; `status` the status snapshot at that edge.
/// Returns the byte loaded into the data register, if any, and the terminal
/// outcome (`None` while the transfer continues). The caller copies the data
/// register write, then the control register write, into the hardware before
/// acknowledging the interrupt.
pub fn respond_step(
    ctl: &mut Controller,
    buffer: &[u8],
    cursor: &mut usize,
    status: u8,
) -> (outcome: (Option<u8>, Option<Result<usize, I2CSlaveError>>))
    requires
        *old(cursor) <= buffer@.len(),
    ensures
        ({
            let step = respond_step_spec(buffer@, *old(cursor) as int, status);
            &&& *final(cursor) as int == step.cursor
            &&& *final(ctl) == spec_apply(*old(ctl), step.writes)
            &&& outcome.0 == step.writes.twdr
            &&& outcome.1 == step.result
        }),
        *final(cursor) <= buffer@.len(),
{
    match decode(status) {
        BusEvent::ReadRequested => {
            if buffer.len() <= *cursor {
                ctl.twdr = 0;
                ctl.twcr = CTRL_ACTIVE_NACK;
                (Some(0), None)
            } else {
                let byte = buffer[*cursor];
                ctl.twdr = byte;
                *cursor += 1;
                ctl.twcr = CTRL_ARMED;
                (Some(byte), None)
            }
        },
        BusEvent::ByteSentAcked => {
            if buffer.len() <= *cursor {
                ctl.twdr = 0;
                ctl.twcr = CTRL_ACTIVE_NACK;
                (Some(0), Some(Ok(*cursor)))
            } else {
                let byte = buffer[*cursor];
                ctl.twdr = byte;
                *cursor += 1;
                ctl.twcr = CTRL_ARMED;
                (Some(byte), None)
            }
        },
        BusEvent::ByteSentNacked | BusEvent::LastByteSentAcked => {
            ctl.twcr = CTRL_DISCONNECT;
            (None, Some(Ok(*cursor)))
        },
        BusEvent::ReadArbitrationLost => {
            ctl.twcr = CTRL_DISCONNECT;
            (None, Some(Err(I2CSlaveError::ArbitrationLost)))
        },
        BusEvent::WriteRequested => {
            ctl.twdr = 0;
            ctl.twcr = CTRL_DISCONNECT;
            (Some(0), Some(Err(I2CSlaveError::NotExpectedTransactionDirection)))
        },
        BusEvent::WriteArbitrationLost | BusEvent::GeneralCallRequested
        | BusEvent::GeneralCallArbitrationLost | BusEvent::DataReceived | BusEvent::DataNotAcked
        | BusEvent::GeneralCallDataReceived | BusEvent::GeneralCallDataNotAcked
        | BusEvent::StopOrRepeatedStart | BusEvent::Unknown(_) => {
            (None, Some(Err(I2CSlaveError::UnknownState(status))))
        },
    }
}

/// Run one whole respond transaction over the given status snapshots: arm the
/// controller, fold every snapshot through the transition table, and on the
/// first terminal edge disarm and reset. Returns the terminal outcome (`None`
/// if the snapshots ran out with the transfer still in flight) and the bytes
/// handed to the bus in order, pad bytes included.
#[verifier::loop_isolation(false)]
pub fn respond(ctl: &mut Controller, buffer: &[u8], statuses: &[u8]) -> (outcome: (
    Option<Result<usize, I2CSlaveError>>,
    Vec<u8>,
))
    ensures
        ({
            let run = respond_run_spec(buffer@, 0, statuses@);
            &&& outcome.0 == run.result
            &&& outcome.1@ == run.sent
            &&& *final(ctl) == spec_apply(spec_armed(*old(ctl)), run.writes)
        }),
{
    ctl.arm();
    let ghost armed: Controller = *ctl;
    let mut sent: Vec<u8> = Vec::new();
    let mut cursor: usize = 0;
    let mut i: usize = 0;
    proof {
        assert(statuses@.skip(0) =~= statuses@);
        assert(Seq::<u8>::empty() + respond_run_spec(buffer@, 0, statuses@).sent
            =~= respond_run_spec(buffer@, 0, statuses@).sent);
    }
    while i < statuses.len()
        invariant
            i <= statuses@.len(),
            cursor <= buffer@.len(),
            ({
                let full = respond_run_spec(buffer@, 0, statuses@);
                let rest = respond_run_spec(buffer@, cursor as int, statuses@.skip(i as int));
                &&& full.cursor == rest.cursor
                &&& full.result == rest.result
                &&& full.sent == sent@ + rest.sent
                &&& spec_apply(armed, full.writes) == spec_apply(*ctl, rest.writes)
            }),
        decreases statuses@.len() - i,
    {
        let status = statuses[i];
        proof {
            assert(statuses@.skip(i as int)[0] == statuses@[i as int]);
            assert(statuses@.skip(i as int).subrange(1, statuses@.skip(i as int).len() as int)
                =~= statuses@.skip(i as int + 1));
        }
        let ghost cursor_before: int = cursor as int;
        let ghost ctl_before: Controller = *ctl;
        let (loaded, done) = respond_step(ctl, buffer, &mut cursor, status);
        proof {
            let step = respond_step_spec(buffer@, cursor_before, status);
            if step.result is None {
                let rest_next = respond_run_spec(
                    buffer@,
                    step.cursor,
                    statuses@.skip(i as int + 1),
                );
                lemma_apply_then(ctl_before, step.writes, rest_next.writes);
            }
        }
        match loaded {
            None => {},
            Some(byte) => {
                sent.push(byte);
            },
        }
        match done {
            None => {
                i += 1;
            },
            Some(result) => {
                ctl.disarm_reset();
                return (Some(result), sent);
            },
        }
    }
    proof {
        assert(statuses@.skip(i as int).len() == 0);
        assert(sent@ + Seq::<u8>::empty() =~= sent@);
    }
    (None, sent)
}

/// Events with a row in the respond transition table.
pub open spec fn respond_handles(event: BusEvent) -> bool {
    ||| event is ReadRequested
    ||| event is ByteSentAcked
    ||| event is ByteSentNacked
    ||| event is LastByteSentAcked
    ||| event is ReadArbitrationLost
    ||| event is WriteRequested
}

/// LAW — unknown status. A status whose decoded event has no row in the
/// respond table ends the transaction at once with `UnknownState` carrying
/// that exact raw code, from any transfer state; the cursor is untouched,
/// nothing further is handed to the bus, and the controller ends reset.
pub proof fn lemma_respond_unknown(buf: Seq<u8>, cursor: int, statuses: Seq<u8>)
    requires
        statuses.len() >= 1,
        !respond_handles(spec_decode(statuses[0])),
    ensures
        ({
            let run = respond_run_spec(buf, cursor, statuses);
            &&& run.result == Some(
                Err::<usize, I2CSlaveError>(I2CSlaveError::UnknownState(statuses[0])),
            )
            &&& run.cursor == cursor
            &&& run.sent == Seq::<u8>::empty()
            &&& run.writes.twcr == Some(CTRL_RESET)
        }),
{
}

/// LAW — wrong direction. A write request while the engine is responding ends
/// the transaction at once with `NotExpectedTransactionDirection`, from any
/// transfer state; a zero dummy byte is loaded, the cursor is untouched, and
/// the control register ends at its reset value: the controller is left
/// disarmed.
pub proof fn lemma_respond_wrong_direction(buf: Seq<u8>, cursor: int, statuses: Seq<u8>)
    requires
        statuses.len() >= 1,
        spec_decode(statuses[0]) is WriteRequested,
    ensures
        ({
            let run = respond_run_spec(buf, cursor, statuses);
            &&& run.result == Some(
                Err::<usize, I2CSlaveError>(I2CSlaveError::NotExpectedTransactionDirection),
            )
            &&& run.cursor == cursor
            &&& run.writes.twcr == Some(CTRL_RESET)
            &&& run.writes.twdr == Some(0u8)
        }),
{
}

/// LAW — terminal paths disarm. Whatever statuses arrive, if a respond run
/// reaches a terminal outcome, success or any error, its last control
/// register write is the reset value: the engine never returns with the
/// controller still armed.
pub proof fn lemma_respond_terminal_disarms(buf: Seq<u8>, cursor: int, statuses: Seq<u8>)
    ensures
        ({
            let run = respond_run_spec(buf, cursor, statuses);
            run.result is Some ==> run.writes.twcr == Some(CTRL_RESET)
        }),
    decreases statuses.len(),
{
    if statuses.len() > 0 {
        let step = respond_step_spec(buf, cursor, statuses[0]);
        if step.result is None {
            lemma_respond_terminal_disarms(
                buf,
                step.cursor,
                statuses.subrange(1, statuses.len() as int),
            );
        }
    }
}

/// LAW — counted payload. Whenever a respond run ends in success with count
/// `n`, the bytes handed to the bus are exactly the buffer's bytes from the
/// starting cursor up to position `n`, in order, followed by zero pad bytes
/// alone; the pads are transmitted but never counted, and `n` never exceeds
/// the buffer's length.
pub proof fn lemma_respond_payload(buf: Seq<u8>, cursor: int, statuses: Seq<u8>)
    requires
        0 <= cursor <= buf.len(),
        buf.len() <= usize::MAX,
    ensures
        ({
            let run = respond_run_spec(buf, cursor, statuses);
            run.result matches Some(Ok(n)) ==> {
                &&& cursor <= n as int <= buf.len()
                &&& n as int - cursor <= run.sent.len()
                &&& run.sent.take(n as int - cursor) == buf.subrange(cursor, n as int)
                &&& forall|j: int| n as int - cursor <= j < run.sent.len() ==> run.sent[j] == 0u8
            }
        }),
    decreases statuses.len(),
{
    if statuses.len() > 0 {
        let step = respond_step_spec(buf, cursor, statuses[0]);
        let tail = statuses.subrange(1, statuses.len() as int);
        let run = respond_run_spec(buf, cursor, statuses);
        let loaded = spec_sent_of(step.writes);
        if step.result is None {
            lemma_respond_payload(buf, step.cursor, tail);
            let rest = respond_run_spec(buf, step.cursor, tail);
            assert(run.sent == loaded + rest.sent);
            if let Some(Ok(n)) = rest.result {
                let n_i = n as int;
                if cursor < buf.len() {
                    // a real payload byte went out on this edge
                    assert(step.cursor == cursor + 1);
                    assert(loaded == seq![buf[cursor]]);
                    assert(run.sent.take(n_i - cursor) =~= buf.subrange(cursor, n_i)) by {
                        assert forall|j: int| 0 <= j < n_i - cursor implies run.sent.take(
                            n_i - cursor,
                        )[j] == buf.subrange(cursor, n_i)[j] by {
                            if j > 0 {
                                assert(run.sent[j] == rest.sent[j - 1]);
                                assert(rest.sent.take(n_i - cursor - 1)[j - 1] == buf.subrange(
                                    cursor + 1,
                                    n_i,
                                )[j - 1]);
                            }
                        }
                    };
                    assert forall|j: int| n_i - cursor <= j < run.sent.len() implies run.sent[j]
                        == 0u8 by {
                        assert(run.sent[j] == rest.sent[j - 1]);
                    }
                } else {
                    // the zero pad went out: the cursor stands still at the end
                    assert(step.cursor == cursor);
                    assert(n_i == cursor);
                    assert(loaded == seq![0u8]);
                    assert(run.sent.take(0) =~= buf.subrange(cursor, cursor));
                    assert forall|j: int| 0 <= j < run.sent.len() implies run.sent[j] == 0u8 by {
                        if j > 0 {
                            assert(run.sent[j] == rest.sent[j - 1]);
                        }
                    }
                }
            }
        } else {
            if let Some(Ok(n)) = step.result {
                assert(n as int == cursor);
                assert(run.sent.take(0) =~= buf.subrange(cursor, cursor));
            }
        }
    }
}

} // verus!

