//! The receive half of the transaction engine: the master writes a byte
//! stream and the engine stores it into the caller's buffer, one bus edge at
//! a time.
//!
//! Per edge the engine takes one status snapshot (and the data register's
//! byte, for data edges), updates the transfer cursor and the buffer, and
//! decides the next control register command. `receive_step` is that
//! decision; `receive` runs a whole transaction over a sequence of edges.

use vstd::prelude::*;

use crate::controller::{
    control_write, lemma_apply_then, no_writes, spec_apply, spec_armed, spec_then, Controller,
    RegisterWrites, CTRL_ARMED, CTRL_DISCONNECT, CTRL_RESET,
};
use crate::error::I2CSlaveError;
use crate::event::{decode, spec_decode, BusEvent};

verus! {

/// One observed bus edge: the status snapshot read from the status register,
/// and the byte the data register held at that edge (meaningful only when the
/// status reports a received data byte).
#[derive(Clone, Copy, Debug, PartialEq, Eq, Structural)]
pub struct Edge {
    pub status: u8,
    pub data: u8,
}

/// What one receive step leaves behind: the buffer and cursor after the step,
/// the register writes it asks for, and the terminal outcome if the step ends
/// the transaction (`None` while the transfer continues).
pub ghost struct ReceiveStep {
    pub buf: Seq<u8>,
    pub cursor: int,
    pub writes: RegisterWrites,
    pub result: Option<Result<(), I2CSlaveError>>,
}

/// The receive transition table: one row per decoded event. Events with no
/// row end the transaction with `UnknownState` carrying the raw status code.
pub open spec fn receive_step_spec(buf: Seq<u8>, cursor: int, status: u8, data: u8) -> ReceiveStep {
    match spec_decode(status) {
        BusEvent::WriteRequested | BusEvent::GeneralCallRequested => ReceiveStep {
            buf,
            cursor,
            writes: control_write(CTRL_ARMED),
            result: None,
        },
        BusEvent::WriteArbitrationLost | BusEvent::GeneralCallArbitrationLost => ReceiveStep {
            buf,
            cursor,
            writes: control_write(CTRL_DISCONNECT),
            result: Some(Err(I2CSlaveError::ArbitrationLost)),
        },
        BusEvent::DataReceived | BusEvent::GeneralCallDataReceived => if buf.len() <= cursor {
            ReceiveStep {
                buf,
                cursor,
                writes: control_write(CTRL_DISCONNECT),
                result: Some(Err(I2CSlaveError::BufferOverflow)),
            }
        } else {
            ReceiveStep {
                buf: buf.update(cursor, data),
                cursor: cursor + 1,
                writes: control_write(CTRL_ARMED),
                result: None,
            }
        },
        BusEvent::DataNotAcked | BusEvent::GeneralCallDataNotAcked
        | BusEvent::StopOrRepeatedStart => ReceiveStep {
            buf,
            cursor,
            writes: control_write(CTRL_DISCONNECT),
            result: Some(Ok(())),
        },
        BusEvent::ReadRequested => ReceiveStep {
            buf,
            cursor,
            writes: RegisterWrites { twcr: Some(CTRL_DISCONNECT), twdr: Some(0u8) },
            result: Some(Err(I2CSlaveError::NotExpectedTransactionDirection)),
        },
        _ => ReceiveStep {
            buf,
            cursor,
            writes: no_writes(),
            result: Some(Err(I2CSlaveError::UnknownState(status))),
        },
    }
}

/// A whole receive run over a sequence of edges, folded through the table
/// above. The run stops at the first terminal step, resetting the control
/// register on the way out; a `None` result means the edges ran out with the
/// transaction still in flight (on hardware the engine would still be
/// waiting for the next edge).
pub ghost struct ReceiveRun {
    pub buf: Seq<u8>,
    pub cursor: int,
    pub writes: RegisterWrites,
    pub result: Option<Result<(), I2CSlaveError>>,
}

pub open spec fn receive_run_spec(buf: Seq<u8>, cursor: int, edges: Seq<Edge>) -> ReceiveRun
    decreases edges.len(),
{
    if edges.len() == 0 {
        ReceiveRun { buf, cursor, writes: no_writes(), result: None }
    } else {
        let step = receive_step_spec(buf, cursor, edges[0].status, edges[0].data);
        if step.result is Some {
            ReceiveRun {
                buf: step.buf,
                cursor: step.cursor,
                writes: RegisterWrites { twcr: Some(CTRL_RESET), twdr: step.writes.twdr },
                result: step.result,
            }
        } else {
            let rest = receive_run_spec(
                step.buf,
                step.cursor,
                edges.subrange(1, edges.len() as int),
            );
            ReceiveRun {
                buf: rest.buf,
                cursor: rest.cursor,
                writes: spec_then(step.writes, rest.writes),
                result: rest.result,
            }
        }
    }
}

/// Drive the receive state machine across one bus edge. `cursor` is the
/// transfer cursor into `buffer`; `status` the status snapshot and `data` the
/// data register's byte at that edge. Returns `None` while the transfer
/// continues, or the terminal outcome. The caller mirrors the control (and,
/// on a wrong-direction edge, data) register writes into the hardware before
/// acknowledging the interrupt.
pub fn receive_step(
    ctl: &mut Controller,
    buffer: &mut [u8],
    cursor: &mut usize,
    status: u8,
    data: u8,
) -> (done: Option<Result<(), I2CSlaveError>>)
    requires
        *old(cursor) <= old(buffer)@.len(),
    ensures
        ({
            let step = receive_step_spec(old(buffer)@, *old(cursor) as int, status, data);
            &&& final(buffer)@ == step.buf
            &&& *final(cursor) as int == step.cursor
            &&& *final(ctl) == spec_apply(*old(ctl), step.writes)
            &&& done == step.result
        }),
        *final(cursor) <= final(buffer)@.len(),
{
    match decode(status) {
        BusEvent::WriteRequested | BusEvent::GeneralCallRequested => {
            ctl.twcr = CTRL_ARMED;
            None
        },
        BusEvent::WriteArbitrationLost | BusEvent::GeneralCallArbitrationLost => {
            ctl.twcr = CTRL_DISCONNECT;
            Some(Err(I2CSlaveError::ArbitrationLost))
        },
        BusEvent::DataReceived | BusEvent::GeneralCallDataReceived => {
            if *cursor == buffer.len() {
                ctl.twcr = CTRL_DISCONNECT;
                Some(Err(I2CSlaveError::BufferOverflow))
            } else {
                buffer[*cursor] = data;
                *cursor += 1;
                ctl.twcr = CTRL_ARMED;
                None
            }
        },
        BusEvent::DataNotAcked | BusEvent::GeneralCallDataNotAcked
        | BusEvent::StopOrRepeatedStart => {
            ctl.twcr = CTRL_DISCONNECT;
            Some(Ok(()))
        },
        BusEvent::ReadRequested => {
            ctl.twdr = 0;
            ctl.twcr = CTRL_DISCONNECT;
            Some(Err(I2CSlaveError::NotExpectedTransactionDirection))
        },
        BusEvent::ReadArbitrationLost | BusEvent::ByteSentAcked | BusEvent::ByteSentNacked
        | BusEvent::LastByteSentAcked | BusEvent::Unknown(_) => {
            Some(Err(I2CSlaveError::UnknownState(status)))
        },
    }
}

/// Run one whole receive transaction over the given edges: arm the
/// controller, fold every edge through the transition table, and on the first
/// terminal edge disarm and reset. Returns `None` if the edges ran out with
/// the transfer still in flight. Received bytes stand in `buffer` starting at
/// its front; the cursor's final position is visible through the run's spec.
#[verifier::loop_isolation(false)]
pub fn receive(ctl: &mut Controller, buffer: &mut [u8], edges: &[Edge]) -> (done: Option<
    Result<(), I2CSlaveError>,
>)
    ensures
        ({
            let run = receive_run_spec(old(buffer)@, 0, edges@);
            &&& final(buffer)@ == run.buf
            &&& done == run.result
            &&& *final(ctl) == spec_apply(spec_armed(*old(ctl)), run.writes)
        }),
{
    ctl.arm();
    let ghost start_buf: Seq<u8> = buffer@;
    let ghost armed: Controller = *ctl;
    let mut cursor: usize = 0;
    let mut i: usize = 0;
    proof {
        assert(edges@.skip(0) =~= edges@);
    }
    while i < edges.len()
        invariant
            i <= edges@.len(),
            cursor <= buffer@.len(),
            ({
                let full = receive_run_spec(start_buf, 0, edges@);
                let rest = receive_run_spec(buffer@, cursor as int, edges@.skip(i as int));
                &&& full.buf == rest.buf
                &&& full.cursor == rest.cursor
                &&& full.result == rest.result
                &&& spec_apply(armed, full.writes) == spec_apply(*ctl, rest.writes)
            }),
        decreases edges@.len() - i,
    {
        let edge = edges[i];
        proof {
            assert(edges@.skip(i as int)[0] == edges@[i as int]);
            assert(edges@.skip(i as int).subrange(1, edges@.skip(i as int).len() as int)
                =~= edges@.skip(i as int + 1));
        }
        let ghost buf_before: Seq<u8> = buffer@;
        let ghost cursor_before: int = cursor as int;
        let ghost ctl_before: Controller = *ctl;
        let done = receive_step(ctl, buffer, &mut cursor, edge.status, edge.data);
        proof {
            let step = receive_step_spec(buf_before, cursor_before, edge.status, edge.data);
            if step.result is None {
                let rest_next = receive_run_spec(
                    step.buf,
                    step.cursor,
                    edges@.skip(i as int + 1),
                );
                lemma_apply_then(ctl_before, step.writes, rest_next.writes);
            }
        }
        match done {
            None => {
                i += 1;
            },
            Some(result) => {
                ctl.disarm_reset();
                return Some(result);
            },
        }
    }
    proof {
        assert(edges@.skip(i as int).len() == 0);
    }
    None
}

/// Events after which a receive transfer goes on: the two address matches and
/// the two acknowledged-data events.
pub open spec fn receive_continues(event: BusEvent) -> bool {
    ||| event is WriteRequested
    ||| event is GeneralCallRequested
    ||| event is DataReceived
    ||| event is GeneralCallDataReceived
}

/// Events that close a receive transfer successfully.
pub open spec fn receive_closes(event: BusEvent) -> bool {
    ||| event is DataNotAcked
    ||| event is GeneralCallDataNotAcked
    ||| event is StopOrRepeatedStart
}

/// Events with a row in the receive transition table.
pub open spec fn receive_handles(event: BusEvent) -> bool {
    ||| receive_continues(event)
    ||| receive_closes(event)
    ||| event is WriteArbitrationLost
    ||| event is GeneralCallArbitrationLost
    ||| event is ReadRequested
}

/// Whether an edge carries an acknowledged data byte.
pub open spec fn is_data_edge(edge: Edge) -> bool {
    ||| spec_decode(edge.status) is DataReceived
    ||| spec_decode(edge.status) is GeneralCallDataReceived
}

/// The data bytes a sequence of edges carries, in bus order.
pub open spec fn data_bytes(edges: Seq<Edge>) -> Seq<u8>
    decreases edges.len(),
{
    if edges.len() == 0 {
        Seq::empty()
    } else if is_data_edge(edges[0]) {
        seq![edges[0].data] + data_bytes(edges.subrange(1, edges.len() as int))
    } else {
        data_bytes(edges.subrange(1, edges.len() as int))
    }
}

/// `base` with `patch` written over it starting at position `at`.
pub open spec fn overlay(base: Seq<u8>, at: int, patch: Seq<u8>) -> Seq<u8> {
    Seq::new(
        base.len(),
        |k: int|
            if at <= k < at + patch.len() {
                patch[k - at]
            } else {
                base[k]
            },
    )
}

proof fn lemma_receive_delivery_rec(buf: Seq<u8>, cursor: int, edges: Seq<Edge>)
    requires
        0 <= cursor <= buf.len(),
        edges.len() >= 1,
        forall|k: int| 0 <= k < edges.len() - 1 ==> receive_continues(spec_decode(edges[k].status)),
        receive_closes(spec_decode(edges.last().status)),
        cursor + data_bytes(edges.drop_last()).len() <= buf.len(),
    ensures
        ({
            let run = receive_run_spec(buf, cursor, edges);
            let payload = data_bytes(edges.drop_last());
            &&& run.result == Some(Ok::<(), I2CSlaveError>(()))
            &&& run.buf == overlay(buf, cursor, payload)
            &&& run.cursor == cursor + payload.len()
        }),
    decreases edges.len(),
{
    let tail = edges.subrange(1, edges.len() as int);
    let front = edges.drop_last();
    let payload = data_bytes(front);
    if edges.len() == 1 {
        assert(payload =~= Seq::<u8>::empty());
        assert(edges[0] == edges.last());
        assert(overlay(buf, cursor, payload) =~= buf);
    } else {
        assert(receive_continues(spec_decode(edges[0].status)));
        assert(front[0] == edges[0]);
        assert(tail.last() == edges.last());
        assert(tail.drop_last() =~= front.subrange(1, front.len() as int));
        assert(forall|k: int|
            0 <= k < tail.len() - 1 ==> receive_continues(spec_decode(tail[k].status)));
        let tail_payload = data_bytes(tail.drop_last());
        if is_data_edge(edges[0]) {
            assert(payload == seq![edges[0].data] + tail_payload);
            assert(payload.len() >= 1);
            assert(cursor < buf.len());
            let buf2 = buf.update(cursor, edges[0].data);
            lemma_receive_delivery_rec(buf2, cursor + 1, tail);
            assert(overlay(buf2, cursor + 1, tail_payload) =~= overlay(buf, cursor, payload)) by {
                assert forall|k: int| 0 <= k < buf.len() implies overlay(
                    buf2,
                    cursor + 1,
                    tail_payload,
                )[k] == overlay(buf, cursor, payload)[k] by {
                    if k == cursor {
                        assert(payload[0] == edges[0].data);
                    } else if cursor + 1 <= k < cursor + 1 + tail_payload.len() {
                        assert(payload[k - cursor] == tail_payload[k - cursor - 1]);
                    }
                }
            };
        } else {
            assert(payload == tail_payload);
            lemma_receive_delivery_rec(buf, cursor, tail);
        }
    }
}

/// LAW — delivered stream. A receive run over transition-table events whose
/// last edge closes the transfer (a stop or repeated start, or a final byte
/// that was not acknowledged), carrying at most as many data bytes as the
/// buffer holds, succeeds; the buffer's first `N` positions then hold the `N`
/// transmitted data bytes in order, the rest of the buffer is untouched, and
/// the cursor ends at `N`.
pub proof fn lemma_receive_success(buf: Seq<u8>, edges: Seq<Edge>)
    requires
        edges.len() >= 1,
        forall|k: int| 0 <= k < edges.len() - 1 ==> receive_continues(spec_decode(edges[k].status)),
        receive_closes(spec_decode(edges.last().status)),
        data_bytes(edges.drop_last()).len() <= buf.len(),
    ensures
        ({
            let run = receive_run_spec(buf, 0, edges);
            let payload = data_bytes(edges.drop_last());
            &&& run.result == Some(Ok::<(), I2CSlaveError>(()))
            &&& run.buf.len() == buf.len()
            &&& run.buf.subrange(0, payload.len() as int) == payload
            &&& run.buf.skip(payload.len() as int) == buf.skip(payload.len() as int)
            &&& run.cursor == payload.len()
        }),
{
    lemma_receive_delivery_rec(buf, 0, edges);
    let run = receive_run_spec(buf, 0, edges);
    let payload = data_bytes(edges.drop_last());
    assert(run.buf.subrange(0, payload.len() as int) =~= payload);
    assert(run.buf.skip(payload.len() as int) =~= buf.skip(payload.len() as int));
}

proof fn lemma_receive_overflow_rec(buf: Seq<u8>, cursor: int, edges: Seq<Edge>)
    requires
        0 <= cursor <= buf.len(),
        forall|k: int| 0 <= k < edges.len() ==> receive_continues(spec_decode(edges[k].status)),
        cursor + data_bytes(edges).len() > buf.len(),
    ensures
        ({
            let run = receive_run_spec(buf, cursor, edges);
            &&& run.result == Some(Err::<(), I2CSlaveError>(I2CSlaveError::BufferOverflow))
            &&& run.buf.len() == buf.len()
            &&& run.writes.twcr == Some(CTRL_RESET)
        }),
    decreases edges.len(),
{
    assert(edges.len() >= 1);
    let tail = edges.subrange(1, edges.len() as int);
    assert(receive_continues(spec_decode(edges[0].status)));
    assert(forall|k: int| 0 <= k < tail.len() ==> receive_continues(spec_decode(tail[k].status)));
    if is_data_edge(edges[0]) {
        if cursor < buf.len() {
            assert(data_bytes(edges) == seq![edges[0].data] + data_bytes(tail));
            lemma_receive_overflow_rec(buf.update(cursor, edges[0].data), cursor + 1, tail);
        }
    } else {
        assert(data_bytes(edges) == data_bytes(tail));
        lemma_receive_overflow_rec(buf, cursor, tail);
    }
}

/// LAW — overflow. If the edges, all of them transition-table events that
/// keep the transfer going, carry more data bytes than the buffer has room
/// for, the run ends with `BufferOverflow` and the controller reset; the
/// buffer keeps its length, so no position outside it is ever written (the
/// byte that found no room is dropped, not stored).
pub proof fn lemma_receive_overflow(buf: Seq<u8>, edges: Seq<Edge>)
    requires
        forall|k: int| 0 <= k < edges.len() ==> receive_continues(spec_decode(edges[k].status)),
        data_bytes(edges).len() > buf.len(),
    ensures
        ({
            let run = receive_run_spec(buf, 0, edges);
            &&& run.result == Some(Err::<(), I2CSlaveError>(I2CSlaveError::BufferOverflow))
            &&& run.buf.len() == buf.len()
            &&& run.writes.twcr == Some(CTRL_RESET)
        }),
{
    lemma_receive_overflow_rec(buf, 0, edges);
}

/// LAW — unknown status. A status whose decoded event has no row in the
/// receive table ends the transaction at once with `UnknownState` carrying
/// that exact raw code, from any transfer state; the buffer and the cursor
/// are untouched and the controller ends reset.
pub proof fn lemma_receive_unknown(buf: Seq<u8>, cursor: int, edges: Seq<Edge>)
    requires
        edges.len() >= 1,
        !receive_handles(spec_decode(edges[0].status)),
    ensures
        ({
            let run = receive_run_spec(buf, cursor, edges);
            &&& run.result == Some(
                Err::<(), I2CSlaveError>(I2CSlaveError::UnknownState(edges[0].status)),
            )
            &&& run.buf == buf
            &&& run.cursor == cursor
            &&& run.writes.twcr == Some(CTRL_RESET)
        }),
{
}

/// LAW — wrong direction. A read request while the engine is receiving ends
/// the transaction at once with `NotExpectedTransactionDirection`, from any
/// transfer state; a zero dummy byte is loaded for the bus, the buffer is
/// untouched, and the control register ends at its reset value: the
/// controller is left disarmed.
pub proof fn lemma_receive_wrong_direction(buf: Seq<u8>, cursor: int, edges: Seq<Edge>)
    requires
        edges.len() >= 1,
        spec_decode(edges[0].status) is ReadRequested,
    ensures
        ({
            let run = receive_run_spec(buf, cursor, edges);
            &&& run.result == Some(
                Err::<(), I2CSlaveError>(I2CSlaveError::NotExpectedTransactionDirection),
            )
            &&& run.writes.twcr == Some(CTRL_RESET)
            &&& run.writes.twdr == Some(0u8)
            &&& run.buf == buf
            &&& run.cursor == cursor
        }),
{
}

/// LAW — terminal paths disarm. Whatever edges arrive, if a receive run
/// reaches a terminal outcome, success or any error, its last control
/// register write is the reset value: the engine never returns with the
/// controller still armed.
pub proof fn lemma_receive_terminal_disarms(buf: Seq<u8>, cursor: int, edges: Seq<Edge>)
    ensures
        ({
            let run = receive_run_spec(buf, cursor, edges);
            run.result is Some ==> run.writes.twcr == Some(CTRL_RESET)
        }),
    decreases edges.len(),
{
    if edges.len() > 0 {
        let step = receive_step_spec(buf, cursor, edges[0].status, edges[0].data);
        if step.result is None {
            lemma_receive_terminal_disarms(
                step.buf,
                step.cursor,
                edges.subrange(1, edges.len() as int),
            );
        }
    }
}

} // verus!
