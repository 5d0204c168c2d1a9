use i2c_slave::controller::{Controller, CTRL_ARMED, CTRL_RESET};
use i2c_slave::error::I2CSlaveError;
use i2c_slave::receive::{receive, Edge};
use i2c_slave::respond::respond;

fn edge(status: u8, data: u8) -> Edge {
    Edge { status, data }
}

fn fresh() -> Controller {
    Controller::new()
}

#[test]
fn receive_two_bytes_then_stop() {
    let mut ctl = fresh();
    let mut buffer: Vec<u8> = vec![0; 4];
    let edges = vec![edge(0x60, 0), edge(0x80, 7), edge(0x80, 9), edge(0xA0, 0)];
    let done = receive(&mut ctl, &mut buffer, &edges);
    assert_eq!(done, Some(Ok(())));
    assert_eq!(buffer, vec![7, 9, 0, 0]);
    assert_eq!(ctl.twcr, CTRL_RESET);
}

#[test]
fn receive_closed_by_unacked_byte() {
    let mut ctl = fresh();
    let mut buffer: Vec<u8> = vec![0; 2];
    // the byte of the closing, not-acknowledged edge is not stored
    let edges = vec![edge(0x60, 0), edge(0x80, 5), edge(0x88, 6)];
    let done = receive(&mut ctl, &mut buffer, &edges);
    assert_eq!(done, Some(Ok(())));
    assert_eq!(buffer, vec![5, 0]);
}

#[test]
fn receive_under_general_call() {
    let mut ctl = fresh();
    let mut buffer: Vec<u8> = vec![0; 2];
    let edges = vec![edge(0x70, 0), edge(0x90, 3), edge(0x98, 0)];
    let done = receive(&mut ctl, &mut buffer, &edges);
    assert_eq!(done, Some(Ok(())));
    assert_eq!(buffer, vec![3, 0]);
}

#[test]
fn receive_fills_the_buffer_exactly() {
    let mut ctl = fresh();
    let mut buffer: Vec<u8> = vec![0; 2];
    let edges = vec![edge(0x60, 0), edge(0x80, 1), edge(0x80, 2), edge(0xA0, 0)];
    let done = receive(&mut ctl, &mut buffer, &edges);
    assert_eq!(done, Some(Ok(())));
    assert_eq!(buffer, vec![1, 2]);
}

#[test]
fn receive_stop_without_data() {
    let mut ctl = fresh();
    let mut buffer: Vec<u8> = Vec::new();
    let edges = vec![edge(0x60, 0), edge(0xA0, 0)];
    let done = receive(&mut ctl, &mut buffer, &edges);
    assert_eq!(done, Some(Ok(())));
    assert!(buffer.is_empty());
    assert_eq!(ctl.twcr, CTRL_RESET);
}

#[test]
fn receive_overflow_keeps_buffer_in_bounds() {
    let mut ctl = fresh();
    let mut buffer: Vec<u8> = vec![0; 1];
    let edges = vec![edge(0x60, 0), edge(0x80, 7), edge(0x80, 8)];
    let done = receive(&mut ctl, &mut buffer, &edges);
    assert_eq!(done, Some(Err(I2CSlaveError::BufferOverflow)));
    assert_eq!(buffer, vec![7]);
    assert_eq!(ctl.twcr, CTRL_RESET);
}

#[test]
fn receive_overflow_on_empty_buffer() {
    let mut ctl = fresh();
    let mut buffer: Vec<u8> = Vec::new();
    let edges = vec![edge(0x60, 0), edge(0x80, 7)];
    let done = receive(&mut ctl, &mut buffer, &edges);
    assert_eq!(done, Some(Err(I2CSlaveError::BufferOverflow)));
    assert!(buffer.is_empty());
}

#[test]
fn receive_arbitration_lost() {
    let mut ctl = fresh();
    let mut buffer: Vec<u8> = vec![0; 2];
    let done = receive(&mut ctl, &mut buffer, &vec![edge(0x68, 0)]);
    assert_eq!(done, Some(Err(I2CSlaveError::ArbitrationLost)));

    let mut ctl = fresh();
    let done = receive(&mut ctl, &mut buffer, &vec![edge(0x78, 0)]);
    assert_eq!(done, Some(Err(I2CSlaveError::ArbitrationLost)));
    assert_eq!(ctl.twcr, CTRL_RESET);
}

#[test]
fn receive_wrong_direction_disarms() {
    let mut ctl = fresh();
    ctl.twdr = 0x55;
    let mut buffer: Vec<u8> = vec![0; 2];
    let done = receive(&mut ctl, &mut buffer, &vec![edge(0xA8, 0)]);
    assert_eq!(done, Some(Err(I2CSlaveError::NotExpectedTransactionDirection)));
    assert_eq!(ctl.twcr, CTRL_RESET);
    assert_eq!(ctl.twdr, 0, "a zero dummy byte is loaded for the bus");
    assert_eq!(buffer, vec![0, 0]);
}

#[test]
fn receive_unknown_status_carries_raw_code() {
    // the generic bus-error code
    let mut ctl = fresh();
    let mut buffer: Vec<u8> = vec![0; 2];
    let done = receive(&mut ctl, &mut buffer, &vec![edge(0x00, 0)]);
    assert_eq!(done, Some(Err(I2CSlaveError::UnknownState(0x00))));

    // the idle code
    let mut ctl = fresh();
    let done = receive(&mut ctl, &mut buffer, &vec![edge(0xF8, 0)]);
    assert_eq!(done, Some(Err(I2CSlaveError::UnknownState(0xF8))));

    // a respond-mode code has no row in the receive table
    let mut ctl = fresh();
    let done = receive(&mut ctl, &mut buffer, &vec![edge(0xB8, 0)]);
    assert_eq!(done, Some(Err(I2CSlaveError::UnknownState(0xB8))));
}

#[test]
fn receive_without_edges_stays_armed() {
    let mut ctl = fresh();
    let mut buffer: Vec<u8> = vec![0; 2];
    let done = receive(&mut ctl, &mut buffer, &Vec::new());
    assert_eq!(done, None);
    assert_eq!(ctl.twcr, CTRL_ARMED);
    assert_eq!(buffer, vec![0, 0]);
}

#[test]
fn respond_empty_buffer_sends_one_pad() {
    let mut ctl = fresh();
    let buffer: Vec<u8> = Vec::new();
    let (done, sent) = respond(&mut ctl, &buffer, &vec![0xA8, 0xC0]);
    assert_eq!(done, Some(Ok(0)));
    assert_eq!(sent, vec![0]);
    assert_eq!(ctl.twcr, CTRL_RESET);
}

#[test]
fn respond_counts_payload_not_pad() {
    let mut ctl = fresh();
    let buffer: Vec<u8> = vec![10, 20];
    let (done, sent) = respond(&mut ctl, &buffer, &vec![0xA8, 0xB8, 0xB8]);
    assert_eq!(done, Some(Ok(2)));
    assert_eq!(sent, vec![10, 20, 0], "the trailing pad byte is sent as zero");
    assert_eq!(ctl.twcr, CTRL_RESET);
}

#[test]
fn respond_master_nacks_early() {
    let mut ctl = fresh();
    let buffer: Vec<u8> = vec![10, 20];
    let (done, sent) = respond(&mut ctl, &buffer, &vec![0xA8, 0xC0]);
    assert_eq!(done, Some(Ok(1)));
    assert_eq!(sent, vec![10]);
}

#[test]
fn respond_last_byte_acked_ends_read() {
    let mut ctl = fresh();
    let buffer: Vec<u8> = vec![10];
    let (done, sent) = respond(&mut ctl, &buffer, &vec![0xA8, 0xC8]);
    assert_eq!(done, Some(Ok(1)));
    assert_eq!(sent, vec![10]);
}

#[test]
fn respond_arbitration_lost() {
    let mut ctl = fresh();
    let buffer: Vec<u8> = vec![10];
    let (done, sent) = respond(&mut ctl, &buffer, &vec![0xB0]);
    assert_eq!(done, Some(Err(I2CSlaveError::ArbitrationLost)));
    assert!(sent.is_empty());
    assert_eq!(ctl.twcr, CTRL_RESET);
}

#[test]
fn respond_wrong_direction_disarms() {
    let mut ctl = fresh();
    ctl.twdr = 0x55;
    let buffer: Vec<u8> = vec![10];
    let (done, sent) = respond(&mut ctl, &buffer, &vec![0x60]);
    assert_eq!(done, Some(Err(I2CSlaveError::NotExpectedTransactionDirection)));
    assert_eq!(ctl.twcr, CTRL_RESET);
    assert_eq!(ctl.twdr, 0);
    assert_eq!(sent, vec![0]);
}

#[test]
fn respond_unknown_status_carries_raw_code() {
    let mut ctl = fresh();
    let buffer: Vec<u8> = vec![10];
    let (done, _) = respond(&mut ctl, &buffer, &vec![0x80]);
    assert_eq!(done, Some(Err(I2CSlaveError::UnknownState(0x80))));

    let mut ctl = fresh();
    let (done, _) = respond(&mut ctl, &buffer, &vec![0xF8]);
    assert_eq!(done, Some(Err(I2CSlaveError::UnknownState(0xF8))));
}

#[test]
fn respond_without_edges_stays_armed() {
    let mut ctl = fresh();
    let buffer: Vec<u8> = vec![10];
    let (done, sent) = respond(&mut ctl, &buffer, &Vec::new());
    assert_eq!(done, None);
    assert!(sent.is_empty());
    assert_eq!(ctl.twcr, CTRL_ARMED);
}

#[test]
fn respond_repeated_read_request_continues_from_cursor() {
    // a repeated start that addresses us for read again goes on from where
    // the cursor stands
    let mut ctl = fresh();
    let buffer: Vec<u8> = vec![10, 20];
    let (done, sent) = respond(&mut ctl, &buffer, &vec![0xA8, 0xA8, 0xC0]);
    assert_eq!(done, Some(Ok(2)));
    assert_eq!(sent, vec![10, 20]);
}

fn slice_size(b: &mut [u8]) -> usize {
    b.len()
}

#[test]
fn sample_tests() {
    let mut buffer: [u8; 4] = [0; 4];

    assert_eq!(slice_size(&mut buffer), 4);
}
