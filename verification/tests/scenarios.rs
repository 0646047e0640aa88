use i2c_parser::{DecodeState, I2cEngine, I2cMessage, I2cStatus};

/// Drive a START condition from the idle line level.
fn drive_start(machine: &mut I2cEngine) {
    assert_eq!(machine.update_i2c(true, true), DecodeState::Idle);
    assert_eq!(machine.update_i2c(true, false), DecodeState::Pending);
}

/// Clock one data bit through on a rising clock edge.
fn drive_bit(machine: &mut I2cEngine, bit: bool) {
    assert_eq!(machine.update_i2c(false, bit), DecodeState::Pending);
    assert_eq!(machine.update_i2c(true, bit), DecodeState::Pending);
    assert_eq!(machine.update_i2c(false, bit), DecodeState::Pending);
}

/// Clock one byte through, most significant bit first, then an
/// acknowledgement bit at the given level (low means acknowledged).
fn drive_byte(machine: &mut I2cEngine, byte: u8, ack_high: bool) {
    let mut byte = byte;
    for _ in 0..8 {
        let bit = 0x80 == (byte & 0x80);
        byte <<= 1;
        drive_bit(machine, bit);
    }
    assert_eq!(machine.update_i2c(true, ack_high), DecodeState::Pending);
    assert_eq!(machine.update_i2c(false, ack_high), DecodeState::Pending);
}

/// Drive a STOP condition and return the completed transaction.
fn drive_stop(machine: &mut I2cEngine) -> I2cMessage {
    assert_eq!(machine.update_i2c(false, false), DecodeState::Pending);
    assert_eq!(machine.update_i2c(true, false), DecodeState::Pending);
    match machine.update_i2c(true, true) {
        DecodeState::Complete(message) => message,
        _ => panic!("expected a completed transaction"),
    }
}

/// Drive one whole frame, every byte acknowledged.
fn drive_frame(machine: &mut I2cEngine, bytes: &[u8]) -> I2cMessage {
    drive_start(machine);
    for b in bytes {
        drive_byte(machine, *b, false);
    }
    drive_stop(machine)
}

#[test]
fn render_empty_transaction() {
    let mut x = I2cEngine::new();
    let msg = drive_frame(&mut x, &[]);
    assert_eq!(msg.get_payload(), Vec::<u8>::new());
    assert_eq!(msg.render(), "[]");
}

#[test]
fn render_single_zero_byte() {
    let mut x = I2cEngine::new();
    let msg = drive_frame(&mut x, &[0x00]);
    assert_eq!(msg.get_payload(), vec![0x00]);
    assert_eq!(msg.render(), "[00+]");
}

#[test]
fn render_two_zero_bytes() {
    let mut x = I2cEngine::new();
    let msg = drive_frame(&mut x, &[0x00, 0x00]);
    assert_eq!(msg.render(), "[00+00+]");
}

#[test]
fn render_high_nibble_byte() {
    let mut x = I2cEngine::new();
    let msg = drive_frame(&mut x, &[0xF0]);
    assert_eq!(msg.get_payload(), vec![0xF0]);
    assert_eq!(msg.render(), "[F0+]");
}

#[test]
fn render_six_byte_transaction() {
    let mut x = I2cEngine::new();
    let msg = drive_frame(&mut x, &[0x01, 0x02, 0x03, 0xA0, 0xB0, 0xC0]);
    assert_eq!(msg.get_payload(), vec![0x01, 0x02, 0x03, 0xA0, 0xB0, 0xC0]);
    assert_eq!(msg.render(), "[01+02+03+A0+B0+C0+]");
}

#[test]
fn nak_byte_keeps_value_and_marks_status() {
    let mut x = I2cEngine::new();
    drive_start(&mut x);
    drive_byte(&mut x, 0x42, false);
    drive_byte(&mut x, 0x17, true);
    let msg = drive_stop(&mut x);
    assert_eq!(msg.message.len(), 2);
    assert_eq!(msg.message[0].data, 0x42);
    assert_eq!(msg.message[0].status, I2cStatus::Ack);
    assert_eq!(msg.message[1].data, 0x17);
    assert_eq!(msg.message[1].status, I2cStatus::Nak);
    assert_eq!(msg.get_payload(), vec![0x42, 0x17]);
    assert_eq!(msg.render(), "[42+17-]");
}

#[test]
fn stop_discards_partial_byte() {
    let mut x = I2cEngine::new();
    drive_start(&mut x);
    drive_byte(&mut x, 0xAA, false);
    // Three bits of a byte that never completes.
    drive_bit(&mut x, true);
    drive_bit(&mut x, true);
    drive_bit(&mut x, false);
    let msg = drive_stop(&mut x);
    assert_eq!(msg.get_payload(), vec![0xAA]);
    // The engine is clean again: the discarded bits never resurface.
    let msg2 = drive_frame(&mut x, &[0x55]);
    assert_eq!(msg2.get_payload(), vec![0x55]);
}

#[test]
fn idle_engine_keeps_answering_idle() {
    let mut x = I2cEngine::new();
    for _ in 0..10 {
        assert_eq!(x.update_i2c(true, true), DecodeState::Idle);
    }
    for _ in 0..10 {
        assert_eq!(x.update_i2c(false, false), DecodeState::Idle);
    }
    // Still able to decode afterwards.
    assert_eq!(x.update_i2c(true, true), DecodeState::Idle);
    let msg = drive_frame(&mut x, &[0x7E]);
    assert_eq!(msg.render(), "[7E+]");
}

#[test]
fn repeated_start_is_ignored() {
    let mut x = I2cEngine::new();
    drive_start(&mut x);
    // Raise data on a rising clock edge (captured as a bit), then pull it
    // low again under a steady high clock: the shape of a START, which the
    // engine ignores while a transaction is active.
    assert_eq!(x.update_i2c(false, true), DecodeState::Pending);
    assert_eq!(x.update_i2c(true, true), DecodeState::Pending);
    assert_eq!(x.update_i2c(true, false), DecodeState::Pending);
    // The open transaction goes on; no byte ever completed, and the STOP
    // discards the partial capture.
    let msg = drive_stop(&mut x);
    assert_eq!(msg.get_payload(), Vec::<u8>::new());
}

#[test]
fn falling_clock_edges_carry_no_meaning() {
    let mut x = I2cEngine::new();
    drive_start(&mut x);
    // Wiggle the clock down with data moves while the clock is low or
    // falling: nothing is captured.
    assert_eq!(x.update_i2c(false, false), DecodeState::Pending);
    assert_eq!(x.update_i2c(false, true), DecodeState::Pending);
    assert_eq!(x.update_i2c(false, false), DecodeState::Pending);
    let msg = drive_stop(&mut x);
    assert_eq!(msg.get_payload(), Vec::<u8>::new());
}
