use i2c_parser::{DecodeState, I2cEngine, I2cMessage};

/// Helper function to send a START condition
fn start(machine: &mut I2cEngine) {
    assert_eq!(machine.update_i2c(true, true), DecodeState::Idle);
    assert_eq!(machine.update_i2c(true, false), DecodeState::Pending);
}

/// Helper function to send one bit of data
fn feed_one_bit(machine: &mut I2cEngine, bit: bool) {
    assert_eq!(machine.update_i2c(false, bit), DecodeState::Pending);
    assert_eq!(machine.update_i2c(true, bit), DecodeState::Pending);
    assert_eq!(machine.update_i2c(false, bit), DecodeState::Pending);
}

/// Helper function to send 8 bits of data and an ACK
fn feed_one_byte(machine: &mut I2cEngine, byte: u8) {
    let mut byte = byte;

    // Data
    for _ in 0..8 {
        let state = 0x80 == (byte & 0x80);
        byte <<= 1;
        feed_one_bit(machine, state)
    }

    // Always Ack
    assert_eq!(machine.update_i2c(true, false), DecodeState::Pending);
    assert_eq!(machine.update_i2c(false, false), DecodeState::Pending);
}

/// Helper function to send a STOP condition
fn stop(machine: &mut I2cEngine) -> I2cMessage {
    assert_eq!(machine.update_i2c(false, false), DecodeState::Pending);
    assert_eq!(machine.update_i2c(true, false), DecodeState::Pending);
    match machine.update_i2c(true, true) {
        DecodeState::Complete(i) => i,
        _ => {
            panic!("Unexpected incomplete message!");
        }
    }
}

/// Test various sequences of bytes to be processed by the engine. Assert
///   that message is reassembled correctly
#[test]
fn lib_test_bytes() {
    let tests = vec![
        vec![],
        vec![0x00],
        vec![0x00, 0x00],
        vec![0xF0],
        vec![0x01, 0x02, 0x03, 0xA0, 0xB0, 0xC0],
    ];

    let mut x = I2cEngine::new();

    for t in tests {
        start(&mut x);
        for b in &t {
            feed_one_byte(&mut x, *b);
        }

        assert_eq!(stop(&mut x).get_payload(), t);
    }
}
