use i2c_parser::{DecodeState, I2cEngine, I2cMessage};

fn start(machine: &mut I2cEngine) {
    assert_eq!(machine.update_i2c(true, true), DecodeState::Idle);
    assert_eq!(machine.update_i2c(true, false), DecodeState::Pending);
}

fn feed_one_bit(machine: &mut I2cEngine, bit: bool) {
    assert_eq!(machine.update_i2c(false, bit), DecodeState::Pending);
    assert_eq!(machine.update_i2c(true, bit), DecodeState::Pending);
    assert_eq!(machine.update_i2c(false, bit), DecodeState::Pending);
}

fn feed_one_byte(machine: &mut I2cEngine, byte: u8) {
    let mut byte = byte;

    // Data
    for _ in 0..8 {
        let state = if 0x80 == byte & 0x80 { true } else { false };
        byte <<= 1;
        feed_one_bit(machine, state)
    }

    // Ack/nak
    assert_eq!(machine.update_i2c(true, false), DecodeState::Pending);
    assert_eq!(machine.update_i2c(false, false), DecodeState::Pending);
}

fn stop(machine: &mut I2cEngine) -> I2cMessage {
    assert_eq!(machine.update_i2c(false, false), DecodeState::Pending);
    assert_eq!(machine.update_i2c(true, false), DecodeState::Pending);
    match machine.update_i2c(true, true) {
        DecodeState::Complete(i) => i,
        _ => {
            panic!(":(");
        }
    }
}

#[test]
fn main_test_bytes() {
    let tests = vec![
        vec![],
        vec![0x00u8],
        vec![0x00u8, 0x00u8],
        vec![0xF0u8],
        vec![0x01u8, 0x02u8, 0x03u8, 0xA0u8, 0xB0u8, 0xC0u8],
    ];

    let mut x = I2cEngine::new();

    for t in tests {
        start(&mut x);
        for b in &t {
            feed_one_byte(&mut x, *b);
        }

        let bv = stop(&mut x);
        let mut out: Vec<u8> = Vec::new();
        for b in bv.message {
            out.push(b.data);
        }
        assert_eq!(out, t);
    }
}
