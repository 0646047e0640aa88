//! Decoded data: bytes with their acknowledgement status, and the
//! transaction that collects them in bus transmission order.

use vstd::prelude::*;

verus! {

/// Acknowledgement bit observed after eight data bits: low on the bus means
/// acknowledged, high means not acknowledged.
#[derive(Debug, PartialEq, Eq, Clone, Copy)]
pub enum I2cStatus {
    Ack,
    Nak,
}

/// A single decoded byte together with its acknowledgement status.
#[derive(Debug, PartialEq, Eq, Clone, Copy)]
pub struct I2cByte {
    pub data: u8,
    pub status: I2cStatus,
}

/// A complete transaction: the bytes observed between a START and the
/// following STOP, in transmission order.
#[derive(Debug, PartialEq)]
pub struct I2cMessage {
    pub message: Vec<I2cByte>,
}

impl I2cMessage {
    /// The payload alone: every byte value in order, acknowledgement
    /// status discarded.
    pub fn get_payload(&self) -> (r: Vec<u8>)
        ensures
            r@ == self.message@.map_values(|b: I2cByte| b.data),
    {
        let mut out: Vec<u8> = Vec::new();
        let mut i: usize = 0;
        while i < self.message.len()
            invariant
                i <= self.message@.len(),
                out@ == self.message@.take(i as int).map_values(|b: I2cByte| b.data),
            decreases self.message@.len() - i,
        {
            out.push(self.message[i].data);
            proof {
                assert(self.message@.take(i + 1) =~= self.message@.take(i as int).push(
                    self.message@[i as int],
                ));
                assert(self.message@.take(i + 1).map_values(|b: I2cByte| b.data) =~= self.message@
                    .take(i as int).map_values(|b: I2cByte| b.data).push(
                    self.message@[i as int].data,
                ));
            }
            i = i + 1;
        }
        proof {
            assert(self.message@.take(self.message@.len() as int) =~= self.message@);
        }
        out
    }
}

} // verus!
