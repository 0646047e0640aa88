//! The transaction engine: a bit-accurate state machine that turns a stream
//! of sampled line levels into decoded transactions.
//!
//! Per sample, both lines are classified against the previous sample, the
//! stored levels are overwritten, and exactly one of five mutually exclusive
//! rules fires: STOP, START, data-bit capture, byte latch, or no-op. The
//! whole transition is mirrored by the specification function [`spec_step`],
//! and the per-sample answer by [`spec_outcome`].

use vstd::prelude::*;

use crate::edge::{classify, edge_of, LineEdge};
use crate::message::{I2cByte, I2cMessage, I2cStatus};

verus! {

/// Mathematical model of the engine state: the stored line levels, the
/// partial byte accumulator, and the bytes completed so far.
#[verifier::ext_equal]
pub struct EngineModel {
    /// Clock level of the previous sample.
    pub scl: bool,
    /// Data level of the previous sample.
    pub sda: bool,
    /// Bits captured so far of the byte in flight, most significant first.
    pub partial: u8,
    /// How many bits of the byte in flight have been captured.
    pub bits: u8,
    /// Whether a START has been seen without a STOP since.
    pub active: bool,
    /// Bytes completed since the last START.
    pub bytes: Seq<I2cByte>,
}

/// The state a fresh engine holds: idle-bus line levels, empty accumulator.
pub open spec fn init_model() -> EngineModel {
    EngineModel {
        scl: true,
        sda: true,
        partial: 0,
        bits: 0,
        active: false,
        bytes: Seq::empty(),
    }
}

/// Engine state invariant: the bit count never passes a full byte, and
/// completed bytes exist only while a transaction is active.
pub open spec fn wf(m: EngineModel) -> bool {
    &&& m.bits <= 8
    &&& !m.active ==> m.bytes.len() == 0
}

/// STOP rule: data rises while the clock is steady high, during a
/// transaction.
pub open spec fn stop_fires(pre: EngineModel, scl: bool, sda: bool) -> bool {
    &&& edge_of(pre.scl, scl) is Steady
    &&& edge_of(pre.sda, sda) is Rising
    &&& pre.active
    &&& scl
}

/// START rule: data falls while the clock is steady high, outside a
/// transaction.
pub open spec fn start_fires(pre: EngineModel, scl: bool, sda: bool) -> bool {
    &&& edge_of(pre.scl, scl) is Steady
    &&& edge_of(pre.sda, sda) is Falling
    &&& !pre.active
    &&& scl
}

/// Data-bit capture rule: clock rising edge during a transaction, with
/// fewer than eight bits captured.
pub open spec fn capture_fires(pre: EngineModel, scl: bool, sda: bool) -> bool {
    &&& edge_of(pre.scl, scl) is Rising
    &&& pre.active
    &&& pre.bits <= 7
}

/// Byte latch rule: clock rising edge during a transaction with all eight
/// data bits already captured; the new data level is the acknowledgement.
pub open spec fn latch_fires(pre: EngineModel, scl: bool, sda: bool) -> bool {
    &&& edge_of(pre.scl, scl) is Rising
    &&& pre.active
    &&& pre.bits > 7
}

/// The accumulator after one captured bit: shifted left, the new bit in the
/// lowest position.
pub open spec fn shift_in(partial: u8, bit: bool) -> u8 {
    (partial << 1) | (if bit {
        1u8
    } else {
        0u8
    })
}

/// The byte latched when the acknowledgement bit is observed at level `sda`.
pub open spec fn latched_byte(value: u8, sda: bool) -> I2cByte {
    I2cByte {
        data: value,
        status: if sda {
            I2cStatus::Nak
        } else {
            I2cStatus::Ack
        },
    }
}

/// One transition of the engine: the stored levels are overwritten with the
/// new sample, then the first rule whose guard holds is applied.
pub open spec fn spec_step(pre: EngineModel, scl: bool, sda: bool) -> EngineModel {
    if stop_fires(pre, scl, sda) {
        EngineModel {
            scl,
            sda,
            partial: 0,
            bits: 0,
            active: false,
            bytes: Seq::empty(),
        }
    } else if start_fires(pre, scl, sda) {
        EngineModel { scl, sda, active: true, ..pre }
    } else if capture_fires(pre, scl, sda) {
        EngineModel {
            scl,
            sda,
            partial: shift_in(pre.partial, sda),
            bits: (pre.bits + 1) as u8,
            ..pre
        }
    } else if latch_fires(pre, scl, sda) {
        EngineModel {
            scl,
            sda,
            partial: 0,
            bits: 0,
            bytes: pre.bytes.push(latched_byte(pre.partial, sda)),
            ..pre
        }
    } else {
        EngineModel { scl, sda, ..pre }
    }
}

/// What one call answers: the completed bytes when the STOP rule fires,
/// otherwise whether a transaction is in progress afterwards.
pub enum StepOutcome {
    Idle,
    Pending,
    Complete(Seq<I2cByte>),
}

/// The answer of one transition from state `pre` on the new sample.
pub open spec fn spec_outcome(pre: EngineModel, scl: bool, sda: bool) -> StepOutcome {
    if stop_fires(pre, scl, sda) {
        StepOutcome::Complete(pre.bytes)
    } else if spec_step(pre, scl, sda).active {
        StepOutcome::Pending
    } else {
        StepOutcome::Idle
    }
}

/// How an executable answer realises a specified outcome: completed bytes
/// are compared through the view of the carried transaction.
pub open spec fn decode_matches(r: DecodeState, o: StepOutcome) -> bool {
    match o {
        StepOutcome::Idle => r == DecodeState::Idle,
        StepOutcome::Pending => r == DecodeState::Pending,
        StepOutcome::Complete(bytes) => r matches DecodeState::Complete(m) && m.message@ == bytes,
    }
}

/// Every transition preserves the engine state invariant.
pub proof fn lemma_step_preserves_wf(pre: EngineModel, scl: bool, sda: bool)
    requires
        wf(pre),
    ensures
        wf(spec_step(pre, scl, sda)),
{
}

/// Answer of one engine call.
///
/// * `Idle`: no transaction in progress.
/// * `Pending`: a START has been seen and the transaction is still open.
/// * `Complete`: a STOP was just seen; carries the decoded transaction.
#[derive(Debug, PartialEq)]
pub enum DecodeState {
    Idle,
    Pending,
    Complete(I2cMessage),
}

/// The streaming decoder; owns all its state and is driven one sample at a
/// time by exactly one caller.
#[derive(Debug)]
pub struct I2cEngine {
    old_scl: bool,
    old_sda: bool,
    partial_data: u8,
    current_bit: u8,
    active: bool,
    bytes: Vec<I2cByte>,
}

impl View for I2cEngine {
    type V = EngineModel;

    closed spec fn view(&self) -> EngineModel {
        EngineModel {
            scl: self.old_scl,
            sda: self.old_sda,
            partial: self.partial_data,
            bits: self.current_bit,
            active: self.active,
            bytes: self.bytes@,
        }
    }
}

impl I2cEngine {
    /// A fresh engine: idle and empty, line levels at the idle-bus level.
    pub fn new() -> (r: I2cEngine)
        ensures
            r@ == init_model(),
    {
        let r = I2cEngine {
            old_scl: true,
            old_sda: true,
            partial_data: 0u8,
            current_bit: 0u8,
            active: false,
            bytes: Vec::new(),
        };
        proof {
            assert(r@ =~= init_model());
        }
        r
    }

    /// Process one sample of the clock and data lines.
    ///
    /// The state moves exactly as [`spec_step`] says, and the answer is
    /// exactly what [`spec_outcome`] says: the decoded transaction when a
    /// STOP condition was just observed, otherwise whether one is open.
    pub fn update_i2c(&mut self, new_scl: bool, new_sda: bool) -> (r: DecodeState)
        ensures
            final(self)@ == spec_step(old(self)@, new_scl, new_sda),
            decode_matches(r, spec_outcome(old(self)@, new_scl, new_sda)),
    {
        let scl_edge = classify(self.old_scl, new_scl);
        let sda_edge = classify(self.old_sda, new_sda);

        // Save the levels for the next call: edges are always relative to
        // the immediately preceding sample.
        self.old_scl = new_scl;
        self.old_sda = new_sda;

        match (scl_edge, sda_edge, self.active, new_scl, self.current_bit) {
            (LineEdge::Steady, LineEdge::Rising, true, true, _) => {
                // STOP: emit the completed bytes; a partially captured byte
                // is discarded with the rest of the accumulator.
                let mut taken: Vec<I2cByte> = Vec::new();
                core::mem::swap(&mut taken, &mut self.bytes);
                self.partial_data = 0;
                self.current_bit = 0;
                self.active = false;
                proof {
                    assert(self@ =~= spec_step(old(self)@, new_scl, new_sda));
                }
                return DecodeState::Complete(I2cMessage { message: taken });
            },
            (LineEdge::Steady, LineEdge::Falling, false, true, _) => {
                // START: open a transaction; the accumulator is untouched.
                self.active = true;
            },
            (LineEdge::Rising, _, true, _, 0..=7) => {
                // Capture one data bit, most significant first.
                self.partial_data = (self.partial_data << 1) | (if new_sda {
                    1
                } else {
                    0
                });
                self.current_bit = self.current_bit + 1;
            },
            (LineEdge::Rising, _, true, _, _) => {
                // Eight bits are in: the new data level is the
                // acknowledgement; latch the byte.
                self.bytes.push(
                    I2cByte {
                        data: self.partial_data,
                        status: if new_sda {
                            I2cStatus::Nak
                        } else {
                            I2cStatus::Ack
                        },
                    },
                );
                self.partial_data = 0;
                self.current_bit = 0;
            },
            _ => {},
        }

        proof {
            assert(self@ =~= spec_step(old(self)@, new_scl, new_sda));
        }
        if self.active {
            DecodeState::Pending
        } else {
            DecodeState::Idle
        }
    }
}

} // verus!
