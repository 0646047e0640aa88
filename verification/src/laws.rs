//! Laws of the decoder, proved over the specification model.
//!
//! A frame driven as a START, any train of bytes each followed by its
//! acknowledgement bit, and a STOP decodes to exactly those bytes; an idle
//! engine answers Idle for ever under repeated identical samples; and a
//! STOP never carries a partially captured byte out.

use vstd::prelude::*;

use crate::engine::{
    init_model, latched_byte, shift_in, spec_outcome, spec_step, start_fires, stop_fires,
    EngineModel, StepOutcome,
};
use crate::message::{I2cByte, I2cStatus};

verus! {

/// The engine state after consuming a sequence of samples, each a
/// `(clock, data)` pair, in order.
pub open spec fn run(m: EngineModel, s: Seq<(bool, bool)>) -> EngineModel
    decreases s.len(),
{
    if s.len() == 0 {
        m
    } else {
        run(spec_step(m, s[0].0, s[0].1), s.drop_first())
    }
}

/// The answer of each call while a sequence of samples is consumed.
pub open spec fn outcomes(m: EngineModel, s: Seq<(bool, bool)>) -> Seq<StepOutcome>
    decreases s.len(),
{
    if s.len() == 0 {
        Seq::empty()
    } else {
        seq![spec_outcome(m, s[0].0, s[0].1)] + outcomes(
            spec_step(m, s[0].0, s[0].1),
            s.drop_first(),
        )
    }
}

/// The answer of the last call of a non-empty sample sequence.
pub open spec fn last_outcome(m: EngineModel, s: Seq<(bool, bool)>) -> StepOutcome
    recommends
        s.len() > 0,
{
    spec_outcome(run(m, s.drop_last()), s.last().0, s.last().1)
}

/// Running a concatenation is running the parts in turn.
pub proof fn lemma_run_concat(m: EngineModel, s1: Seq<(bool, bool)>, s2: Seq<(bool, bool)>)
    ensures
        run(m, s1 + s2) == run(run(m, s1), s2),
    decreases s1.len(),
{
    if s1.len() == 0 {
        assert(s1 + s2 =~= s2);
    } else {
        assert((s1 + s2)[0] == s1[0]);
        assert((s1 + s2).drop_first() =~= s1.drop_first() + s2);
        lemma_run_concat(spec_step(m, s1[0].0, s1[0].1), s1.drop_first(), s2);
    }
}

/// Bit `i` of `v`, most significant first.
pub open spec fn spec_bit(v: u8, i: u8) -> bool
    recommends
        i < 8,
{
    (v << i) >> 7 == 1
}

/// The samples that put a START on the bus from the idle level: the clock
/// steady high, the data line pulled low.
pub open spec fn start_samples() -> Seq<(bool, bool)> {
    seq![(true, true), (true, false)]
}

/// The samples that clock one data bit through: data set while the clock is
/// low, a rising clock edge, the clock low again.
pub open spec fn bit_samples(bit: bool) -> Seq<(bool, bool)> {
    seq![(false, bit), (true, bit), (false, bit)]
}

/// The samples that clock one whole byte through, most significant bit
/// first, followed by the acknowledgement bit at level `ack_high`.
pub open spec fn byte_samples(v: u8, ack_high: bool) -> Seq<(bool, bool)> {
    bit_samples(spec_bit(v, 0)) + bit_samples(spec_bit(v, 1)) + bit_samples(spec_bit(v, 2))
        + bit_samples(spec_bit(v, 3)) + bit_samples(spec_bit(v, 4)) + bit_samples(spec_bit(v, 5))
        + bit_samples(spec_bit(v, 6)) + bit_samples(spec_bit(v, 7)) + seq![
        (true, ack_high),
        (false, ack_high),
    ]
}

/// The samples of every byte of a frame in order, each value paired with
/// the level its acknowledgement bit is sampled at.
pub open spec fn frame_body_samples(bytes: Seq<(u8, bool)>) -> Seq<(bool, bool)>
    decreases bytes.len(),
{
    if bytes.len() == 0 {
        Seq::empty()
    } else {
        byte_samples(bytes[0].0, bytes[0].1) + frame_body_samples(bytes.drop_first())
    }
}

/// The samples that put a STOP on the bus: data held low, a clock edge up,
/// then the data line released while the clock stays high.
pub open spec fn stop_samples() -> Seq<(bool, bool)> {
    seq![(false, false), (true, false), (true, true)]
}

/// A whole frame: START, the bytes, STOP.
pub open spec fn frame_samples(bytes: Seq<(u8, bool)>) -> Seq<(bool, bool)> {
    start_samples() + frame_body_samples(bytes) + stop_samples()
}

/// The decoded form of a frame: each value with the status its
/// acknowledgement level stands for.
pub open spec fn decoded_bytes(bytes: Seq<(u8, bool)>) -> Seq<I2cByte> {
    bytes.map_values(|p: (u8, bool)| latched_byte(p.0, p.1))
}

/// Clocking one bit through captures it and touches nothing else.
proof fn lemma_run_bit(m: EngineModel, bit: bool)
    requires
        m.active,
        m.bits < 8,
    ensures
        run(m, bit_samples(bit)) == (EngineModel {
            scl: false,
            sda: bit,
            partial: shift_in(m.partial, bit),
            bits: (m.bits + 1) as u8,
            active: true,
            bytes: m.bytes,
        }),
{
    let s = bit_samples(bit);
    let m1 = spec_step(m, false, bit);
    let m2 = spec_step(m1, true, bit);
    let m3 = spec_step(m2, false, bit);
    assert(s.drop_first() =~= seq![(true, bit), (false, bit)]);
    assert(s.drop_first().drop_first() =~= seq![(false, bit)]);
    assert(s.drop_first().drop_first().drop_first() =~= Seq::<(bool, bool)>::empty());
    assert(run(m, s) == run(m1, s.drop_first()));
    assert(run(m1, s.drop_first()) == run(m2, s.drop_first().drop_first()));
    assert(run(m2, s.drop_first().drop_first()) == run(m3, Seq::<(bool, bool)>::empty()));
    assert(m1 =~= EngineModel { scl: false, sda: bit, ..m });
    assert(m2 =~= EngineModel {
        scl: true,
        sda: bit,
        partial: shift_in(m.partial, bit),
        bits: (m.bits + 1) as u8,
        ..m
    });
    assert(m3 =~= EngineModel { scl: false, ..m2 });
}

/// Clocking one byte and its acknowledgement bit through latches exactly
/// that byte.
proof fn lemma_run_byte(m: EngineModel, v: u8, ack_high: bool)
    requires
        m.active,
        m.bits == 0,
        m.partial == 0,
    ensures
        run(m, byte_samples(v, ack_high)) == (EngineModel {
            scl: false,
            sda: ack_high,
            partial: 0,
            bits: 0,
            active: true,
            bytes: m.bytes.push(latched_byte(v, ack_high)),
        }),
{
    let t0 = bit_samples(spec_bit(v, 0));
    let t1 = bit_samples(spec_bit(v, 1));
    let t2 = bit_samples(spec_bit(v, 2));
    let t3 = bit_samples(spec_bit(v, 3));
    let t4 = bit_samples(spec_bit(v, 4));
    let t5 = bit_samples(spec_bit(v, 5));
    let t6 = bit_samples(spec_bit(v, 6));
    let t7 = bit_samples(spec_bit(v, 7));
    let ta = seq![(true, ack_high), (false, ack_high)];

    lemma_run_bit(m, spec_bit(v, 0));
    let m1 = run(m, t0);
    lemma_run_concat(m, t0, t1);
    lemma_run_bit(m1, spec_bit(v, 1));
    let m2 = run(m, t0 + t1);
    lemma_run_concat(m, t0 + t1, t2);
    lemma_run_bit(m2, spec_bit(v, 2));
    let m3 = run(m, t0 + t1 + t2);
    lemma_run_concat(m, t0 + t1 + t2, t3);
    lemma_run_bit(m3, spec_bit(v, 3));
    let m4 = run(m, t0 + t1 + t2 + t3);
    lemma_run_concat(m, t0 + t1 + t2 + t3, t4);
    lemma_run_bit(m4, spec_bit(v, 4));
    let m5 = run(m, t0 + t1 + t2 + t3 + t4);
    lemma_run_concat(m, t0 + t1 + t2 + t3 + t4, t5);
    lemma_run_bit(m5, spec_bit(v, 5));
    let m6 = run(m, t0 + t1 + t2 + t3 + t4 + t5);
    lemma_run_concat(m, t0 + t1 + t2 + t3 + t4 + t5, t6);
    lemma_run_bit(m6, spec_bit(v, 6));
    let m7 = run(m, t0 + t1 + t2 + t3 + t4 + t5 + t6);
    lemma_run_concat(m, t0 + t1 + t2 + t3 + t4 + t5 + t6, t7);
    lemma_run_bit(m7, spec_bit(v, 7));
    let m8 = run(m, t0 + t1 + t2 + t3 + t4 + t5 + t6 + t7);

    assert(m8.partial == shift_in(
        shift_in(
            shift_in(
                shift_in(
                    shift_in(
                        shift_in(shift_in(shift_in(0u8, spec_bit(v, 0)), spec_bit(v, 1)), spec_bit(v, 2)),
                        spec_bit(v, 3),
                    ),
                    spec_bit(v, 4),
                ),
                spec_bit(v, 5),
            ),
            spec_bit(v, 6),
        ),
        spec_bit(v, 7),
    ));
    assert(shift_in(
        shift_in(
            shift_in(
                shift_in(
                    shift_in(
                        shift_in(shift_in(shift_in(0u8, spec_bit(v, 0)), spec_bit(v, 1)), spec_bit(v, 2)),
                        spec_bit(v, 3),
                    ),
                    spec_bit(v, 4),
                ),
                spec_bit(v, 5),
            ),
            spec_bit(v, 6),
        ),
        spec_bit(v, 7),
    ) == v) by (bit_vector);
    assert(m8 =~= EngineModel {
        scl: false,
        sda: spec_bit(v, 7),
        partial: v,
        bits: 8,
        active: true,
        bytes: m.bytes,
    });

    lemma_run_concat(m, t0 + t1 + t2 + t3 + t4 + t5 + t6 + t7, ta);
    let n1 = spec_step(m8, true, ack_high);
    let n2 = spec_step(n1, false, ack_high);
    assert(ta.drop_first() =~= seq![(false, ack_high)]);
    assert(ta.drop_first().drop_first() =~= Seq::<(bool, bool)>::empty());
    assert(run(m8, ta) == run(n1, ta.drop_first()));
    assert(run(n1, ta.drop_first()) == run(n2, Seq::<(bool, bool)>::empty()));
    assert(n1 =~= EngineModel {
        scl: true,
        sda: ack_high,
        partial: 0,
        bits: 0,
        active: true,
        bytes: m.bytes.push(latched_byte(v, ack_high)),
    });
    assert(n2 =~= EngineModel { scl: false, ..n1 });
    assert(byte_samples(v, ack_high) == t0 + t1 + t2 + t3 + t4 + t5 + t6 + t7 + ta);
}

/// Clocking a train of bytes through latches exactly those bytes, in order.
#[verifier::rlimit(50)]
proof fn lemma_run_body(m: EngineModel, bytes: Seq<(u8, bool)>)
    requires
        m.active,
        m.bits == 0,
        m.partial == 0,
    ensures
        ({
            let r = run(m, frame_body_samples(bytes));
            &&& r.active
            &&& r.bits == 0
            &&& r.partial == 0
            &&& r.bytes == m.bytes + decoded_bytes(bytes)
            &&& bytes.len() == 0 ==> r == m
            &&& bytes.len() > 0 ==> r.scl == false && r.sda == bytes.last().1
        }),
    decreases bytes.len(),
{
    if bytes.len() == 0 {
        assert(m.bytes + decoded_bytes(bytes) =~= m.bytes);
    } else {
        let first = byte_samples(bytes[0].0, bytes[0].1);
        let rest = frame_body_samples(bytes.drop_first());
        lemma_run_byte(m, bytes[0].0, bytes[0].1);
        let m1 = run(m, first);
        lemma_run_concat(m, first, rest);
        lemma_run_body(m1, bytes.drop_first());
        let r = run(m1, rest);
        assert(m1.bytes + decoded_bytes(bytes.drop_first()) =~= m.bytes + decoded_bytes(bytes));
        if bytes.drop_first().len() == 0 {
            assert(r == m1);
            assert(bytes.last() == bytes[0]);
        } else {
            assert(bytes.last() == bytes.drop_first().last());
        }
    }
}

/// Decoding law: a frame driven as a START, then for each byte its eight
/// data bits most significant first and its acknowledgement level, then a
/// STOP, answers a completed transaction holding exactly those bytes with
/// exactly those statuses, and leaves the engine back in its initial state.
pub proof fn lemma_frame_decodes(bytes: Seq<(u8, bool)>)
    ensures
        frame_samples(bytes).len() > 0,
        last_outcome(init_model(), frame_samples(bytes)) == StepOutcome::Complete(
            decoded_bytes(bytes),
        ),
        run(init_model(), frame_samples(bytes)) == init_model(),
        decoded_bytes(bytes).len() == bytes.len(),
        forall|i: int|
            0 <= i < bytes.len() ==> decoded_bytes(bytes)[i] == latched_byte(
                bytes[i].0,
                bytes[i].1,
            ),
{
    let m0 = init_model();
    let s = frame_samples(bytes);
    let body = frame_body_samples(bytes);

    // START: the first sample repeats the idle level, the second pulls data
    // low under a steady high clock.
    let a1 = spec_step(m0, true, true);
    let ms = spec_step(a1, true, false);
    assert(start_samples().drop_first() =~= seq![(true, false)]);
    assert(start_samples().drop_first().drop_first() =~= Seq::<(bool, bool)>::empty());
    assert(run(m0, start_samples()) == run(a1, start_samples().drop_first()));
    assert(run(a1, start_samples().drop_first()) == run(ms, Seq::<(bool, bool)>::empty()));
    assert(a1 =~= m0);
    assert(ms =~= EngineModel {
        scl: true,
        sda: false,
        partial: 0,
        bits: 0,
        active: true,
        bytes: Seq::empty(),
    });

    // The byte train.
    lemma_run_concat(m0, start_samples(), body);
    lemma_run_body(ms, bytes);
    let mb = run(ms, body);
    assert(mb.bytes =~= decoded_bytes(bytes));
    assert(mb.sda == false || bytes.len() > 0);

    // STOP: one sample normalises both lines low, a rising clock edge
    // captures one stray bit, and the data release under the high clock
    // fires the STOP rule, which discards the stray bit.
    let n1 = spec_step(mb, false, false);
    let n2 = spec_step(n1, true, false);
    assert(n1 =~= EngineModel { scl: false, sda: false, ..mb });
    assert(n2 =~= EngineModel {
        scl: true,
        sda: false,
        partial: shift_in(0u8, false),
        bits: 1,
        ..mb
    });
    assert(stop_fires(n2, true, true));
    assert(spec_outcome(n2, true, true) == StepOutcome::Complete(n2.bytes));
    assert(n2.bytes == decoded_bytes(bytes));

    // Glue: the state before the last sample is `n2`.
    let prefix = start_samples() + body + seq![(false, false), (true, false)];
    assert(s.drop_last() =~= prefix);
    lemma_run_concat(m0, start_samples() + body, seq![(false, false), (true, false)]);
    let two = seq![(false, false), (true, false)];
    assert(two.drop_first() =~= seq![(true, false)]);
    assert(two.drop_first().drop_first() =~= Seq::<(bool, bool)>::empty());
    assert(run(mb, two) == run(n1, two.drop_first()));
    assert(run(n1, two.drop_first()) == run(n2, Seq::<(bool, bool)>::empty()));
    assert(run(m0, prefix) == n2);
    assert(s.last() == (true, true));
    assert(last_outcome(m0, s) == spec_outcome(n2, true, true));

    // The final state equals the initial one.
    lemma_run_concat(m0, prefix, seq![(true, true)]);
    assert(s =~= prefix + seq![(true, true)]);
    let one = seq![(true, true)];
    let nf = spec_step(n2, true, true);
    assert(one.drop_first() =~= Seq::<(bool, bool)>::empty());
    assert(run(n2, one) == run(nf, Seq::<(bool, bool)>::empty()));
    assert(nf =~= m0);
}

/// Acknowledged-frame law: when every acknowledgement bit is driven low,
/// the completed transaction carries exactly the driven values, in order,
/// every one with status Ack.
pub proof fn lemma_frame_decodes_acked(values: Seq<u8>)
    ensures
        ({
            let bytes = values.map_values(|v: u8| (v, false));
            let decoded = decoded_bytes(bytes);
            &&& last_outcome(init_model(), frame_samples(bytes)) == StepOutcome::Complete(decoded)
            &&& run(init_model(), frame_samples(bytes)) == init_model()
            &&& decoded.len() == values.len()
            &&& forall|i: int|
                0 <= i < values.len() ==> decoded[i] == (I2cByte {
                    data: values[i],
                    status: I2cStatus::Ack,
                })
        }),
{
    let bytes = values.map_values(|v: u8| (v, false));
    lemma_frame_decodes(bytes);
    assert forall|i: int| 0 <= i < values.len() implies decoded_bytes(bytes)[i] == (I2cByte {
        data: values[i],
        status: I2cStatus::Ack,
    }) by {
        assert(bytes[i] == (values[i], false));
    }
}

/// Not-acknowledged law: a byte of a frame whose acknowledgement bit is
/// sampled high comes out with status Nak, its value untouched.
pub proof fn lemma_frame_marks_nak(bytes: Seq<(u8, bool)>, i: int)
    requires
        0 <= i < bytes.len(),
        bytes[i].1,
    ensures
        ({
            let decoded = decoded_bytes(bytes);
            &&& last_outcome(init_model(), frame_samples(bytes)) == StepOutcome::Complete(decoded)
            &&& decoded[i] == (I2cByte { data: bytes[i].0, status: I2cStatus::Nak })
        }),
{
    lemma_frame_decodes(bytes);
}

/// The samples of one line pair repeated.
pub open spec fn repeated_samples(scl: bool, sda: bool, n: nat) -> Seq<(bool, bool)> {
    Seq::new(n, |i: int| (scl, sda))
}

/// Idle idempotence: an inactive engine fed the same sample over and over,
/// where that sample is no START condition, answers Idle every time and at
/// most takes over the line levels.
pub proof fn lemma_idle_repeated(m: EngineModel, scl: bool, sda: bool, n: nat)
    requires
        !m.active,
        !start_fires(m, scl, sda),
    ensures
        outcomes(m, repeated_samples(scl, sda, n)) == Seq::new(n, |i: int| StepOutcome::Idle),
        run(m, repeated_samples(scl, sda, n)) == if n == 0 {
            m
        } else {
            EngineModel { scl, sda, ..m }
        },
    decreases n,
{
    let s = repeated_samples(scl, sda, n);
    if n == 0 {
        assert(outcomes(m, s) =~= Seq::new(n, |i: int| StepOutcome::Idle));
    } else {
        let m1 = spec_step(m, scl, sda);
        assert(m1 =~= EngineModel { scl, sda, ..m });
        assert(spec_outcome(m, scl, sda) == StepOutcome::Idle);
        assert(!start_fires(m1, scl, sda));
        assert(s[0] == (scl, sda));
        assert(s.drop_first() =~= repeated_samples(scl, sda, (n - 1) as nat));
        lemma_idle_repeated(m1, scl, sda, (n - 1) as nat);
        assert(outcomes(m, s) =~= Seq::new(n, |i: int| StepOutcome::Idle));
        if n == 1 {
            assert(run(m, s) == m1);
        }
    }
}

/// A STOP discards a partially captured byte: whatever the accumulator
/// holds, the emitted transaction carries exactly the bytes already
/// latched, and the engine comes out idle and empty.
pub proof fn lemma_stop_discards_partial(
    m: EngineModel,
    partial: u8,
    bits: u8,
    scl: bool,
    sda: bool,
)
    requires
        stop_fires(m, scl, sda),
    ensures
        ({
            let with_acc = EngineModel { partial, bits, ..m };
            &&& stop_fires(with_acc, scl, sda)
            &&& spec_outcome(with_acc, scl, sda) == StepOutcome::Complete(m.bytes)
            &&& spec_step(with_acc, scl, sda) == (EngineModel {
                scl,
                sda,
                partial: 0,
                bits: 0,
                active: false,
                bytes: Seq::empty(),
            })
        }),
{
    let with_acc = EngineModel { partial, bits, ..m };
    assert(spec_step(with_acc, scl, sda) =~= EngineModel {
        scl,
        sda,
        partial: 0,
        bits: 0,
        active: false,
        bytes: Seq::empty(),
    });
}

} // verus!
