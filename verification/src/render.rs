//! Human-readable rendering of a transaction, and the proof that the format
//! is lossless.
//!
//! A transaction renders bracketed, each byte as two upper-case hexadecimal
//! digits followed by `+` when acknowledged and `-` when not; three bytes
//! `{01,Ack},{02,Nak},{03,Ack}` render as `[01+02-03+]`. A specification
//! parser maps such text back, and the round-trip proof shows the rendering
//! is bijective in content.

use vstd::prelude::*;

use crate::message::{I2cByte, I2cMessage, I2cStatus};

verus! {

/// The upper-case hexadecimal digit character of a value below sixteen.
pub open spec fn hex_char(d: u8) -> char
    recommends
        d < 16,
{
    if d == 0 {
        '0'
    } else if d == 1 {
        '1'
    } else if d == 2 {
        '2'
    } else if d == 3 {
        '3'
    } else if d == 4 {
        '4'
    } else if d == 5 {
        '5'
    } else if d == 6 {
        '6'
    } else if d == 7 {
        '7'
    } else if d == 8 {
        '8'
    } else if d == 9 {
        '9'
    } else if d == 10 {
        'A'
    } else if d == 11 {
        'B'
    } else if d == 12 {
        'C'
    } else if d == 13 {
        'D'
    } else if d == 14 {
        'E'
    } else {
        'F'
    }
}

/// The value of an upper-case hexadecimal digit character.
pub open spec fn hex_val(c: char) -> u8
    recommends
        is_hex_char(c),
{
    if c == '0' {
        0
    } else if c == '1' {
        1
    } else if c == '2' {
        2
    } else if c == '3' {
        3
    } else if c == '4' {
        4
    } else if c == '5' {
        5
    } else if c == '6' {
        6
    } else if c == '7' {
        7
    } else if c == '8' {
        8
    } else if c == '9' {
        9
    } else if c == 'A' {
        10
    } else if c == 'B' {
        11
    } else if c == 'C' {
        12
    } else if c == 'D' {
        13
    } else if c == 'E' {
        14
    } else {
        15
    }
}

/// Whether a character is an upper-case hexadecimal digit.
pub open spec fn is_hex_char(c: char) -> bool {
    ||| c == '0'
    ||| c == '1'
    ||| c == '2'
    ||| c == '3'
    ||| c == '4'
    ||| c == '5'
    ||| c == '6'
    ||| c == '7'
    ||| c == '8'
    ||| c == '9'
    ||| c == 'A'
    ||| c == 'B'
    ||| c == 'C'
    ||| c == 'D'
    ||| c == 'E'
    ||| c == 'F'
}

/// Whether a character marks an acknowledgement status.
pub open spec fn is_flag_char(c: char) -> bool {
    c == '+' || c == '-'
}

/// The three characters one byte renders to: two hexadecimal digits and the
/// acknowledgement mark.
pub open spec fn render_byte(b: I2cByte) -> Seq<char> {
    seq![
        hex_char(b.data / 16),
        hex_char(b.data % 16),
        if b.status is Ack {
            '+'
        } else {
            '-'
        },
    ]
}

/// The rendering of a byte sequence, in order, without the brackets.
pub open spec fn render_bytes(s: Seq<I2cByte>) -> Seq<char>
    decreases s.len(),
{
    if s.len() == 0 {
        Seq::empty()
    } else {
        render_byte(s[0]) + render_bytes(s.drop_first())
    }
}

/// The full rendering of a transaction: the byte renderings between
/// brackets.
pub open spec fn render_spec(s: Seq<I2cByte>) -> Seq<char> {
    seq!['['] + render_bytes(s) + seq![']']
}

/// The byte a three-character group stands for.
pub open spec fn parsed_byte(hi: char, lo: char, flag: char) -> I2cByte
    recommends
        is_hex_char(hi),
        is_hex_char(lo),
        is_flag_char(flag),
{
    I2cByte {
        data: (hex_val(hi) * 16 + hex_val(lo)) as u8,
        status: if flag == '+' {
            I2cStatus::Ack
        } else {
            I2cStatus::Nak
        },
    }
}

/// Specification parser for the bracketless body: consumes three-character
/// groups and yields the byte sequence they stand for, or nothing when the
/// text is not of that shape.
pub open spec fn parse_body(s: Seq<char>) -> Option<Seq<I2cByte>>
    decreases s.len(),
{
    if s.len() == 0 {
        Some(Seq::empty())
    } else if s.len() >= 3 && is_hex_char(s[0]) && is_hex_char(s[1]) && is_flag_char(s[2]) {
        match parse_body(s.skip(3)) {
            Some(rest) => Some(seq![parsed_byte(s[0], s[1], s[2])] + rest),
            None => None,
        }
    } else {
        None
    }
}

/// Specification parser for a full rendering: strips the brackets and
/// parses the body.
pub open spec fn parse_render(s: Seq<char>) -> Option<Seq<I2cByte>> {
    if s.len() >= 2 && s[0] == '[' && s[s.len() - 1] == ']' {
        parse_body(s.subrange(1, s.len() - 1))
    } else {
        None
    }
}

/// Rendering a digit and reading it back is the identity, and the digit
/// characters are hexadecimal digits.
proof fn lemma_hex_char_val(d: u8)
    requires
        d < 16,
    ensures
        is_hex_char(hex_char(d)),
        hex_val(hex_char(d)) == d,
{
}

/// Appending one byte to a sequence appends its three characters to the
/// rendering.
pub proof fn lemma_render_bytes_push(s: Seq<I2cByte>, b: I2cByte)
    ensures
        render_bytes(s.push(b)) == render_bytes(s) + render_byte(b),
    decreases s.len(),
{
    if s.len() == 0 {
        assert(s.push(b)[0] == b);
        assert(s.push(b).drop_first() =~= Seq::<I2cByte>::empty());
        assert(render_bytes(s.push(b)) == render_byte(b) + render_bytes(
            Seq::<I2cByte>::empty(),
        ));
        assert(render_bytes(Seq::<I2cByte>::empty()) == Seq::<char>::empty());
        assert(render_bytes(s) == Seq::<char>::empty());
        assert(render_byte(b) + Seq::<char>::empty() =~= Seq::<char>::empty() + render_byte(b));
    } else {
        let x = render_byte(s[0]);
        let y = render_bytes(s.drop_first());
        let z = render_byte(b);
        assert(s.push(b)[0] == s[0]);
        assert(s.push(b).drop_first() =~= s.drop_first().push(b));
        lemma_render_bytes_push(s.drop_first(), b);
        assert(render_bytes(s.push(b)) == x + (y + z));
        assert(x + (y + z) =~= (x + y) + z);
    }
}

/// The specification parser undoes the body rendering.
proof fn lemma_parse_body_render(s: Seq<I2cByte>)
    ensures
        parse_body(render_bytes(s)) == Some(s),
    decreases s.len(),
{
    if s.len() == 0 {
        assert(Seq::<I2cByte>::empty() =~= s);
    } else {
        let b = s[0];
        let r = render_bytes(s);
        lemma_hex_char_val(b.data / 16);
        lemma_hex_char_val(b.data % 16);
        assert(r[0] == hex_char(b.data / 16) && r[1] == hex_char(b.data % 16));
        assert(parsed_byte(r[0], r[1], r[2]) == b);
        assert(r.skip(3) =~= render_bytes(s.drop_first()));
        lemma_parse_body_render(s.drop_first());
        assert(seq![b] + s.drop_first() =~= s);
    }
}

/// The rendering of a transaction is re-parseable back to exactly the same
/// sequence of value and status pairs.
pub proof fn lemma_render_round_trip(s: Seq<I2cByte>)
    ensures
        parse_render(render_spec(s)) == Some(s),
{
    let r = render_spec(s);
    assert(r[0] == '[' && r[r.len() - 1] == ']');
    assert(r.subrange(1, r.len() - 1) =~= render_bytes(s));
    lemma_parse_body_render(s);
}

/// The rendering is injective: two transactions that render alike hold the
/// same bytes.
pub proof fn lemma_render_injective(a: Seq<I2cByte>, b: Seq<I2cByte>)
    requires
        render_spec(a) == render_spec(b),
    ensures
        a == b,
{
    lemma_render_round_trip(a);
    lemma_render_round_trip(b);
}

/// The upper-case hexadecimal digit of a value below sixteen, as text.
fn hex_str(d: u8) -> (r: &'static str)
    requires
        d < 16,
    ensures
        r@ == seq![hex_char(d)],
{
    let s: &'static str = match d {
        0 => "0",
        1 => "1",
        2 => "2",
        3 => "3",
        4 => "4",
        5 => "5",
        6 => "6",
        7 => "7",
        8 => "8",
        9 => "9",
        10 => "A",
        11 => "B",
        12 => "C",
        13 => "D",
        14 => "E",
        _ => "F",
    };
    proof {
        reveal_strlit("0");
        reveal_strlit("1");
        reveal_strlit("2");
        reveal_strlit("3");
        reveal_strlit("4");
        reveal_strlit("5");
        reveal_strlit("6");
        reveal_strlit("7");
        reveal_strlit("8");
        reveal_strlit("9");
        reveal_strlit("A");
        reveal_strlit("B");
        reveal_strlit("C");
        reveal_strlit("D");
        reveal_strlit("E");
        reveal_strlit("F");
        assert(s@ =~= seq![hex_char(d)]);
    }
    s
}

impl I2cMessage {
    /// Render the transaction for inspection: bracketed, two upper-case
    /// hexadecimal digits per byte, each followed by `+` when acknowledged
    /// and `-` when not.
    pub fn render(&self) -> (r: String)
        ensures
            r@ == render_spec(self.message@),
    {
        let mut out = String::new();
        out.append("[");
        proof {
            reveal_strlit("[");
            assert(out@ =~= seq!['['] + render_bytes(self.message@.take(0)));
        }
        let mut i: usize = 0;
        while i < self.message.len()
            invariant
                i <= self.message@.len(),
                out@ == seq!['['] + render_bytes(self.message@.take(i as int)),
            decreases self.message@.len() - i,
        {
            let b = self.message[i];
            out.append(hex_str(b.data / 16));
            out.append(hex_str(b.data % 16));
            match b.status {
                I2cStatus::Ack => out.append("+"),
                I2cStatus::Nak => out.append("-"),
            }
            proof {
                reveal_strlit("+");
                reveal_strlit("-");
                assert(self.message@.take(i + 1) =~= self.message@.take(i as int).push(b));
                lemma_render_bytes_push(self.message@.take(i as int), b);
                assert(out@ =~= seq!['['] + render_bytes(self.message@.take(i + 1)));
            }
            i = i + 1;
        }
        out.append("]");
        proof {
            reveal_strlit("]");
            assert(self.message@.take(self.message@.len() as int) =~= self.message@);
            assert(out@ =~= render_spec(self.message@));
        }
        out
    }
}

} // verus!
