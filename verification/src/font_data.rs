//! Extraction of packed font data from its upstream source form: a sequence
//! of C string literals holding octal-escaped bytes. The decoder concatenates
//! the quoted pieces, resolves the escapes, appends the hidden terminating
//! zero byte, and re-emits every byte in Rust byte-string escape form.

use vstd::prelude::*;

verus! {

/// Why extracting font data failed.
#[derive(Debug, Clone, Copy, PartialEq, Eq, Structural)]
pub enum FontDataError {
    /// The input ended before the closing semicolon.
    UnexpectedEndOfFile,
    /// A byte that the format does not allow in the current state.
    UnexpectedCharacter,
}

/// The decoder states: between string literals, inside one, and one to three
/// octal digits into an escape sequence.
#[derive(Debug, Clone, Copy, PartialEq, Eq, Structural)]
pub enum DecodeState {
    /// Between string literals; whitespace is skipped here.
    Padding,
    /// Inside a string literal.
    Data,
    /// Right after a backslash.
    Number,
    /// After one octal digit, whose value is carried.
    Number2(u8),
    /// After two octal digits, whose value is carried.
    Number3(u8),
}

/// What decoding ends in: the decoded bytes, or the exact error.
pub enum DecodeOutcome {
    /// The decoded bytes, without the terminating zero.
    Decoded(Seq<u8>),
    /// The decode failed.
    Failed(FontDataError),
}

/// Whether `c` is whitespace between string literals.
pub open spec fn is_padding_byte(c: u8) -> bool {
    c == 32 || c == 10 || c == 13 || c == 9
}

/// Whether `c` is an octal digit.
pub open spec fn is_octal(c: u8) -> bool {
    48 <= c < 56
}

/// How many input bytes the current state has consumed towards a production
/// that has not happened yet; it bounds the produced bytes by the consumed
/// ones.
pub open spec fn state_cost(st: DecodeState) -> int {
    match st {
        DecodeState::Number => 1,
        DecodeState::Number2(_) => 2,
        DecodeState::Number3(_) => 2,
        _ => 0,
    }
}

/// A measure that makes every decode transition decrease: non-consuming
/// transitions step from a digit state to the data state.
pub open spec fn state_rank(st: DecodeState) -> int {
    match st {
        DecodeState::Number2(_) => 1,
        DecodeState::Number3(_) => 1,
        _ => 0,
    }
}

/// The bytes that decoding `data` in state `st` produces, or the error it
/// fails with. A semicolon between literals ends the input; an exhausted
/// input or a byte foreign to the format fails.
pub open spec fn spec_decode(data: Seq<u8>, st: DecodeState) -> DecodeOutcome
    decreases data.len(), state_rank(st),
{
    if data.len() == 0 {
        DecodeOutcome::Failed(FontDataError::UnexpectedEndOfFile)
    } else {
        let c = data[0];
        let rest = data.skip(1);
        match st {
            DecodeState::Padding => {
                if is_padding_byte(c) {
                    spec_decode(rest, DecodeState::Padding)
                } else if c == 34 {
                    spec_decode(rest, DecodeState::Data)
                } else if c == 59 {
                    DecodeOutcome::Decoded(Seq::empty())
                } else {
                    DecodeOutcome::Failed(FontDataError::UnexpectedCharacter)
                }
            },
            DecodeState::Data => {
                if c == 34 {
                    spec_decode(rest, DecodeState::Padding)
                } else if c == 92 {
                    spec_decode(rest, DecodeState::Number)
                } else {
                    match spec_decode(rest, DecodeState::Data) {
                        DecodeOutcome::Decoded(d) => DecodeOutcome::Decoded(seq![c] + d),
                        e => e,
                    }
                }
            },
            DecodeState::Number => {
                if is_octal(c) {
                    spec_decode(rest, DecodeState::Number2((c - 48) as u8))
                } else {
                    DecodeOutcome::Failed(FontDataError::UnexpectedCharacter)
                }
            },
            DecodeState::Number2(v) => {
                if is_octal(c) {
                    spec_decode(rest, DecodeState::Number3(((8 * v + (c - 48)) % 256) as u8))
                } else {
                    match spec_decode(data, DecodeState::Data) {
                        DecodeOutcome::Decoded(d) => DecodeOutcome::Decoded(seq![v] + d),
                        e => e,
                    }
                }
            },
            DecodeState::Number3(v) => {
                if is_octal(c) {
                    match spec_decode(rest, DecodeState::Data) {
                        DecodeOutcome::Decoded(d) => DecodeOutcome::Decoded(
                            seq![((8 * v + (c - 48)) % 256) as u8] + d,
                        ),
                        e => e,
                    }
                } else {
                    match spec_decode(data, DecodeState::Data) {
                        DecodeOutcome::Decoded(d) => DecodeOutcome::Decoded(seq![v] + d),
                        e => e,
                    }
                }
            },
        }
    }
}

/// The lowercase hexadecimal digit of a value below 16.
pub open spec fn hex_digit(n: u8) -> u8 {
    if n < 10 {
        (48 + n) as u8
    } else {
        (87 + n) as u8
    }
}

/// The Rust byte-string escape form of one byte: common control characters
/// by letter, printable characters verbatim, everything else in hexadecimal.
pub open spec fn escape_byte(c: u8) -> Seq<u8> {
    if c == 0 {
        seq![92u8, 48u8]
    } else if c == 10 {
        seq![92u8, 110u8]
    } else if c == 13 {
        seq![92u8, 114u8]
    } else if c == 9 {
        seq![92u8, 116u8]
    } else if c == 34 {
        seq![92u8, 34u8]
    } else if c == 92 {
        seq![92u8, 92u8]
    } else if 32 <= c <= 126 {
        seq![c]
    } else {
        seq![92u8, 120u8, hex_digit(c / 16), hex_digit((c % 16) as u8)]
    }
}

/// The escape form of a whole byte sequence.
pub open spec fn escape_seq(s: Seq<u8>) -> Seq<u8>
    decreases s.len(),
{
    if s.len() == 0 {
        Seq::empty()
    } else {
        escape_byte(s[0]) + escape_seq(s.skip(1))
    }
}

/// Escaping distributes over appending one byte at the end.
pub proof fn lemma_escape_seq_snoc(s: Seq<u8>, c: u8)
    ensures
        escape_seq(s.push(c)) =~= escape_seq(s) + escape_byte(c),
    decreases s.len(),
{
    if s.len() == 0 {
        assert(s.push(c)[0] == c);
        assert(s.push(c).skip(1) =~= Seq::<u8>::empty());
        assert(escape_seq(Seq::<u8>::empty()) =~= Seq::<u8>::empty());
        assert(escape_seq(s) =~= Seq::<u8>::empty());
        assert(escape_seq(s.push(c)) =~= escape_byte(c) + Seq::<u8>::empty());
        assert(escape_byte(c) + Seq::<u8>::empty() =~= escape_byte(c));
        assert(escape_seq(s) + escape_byte(c) =~= escape_byte(c));
    } else {
        assert(s.push(c).skip(1) =~= s.skip(1).push(c));
        lemma_escape_seq_snoc(s.skip(1), c);
        assert(escape_seq(s.push(c)) =~= escape_byte(s[0]) + (escape_seq(s.skip(1)) + escape_byte(
            c,
        )));
        assert(escape_byte(s[0]) + (escape_seq(s.skip(1)) + escape_byte(c)) =~= (escape_byte(s[0])
            + escape_seq(s.skip(1))) + escape_byte(c));
    }
}

/// Writes one byte in Rust byte-string escape form.
pub fn write_byte(out: &mut Vec<u8>, c: u8)
    ensures
        final(out)@ == old(out)@ + escape_byte(c),
{
    if c == 0 {
        out.push(92);
        out.push(48);
    } else if c == 10 {
        out.push(92);
        out.push(110);
    } else if c == 13 {
        out.push(92);
        out.push(114);
    } else if c == 9 {
        out.push(92);
        out.push(116);
    } else if c == 34 {
        out.push(92);
        out.push(34);
    } else if c == 92 {
        out.push(92);
        out.push(92);
    } else if 32 <= c && c <= 126 {
        out.push(c);
    } else {
        out.push(92);
        out.push(120);
        let hi = c / 16;
        let lo = c % 16;
        out.push(
            if hi < 10 {
                48 + hi
            } else {
                87 + hi
            },
        );
        out.push(
            if lo < 10 {
                48 + lo
            } else {
                87 + lo
            },
        );
    }
    proof {
        assert(final(out)@ =~= old(out)@ + escape_byte(c));
    }
}

/// Decodes one font's worth of octal-escaped string literals from `data` and
/// appends every decoded byte, plus the terminating zero that C strings
/// carry implicitly, to `out` in escape form. Returns how many bytes were
/// produced, the terminator included.
pub fn consume_font_data(data: &[u8], out: &mut Vec<u8>) -> (r: Result<usize, FontDataError>)
    ensures
        match r {
            Ok(n) => spec_decode(data@, DecodeState::Padding)
                matches DecodeOutcome::Decoded(d) && final(out)@ == old(out)@ + escape_seq(
                d.push(0),
            ) && n == d.len() + 1 && d.len() < usize::MAX,
            Err(e) => spec_decode(data@, DecodeState::Padding) == DecodeOutcome::Failed(e),
        },
{
    let ghost full = data@;
    let mut state = DecodeState::Padding;
    let mut i: usize = 0;
    let mut num_produced: usize = 0;
    let ghost mut produced: Seq<u8> = Seq::empty();
    let ghost out0 = out@;

    proof {
        assert(full.skip(0) =~= full);
        assert(escape_seq(Seq::<u8>::empty()) =~= Seq::<u8>::empty());
        assert(out@ =~= out0 + escape_seq(produced));
    }

    loop
        invariant
            i <= full.len(),
            full == data@,
            out0 == old(out)@,
            num_produced == produced.len(),
            num_produced + state_cost(state) <= i,
            out@ == out0 + escape_seq(produced),
            match state {
                DecodeState::Number2(v) => v <= 7,
                DecodeState::Number3(v) => v <= 63,
                _ => true,
            },
            match spec_decode(full.skip(i as int), state) {
                DecodeOutcome::Decoded(d) => spec_decode(full, DecodeState::Padding)
                    == DecodeOutcome::Decoded(produced + d),
                DecodeOutcome::Failed(e) => spec_decode(full, DecodeState::Padding)
                    == DecodeOutcome::Failed(e),
            },
        decreases full.len() - i, state_rank(state),
    {
        let ghost rem = full.skip(i as int);
        if i >= data.len() {
            return Err(FontDataError::UnexpectedEndOfFile);
        }
        let c = data[i];
        proof {
            assert(rem[0] == c);
            assert(rem.skip(1) =~= full.skip(i + 1));
        }

        match state {
            DecodeState::Padding => {
                if c == 32 || c == 10 || c == 13 || c == 9 {
                    i = i + 1;
                } else if c == 34 {
                    state = DecodeState::Data;
                    i = i + 1;
                } else if c == 59 {
                    // the final zero byte of the C string
                    proof {
                        assert(produced + Seq::<u8>::empty() =~= produced);
                    }
                    write_byte(out, 0);
                    proof {
                        lemma_escape_seq_snoc(produced, 0);
                        assert(out@ =~= out0 + escape_seq(produced.push(0)));
                    }
                    return Ok(num_produced + 1);
                } else {
                    return Err(FontDataError::UnexpectedCharacter);
                }
            },
            DecodeState::Data => {
                if c == 34 {
                    state = DecodeState::Padding;
                    i = i + 1;
                } else if c == 92 {
                    state = DecodeState::Number;
                    i = i + 1;
                } else {
                    proof {
                        lemma_escape_seq_snoc(produced, c);
                        match spec_decode(full.skip(i + 1), DecodeState::Data) {
                            DecodeOutcome::Decoded(d) => {
                                assert(produced + (seq![c] + d) =~= produced.push(c) + d);
                            },
                            DecodeOutcome::Failed(_) => {},
                        }
                        produced = produced.push(c);
                    }
                    write_byte(out, c);
                    proof {
                        assert(out@ =~= out0 + escape_seq(produced));
                    }
                    num_produced = num_produced + 1;
                    i = i + 1;
                }
            },
            DecodeState::Number => {
                if 48 <= c && c < 56 {
                    state = DecodeState::Number2(c - 48);
                    i = i + 1;
                } else {
                    return Err(FontDataError::UnexpectedCharacter);
                }
            },
            DecodeState::Number2(v) => {
                if 48 <= c && c < 56 {
                    state = DecodeState::Number3(8 * v + (c - 48));
                    i = i + 1;
                } else {
                    proof {
                        lemma_escape_seq_snoc(produced, v);
                        match spec_decode(full.skip(i as int), DecodeState::Data) {
                            DecodeOutcome::Decoded(d) => {
                                assert(produced + (seq![v] + d) =~= produced.push(v) + d);
                            },
                            DecodeOutcome::Failed(_) => {},
                        }
                        produced = produced.push(v);
                    }
                    write_byte(out, v);
                    proof {
                        assert(out@ =~= out0 + escape_seq(produced));
                    }
                    num_produced = num_produced + 1;
                    state = DecodeState::Data;
                }
            },
            DecodeState::Number3(v) => {
                if 48 <= c && c < 56 {
                    let wide: u16 = 8 * (v as u16) + ((c - 48) as u16);
                    let b = (wide % 256) as u8;
                    proof {
                        assert(b == ((8 * v + (c - 48)) % 256) as u8);
                    }
                    proof {
                        lemma_escape_seq_snoc(produced, b);
                        match spec_decode(full.skip(i + 1), DecodeState::Data) {
                            DecodeOutcome::Decoded(d) => {
                                assert(produced + (seq![b] + d) =~= produced.push(b) + d);
                            },
                            DecodeOutcome::Failed(_) => {},
                        }
                        produced = produced.push(b);
                    }
                    write_byte(out, b);
                    proof {
                        assert(out@ =~= out0 + escape_seq(produced));
                    }
                    num_produced = num_produced + 1;
                    state = DecodeState::Data;
                    i = i + 1;
                } else {
                    proof {
                        lemma_escape_seq_snoc(produced, v);
                        match spec_decode(full.skip(i as int), DecodeState::Data) {
                            DecodeOutcome::Decoded(d) => {
                                assert(produced + (seq![v] + d) =~= produced.push(v) + d);
                            },
                            DecodeOutcome::Failed(_) => {},
                        }
                        produced = produced.push(v);
                    }
                    write_byte(out, v);
                    proof {
                        assert(out@ =~= out0 + escape_seq(produced));
                    }
                    num_produced = num_produced + 1;
                    state = DecodeState::Data;
                }
            },
        }
    }
}

} // verus!
