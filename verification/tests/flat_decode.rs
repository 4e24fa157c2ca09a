use uplc::flat::decoder::Decoder;
use uplc::flat::encoder::Encoder;
use uplc::flat::decode::decode;
use uplc::term::Term;

fn hex(s: &str) -> Vec<u8> {
    (0..s.len() / 2).map(|i| u8::from_str_radix(&s[2 * i..2 * i + 2], 16).unwrap()).collect()
}

#[test]
fn decode_program_big_constr_tag() {
    let bytes = hex("0101003370090011aab9d375498109d8668218809f0001ff0001");
    let program = decode(&bytes).expect("should decode");
    let term = program.eval().term.unwrap();
    assert_eq!(term, Term::integer_from(129));
}

#[test]
fn decode_program_bigint() {
    let bytes = hex("0101003370090011bad357426aae78dd526112d8799fc24c033b2e3c9fd0803ce7ffffffff0001");
    let program = decode(&bytes).expect("should decode");
    let term = program.eval().term.unwrap();
    assert_eq!(term, Term::integer_from(1_000_000_000_000_000_000_000_000_000i128));
}

#[test]
fn decode_program_list() {
    let bytes = hex("0101003370490021bad357426ae88dd62601049f070eff0001");
    let program = decode(&bytes).expect("should decode");
    let term = program.eval().term.unwrap();
    assert_eq!(term, Term::integer_from(28));
}

#[test]
fn decode_rejects_truncated_input() {
    let bytes = hex("0101003370");
    assert!(decode(&bytes).is_err());
    assert!(decode(&[]).is_err());
}

#[test]
fn word_reads_back_what_was_written() {
    use_word_roundtrip(0);
    use_word_roundtrip(127);
    use_word_roundtrip(128);
    use_word_roundtrip(300);
    use_word_roundtrip(1 << 35);
    use_word_roundtrip(usize::MAX);
}

fn use_word_roundtrip(c: usize) {
    let mut e = Encoder::new();
    e.word(c);
    e.filler();
    let mut d = Decoder::new(&e.buffer);
    assert_eq!(d.word(), Ok(c));
    assert_eq!(d.pos(), e.buffer.len() - 1);
    assert_eq!(d.used_bits(), 0);
}

#[test]
fn bit_reads_move_position() {
    let bytes = [0b1010_1010u8, 0xff, 0x00];
    let mut d = Decoder::new(&bytes);
    for k in 1..=20usize {
        assert!(d.bit().is_ok());
        assert_eq!(d.used_bits(), k % 8);
        assert_eq!(d.pos(), k / 8);
        assert_eq!(8 * d.pos() + d.used_bits(), k);
    }
}
