use uplc::binder::DeBruijn;
use uplc::flat::decode::decode;
use uplc::flat::encode::encode;
use uplc::program::{Program, Version};
use uplc::term::Term;

fn roundtrip(version: Version, term: Term) -> Program {
    let program = Program::new(version, term);
    let encoded = encode(&program).expect("Failed to encode");
    let decoded = decode(&encoded).expect("Failed to decode");
    assert_eq!(program.term, decoded.term, "Round-trip mismatch");
    assert_eq!(program.version.0, decoded.version.0);
    decoded
}

fn roundtrip_eval(version: Version, term: Term) {
    let decoded = roundtrip(version, term);
    let result = decoded.eval();
    assert!(result.term.is_ok(), "Failed to evaluate: {:?}", result.term);
}

fn v100() -> Version {
    Version::new(1, 0, 0)
}

fn v110() -> Version {
    Version::new(1, 1, 0)
}

fn var(i: usize) -> Term {
    Term::var(DeBruijn::new(i))
}

fn lam(body: Term) -> Term {
    body.lambda(DeBruijn::zero())
}

fn hex(s: &str) -> Vec<u8> {
    (0..s.len() / 2).map(|i| u8::from_str_radix(&s[2 * i..2 * i + 2], 16).unwrap()).collect()
}

#[test]
fn flat_roundtrip_integer() {
    roundtrip(v100(), Term::integer_from(42));
}

#[test]
fn flat_roundtrip_negative_integer() {
    roundtrip(v100(), Term::integer_from(-123456789));
}

#[test]
fn flat_roundtrip_big_integer() {
    roundtrip(v100(), Term::integer_from(999999999999999999999999999999));
}

#[test]
fn flat_roundtrip_bool_true() {
    roundtrip(v100(), Term::bool(true));
}

#[test]
fn flat_roundtrip_bool_false() {
    roundtrip(v100(), Term::bool(false));
}

#[test]
fn flat_roundtrip_unit() {
    roundtrip(v100(), Term::unit());
}

#[test]
fn flat_roundtrip_bytestring_empty() {
    roundtrip(v100(), Term::byte_string(vec![]));
}

#[test]
fn flat_roundtrip_bytestring() {
    roundtrip(v100(), Term::byte_string(hex("deadbeef")));
}

#[test]
fn flat_roundtrip_bytestring_long() {
    let bytes = hex("deadbeefcafebabe0102030405060708090a0b0c0d0e0f101112131415161718191a1b1c1d1e1f202122232425262728292a2b2c2d2e2f303132333435363738393a3b3c3d3e3f");
    roundtrip(v100(), Term::byte_string(bytes));
}

#[test]
fn flat_roundtrip_string_empty() {
    roundtrip(v100(), Term::string(String::new()));
}

#[test]
fn flat_roundtrip_string() {
    roundtrip(v100(), Term::string("hello world".to_string()));
}

#[test]
fn flat_roundtrip_string_unicode() {
    roundtrip(v100(), Term::string("héllo wörld 🌍".to_string()));
}

#[test]
fn flat_roundtrip_string_long() {
    let long_str = "a]b[c".repeat(100);
    roundtrip(v100(), Term::string(long_str));
}

#[test]
fn flat_roundtrip_identity() {
    roundtrip(v100(), lam(var(1)));
}

#[test]
fn flat_roundtrip_apply() {
    roundtrip(v100(), lam(var(1)).apply(Term::integer_from(1)));
}

#[test]
fn flat_roundtrip_nested_lambda() {
    roundtrip(v100(), lam(lam(var(1).apply(var(2)))));
}

#[test]
fn flat_roundtrip_delay_force() {
    roundtrip(v100(), Term::integer_from(1).delay().force());
}

#[test]
fn flat_roundtrip_builtin_add() {
    roundtrip(v100(), Term::add_integer());
}

#[test]
fn flat_roundtrip_builtin_applied() {
    roundtrip_eval(
        v100(),
        Term::add_integer().apply(Term::integer_from(1)).apply(Term::integer_from(2)),
    );
}

#[test]
fn flat_roundtrip_builtin_ifThenElse() {
    let term = Term::if_then_else()
        .force()
        .apply(Term::bool(true))
        .apply(Term::integer_from(1).delay())
        .apply(Term::integer_from(2).delay())
        .force();
    roundtrip_eval(v100(), term);
}

#[test]
fn flat_roundtrip_constr() {
    roundtrip(v110(), Term::constr(0, vec![Term::integer_from(1), Term::integer_from(2)]));
}

#[test]
fn flat_roundtrip_case() {
    let term = Term::case(
        Term::constr(1, vec![Term::integer_from(42)]),
        vec![lam(Term::integer_from(0)), lam(var(1))],
    );
    roundtrip_eval(v110(), term);
}

#[test]
fn flat_roundtrip_error() {
    roundtrip(v100(), Term::error());
}

#[test]
fn flat_roundtrip_equals_string() {
    let term = Term::equals_string()
        .apply(Term::string("abc".to_string()))
        .apply(Term::string("abc".to_string()));
    roundtrip_eval(v100(), term);
}

#[test]
fn flat_roundtrip_encode_utf8() {
    roundtrip_eval(v100(), Term::encode_utf8().apply(Term::string("hello".to_string())));
}

#[test]
fn flat_roundtrip_decode_utf8() {
    roundtrip_eval(v100(), Term::decode_utf8().apply(Term::byte_string(hex("68656c6c6f"))));
}

#[test]
fn flat_roundtrip_sha2() {
    roundtrip_eval(v100(), Term::sha2_256().apply(Term::byte_string(hex("deadbeef"))));
}

#[test]
fn encoded_program_starts_with_its_version() {
    let program = Program::new(v110(), Term::error());
    let encoded = encode(&program).expect("Failed to encode");
    // 1, 1, 0 as 7-bit words, then the error tag 0110 and a filler.
    assert_eq!(encoded, vec![0x01, 0x01, 0x00, 0x61]);
}

#[test]
fn flat_roundtrip_trace_with_string() {
    let term = Term::trace()
        .force()
        .apply(Term::string("hello from trace".to_string()))
        .apply(Term::unit());
    roundtrip_eval(v100(), term);
}

#[test]
fn flat_roundtrip_append_string() {
    let term = Term::append_string()
        .apply(Term::string("hello ".to_string()))
        .apply(Term::string("world".to_string()));
    roundtrip_eval(v100(), term);
}
