use uplc::integer::Integer;
use uplc::machine::error::{MachineError, RuntimeError};
use uplc::program::{Program, Version};
use uplc::term::Term;

fn eval_v3(term: Term) -> Result<Term, MachineError> {
    Program::new(Version::plutus_v3(), term).eval().term
}

fn exp_mod(b: i128, e: i128, m: i128) -> Result<Term, MachineError> {
    eval_v3(
        Term::exp_mod_integer()
            .apply(Term::integer_from(b))
            .apply(Term::integer_from(e))
            .apply(Term::integer_from(m)),
    )
}

fn bitwise(op: Term, pad: bool, a: Vec<u8>, b: Vec<u8>) -> Result<Term, MachineError> {
    eval_v3(op.apply(Term::bool(pad)).apply(Term::byte_string(a)).apply(Term::byte_string(b)))
}

#[test]
fn xor_byte_string_uses_own_cost_model() {
    let bs1 = vec![0xAA; 32];
    let bs2 = vec![0x55; 32];
    let xor_result = bitwise(Term::xor_byte_string(), false, bs1.clone(), bs2.clone());
    assert!(xor_result.is_ok(), "XOR should succeed");
    let or_result = bitwise(Term::or_byte_string(), false, bs1, bs2);
    assert!(or_result.is_ok(), "OR should succeed");
    let expected = vec![0xFF; 32];
    assert_eq!(xor_result.unwrap(), Term::byte_string(expected.clone()));
    assert_eq!(or_result.unwrap(), Term::byte_string(expected));
}

#[test]
fn exp_mod_integer_zero_negative_exp_mod_one() {
    assert_eq!(exp_mod(0, -1, 1).expect("expModInteger 0 (-1) 1 should return 0"), Term::integer_from(0));
}

#[test]
fn exp_mod_integer_zero_negative5_exp_mod_one() {
    assert_eq!(exp_mod(0, -5, 1).expect("expModInteger 0 (-5) 1 should return 0"), Term::integer_from(0));
}

#[test]
fn exp_mod_integer_five_negative1_mod_one() {
    assert_eq!(
        exp_mod(5, -1, 1).expect("expModInteger 5 (-1) 1 should return 0 (anything mod 1 is 0)"),
        Term::integer_from(0)
    );
}

#[test]
fn exp_mod_integer_values() {
    assert_eq!(exp_mod(2, 10, 1000).unwrap(), Term::integer_from(24));
    assert_eq!(exp_mod(-2, 3, 5).unwrap(), Term::integer_from(2));
    assert_eq!(exp_mod(3, -1, 7).unwrap(), Term::integer_from(5));
    assert_eq!(exp_mod(3, -2, 7).unwrap(), Term::integer_from(4));
    assert_eq!(exp_mod(7, 0, 13).unwrap(), Term::integer_from(1));
}

#[test]
fn exp_mod_integer_errors() {
    assert_eq!(
        exp_mod(2, 3, 0).unwrap_err(),
        MachineError::Runtime(RuntimeError::ExpModIntegerInvalidModulus)
    );
    assert_eq!(
        exp_mod(2, 3, -5).unwrap_err(),
        MachineError::Runtime(RuntimeError::ExpModIntegerInvalidModulus)
    );
    assert_eq!(
        exp_mod(2, -1, 4).unwrap_err(),
        MachineError::Runtime(RuntimeError::ExpModIntegerNotInvertible)
    );
}

#[test]
fn exp_mod_integer_big_modulus() {
    let m = Integer::from_u64(1_000_000_007);
    let term = Term::exp_mod_integer()
        .apply(Term::integer_from(3))
        .apply(Term::integer_from(1_000_000_005))
        .apply(Term::integer(m));
    // 3 * 3^(p-2) = 1 modulo the prime p
    let inverse = eval_v3(term).unwrap();
    let check = eval_v3(
        Term::multiply_integer().apply(inverse).apply(Term::integer_from(3)),
    )
    .unwrap();
    let reduced = eval_v3(Term::mod_integer().apply(check).apply(Term::integer_from(1_000_000_007))).unwrap();
    assert_eq!(reduced, Term::integer_from(1));
}

#[test]
fn bitwise_truncation_and_padding() {
    let a = vec![0xF0, 0x0F, 0xFF];
    let b = vec![0x3C, 0xC3];
    assert_eq!(bitwise(Term::and_byte_string(), false, a.clone(), b.clone()).unwrap(), Term::byte_string(vec![0x30, 0x03]));
    assert_eq!(bitwise(Term::and_byte_string(), true, a.clone(), b.clone()).unwrap(), Term::byte_string(vec![0x30, 0x03, 0xFF]));
    assert_eq!(bitwise(Term::or_byte_string(), false, a.clone(), b.clone()).unwrap(), Term::byte_string(vec![0xFC, 0xCF]));
    assert_eq!(bitwise(Term::or_byte_string(), true, b.clone(), a.clone()).unwrap(), Term::byte_string(vec![0xFC, 0xCF, 0xFF]));
    assert_eq!(bitwise(Term::xor_byte_string(), true, a.clone(), b.clone()).unwrap(), Term::byte_string(vec![0xCC, 0xCC, 0xFF]));
    assert_eq!(bitwise(Term::xor_byte_string(), false, a, vec![]).unwrap(), Term::byte_string(vec![]));
}
