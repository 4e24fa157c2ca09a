use uplc::binder::DeBruijn;
use uplc::builtin::PlutusVersion;
use uplc::constant::{Constant, Type};
use uplc::cost_model::ex_budget::ExBudget;
use uplc::integer::Integer;
use uplc::machine::error::{MachineError, RuntimeError};
use uplc::program::{Program, Version};
use uplc::term::Term;

fn var(i: usize) -> Term {
    Term::var(DeBruijn::new(i))
}

fn lam(body: Term) -> Term {
    body.lambda(DeBruijn::zero())
}

fn eval_v3(term: Term) -> Result<Term, MachineError> {
    let program = Program::new(Version::new(1, 1, 0), term);
    program.eval_version(PlutusVersion::V3).term
}

fn hex(s: &str) -> Vec<u8> {
    (0..s.len() / 2).map(|i| u8::from_str_radix(&s[2 * i..2 * i + 2], 16).unwrap()).collect()
}

#[test]
fn add_integer() {
    let term = Term::add_integer().apply(Term::integer_from(1)).apply(Term::integer_from(3));
    let program = Program::new(Version::plutus_v3(), term);
    let result = program.eval();
    assert_eq!(result.term.unwrap(), Term::integer_from(4));
}

#[test]
fn fibonacci() {
    let double_force = var(1)
        .apply(var(1))
        .lambda(DeBruijn::zero())
        .delay()
        .force()
        .apply(
            var(3)
                .apply(var(1).apply(var(1)).lambda(DeBruijn::zero()).delay().force().apply(var(2)))
                .apply(var(1))
                .lambda(DeBruijn::zero())
                .lambda(DeBruijn::zero()),
        )
        .lambda(DeBruijn::zero())
        .delay()
        .delay()
        .force()
        .force();

    let if_condition = Term::if_then_else()
        .force()
        .apply(var(3))
        .apply(var(2))
        .apply(var(1))
        .apply(Term::unit())
        .lambda(DeBruijn::zero())
        .lambda(DeBruijn::zero())
        .lambda(DeBruijn::zero())
        .delay()
        .force();

    let add = Term::add_integer()
        .apply(var(3).apply(Term::subtract_integer().apply(var(2)).apply(Term::integer_from(1))))
        .apply(var(3).apply(Term::subtract_integer().apply(var(2)).apply(Term::integer_from(2))))
        .lambda(DeBruijn::zero());

    let term = double_force
        .apply(
            if_condition
                .apply(Term::less_than_equals_integer().apply(var(1)).apply(Term::integer_from(1)))
                .apply(var(2).lambda(DeBruijn::zero()))
                .apply(add)
                .lambda(DeBruijn::zero())
                .lambda(DeBruijn::zero()),
        )
        .apply(var(1))
        .lambda(DeBruijn::zero())
        .apply(Term::integer_from(15));

    let program = Program::new(Version::plutus_v3(), term);
    let result = program.eval();
    assert_eq!(result.term.unwrap(), Term::integer_from(610));
}

#[test]
fn case_on_equals_integer_true() {
    let scrutinee = Term::equals_integer().apply(Term::integer_from(1)).apply(Term::integer_from(1));
    let result = eval_v3(Term::case(scrutinee, vec![Term::integer_from(0), Term::integer_from(1)]))
        .expect("should evaluate successfully");
    assert_eq!(result, Term::integer_from(1));
}

#[test]
fn case_on_equals_integer_false() {
    let scrutinee = Term::equals_integer().apply(Term::integer_from(1)).apply(Term::integer_from(2));
    let result = eval_v3(Term::case(scrutinee, vec![Term::integer_from(0), Term::integer_from(1)]))
        .expect("should evaluate successfully");
    assert_eq!(result, Term::integer_from(0));
}

#[test]
fn case_on_less_than_integer() {
    let scrutinee = Term::less_than_integer().apply(Term::integer_from(1)).apply(Term::integer_from(2));
    let result = eval_v3(Term::case(scrutinee, vec![Term::integer_from(10), Term::integer_from(20)]))
        .expect("should evaluate successfully");
    assert_eq!(result, Term::integer_from(20));
}

#[test]
fn case_on_null_list() {
    let empty = Term::constant(Constant::proto_list(Type::Integer, vec![]));
    let scrutinee = Term::null_list().force().apply(empty);
    let result = eval_v3(Term::case(scrutinee, vec![Term::integer_from(0), Term::integer_from(1)]))
        .expect("should evaluate successfully");
    assert_eq!(result, Term::integer_from(1));
}

#[test]
fn case_on_equals_bytestring() {
    let scrutinee = Term::equals_byte_string()
        .apply(Term::byte_string(hex("deadbeef")))
        .apply(Term::byte_string(hex("deadbeef")));
    let result = eval_v3(Term::case(scrutinee, vec![Term::integer_from(0), Term::integer_from(1)]))
        .expect("should evaluate successfully");
    assert_eq!(result, Term::integer_from(1));
}

#[test]
fn case_on_bool_constant_true() {
    let result = eval_v3(Term::case(Term::bool(true), vec![Term::integer_from(0), Term::integer_from(1)]))
        .expect("should evaluate successfully");
    assert_eq!(result, Term::integer_from(1));
}

#[test]
fn case_on_bool_constant_false() {
    let result = eval_v3(Term::case(Term::bool(false), vec![Term::integer_from(0), Term::integer_from(1)]))
        .expect("should evaluate successfully");
    assert_eq!(result, Term::integer_from(0));
}

#[test]
fn case_on_constr_tag0() {
    let result = eval_v3(Term::case(Term::constr(0, vec![]), vec![Term::integer_from(10), Term::integer_from(20)]))
        .expect("should evaluate successfully");
    assert_eq!(result, Term::integer_from(10));
}

#[test]
fn case_on_constr_tag1() {
    let result = eval_v3(Term::case(Term::constr(1, vec![]), vec![Term::integer_from(10), Term::integer_from(20)]))
        .expect("should evaluate successfully");
    assert_eq!(result, Term::integer_from(20));
}

#[test]
fn case_on_constr_with_fields() {
    let term = Term::case(
        Term::constr(1, vec![Term::integer_from(42)]),
        vec![lam(Term::integer_from(0)), lam(var(1))],
    );
    let result = eval_v3(term).expect("should evaluate successfully");
    assert_eq!(result, Term::integer_from(42));
}

#[test]
fn index_byte_string_huge_index_no_panic() {
    // 2^200
    let huge = Integer { negative: false, digits: vec![0, 0, 0, 0, 0, 0, 256] };
    let term = Term::index_byte_string().apply(Term::byte_string(vec![0x00])).apply(Term::integer(huge));
    let program = Program::new(Version::new(1, 1, 0), term);
    let result = program.eval();
    assert!(result.term.is_err(), "indexByteString with a huge index should return an error, not panic");
}

#[test]
fn missing_case_branch_is_an_error() {
    let term = Term::case(Term::constr(2, vec![]), vec![Term::integer_from(10), Term::integer_from(20)]);
    assert_eq!(eval_v3(term), Err(MachineError::MissingCaseBranch(2)));
}

#[test]
fn case_on_list_passes_head_and_tail() {
    let list = Term::constant(Constant::proto_list(
        Type::Integer,
        vec![Constant::integer_from(7), Constant::integer_from(8)],
    ));
    let term = Term::case(list, vec![lam(lam(var(2))), Term::integer_from(0)]);
    assert_eq!(eval_v3(term).unwrap(), Term::integer_from(7));
}

#[test]
fn case_on_pair_passes_both_components() {
    let pair = Term::constant(Constant::proto_pair(
        Type::Integer,
        Type::Integer,
        Constant::integer_from(3),
        Constant::integer_from(4),
    ));
    let term = Term::case(pair, vec![lam(lam(var(1)))]);
    assert_eq!(eval_v3(term).unwrap(), Term::integer_from(4));
}

#[test]
fn explicit_error_term() {
    assert_eq!(eval_v3(Term::error()), Err(MachineError::ExplicitErrorTerm));
}

#[test]
fn open_term_is_an_error() {
    assert_eq!(eval_v3(var(3)), Err(MachineError::OpenTermEvaluated(3)));
}

#[test]
fn applying_a_constant_is_an_error() {
    let term = Term::integer_from(1).apply(Term::integer_from(2));
    assert_eq!(eval_v3(term), Err(MachineError::NonFunctionApplication));
}

#[test]
fn forcing_a_constant_is_an_error() {
    assert_eq!(eval_v3(Term::integer_from(1).force()), Err(MachineError::NonPolymorphicInstantiation));
}

#[test]
fn division_by_zero_is_an_error() {
    let term = Term::divide_integer().apply(Term::integer_from(1)).apply(Term::integer_from(0));
    assert_eq!(eval_v3(term), Err(MachineError::Runtime(RuntimeError::DivisionByZero)));
}

#[test]
fn budget_runs_out() {
    let term = Term::add_integer().apply(Term::integer_from(1)).apply(Term::integer_from(3));
    let program = Program::new(Version::plutus_v3(), term);
    let result = program.eval_version_budget(PlutusVersion::V3, ExBudget::new(1000, 1000));
    assert!(matches!(result.term, Err(MachineError::OutOfExError(_))));
}

#[test]
fn consumed_and_remaining_make_up_the_initial_budget() {
    let term = Term::add_integer().apply(Term::integer_from(1)).apply(Term::integer_from(3));
    let program = Program::new(Version::plutus_v3(), term);
    let initial = ExBudget::new(1_000_000, 10_000_000);
    let result = program.eval_version_budget(PlutusVersion::V3, initial);
    assert_eq!(result.term.unwrap(), Term::integer_from(4));
    let info = result.info;
    assert_eq!(info.remaining_budget.mem + info.consumed_budget.mem, initial.mem);
    assert_eq!(info.remaining_budget.cpu + info.consumed_budget.cpu, initial.cpu);
    // start-up, five steps charged at the end, and the call of addInteger on
    // two one-word integers: 100788 + 420 cpu and 1 + 1 mem.
    assert_eq!(info.consumed_budget.cpu, 100 + 5 * 16000 + 101208);
    assert_eq!(info.consumed_budget.mem, 100 + 5 * 100 + 2);
    assert!(info.logs.is_empty());
}

#[test]
fn lambda_results_are_discharged() {
    // [(lam x (lam y x)) 5] is a lambda whose body has 5 in place of x.
    let result = eval_v3(lam(lam(var(2))).apply(Term::integer_from(5))).unwrap();
    assert_eq!(result, lam(Term::integer_from(5)));
}

#[test]
fn trace_logs_its_message() {
    let term = Term::trace()
        .force()
        .apply(Term::string("hello from trace".to_string()))
        .apply(Term::integer_from(9));
    let program = Program::new(Version::plutus_v3(), term);
    let result = program.eval();
    assert_eq!(result.term.unwrap(), Term::integer_from(9));
    assert_eq!(result.info.logs, vec!["hello from trace".to_string()]);
}

#[test]
fn append_string_joins() {
    let term = Term::append_string()
        .apply(Term::string("hello ".to_string()))
        .apply(Term::string("world".to_string()));
    assert_eq!(eval_v3(term).unwrap(), Term::string("hello world".to_string()));
}

#[test]
fn secp256k1_schnorr_rejects_a_wrong_signature() {
    let key = hex("79be667ef9dcbbac55a06295ce870b07029bfcdb2dce28d959f2815b16f81798");
    let term = Term::verify_schnorr_secp256k1_signature()
        .apply(Term::byte_string(key))
        .apply(Term::byte_string(b"hello".to_vec()))
        .apply(Term::byte_string(vec![0u8; 64]));
    assert_eq!(eval_v3(term).unwrap(), Term::bool(false));
}

#[test]
fn secp256k1_ecdsa_rejects_a_wrong_signature() {
    let key = hex("0279be667ef9dcbbac55a06295ce870b07029bfcdb2dce28d959f2815b16f81798");
    let mut sig = vec![0u8; 64];
    sig[31] = 1;
    sig[63] = 1;
    let term = Term::verify_ecdsa_secp256k1_signature()
        .apply(Term::byte_string(key))
        .apply(Term::byte_string(vec![7u8; 32]))
        .apply(Term::byte_string(sig));
    assert_eq!(eval_v3(term).unwrap(), Term::bool(false));
}

#[test]
fn secp256k1_refuses_malformed_arguments() {
    let term = Term::verify_ecdsa_secp256k1_signature()
        .apply(Term::byte_string(vec![1, 2, 3]))
        .apply(Term::byte_string(vec![7u8; 32]))
        .apply(Term::byte_string(vec![0u8; 64]));
    assert_eq!(eval_v3(term), Err(MachineError::Runtime(RuntimeError::Secp256k1)));
    let term = Term::verify_schnorr_secp256k1_signature()
        .apply(Term::byte_string(vec![0u8; 32]))
        .apply(Term::byte_string(b"m".to_vec()))
        .apply(Term::byte_string(vec![0u8; 10]));
    assert_eq!(eval_v3(term), Err(MachineError::Runtime(RuntimeError::Secp256k1)));
}
