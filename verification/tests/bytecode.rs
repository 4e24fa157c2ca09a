use uplc::builtin::DefaultFunction;
use uplc::bytecode::compiler::{compile, CompiledProgram};
use uplc::bytecode::{read_u16, read_u32, Op};
use uplc::constant::Constant;
use uplc::integer::Integer;
use uplc::syn::parse_program;
use uplc::term::Term;

fn compile_source(source: &str) -> CompiledProgram {
    let program = parse_program(source).expect("parse failed");
    compile(
        (program.version.major(), program.version.minor(), program.version.patch()),
        &program.term,
    )
}

#[test]
fn compile_integer_constant() {
    let cp = compile_source("(program 1.0.0 (con integer 42))");
    assert_eq!(cp.bytecode[0], Op::ConstSmallInt.byte());
    assert_eq!(cp.bytecode[1] as i8, 42);
}

#[test]
fn compile_large_integer() {
    let cp = compile_source("(program 1.0.0 (con integer 999))");
    assert_eq!(cp.bytecode[0], Op::Const.byte());
    assert_eq!(cp.constant_pool.len(), 1);
}

#[test]
fn compile_unit() {
    let cp = compile_source("(program 1.0.0 (con unit ()))");
    assert_eq!(cp.bytecode[0], Op::ConstUnit.byte());
}

#[test]
fn compile_true() {
    let cp = compile_source("(program 1.0.0 (con bool True))");
    assert_eq!(cp.bytecode[0], Op::ConstTrue.byte());
}

#[test]
fn compile_identity() {
    let cp = compile_source("(program 1.0.0 (lam x x))");
    assert_eq!(cp.bytecode[0], Op::Lambda.byte());
    let body_offset = read_u32(&cp.bytecode, 1) as usize;
    assert_eq!(cp.bytecode[body_offset], Op::Var.byte());
}

#[test]
fn compile_force_delay() {
    let cp = compile_source("(program 1.0.0 (force (delay (con integer 1))))");
    assert_eq!(cp.bytecode[0], Op::ForceDelay.byte());
    assert_eq!(cp.bytecode[1], Op::ConstSmallInt.byte());
}

#[test]
fn compile_apply_lambda() {
    let cp = compile_source("(program 1.0.0 [(lam x x) (con integer 5)])");
    assert_eq!(cp.bytecode[0], Op::ApplyLambda.byte());
}

#[test]
fn compile_force_builtin() {
    let cp = compile_source("(program 1.0.0 (force (builtin headList)))");
    assert_eq!(cp.bytecode[0], Op::ForceBuiltin.byte());
}

#[test]
fn compile_force_force_builtin() {
    let cp = compile_source("(program 1.0.0 (force (force (builtin fstPair))))");
    assert_eq!(cp.bytecode[0], Op::Force2Builtin.byte());
}

#[test]
fn compile_error_term() {
    let cp = compile_source("(program 1.0.0 (error))");
    assert_eq!(cp.bytecode[0], Op::Error.byte());
}

#[test]
fn compile_builtin() {
    let cp = compile_source("(program 1.0.0 (builtin addInteger))");
    assert_eq!(cp.bytecode[0], Op::Builtin.byte());
    assert_eq!(cp.bytecode[1], DefaultFunction::AddInteger.tag());
}

#[test]
fn compile_keeps_version() {
    let cp = compile_source("(program 1.1.0 (error))");
    assert_eq!(cp.version, (1, 1, 0));
    assert_eq!(cp.bytecode, vec![0x0A]);
}

#[test]
fn compile_identity_exact_bytes() {
    // Lambda, body offset 7, lambda number 0, then the body: Var 1.
    let cp = compile_source("(program 1.0.0 (lam x x))");
    assert_eq!(cp.bytecode, vec![0x02, 7, 0, 0, 0, 0, 0, 0x01, 1]);
}

#[test]
fn compile_apply_lambda_exact_bytes() {
    // ApplyLambda, body offset after the argument, lambda number 0,
    // argument 5, then the body.
    let cp = compile_source("(program 1.0.0 [(lam x x) (con integer 5)])");
    assert_eq!(cp.bytecode, vec![0x11, 9, 0, 0, 0, 0, 0, 0x23, 5, 0x01, 1]);
}

#[test]
fn compile_apply2_and_pool() {
    // [[(builtin addInteger) 3] 1000]: Apply2 with the offsets of both
    // arguments, the built-in, then the small integer and the pooled one.
    let cp = compile_source("(program 1.0.0 [(builtin addInteger) (con integer 3) (con integer 1000)])");
    assert_eq!(cp.bytecode, vec![0x16, 11, 0, 0, 0, 13, 0, 0, 0, 0x09, 0, 0x23, 3, 0x08, 0, 0]);
    assert_eq!(cp.constant_pool.len(), 1);
    assert!(cp.constant_pool[0] == Constant::Integer(Integer::from_i128(1000)));
    assert_eq!(read_u16(&cp.bytecode, 14), 0);
}

#[test]
fn compile_negative_small_integer() {
    let cp = compile_source("(program 1.0.0 (con integer -128))");
    assert_eq!(cp.bytecode, vec![0x23, 0x80]);
    let cp = compile_source("(program 1.0.0 (con integer -129))");
    assert_eq!(cp.bytecode, vec![0x08, 0, 0]);
}

#[test]
fn compile_apply3() {
    let cp = compile_source(
        "(program 1.0.0 [(force (builtin ifThenElse)) (con bool True) (con unit ()) (con bool False)])",
    );
    assert_eq!(
        cp.bytecode,
        vec![0x17, 15, 0, 0, 0, 16, 0, 0, 0, 17, 0, 0, 0, 0x12, 26, 0x21, 0x20, 0x22]
    );
}

#[test]
fn compile_delays_and_case() {
    // Two delays get numbers 0 and 1; case holds its branch offsets.
    let term = Term::case(
        Term::constr(0, vec![]),
        vec![Term::error().delay(), Term::error().delay()],
    );
    let cp = compile((1, 1, 0), &term);
    assert_eq!(
        cp.bytecode,
        vec![
            0x07, 2, 13, 0, 0, 0, 21, 0, 0, 0, 0x06, 0, 0, 0x04, 20, 0, 0, 0, 0, 0, 0x0A, 0x04, 28, 0,
            0, 0, 1, 0, 0x0A
        ]
    );
}
