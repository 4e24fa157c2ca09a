use uplc::binder::DeBruijn;
use uplc::builtin::DefaultFunction;
use uplc::constant::{Constant, PlutusData};
use uplc::integer::Integer;
use uplc::syn::term::builtin_from_str;
use uplc::syn::{parse_constant, parse_data, parse_program, parse_term, ParseError};
use uplc::term::Term;

fn var(i: usize) -> Term {
    Term::var(DeBruijn::new(i))
}

fn lam(body: Term) -> Term {
    body.lambda(DeBruijn::zero())
}

#[test]
fn parse_program_add_integer_evaluates() {
    let program =
        parse_program("(program 1.0.0 [(builtin addInteger) (con integer 1) (con integer 3)])")
            .unwrap();
    assert_eq!(program.version.0, (1, 0, 0));
    assert_eq!(
        program.term,
        Term::add_integer().apply(Term::integer_from(1)).apply(Term::integer_from(3))
    );
    assert_eq!(program.eval().term.unwrap(), Term::integer_from(4));
}

#[test]
fn parse_program_version_and_spaces() {
    let program = parse_program("  ( program   1.1.0\n\t(error) )  ").unwrap();
    assert_eq!(program.version.0, (1, 1, 0));
    assert_eq!(program.term, Term::error());
}

#[test]
fn parse_program_bad_version() {
    assert_eq!(parse_program("(program 1.0 (error))").unwrap_err(), ParseError { position: 12 });
    assert_eq!(parse_program("(program 01.0.0 (error))").unwrap_err(), ParseError { position: 10 });
}

#[test]
fn parse_program_trailing_text() {
    assert_eq!(parse_program("(program 1.0.0 (error)) x").unwrap_err(), ParseError { position: 24 });
}

#[test]
fn parse_term_de_bruijn_indices() {
    assert_eq!(parse_term("(lam x x)").unwrap(), lam(var(1)));
    assert_eq!(parse_term("(lam x (lam y x))").unwrap(), lam(lam(var(2))));
    assert_eq!(parse_term("(lam x (lam y y))").unwrap(), lam(lam(var(1))));
    assert_eq!(parse_term("(lam x (lam x x))").unwrap(), lam(lam(var(1))));
}

#[test]
fn parse_term_open_variable_fails() {
    assert_eq!(parse_term("x").unwrap_err(), ParseError { position: 0 });
    assert_eq!(parse_term("(lam x y)").unwrap_err(), ParseError { position: 7 });
}

#[test]
fn parse_term_application_folds_left() {
    let t = parse_term("[(lam f (lam x [f x x])) (delay (error)) (force (builtin headList))]")
        .unwrap();
    let expected = lam(lam(var(2).apply(var(1)).apply(var(1))))
        .apply(Term::error().delay())
        .apply(Term::head_list().force());
    assert_eq!(t, expected);
}

#[test]
fn parse_term_application_needs_an_argument() {
    assert!(parse_term("[(error)]").is_err());
}

#[test]
fn parse_term_unknown_builtin() {
    assert_eq!(parse_term("(builtin frobnicate)").unwrap_err(), ParseError { position: 9 });
}

#[test]
fn parse_constant_integers() {
    assert_eq!(parse_constant("(con integer 42)").unwrap(), Constant::integer_from(42));
    assert_eq!(parse_constant("(con integer -7)").unwrap(), Constant::integer_from(-7));
    assert_eq!(parse_constant("(con integer 0)").unwrap(), Constant::integer_from(0));
    let big = parse_constant("(con integer 340282366920938463463374607431768211456)").unwrap();
    let two_64 = Integer::from_u64(1 << 32).multiply(&Integer::from_u64(1 << 32));
    assert_eq!(big, Constant::Integer(two_64.multiply(&two_64)));
    assert_eq!(parse_constant("(con integer 007)").unwrap_err(), ParseError { position: 14 });
}

#[test]
fn parse_constant_byte_strings() {
    assert_eq!(
        parse_constant("(con bytestring #00fFa1)").unwrap(),
        Constant::byte_string(vec![0x00, 0xff, 0xa1])
    );
    assert_eq!(parse_constant("(con bytestring #)").unwrap(), Constant::byte_string(vec![]));
    assert_eq!(parse_constant("(con bytestring #abc)").unwrap_err(), ParseError { position: 20 });
}

#[test]
fn parse_constant_strings_and_escapes() {
    assert_eq!(
        parse_constant("(con string \"hello\")").unwrap(),
        Constant::string("hello".to_string())
    );
    assert_eq!(
        parse_constant(r#"(con string "a\nb\x41\o101\65\\\"\&")"#).unwrap(),
        Constant::string("a\nbAAA\\\"&".to_string())
    );
    assert_eq!(
        parse_constant("(con string \"λ→\")").unwrap(),
        Constant::string("λ→".to_string())
    );
    assert!(parse_constant(r#"(con string "\q")"#).is_err());
    assert!(parse_constant(r#"(con string "\xD800")"#).is_err());
    assert!(parse_constant("(con string \"open)").is_err());
}

#[test]
fn parse_constant_bool_unit_and_data() {
    assert_eq!(parse_constant("(con bool True)").unwrap(), Constant::bool(true));
    assert_eq!(parse_constant("(con bool False)").unwrap(), Constant::bool(false));
    assert_eq!(parse_constant("(con unit ())").unwrap(), Constant::unit());
    assert_eq!(
        parse_constant("(con data (I 5))").unwrap(),
        Constant::data(PlutusData::Integer(Integer::from_i128(5)))
    );
    assert_eq!(parse_constant("(con bool Maybe)").unwrap_err(), ParseError { position: 10 });
    assert_eq!(parse_constant("(con float 1)").unwrap_err(), ParseError { position: 5 });
}

#[test]
fn parse_data_items() {
    let d = parse_data("Constr 1 [I -3, B #ff, List [], Map [(I 1, List [I 2])]]").unwrap();
    let expected = PlutusData::Constr {
        tag: 1,
        fields: vec![
            PlutusData::Integer(Integer::from_i128(-3)),
            PlutusData::ByteString(vec![0xff]),
            PlutusData::List(vec![]),
            PlutusData::AssocList(vec![(
                PlutusData::Integer(Integer::from_i128(1)),
                PlutusData::List(vec![PlutusData::Integer(Integer::from_i128(2))]),
            )]),
        ],
    };
    assert_eq!(d, expected);
}

#[test]
fn parse_data_errors() {
    assert_eq!(parse_data("Constr 0 [I 1,]").unwrap_err(), ParseError { position: 14 });
    assert_eq!(parse_data("Q 1").unwrap_err(), ParseError { position: 0 });
    assert!(parse_data("Constr 18446744073709551616 []").is_err());
    assert_eq!(
        parse_data("Constr 18446744073709551615 []").unwrap(),
        PlutusData::Constr { tag: u64::MAX, fields: vec![] }
    );
}

#[test]
fn builtin_names() {
    assert_eq!(builtin_from_str("addInteger"), Some(Term::builtin(DefaultFunction::AddInteger)));
    assert_eq!(builtin_from_str("blake2b_224"), Some(Term::builtin(DefaultFunction::Blake2b_224)));
    assert_eq!(builtin_from_str("appendString"), Some(Term::builtin(DefaultFunction::AppendString)));
    assert_eq!(builtin_from_str("mkNilPairData"), Some(Term::builtin(DefaultFunction::MkNilPairData)));
    assert_eq!(builtin_from_str("AddInteger"), None);
}
