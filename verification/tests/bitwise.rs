use uplc::constant::{Constant, PlutusData, Type};
use uplc::integer::Integer;
use uplc::machine::error::{MachineError, RuntimeError};
use uplc::program::{Program, Version};
use uplc::term::Term;

fn eval_v3(term: Term) -> Result<Term, MachineError> {
    Program::new(Version::plutus_v3(), term).eval().term
}

fn bs(b: &[u8]) -> Term {
    Term::byte_string(b.to_vec())
}

fn num(i: i128) -> Term {
    Term::integer_from(i)
}

fn runtime(e: RuntimeError) -> Result<Term, MachineError> {
    Err(MachineError::Runtime(e))
}

fn int_list(xs: &[i128]) -> Constant {
    Constant::proto_list(Type::Integer, xs.iter().map(|x| Constant::integer_from(*x)).collect())
}

#[test]
fn read_bit_indexes_from_the_last_byte() {
    let read = |b: &[u8], i: i128| eval_v3(Term::read_bit().apply(bs(b)).apply(num(i)));
    assert_eq!(read(&[0xf4], 0), Ok(Term::bool(false)));
    assert_eq!(read(&[0xf4], 2), Ok(Term::bool(true)));
    assert_eq!(read(&[0x01, 0x04], 8), Ok(Term::bool(true)));
    assert_eq!(read(&[0x01, 0x04], 2), Ok(Term::bool(true)));
    assert_eq!(read(&[0xf4], 8), runtime(RuntimeError::ReadBitOutOfBounds));
    assert_eq!(read(&[0xf4], -1), runtime(RuntimeError::ReadBitOutOfBounds));
    assert_eq!(read(&[], 0), runtime(RuntimeError::ReadBitOutOfBounds));
}

#[test]
fn write_bits_then_read() {
    let write = |b: &[u8], ixs: &[i128], v: bool| {
        eval_v3(
            Term::write_bits()
                .apply(bs(b))
                .apply(Term::constant(int_list(ixs)))
                .apply(Term::bool(v)),
        )
    };
    assert_eq!(write(&[0, 0], &[0], true), Ok(bs(&[0x00, 0x01])));
    assert_eq!(write(&[0, 0], &[15, 1], true), Ok(bs(&[0x80, 0x02])));
    assert_eq!(write(&[0xff], &[7], false), Ok(bs(&[0x7f])));
    assert_eq!(write(&[0xff], &[], false), Ok(bs(&[0xff])));
    assert_eq!(write(&[0xff], &[8], false), runtime(RuntimeError::WriteBitsOutOfBounds));
    let after = write(&[0, 0], &[9], true).unwrap();
    assert_eq!(eval_v3(Term::read_bit().apply(after).apply(num(9))), Ok(Term::bool(true)));
}

#[test]
fn replicate_byte_cases() {
    let rep = |n: i128, w: i128| eval_v3(Term::replicate_byte().apply(num(n)).apply(num(w)));
    assert_eq!(rep(3, 0xff), Ok(bs(&[0xff, 0xff, 0xff])));
    assert_eq!(rep(0, 7), Ok(bs(&[])));
    assert_eq!(rep(-1, 0), runtime(RuntimeError::ReplicateByteNegativeSize));
    assert_eq!(rep(8193, 0), runtime(RuntimeError::ReplicateByteSizeTooBig));
    assert_eq!(rep(1, 256), runtime(RuntimeError::OutsideByteBounds));
    assert_eq!(rep(1, -1), runtime(RuntimeError::OutsideByteBounds));
}

#[test]
fn shift_byte_string_cases() {
    let shift = |b: &[u8], k: i128| eval_v3(Term::shift_byte_string().apply(bs(b)).apply(num(k)));
    assert_eq!(shift(&[0x00, 0x0f], 4), Ok(bs(&[0x00, 0xf0])));
    assert_eq!(shift(&[0x00, 0x0f], -4), Ok(bs(&[0x00, 0x00])));
    assert_eq!(shift(&[0x80, 0x00], -15), Ok(bs(&[0x00, 0x01])));
    assert_eq!(shift(&[0x00, 0x0f], 16), Ok(bs(&[0x00, 0x00])));
    assert_eq!(shift(&[0x12, 0x34], 0), Ok(bs(&[0x12, 0x34])));
    assert_eq!(shift(&[], 3), Ok(bs(&[])));
}

#[test]
fn rotate_byte_string_cases() {
    let rot = |b: &[u8], k: i128| eval_v3(Term::rotate_byte_string().apply(bs(b)).apply(num(k)));
    assert_eq!(rot(&[0x00, 0x0f], 4), Ok(bs(&[0x00, 0xf0])));
    assert_eq!(rot(&[0x00, 0x0f], -4), Ok(bs(&[0xf0, 0x00])));
    assert_eq!(rot(&[0x80, 0x01], 1), Ok(bs(&[0x00, 0x03])));
    assert_eq!(rot(&[0x00, 0x01], -1), Ok(bs(&[0x80, 0x00])));
    assert_eq!(rot(&[0x12, 0x34], 16), Ok(bs(&[0x12, 0x34])));
    assert_eq!(rot(&[0x12, 0x34], -32), Ok(bs(&[0x12, 0x34])));
    assert_eq!(rot(&[], 5), Ok(bs(&[])));
}

#[test]
fn count_find_and_complement() {
    let one = |f: Term, b: &[u8]| eval_v3(f.apply(bs(b)));
    assert_eq!(one(Term::count_set_bits(), &[0xff, 0xff]), Ok(num(16)));
    assert_eq!(one(Term::count_set_bits(), &[0x01, 0x01]), Ok(num(2)));
    assert_eq!(one(Term::count_set_bits(), &[]), Ok(num(0)));
    assert_eq!(one(Term::find_first_set_bit(), &[0x00, 0x00]), Ok(num(-1)));
    assert_eq!(one(Term::find_first_set_bit(), &[0x00, 0x02]), Ok(num(1)));
    assert_eq!(one(Term::find_first_set_bit(), &[0x80, 0x00]), Ok(num(15)));
    assert_eq!(one(Term::find_first_set_bit(), &[0x01, 0x00]), Ok(num(8)));
    assert_eq!(one(Term::complement_byte_string(), &[0x0f, 0xf0]), Ok(bs(&[0xf0, 0x0f])));
}

#[test]
fn integer_to_byte_string_cases() {
    let i2b = |be: bool, w: i128, n: i128| {
        eval_v3(Term::integer_to_byte_string().apply(Term::bool(be)).apply(num(w)).apply(num(n)))
    };
    assert_eq!(i2b(true, 0, 0), Ok(bs(&[])));
    assert_eq!(i2b(true, 0, 1), Ok(bs(&[0x01])));
    assert_eq!(i2b(true, 2, 1), Ok(bs(&[0x00, 0x01])));
    assert_eq!(i2b(false, 2, 1), Ok(bs(&[0x01, 0x00])));
    assert_eq!(i2b(true, 0, 256), Ok(bs(&[0x01, 0x00])));
    assert_eq!(i2b(false, 0, 256), Ok(bs(&[0x00, 0x01])));
    assert_eq!(i2b(true, 1, 256), runtime(RuntimeError::IntegerToByteStringSizeTooSmall));
    assert_eq!(i2b(true, -1, 0), runtime(RuntimeError::IntegerToByteStringNegativeSize));
    assert_eq!(i2b(true, 8193, 0), runtime(RuntimeError::IntegerToByteStringSizeTooBig));
    assert_eq!(i2b(true, 0, -1), runtime(RuntimeError::IntegerToByteStringNegativeInput));
}

#[test]
fn byte_string_to_integer_cases() {
    let b2i = |be: bool, b: &[u8]| eval_v3(Term::byte_string_to_integer().apply(Term::bool(be)).apply(bs(b)));
    assert_eq!(b2i(true, &[0x01, 0x00]), Ok(num(256)));
    assert_eq!(b2i(false, &[0x01, 0x00]), Ok(num(1)));
    assert_eq!(b2i(true, &[]), Ok(num(0)));
    let back = eval_v3(
        Term::integer_to_byte_string().apply(Term::bool(false)).apply(num(0)).apply(num(123456789)),
    )
    .unwrap();
    assert_eq!(eval_v3(Term::byte_string_to_integer().apply(Term::bool(false)).apply(back)), Ok(num(123456789)));
}

#[test]
fn ripemd_160_digests() {
    let h = |b: &[u8]| eval_v3(Term::ripemd_160().apply(bs(b)));
    let empty: [u8; 20] = [
        0x9c, 0x11, 0x85, 0xa5, 0xc5, 0xe9, 0xfc, 0x54, 0x61, 0x28, 0x08, 0x97, 0x7e, 0xe8, 0xf5, 0x48,
        0xb2, 0x25, 0x8d, 0x31,
    ];
    let abc: [u8; 20] = [
        0x8e, 0xb2, 0x08, 0xf7, 0xe0, 0x5d, 0x98, 0x7a, 0x9b, 0x04, 0x4a, 0x8e, 0x98, 0xc6, 0xb0, 0x87,
        0xf1, 0x5a, 0x0b, 0xfc,
    ];
    assert_eq!(h(&[]), Ok(bs(&empty)));
    assert_eq!(h(b"abc"), Ok(bs(&abc)));
}

#[test]
fn map_data_and_back() {
    let d = |i: i128| Constant::data(PlutusData::Integer(Integer::from_i128(i)));
    let pair_type = || Type::Pair(Box::new(Type::Data), Box::new(Type::Data));
    let entries = Constant::proto_list(
        pair_type(),
        vec![Constant::proto_pair(Type::Data, Type::Data, d(1), d(2))],
    );
    let mapped = eval_v3(Term::map_data().apply(Term::constant(entries))).unwrap();
    let expected = PlutusData::AssocList(vec![(
        PlutusData::Integer(Integer::from_i128(1)),
        PlutusData::Integer(Integer::from_i128(2)),
    )]);
    assert_eq!(mapped, Term::data(expected));
    let back = eval_v3(Term::un_map_data().apply(mapped)).unwrap();
    let entries_again = Constant::proto_list(
        pair_type(),
        vec![Constant::proto_pair(Type::Data, Type::Data, d(1), d(2))],
    );
    assert_eq!(back, Term::constant(entries_again));
    assert_eq!(
        eval_v3(Term::un_map_data().apply(Term::data(PlutusData::List(vec![])))),
        Err(MachineError::Runtime(RuntimeError::MalFormedData))
    );
}

#[test]
fn drop_list_and_arrays() {
    let drop = |n: i128| eval_v3(Term::drop_list().force().apply(num(n)).apply(Term::constant(int_list(&[1, 2, 3]))));
    assert_eq!(drop(2), Ok(Term::constant(int_list(&[3]))));
    assert_eq!(drop(-1), Ok(Term::constant(int_list(&[1, 2, 3]))));
    assert_eq!(drop(10), Ok(Term::constant(int_list(&[]))));
    let array = eval_v3(Term::list_to_array().force().apply(Term::constant(int_list(&[1, 2, 3])))).unwrap();
    assert_eq!(
        array,
        Term::constant(Constant::proto_array(
            Type::Integer,
            vec![Constant::integer_from(1), Constant::integer_from(2), Constant::integer_from(3)]
        ))
    );
    assert_eq!(eval_v3(Term::length_of_array().force().apply(array)), Ok(num(3)));
    let array = eval_v3(Term::list_to_array().force().apply(Term::constant(int_list(&[1, 2, 3])))).unwrap();
    assert_eq!(eval_v3(Term::index_array().force().apply(array).apply(num(1))), Ok(num(2)));
    let array = eval_v3(Term::list_to_array().force().apply(Term::constant(int_list(&[1, 2, 3])))).unwrap();
    assert_eq!(
        eval_v3(Term::index_array().force().apply(array).apply(num(3))),
        Err(MachineError::Runtime(RuntimeError::IndexArrayOutOfBounds))
    );
}
