use uplc::constant::PlutusData;
use uplc::integer::Integer;
use uplc::ledger_value::{
    check_quantity_range, count_stats, data_node_count, value_max_depth, LedgerValue, UnValueDataError,
    ValueError,
};

fn qty(i: i128) -> Integer {
    Integer::from_i128(i)
}

fn value(items: &[(&[u8], &[u8], i128)]) -> LedgerValue {
    let mut v = LedgerValue::empty();
    for (c, t, q) in items {
        v = LedgerValue::insert_coin(c, t, &qty(*q), &v);
    }
    v
}

#[test]
fn insert_then_lookup() {
    let v = value(&[(b"bb", b"x", 5), (b"aa", b"y", 7), (b"bb", b"a", -2)]);
    assert_eq!(v.lookup_coin(b"bb", b"x"), qty(5));
    assert_eq!(v.lookup_coin(b"aa", b"y"), qty(7));
    assert_eq!(v.lookup_coin(b"bb", b"a"), qty(-2));
    assert_eq!(v.lookup_coin(b"cc", b"x"), qty(0));
    assert_eq!(v.size, 3);
    assert_eq!(v.negative_count, 1);
    // sorted by currency, then by token
    assert_eq!(v.entries[0].currency, b"aa".to_vec());
    assert_eq!(v.entries[1].tokens[0].name, b"a".to_vec());
}

#[test]
fn insert_zero_removes() {
    let v = value(&[(b"aa", b"y", 7), (b"aa", b"y", 0)]);
    assert_eq!(v.entries.len(), 0);
    assert_eq!(v.size, 0);
    assert_eq!(v.lookup_coin(b"aa", b"y"), qty(0));
}

#[test]
fn union_sums_and_drops_zeros() {
    let a = value(&[(b"aa", b"x", 5), (b"bb", b"y", 1)]);
    let b = value(&[(b"aa", b"x", -5), (b"cc", b"z", 2)]);
    let u = LedgerValue::union_value(&a, &b).expect("no overflow");
    assert_eq!(u.lookup_coin(b"aa", b"x"), qty(0));
    assert_eq!(u.lookup_coin(b"bb", b"y"), qty(1));
    assert_eq!(u.lookup_coin(b"cc", b"z"), qty(2));
    assert_eq!(u.entries.len(), 2);
    assert_eq!(u.size, 2);
}

#[test]
fn union_out_of_range() {
    let a = value(&[(b"aa", b"x", i128::MAX)]);
    let b = value(&[(b"aa", b"x", 1)]);
    assert_eq!(
        LedgerValue::union_value(&a, &b).err(),
        Some(ValueError::UnionValueQuantityOutOfBounds)
    );
}

#[test]
fn scale_multiplies() {
    let a = value(&[(b"aa", b"x", 5), (b"bb", b"y", -1)]);
    let s = LedgerValue::scale_value(&qty(-3), &a).expect("in range");
    assert_eq!(s.lookup_coin(b"aa", b"x"), qty(-15));
    assert_eq!(s.lookup_coin(b"bb", b"y"), qty(3));
    assert_eq!(s.negative_count, 1);
    let z = LedgerValue::scale_value(&qty(0), &a).expect("in range");
    assert_eq!(z.entries.len(), 0);
    let big = value(&[(b"aa", b"x", i128::MAX)]);
    assert_eq!(
        LedgerValue::scale_value(&qty(2), &big).err(),
        Some(ValueError::ScaleValueQuantityOutOfBounds)
    );
}

#[test]
fn contains_compares_quantities() {
    let a = value(&[(b"aa", b"x", 5), (b"bb", b"y", 1)]);
    let b = value(&[(b"aa", b"x", 3)]);
    let c = value(&[(b"aa", b"x", 6)]);
    let d = value(&[(b"cc", b"z", 1)]);
    assert_eq!(LedgerValue::value_contains(&a, &b), Ok(true));
    assert_eq!(LedgerValue::value_contains(&a, &c), Ok(false));
    assert_eq!(LedgerValue::value_contains(&a, &d), Ok(false));
    assert_eq!(LedgerValue::value_contains(&a, &LedgerValue::empty()), Ok(true));
    let neg = value(&[(b"aa", b"x", -1)]);
    assert_eq!(
        LedgerValue::value_contains(&neg, &a),
        Err(ValueError::ValueContainsFirstNegative)
    );
    assert_eq!(
        LedgerValue::value_contains(&a, &neg),
        Err(ValueError::ValueContainsSecondNegative)
    );
}

#[test]
fn value_data_roundtrip() {
    let a = value(&[(b"aa", b"x", 5), (b"bb", b"y", -1), (b"bb", b"z", 9)]);
    let d = LedgerValue::value_data(&a).expect("small enough");
    let back = LedgerValue::un_value_data(&d).expect("well formed");
    assert_eq!(back.lookup_coin(b"aa", b"x"), qty(5));
    assert_eq!(back.lookup_coin(b"bb", b"y"), qty(-1));
    assert_eq!(back.lookup_coin(b"bb", b"z"), qty(9));
    assert_eq!(back.size, 3);
    assert_eq!(back.negative_count, 1);
}

#[test]
fn un_value_data_errors() {
    let bs = |b: &[u8]| PlutusData::ByteString(b.to_vec());
    let map = |ps: Vec<(PlutusData, PlutusData)>| PlutusData::AssocList(ps);
    let i = |q: i128| PlutusData::Integer(qty(q));
    assert_eq!(
        LedgerValue::un_value_data(&i(1)).err(),
        Some(ValueError::UnValueData(UnValueDataError::NonMapConstructor))
    );
    assert_eq!(
        LedgerValue::un_value_data(&map(vec![(i(1), map(vec![]))])).err(),
        Some(ValueError::UnValueData(UnValueDataError::NonByteStringConstructor))
    );
    assert_eq!(
        LedgerValue::un_value_data(&map(vec![(bs(&[0; 33]), map(vec![]))])).err(),
        Some(ValueError::UnValueData(UnValueDataError::InvalidKey))
    );
    assert_eq!(
        LedgerValue::un_value_data(&map(vec![(bs(b"a"), map(vec![]))])).err(),
        Some(ValueError::UnValueData(UnValueDataError::EmptyInnerMap))
    );
    assert_eq!(
        LedgerValue::un_value_data(&map(vec![
            (bs(b"b"), map(vec![(bs(b"x"), i(1))])),
            (bs(b"a"), map(vec![(bs(b"x"), i(1))])),
        ]))
        .err(),
        Some(ValueError::UnValueData(UnValueDataError::CurrencyNotAscending))
    );
    assert_eq!(
        LedgerValue::un_value_data(&map(vec![(bs(b"a"), map(vec![(bs(b"y"), i(1)), (bs(b"x"), i(1))]))])).err(),
        Some(ValueError::UnValueData(UnValueDataError::TokenNotAscending))
    );
    assert_eq!(
        LedgerValue::un_value_data(&map(vec![(bs(b"a"), map(vec![(bs(b"x"), i(0))]))])).err(),
        Some(ValueError::UnValueData(UnValueDataError::InvalidQuantity))
    );
    assert_eq!(
        LedgerValue::un_value_data(&map(vec![(bs(b"a"), map(vec![(bs(b"x"), bs(b"q"))]))])).err(),
        Some(ValueError::UnValueData(UnValueDataError::NonIntegerConstructor))
    );
}

#[test]
fn quantity_range_bounds() {
    assert!(check_quantity_range(&qty(i128::MIN)).is_ok());
    assert!(check_quantity_range(&qty(i128::MAX)).is_ok());
    let over = qty(i128::MAX).add(&qty(1));
    assert_eq!(check_quantity_range(&over), Err(ValueError::QuantityOutOfBounds));
    let under = qty(i128::MIN).subtract(&qty(1));
    assert_eq!(check_quantity_range(&under), Err(ValueError::QuantityOutOfBounds));
}

#[test]
fn counts_and_depth() {
    let a = value(&[(b"aa", b"x", 5), (b"bb", b"y", -1), (b"bb", b"z", 9)]);
    assert_eq!(count_stats(&a.entries), (3, 1));
    // two currencies: 2 binary digits; at most two tokens: 2 binary digits
    assert_eq!(value_max_depth(&a), 4);
    assert_eq!(value_max_depth(&LedgerValue::empty()), 0);
}

#[test]
fn data_nodes_are_counted() {
    let d = PlutusData::Constr {
        tag: 0,
        fields: vec![
            PlutusData::Integer(qty(1)),
            PlutusData::List(vec![PlutusData::ByteString(vec![1]), PlutusData::Integer(qty(2))]),
            PlutusData::AssocList(vec![(PlutusData::Integer(qty(3)), PlutusData::Integer(qty(4)))]),
        ],
    };
    assert_eq!(data_node_count(&d), 8);
}
