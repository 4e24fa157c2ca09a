use uplc::builtin::PlutusVersion;
use uplc::cost_model::builtin_costs::{BuiltinCosts, CostModel};
use uplc::cost_model::machine_costs::MachineCosts;
use uplc::constant::Constant;
use uplc::cost_model::ex_budget::ExBudget;
use uplc::cost_model::value::{integer_ex_mem, integer_log2, pair_ex_mem, proto_list_ex_mem};
use uplc::integer::Integer;

fn decimal(s: &str) -> Integer {
    let mut n = Integer::from_i128(0);
    let ten = Integer::from_i128(10);
    for c in s.chars() {
        let d = c.to_digit(10).unwrap() as i128;
        n = n.multiply(&ten).add(&Integer::from_i128(d));
    }
    n
}

#[test]
fn integer_log2_oracle() {
    assert_eq!(integer_log2(&Integer::from_i128(0)), 0);
    assert_eq!(integer_log2(&Integer::from_i128(1)), 0);
    assert_eq!(integer_log2(&Integer::from_i128(42)), 5);
    assert_eq!(integer_log2(&decimal("18446744073709551615")), 63);
    assert_eq!(integer_log2(&decimal("999999999999999999999999999999")), 99);
    assert_eq!(integer_log2(&decimal("170141183460469231731687303715884105726")), 126);
    assert_eq!(integer_log2(&decimal("170141183460469231731687303715884105727")), 126);
    assert_eq!(integer_log2(&decimal("170141183460469231731687303715884105728")), 127);
    assert_eq!(integer_log2(&decimal("340282366920938463463374607431768211458")), 128);
    assert_eq!(integer_log2(&decimal("999999999999999999999999999999999999999999")), 139);
    assert_eq!(
        integer_log2(&decimal(
            "999999999999999999999999999999999999999999999999999999999999999999999999999999999999"
        )),
        279
    );
}

#[test]
fn list_memory_is_element_count_not_sum_of_sizes() {
    let small_items = vec![Constant::integer_from(1), Constant::integer_from(2), Constant::integer_from(3)];
    assert_eq!(proto_list_ex_mem(&small_items), 3, "List of 3 small ints: memory = count = 3");

    let big = decimal("1000000000000000000000000000000");
    let large_items = vec![
        Constant::integer(big.clone()),
        Constant::integer(big.clone()),
        Constant::integer(big),
    ];
    assert_eq!(proto_list_ex_mem(&large_items), 3, "List of 3 large ints: memory = count = 3");
}

#[test]
fn pair_memory_matches_haskell_sentinel() {
    let small_fst = Constant::integer_from(1);
    let small_snd = Constant::integer_from(2);
    assert_eq!(
        pair_ex_mem(&small_fst, &small_snd),
        i64::MAX,
        "pair_ex_mem should return i64::MAX (maxBound) to match Haskell sentinel"
    );
}

#[test]
fn ex_budget_occurrences_saturates() {
    let mut budget = ExBudget::new(i64::MAX / 100, i64::MAX / 100);
    budget.occurrences(200);
    assert_eq!(budget.mem, i64::MAX, "ExBudget::occurrences should saturate to i64::MAX");
    assert_eq!(budget.cpu, i64::MAX, "ExBudget::occurrences should saturate to i64::MAX");
}

#[test]
fn integer_memory_counts_started_words() {
    assert_eq!(integer_ex_mem(&Integer::from_i128(0)), 1);
    assert_eq!(integer_ex_mem(&Integer::from_i128(-1)), 1);
    assert_eq!(integer_ex_mem(&decimal("18446744073709551615")), 1);
    assert_eq!(integer_ex_mem(&decimal("18446744073709551616")), 2);
    assert_eq!(integer_ex_mem(&decimal("1000000000000000000000000000000")), 2);
}

#[test]
fn occurrences_scales_both_components() {
    let mut budget = ExBudget::new(100, 16000);
    budget.occurrences(3);
    assert_eq!(budget, ExBudget::new(300, 48000));
}

#[test]
fn assert_default_cost_model_v1() {
    let costs: Vec<i64> = vec![
        100788, 420, 1, 1, 1000, 173, 0, 1, 1000, 59957, 4, 1, 11183, 32, 201305, 8356, 4, 16000, 100, 16000, 100, 16000, 100, 16000, 100, 16000, 100, 16000, 100, 100, 100, 16000, 100, 94375, 32, 132994, 32, 61462, 4, 72010, 178, 0, 1, 22151, 32, 91189, 769, 4, 2, 85848, 228465, 122, 0, 1, 1, 1000, 42921, 4, 2, 24548, 29498, 38, 1, 898148, 27279, 1, 51775, 558, 1, 39184, 1000, 60594, 1, 141895, 32, 83150, 32, 15299, 32, 76049, 1, 13169, 4, 22100, 10, 28999, 74, 1, 28999, 74, 1, 43285, 552, 1, 44749, 541, 1, 33852, 32, 68246, 32, 72362, 32, 7243, 32, 7391, 32, 11546, 32, 85848, 228465, 122, 0, 1, 1, 90434, 519, 0, 1, 74433, 32, 85848, 228465, 122, 0, 1, 1, 85848, 228465, 122, 0, 1, 1, 270652, 22588, 4, 1457325, 64566, 4, 20467, 1, 4, 0, 141992, 32, 100788, 420, 1, 1, 81663, 32, 59498, 32, 20142, 32, 24588, 32, 20744, 32, 25933, 32, 24623, 32, 53384111, 14333, 10,
    ];
    assert_eq!(BuiltinCosts::v1(), BuiltinCosts::initialize_builtin_costs(&PlutusVersion::V1, &costs));
}

#[test]
fn assert_default_cost_model_v2() {
    let costs: Vec<i64> = vec![
        100788, 420, 1, 1, 1000, 173, 0, 1, 1000, 59957, 4, 1, 11183, 32, 201305, 8356, 4, 16000, 100, 16000, 100, 16000, 100, 16000, 100, 16000, 100, 16000, 100, 100, 100, 16000, 100, 94375, 32, 132994, 32, 61462, 4, 72010, 178, 0, 1, 22151, 32, 91189, 769, 4, 2, 85848, 228465, 122, 0, 1, 1, 1000, 42921, 4, 2, 24548, 29498, 38, 1, 898148, 27279, 1, 51775, 558, 1, 39184, 1000, 60594, 1, 141895, 32, 83150, 32, 15299, 32, 76049, 1, 13169, 4, 22100, 10, 28999, 74, 1, 28999, 74, 1, 43285, 552, 1, 44749, 541, 1, 33852, 32, 68246, 32, 72362, 32, 7243, 32, 7391, 32, 11546, 32, 85848, 228465, 122, 0, 1, 1, 90434, 519, 0, 1, 74433, 32, 85848, 228465, 122, 0, 1, 1, 85848, 228465, 122, 0, 1, 1, 955506, 213312, 0, 2, 270652, 22588, 4, 1457325, 64566, 4, 20467, 1, 4, 0, 141992, 32, 100788, 420, 1, 1, 81663, 32, 59498, 32, 20142, 32, 24588, 32, 20744, 32, 25933, 32, 24623, 32, 43053543, 10, 53384111, 14333, 10, 43574283, 26308, 10,
    ];
    assert_eq!(BuiltinCosts::v2(), BuiltinCosts::initialize_builtin_costs(&PlutusVersion::V2, &costs));
}

#[test]
fn assert_default_cost_model_v3() {
    let costs: Vec<i64> = vec![
        100788, 420, 1, 1, 1000, 173, 0, 1, 1000, 59957, 4, 1, 11183, 32, 201305, 8356, 4, 16000, 100, 16000, 100, 16000, 100, 16000, 100, 16000, 100, 16000, 100, 100, 100, 16000, 100, 94375, 32, 132994, 32, 61462, 4, 72010, 178, 0, 1, 22151, 32, 91189, 769, 4, 2, 85848, 123203, 7305, -900, 1716, 549, 57, 85848, 0, 1, 1, 1000, 42921, 4, 2, 24548, 29498, 38, 1, 898148, 27279, 1, 51775, 558, 1, 39184, 1000, 60594, 1, 141895, 32, 83150, 32, 15299, 32, 76049, 1, 13169, 4, 22100, 10, 28999, 74, 1, 28999, 74, 1, 43285, 552, 1, 44749, 541, 1, 33852, 32, 68246, 32, 72362, 32, 7243, 32, 7391, 32, 11546, 32, 85848, 123203, 7305, -900, 1716, 549, 57, 85848, 0, 1, 90434, 519, 0, 1, 74433, 32, 85848, 123203, 7305, -900, 1716, 549, 57, 85848, 0, 1, 1, 85848, 123203, 7305, -900, 1716, 549, 57, 85848, 0, 1, 955506, 213312, 0, 2, 270652, 22588, 4, 1457325, 64566, 4, 20467, 1, 4, 0, 141992, 32, 100788, 420, 1, 1, 81663, 32, 59498, 32, 20142, 32, 24588, 32, 20744, 32, 25933, 32, 24623, 32, 43053543, 10, 53384111, 14333, 10, 43574283, 26308, 10, 16000, 100, 16000, 100, 962335, 18, 2780678, 6, 442008, 1, 52538055, 3756, 18, 267929, 18, 76433006, 8868, 18, 52948122, 18, 1995836, 36, 3227919, 12, 901022, 1, 166917843, 4307, 36, 284546, 36, 158221314, 26549, 36, 74698472, 36, 333849714, 1, 254006273, 72, 2174038, 72, 2261318, 64571, 4, 207616, 8310, 4, 1293828, 28716, 63, 0, 1, 1006041, 43623, 251, 0, 1, 100181, 726, 719, 0, 1, 100181, 726, 719, 0, 1, 100181, 726, 719, 0, 1, 107878, 680, 0, 1, 95336, 1, 281145, 18848, 0, 1, 180194, 159, 1, 1, 158519, 8942, 0, 1, 159378, 8813, 0, 1, 107490, 3298, 1, 106057, 655, 1, 1964219, 24520, 3,
    ];
    assert_eq!(BuiltinCosts::v3(), BuiltinCosts::initialize_builtin_costs(&PlutusVersion::V3, &costs));
}

#[test]
fn default_costs_of_some_builtins() {
    let b = BuiltinCosts::v3();
    assert_eq!(b.get_cost("addInteger", &[1, 1]), Some(ExBudget::new(2, 101208)));
    assert_eq!(b.get_cost("multiplyInteger", &[2, 3]), Some(ExBudget::new(5, 90434 + 519 * 6)));
    // Above the diagonal the division costs its constant; on or below it the
    // quadratic, with a minimum.
    assert_eq!(b.get_cost("divideInteger", &[1, 2]), Some(ExBudget::new(1, 85848)));
    assert_eq!(
        b.get_cost("divideInteger", &[3, 2]),
        Some(ExBudget::new(1, 123203 + 1716 * 3 + 7305 * 2 + 57 * 9 + 549 * 6 - 900 * 4))
    );
    assert_eq!(b.get_cost("sha2_256", &[10]), Some(ExBudget::new(4, 270652 + 22588 * 10)));
    assert_eq!(b.get_cost("ifThenElse", &[1, 1, 1]), Some(ExBudget::new(1, 76049)));
    assert_eq!(b.get_cost("noSuchBuiltin", &[1]), None);
    // The first version divides with a cost on multiplied sizes.
    let b1 = BuiltinCosts::v1();
    assert_eq!(b1.get_cost("divideInteger", &[3, 2]), Some(ExBudget::new(1, 228465 + 122 * 6)));
}

#[test]
fn initialize_cost_model_reads_parameters() {
    let mut costs: Vec<i64> = vec![
        100788, 420, 1, 1, 1000, 173, 0, 1, 1000, 59957, 4, 1, 11183, 32, 201305, 8356, 4, 16000, 100, 16000, 100, 16000, 100, 16000, 100, 16000, 100, 16000, 100, 100, 100, 16000, 100, 94375, 32, 132994, 32, 61462, 4, 72010, 178, 0, 1, 22151, 32, 91189, 769, 4, 2, 85848, 123203, 7305, -900, 1716, 549, 57, 85848, 0, 1, 1, 1000, 42921, 4, 2, 24548, 29498, 38, 1, 898148, 27279, 1, 51775, 558, 1, 39184, 1000, 60594, 1, 141895, 32, 83150, 32, 15299, 32, 76049, 1, 13169, 4, 22100, 10, 28999, 74, 1, 28999, 74, 1, 43285, 552, 1, 44749, 541, 1, 33852, 32, 68246, 32, 72362, 32, 7243, 32, 7391, 32, 11546, 32, 85848, 123203, 7305, -900, 1716, 549, 57, 85848, 0, 1, 90434, 519, 0, 1, 74433, 32, 85848, 123203, 7305, -900, 1716, 549, 57, 85848, 0, 1, 1, 85848, 123203, 7305, -900, 1716, 549, 57, 85848, 0, 1, 955506, 213312, 0, 2, 270652, 22588, 4, 1457325, 64566, 4, 20467, 1, 4, 0, 141992, 32, 100788, 420, 1, 1, 81663, 32, 59498, 32, 20142, 32, 24588, 32, 20744, 32, 25933, 32, 24623, 32, 43053543, 10, 53384111, 14333, 10, 43574283, 26308, 10, 16000, 100, 16000, 100, 962335, 18, 2780678, 6, 442008, 1, 52538055, 3756, 18, 267929, 18, 76433006, 8868, 18, 52948122, 18, 1995836, 36, 3227919, 12, 901022, 1, 166917843, 4307, 36, 284546, 36, 158221314, 26549, 36, 74698472, 36, 333849714, 1, 254006273, 72, 2174038, 72, 2261318, 64571, 4, 207616, 8310, 4, 1293828, 28716, 63, 0, 1, 1006041, 43623, 251, 0, 1, 100181, 726, 719, 0, 1, 100181, 726, 719, 0, 1, 100181, 726, 719, 0, 1, 107878, 680, 0, 1, 95336, 1, 281145, 18848, 0, 1, 180194, 159, 1, 1, 158519, 8942, 0, 1, 159378, 8813, 0, 1, 107490, 3298, 1, 106057, 655, 1, 1964219, 24520, 3,
    ];
    // addInteger's CPU intercept, then the start-up CPU cost.
    costs[0] = 5;
    costs[29] = 7;
    costs[17] = 11;
    let m = CostModel::initialize_cost_model(&PlutusVersion::V3, &costs);
    assert_eq!(m.builtin_costs.get_cost("addInteger", &[1, 1]), Some(ExBudget::new(2, 5 + 420)));
    assert_eq!(m.machine_startup, ExBudget::new(100, 7));
    // apply steps
    assert_eq!(m.machine_costs.get(3), ExBudget::new(100, 11));
    assert_eq!(m.machine_costs.get(0), ExBudget::new(100, 16000));
    // A short list keeps the defaults for what it does not reach.
    let short = CostModel::initialize_cost_model(&PlutusVersion::V3, &[]);
    assert_eq!(short.builtin_costs, BuiltinCosts::v3());
    assert_eq!(short.machine_costs, MachineCosts::new());
}
