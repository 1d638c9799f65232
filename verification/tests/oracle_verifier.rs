//! The oracle verifier, request by request.

use parashield::oracle_verifier::median::{median_of, middle_values};
use parashield::oracle_verifier::types::{
    AggregatedData, Effect, Error, Event, OracleDataPoint, OracleDataSubmission, TriggerComparison,
    TriggerCondition,
};
use parashield::oracle_verifier::OracleVerifier;
use parashield::text::{Addr, Sym};

const T0: u64 = 1_748_736_000;
const MAX_ORACLES: u32 = 100;

fn address(kind: u8, n: u8) -> Addr {
    let mut text = [b'A'; 56];
    text[0] = kind;
    text[54] = b'A' + n / 26;
    text[55] = b'A' + n % 26;
    Addr::new(&text).unwrap()
}

fn sym(text: &str) -> Sym {
    Sym::new(text.as_bytes()).unwrap()
}

fn weather() -> Sym {
    sym("weather")
}

fn kisumu_key() -> Sym {
    sym("kis2606")
}

struct World {
    verifier: OracleVerifier,
    admin: Addr,
    now: u64,
    made: u8,
}

impl World {
    fn new() -> World {
        let admin = address(b'C', 200);
        let mut verifier = OracleVerifier::new();
        assert_eq!(verifier.initialize(admin), Ok(()));
        World { verifier, admin, now: T0, made: 0 }
    }

    fn generate(&mut self) -> Addr {
        self.made += 1;
        address(b'C', self.made)
    }

    fn add(&mut self, weight: u32) -> Addr {
        let oracle = self.generate();
        self.verifier.add_oracle(self.admin, oracle, weather(), weight).unwrap();
        oracle
    }

    fn submit(&mut self, oracle: Addr, value: i128, confidence: u32, timestamp: u64) -> Result<(), Error> {
        self.verifier.submit_data(self.now, oracle, weather(), kisumu_key(), value, confidence, timestamp)
    }

    fn aggregated(&self) -> Result<AggregatedData, Error> {
        self.verifier.get_aggregated(self.now, weather(), kisumu_key())
    }

    fn verify(&self, condition: TriggerCondition) -> Result<bool, Error> {
        self.verifier.verify_trigger(self.now, weather(), kisumu_key(), condition)
    }
}

fn condition(comparison: TriggerComparison, threshold: i128, tolerance: i128) -> TriggerCondition {
    TriggerCondition { data_type: weather(), key: kisumu_key(), threshold, comparison, tolerance }
}

fn below(threshold: i128) -> TriggerCondition {
    condition(TriggerComparison::LessThan, threshold, 0)
}

fn code<T: std::fmt::Debug>(r: Result<T, Error>) -> u32 {
    r.unwrap_err().code()
}

// ── Initialization ────────────────────────────────────────────────────────────

#[test]
fn test_initialize_sets_admin() {
    let w = World::new();
    assert_eq!(w.verifier.get_admin(), Ok(w.admin));
}

#[test]
fn test_initialize_allows_contract_admin() {
    let admin = address(b'C', 9);
    let mut v = OracleVerifier::new();
    v.initialize(admin).unwrap();
    assert_eq!(v.get_admin(), Ok(admin));
}

#[test]
fn test_double_initialize_panics() {
    let mut w = World::new();
    let r = w.verifier.initialize(w.admin);
    assert_eq!(code(r), 1);
}

#[test]
fn test_initialize_validates_admin_address() {
    let admin = address(b'G', 3);
    let mut v = OracleVerifier::new();
    v.initialize(admin).unwrap();
    assert_eq!(v.get_admin(), Ok(admin));
}

#[test]
fn addresses_are_checked() {
    let mut v = OracleVerifier::new();
    assert_eq!(v.get_admin(), Err(Error::NotInitialized));
    let short = Addr::new(b"GABC").unwrap();
    assert_eq!(v.initialize(short), Err(Error::InvalidAddress));
    assert_eq!(v.initialize(address(b'M', 1)), Err(Error::InvalidAddress));
    assert_eq!(OracleVerifier::validate_stellar_address(&address(b'G', 1)), Ok(()));
    assert_eq!(code(OracleVerifier::validate_stellar_address(&short)), 12);
    let mut w = World::new();
    let r = w.verifier.add_oracle(w.admin, short, weather(), 5);
    assert_eq!(r, Err(Error::InvalidAddress));
    assert_eq!(w.verifier.propose_new_admin(0, w.admin, short), Err(Error::InvalidAddress));
}

// ── Oracle registration ───────────────────────────────────────────────────────

#[test]
fn test_add_oracle_and_list() {
    let mut w = World::new();
    w.add(50);
    assert_eq!(w.verifier.get_oracles(weather()).len(), 1);
}

#[test]
fn test_add_oracle_validates_oracle_address() {
    let mut w = World::new();
    let oracle = w.add(80);
    assert_eq!(w.verifier.get_oracles(weather()).len(), 1);
    assert_eq!(w.verifier.get_oracles(weather())[0], oracle);
}

#[test]
fn test_non_admin_cannot_add_oracle() {
    let mut w = World::new();
    let (impostor, oracle) = (w.generate(), w.generate());
    let r = w.verifier.add_oracle(impostor, oracle, weather(), 50);
    assert_eq!(code(r), 3);
}

#[test]
fn test_cannot_reregister_oracle_with_different_weight() {
    let mut w = World::new();
    let oracle = w.add(50);
    let r = w.verifier.add_oracle(w.admin, oracle, weather(), 80);
    assert_eq!(code(r), 5);
}

#[test]
fn test_update_oracle_weight_changes_aggregation() {
    let mut w = World::new();
    let (o1, o2, o3) = (w.add(60), w.add(20), w.add(20));
    w.submit(o1, 10, 100, T0).unwrap();
    w.submit(o2, 20, 100, T0).unwrap();
    w.submit(o3, 30, 100, T0).unwrap();
    assert_eq!(w.aggregated().unwrap().median_value, 10);
    w.verifier.update_oracle_weight(w.admin, o1, weather(), 10).unwrap();
    assert_eq!(w.aggregated().unwrap().median_value, 20);
}

#[test]
fn test_cannot_update_unregistered_oracle_weight() {
    let mut w = World::new();
    let oracle = w.generate();
    let r = w.verifier.update_oracle_weight(w.admin, oracle, weather(), 80);
    assert_eq!(code(r), 4);
}

#[test]
fn test_add_oracle_with_zero_weight_rejected() {
    let mut w = World::new();
    let oracle = w.generate();
    let r = w.verifier.add_oracle(w.admin, oracle, weather(), 0);
    assert_eq!(code(r), 8);
}

#[test]
fn weights_are_one_to_a_hundred() {
    let mut w = World::new();
    let oracle = w.generate();
    assert_eq!(w.verifier.add_oracle(w.admin, oracle, weather(), 101), Err(Error::InvalidWeight));
    w.verifier.add_oracle(w.admin, oracle, weather(), 100).unwrap();
    for weight in [0, 101] {
        let r = w.verifier.update_oracle_weight(w.admin, oracle, weather(), weight);
        assert_eq!(r, Err(Error::InvalidWeight));
    }
    w.verifier.update_oracle_weight(w.admin, oracle, weather(), 1).unwrap();
}

#[test]
fn test_non_admin_cannot_update_oracle_weight() {
    let mut w = World::new();
    let oracle = w.add(50);
    let impostor = w.generate();
    let r = w.verifier.update_oracle_weight(impostor, oracle, weather(), 80);
    assert_eq!(code(r), 3);
}

#[test]
fn test_remove_oracle_deactivates() {
    let mut w = World::new();
    let (o1, o2) = (w.add(80), w.add(80));
    w.submit(o1, 10_000_000, 90, T0).unwrap();
    w.submit(o2, 50_000_000, 90, T0).unwrap();
    let before = w.aggregated().unwrap();
    assert_eq!(before.oracle_count, 2);
    assert_eq!(before.median_value, 30_000_000); // (10M + 50M) / 2
    w.verifier.remove_oracle(w.admin, o1, weather()).unwrap();
    let after = w.aggregated().unwrap();
    assert_eq!(after.oracle_count, 1);
    assert_eq!(after.median_value, 50_000_000);
}

#[test]
fn test_remove_oracle_prunes_oracle_list() {
    let mut w = World::new();
    let (o1, o2) = (w.add(80), w.add(80));
    assert_eq!(w.verifier.get_oracles(weather()).len(), 2);
    w.verifier.remove_oracle(w.admin, o1, weather()).unwrap();
    let remaining = w.verifier.get_oracles(weather());
    assert_eq!(remaining.len(), 1);
    assert_eq!(remaining[0], o2);
    let stranger = w.generate();
    assert_eq!(w.verifier.remove_oracle(w.admin, stranger, weather()), Err(Error::OracleNotRegistered));
}

#[test]
fn test_active_oracle_count_reflects_registrations_not_submissions() {
    let mut w = World::new();
    let (o1, o2, o3) = (w.add(80), w.add(80), w.add(80));
    w.submit(o1, 10_000_000, 90, T0).unwrap();
    w.submit(o2, 50_000_000, 90, T0).unwrap();
    let agg = w.aggregated().unwrap();
    assert_eq!(agg.oracle_count, 2, "oracle_count is submissions for this key");
    assert_eq!(agg.active_oracle_count, 3, "active_oracle_count is all active registrations");
    w.verifier.remove_oracle(w.admin, o3, weather()).unwrap();
    let after = w.aggregated().unwrap();
    assert_eq!(after.oracle_count, 2);
    assert_eq!(after.active_oracle_count, 2);
}

#[test]
fn test_removed_oracle_cannot_submit() {
    let mut w = World::new();
    let oracle = w.add(80);
    w.verifier.remove_oracle(w.admin, oracle, weather()).unwrap();
    let r = w.submit(oracle, 10_000_000, 90, T0);
    assert_eq!(code(r), 3);
}

#[test]
fn test_deregistered_oracle_cannot_submit() {
    let mut w = World::new();
    let oracle = w.generate();
    let r = w.submit(oracle, 20_000_000, 90, T0);
    assert_eq!(code(r), 4);
}

#[test]
fn test_set_min_confidence() {
    let mut w = World::new();
    w.verifier.set_min_confidence(w.admin, 50).unwrap();
    assert_eq!(w.verifier.min_confidence, Some(50));
}

#[test]
fn test_set_min_confidence_invalid() {
    let mut w = World::new();
    let r = w.verifier.set_min_confidence(w.admin, 101);
    assert_eq!(code(r), 7);
}

#[test]
fn test_set_min_confidence_unauthorized() {
    let mut w = World::new();
    let impostor = w.generate();
    let r = w.verifier.set_min_confidence(impostor, 50);
    assert_eq!(code(r), 3);
}

// ── Data submission ───────────────────────────────────────────────────────────

#[test]
fn test_authorized_oracle_can_submit() {
    let mut w = World::new();
    let oracle = w.add(90);
    w.submit(oracle, 32_000_000, 95, T0).unwrap();
    let point = w.verifier.get_data(w.now, weather(), kisumu_key()).unwrap();
    assert_eq!(point.value, 32_000_000);
    assert_eq!(point.confidence, 95);
    assert_eq!(point.oracle, oracle);
    assert!(w.verifier.outbox.contains(&Effect::RequireAuth(oracle)));
}

#[test]
fn test_unregistered_oracle_cannot_submit() {
    let mut w = World::new();
    let stranger = w.generate();
    let r = w.submit(stranger, 32_000_000, 95, T0);
    assert_eq!(code(r), 4);
}

#[test]
fn test_submit_data_zero_confidence() {
    let mut w = World::new();
    let oracle = w.add(90);
    let r = w.submit(oracle, 32_000_000, 0, T0);
    assert_eq!(code(r), 7);
}

#[test]
fn test_submit_data_over_100_confidence() {
    let mut w = World::new();
    let oracle = w.add(90);
    let r = w.submit(oracle, 32_000_000, 101, T0);
    assert_eq!(code(r), 7);
}

#[test]
fn timestamps_are_neither_future_nor_ancient() {
    let mut w = World::new();
    let oracle = w.add(90);
    assert_eq!(code(w.submit(oracle, 1, 50, T0 + 1)), 11);
    let ninety_days = 90 * 24 * 60 * 60;
    assert_eq!(w.submit(oracle, 1, 50, T0 - ninety_days - 1), Err(Error::InvalidTimestamp));
    assert_eq!(w.submit(oracle, 1, 50, T0 - ninety_days), Ok(()));
    w.now = 5;
    assert_eq!(w.submit(oracle, 1, 50, 0), Ok(()));
}

#[test]
fn test_duplicate_submission_overwrites() {
    let mut w = World::new();
    let timestamp = 1_748_822_400;
    let oracle = w.add(100);
    w.now = timestamp;
    w.submit(oracle, 28_000_000, 85, timestamp).unwrap();
    w.submit(oracle, 32_000_000, 90, timestamp).unwrap();
    assert_eq!(w.aggregated().unwrap().oracle_count, 1);
    assert_eq!(w.aggregated().unwrap().median_value, 32_000_000);
}

#[test]
fn test_aggregated_confidence_uses_weighted_average() {
    let mut w = World::new();
    w.now = 1_748_822_400;
    let (o1, o2) = (w.add(50), w.add(50));
    w.submit(o1, 95_000_000, 95, T0).unwrap();
    w.submit(o2, 10_000_000, 10, 1_748_822_400).unwrap();
    let agg = w.aggregated().unwrap();
    assert_eq!(agg.confidence, 52);
    assert_eq!(agg.min_confidence, 10);
    assert_eq!(agg.last_updated, 1_748_822_400);
}

// ── verify_trigger ────────────────────────────────────────────────────────────

#[test]
fn test_verify_trigger_less_than_met() {
    let mut w = World::new();
    let oracle = w.add(90);
    // 32mm observed, threshold 50mm: trigger met (drought)
    w.submit(oracle, 32_000_000, 95, T0).unwrap();
    assert_eq!(w.verify(below(50_000_000)), Ok(true));
}

#[test]
fn test_verify_trigger_less_than_not_met() {
    let mut w = World::new();
    let oracle = w.add(90);
    // 72mm observed: above threshold, no drought
    w.submit(oracle, 72_000_000, 95, T0).unwrap();
    assert_eq!(w.verify(below(50_000_000)), Ok(false));
}

#[test]
fn test_verify_trigger_greater_than() {
    let mut w = World::new();
    let (wind, key) = (sym("wind"), sym("sto2606"));
    let oracle = w.generate();
    w.verifier.add_oracle(w.admin, oracle, wind, 80).unwrap();
    // 150 km/h wind speed > 120 threshold: trigger met
    w.verifier.submit_data(w.now, oracle, wind, key, 1_500_000_000, 90, T0).unwrap();
    let c = TriggerCondition {
        data_type: wind,
        key,
        threshold: 1_200_000_000,
        comparison: TriggerComparison::GreaterThan,
        tolerance: 0,
    };
    assert_eq!(w.verifier.verify_trigger(w.now, wind, key, c), Ok(true));
}

#[test]
fn test_verify_trigger_skips_low_confidence() {
    let mut w = World::new();
    let (o1, o2, o3) = (w.add(100), w.add(100), w.add(100));
    w.verifier.set_min_confidence(w.admin, 80).unwrap();
    w.submit(o1, 10_000_000, 90, T0).unwrap();
    w.submit(o2, 90_000_000, 60, T0).unwrap();
    w.submit(o3, 15_000_000, 85, T0).unwrap();
    // Only two valid points left (10mm, 15mm): median = 12.5mm
    assert_eq!(w.aggregated().unwrap().median_value, 12_500_000);
    let c = condition(TriggerComparison::GreaterThan, 40_000_000, 0);
    assert_eq!(w.verify(c), Ok(false));
}

#[test]
fn an_equal_trigger_compares_exactly() {
    let mut w = World::new();
    let oracle = w.add(90);
    w.submit(oracle, 7, 95, T0).unwrap();
    assert_eq!(w.verify(condition(TriggerComparison::Equal, 7, 0)), Ok(true));
    assert_eq!(w.verify(condition(TriggerComparison::Equal, 8, 100)), Ok(false));
    assert_eq!(w.verify(condition(TriggerComparison::EqualWithTolerance, 9, 2)), Ok(true));
    assert_eq!(w.verify(condition(TriggerComparison::EqualWithTolerance, 5, 2)), Ok(true));
    assert_eq!(w.verify(condition(TriggerComparison::EqualWithTolerance, 10, 2)), Ok(false));
}

// ── Multi-oracle median ───────────────────────────────────────────────────────

#[test]
fn test_multi_oracle_median() {
    let mut w = World::new();
    let (o1, o2, o3) = (w.add(80), w.add(80), w.add(80));
    // Three submissions: 30mm, 34mm, 38mm: median = 34mm
    w.submit(o1, 30_000_000, 90, T0).unwrap();
    w.submit(o2, 34_000_000, 90, T0).unwrap();
    w.submit(o3, 38_000_000, 90, T0).unwrap();
    let agg = w.aggregated().unwrap();
    assert_eq!(agg.oracle_count, 3);
    assert_eq!(agg.median_value, 34_000_000);
}

#[test]
fn test_median_even_count() {
    let mut w = World::new();
    let (o1, o2) = (w.add(80), w.add(80));
    // Two submissions: 30mm, 40mm: median = 35mm
    w.submit(o1, 30_000_000, 90, T0).unwrap();
    w.submit(o2, 40_000_000, 90, T0).unwrap();
    assert_eq!(w.aggregated().unwrap().median_value, 35_000_000);
}

#[test]
fn medians_of_readings() {
    assert_eq!(median_of(&vec![(5, 1)]), 5);
    assert_eq!(median_of(&vec![(9, 1), (1, 1), (5, 1)]), 5);
    assert_eq!(median_of(&vec![(-3, 1), (-4, 1)]), -3); // toward zero
    assert_eq!(median_of(&vec![(1, 3), (100, 1), (50, 1)]), 1);
    assert_eq!(median_of(&vec![(1, 2), (100, 1), (50, 1)]), 25);
    assert_eq!(median_of(&vec![(7, 1), (7, 1), (7, 2)]), 7);
    assert_eq!(median_of(&vec![(i128::MAX, 1), (i128::MAX, 1)]), i128::MAX);
    assert_eq!(middle_values(&vec![(4, 1), (2, 1), (8, 1), (6, 1)]), (4, 6));
}

#[test]
fn outliers_in_the_minority_do_not_move_the_median() {
    for outlier in [i128::MIN, -1, 0, 35, 1_000_000_000, i128::MAX] {
        let m = median_of(&vec![(30, 20), (outlier, 50), (34, 20), (38, 20)]);
        assert!((30..=38).contains(&m));
    }
}

#[test]
fn medians_that_cannot_be_added_up_are_noticed() {
    let mut w = World::new();
    let (o1, o2) = (w.add(5), w.add(5));
    w.submit(o1, i128::MAX, 90, T0).unwrap();
    assert!(w.verifier.median_computable(w.now, weather(), kisumu_key()));
    w.submit(o2, i128::MAX - 1, 90, T0).unwrap();
    assert!(!w.verifier.median_computable(w.now, weather(), kisumu_key()));
    w.submit(o2, i128::MAX, 90, T0).unwrap();
    assert!(w.verifier.median_computable(w.now, weather(), kisumu_key()));
    assert_eq!(w.verifier.get_median_value(w.now, weather(), kisumu_key()), Ok(i128::MAX));
    assert!(w.verifier.median_computable(w.now, weather(), sym("none")));
}

#[test]
fn three_oracle_median_is_middle_value() {
    let mut w = World::new();
    let (o1, o2, o3) = (w.add(90), w.add(80), w.add(70));
    w.now = 1;
    w.submit(o1, 10_000_000, 90, 1).unwrap();
    w.submit(o2, 30_000_000, 90, 1).unwrap();
    w.submit(o3, 20_000_000, 90, 1).unwrap();
    // sorted: [10, 20, 30], middle = 20
    assert_eq!(w.aggregated().unwrap().median_value, 20_000_000);
}

#[test]
fn deactivated_oracle_cannot_submit() {
    let mut w = World::new();
    let oracle = w.add(90);
    w.verifier.remove_oracle(w.admin, oracle, weather()).unwrap();
    w.now = 1;
    assert_eq!(code(w.submit(oracle, 10_000_000, 90, 1)), 3);
}

#[test]
fn overwrite_submission_updates_value() {
    let mut w = World::new();
    let oracle = w.add(90);
    w.now = 100;
    w.submit(oracle, 10_000_000, 90, 100).unwrap();
    w.now = 200;
    w.submit(oracle, 25_000_000, 95, 200).unwrap();
    let dp = w.verifier.get_data(w.now, weather(), kisumu_key()).unwrap();
    assert_eq!(dp.value, 25_000_000);
    assert_eq!(dp.confidence, 95);
    assert_eq!(w.aggregated().unwrap().oracle_count, 1);
}

#[test]
fn even_count_median_is_average_of_middle_two() {
    let mut w = World::new();
    let (o1, o2) = (w.add(50), w.add(50));
    w.now = 1;
    w.submit(o1, 10_000_000, 90, 1).unwrap();
    w.now = 2;
    w.submit(o2, 30_000_000, 80, 2).unwrap();
    assert_eq!(w.aggregated().unwrap().median_value, 20_000_000);
}

#[test]
fn test_weighted_median() {
    let mut w = World::new();
    let (o1, o2) = (w.add(90), w.add(10));
    w.now = 1;
    w.submit(o1, 100_000_000, 90, 1).unwrap();
    w.now = 2;
    w.submit(o2, 50_000_000, 90, 2).unwrap();
    assert_eq!(w.aggregated().unwrap().median_value, 100_000_000);
}

#[test]
fn verify_trigger_greater_than() {
    let mut w = World::new();
    let oracle = w.add(90);
    w.now = 1;
    w.submit(oracle, 80_000_000, 90, 1).unwrap();
    assert_eq!(w.verify(condition(TriggerComparison::GreaterThan, 50_000_000, 0)), Ok(true));
}

#[test]
fn verify_trigger_equal_with_tolerance_success() {
    let mut w = World::new();
    let (o1, o2, o3) = (w.add(50), w.add(50), w.add(50));
    w.now = 1;
    w.submit(o1, 499_000_000, 90, 1).unwrap();
    w.submit(o2, 501_000_000, 90, 1).unwrap();
    w.submit(o3, 500_500_000, 90, 1).unwrap();
    let c = condition(TriggerComparison::EqualWithTolerance, 500_000_000, 1_000_000);
    assert_eq!(w.verify(c), Ok(true));
}

#[test]
fn verify_trigger_equal_with_tolerance_failure_outside_range() {
    let mut w = World::new();
    let oracle = w.add(50);
    w.now = 1;
    w.submit(oracle, 502_000_000, 90, 1).unwrap();
    let c = condition(TriggerComparison::EqualWithTolerance, 500_000_000, 1_000_000);
    assert_eq!(w.verify(c), Ok(false));
}

#[test]
fn test_verify_trigger_panics_when_no_submissions() {
    let mut w = World::new();
    w.add(90);
    assert_eq!(code(w.verify(below(50_000_000))), 6);
}

#[test]
fn test_get_aggregated_panics_when_no_submissions() {
    let mut w = World::new();
    w.add(80);
    assert_eq!(code(w.aggregated()), 6);
}

#[test]
fn test_verify_trigger_panics_when_all_oracles_deactivated() {
    let mut w = World::new();
    let oracle = w.add(90);
    w.now = 1;
    w.submit(oracle, 30_000_000, 90, 1).unwrap();
    w.verifier.remove_oracle(w.admin, oracle, weather()).unwrap();
    assert_eq!(code(w.verify(below(50_000_000))), 6);
}

// ── Staleness and batches ─────────────────────────────────────────────────────

#[test]
fn verify_trigger_fresh_passes_with_current_data() {
    let mut w = World::new();
    let oracle = w.add(90);
    w.submit(oracle, 30_000_000, 95, w.now).unwrap();
    // data is fresh (age = 0s), max_age = 3600s
    let r = w.verifier.verify_trigger_fresh(w.now, weather(), kisumu_key(), below(50_000_000), 3600);
    assert_eq!(r, Ok(true));
    assert_eq!(
        w.verifier.outbox.last(),
        Some(&Effect::Emit(Event::VerificationResult {
            data_type: weather(),
            key: kisumu_key(),
            result: true,
            median: 30_000_000,
            threshold: 50_000_000,
        }))
    );
}

#[test]
fn verify_trigger_fresh_rejects_stale_data() {
    let mut w = World::new();
    w.now = 100;
    let oracle = w.add(90);
    // Submitted at t=100, verified more than 24h later
    w.submit(oracle, 30_000_000, 95, 100).unwrap();
    w.now = 100 + 86_401;
    let sent = w.verifier.outbox.len();
    let r = w.verifier.verify_trigger_fresh(w.now, weather(), kisumu_key(), below(50_000_000), 86_400);
    assert_eq!(code(r), 9);
    assert_eq!(w.verifier.outbox.len(), sent);
    let r = w.verifier.verify_trigger_fresh(w.now, weather(), sym("none"), below(1), 86_400);
    assert_eq!(r, Err(Error::NoDataAvailable));
}

#[test]
fn batch_submit_data_stores_all_keys() {
    let mut w = World::new();
    let oracle = w.add(90);
    let flight_key = sym("flightKQ");
    let subs = vec![
        (kisumu_key(), 30_000_000, 90, 1_748_736_000),
        (flight_key, 120_000_000, 85, 1_748_736_000),
    ];
    w.verifier.batch_submit_data(w.now, oracle, weather(), &subs).unwrap();
    let dp1 = w.verifier.get_data(w.now, weather(), kisumu_key()).unwrap();
    let dp2 = w.verifier.get_data(w.now, weather(), flight_key).unwrap();
    assert_eq!(dp1.value, 30_000_000);
    assert_eq!(dp2.value, 120_000_000);
}

#[test]
fn a_batch_stores_all_or_nothing() {
    let mut w = World::new();
    let oracle = w.add(90);
    let sub = |key: &str, confidence: u32, timestamp: u64| OracleDataSubmission {
        key: sym(key),
        value: 5,
        confidence,
        timestamp,
    };
    let stranger = w.generate();
    assert_eq!(
        w.verifier.submit_data_batch(w.now, stranger, weather(), &vec![]),
        Err(Error::OracleNotRegistered)
    );
    let bad = vec![sub("aaa", 50, T0), sub("bbb", 101, T0), sub("ccc", 50, T0 + 9)];
    assert_eq!(
        w.verifier.submit_data_batch(w.now, oracle, weather(), &bad),
        Err(Error::InvalidConfidence)
    );
    assert_eq!(w.verifier.get_data(w.now, weather(), sym("aaa")), Err(Error::NoDataAvailable));
    let late = vec![sub("ccc", 50, T0 + 9)];
    assert_eq!(
        w.verifier.submit_data_batch(w.now, oracle, weather(), &late),
        Err(Error::InvalidTimestamp)
    );
    // an old reading is refused in one form of the batch and taken in the other
    let old = T0 - 91 * 24 * 60 * 60;
    let r = w.verifier.batch_submit_data(w.now, oracle, weather(), &vec![(sym("old"), 5, 50, old)]);
    assert_eq!(r, Err(Error::InvalidTimestamp));
    w.verifier.submit_data_batch(w.now, oracle, weather(), &vec![sub("old", 50, old)]).unwrap();
    // a second reading takes the place of the first
    let twice = vec![sub("aaa", 50, T0), OracleDataSubmission { value: 9, ..sub("aaa", 60, T0) }];
    w.verifier.submit_data_batch(w.now, oracle, weather(), &twice).unwrap();
    let agg = w.verifier.get_aggregated(w.now, weather(), sym("aaa")).unwrap();
    assert_eq!((agg.oracle_count, agg.median_value, agg.confidence), (1, 9, 60));
    w.verifier.remove_oracle(w.admin, oracle, weather()).unwrap();
    assert_eq!(
        w.verifier.submit_data_batch(w.now, oracle, weather(), &vec![]),
        Err(Error::Unauthorized)
    );
}

#[test]
fn a_submission_drops_what_no_longer_counts() {
    let mut w = World::new();
    let (o1, o2, o3) = (w.add(10), w.add(10), w.add(10));
    w.submit(o1, 1, 50, T0).unwrap();
    w.submit(o2, 2, 50, T0).unwrap();
    w.verifier.remove_oracle(w.admin, o2, weather()).unwrap();
    w.submit(o3, 3, 50, T0).unwrap();
    assert_eq!(w.aggregated().unwrap().oracle_count, 2);
    w.now = T0 + 604_801;
    w.submit(o3, 4, 50, w.now).unwrap();
    assert_eq!(w.aggregated().unwrap().oracle_count, 1);
    let point = OracleDataPoint { oracle: o3, value: 4, confidence: 50, timestamp: w.now };
    assert_eq!(w.verifier.get_data(w.now, weather(), kisumu_key()), Ok(point));
}

// ── Oracle cap and aggregation at the limits ──────────────────────────────────

#[test]
fn test_max_oracles_no_overflow() {
    let mut w = World::new();
    let big_value: i128 = 1_000_000_000_000_000;
    for _ in 0..MAX_ORACLES {
        let oracle = w.add(100);
        w.submit(oracle, big_value, 100, 1_748_736_000).unwrap();
    }
    assert_eq!(w.verifier.get_oracles(weather()).len(), MAX_ORACLES as usize);
    let agg = w.aggregated().unwrap();
    assert_eq!(agg.oracle_count, MAX_ORACLES);
    assert_eq!(agg.median_value, big_value);
}

#[test]
fn test_oracle_cap_rejects_extra() {
    let mut w = World::new();
    for _ in 0..MAX_ORACLES {
        w.add(100);
    }
    let extra = w.generate();
    let r = w.verifier.add_oracle(w.admin, extra, weather(), 100);
    assert_eq!(code(r), 10);
}

#[test]
fn test_get_and_set_max_data_age() {
    let mut w = World::new();
    assert_eq!(w.verifier.get_max_data_age(), 604_800);
    w.verifier.set_max_data_age(w.admin, 604_800).unwrap();
    assert_eq!(w.verifier.get_max_data_age(), 604_800);
    w.verifier.set_max_data_age(w.admin, 86_400).unwrap();
    assert_eq!(w.verifier.get_max_data_age(), 86_400);
}

#[test]
fn test_verify_trigger_rejects_stale_data() {
    let mut w = World::new();
    w.verifier.set_max_data_age(w.admin, 604_800).unwrap();
    let oracle = w.add(100);
    let t0 = 1_000_000;
    w.now = t0;
    w.submit(oracle, 30_000_000, 90, t0).unwrap();
    w.now = t0 + 3600;
    assert_eq!(w.verify(below(50_000_000)), Ok(true));
    // eight days later there is no usable data
    w.now = t0 + 691_200;
    assert_eq!(code(w.verify(below(50_000_000))), 6);
    assert_eq!(w.verifier.get_data(w.now, weather(), kisumu_key()), Err(Error::NoDataAvailable));
}

#[test]
fn test_min_oracle_count_enforcement() {
    let mut w = World::new();
    let oracle = w.add(100);
    assert_eq!(w.verifier.get_min_oracle_count(), 1);
    w.verifier.set_min_oracle_count(w.admin, 3).unwrap();
    assert_eq!(w.verifier.get_min_oracle_count(), 3);
    w.submit(oracle, 30_000_000, 90, w.now).unwrap();
    // 1 < 3
    assert!(w.verify(below(50_000_000)).is_err());
}

#[test]
fn test_stale_data_rejection() {
    let mut w = World::new();
    let oracle = w.add(100);
    let t0 = 1_000_000;
    w.now = t0;
    w.submit(oracle, 30_000_000, 90, t0).unwrap();
    w.now = t0 + 604_801;
    assert_eq!(code(w.verify(below(50_000_000))), 6);
}

#[test]
fn test_reject_when_fewer_than_min_oracle_count_submit() {
    let mut w = World::new();
    let (o1, o2, o3) = (w.add(80), w.add(80), w.add(80));
    w.verifier.set_min_oracle_count(w.admin, 3).unwrap();
    w.submit(o1, 30_000_000, 90, w.now).unwrap();
    w.submit(o2, 35_000_000, 90, w.now).unwrap();
    assert!(w.verify(below(50_000_000)).is_err());
    w.submit(o3, 40_000_000, 90, w.now).unwrap();
    // the median is 35mm (30, 35, 40) < 50mm
    assert_eq!(w.verify(below(50_000_000)), Ok(true));
}

// ── Admin transfer and upgrade ────────────────────────────────────────────────

#[test]
fn accept_admin_rejected_before_timelock() {
    let mut w = World::new();
    let new_admin = w.generate();
    w.verifier.propose_new_admin(w.now, w.admin, new_admin).unwrap();
    assert_eq!(code(w.verifier.accept_admin(w.now, new_admin)), 23);
}

#[test]
fn accept_admin_succeeds_after_timelock() {
    let mut w = World::new();
    let new_admin = w.generate();
    w.verifier.propose_new_admin(w.now, w.admin, new_admin).unwrap();
    assert_eq!(w.verifier.get_pending_admin_since(), w.now);
    w.now += 48 * 60 * 60 + 1;
    w.verifier.accept_admin(w.now, new_admin).unwrap();
    assert_eq!(w.verifier.get_admin(), Ok(new_admin));
    assert_eq!(w.verifier.get_pending_admin_since(), 0);
}

#[test]
fn only_the_proposed_admin_can_accept() {
    let mut w = World::new();
    let (next, other) = (w.generate(), w.generate());
    assert_eq!(w.verifier.accept_admin(0, next), Err(Error::Unauthorized));
    assert_eq!(w.verifier.propose_new_admin(0, other, next), Err(Error::Unauthorized));
    w.verifier.propose_new_admin(0, w.admin, next).unwrap();
    assert_eq!(w.verifier.accept_admin(u64::MAX, other), Err(Error::Unauthorized));
    w.verifier.initialized = false;
    assert_eq!(w.verifier.accept_admin(u64::MAX, next), Err(Error::NotInitialized));
}

#[test]
fn only_the_admin_upgrades() {
    let mut w = World::new();
    let other = w.generate();
    assert_eq!(w.verifier.upgrade(other, [7; 32]), Err(Error::Unauthorized));
    assert_eq!(OracleVerifier::new().upgrade(other, [7; 32]), Err(Error::NotInitialized));
    w.verifier.upgrade(w.admin, [7; 32]).unwrap();
    assert_eq!(w.verifier.outbox.last(), Some(&Effect::ReplaceCode([7; 32])));
    assert_eq!(w.verifier.set_max_data_age(other, 1), Err(Error::Unauthorized));
    assert_eq!(w.verifier.set_min_oracle_count(other, 1), Err(Error::Unauthorized));
    assert_eq!(w.verifier.remove_oracle(other, other, weather()), Err(Error::Unauthorized));
}

#[test]
fn every_error_has_its_number() {
    assert_eq!(Error::RateLimited.code(), 13);
    assert_eq!(Error::StaleData.code(), 9);
    assert_eq!(Error::AdminTimelockNotExpired.code(), 23);
}

#[test]
fn a_median_needs_at_least_one_submission() {
    let mut w = World::new();
    assert_eq!(w.verifier.set_min_oracle_count(w.admin, 0), Err(Error::InvalidMinOracleCount));
    assert_eq!(Error::InvalidMinOracleCount.code(), 33);
    assert_eq!(w.verifier.get_min_oracle_count(), 1);
    assert_eq!(w.verifier.set_min_oracle_count(w.admin, 1), Ok(()));
}

#[test]
fn batches_keep_no_more_submissions_than_may_be_kept() {
    let mut w = World::new();
    let mut all = vec![];
    for n in 0..101u8 {
        let oracle = address(b'G', n);
        w.verifier.add_oracle(w.admin, oracle, weather(), 1).unwrap();
        let reading = (kisumu_key(), n as i128, 50, w.now);
        w.verifier.batch_submit_data(w.now, oracle, weather(), &vec![reading]).unwrap();
        // room among the registered for the next one
        w.verifier.remove_oracle(w.admin, oracle, weather()).unwrap();
        all.push(oracle);
    }
    let kept = w.verifier.data_points.get(&(weather(), kisumu_key())).unwrap();
    assert_eq!(kept.len(), 100);
    assert_eq!(kept[0].oracle, all[1]);
    assert_eq!(kept[99].oracle, all[100]);
}

#[test]
fn data_is_fresh_up_to_the_allowed_age() {
    let mut w = World::new();
    let oracle = w.add(50);
    assert!(!w.verifier.has_fresh_data(w.now, weather(), kisumu_key(), 10));
    w.submit(oracle, i128::MIN, 90, w.now).unwrap();
    let (dt, key) = (weather(), kisumu_key());
    assert!(w.verifier.has_fresh_data(w.now + 10, dt, key, 10));
    assert!(!w.verifier.has_fresh_data(w.now + 11, dt, key, 10));
    // nothing is computed of stale data, however far it is from the threshold
    let far = condition(TriggerComparison::EqualWithTolerance, i128::MAX, 0);
    assert_eq!(
        w.verifier.verify_trigger_fresh(w.now + 11, dt, key, far, 10),
        Err(Error::StaleData)
    );
    assert_eq!(w.verifier.verify_trigger_fresh(w.now + 10, dt, key, below(0), 10), Ok(true));
}
