use scope_twap::decimal::WAD;
use scope_twap::error::ScopeError;
use scope_twap::oracle_mappings::OracleMappings;
use scope_twap::oracle_twaps::{DatedPrice, EmaTwap, EmaType, OracleTwaps, TwapEnabledBitmask, MAX_ENTRIES};
use scope_twap::tracker::EmaTracker;
use scope_twap::twap::{
    get_adjusted_smoothing_factor, get_price, reset_twap, update_ema_twaps, update_twaps, validate_ema,
};

const HOUR: u64 = 3600;

fn all() -> TwapEnabledBitmask {
    TwapEnabledBitmask::new_enable_all()
}

fn only_1h() -> TwapEnabledBitmask {
    TwapEnabledBitmask::new().enable(EmaType::Ema1h)
}

fn count(bits: u64) -> u32 {
    EmaTracker(bits).get_samples_count()
}

#[test]
fn smoothing_factor_is_one_after_full_period() {
    assert_eq!(get_adjusted_smoothing_factor(0, 3600, HOUR), Ok(WAD));
    assert_eq!(get_adjusted_smoothing_factor(100, 100_000, HOUR), Ok(WAD));
}

#[test]
fn smoothing_factor_rejects_close_samples() {
    assert_eq!(get_adjusted_smoothing_factor(0, 29, HOUR), Err(ScopeError::TwapSampleTooFrequent));
    assert_eq!(get_adjusted_smoothing_factor(50, 10, HOUR), Err(ScopeError::TwapSampleTooFrequent));
}

#[test]
fn smoothing_factor_exact_values() {
    assert_eq!(get_adjusted_smoothing_factor(0, 360, HOUR), Ok(181818181818181818));
    assert_eq!(get_adjusted_smoothing_factor(0, 1800, HOUR), Ok(666666666666666666));
    assert_eq!(get_adjusted_smoothing_factor(0, 30, 24 * HOUR), Ok(694203401596667));
    assert_eq!(get_adjusted_smoothing_factor(0, 3599, HOUR), Ok(999861091818308098));
}

#[test]
fn smoothing_factor_grows_with_elapsed_time() {
    let mut prev = 0u128;
    let mut dt = 30u64;
    while dt <= HOUR {
        let a = get_adjusted_smoothing_factor(1000, 1000 + dt, HOUR).unwrap();
        assert!(a > 0 && a <= WAD);
        assert!(a > prev);
        prev = a;
        dt += 30;
    }
}

#[test]
fn first_sample_sets_price_and_one_bucket() {
    let mut twap = EmaTwap::new();
    assert_eq!(update_ema_twaps(&mut twap, 42 * WAD, 1_700_000_000, 5, all()), Ok(()));
    assert_eq!(twap.current_ema_1h, 42 * WAD);
    assert_eq!(twap.current_ema_8h, 42 * WAD);
    assert_eq!(twap.current_ema_24h, 42 * WAD);
    assert_eq!(count(twap.updates_tracker_1h), 1);
    assert_eq!(count(twap.updates_tracker_8h), 1);
    assert_eq!(count(twap.updates_tracker_24h), 1);
    assert_eq!(twap.last_update_slot, 5);
    assert_eq!(twap.last_update_unix_timestamp, 1_700_000_000);
}

#[test]
fn smoothed_update_exact_value() {
    let mut twap = EmaTwap::new();
    update_ema_twaps(&mut twap, 200 * WAD, 0, 1, only_1h()).unwrap();
    update_ema_twaps(&mut twap, 100 * WAD, 1800, 2, only_1h()).unwrap();
    assert_eq!(twap.current_ema_1h, 133333333333333333400);
    let mut other = EmaTwap::new();
    update_ema_twaps(&mut other, 200 * WAD, 0, 1, only_1h()).unwrap();
    update_ema_twaps(&mut other, 100 * WAD, 360, 2, only_1h()).unwrap();
    assert_eq!(other.current_ema_1h, 181818181818181818200);
}

#[test]
fn rollover_after_full_window() {
    let mut twap = EmaTwap::new();
    update_ema_twaps(&mut twap, 10 * WAD, 0, 1, only_1h()).unwrap();
    update_ema_twaps(&mut twap, 7 * WAD, 3700, 2, only_1h()).unwrap();
    assert_eq!(count(twap.updates_tracker_1h), 1);
    assert_eq!(twap.updates_tracker_1h, 1u64 << 1);
    assert_eq!(twap.current_ema_1h, 7 * WAD);
}

#[test]
fn stale_sequence_is_ignored() {
    let mut twap = EmaTwap::new();
    update_ema_twaps(&mut twap, 10 * WAD, 1000, 7, all()).unwrap();
    let before = twap;
    assert_eq!(update_ema_twaps(&mut twap, 20 * WAD, 5000, 7, all()), Ok(()));
    assert_eq!(update_ema_twaps(&mut twap, 20 * WAD, 5000, 3, all()), Ok(()));
    assert_eq!(twap, before);
}

#[test]
fn too_frequent_sample_is_an_error_and_changes_nothing() {
    let mut twap = EmaTwap::new();
    update_ema_twaps(&mut twap, 10 * WAD, 1000, 1, all()).unwrap();
    let before = twap;
    assert_eq!(update_ema_twaps(&mut twap, 20 * WAD, 1029, 2, all()), Err(ScopeError::TwapSampleTooFrequent));
    assert_eq!(twap, before);
}

#[test]
fn disabled_timeframes_are_untouched() {
    let mut twap = EmaTwap::new();
    update_ema_twaps(&mut twap, 10 * WAD, 1000, 1, only_1h()).unwrap();
    assert_eq!(twap.current_ema_1h, 10 * WAD);
    assert_eq!(twap.current_ema_8h, 0);
    assert_eq!(twap.updates_tracker_24h, 0);
    let mut untouched = EmaTwap::new();
    assert_eq!(update_ema_twaps(&mut untouched, 10 * WAD, 1000, 1, TwapEnabledBitmask::new()), Ok(()));
    assert_eq!(untouched, EmaTwap::new());
}

fn feed(twap: &mut EmaTwap, times: &[u64]) {
    for (i, t) in times.iter().enumerate() {
        update_ema_twaps(twap, 5 * WAD, *t, (i + 1) as u64, only_1h()).unwrap();
    }
}

#[test]
fn evenly_spread_samples_validate() {
    let mut twap = EmaTwap::new();
    let times: Vec<u64> = (0..10).map(|i| i * 360).collect();
    feed(&mut twap, &times);
    assert_eq!(count(twap.updates_tracker_1h), 10);
    assert_eq!(validate_ema(EmaType::Ema1h, &twap, 3240), Ok(()));
}

#[test]
fn samples_bunched_at_the_end_do_not_validate() {
    let mut twap = EmaTwap::new();
    let times: Vec<u64> = (0..10).map(|i| 3300 + i * 30).collect();
    feed(&mut twap, &times);
    assert_eq!(validate_ema(EmaType::Ema1h, &twap, 3570), Err(ScopeError::TwapNotEnoughSamplesInPeriod));
}

#[test]
fn empty_oldest_group_fails_despite_enough_buckets() {
    let mut twap = EmaTwap::new();
    twap.last_update_slot = 1;
    twap.last_update_unix_timestamp = 3599;
    twap.updates_tracker_1h = !0u64 << 50;
    assert_eq!(count(twap.updates_tracker_1h), 14);
    assert_eq!(validate_ema(EmaType::Ema1h, &twap, 3599), Err(ScopeError::TwapNotEnoughSamplesInPeriod));
}

#[test]
fn clock_before_last_update_is_an_error() {
    let mut twap = EmaTwap::new();
    feed(&mut twap, &[1000]);
    assert_eq!(validate_ema(EmaType::Ema1h, &twap, 999), Err(ScopeError::BadTimestamp));
}

#[test]
fn validation_is_repeatable_and_read_only() {
    let mut twap = EmaTwap::new();
    let times: Vec<u64> = (0..10).map(|i| i * 360).collect();
    feed(&mut twap, &times);
    let before = twap;
    let first = validate_ema(EmaType::Ema1h, &twap, 3300);
    let second = validate_ema(EmaType::Ema1h, &twap, 3300);
    assert_eq!(first, second);
    assert_eq!(twap, before);
}

#[test]
fn erase_clears_everything_after_a_full_period() {
    let mut t = EmaTracker(u64::MAX);
    t.erase_old_samples(HOUR, 10_000, 10_000 - HOUR);
    assert_eq!(t.0, 0);
}

#[test]
fn erase_clears_the_span_between_buckets() {
    // last update in bucket 62, now in bucket 1: buckets 63, 0 and 1 go.
    let mut t = EmaTracker(u64::MAX);
    t.erase_old_samples(6400, 6400 + 100, 6200);
    assert_eq!(t.0, u64::MAX & !(1u64 << 63) & !1u64 & !(1u64 << 1));
    let mut same = EmaTracker(0b1011);
    same.erase_old_samples(6400, 150, 120);
    assert_eq!(same.0, 0b1011);
}

#[test]
fn erase_clears_the_next_bucket() {
    let mut t = EmaTracker((1u64 << 11) | (1u64 << 10));
    t.erase_old_samples(6400, 1100, 1050);
    assert_eq!(t.0, 1u64 << 10);
}

#[test]
fn record_on_empty_tracker_sets_one_bucket() {
    for (now, last) in [(0u64, 0u64), (5000, 10), (123_456, 123_400), (86_399, 0)] {
        let mut t = EmaTracker(0);
        t.update_tracker(24 * HOUR, now, last);
        assert_eq!(t.get_samples_count(), 1);
    }
}

#[test]
fn group_counts_add_up() {
    let t = EmaTracker(0xF0F0_1234_8000_0001);
    for n in 1..=64usize {
        let counts = t.get_samples_count_per_subperiods(HOUR, 1234, n);
        assert_eq!(counts.len(), n);
        assert_eq!(counts.iter().sum::<u32>(), t.get_samples_count());
    }
}

#[test]
fn group_counts_oldest_first() {
    // now in bucket 1: buckets 2..63 are older, then 0 and 1.
    let t = EmaTracker((1u64 << 2) | (1u64 << 1));
    let counts = t.get_samples_count_per_subperiods(6400, 150, 5);
    assert_eq!(counts, vec![1, 0, 0, 0, 1]);
    let sizes: Vec<u32> = EmaTracker(u64::MAX).get_samples_count_per_subperiods(6400, 150, 5);
    assert_eq!(sizes, vec![13, 13, 13, 13, 12]);
}

#[test]
fn mask_bits_and_lists() {
    assert_eq!(TwapEnabledBitmask::try_from_bits(8), Err(ScopeError::TwapEnabledBitmaskConversionFailure));
    let m = TwapEnabledBitmask::try_from_bits(5).unwrap();
    assert!(m.is_twap_enabled_for_ema_type(EmaType::Ema1h));
    assert!(!m.is_twap_enabled_for_ema_type(EmaType::Ema8h));
    assert!(m.is_twap_enabled_for_ema_type(EmaType::Ema24h));
    assert_eq!(m.to_ema_types(), vec![EmaType::Ema1h, EmaType::Ema24h]);
    assert_eq!(TwapEnabledBitmask::from_ema_types(&vec![EmaType::Ema24h, EmaType::Ema8h]).bits(), 6);
    assert!(!TwapEnabledBitmask::new().is_twap_enabled());
    assert_eq!(all().bits(), 7);
}

#[test]
fn table_update_and_read() {
    let mut twaps = OracleTwaps::new([1; 32], [2; 32]);
    let mut mappings = OracleMappings::new();
    mappings.set_twap_enabled_bitmask(3, only_1h());
    assert_eq!(get_price(&mappings, &twaps, 3, EmaType::Ema1h, 0), Err(ScopeError::TwapSourceIndexOutOfRange));
    mappings.twap_source[4] = 3;
    for i in 0..10u64 {
        let price = DatedPrice { price: 9 * WAD, last_updated_slot: i + 1, unix_timestamp: i * 360, generic_data: [0; 24] };
        update_twaps(&mut twaps, 3, &price, mappings.get_twap_enabled_bitmask(3)).unwrap();
    }
    let read = get_price(&mappings, &twaps, 4, EmaType::Ema1h, 3240).unwrap();
    assert_eq!(read.price, 9 * WAD);
    assert_eq!(read.last_updated_slot, 10);
    assert_eq!(read.unix_timestamp, 3240);
    assert_eq!(get_price(&mappings, &twaps, 4, EmaType::Ema1h, 3240), Ok(read));
    assert_eq!(get_price(&mappings, &twaps, 4, EmaType::Ema8h, 3240), Err(ScopeError::TwapNotEnoughSamplesInPeriod));
    assert_eq!(get_price(&mappings, &twaps, MAX_ENTRIES, EmaType::Ema1h, 3240), Err(ScopeError::TwapSourceIndexOutOfRange));
    let price = DatedPrice { price: WAD, last_updated_slot: 99, unix_timestamp: 9999, generic_data: [0; 24] };
    assert_eq!(update_twaps(&mut twaps, MAX_ENTRIES, &price, all()), Err(ScopeError::TwapSourceIndexOutOfRange));
    assert_eq!(reset_twap(&mut twaps, 3), Ok(()));
    assert_eq!(twaps.twaps[3].last_update_slot, 0);
    assert_eq!(twaps.twaps[3].current_ema_1h, 0);
    assert_eq!(reset_twap(&mut twaps, MAX_ENTRIES), Err(ScopeError::TwapSourceIndexOutOfRange));
}

#[test]
fn mapping_reference_price() {
    let mut mappings = OracleMappings::new();
    assert_eq!(mappings.get_ref_price(0), None);
    mappings.set_ref_price(0, Some(12));
    assert_eq!(mappings.get_ref_price(0), Some(12));
    mappings.reset_entry(0);
    assert_eq!(mappings.get_ref_price(0), None);
    assert_eq!(mappings.get_twap_source(0), u16::MAX as usize);
}

#[test]
fn std_conversions() {
    assert_eq!(TwapEnabledBitmask::try_from(9u8), Err(ScopeError::TwapEnabledBitmaskConversionFailure));
    let m = TwapEnabledBitmask::try_from(3u8).unwrap();
    assert_eq!(u8::from(m), 3);
    let t = EmaTracker::from(0b101u64);
    assert_eq!(u64::from(t), 0b101);
    assert_eq!(t.get_samples_count(), 2);
}

#[test]
fn mapping_twap_source_bounds() {
    let mut mappings = OracleMappings::new();
    assert_eq!(mappings.set_twap_source(1, 9, MAX_ENTRIES as u16, [7; 32]), Err(ScopeError::TwapSourceIndexOutOfRange));
    assert_eq!(mappings.get_twap_source(1), u16::MAX as usize);
    assert_eq!(mappings.set_twap_source(1, 9, 7, [7; 32]), Ok(()));
    assert_eq!(mappings.get_twap_source(1), 7);
    assert!(!mappings.is_twap_enabled(1));
    mappings.set_twap_enabled_bitmask(1, TwapEnabledBitmask::new().enable(EmaType::Ema8h));
    assert!(mappings.is_twap_enabled(1));
    assert!(mappings.is_twap_enabled_for_ema_type(1, EmaType::Ema8h));
    assert!(!mappings.is_twap_enabled_for_ema_type(1, EmaType::Ema1h));
}

#[test]
fn dated_price_and_reset() {
    let mut twap = EmaTwap::new();
    update_ema_twaps(&mut twap, 3 * WAD, 500, 4, all()).unwrap();
    let d = twap.as_dated_price(EmaType::Ema24h);
    assert_eq!(d.price, 3 * WAD);
    assert_eq!(d.last_updated_slot, 4);
    assert_eq!(d.unix_timestamp, 500);
    twap.reset();
    assert_eq!(twap, EmaTwap::default());
    let mut table = OracleTwaps::new([0; 32], [0; 32]);
    let price = DatedPrice { price: WAD, last_updated_slot: 1, unix_timestamp: 10, generic_data: [0; 24] };
    update_twaps(&mut table, 2, &price, all()).unwrap();
    table.reset_entry(2);
    assert_eq!(table.twaps[2], EmaTwap::new());
}

#[test]
fn mapping_accounts() {
    let program = [7u8; 32];
    let mut mappings = OracleMappings::new();
    assert!(!mappings.is_entry_used(0));
    assert_eq!(mappings.get_entry_mapping_pk(0, program), None);
    mappings.set_entry_mapping(0, Some([3; 32]), 2, [1; 20], program);
    assert!(mappings.is_entry_used(0));
    assert_eq!(mappings.get_entry_mapping_pk(0, program), Some([3; 32]));
    assert_eq!(mappings.generic[0], [1; 20]);
    mappings.set_entry_mapping(1, None, 0, [0; 20], program);
    assert!(mappings.is_entry_used(1));
    assert_eq!(mappings.get_entry_mapping_pk(1, program), None);
    assert_eq!(mappings.set_twap_source(0, 4, 5, program), Ok(()));
    assert_eq!(mappings.price_info_accounts[0], program);
    assert_eq!(mappings.generic[0], [0; 20]);
    mappings.reset_entry(0);
    assert!(!mappings.is_entry_used(0));
}
