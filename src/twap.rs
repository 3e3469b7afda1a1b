use crate::decimal::{
    decimal_add, decimal_div, decimal_div_int, decimal_from_int, decimal_mul, decimal_sub, wad_div, wad_mul,
    WAD,
};
use crate::error::ScopeError;
use crate::oracle_mappings::OracleMappings;
use crate::oracle_twaps::{
    agree_outside, buckets_of, ema_of, tracker_of, DatedPrice, EmaTwap, EmaType, OracleTwaps,
    TwapEnabledBitmask, MAX_ENTRIES,
};
use crate::tracker::{
    count_set, erase_spec, lemma_empty_tracker, lemma_record_on_empty, oldest_point, record_spec,
    subperiod_counts, EmaTracker,
};
use vstd::arithmetic::div_mod::lemma_div_is_ordered_by_denominator;
use vstd::prelude::*;

verus! {

pub const EMA_1H_DURATION_SECONDS: u64 = 60 * 60;
pub const EMA_8H_DURATION_SECONDS: u64 = 8 * 60 * 60;
pub const EMA_24H_DURATION_SECONDS: u64 = 24 * 60 * 60;
pub const MIN_SAMPLES_IN_PERIOD_1H: u32 = 10;
pub const MIN_SAMPLES_IN_PERIOD_8H: u32 = 24;
pub const MIN_SAMPLES_IN_PERIOD_24H: u32 = 48;
pub const NUM_SUB_PERIODS_1H: usize = 3;
pub const NUM_SUB_PERIODS_8H: usize = 8;
pub const NUM_SUB_PERIODS_24H: usize = 24;
pub const MIN_SAMPLES_IN_FIRST_AND_LAST_PERIOD: u32 = 1;
/// Minimum spacing, in seconds, between two samples of a timeframe.
pub const MIN_SAMPLE_SPACING_SECONDS: u64 = 30;

/// Length in seconds of a timeframe's period.
pub open spec fn period_of(ty: EmaType) -> u64 {
    match ty {
        EmaType::Ema1h => EMA_1H_DURATION_SECONDS,
        EmaType::Ema8h => EMA_8H_DURATION_SECONDS,
        EmaType::Ema24h => EMA_24H_DURATION_SECONDS,
    }
}

/// Least number of updated buckets for a timeframe's average to be trusted.
pub open spec fn min_samples_of(ty: EmaType) -> u32 {
    match ty {
        EmaType::Ema1h => MIN_SAMPLES_IN_PERIOD_1H,
        EmaType::Ema8h => MIN_SAMPLES_IN_PERIOD_8H,
        EmaType::Ema24h => MIN_SAMPLES_IN_PERIOD_24H,
    }
}

/// Number of groups a timeframe's period is cut into to check its edges.
pub open spec fn sub_periods_of(ty: EmaType) -> usize {
    match ty {
        EmaType::Ema1h => NUM_SUB_PERIODS_1H,
        EmaType::Ema8h => NUM_SUB_PERIODS_8H,
        EmaType::Ema24h => NUM_SUB_PERIODS_24H,
    }
}

/// Seconds from `last` to `current`, or zero when `current` is earlier.
pub open spec fn elapsed(last: u64, current: u64) -> int {
    if current >= last {
        current - last
    } else {
        0
    }
}

/// The smoothing factor, scaled by `WAD`, for a sample `current` seconds
/// after one at `last` in a period of `period` seconds: one when a whole
/// period has passed, `2 / (N + 1)` with `N = period / elapsed` otherwise,
/// and an error below the minimum spacing.
pub open spec fn smoothing_factor(last: u64, current: u64, period: u64) -> Result<u128, ScopeError> {
    let dt = elapsed(last, current);
    if dt >= period {
        Ok(WAD)
    } else if dt < MIN_SAMPLE_SPACING_SECONDS {
        Err(ScopeError::TwapSampleTooFrequent)
    } else {
        Ok(wad_div(2 * WAD, (period as int) * (WAD as int) / dt + WAD) as u128)
    }
}

proof fn lemma_factor_bounds(period: int, dt: int)
    requires
        MIN_SAMPLE_SPACING_SECONDS <= dt < period <= u64::MAX,
    ensures
        period * (WAD as int) <= u128::MAX,
        WAD <= period * (WAD as int) / dt,
        period * (WAD as int) / dt + WAD <= u128::MAX,
        0 < wad_div(2 * WAD, period * (WAD as int) / dt + WAD) <= WAD,
        2 * WAD * (WAD as int) <= u128::MAX,
{
    let w = WAD as int;
    let n = period * w / dt;
    assert(period * w <= u128::MAX) by (nonlinear_arith)
        requires
            period <= u64::MAX,
            w == WAD,
    ;
    assert(w <= n) by (nonlinear_arith)
        requires
            dt < period,
            dt > 0,
            w > 0,
            n == period * w / dt,
    ;
    assert(n <= period * w / 30) by (nonlinear_arith)
        requires
            dt >= 30,
            period * w >= 0,
            n == period * w / dt,
    ;
    assert(period * w / 30 <= u64::MAX * w / 30) by (nonlinear_arith)
        requires
            period <= u64::MAX,
            w > 0,
    ;
    let d = n + w;
    assert(2 * w * w / d <= w) by (nonlinear_arith)
        requires
            d >= 2 * w,
            w > 0,
    ;
    assert(2 * w * w / d > 0) by (nonlinear_arith)
        requires
            d <= 2 * w * w,
            d > 0,
    ;
}

/// The smoothing factor of a sample at `current_sample_ts` after one at
/// `last_sample_ts`, scaled by `WAD`.
pub fn get_adjusted_smoothing_factor(last_sample_ts: u64, current_sample_ts: u64, ema_period_s: u64) -> (r: Result<
    u128,
    ScopeError,
>)
    ensures
        r == smoothing_factor(last_sample_ts, current_sample_ts, ema_period_s),
        r.is_ok() ==> 0 < r->Ok_0 <= WAD,
{
    let last_sample_delta: u64 = if current_sample_ts >= last_sample_ts {
        current_sample_ts - last_sample_ts
    } else {
        0
    };
    if last_sample_delta >= ema_period_s {
        Ok(WAD)
    } else if last_sample_delta < MIN_SAMPLE_SPACING_SECONDS {
        Err(ScopeError::TwapSampleTooFrequent)
    } else {
        proof {
            lemma_factor_bounds(ema_period_s as int, last_sample_delta as int);
        }
        let period = match decimal_from_int(ema_period_s) {
            Ok(v) => v,
            Err(_) => return Err(ScopeError::IntegerOverflow),
        };
        let n = match decimal_div_int(period, last_sample_delta) {
            Ok(v) => v,
            Err(_) => return Err(ScopeError::IntegerOverflow),
        };
        let adjusted_denom = match decimal_add(n, WAD) {
            Ok(v) => v,
            Err(_) => return Err(ScopeError::IntegerOverflow),
        };
        let two = match decimal_from_int(2) {
            Ok(v) => v,
            Err(_) => return Err(ScopeError::IntegerOverflow),
        };
        match decimal_div(two, adjusted_denom) {
            Ok(v) => Ok(v),
            Err(_) => Err(ScopeError::IntegerOverflow),
        }
    }
}

/// Law: for a fixed period, the smoothing factor of a sample does not
/// decrease as the time since the previous sample grows.
pub proof fn lemma_smoothing_factor_monotonic(last: u64, t1: u64, t2: u64, period: u64)
    requires
        last <= t1 <= t2,
        t1 - last >= MIN_SAMPLE_SPACING_SECONDS,
    ensures
        smoothing_factor(last, t1, period) is Ok,
        smoothing_factor(last, t2, period) is Ok,
        smoothing_factor(last, t1, period)->Ok_0 <= smoothing_factor(last, t2, period)->Ok_0,
{
    let dt1 = t1 - last;
    let dt2 = t2 - last;
    let w = WAD as int;
    if dt1 < period {
        lemma_factor_bounds(period as int, dt1 as int);
        if dt2 < period {
            lemma_factor_bounds(period as int, dt2 as int);
            let x = (period as int) * w;
            lemma_div_is_ordered_by_denominator(x, dt1 as int, dt2 as int);
            lemma_div_is_ordered_by_denominator(2 * w * w, x / (dt2 as int) + w, x / (dt1 as int) + w);
        }
    }
}

proof fn lemma_floor_gap(c: int, d1: int, d2: int)
    requires
        0 < d2 < d1,
        c >= 0,
        d1 * d2 <= c * (d1 - d2),
    ensures
        c / d1 < c / d2,
{
    let q1 = c / d1;
    assert(q1 * d1 <= c) by (nonlinear_arith)
        requires
            q1 == c / d1,
            d1 > 0,
    ;
    assert((q1 + 1) * d2 * d1 <= c * d1) by (nonlinear_arith)
        requires
            q1 * d1 <= c,
            d1 * d2 <= c * (d1 - d2),
            d2 > 0,
    ;
    assert((q1 + 1) * d2 <= c) by (nonlinear_arith)
        requires
            (q1 + 1) * d2 * d1 <= c * d1,
            d1 > 0,
    ;
    assert(q1 + 1 <= c / d2) by (nonlinear_arith)
        requires
            (q1 + 1) * d2 <= c,
            d2 > 0,
    ;
}

proof fn lemma_quotient_gap(x: int, p: int, d1: int, d2: int)
    requires
        30 <= d1 < d2 < p <= EMA_24H_DURATION_SECONDS,
        x == p * (WAD as int),
    ensures
        x / d1 - x / d2 >= 10_000_000_000_000,
{
    let w = WAD as int;
    let n1 = x / d1;
    let n2 = x / d2;
    assert((n1 + 1) * d1 > x && n2 * d2 <= x) by (nonlinear_arith)
        requires
            n1 == x / d1,
            n2 == x / d2,
            d1 > 0,
            d2 > 0,
    ;
    assert((n1 + 1 - n2) * d1 * d2 > x * (d2 - d1)) by (nonlinear_arith)
        requires
            (n1 + 1) * d1 > x,
            n2 * d2 <= x,
            d1 > 0,
            d2 > 0,
    ;
    assert(x * (d2 - d1) >= x) by (nonlinear_arith)
        requires
            d2 - d1 >= 1,
            x >= 0,
    ;
    assert(d1 * d2 <= p * p) by (nonlinear_arith)
        requires
            0 < d1 < p,
            0 < d2 < p,
    ;
    let k = n1 + 1 - n2;
    assert(d1 * d2 > 0) by (nonlinear_arith)
        requires
            d1 > 0,
            d2 > 0,
    ;
    assert(k * (d1 * d2) > x) by (nonlinear_arith)
        requires
            k * d1 * d2 > x * (d2 - d1),
            x * (d2 - d1) >= x,
    ;
    assert(k > 0) by (nonlinear_arith)
        requires
            k * (d1 * d2) > x,
            x > 0,
            d1 * d2 > 0,
    ;
    assert(k * (p * p) > x) by (nonlinear_arith)
        requires
            k * (d1 * d2) > x,
            k > 0,
            d1 * d2 <= p * p,
    ;
    assert((n1 + 1 - n2) * p > w) by (nonlinear_arith)
        requires
            (n1 + 1 - n2) * (p * p) > p * w,
            p > 0,
    ;
    assert(n1 + 1 - n2 > 10_000_000_000_001) by (nonlinear_arith)
        requires
            (n1 + 1 - n2) * p > w,
            0 < p <= 86400,
            w == 1_000_000_000_000_000_000,
    ;
}

/// Law: over a timeframe's period, the smoothing factor of a sample grows
/// strictly with the time since the previous sample, until it reaches one.
pub proof fn lemma_smoothing_factor_increasing(last: u64, t1: u64, t2: u64, ty: EmaType)
    requires
        last <= t1 < t2,
        t1 - last >= MIN_SAMPLE_SPACING_SECONDS,
        t1 - last < period_of(ty),
    ensures
        smoothing_factor(last, t1, period_of(ty)) is Ok,
        smoothing_factor(last, t2, period_of(ty)) is Ok,
        smoothing_factor(last, t1, period_of(ty))->Ok_0 < smoothing_factor(last, t2, period_of(ty))->Ok_0,
{
    let p = period_of(ty) as int;
    let d1 = (t1 - last) as int;
    let d2 = (t2 - last) as int;
    let w = WAD as int;
    let x = p * w;
    lemma_factor_bounds(p, d1);
    if d2 < p {
        lemma_factor_bounds(p, d2);
        lemma_quotient_gap(x, p, d1, d2);
        let e1 = x / d1 + w;
        let e2 = x / d2 + w;
        assert(x / d1 <= x / 30) by (nonlinear_arith)
            requires
                d1 >= 30,
                x >= 0,
        {
            lemma_div_is_ordered_by_denominator(x, 30, d1);
        }
        assert(x / 30 <= 2880 * w) by (nonlinear_arith)
            requires
                x == p * w,
                p <= 86400,
                w > 0,
        ;
        assert(e1 * e2 <= 2881 * w * (2881 * w)) by (nonlinear_arith)
            requires
                0 < e2 <= e1 <= 2881 * w,
        ;
        assert(2881 * w * (2881 * w) <= 2 * w * w * (e1 - e2)) by (nonlinear_arith)
            requires
                e1 - e2 >= 10_000_000_000_000,
                w == 1_000_000_000_000_000_000,
        ;
        lemma_floor_gap(2 * w * w, e1, e2);
    } else {
        assert(x >= d1 * (w + 1)) by (nonlinear_arith)
            requires
                x == p * w,
                d1 + 1 <= p,
                d1 <= w,
                w > 0,
        ;
        assert(x / d1 >= w + 1) by (nonlinear_arith)
            requires
                x >= d1 * (w + 1),
                d1 > 0,
        ;
        let e1 = x / d1 + w;
        let q = 2 * w * w / e1;
        assert(q < w) by (nonlinear_arith)
            requires
                q == 2 * w * w / e1,
                e1 > 2 * w,
                w > 0,
        ;
    }
}

/// The new average of a sample of `price` against the average `ema`, with
/// smoothing factor `alpha`: `price * alpha + ema * (1 - alpha)`.
pub open spec fn ema_mix(price: u128, alpha: u128, ema: u128) -> int {
    wad_mul(price as int, alpha as int) + wad_mul(WAD - alpha, ema as int)
}

proof fn lemma_mix_bound(price: u128, alpha: u128, ema: u128)
    requires
        alpha <= WAD,
    ensures
        wad_mul(price as int, alpha as int) <= u128::MAX,
        wad_mul(WAD - alpha, ema as int) <= u128::MAX,
        ema_mix(price, alpha, ema) <= u128::MAX,
{
    let w = WAD as int;
    let m = u128::MAX as int;
    let x = (price as int) * (alpha as int);
    let y = (w - alpha) * (ema as int);
    assert(x <= m * (alpha as int)) by (nonlinear_arith)
        requires
            price <= m,
            alpha >= 0,
            x == (price as int) * (alpha as int),
    ;
    assert(y <= m * (w - alpha)) by (nonlinear_arith)
        requires
            ema <= m,
            w - alpha >= 0,
            y == (w - alpha) * (ema as int),
    ;
    assert(x >= 0 && y >= 0) by (nonlinear_arith)
        requires
            price >= 0,
            alpha >= 0,
            ema >= 0,
            w - alpha >= 0,
            x == (price as int) * (alpha as int),
            y == (w - alpha) * (ema as int),
    ;
    assert(x / w + y / w <= m) by (nonlinear_arith)
        requires
            x + y <= m * w,
            x >= 0,
            y >= 0,
            w > 0,
    ;
}

/// The average of timeframe `ty` after accepting a sample of `price` at
/// `price_ts`: the price itself for a record never updated, the smoothed
/// value otherwise.
pub open spec fn timeframe_value(t: EmaTwap, price: u128, price_ts: u64, ty: EmaType) -> u128 {
    if t.last_update_slot == 0 {
        price
    } else {
        ema_mix(
            price,
            smoothing_factor(t.last_update_unix_timestamp, price_ts, period_of(ty))->Ok_0,
            ema_of(t, ty),
        ) as u128
    }
}

/// A sample at `price_ts` comes too soon after the record's last update.
pub open spec fn too_frequent(t: EmaTwap, price_ts: u64) -> bool {
    t.last_update_slot != 0 && elapsed(t.last_update_unix_timestamp, price_ts) < MIN_SAMPLE_SPACING_SECONDS
}

/// Some timeframe is enabled in `m`.
pub open spec fn any_enabled(m: TwapEnabledBitmask) -> bool {
    m.enabled(EmaType::Ema1h) || m.enabled(EmaType::Ema8h) || m.enabled(EmaType::Ema24h)
}

/// A sample with sequence number `price_slot` changes the record.
pub open spec fn accepts(t: EmaTwap, price_ts: u64, price_slot: u64, m: TwapEnabledBitmask) -> bool {
    price_slot > t.last_update_slot && any_enabled(m) && !too_frequent(t, price_ts)
}

/// Timeframe `ty` of `new` is that of `old` after the sample.
pub open spec fn timeframe_updated(old: EmaTwap, new: EmaTwap, price: u128, price_ts: u64, ty: EmaType) -> bool {
    &&& ema_of(new, ty) == timeframe_value(old, price, price_ts, ty)
    &&& buckets_of(new, ty) == record_spec(
        buckets_of(old, ty),
        period_of(ty),
        price_ts,
        old.last_update_unix_timestamp,
    )
}

/// `new` is `old` after accepting the sample in the enabled timeframes.
pub open spec fn sample_applied(
    old: EmaTwap,
    new: EmaTwap,
    price: u128,
    price_ts: u64,
    price_slot: u64,
    m: TwapEnabledBitmask,
) -> bool {
    &&& new.last_update_slot == price_slot
    &&& new.last_update_unix_timestamp == price_ts
    &&& new.padding_0 == old.padding_0
    &&& new.padding_1 == old.padding_1
    &&& forall|u: EmaType|
        if m.enabled(u) {
            timeframe_updated(old, new, price, price_ts, u)
        } else {
            ema_of(new, u) == ema_of(old, u) && tracker_of(new, u) == tracker_of(old, u)
        }
}

/// What a sample that the record does not accept returns.
pub open spec fn rejection(t: EmaTwap, price_ts: u64, price_slot: u64, m: TwapEnabledBitmask) -> Result<(), ScopeError> {
    if price_slot > t.last_update_slot && any_enabled(m) && too_frequent(t, price_ts) {
        Err(ScopeError::TwapSampleTooFrequent)
    } else {
        Ok(())
    }
}

fn update_ema_twap(
    twap: &mut EmaTwap,
    price: u128,
    price_ts: u64,
    twap_enabled_bitmask: TwapEnabledBitmask,
    ema_type: EmaType,
) -> (r: Result<bool, ScopeError>)
    requires
        old(twap).last_update_slot == 0 ==> old(twap).last_update_unix_timestamp == 0,
    ensures
        !twap_enabled_bitmask.enabled(ema_type) ==> r == Ok::<bool, ScopeError>(false) && *final(twap) == *old(twap),
        twap_enabled_bitmask.enabled(ema_type) && too_frequent(*old(twap), price_ts) ==> r == Err::<bool, ScopeError>(
            ScopeError::TwapSampleTooFrequent,
        ) && *final(twap) == *old(twap),
        twap_enabled_bitmask.enabled(ema_type) && !too_frequent(*old(twap), price_ts) ==> {
            &&& r == Ok::<bool, ScopeError>(true)
            &&& timeframe_updated(*old(twap), *final(twap), price, price_ts, ema_type)
            &&& agree_outside(*old(twap), *final(twap), ema_type)
        },
{
    if !twap_enabled_bitmask.is_twap_enabled_for_ema_type(ema_type) {
        return Ok(false);
    }
    let (ema_duration_seconds, current_ema, tracker_bits) = match ema_type {
        EmaType::Ema1h => (EMA_1H_DURATION_SECONDS, twap.current_ema_1h, twap.updates_tracker_1h),
        EmaType::Ema8h => (EMA_8H_DURATION_SECONDS, twap.current_ema_8h, twap.updates_tracker_8h),
        EmaType::Ema24h => (EMA_24H_DURATION_SECONDS, twap.current_ema_24h, twap.updates_tracker_24h),
    };
    let new_ema: u128 = if twap.last_update_slot == 0 {
        price
    } else {
        let smoothing_factor = match get_adjusted_smoothing_factor(
            twap.last_update_unix_timestamp,
            price_ts,
            ema_duration_seconds,
        ) {
            Ok(a) => a,
            Err(e) => return Err(e),
        };
        proof {
            lemma_mix_bound(price, smoothing_factor, current_ema);
        }
        let weighted_price = match decimal_mul(price, smoothing_factor) {
            Ok(v) => v,
            Err(_) => return Err(ScopeError::IntegerOverflow),
        };
        let remaining = match decimal_sub(WAD, smoothing_factor) {
            Ok(v) => v,
            Err(_) => return Err(ScopeError::IntegerOverflow),
        };
        let weighted_ema = match decimal_mul(remaining, current_ema) {
            Ok(v) => v,
            Err(_) => return Err(ScopeError::IntegerOverflow),
        };
        match decimal_add(weighted_price, weighted_ema) {
            Ok(v) => v,
            Err(_) => return Err(ScopeError::IntegerOverflow),
        }
    };
    let mut tracker = EmaTracker(tracker_bits);
    tracker.update_tracker(ema_duration_seconds, price_ts, twap.last_update_unix_timestamp);
    match ema_type {
        EmaType::Ema1h => {
            twap.current_ema_1h = new_ema;
            twap.updates_tracker_1h = tracker.0;
        },
        EmaType::Ema8h => {
            twap.current_ema_8h = new_ema;
            twap.updates_tracker_8h = tracker.0;
        },
        EmaType::Ema24h => {
            twap.current_ema_24h = new_ema;
            twap.updates_tracker_24h = tracker.0;
        },
    }
    Ok(true)
}

/// Apply a sample of `price` taken at `price_ts` with sequence number
/// `price_slot` to every enabled timeframe of the record. A sample whose
/// sequence number is not above the record's is ignored. The update is all
/// or nothing: on an error the record is left as it was.
pub fn update_ema_twaps(
    twap: &mut EmaTwap,
    price: u128,
    price_ts: u64,
    price_slot: u64,
    twap_enabled_bitmask: TwapEnabledBitmask,
) -> (r: Result<(), ScopeError>)
    requires
        old(twap).wf(),
    ensures
        final(twap).wf(),
        accepts(*old(twap), price_ts, price_slot, twap_enabled_bitmask) ==> r == Ok::<(), ScopeError>(())
            && sample_applied(*old(twap), *final(twap), price, price_ts, price_slot, twap_enabled_bitmask),
        !accepts(*old(twap), price_ts, price_slot, twap_enabled_bitmask) ==> r == rejection(
            *old(twap),
            price_ts,
            price_slot,
            twap_enabled_bitmask,
        ) && *final(twap) == *old(twap),
{
    if price_slot > twap.last_update_slot {
        let mut working = *twap;
        let mut performed_update = false;
        match update_ema_twap(&mut working, price, price_ts, twap_enabled_bitmask, EmaType::Ema1h) {
            Ok(done) => performed_update = performed_update || done,
            Err(e) => return Err(e),
        }
        match update_ema_twap(&mut working, price, price_ts, twap_enabled_bitmask, EmaType::Ema8h) {
            Ok(done) => performed_update = performed_update || done,
            Err(e) => return Err(e),
        }
        match update_ema_twap(&mut working, price, price_ts, twap_enabled_bitmask, EmaType::Ema24h) {
            Ok(done) => performed_update = performed_update || done,
            Err(e) => return Err(e),
        }
        if performed_update {
            working.last_update_slot = price_slot;
            working.last_update_unix_timestamp = price_ts;
            *twap = working;
        }
    }
    Ok(())
}

/// Law: the first sample a record accepts sets the average of each enabled
/// timeframe to the sample's price and leaves exactly one bucket of its
/// tracker set.
pub proof fn lemma_first_sample(
    old: EmaTwap,
    new: EmaTwap,
    price: u128,
    price_ts: u64,
    price_slot: u64,
    m: TwapEnabledBitmask,
    ty: EmaType,
)
    requires
        old.wf(),
        old.last_update_slot == 0,
        price_slot > 0,
        m.enabled(ty),
        sample_applied(old, new, price, price_ts, price_slot, m),
    ensures
        accepts(old, price_ts, price_slot, m),
        ema_of(new, ty) == price,
        count_set(buckets_of(new, ty)) == 1,
{
    lemma_empty_tracker();
    lemma_record_on_empty(EmaTracker(tracker_of(old, ty)), period_of(ty), price_ts, 0);
    assert(timeframe_updated(old, new, price, price_ts, ty));
}

/// The tracker of timeframe `ty` as of `current_ts`.
pub open spec fn buckets_as_of(t: EmaTwap, ty: EmaType, current_ts: u64) -> Seq<bool> {
    erase_spec(buckets_of(t, ty), period_of(ty), current_ts, t.last_update_unix_timestamp)
}

/// Whether the average of timeframe `ty` may be trusted at `current_ts`:
/// an error when the clock lies before the last update; an error when the
/// period ending now holds fewer updated buckets than the timeframe's
/// minimum, or none in its oldest or in its newest group; success otherwise.
pub open spec fn validation(ty: EmaType, t: EmaTwap, current_ts: u64) -> Result<(), ScopeError> {
    if current_ts < t.last_update_unix_timestamp {
        Err(ScopeError::BadTimestamp)
    } else {
        let s = buckets_as_of(t, ty, current_ts);
        let c = subperiod_counts(s, oldest_point(current_ts, period_of(ty)), sub_periods_of(ty) as int);
        if count_set(s) < min_samples_of(ty) || c[0] < MIN_SAMPLES_IN_FIRST_AND_LAST_PERIOD || c[c.len() - 1]
            < MIN_SAMPLES_IN_FIRST_AND_LAST_PERIOD {
            Err(ScopeError::TwapNotEnoughSamplesInPeriod)
        } else {
            Ok(())
        }
    }
}

/// Check that the average of timeframe `twap_type` has enough recent,
/// well spread updates to be trusted at `current_ts`. The record is only
/// read: the tracker is brought up to date on a copy.
pub fn validate_ema(twap_type: EmaType, twap: &EmaTwap, current_ts: u64) -> (r: Result<(), ScopeError>)
    ensures
        r == validation(twap_type, *twap, current_ts),
{
    if current_ts < twap.last_update_unix_timestamp {
        return Err(ScopeError::BadTimestamp);
    }
    let (tracker_bits, ema_duration_seconds, min_samples_in_period, num_sub_periods) = match twap_type {
        EmaType::Ema1h => (twap.updates_tracker_1h, EMA_1H_DURATION_SECONDS, MIN_SAMPLES_IN_PERIOD_1H, NUM_SUB_PERIODS_1H),
        EmaType::Ema8h => (twap.updates_tracker_8h, EMA_8H_DURATION_SECONDS, MIN_SAMPLES_IN_PERIOD_8H, NUM_SUB_PERIODS_8H),
        EmaType::Ema24h => (
            twap.updates_tracker_24h,
            EMA_24H_DURATION_SECONDS,
            MIN_SAMPLES_IN_PERIOD_24H,
            NUM_SUB_PERIODS_24H,
        ),
    };
    let mut tracker = EmaTracker(tracker_bits);
    tracker.erase_old_samples(ema_duration_seconds, current_ts, twap.last_update_unix_timestamp);
    if tracker.get_samples_count() < min_samples_in_period {
        return Err(ScopeError::TwapNotEnoughSamplesInPeriod);
    }
    let counts = tracker.get_samples_count_per_subperiods(ema_duration_seconds, current_ts, num_sub_periods);
    let samples_count_first_subperiod = counts[0];
    let samples_count_last_subperiod = counts[num_sub_periods - 1];
    if samples_count_first_subperiod < MIN_SAMPLES_IN_FIRST_AND_LAST_PERIOD || samples_count_last_subperiod
        < MIN_SAMPLES_IN_FIRST_AND_LAST_PERIOD {
        return Err(ScopeError::TwapNotEnoughSamplesInPeriod);
    }
    Ok(())
}

/// Apply a dated price to the record of entry `entry_id`; an index outside
/// the table is an error and changes nothing.
pub fn update_twaps(
    oracle_twaps: &mut OracleTwaps,
    entry_id: usize,
    price: &DatedPrice,
    twap_enabled_bitmask: TwapEnabledBitmask,
) -> (r: Result<(), ScopeError>)
    requires
        old(oracle_twaps).wf(),
    ensures
        final(oracle_twaps).wf(),
        final(oracle_twaps).oracle_prices == old(oracle_twaps).oracle_prices,
        final(oracle_twaps).oracle_mappings == old(oracle_twaps).oracle_mappings,
        entry_id >= MAX_ENTRIES ==> r == Err::<(), ScopeError>(ScopeError::TwapSourceIndexOutOfRange)
            && final(oracle_twaps).twaps@ == old(oracle_twaps).twaps@,
        entry_id < MAX_ENTRIES ==> {
            let before = old(oracle_twaps).twaps@[entry_id as int];
            let after = final(oracle_twaps).twaps@[entry_id as int];
            &&& final(oracle_twaps).twaps@ == old(oracle_twaps).twaps@.update(entry_id as int, after)
            &&& accepts(before, price.unix_timestamp, price.last_updated_slot, twap_enabled_bitmask) ==> r == Ok::<
                (),
                ScopeError,
            >(())
                && sample_applied(
                before,
                after,
                price.price,
                price.unix_timestamp,
                price.last_updated_slot,
                twap_enabled_bitmask,
            )
            &&& !accepts(before, price.unix_timestamp, price.last_updated_slot, twap_enabled_bitmask) ==> r
                == rejection(before, price.unix_timestamp, price.last_updated_slot, twap_enabled_bitmask) && after
                == before
        },
{
    if entry_id >= oracle_twaps.twaps.len() {
        return Err(ScopeError::TwapSourceIndexOutOfRange);
    }
    let mut twap = oracle_twaps.twaps[entry_id];
    let r = update_ema_twaps(&mut twap, price.price, price.unix_timestamp, price.last_updated_slot, twap_enabled_bitmask);
    oracle_twaps.twaps.set(entry_id, twap);
    r
}

/// Zero the averages, trackers and update time of entry `entry_id`; an
/// index outside the table is an error and changes nothing.
pub fn reset_twap(oracle_twaps: &mut OracleTwaps, entry_id: usize) -> (r: Result<(), ScopeError>)
    requires
        old(oracle_twaps).wf(),
    ensures
        final(oracle_twaps).wf(),
        final(oracle_twaps).oracle_prices == old(oracle_twaps).oracle_prices,
        final(oracle_twaps).oracle_mappings == old(oracle_twaps).oracle_mappings,
        entry_id >= MAX_ENTRIES ==> r == Err::<(), ScopeError>(ScopeError::TwapSourceIndexOutOfRange)
            && final(oracle_twaps).twaps@ == old(oracle_twaps).twaps@,
        entry_id < MAX_ENTRIES ==> {
            let before = old(oracle_twaps).twaps@[entry_id as int];
            let after = final(oracle_twaps).twaps@[entry_id as int];
            &&& r == Ok::<(), ScopeError>(())
            &&& final(oracle_twaps).twaps@ == old(oracle_twaps).twaps@.update(entry_id as int, after)
            &&& after.last_update_slot == 0
            &&& after.last_update_unix_timestamp == 0
            &&& forall|u: EmaType| ema_of(after, u) == 0 && tracker_of(after, u) == 0
            &&& after.padding_0 == before.padding_0
            &&& after.padding_1 == before.padding_1
        },
{
    if entry_id >= oracle_twaps.twaps.len() {
        return Err(ScopeError::TwapSourceIndexOutOfRange);
    }
    let mut twap = oracle_twaps.twaps[entry_id];
    twap.reset();
    oracle_twaps.twaps.set(entry_id, twap);
    Ok(())
}

/// The record that entry `entry_id` reads its averages from, if both the
/// entry and its source lie in the tables.
pub open spec fn source_of(m: OracleMappings, t: OracleTwaps, entry_id: usize) -> Option<EmaTwap> {
    if entry_id < m.twap_source@.len() && (m.twap_source@[entry_id as int] as int) < t.twaps@.len() {
        Some(t.twaps@[m.twap_source@[entry_id as int] as int])
    } else {
        None
    }
}

/// The trusted average of timeframe `twap_type` for entry `entry_id` at
/// `current_ts`, read from the entry's source record and dated by that
/// record's last update. Nothing is changed.
pub fn get_price(
    oracle_mappings: &OracleMappings,
    oracle_twaps: &OracleTwaps,
    entry_id: usize,
    twap_type: EmaType,
    current_ts: u64,
) -> (r: Result<DatedPrice, ScopeError>)
    ensures
        source_of(*oracle_mappings, *oracle_twaps, entry_id) is None ==> r == Err::<DatedPrice, ScopeError>(
            ScopeError::TwapSourceIndexOutOfRange,
        ),
        source_of(*oracle_mappings, *oracle_twaps, entry_id) matches Some(t) ==> {
            &&& validation(twap_type, t, current_ts) is Err ==> r == Err::<DatedPrice, ScopeError>(
                validation(twap_type, t, current_ts)->Err_0,
            )
            &&& validation(twap_type, t, current_ts) is Ok ==> r is Ok && r->Ok_0.price == ema_of(t, twap_type)
                && r->Ok_0.last_updated_slot == t.last_update_slot && r->Ok_0.unix_timestamp
                == t.last_update_unix_timestamp && forall|i: int|
                0 <= i < 24 ==> r->Ok_0.generic_data[i] == 0
        },
{
    if entry_id >= oracle_mappings.twap_source.len() {
        return Err(ScopeError::TwapSourceIndexOutOfRange);
    }
    let source_index = oracle_mappings.twap_source[entry_id] as usize;
    if source_index >= oracle_twaps.twaps.len() {
        return Err(ScopeError::TwapSourceIndexOutOfRange);
    }
    let twap = &oracle_twaps.twaps[source_index];
    match validate_ema(twap_type, twap, current_ts) {
        Ok(()) => Ok(twap.as_dated_price(twap_type)),
        Err(e) => Err(e),
    }
}

} // verus!
