use crate::error::ScopeError;
use crate::tracker::EmaTracker;
use vstd::prelude::*;

verus! {

/// Number of entries of a table of averages.
pub const MAX_ENTRIES: usize = 512;

/// The three averaging timeframes.
#[derive(Clone, Copy, Debug, PartialEq, Eq, Structural)]
pub enum EmaType {
    Ema1h,
    Ema8h,
    Ema24h,
}

impl EmaType {
    /// Position of the timeframe in a timeframe mask.
    pub open spec fn index_spec(self) -> u8 {
        match self {
            EmaType::Ema1h => 0,
            EmaType::Ema8h => 1,
            EmaType::Ema24h => 2,
        }
    }

    /// Position of the timeframe in a timeframe mask.
    pub fn index(self) -> (r: u8)
        ensures
            r == self.index_spec(),
    {
        match self {
            EmaType::Ema1h => 0,
            EmaType::Ema8h => 1,
            EmaType::Ema24h => 2,
        }
    }
}

/// A price with the time and sequence number of its last update.
/// `price` is a fixed-point value scaled by `WAD`.
#[derive(Clone, Copy, Debug, PartialEq, Eq)]
pub struct DatedPrice {
    pub price: u128,
    pub last_updated_slot: u64,
    pub unix_timestamp: u64,
    pub generic_data: [u8; 24],
}

/// The averages of one entry: a value and an update tracker per timeframe,
/// sharing the sequence number and time of the last accepted sample.
#[derive(Clone, Copy, Debug, PartialEq, Eq)]
pub struct EmaTwap {
    pub last_update_slot: u64,
    pub last_update_unix_timestamp: u64,
    pub current_ema_1h: u128,
    pub updates_tracker_1h: u64,
    pub padding_0: u64,
    pub current_ema_8h: u128,
    pub current_ema_24h: u128,
    pub updates_tracker_8h: u64,
    pub updates_tracker_24h: u64,
    pub padding_1: [u128; 36],
}

/// The average of a timeframe.
pub open spec fn ema_of(t: EmaTwap, ty: EmaType) -> u128 {
    match ty {
        EmaType::Ema1h => t.current_ema_1h,
        EmaType::Ema8h => t.current_ema_8h,
        EmaType::Ema24h => t.current_ema_24h,
    }
}

/// The update tracker of a timeframe, as raw bits.
pub open spec fn tracker_of(t: EmaTwap, ty: EmaType) -> u64 {
    match ty {
        EmaType::Ema1h => t.updates_tracker_1h,
        EmaType::Ema8h => t.updates_tracker_8h,
        EmaType::Ema24h => t.updates_tracker_24h,
    }
}

/// The buckets of a timeframe's tracker.
pub open spec fn buckets_of(t: EmaTwap, ty: EmaType) -> Seq<bool> {
    EmaTracker(tracker_of(t, ty))@
}

/// `a` and `b` agree on everything but the average and tracker of `ty`.
pub open spec fn agree_outside(a: EmaTwap, b: EmaTwap, ty: EmaType) -> bool {
    &&& a.last_update_slot == b.last_update_slot
    &&& a.last_update_unix_timestamp == b.last_update_unix_timestamp
    &&& a.padding_0 == b.padding_0
    &&& a.padding_1 == b.padding_1
    &&& forall|u: EmaType| u != ty ==> ema_of(a, u) == ema_of(b, u) && tracker_of(a, u) == tracker_of(b, u)
}

impl EmaTwap {
    /// A record that was never updated holds no time and no tracked bucket.
    pub open spec fn wf(&self) -> bool {
        self.last_update_slot == 0 ==> {
            &&& self.last_update_unix_timestamp == 0
            &&& self.updates_tracker_1h == 0
            &&& self.updates_tracker_8h == 0
            &&& self.updates_tracker_24h == 0
        }
    }

    /// The all-zero record.
    pub open spec fn is_zero(&self) -> bool {
        &&& self.last_update_slot == 0
        &&& self.last_update_unix_timestamp == 0
        &&& self.current_ema_1h == 0
        &&& self.current_ema_8h == 0
        &&& self.current_ema_24h == 0
        &&& self.updates_tracker_1h == 0
        &&& self.updates_tracker_8h == 0
        &&& self.updates_tracker_24h == 0
        &&& self.padding_0 == 0
        &&& forall|i: int| 0 <= i < 36 ==> self.padding_1[i] == 0
    }

    /// The all-zero record.
    pub fn new() -> (r: EmaTwap)
        ensures
            r.is_zero(),
            r.wf(),
    {
        EmaTwap {
            last_update_slot: 0,
            last_update_unix_timestamp: 0,
            current_ema_1h: 0,
            updates_tracker_1h: 0,
            padding_0: 0,
            current_ema_8h: 0,
            current_ema_24h: 0,
            updates_tracker_8h: 0,
            updates_tracker_24h: 0,
            padding_1: [0u128; 36],
        }
    }

    /// The average of a timeframe, dated by the record's last update.
    pub fn as_dated_price(&self, ema_type: EmaType) -> (r: DatedPrice)
        ensures
            r.price == ema_of(*self, ema_type),
            r.last_updated_slot == self.last_update_slot,
            r.unix_timestamp == self.last_update_unix_timestamp,
            forall|i: int| 0 <= i < 24 ==> r.generic_data[i] == 0,
    {
        let ema_to_use = match ema_type {
            EmaType::Ema1h => self.current_ema_1h,
            EmaType::Ema8h => self.current_ema_8h,
            EmaType::Ema24h => self.current_ema_24h,
        };
        DatedPrice {
            price: ema_to_use,
            last_updated_slot: self.last_update_slot,
            unix_timestamp: self.last_update_unix_timestamp,
            generic_data: [0u8; 24],
        }
    }

    /// Forget every average, tracker and update time; the padding is kept.
    pub fn reset(&mut self)
        ensures
            final(self).last_update_slot == 0,
            final(self).last_update_unix_timestamp == 0,
            forall|u: EmaType| ema_of(*final(self), u) == 0 && tracker_of(*final(self), u) == 0,
            final(self).padding_0 == old(self).padding_0,
            final(self).padding_1 == old(self).padding_1,
            final(self).wf(),
    {
        self.current_ema_1h = 0;
        self.current_ema_8h = 0;
        self.current_ema_24h = 0;
        self.updates_tracker_1h = 0;
        self.updates_tracker_8h = 0;
        self.updates_tracker_24h = 0;
        self.last_update_slot = 0;
        self.last_update_unix_timestamp = 0;
    }
}

impl Default for EmaTwap {
    fn default() -> (r: EmaTwap)
        ensures
            r.is_zero(),
    {
        EmaTwap::new()
    }
}

/// The table of averages, one record per entry index.
pub struct OracleTwaps {
    pub oracle_prices: [u8; 32],
    pub oracle_mappings: [u8; 32],
    pub twaps: Vec<EmaTwap>,
}

impl OracleTwaps {
    /// The table holds exactly `MAX_ENTRIES` well-formed records.
    pub open spec fn wf(&self) -> bool {
        &&& self.twaps@.len() == MAX_ENTRIES
        &&& forall|i: int| 0 <= i < MAX_ENTRIES ==> (#[trigger] self.twaps@[i]).wf()
    }

    /// A table of zeroed records.
    pub fn new(oracle_prices: [u8; 32], oracle_mappings: [u8; 32]) -> (r: OracleTwaps)
        ensures
            r.wf(),
            r.oracle_prices == oracle_prices,
            r.oracle_mappings == oracle_mappings,
            forall|i: int| 0 <= i < MAX_ENTRIES ==> (#[trigger] r.twaps@[i]).is_zero(),
    {
        let mut twaps: Vec<EmaTwap> = Vec::new();
        let mut i: usize = 0;
        while i < MAX_ENTRIES
            invariant
                i <= MAX_ENTRIES,
                twaps@.len() == i,
                forall|j: int| 0 <= j < i ==> (#[trigger] twaps@[j]).is_zero() && twaps@[j].wf(),
            decreases MAX_ENTRIES - i,
        {
            twaps.push(EmaTwap::new());
            i = i + 1;
        }
        OracleTwaps { oracle_prices, oracle_mappings, twaps }
    }

    /// Zero the record of an entry.
    pub fn reset_entry(&mut self, entry_id: usize)
        requires
            old(self).wf(),
            entry_id < MAX_ENTRIES,
        ensures
            final(self).wf(),
            final(self).twaps@ == old(self).twaps@.update(entry_id as int, final(self).twaps@[entry_id as int]),
            final(self).twaps@[entry_id as int].is_zero(),
            final(self).oracle_prices == old(self).oracle_prices,
            final(self).oracle_mappings == old(self).oracle_mappings,
    {
        self.twaps.set(entry_id, EmaTwap::new());
    }
}

/// Which of the three timeframes an entry maintains, one bit each.
#[derive(Clone, Copy, Debug, PartialEq, Eq, Structural)]
pub struct TwapEnabledBitmask {
    pub bitmask: u8,
}

/// The timeframes enabled in `bitmask`, shortest first.
pub open spec fn enabled_types_spec(m: TwapEnabledBitmask) -> Seq<EmaType> {
    (if m.enabled(EmaType::Ema1h) {
        seq![EmaType::Ema1h]
    } else {
        Seq::empty()
    }) + (if m.enabled(EmaType::Ema8h) {
        seq![EmaType::Ema8h]
    } else {
        Seq::empty()
    }) + (if m.enabled(EmaType::Ema24h) {
        seq![EmaType::Ema24h]
    } else {
        Seq::empty()
    })
}

proof fn lemma_mask_bit(b: u8, i: u8)
    requires
        i < 8,
    ensures
        (b & (1u8 << i) > 0) == ((b >> i) & 1 == 1),
{
    assert((b & (1u8 << i) > 0) == ((b >> i) & 1 == 1)) by (bit_vector)
        requires
            i < 8,
    ;
}

proof fn lemma_mask_set(b: u8, i: u8, j: u8)
    requires
        i < 8,
        j < 8,
    ensures
        ((b | (1u8 << i)) >> j) & 1 == 1 <==> (j == i || (b >> j) & 1 == 1),
        b < 8 && i < 3 ==> b | (1u8 << i) < 8,
{
    assert(((b | (1u8 << i)) >> j) & 1 == 1 <==> (j == i || (b >> j) & 1 == 1)) by (bit_vector)
        requires
            i < 8,
            j < 8,
    ;
    assert(b < 8 && i < 3 ==> b | (1u8 << i) < 8) by (bit_vector);
}

proof fn lemma_small_mask(b: u8)
    ensures
        b == 0 ==> forall|j: u8| j < 8 ==> #[trigger] ((b >> j) & 1) != 1,
        b == 7 ==> forall|j: u8| j < 3 ==> #[trigger] ((b >> j) & 1) == 1,
{
    assert(b == 0 ==> forall|j: u8| j < 8 ==> #[trigger] ((b >> j) & 1) != 1) by (bit_vector);
    assert(b == 7 ==> forall|j: u8| j < 3 ==> #[trigger] ((b >> j) & 1) == 1) by (bit_vector);
}

impl TwapEnabledBitmask {
    /// Whether timeframe `ty` is enabled.
    pub open spec fn enabled(self, ty: EmaType) -> bool {
        (self.bitmask >> ty.index_spec()) & 1 == 1
    }

    /// No timeframe enabled.
    pub fn new() -> (r: TwapEnabledBitmask)
        ensures
            r.bitmask == 0,
            forall|u: EmaType| !r.enabled(u),
    {
        proof {
            lemma_small_mask(0);
        }
        TwapEnabledBitmask { bitmask: 0 }
    }

    /// This mask with `ema_type` enabled as well.
    pub fn enable(&self, ema_type: EmaType) -> (r: TwapEnabledBitmask)
        ensures
            forall|u: EmaType| r.enabled(u) == (u == ema_type || self.enabled(u)),
            self.bitmask < 8 ==> r.bitmask < 8,
    {
        let i = ema_type.index();
        proof {
            assert forall|u: EmaType| #[trigger] (TwapEnabledBitmask { bitmask: self.bitmask | (1u8 << i) }).enabled(u)
                == (u == ema_type || self.enabled(u)) by {
                lemma_mask_set(self.bitmask, i, u.index_spec());
            }
            lemma_mask_set(self.bitmask, i, 0);
        }
        TwapEnabledBitmask { bitmask: self.bitmask | (1u8 << i) }
    }

    /// All three timeframes enabled.
    pub fn new_enable_all() -> (r: TwapEnabledBitmask)
        ensures
            r.bitmask == 7,
            forall|u: EmaType| r.enabled(u),
    {
        proof {
            lemma_small_mask(7);
        }
        TwapEnabledBitmask { bitmask: 7 }
    }

    /// Whether any timeframe is enabled.
    pub fn is_twap_enabled(&self) -> (r: bool)
        ensures
            r == (self.bitmask > 0),
    {
        self.bitmask > 0
    }

    /// Whether timeframe `ema_type` is enabled.
    pub fn is_twap_enabled_for_ema_type(&self, ema_type: EmaType) -> (r: bool)
        ensures
            r == self.enabled(ema_type),
    {
        let i = ema_type.index();
        proof {
            lemma_mask_bit(self.bitmask, i);
        }
        self.bitmask & (1u8 << i) > 0
    }

    /// A mask from its raw bits, which must name only the three timeframes.
    pub fn try_from_bits(bitmask: u8) -> (r: Result<TwapEnabledBitmask, ScopeError>)
        ensures
            bitmask < 8 ==> r == Ok::<TwapEnabledBitmask, ScopeError>(TwapEnabledBitmask { bitmask }),
            bitmask >= 8 ==> r == Err::<TwapEnabledBitmask, ScopeError>(ScopeError::TwapEnabledBitmaskConversionFailure),
    {
        if bitmask < 8 {
            Ok(TwapEnabledBitmask { bitmask })
        } else {
            Err(ScopeError::TwapEnabledBitmaskConversionFailure)
        }
    }

    /// The raw bits of the mask.
    pub fn bits(&self) -> (r: u8)
        ensures
            r == self.bitmask,
    {
        self.bitmask
    }

    /// The mask that enables exactly the listed timeframes.
    pub fn from_ema_types(ema_types: &Vec<EmaType>) -> (r: TwapEnabledBitmask)
        ensures
            r.bitmask < 8,
            forall|u: EmaType| r.enabled(u) == ema_types@.contains(u),
    {
        let mut m = TwapEnabledBitmask::new();
        let mut i: usize = 0;
        while i < ema_types.len()
            invariant
                i <= ema_types@.len(),
                m.bitmask < 8,
                forall|u: EmaType| m.enabled(u) == ema_types@.take(i as int).contains(u),
            decreases ema_types@.len() - i,
        {
            let ghost prev = ema_types@.take(i as int);
            let ghost next = ema_types@.take(i + 1);
            m = m.enable(ema_types[i]);
            assert forall|u: EmaType| m.enabled(u) == next.contains(u) by {
                assert(next =~= prev.push(ema_types@[i as int]));
                if prev.contains(u) {
                    let k = choose|k: int| 0 <= k < prev.len() && prev[k] == u;
                    assert(next[k] == u);
                }
                if u == ema_types@[i as int] {
                    assert(next[i as int] == u);
                }
                if next.contains(u) {
                    let k = choose|k: int| 0 <= k < next.len() && next[k] == u;
                    if k < i {
                        assert(prev[k] == u);
                    }
                }
            }
            i = i + 1;
        }
        assert(ema_types@.take(i as int) =~= ema_types@);
        m
    }

    /// The enabled timeframes, shortest first.
    pub fn to_ema_types(&self) -> (r: Vec<EmaType>)
        ensures
            r@ == enabled_types_spec(*self),
    {
        let mut res: Vec<EmaType> = Vec::new();
        if self.is_twap_enabled_for_ema_type(EmaType::Ema1h) {
            res.push(EmaType::Ema1h);
        }
        if self.is_twap_enabled_for_ema_type(EmaType::Ema8h) {
            res.push(EmaType::Ema8h);
        }
        if self.is_twap_enabled_for_ema_type(EmaType::Ema24h) {
            res.push(EmaType::Ema24h);
        }
        assert(res@ =~= enabled_types_spec(*self));
        res
    }
}

impl TryFrom<u8> for TwapEnabledBitmask {
    type Error = ScopeError;

    fn try_from(bitmask: u8) -> (r: Result<TwapEnabledBitmask, ScopeError>)
        ensures
            bitmask < 8 ==> r == Ok::<TwapEnabledBitmask, ScopeError>(TwapEnabledBitmask { bitmask }),
            bitmask >= 8 ==> r == Err::<TwapEnabledBitmask, ScopeError>(ScopeError::TwapEnabledBitmaskConversionFailure),
    {
        TwapEnabledBitmask::try_from_bits(bitmask)
    }
}

impl vstd::std_specs::convert::TryFromSpecImpl<u8> for TwapEnabledBitmask {
    open spec fn obeys_try_from_spec() -> bool {
        true
    }

    open spec fn try_from_spec(bitmask: u8) -> Result<TwapEnabledBitmask, ScopeError> {
        if bitmask < 8 {
            Ok(TwapEnabledBitmask { bitmask })
        } else {
            Err(ScopeError::TwapEnabledBitmaskConversionFailure)
        }
    }
}

impl From<TwapEnabledBitmask> for u8 {
    fn from(val: TwapEnabledBitmask) -> (r: u8)
        ensures
            r == val.bitmask,
    {
        val.bitmask
    }
}

impl vstd::std_specs::convert::FromSpecImpl<TwapEnabledBitmask> for u8 {
    open spec fn obeys_from_spec() -> bool {
        true
    }

    open spec fn from_spec(val: TwapEnabledBitmask) -> u8 {
        val.bitmask
    }
}

} // verus!
