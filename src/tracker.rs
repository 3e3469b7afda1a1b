use vstd::prelude::*;

verus! {

/// Number of time buckets tracked over one period.
pub const NB_POINTS: u64 = 64;

/// Whether bit `i` of `x` is set.
pub open spec fn bit_of(x: u64, i: int) -> bool {
    (x >> (i as u64)) & 1 == 1
}

/// The bucket of timestamp `ts` in a period of `period` seconds:
/// `floor(ts * 64 / period) mod 64`.
pub open spec fn point_of(ts: u64, period: u64) -> int {
    ((ts as int) * 64 / (period as int)) % 64
}

/// Number of set entries in `s[lo..hi]`.
pub open spec fn count_range(s: Seq<bool>, lo: int, hi: int) -> nat
    decreases hi - lo,
{
    if hi <= lo {
        0
    } else {
        count_range(s, lo, hi - 1) + if s[hi - 1] {
            1nat
        } else {
            0nat
        }
    }
}

/// Number of set entries in `s`.
pub open spec fn count_set(s: Seq<bool>) -> nat {
    count_range(s, 0, s.len() as int)
}

/// Whether bucket `i` lies in the circular span that starts right after
/// bucket `after` and ends at bucket `upto`, inclusive.
pub open spec fn in_span(i: int, after: int, upto: int) -> bool {
    0 < (i - after) % 64 <= (upto - after) % 64
}

/// The tracker after forgetting what lies outside the period that ends at
/// `current_ts`, given that it was last brought up to date at `last_ts`.
pub open spec fn erase_spec(s: Seq<bool>, period: u64, current_ts: u64, last_ts: u64) -> Seq<bool> {
    if current_ts - last_ts >= period {
        Seq::new(64, |i: int| false)
    } else {
        let after = point_of(last_ts, period);
        let upto = point_of(current_ts, period);
        Seq::new(64, |i: int| s[i] && !in_span(i, after, upto))
    }
}

/// The tracker after recording an update at `current_ts`.
pub open spec fn record_spec(s: Seq<bool>, period: u64, current_ts: u64, last_ts: u64) -> Seq<bool> {
    erase_spec(s, period, current_ts, last_ts).update(point_of(current_ts, period), true)
}

/// Start of group `g` when the 64 buckets are cut into `n` contiguous groups
/// whose sizes differ by at most one, the larger groups coming first.
pub open spec fn sub_start(g: int, n: int) -> int {
    g * (64int / n) + if g < 64int % n {
        g
    } else {
        64int % n
    }
}

/// The buckets reordered so that the one at `pivot` comes first.
pub open spec fn rotated(s: Seq<bool>, pivot: int) -> Seq<bool> {
    Seq::new(64, |k: int| s[(pivot + k) % 64])
}

/// The number of set buckets in each of `n` groups, oldest group first, of
/// the buckets ordered from `pivot` on.
pub open spec fn subperiod_counts(s: Seq<bool>, pivot: int, n: int) -> Seq<nat> {
    Seq::new(n as nat, |g: int| count_range(rotated(s, pivot), sub_start(g, n), sub_start(g + 1, n)))
}

/// The bucket that holds the oldest part of the period ending at `current_ts`.
pub open spec fn oldest_point(current_ts: u64, period: u64) -> int {
    (point_of(current_ts, period) + 1) % 64
}

/// Sum of a sequence of counts.
pub open spec fn sum_of(c: Seq<nat>) -> nat
    decreases c.len(),
{
    if c.len() == 0 {
        0
    } else {
        sum_of(c.drop_last()) + c.last()
    }
}

proof fn lemma_count_split(s: Seq<bool>, lo: int, mid: int, hi: int)
    requires
        lo <= mid <= hi,
    ensures
        count_range(s, lo, hi) == count_range(s, lo, mid) + count_range(s, mid, hi),
    decreases hi - mid,
{
    if hi > mid {
        lemma_count_split(s, lo, mid, hi - 1);
    }
}

proof fn lemma_count_shift(a: Seq<bool>, b: Seq<bool>, lo: int, hi: int, d: int)
    requires
        forall|k: int| lo <= k < hi ==> a[k] == b[k + d],
    ensures
        count_range(a, lo, hi) == count_range(b, lo + d, hi + d),
    decreases hi - lo,
{
    if hi > lo {
        lemma_count_shift(a, b, lo, hi - 1, d);
    }
}

proof fn lemma_rotation_count(s: Seq<bool>, pivot: int)
    requires
        s.len() == 64,
        0 <= pivot < 64,
    ensures
        count_range(rotated(s, pivot), 0, 64) == count_set(s),
{
    let r = rotated(s, pivot);
    let m = 64 - pivot;
    lemma_count_split(r, 0, m, 64);
    lemma_count_shift(r, s, 0, m, pivot);
    lemma_count_shift(r, s, m, 64, -m);
    lemma_count_split(s, 0, pivot, 64);
}

proof fn lemma_sub_start(g: int, n: int)
    requires
        1 <= n <= 64,
        0 <= g < n,
    ensures
        sub_start(g + 1, n) == sub_start(g, n) + 64int / n + if g < 64int % n {
            1int
        } else {
            0int
        },
        0 <= sub_start(g, n),
        sub_start(g + 1, n) <= 64,
        sub_start(0, n) == 0,
        sub_start(n, n) == 64,
{
    let base = 64int / n;
    let extra = 64int % n;
    assert((g + 1) * base == g * base + base) by (nonlinear_arith);
    assert(0 <= g * base) by (nonlinear_arith)
        requires
            0 <= g,
            0 <= base,
    ;
    assert((g + 1) * base <= n * base) by (nonlinear_arith)
        requires
            g + 1 <= n,
            0 <= base,
    ;
    assert(n * base + extra == 64) by (nonlinear_arith)
        requires
            base == 64int / n,
            extra == 64int % n,
            n >= 1,
    ;
    assert(extra < n);
}

proof fn lemma_prefix_sums(s: Seq<bool>, pivot: int, n: int, g: int)
    requires
        1 <= n <= 64,
        0 <= g <= n,
    ensures
        sum_of(subperiod_counts(s, pivot, n).take(g)) == count_range(rotated(s, pivot), 0, sub_start(g, n)),
    decreases g,
{
    let c = subperiod_counts(s, pivot, n);
    if g == 0 {
        lemma_sub_start(0, n);
    } else {
        lemma_prefix_sums(s, pivot, n, g - 1);
        lemma_sub_start(g - 1, n);
        assert(c.take(g).drop_last() =~= c.take(g - 1));
        lemma_count_split(rotated(s, pivot), 0, sub_start(g - 1, n), sub_start(g, n));
    }
}

/// Law: the per-group counts of the buckets, for any number of groups from
/// 1 to 64, add up to the number of buckets that saw an update.
pub proof fn lemma_subperiod_counts_sum(t: EmaTracker, ema_period: u64, current_ts: u64, n: usize)
    requires
        ema_period >= NB_POINTS,
        1 <= n <= 64,
    ensures
        sum_of(subperiod_counts(t@, oldest_point(current_ts, ema_period), n as int)) == count_set(t@),
{
    let c = subperiod_counts(t@, oldest_point(current_ts, ema_period), n as int);
    lemma_prefix_sums(t@, oldest_point(current_ts, ema_period), n as int, n as int);
    lemma_sub_start(0, n as int);
    assert(c.take(n as int) =~= c);
    lemma_rotation_count(t@, oldest_point(current_ts, ema_period));
}

/// Law: when a whole period or more has passed since the last update, the
/// tracker is left with no bucket set.
pub proof fn lemma_erase_after_full_period(t: EmaTracker, ema_period: u64, current_ts: u64, last_ts: u64)
    requires
        ema_period >= NB_POINTS,
        last_ts <= current_ts,
        current_ts - last_ts >= ema_period,
    ensures
        forall|i: int| 0 <= i < 64 ==> !(#[trigger] erase_spec(t@, ema_period, current_ts, last_ts)[i]),
        count_set(erase_spec(t@, ema_period, current_ts, last_ts)) == 0,
{
    let e = erase_spec(t@, ema_period, current_ts, last_ts);
    assert forall|h: int| 0 <= h <= 64 implies count_range(e, 0, h) == 0 by {
        lemma_zero_prefix(e, h);
    }
}

proof fn lemma_zero_prefix(e: Seq<bool>, h: int)
    requires
        0 <= h <= e.len(),
        forall|i: int| 0 <= i < e.len() ==> !e[i],
    ensures
        count_range(e, 0, h) == 0,
    decreases h,
{
    if h > 0 {
        lemma_zero_prefix(e, h - 1);
    }
}

proof fn lemma_single_bit_count(e: Seq<bool>, p: int, h: int)
    requires
        0 <= p < e.len(),
        0 <= h <= e.len(),
        forall|i: int| 0 <= i < e.len() ==> e[i] == (i == p),
    ensures
        count_range(e, 0, h) == if p < h {
            1nat
        } else {
            0nat
        },
    decreases h,
{
    if h > 0 {
        lemma_single_bit_count(e, p, h - 1);
    }
}

/// Law: recording one update on a tracker with no bucket set leaves exactly
/// one bucket set.
pub proof fn lemma_record_on_empty(t: EmaTracker, ema_period: u64, current_ts: u64, last_ts: u64)
    requires
        ema_period >= NB_POINTS,
        last_ts <= current_ts,
        count_set(t@) == 0,
    ensures
        count_set(record_spec(t@, ema_period, current_ts, last_ts)) == 1,
{
    let s = t@;
    assert forall|i: int| 0 <= i < 64 implies !s[i] by {
        if s[i] {
            lemma_count_split(s, 0, i, i + 1);
            lemma_count_split(s, 0, i + 1, 64);
        }
    }
    let r = record_spec(s, ema_period, current_ts, last_ts);
    lemma_single_bit_count(r, point_of(current_ts, ema_period), 64);
}

/// A tracker with no bit set has no bucket set.
pub(crate) proof fn lemma_empty_tracker()
    ensures
        count_set(EmaTracker(0)@) == 0,
{
    let s = EmaTracker(0)@;
    assert forall|i: int| 0 <= i < 64 implies !s[i] by {
        lemma_zero_bits(i as u64);
    }
    lemma_zero_prefix(s, 64);
}

proof fn lemma_clear_bit(x: u64, i: u64, j: u64)
    requires
        i < 64,
        j < 64,
    ensures
        ((x & !(1u64 << i)) >> j) & 1 == 1 <==> (j != i && (x >> j) & 1 == 1),
{
    assert(((x & !(1u64 << i)) >> j) & 1 == 1 <==> (j != i && (x >> j) & 1 == 1)) by (bit_vector)
        requires
            i < 64,
            j < 64,
    ;
}

proof fn lemma_set_bit(x: u64, i: u64, j: u64)
    requires
        i < 64,
        j < 64,
    ensures
        ((x | (1u64 << i)) >> j) & 1 == 1 <==> (j == i || (x >> j) & 1 == 1),
{
    assert(((x | (1u64 << i)) >> j) & 1 == 1 <==> (j == i || (x >> j) & 1 == 1)) by (bit_vector)
        requires
            i < 64,
            j < 64,
    ;
}

proof fn lemma_zero_bits(j: u64)
    ensures
        (0u64 >> j) & 1 != 1,
{
    assert((0u64 >> j) & 1 != 1) by (bit_vector);
}

/// Presence of updates in each of the 64 buckets of the most recent period.
#[derive(Clone, Copy, Debug, PartialEq, Eq)]
pub struct EmaTracker(pub u64);

impl View for EmaTracker {
    type V = Seq<bool>;

    open spec fn view(&self) -> Seq<bool> {
        Seq::new(64, |i: int| bit_of(self.0, i))
    }
}

impl From<u64> for EmaTracker {
    fn from(tracker: u64) -> (r: EmaTracker)
        ensures
            r.0 == tracker,
    {
        EmaTracker(tracker)
    }
}

impl vstd::std_specs::convert::FromSpecImpl<u64> for EmaTracker {
    open spec fn obeys_from_spec() -> bool {
        true
    }

    open spec fn from_spec(tracker: u64) -> EmaTracker {
        EmaTracker(tracker)
    }
}

impl From<EmaTracker> for u64 {
    fn from(tracker: EmaTracker) -> (r: u64)
        ensures
            r == tracker.0,
    {
        tracker.0
    }
}

impl vstd::std_specs::convert::FromSpecImpl<EmaTracker> for u64 {
    open spec fn obeys_from_spec() -> bool {
        true
    }

    open spec fn from_spec(tracker: EmaTracker) -> u64 {
        tracker.0
    }
}

impl EmaTracker {
    /// The bucket of a timestamp.
    pub fn ts_to_point(ts: u64, ema_period: u64) -> (r: u64)
        requires
            ema_period >= NB_POINTS,
        ensures
            r == point_of(ts, ema_period),
            r < 64,
    {
        let scaled: u128 = (ts as u128) * 64;
        ((scaled / (ema_period as u128)) % 64) as u64
    }

    /// Forget the buckets that fell out of the period ending at
    /// `current_update_ts`, the tracker being up to date at `last_update_ts`.
    pub fn erase_old_samples(&mut self, ema_period: u64, current_update_ts: u64, last_update_ts: u64)
        requires
            ema_period >= NB_POINTS,
            current_update_ts >= last_update_ts,
        ensures
            final(self)@ == erase_spec(old(self)@, ema_period, current_update_ts, last_update_ts),
    {
        let ghost before = self@;
        let current_point = Self::ts_to_point(current_update_ts, ema_period);
        if current_update_ts - last_update_ts >= ema_period {
            self.0 = 0;
            assert forall|i: int| 0 <= i < 64 implies !bit_of(self.0, i) by {
                lemma_zero_bits(i as u64);
            }
            assert(self@ =~= erase_spec(before, ema_period, current_update_ts, last_update_ts));
            return;
        }
        let last_point = Self::ts_to_point(last_update_ts, ema_period);
        let span: u64 = (current_point + 64 - last_point) % 64;
        assert(span == (current_point - last_point) % 64);
        let mut x: u64 = self.0;
        let mut k: u64 = 1;
        while k <= span
            invariant
                1 <= k <= span + 1,
                span < 64,
                last_point < 64,
                span == (current_point - last_point) % 64,
                forall|i: int|
                    0 <= i < 64 ==> #[trigger] bit_of(x, i) == (before[i] && !(0 < (i - last_point) % 64 < k)),
            decreases span + 1 - k,
        {
            let p: u64 = (last_point + k) % 64;
            assert((p - last_point) % 64 == k);
            assert forall|i: int| 0 <= i < 64 implies #[trigger] bit_of(x & !(1u64 << p), i) == (bit_of(x, i)
                && i != p) by {
                lemma_clear_bit(x, p, i as u64);
            }
            x = x & !(1u64 << p);
            k = k + 1;
        }
        self.0 = x;
        assert(self@ =~= erase_spec(before, ema_period, current_update_ts, last_update_ts));
    }

    /// Record an update at `current_update_ts`, the tracker being up to date
    /// at `last_update_ts`.
    pub fn update_tracker(&mut self, ema_period: u64, current_update_ts: u64, last_update_ts: u64)
        requires
            ema_period >= NB_POINTS,
            current_update_ts >= last_update_ts,
        ensures
            final(self)@ == record_spec(old(self)@, ema_period, current_update_ts, last_update_ts),
    {
        self.erase_old_samples(ema_period, current_update_ts, last_update_ts);
        let ghost erased = self@;
        let current_point = Self::ts_to_point(current_update_ts, ema_period);
        let x = self.0;
        assert forall|i: int| 0 <= i < 64 implies #[trigger] bit_of(x | (1u64 << current_point), i) == (bit_of(x, i)
            || i == current_point) by {
            lemma_set_bit(x, current_point, i as u64);
        }
        self.0 = x | (1u64 << current_point);
        assert(self@ =~= erased.update(current_point as int, true));
    }

    /// Number of buckets of the period that saw an update.
    pub fn get_samples_count(&self) -> (r: u32)
        ensures
            r == count_set(self@),
    {
        let mut count: u32 = 0;
        let mut i: u64 = 0;
        while i < NB_POINTS
            invariant
                i <= 64,
                count == count_range(self@, 0, i as int),
                count <= i,
            decreases 64 - i,
        {
            if (self.0 >> i) & 1 == 1 {
                count = count + 1;
            }
            i = i + 1;
        }
        count
    }

    /// Number of buckets that saw an update in each of `n` groups of the
    /// period ending at `current_ts`, from the oldest group to the newest.
    pub fn get_samples_count_per_subperiods(&self, ema_period: u64, current_ts: u64, n: usize) -> (r: Vec<u32>)
        requires
            ema_period >= NB_POINTS,
            1 <= n <= 64,
        ensures
            r@.len() == n,
            forall|g: int|
                0 <= g < n ==> r@[g] as nat == #[trigger] subperiod_counts(
                    self@,
                    oldest_point(current_ts, ema_period),
                    n as int,
                )[g],
    {
        let current_point = Self::ts_to_point(current_ts, ema_period);
        let pivot: u64 = (current_point + 1) % NB_POINTS;
        let ghost rot = rotated(self@, pivot as int);
        let n64 = n as u64;
        let base: u64 = NB_POINTS / n64;
        let extra: u64 = NB_POINTS % n64;
        let mut counts: Vec<u32> = Vec::new();
        let mut start: u64 = 0;
        let mut g: u64 = 0;
        proof {
            lemma_sub_start(0, n as int);
        }
        while g < n64
            invariant
                n64 == n,
                1 <= n <= 64,
                pivot < 64,
                pivot == oldest_point(current_ts, ema_period),
                rot == rotated(self@, pivot as int),
                base == 64int / (n as int),
                extra == 64int % (n as int),
                g <= n64,
                counts@.len() == g,
                start == sub_start(g as int, n as int),
                forall|j: int|
                    0 <= j < g ==> counts@[j] as nat == #[trigger] subperiod_counts(
                        self@,
                        pivot as int,
                        n as int,
                    )[j],
            decreases n64 - g,
        {
            proof {
                lemma_sub_start(g as int, n as int);
            }
            let end: u64 = if g < extra {
                start + base + 1
            } else {
                start + base
            };
            let mut c: u32 = 0;
            let mut k: u64 = start;
            while k < end
                invariant
                    start <= k <= end <= 64,
                    pivot < 64,
                    rot == rotated(self@, pivot as int),
                    c == count_range(rot, start as int, k as int),
                    c <= k - start,
                decreases end - k,
            {
                let idx: u64 = (pivot + k) % NB_POINTS;
                assert(rot[k as int] == bit_of(self.0, idx as int));
                if (self.0 >> idx) & 1 == 1 {
                    c = c + 1;
                }
                k = k + 1;
            }
            counts.push(c);
            start = end;
            g = g + 1;
        }
        counts
    }
}

} // verus!
