//! The compression statistics aggregator: an observation sink fed by
//! producers each time they make an encode decision. It keeps a detailed
//! event log with bounded retention and a per-event-type table of rolling
//! metrics.
//!
//! The collector is a plain mutable value; an embedding application that
//! shares one collector between threads puts it behind its own lock, and
//! every operation here is short-lived and never blocks, so the critical
//! sections stay minimal.

use vstd::prelude::*;

use vstd::arithmetic::div_mod::{
    lemma_div_by_multiple, lemma_div_is_ordered, lemma_div_pos_is_pos,
};
use vstd::arithmetic::mul::{lemma_mul_inequality, lemma_mul_is_commutative};

use crate::clock::now_secs;
use crate::events::EventType;

verus! {

/// Sizes above this would make the saving arithmetic overflow; larger ones
/// are rejected up front.
pub const MAX_OBSERVED_SIZE: u64 = 0x7FFF_FFFF_FFFF_FFFF;

/// How the collector behaves.
#[derive(Clone, Copy, Debug, PartialEq, Eq, Structural)]
pub struct CompressionStatsConfig {
    /// Off by default: a disabled collector must impose no cost and keep no
    /// state.
    pub enabled: bool,
    /// Consulted by the embedding application when deciding whether to print
    /// a per-event report after each observation.
    pub verbose_logging: bool,
    /// How long detailed records are kept, in seconds.
    pub retention_seconds: u64,
}

impl Default for CompressionStatsConfig {
    fn default() -> (r: Self)
        ensures
            r == (CompressionStatsConfig {
                enabled: false,
                verbose_logging: false,
                retention_seconds: 3600,
            }),
    {
        CompressionStatsConfig { enabled: false, verbose_logging: false, retention_seconds: 3600 }
    }
}

/// The outcome of evaluating one candidate codec before a final choice was
/// made: its name, the size it produced, and the thousandths of the
/// serialized size it saved.
#[derive(Clone, Debug)]
pub struct CompressionTrialResult {
    pub method: String,
    pub compressed_size: usize,
    pub saving_permille: i64,
}

impl CompressionTrialResult {
    /// An equal copy.
    pub fn duplicate(&self) -> (r: Self)
        ensures
            r == *self,
    {
        CompressionTrialResult {
            method: self.method.clone(),
            compressed_size: self.compressed_size,
            saving_permille: self.saving_permille,
        }
    }
}

/// The detailed record of one observed encode decision.
#[derive(Clone, Debug)]
pub struct EventCompressionStats {
    pub event_type: EventType,
    /// In-memory size of the source struct, in bytes.
    pub struct_size: usize,
    pub bincode_size: usize,
    pub json_size: usize,
    /// Size of the serialization actually chosen.
    pub serialized_size: usize,
    /// Candidate codecs evaluated, in the order they were tried.
    pub compression_results: Vec<CompressionTrialResult>,
    pub final_compressed_size: usize,
    /// Name of the codec actually used.
    pub used_compression: String,
    /// Struct size minus final size; negative when encoding grew the data.
    pub total_saving: i64,
    /// `total_saving` as thousandths of the struct size; 0 for an empty
    /// struct, a defensive default.
    pub total_ratio_permille: i64,
    /// When the observation was made, in seconds since the Unix epoch.
    pub timestamp: u64,
}

/// Field-wise equality between detailed records (the candidate list compared
/// by its contents).
pub open spec fn rec_eq(a: EventCompressionStats, b: EventCompressionStats) -> bool {
    &&& a.event_type == b.event_type
    &&& a.struct_size == b.struct_size
    &&& a.bincode_size == b.bincode_size
    &&& a.json_size == b.json_size
    &&& a.serialized_size == b.serialized_size
    &&& a.compression_results@ == b.compression_results@
    &&& a.final_compressed_size == b.final_compressed_size
    &&& a.used_compression == b.used_compression
    &&& a.total_saving == b.total_saving
    &&& a.total_ratio_permille == b.total_ratio_permille
    &&& a.timestamp == b.timestamp
}

impl EventCompressionStats {
    /// A field-wise equal copy.
    pub fn duplicate(&self) -> (r: Self)
        ensures
            rec_eq(r, *self),
    {
        EventCompressionStats {
            event_type: self.event_type,
            struct_size: self.struct_size,
            bincode_size: self.bincode_size,
            json_size: self.json_size,
            serialized_size: self.serialized_size,
            compression_results: duplicate_trials(&self.compression_results),
            final_compressed_size: self.final_compressed_size,
            used_compression: self.used_compression.clone(),
            total_saving: self.total_saving,
            total_ratio_permille: self.total_ratio_permille,
            timestamp: self.timestamp,
        }
    }
}

/// An equal copy of a candidate list.
fn duplicate_trials(v: &Vec<CompressionTrialResult>) -> (r: Vec<CompressionTrialResult>)
    ensures
        r@ == v@,
{
    let mut r: Vec<CompressionTrialResult> = Vec::new();
    let mut i: usize = 0;
    while i < v.len()
        invariant
            i <= v@.len(),
            r@ == v@.take(i as int),
        decreases v@.len() - i,
    {
        r.push(v[i].duplicate());
        proof {
            assert(r@ =~= v@.take(i + 1));
        }
        i = i + 1;
    }
    proof {
        assert(v@.take(v@.len() as int) =~= v@);
    }
    r
}

/// The per-event-type rolling record.
#[derive(Clone, Debug)]
pub struct AggregatedStats {
    pub event_type: EventType,
    pub total_events: u64,
    /// Running mean of the struct sizes, in bytes (integer division on each
    /// step).
    pub avg_struct_size: u64,
    /// Running mean of the per-event saving ratios, in thousandths.
    pub avg_compression_ratio_permille: i64,
    /// Name of the best-performing codec observed so far: smallest resulting
    /// size wins, ties broken by first occurrence in the candidate list.
    pub best_compression_method: String,
    /// Sum of the positive savings observed, in bytes; negative savings are
    /// excluded, so this never decreases.
    pub total_bytes_saved: u64,
    pub last_updated: u64,
}

impl AggregatedStats {
    /// An equal copy.
    pub fn duplicate(&self) -> (r: Self)
        ensures
            r == *self,
    {
        AggregatedStats {
            event_type: self.event_type,
            total_events: self.total_events,
            avg_struct_size: self.avg_struct_size,
            avg_compression_ratio_permille: self.avg_compression_ratio_permille,
            best_compression_method: self.best_compression_method.clone(),
            total_bytes_saved: self.total_bytes_saved,
            last_updated: self.last_updated,
        }
    }
}

/// Whether a record written at `ts` is still inside the retention window at
/// `now`: its age is strictly below the retention span.
pub open spec fn spec_retained(ts: u64, now: u64, retention: u64) -> bool {
    now - ts < retention
}

/// The retention test on a whole record.
pub open spec fn retained_pred(now: u64, retention: u64) -> spec_fn(EventCompressionStats) -> bool {
    |r: EventCompressionStats| spec_retained(r.timestamp, now, retention)
}

/// The log with every record outside the retention window removed, order
/// kept.
pub open spec fn spec_prune(
    log: Seq<EventCompressionStats>,
    now: u64,
    retention: u64,
) -> Seq<EventCompressionStats> {
    log.filter(retained_pred(now, retention))
}

/// The test for one event type, on a whole record.
pub open spec fn same_type_pred(t: EventType) -> spec_fn(EventCompressionStats) -> bool {
    |x: EventCompressionStats| x.event_type == t
}

/// Truncating division: quotient rounded toward zero, as machine division
/// does (`b` positive).
pub open spec fn spec_tdiv(a: int, b: int) -> int {
    if a >= 0 {
        a / b
    } else {
        -((-a) / b)
    }
}

/// `a` clamped into `i64`'s range.
pub open spec fn spec_clamp_i64(a: int) -> int {
    if a < i64::MIN {
        i64::MIN as int
    } else if a > i64::MAX {
        i64::MAX as int
    } else {
        a
    }
}

/// The saving ratio of one observation, in thousandths of the struct size:
/// `(struct - final) * 1000 / struct`, clamped into `i64`; 0 for an empty
/// struct.
pub open spec fn spec_ratio_of(struct_size: int, final_size: int) -> int {
    if struct_size > 0 {
        spec_clamp_i64(spec_tdiv((struct_size - final_size) * 1000, struct_size))
    } else {
        0
    }
}

/// The event count after one more observation; saturates rather than wraps.
pub open spec fn spec_next_count(n: u64) -> u64 {
    if n == u64::MAX {
        n
    } else {
        (n + 1) as u64
    }
}

/// One step of the running mean: `(avg * (n - 1) + x) / n` where `n` is the
/// post-increment count, rounded toward zero.
pub open spec fn spec_mean_step(avg: int, n: int, x: int) -> int {
    spec_tdiv(avg * (n - 1) + x, n)
}

/// `i` points at the stable minimum of the candidate list: no candidate is
/// smaller, and every earlier candidate is strictly larger.
pub open spec fn spec_is_stable_min(results: Seq<CompressionTrialResult>, i: int) -> bool {
    &&& 0 <= i < results.len()
    &&& forall|j: int|
        0 <= j < results.len() ==> results[i].compressed_size <= #[trigger] results[j].compressed_size
    &&& forall|j: int|
        0 <= j < i ==> #[trigger] results[j].compressed_size > results[i].compressed_size
}

/// The index of the stable minimum (meaningful when the list is non-empty).
pub open spec fn spec_stable_min_index(results: Seq<CompressionTrialResult>) -> int {
    choose|i: int| spec_is_stable_min(results, i)
}

/// The name recorded as best: the stable minimum's, or the fallback when no
/// candidates were supplied.
pub open spec fn spec_best_method(results: Seq<CompressionTrialResult>, fallback: String) -> String {
    if results.len() == 0 {
        fallback
    } else {
        results[spec_stable_min_index(results)].method
    }
}

/// `a + amt` in `u64`, saturating (`amt` non-negative).
pub open spec fn spec_sat_add_u64(a: u64, amt: int) -> u64 {
    if a + amt <= u64::MAX {
        (a + amt) as u64
    } else {
        u64::MAX
    }
}

/// The entry a fresh event type starts from, before its first observation is
/// folded in.
pub open spec fn spec_fresh_entry(t: EventType, used: String, now: u64) -> AggregatedStats {
    AggregatedStats {
        event_type: t,
        total_events: 0,
        avg_struct_size: 0,
        avg_compression_ratio_permille: 0,
        best_compression_method: used,
        total_bytes_saved: 0,
        last_updated: now,
    }
}

/// One observation folded into a per-event-type entry: the count goes up,
/// both running means take one incremental step, positive savings are added,
/// the best codec is re-chosen from the candidate list, and the update time
/// is recorded.
pub open spec fn spec_apply_record(
    prev: AggregatedStats,
    struct_size: usize,
    results: Seq<CompressionTrialResult>,
    saving: int,
    ratio: int,
    now: u64,
) -> AggregatedStats {
    let n = spec_next_count(prev.total_events);
    AggregatedStats {
        event_type: prev.event_type,
        total_events: n,
        avg_struct_size: spec_mean_step(
            prev.avg_struct_size as int,
            n as int,
            struct_size as int,
        ) as u64,
        avg_compression_ratio_permille: spec_mean_step(
            prev.avg_compression_ratio_permille as int,
            n as int,
            ratio,
        ) as i64,
        best_compression_method: spec_best_method(results, prev.best_compression_method),
        total_bytes_saved: if saving > 0 {
            spec_sat_add_u64(prev.total_bytes_saved, saving)
        } else {
            prev.total_bytes_saved
        },
        last_updated: now,
    }
}

/// Whether the table holds an entry for `t`.
pub open spec fn agg_has(agg: Seq<AggregatedStats>, t: EventType) -> bool {
    exists|i: int| 0 <= i < agg.len() && agg[i].event_type == t
}

/// The index of the entry for `t` (meaningful when `agg_has`).
pub open spec fn spec_agg_index(agg: Seq<AggregatedStats>, t: EventType) -> int {
    choose|i: int| 0 <= i < agg.len() && agg[i].event_type == t
}

/// The compression statistics collector.
pub struct CompressionStatsCollector {
    pub config: CompressionStatsConfig,
    /// The detailed event log, oldest first, pruned on every insert.
    pub event_stats: Vec<EventCompressionStats>,
    /// The per-event-type table; one entry per event type.
    pub aggregated_stats: Vec<AggregatedStats>,
}

/// What one observation does to the collector: the record is appended and the
/// log pruned to the retention window; the observed event type's entry (a
/// fresh one if the type is new) takes the observation, all others stay.
pub open spec fn spec_recorded(
    pre: CompressionStatsCollector,
    post: CompressionStatsCollector,
    event_type: EventType,
    struct_size: usize,
    bincode_size: usize,
    json_size: usize,
    serialized_size: usize,
    compression_results: Vec<CompressionTrialResult>,
    final_compressed_size: usize,
    used_compression: String,
    now: u64,
) -> bool {
    let saving: int = struct_size - final_compressed_size;
    let ratio: int = spec_ratio_of(struct_size as int, final_compressed_size as int);
    let rec = (EventCompressionStats {
        event_type,
        struct_size,
        bincode_size,
        json_size,
        serialized_size,
        compression_results,
        final_compressed_size,
        used_compression,
        total_saving: saving as i64,
        total_ratio_permille: ratio as i64,
        timestamp: now,
    });
    let agg = pre.aggregated_stats@;
    let base = if agg_has(agg, event_type) {
        agg[spec_agg_index(agg, event_type)]
    } else {
        spec_fresh_entry(event_type, used_compression, now)
    };
    let updated = spec_apply_record(base, struct_size, compression_results@, saving, ratio, now);
    &&& post.config == pre.config
    &&& post.event_stats@ == spec_prune(
        pre.event_stats@.push(rec),
        now,
        pre.config.retention_seconds,
    )
    &&& if agg_has(agg, event_type) {
        post.aggregated_stats@ == agg.update(spec_agg_index(agg, event_type), updated)
    } else {
        post.aggregated_stats@ == agg.push(updated)
    }
}

impl CompressionStatsCollector {
    /// One entry per event type in the aggregate table.
    pub open spec fn wf(self) -> bool {
        forall|i: int, j: int|
            0 <= i < j < self.aggregated_stats@.len() ==> #[trigger] self.aggregated_stats@[i].event_type
                != #[trigger] self.aggregated_stats@[j].event_type
    }

    /// A collector with no observations yet.
    pub fn new(config: CompressionStatsConfig) -> (r: Self)
        ensures
            r.config == config,
            r.event_stats@ == Seq::<EventCompressionStats>::empty(),
            r.aggregated_stats@ == Seq::<AggregatedStats>::empty(),
            r.wf(),
    {
        CompressionStatsCollector {
            config,
            event_stats: Vec::new(),
            aggregated_stats: Vec::new(),
        }
    }

    /// Whether observations are being collected.
    pub fn is_enabled(&self) -> (r: bool)
        ensures
            r == self.config.enabled,
    {
        self.config.enabled
    }

    /// Replace the configuration; the collected state is untouched.
    pub fn update_config(&mut self, config: CompressionStatsConfig)
        ensures
            *final (self) == (CompressionStatsCollector { config, ..*old(self) }),
    {
        self.config = config;
    }

    /// Record one encode decision, stamped `now` (seconds since the Unix
    /// epoch). Does nothing when the collector is disabled.
    pub fn record_at(
        &mut self,
        event_type: EventType,
        struct_size: usize,
        bincode_size: usize,
        json_size: usize,
        serialized_size: usize,
        compression_results: Vec<CompressionTrialResult>,
        final_compressed_size: usize,
        used_compression: String,
        now: u64,
    )
        requires
            old(self).wf(),
            struct_size as u64 <= MAX_OBSERVED_SIZE,
            final_compressed_size as u64 <= MAX_OBSERVED_SIZE,
        ensures
            final (self).wf(),
            !old(self).config.enabled ==> *final (self) == *old(self),
            old(self).config.enabled ==> spec_recorded(
                *old(self),
                *final (self),
                event_type,
                struct_size,
                bincode_size,
                json_size,
                serialized_size,
                compression_results,
                final_compressed_size,
                used_compression,
                now,
            ),
    {
        if !self.config.enabled {
            return ;
        }
        let saving: i64 = struct_size as i64 - final_compressed_size as i64;
        let ratio: i64 = ratio_permille_exec(struct_size, final_compressed_size);

        // Fold the observation into the aggregate table first, while the
        // candidate list and codec name are still borrowed.
        let idx_opt = find_agg_index(&self.aggregated_stats, event_type);
        match idx_opt {
            Some(i) => {
                let prev = self.aggregated_stats.remove(i);
                let updated = apply_record_exec(
                    prev,
                    struct_size,
                    &compression_results,
                    saving,
                    ratio,
                    now,
                );
                self.aggregated_stats.insert(i, updated);
                proof {
                    let agg = old(self).aggregated_stats@;
                    assert(0 <= i < agg.len() && agg[i as int].event_type == event_type);
                    let ci = spec_agg_index(agg, event_type);
                    assert(0 <= ci < agg.len() && agg[ci].event_type == event_type);
                    assert(ci == i as int);
                    assert(self.aggregated_stats@ =~= agg.update(
                        i as int,
                        spec_apply_record(
                            agg[i as int],
                            struct_size,
                            compression_results@,
                            saving as int,
                            ratio as int,
                            now,
                        ),
                    ));
                }
            },
            None => {
                let fresh = AggregatedStats {
                    event_type,
                    total_events: 0,
                    avg_struct_size: 0,
                    avg_compression_ratio_permille: 0,
                    best_compression_method: used_compression.clone(),
                    total_bytes_saved: 0,
                    last_updated: now,
                };
                let updated = apply_record_exec(
                    fresh,
                    struct_size,
                    &compression_results,
                    saving,
                    ratio,
                    now,
                );
                self.aggregated_stats.push(updated);
            },
        }

        // Then append the detailed record and prune the log.
        let rec = EventCompressionStats {
            event_type,
            struct_size,
            bincode_size,
            json_size,
            serialized_size,
            compression_results,
            final_compressed_size,
            used_compression,
            total_saving: saving,
            total_ratio_permille: ratio,
            timestamp: now,
        };
        self.event_stats.push(rec);
        let retention = self.config.retention_seconds;
        prune_log(&mut self.event_stats, now, retention);
    }

    /// Record one encode decision, stamped with the wall clock. Does nothing
    /// when the collector is disabled.
    pub fn record_compression_stats(
        &mut self,
        event_type: EventType,
        struct_size: usize,
        bincode_size: usize,
        json_size: usize,
        serialized_size: usize,
        compression_results: Vec<CompressionTrialResult>,
        final_compressed_size: usize,
        used_compression: String,
    )
        requires
            old(self).wf(),
            struct_size as u64 <= MAX_OBSERVED_SIZE,
            final_compressed_size as u64 <= MAX_OBSERVED_SIZE,
        ensures
            final (self).wf(),
            !old(self).config.enabled ==> *final (self) == *old(self),
            old(self).config.enabled ==> exists|now: u64|
                spec_recorded(
                    *old(self),
                    *final (self),
                    event_type,
                    struct_size,
                    bincode_size,
                    json_size,
                    serialized_size,
                    compression_results,
                    final_compressed_size,
                    used_compression,
                    now,
                ),
    {
        let now = now_secs();
        self.record_at(
            event_type,
            struct_size,
            bincode_size,
            json_size,
            serialized_size,
            compression_results,
            final_compressed_size,
            used_compression,
            now,
        );
    }

    /// An independent copy of the aggregate table; empty when disabled.
    pub fn get_aggregated_stats(&self) -> (r: Vec<AggregatedStats>)
        ensures
            !self.config.enabled ==> r@ == Seq::<AggregatedStats>::empty(),
            self.config.enabled ==> r@ == self.aggregated_stats@,
    {
        if !self.config.enabled {
            return Vec::new();
        }
        let mut r: Vec<AggregatedStats> = Vec::new();
        let mut i: usize = 0;
        while i < self.aggregated_stats.len()
            invariant
                i <= self.aggregated_stats@.len(),
                r@ == self.aggregated_stats@.take(i as int),
            decreases self.aggregated_stats@.len() - i,
        {
            r.push(self.aggregated_stats[i].duplicate());
            proof {
                assert(r@ =~= self.aggregated_stats@.take(i + 1));
            }
            i = i + 1;
        }
        proof {
            assert(self.aggregated_stats@.take(self.aggregated_stats@.len() as int)
                =~= self.aggregated_stats@);
        }
        r
    }

    /// The most recent retained records for one event type, newest first, at
    /// most `limit` of them; empty when disabled.
    pub fn get_recent_stats(&self, event_type: EventType, limit: usize) -> (r: Vec<
        EventCompressionStats,
    >)
        ensures
            !self.config.enabled ==> r@ == Seq::<EventCompressionStats>::empty(),
            self.config.enabled ==> ({
                let f = self.event_stats@.filter(same_type_pred(event_type));
                &&& r@.len() == vstd::math::min(limit as int, f.len() as int)
                &&& forall|i: int| 0 <= i < r@.len() ==> rec_eq(#[trigger] r@[i], f[f.len() - 1 - i])
            }),
    {
        if !self.config.enabled {
            return Vec::new();
        }
        let matching = filter_by_type(&self.event_stats, event_type);
        let take_n: usize = if limit < matching.len() {
            limit
        } else {
            matching.len()
        };
        let mut r: Vec<EventCompressionStats> = Vec::new();
        let mut k: usize = 0;
        while k < take_n
            invariant
                k <= take_n,
                take_n <= matching@.len(),
                r@.len() == k,
                forall|i: int| 0 <= i < k ==> rec_eq(#[trigger] r@[i], matching@[matching@.len() - 1 - i]),
            decreases take_n - k,
        {
            r.push(matching[matching.len() - 1 - k].duplicate());
            k = k + 1;
        }
        r
    }

    /// Prune records outside the retention window, as an external scheduler
    /// would do periodically, using the wall clock. Does nothing when the
    /// collector is disabled.
    pub fn cleanup_expired_stats(&mut self)
        ensures
            !old(self).config.enabled ==> *final (self) == *old(self),
            final (self).config == old(self).config,
            final (self).aggregated_stats == old(self).aggregated_stats,
            old(self).config.enabled ==> exists|now: u64|
                final (self).event_stats@ == #[trigger] spec_prune(
                    old(self).event_stats@,
                    now,
                    old(self).config.retention_seconds,
                ),
    {
        let now = now_secs();
        self.cleanup_expired_at(now);
    }

    /// Prune records outside the retention window as of `now`. Does nothing
    /// when the collector is disabled.
    pub fn cleanup_expired_at(&mut self, now: u64)
        ensures
            !old(self).config.enabled ==> *final (self) == *old(self),
            final (self).config == old(self).config,
            final (self).aggregated_stats == old(self).aggregated_stats,
            old(self).config.enabled ==> final (self).event_stats@ == spec_prune(
                old(self).event_stats@,
                now,
                old(self).config.retention_seconds,
            ),
    {
        if !self.config.enabled {
            return ;
        }
        let retention = self.config.retention_seconds;
        prune_log(&mut self.event_stats, now, retention);
    }
}

/// Whether a record written at `ts` is retained at `now`.
fn is_retained(ts: u64, now: u64, retention: u64) -> (r: bool)
    ensures
        r == spec_retained(ts, now, retention),
{
    ts > now || now - ts < retention
}

/// Remove every record outside the retention window, keeping order.
fn prune_log(log: &mut Vec<EventCompressionStats>, now: u64, retention: u64)
    ensures
        final (log)@ == spec_prune(old(log)@, now, retention),
{
    broadcast use Seq::lemma_filter_push;

    let ghost orig = log@;
    let mut kept: Vec<EventCompressionStats> = Vec::new();
    while log.len() > 0
        invariant
            log@.len() <= orig.len(),
            log@ == orig.skip(orig.len() - log@.len()),
            kept@ == spec_prune(orig.take(orig.len() - log@.len()), now, retention),
        decreases log@.len(),
    {
        let ghost k: int = orig.len() - log@.len();
        let ghost pre: Seq<EventCompressionStats> = log@;
        let r = log.remove(0);
        proof {
            assert(0 <= k < orig.len());
            assert(r == pre[0]);
            assert(pre[0] == orig[k]);
            assert(log@ =~= orig.skip(k + 1));
            assert(orig.take(k + 1) =~= orig.take(k).push(orig[k]));
            orig.take(k).lemma_filter_push(orig[k], retained_pred(now, retention));
            assert(orig.take(k).push(orig[k]).filter(retained_pred(now, retention)) == orig.take(
                k + 1,
            ).filter(retained_pred(now, retention)));
            assert(retained_pred(now, retention)(orig[k]) == spec_retained(
                orig[k].timestamp,
                now,
                retention,
            ));
        }
        if is_retained(r.timestamp, now, retention) {
            kept.push(r);
        }
    }
    proof {
        assert(orig.take(orig.len() as int) =~= orig);
    }
    *log = kept;
}

/// The records of one event type, in order, as field-wise equal copies.
fn filter_by_type(log: &Vec<EventCompressionStats>, t: EventType) -> (r: Vec<EventCompressionStats>)
    ensures
        r@.len() == log@.filter(same_type_pred(t)).len(),
        forall|i: int|
            0 <= i < r@.len() ==> rec_eq(#[trigger] r@[i], log@.filter(same_type_pred(t))[i]),
{
    broadcast use Seq::lemma_filter_push;

    let mut r: Vec<EventCompressionStats> = Vec::new();
    let mut i: usize = 0;
    while i < log.len()
        invariant
            i <= log@.len(),
            r@.len() == log@.take(i as int).filter(same_type_pred(t)).len(),
            forall|j: int|
                0 <= j < r@.len() ==> rec_eq(
                    #[trigger] r@[j],
                    log@.take(i as int).filter(same_type_pred(t))[j],
                ),
        decreases log@.len() - i,
    {
        proof {
            assert(log@.take(i + 1) =~= log@.take(i as int).push(log@[i as int]));
            log@.take(i as int).lemma_filter_push(log@[i as int], same_type_pred(t));
            assert(log@.take(i as int).push(log@[i as int]).filter(same_type_pred(t)) == log@.take(
                i + 1,
            ).filter(same_type_pred(t)));
            assert(same_type_pred(t)(log@[i as int]) == (log@[i as int].event_type == t));
        }
        if log[i].event_type == t {
            r.push(log[i].duplicate());
        }
        i = i + 1;
    }
    proof {
        assert(log@.take(log@.len() as int) =~= log@);
    }
    r
}

/// First entry for `t`, if any.
fn find_agg_index(agg: &Vec<AggregatedStats>, t: EventType) -> (r: Option<usize>)
    ensures
        r is None ==> !agg_has(agg@, t),
        r matches Some(i) ==> 0 <= i < agg@.len() && agg@[i as int].event_type == t,
{
    let mut i: usize = 0;
    while i < agg.len()
        invariant
            i <= agg@.len(),
            forall|j: int| 0 <= j < i ==> #[trigger] agg@[j].event_type != t,
        decreases agg@.len() - i,
    {
        if agg[i].event_type == t {
            return Some(i);
        }
        i = i + 1;
    }
    None
}

/// Index of the stable minimum of the candidate list, if the list is
/// non-empty.
fn best_trial_index(results: &Vec<CompressionTrialResult>) -> (r: Option<usize>)
    ensures
        r is None <==> results@.len() == 0,
        r matches Some(i) ==> spec_is_stable_min(results@, i as int),
{
    if results.len() == 0 {
        return None;
    }
    let mut best: usize = 0;
    let mut i: usize = 1;
    while i < results.len()
        invariant
            best < i <= results@.len(),
            forall|j: int|
                0 <= j < i ==> results@[best as int].compressed_size
                    <= #[trigger] results@[j].compressed_size,
            forall|j: int|
                0 <= j < best ==> #[trigger] results@[j].compressed_size
                    > results@[best as int].compressed_size,
        decreases results@.len() - i,
    {
        if results[i].compressed_size < results[best].compressed_size {
            best = i;
        }
        i = i + 1;
    }
    Some(best)
}

/// The saving ratio of one observation, in thousandths of the struct size.
fn ratio_permille_exec(struct_size: usize, final_size: usize) -> (r: i64)
    requires
        struct_size as u64 <= MAX_OBSERVED_SIZE,
        final_size as u64 <= MAX_OBSERVED_SIZE,
    ensures
        r as int == spec_ratio_of(struct_size as int, final_size as int),
{
    if struct_size == 0 {
        return 0;
    }
    if final_size <= struct_size {
        let saved: u64 = (struct_size - final_size) as u64;
        let scaled: u128 = saved as u128 * 1000;
        let q: u128 = scaled / (struct_size as u128);
        proof {
            lemma_mul_inequality(saved as int, struct_size as int, 1000);
            lemma_mul_is_commutative(struct_size as int, 1000);
            lemma_div_is_ordered(
                saved as int * 1000,
                struct_size as int * 1000,
                struct_size as int,
            );
            lemma_div_by_multiple(1000, struct_size as int);
        }
        q as i64
    } else {
        let over: u64 = (final_size - struct_size) as u64;
        let scaled: u128 = over as u128 * 1000;
        let q: u128 = scaled / (struct_size as u128);
        if q >= 0x8000_0000_0000_0000 {
            i64::MIN
        } else {
            -(q as i64)
        }
    }
}

/// Fold one observation into an entry, as `spec_apply_record` describes.
fn apply_record_exec(
    prev: AggregatedStats,
    struct_size: usize,
    results: &Vec<CompressionTrialResult>,
    saving: i64,
    ratio: i64,
    now: u64,
) -> (r: AggregatedStats)
    ensures
        r == spec_apply_record(prev, struct_size, results@, saving as int, ratio as int, now),
{
    let n: u64 = if prev.total_events == u64::MAX {
        u64::MAX
    } else {
        prev.total_events + 1
    };
    let avg_struct = mean_step_u64(prev.avg_struct_size, n, struct_size as u64);
    let avg_ratio = mean_step_i64(prev.avg_compression_ratio_permille, n, ratio);
    let tbs: u64 = if saving > 0 {
        let amt: u64 = saving as u64;
        if prev.total_bytes_saved <= u64::MAX - amt {
            prev.total_bytes_saved + amt
        } else {
            u64::MAX
        }
    } else {
        prev.total_bytes_saved
    };
    let best: String = match best_trial_index(results) {
        Some(i) => {
            proof {
                let chosen = spec_stable_min_index(results@);
                assert(spec_is_stable_min(results@, i as int));
                assert(spec_is_stable_min(results@, chosen));
                lemma_stable_min_unique(results@, i as int, chosen);
            }
            results[i].method.clone()
        },
        None => prev.best_compression_method,
    };
    AggregatedStats {
        event_type: prev.event_type,
        total_events: n,
        avg_struct_size: avg_struct,
        avg_compression_ratio_permille: avg_ratio,
        best_compression_method: best,
        total_bytes_saved: tbs,
        last_updated: now,
    }
}

/// There is at most one stable minimum.
proof fn lemma_stable_min_unique(results: Seq<CompressionTrialResult>, i: int, j: int)
    requires
        spec_is_stable_min(results, i),
        spec_is_stable_min(results, j),
    ensures
        i == j,
{
    if i < j {
        assert(results[i].compressed_size > results[j].compressed_size);
        assert(results[j].compressed_size <= results[i].compressed_size);
    } else if j < i {
        assert(results[j].compressed_size > results[i].compressed_size);
        assert(results[i].compressed_size <= results[j].compressed_size);
    }
}

/// One step of the running mean over non-negative values.
fn mean_step_u64(avg: u64, n: u64, x: u64) -> (r: u64)
    requires
        n >= 1,
    ensures
        r as int == spec_mean_step(avg as int, n as int, x as int),
{
    proof {
        assert(0 <= avg as int * (n as int - 1) <= 0xFFFF_FFFF_FFFF_FFFF
            * 0xFFFF_FFFF_FFFF_FFFF) by (nonlinear_arith)
            requires
                0 <= avg as int <= 0xFFFF_FFFF_FFFF_FFFF,
                0 <= n as int - 1 <= 0xFFFF_FFFF_FFFF_FFFF,
        ;
        lemma_mean_in_range(avg as int, n as int, x as int, 0, u64::MAX as int);
    }
    let num: u128 = avg as u128 * (n as u128 - 1) + x as u128;
    let q: u128 = num / (n as u128);
    q as u64
}

/// One step of the running mean over signed values (the ratio average).
fn mean_step_i64(avg: i64, n: u64, x: i64) -> (r: i64)
    requires
        n >= 1,
    ensures
        r as int == spec_mean_step(avg as int, n as int, x as int),
{
    proof {
        assert(-0x8000_0000_0000_0000 * 0xFFFF_FFFF_FFFF_FFFF <= avg as int * (n as int - 1)
            <= 0x7FFF_FFFF_FFFF_FFFF * 0xFFFF_FFFF_FFFF_FFFF) by (nonlinear_arith)
            requires
                -0x8000_0000_0000_0000 <= avg as int <= 0x7FFF_FFFF_FFFF_FFFF,
                0 <= n as int - 1 <= 0xFFFF_FFFF_FFFF_FFFF,
        ;
        lemma_mean_in_range(avg as int, n as int, x as int, i64::MIN as int, i64::MAX as int);
    }
    let nm1: i128 = n as i128 - 1;
    let num: i128 = avg as i128 * nm1 + x as i128;
    if num >= 0 {
        let q: u128 = (num as u128) / (n as u128);
        q as i64
    } else {
        let neg1: i128 = -(num + 1);
        let m: u128 = neg1 as u128 + 1;
        assert(m as int == -(num as int));
        let q: u128 = m / (n as u128);
        if q >= 0x8000_0000_0000_0000 {
            i64::MIN
        } else {
            -(q as i64)
        }
    }
}

/// The running-mean step stays between the bounds that hold of both the old
/// mean and the new sample.
proof fn lemma_mean_in_range(avg: int, n: int, x: int, lo: int, hi: int)
    requires
        n >= 1,
        lo <= avg <= hi,
        lo <= x <= hi,
    ensures
        lo <= spec_mean_step(avg, n, x) <= hi,
{
    let s = avg * (n - 1) + x;
    assert(s <= hi * n && s >= lo * n) by {
        lemma_mul_inequality(avg, hi, n - 1);
        lemma_mul_inequality(lo, avg, n - 1);
        assert(hi * (n - 1) + hi == hi * n) by (nonlinear_arith);
        assert(lo * (n - 1) + lo == lo * n) by (nonlinear_arith);
    }
    if s >= 0 {
        assert(hi * n >= 0);
        assert(hi >= 0) by (nonlinear_arith)
            requires
                hi * n >= 0,
                n >= 1,
        ;
        lemma_div_is_ordered(s, hi * n, n);
        lemma_div_by_multiple(hi, n);
        assert(s / n <= hi);
        if lo >= 0 {
            lemma_mul_inequality(0, lo, n);
            lemma_div_is_ordered(lo * n, s, n);
            lemma_div_by_multiple(lo, n);
            assert(s / n >= lo);
        } else {
            lemma_div_pos_is_pos(s, n);
            assert(s / n >= 0 > lo - 1);
        }
        assert(spec_mean_step(avg, n, x) == s / n);
    } else {
        let m = -s;
        assert(spec_mean_step(avg, n, x) == -(m / n));
        assert(m <= (-lo) * n) by (nonlinear_arith)
            requires
                s >= lo * n,
                m == -s,
        ;
        assert(lo < 0) by (nonlinear_arith)
            requires
                s < 0,
                s >= lo * n,
                n >= 1,
        ;
        lemma_div_is_ordered(m, (-lo) * n, n);
        lemma_div_by_multiple(-lo, n);
        assert(m / n <= -lo);
        assert(-(m / n) >= lo);
        if hi < 0 {
            assert(m >= (-hi) * n) by (nonlinear_arith)
                requires
                    s <= hi * n,
                    m == -s,
            ;
            lemma_div_is_ordered((-hi) * n, m, n);
            lemma_div_by_multiple(-hi, n);
            assert(m / n >= -hi);
            assert(-(m / n) <= hi);
        } else {
            lemma_div_pos_is_pos(m, n);
            assert(-(m / n) <= 0 <= hi);
        }
    }
}

/// A record inserted at `ts` is in the pruned log exactly when it was there
/// before pruning and its age at `now` is still below the retention span.
pub proof fn lemma_retention_boundary(
    log: Seq<EventCompressionStats>,
    now: u64,
    retention: u64,
    r: EventCompressionStats,
)
    ensures
        spec_prune(log, now, retention).contains(r) <==> (log.contains(r) && now - r.timestamp
            < retention),
{
    broadcast use vstd::seq_lib::group_filter_ensures;
    broadcast use Seq::lemma_filter_contains_rev;

    let pred = retained_pred(now, retention);
    if spec_prune(log, now, retention).contains(r) {
        let i = choose|i: int|
            0 <= i < spec_prune(log, now, retention).len() && spec_prune(log, now, retention)[i]
                == r;
        assert(pred(spec_prune(log, now, retention)[i]));
    }
    if log.contains(r) && spec_retained(r.timestamp, now, retention) {
        let i = choose|i: int| 0 <= i < log.len() && log[i] == r;
        assert(pred(log[i]));
        assert(spec_prune(log, now, retention).contains(log[i]));
    }
}

/// Across one recorded observation, no entry of the aggregate table loses
/// events or saved bytes: the observed type's entry only grows, and every
/// other entry stays as it was.
pub proof fn lemma_record_monotonic(
    pre: CompressionStatsCollector,
    post: CompressionStatsCollector,
    event_type: EventType,
    struct_size: usize,
    bincode_size: usize,
    json_size: usize,
    serialized_size: usize,
    compression_results: Vec<CompressionTrialResult>,
    final_compressed_size: usize,
    used_compression: String,
    now: u64,
)
    requires
        spec_recorded(
            pre,
            post,
            event_type,
            struct_size,
            bincode_size,
            json_size,
            serialized_size,
            compression_results,
            final_compressed_size,
            used_compression,
            now,
        ),
    ensures
        post.aggregated_stats@.len() >= pre.aggregated_stats@.len(),
        forall|i: int|
            0 <= i < pre.aggregated_stats@.len() ==> #[trigger] post.aggregated_stats@[i].total_events
                >= pre.aggregated_stats@[i].total_events,
        forall|i: int|
            0 <= i < pre.aggregated_stats@.len() ==> #[trigger] post.aggregated_stats@[i].total_bytes_saved
                >= pre.aggregated_stats@[i].total_bytes_saved,
{
    let agg = pre.aggregated_stats@;
    let saving: int = struct_size - final_compressed_size;
    let ratio: int = spec_ratio_of(struct_size as int, final_compressed_size as int);
    if agg_has(agg, event_type) {
        let idx = spec_agg_index(agg, event_type);
        lemma_aggregate_update_monotonic(
            agg[idx],
            struct_size,
            compression_results@,
            saving,
            ratio,
            now,
        );
    }
}

/// Folding an observation into an entry never decreases its event count nor
/// its cumulative saved bytes.
pub proof fn lemma_aggregate_update_monotonic(
    prev: AggregatedStats,
    struct_size: usize,
    results: Seq<CompressionTrialResult>,
    saving: int,
    ratio: int,
    now: u64,
)
    ensures
        spec_apply_record(prev, struct_size, results, saving, ratio, now).total_events
            >= prev.total_events,
        spec_apply_record(prev, struct_size, results, saving, ratio, now).total_bytes_saved
            >= prev.total_bytes_saved,
{
}

} // verus!
