//! The capture engine's state machine.
//!
//! The engine's I/O loop (opening the device, reading packets, signals,
//! sending to the channel) runs outside this module; every decision it takes
//! is made here: when to stop, what a captured packet does to the counters,
//! when traffic is heavy enough to sample, and which packets are forwarded.
//! Times are milliseconds on a monotonic clock whose origin is the moment the
//! sniffer was created.

use vstd::prelude::*;

verus! {

/// Counters of one capture run.
#[derive(Debug, Clone)]
pub struct CaptureStats {
    /// Packets captured.
    pub total_packets: u64,
    /// Bytes captured.
    pub total_bytes: u64,
    /// Read errors reported by the device.
    pub dropped_packets: u64,
    /// When the capture started (ms).
    pub start_ms: u64,
    /// When the capture ended (ms), once it has.
    pub end_ms: Option<u64>,
}

impl Default for CaptureStats {
    fn default() -> (s: Self)
        ensures
            s.total_packets == 0,
            s.total_bytes == 0,
            s.dropped_packets == 0,
            s.start_ms == 0,
            s.end_ms is None,
    {
        CaptureStats {
            total_packets: 0,
            total_bytes: 0,
            dropped_packets: 0,
            start_ms: 0,
            end_ms: None,
        }
    }
}

/// What a capture run is asked to do.
#[derive(Debug, Clone)]
pub struct CaptureConfig {
    /// Interface name.
    pub interface: String,
    /// BPF filter expression.
    pub filter: Option<String>,
    /// Promiscuous mode.
    pub promiscuous: bool,
    /// Maximum number of packets (0: no limit).
    pub count: u64,
    /// Maximum duration in seconds (0: no limit).
    pub duration: u64,
    /// Capture buffer size in bytes.
    pub buffer_size: usize,
}

/// Why a capture run ends.
#[derive(Debug, Clone, Copy, PartialEq, Eq, Structural)]
pub enum StopReason {
    /// Interrupted by the user (Ctrl+C).
    Interrupted,
    /// The configured duration has passed.
    DurationReached,
    /// The configured number of packets has been captured.
    CountReached,
}

/// Packets received between two progress lines of the capture command.
pub const PROGRESS_INTERVAL: u64 = 100;

/// Whether the capture command prints a progress line once it has received
/// `count` packets: after every hundredth.
pub fn progress_due(count: u64) -> (b: bool)
    ensures
        b == (count % PROGRESS_INTERVAL == 0),
{
    count % PROGRESS_INTERVAL == 0
}

/// Traffic rate, in packets per second, above which sampling starts.
pub const SAMPLING_RATE_THRESHOLD: u64 = 100_000;

/// The capture engine.
pub struct Sniffer {
    config: CaptureConfig,
    stats: CaptureStats,
    sampling_enabled: bool,
    sampling_interval: u64,
    last_sample_ms: u64,
}

/// The whole state of a [`Sniffer`].
pub struct SnifferState {
    pub config: CaptureConfig,
    pub stats: CaptureStats,
    pub sampling_enabled: bool,
    pub sampling_interval: u64,
    pub last_sample_ms: u64,
}

impl View for Sniffer {
    type V = SnifferState;

    closed spec fn view(&self) -> SnifferState {
        SnifferState {
            config: self.config,
            stats: self.stats,
            sampling_enabled: self.sampling_enabled,
            sampling_interval: self.sampling_interval,
            last_sample_ms: self.last_sample_ms,
        }
    }
}

/// Milliseconds from `since` to `now`, zero where `now` is earlier.
pub open spec fn elapsed_ms(since: u64, now: u64) -> nat {
    if now >= since {
        (now - since) as nat
    } else {
        0
    }
}

/// Whether `total` packets in `elapsed` ms exceed the sampling threshold:
/// the rate is zero before a whole second has passed, else
/// `total * 1000 / elapsed` packets per second.
pub open spec fn rate_exceeds_threshold(total: nat, elapsed: nat) -> bool {
    elapsed >= 1000 && total * 1000 > SAMPLING_RATE_THRESHOLD * elapsed
}

/// The sampling interval for that rate: the rate divided by the threshold,
/// rounded up (zero while the rate is zero).
pub open spec fn interval_for_rate(total: nat, elapsed: nat) -> nat {
    if elapsed < 1000 {
        0
    } else {
        ((total * 1000 + SAMPLING_RATE_THRESHOLD * elapsed - 1) / (SAMPLING_RATE_THRESHOLD
            * elapsed)) as nat
    }
}

/// The stop decision taken before each read from the device.
pub open spec fn stop_decision(s: SnifferState, running: bool, now_ms: u64) -> Option<StopReason> {
    if !running {
        Some(StopReason::Interrupted)
    } else if s.config.duration > 0 && elapsed_ms(s.stats.start_ms, now_ms) >= s.config.duration
        * 1000 {
        Some(StopReason::DurationReached)
    } else if s.config.count > 0 && s.stats.total_packets >= s.config.count {
        Some(StopReason::CountReached)
    } else {
        None
    }
}

/// The state after one packet of `len` bytes is captured at `now_ms`.
pub open spec fn after_packet(s: SnifferState, len: nat, now_ms: u64) -> SnifferState {
    let total = (s.stats.total_packets + 1) as u64;
    let stats = CaptureStats {
        total_packets: total,
        total_bytes: (s.stats.total_bytes + len) as u64,
        dropped_packets: s.stats.dropped_packets,
        start_ms: s.stats.start_ms,
        end_ms: s.stats.end_ms,
    };
    if elapsed_ms(s.last_sample_ms, now_ms) >= 1000 {
        let e = elapsed_ms(s.stats.start_ms, now_ms);
        let enabled = s.sampling_enabled || rate_exceeds_threshold(total as nat, e);
        SnifferState {
            config: s.config,
            stats,
            sampling_enabled: enabled,
            sampling_interval: if enabled {
                interval_for_rate(total as nat, e) as u64
            } else {
                s.sampling_interval
            },
            last_sample_ms: now_ms,
        }
    } else {
        SnifferState {
            config: s.config,
            stats,
            sampling_enabled: s.sampling_enabled,
            sampling_interval: s.sampling_interval,
            last_sample_ms: s.last_sample_ms,
        }
    }
}

/// Whether the packet just counted in `s` is forwarded: always without
/// sampling, else only when the number of packets counted so far is a
/// multiple of `sampling_interval`.
pub open spec fn forwards(s: SnifferState) -> bool {
    !(s.sampling_enabled && !(if s.sampling_interval == 0 {
        s.stats.total_packets == 0
    } else {
        s.stats.total_packets % s.sampling_interval == 0
    }))
}


/// A running capture with neither a packet nor a time limit never decides
/// to stop.
pub proof fn lemma_unlimited_capture_keeps_running(s: SnifferState, now_ms: u64)
    requires
        s.config.count == 0,
        s.config.duration == 0,
    ensures
        stop_decision(s, true, now_ms) is None,
{
}

/// Once the user interrupts, the capture stops, whatever its limits.
pub proof fn lemma_interrupt_always_stops(s: SnifferState, now_ms: u64)
    ensures
        stop_decision(s, false, now_ms) == Some(StopReason::Interrupted),
{
}

/// A capture with a packet limit never counts more packets than the limit:
/// a packet is only read once the stop decision lets it, and the packet
/// it reads keeps the total within the limit.
pub proof fn lemma_count_limit_respected(s: SnifferState, decided_ms: u64, len: nat, now_ms: u64)
    requires
        s.config.count > 0,
        stop_decision(s, true, decided_ms) is None,
    ensures
        after_packet(s, len, now_ms).stats.total_packets <= s.config.count,
        after_packet(s, len, now_ms).stats.total_packets == s.stats.total_packets + 1,
{
}

/// Once sampling is on it stays on.
pub proof fn lemma_sampling_stays_on(s: SnifferState, len: nat, now_ms: u64)
    requires
        s.sampling_enabled,
    ensures
        after_packet(s, len, now_ms).sampling_enabled,
{
}

/// When the once-a-second rate evaluation finds the rate above the threshold,
/// sampling is on afterwards and keeps at most one packet in two.
pub proof fn lemma_heavy_traffic_is_sampled(s: SnifferState, len: nat, now_ms: u64)
    requires
        s.stats.total_packets < u64::MAX,
        elapsed_ms(s.last_sample_ms, now_ms) >= 1000,
        rate_exceeds_threshold(
            (s.stats.total_packets + 1) as nat,
            elapsed_ms(s.stats.start_ms, now_ms),
        ),
    ensures
        after_packet(s, len, now_ms).sampling_enabled,
        after_packet(s, len, now_ms).sampling_interval >= 2,
{
    let t: int = s.stats.total_packets + 1;
    let e: int = elapsed_ms(s.stats.start_ms, now_ms) as int;
    let d: int = SAMPLING_RATE_THRESHOLD * e;
    assert(d >= 100000) by (nonlinear_arith)
        requires
            e >= 1000,
            d == 100000 * e,
    ;
    assert((t * 1000 + d - 1) / d >= 2) by (nonlinear_arith)
        requires
            d >= 1,
            t * 1000 > d,
    ;
    assert((t * 1000 + d - 1) / d <= t) by (nonlinear_arith)
        requires
            d >= 100000,
            t >= 1,
    ;
}

/// While sampling is off, every captured packet is forwarded, unless the
/// rate evaluation made on that very packet turns sampling on.
pub proof fn lemma_unsampled_packets_forwarded(s: SnifferState, len: nat, now_ms: u64)
    requires
        !after_packet(s, len, now_ms).sampling_enabled,
    ensures
        forwards(after_packet(s, len, now_ms)),
{
}

/// While sampling one packet in `n`, a packet is forwarded exactly when
/// the number of packets counted is a multiple of `n`.
pub proof fn lemma_sampled_packets_one_in_n(s: SnifferState)
    requires
        s.sampling_enabled,
        s.sampling_interval >= 1,
    ensures
        forwards(s) <==> s.stats.total_packets % s.sampling_interval == 0,
{
}

impl Sniffer {
    /// Creates an engine for `config`, with zeroed counters and sampling off.
    pub fn new(config: CaptureConfig) -> (s: Self)
        ensures
            s@.config == config,
            s@.stats.total_packets == 0,
            s@.stats.total_bytes == 0,
            s@.stats.dropped_packets == 0,
            s@.stats.start_ms == 0,
            s@.stats.end_ms is None,
            !s@.sampling_enabled,
            s@.sampling_interval == 1,
            s@.last_sample_ms == 0,
    {
        Sniffer {
            config,
            stats: CaptureStats::default(),
            sampling_enabled: false,
            sampling_interval: 1,
            last_sample_ms: 0,
        }
    }

    /// The configuration of this engine.
    pub fn config(&self) -> (c: &CaptureConfig)
        ensures
            *c == self@.config,
    {
        &self.config
    }

    /// The counters of the run.
    pub fn stats(&self) -> (st: &CaptureStats)
        ensures
            *st == self@.stats,
    {
        &self.stats
    }

    /// The sampling interval `n` (one packet in `n` is forwarded), while
    /// sampling is on.
    pub fn sampling(&self) -> (res: Option<u64>)
        ensures
            res == (if self@.sampling_enabled {
                Some(self@.sampling_interval)
            } else {
                None
            }),
    {
        if self.sampling_enabled {
            Some(self.sampling_interval)
        } else {
            None
        }
    }

    /// Marks the start of the run at `now_ms`.
    pub fn begin(&mut self, now_ms: u64)
        ensures
            final(self)@.stats.start_ms == now_ms,
            final(self)@.stats.total_packets == old(self)@.stats.total_packets,
            final(self)@.stats.total_bytes == old(self)@.stats.total_bytes,
            final(self)@.stats.dropped_packets == old(self)@.stats.dropped_packets,
            final(self)@.stats.end_ms == old(self)@.stats.end_ms,
            final(self)@.config == old(self)@.config,
            final(self)@.sampling_enabled == old(self)@.sampling_enabled,
            final(self)@.sampling_interval == old(self)@.sampling_interval,
            final(self)@.last_sample_ms == old(self)@.last_sample_ms,
    {
        self.stats.start_ms = now_ms;
    }

    /// Decides, before each read, whether the run ends and why.
    pub fn stop_reason(&self, running: bool, now_ms: u64) -> (res: Option<StopReason>)
        ensures
            res == stop_decision(self@, running, now_ms),
    {
        if !running {
            return Some(StopReason::Interrupted);
        }
        let elapsed = now_ms.saturating_sub(self.stats.start_ms);
        if self.config.duration > 0 && (elapsed as u128) >= (self.config.duration as u128) * 1000 {
            return Some(StopReason::DurationReached);
        }
        if self.config.count > 0 && self.stats.total_packets >= self.config.count {
            return Some(StopReason::CountReached);
        }
        None
    }

    /// Counts a packet of `len` bytes captured at `now_ms`, re-evaluates the
    /// sampling rate once a second, and answers whether the packet is
    /// forwarded.
    pub fn on_packet(&mut self, len: usize, now_ms: u64) -> (forward: bool)
        requires
            old(self)@.stats.total_packets < u64::MAX,
            old(self)@.stats.total_bytes + len <= u64::MAX,
        ensures
            final(self)@ == after_packet(old(self)@, len as nat, now_ms),
            forward == forwards(final(self)@),
    {
        self.stats.total_packets = self.stats.total_packets + 1;
        self.stats.total_bytes = self.stats.total_bytes + len as u64;
        if now_ms.saturating_sub(self.last_sample_ms) >= 1000 {
            let e = now_ms.saturating_sub(self.stats.start_ms) as u128;
            let total = self.stats.total_packets as u128;
            let exceeds = e >= 1000 && total * 1000 > (SAMPLING_RATE_THRESHOLD as u128) * e;
            if exceeds && !self.sampling_enabled {
                self.sampling_enabled = true;
            }
            if self.sampling_enabled {
                let interval: u128 = if e < 1000 {
                    0
                } else {
                    let d = (SAMPLING_RATE_THRESHOLD as u128) * e;
                    (total * 1000 + d - 1) / d
                };
                proof {
                    if e >= 1000 {
                        let d = (SAMPLING_RATE_THRESHOLD as u128) * e;
                        assert((total * 1000 + d - 1) / d <= total * 1000 + d - 1) by (nonlinear_arith)
                            requires d >= 1, total * 1000 + d - 1 >= 0;
                        assert((total * 1000 + d - 1) / d <= total) by (nonlinear_arith)
                            requires d >= 100000, total <= u64::MAX;
                    }
                }
                self.sampling_interval = interval as u64;
            }
            self.last_sample_ms = now_ms;
        }
        !(self.sampling_enabled && !self.stats.total_packets.is_multiple_of(self.sampling_interval))
    }

    /// Counts a read error of the device.
    pub fn on_capture_error(&mut self)
        requires
            old(self)@.stats.dropped_packets < u64::MAX,
        ensures
            final(self)@.stats.dropped_packets == old(self)@.stats.dropped_packets + 1,
            final(self)@.stats.total_packets == old(self)@.stats.total_packets,
            final(self)@.stats.total_bytes == old(self)@.stats.total_bytes,
            final(self)@.stats.start_ms == old(self)@.stats.start_ms,
            final(self)@.stats.end_ms == old(self)@.stats.end_ms,
            final(self)@.config == old(self)@.config,
            final(self)@.sampling_enabled == old(self)@.sampling_enabled,
            final(self)@.sampling_interval == old(self)@.sampling_interval,
            final(self)@.last_sample_ms == old(self)@.last_sample_ms,
    {
        self.stats.dropped_packets = self.stats.dropped_packets + 1;
    }

    /// Marks the end of the run at `now_ms`.
    pub fn finish(&mut self, now_ms: u64)
        ensures
            final(self)@.stats.end_ms == Some(now_ms),
            final(self)@.stats.total_packets == old(self)@.stats.total_packets,
            final(self)@.stats.total_bytes == old(self)@.stats.total_bytes,
            final(self)@.stats.dropped_packets == old(self)@.stats.dropped_packets,
            final(self)@.stats.start_ms == old(self)@.stats.start_ms,
            final(self)@.config == old(self)@.config,
            final(self)@.sampling_enabled == old(self)@.sampling_enabled,
            final(self)@.sampling_interval == old(self)@.sampling_interval,
            final(self)@.last_sample_ms == old(self)@.last_sample_ms,
    {
        self.stats.end_ms = Some(now_ms);
    }
}

} // verus!
