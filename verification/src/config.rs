//! Configuration types: test selection, rate limiting and output modes, the
//! integer-valued parts of the test configuration and their defaults, the
//! set of frame sizes a run covers, and validation of the required settings.

use vstd::prelude::*;
use std::time::Duration;
use crate::sorting::{
    ascending_u32, is_ascending_u32, lemma_ascending_u32, lemma_ascending_u32_facts, sort_u32,
};
use crate::time::{duration_as_secs, duration_from_secs, duration_of_secs, duration_whole_secs};

verus! {

// ── Standard frame sizes per RFC 2544 §9.1 ──────────────────────────────

/// Standard RFC 2544 frame sizes in bytes (excluding CRC).
pub const STANDARD_FRAME_SIZES: [u32; 7] = [64, 128, 256, 512, 1024, 1280, 1518];

/// The jumbo frame size.
pub const JUMBO_FRAME_SIZE: u32 = 9000;

/// Frame sizes of an IMIX (mixed-size) run.
pub const IMIX_SIZES: [u32; 7] = [64, 128, 256, 512, 1024, 1280, 1518];

/// The standard frame sizes as a sequence.
pub open spec fn standard_frame_sizes() -> Seq<u32> {
    seq![64u32, 128u32, 256u32, 512u32, 1024u32, 1280u32, 1518u32]
}

// ── Test types ───────────────────────────────────────────────────────────

/// RFC 2544 test types: the core tests and the extended ones.
#[derive(Debug, Clone, Copy, PartialEq, Eq)]
pub enum TestType {
    /// Throughput test (RFC 2544 §26.1)
    Throughput,
    /// Latency test (RFC 2544 §26.2)
    Latency,
    /// Frame loss test (RFC 2544 §26.3)
    FrameLoss,
    /// Back-to-back test (RFC 2544 §26.4)
    BackToBack,
    /// System recovery test (RFC 2544 §26.5)
    SystemRecovery,
    /// Reset test (RFC 2544 §26.6)
    Reset,
    /// Y.1564 service configuration test
    Y1564Config,
    /// Y.1564 service performance test
    Y1564Perf,
    /// Full Y.1564 test suite
    Y1564,
    /// RFC 2889 LAN switch forwarding rate test
    Rfc2889Forwarding,
    /// RFC 2889 address caching test
    Rfc2889Caching,
    /// RFC 2889 address learning test
    Rfc2889Learning,
    /// RFC 2889 broadcast forwarding test
    Rfc2889Broadcast,
    /// RFC 2889 congestion control test
    Rfc2889Congestion,
    /// RFC 6349 TCP throughput test
    Rfc6349Throughput,
    /// RFC 6349 path analysis test
    Rfc6349Path,
    /// Y.1731 delay measurement
    Y1731Delay,
    /// Y.1731 loss measurement
    Y1731Loss,
    /// Y.1731 synthetic loss measurement
    Y1731SLM,
    /// Y.1731 loopback
    Y1731Loopback,
    /// MEF configuration test
    MefConfig,
    /// MEF performance test
    MefPerf,
    /// Full MEF test suite
    Mef,
    /// TSN gate timing accuracy test
    TsnTiming,
    /// TSN traffic class isolation test
    TsnIsolation,
    /// TSN latency test
    TsnLatency,
    /// Full TSN test suite
    Tsn,
}

/// The name of a test type: its snake_case identifier.
pub open spec fn test_type_name(t: TestType) -> Seq<char> {
    match t {
        TestType::Throughput => "throughput"@,
        TestType::Latency => "latency"@,
        TestType::FrameLoss => "frame_loss"@,
        TestType::BackToBack => "back_to_back"@,
        TestType::SystemRecovery => "system_recovery"@,
        TestType::Reset => "reset"@,
        TestType::Y1564Config => "y1564_config"@,
        TestType::Y1564Perf => "y1564_perf"@,
        TestType::Y1564 => "y1564"@,
        TestType::Rfc2889Forwarding => "rfc2889_forwarding"@,
        TestType::Rfc2889Caching => "rfc2889_caching"@,
        TestType::Rfc2889Learning => "rfc2889_learning"@,
        TestType::Rfc2889Broadcast => "rfc2889_broadcast"@,
        TestType::Rfc2889Congestion => "rfc2889_congestion"@,
        TestType::Rfc6349Throughput => "rfc6349_throughput"@,
        TestType::Rfc6349Path => "rfc6349_path"@,
        TestType::Y1731Delay => "y1731_delay"@,
        TestType::Y1731Loss => "y1731_loss"@,
        TestType::Y1731SLM => "y1731_slm"@,
        TestType::Y1731Loopback => "y1731_loopback"@,
        TestType::MefConfig => "mef_config"@,
        TestType::MefPerf => "mef_perf"@,
        TestType::Mef => "mef"@,
        TestType::TsnTiming => "tsn_timing"@,
        TestType::TsnIsolation => "tsn_isolation"@,
        TestType::TsnLatency => "tsn_latency"@,
        TestType::Tsn => "tsn"@,
    }
}

impl Default for TestType {
    /// A run tests throughput unless told otherwise.
    fn default() -> (t: Self)
        ensures
            t == TestType::Throughput,
    {
        TestType::Throughput
    }
}

impl TestType {
    /// The test type's name, as printed in reports.
    pub fn to_string(&self) -> (r: String)
        ensures
            r@ == test_type_name(*self),
    {
        let s = match self {
            TestType::Throughput => "throughput",
            TestType::Latency => "latency",
            TestType::FrameLoss => "frame_loss",
            TestType::BackToBack => "back_to_back",
            TestType::SystemRecovery => "system_recovery",
            TestType::Reset => "reset",
            TestType::Y1564Config => "y1564_config",
            TestType::Y1564Perf => "y1564_perf",
            TestType::Y1564 => "y1564",
            TestType::Rfc2889Forwarding => "rfc2889_forwarding",
            TestType::Rfc2889Caching => "rfc2889_caching",
            TestType::Rfc2889Learning => "rfc2889_learning",
            TestType::Rfc2889Broadcast => "rfc2889_broadcast",
            TestType::Rfc2889Congestion => "rfc2889_congestion",
            TestType::Rfc6349Throughput => "rfc6349_throughput",
            TestType::Rfc6349Path => "rfc6349_path",
            TestType::Y1731Delay => "y1731_delay",
            TestType::Y1731Loss => "y1731_loss",
            TestType::Y1731SLM => "y1731_slm",
            TestType::Y1731Loopback => "y1731_loopback",
            TestType::MefConfig => "mef_config",
            TestType::MefPerf => "mef_perf",
            TestType::Mef => "mef",
            TestType::TsnTiming => "tsn_timing",
            TestType::TsnIsolation => "tsn_isolation",
            TestType::TsnLatency => "tsn_latency",
            TestType::Tsn => "tsn",
        };
        s.to_owned()
    }
}

// ── Rate limiting modes ──────────────────────────────────────────────────

/// Rate limiting mode for packet transmission.
#[derive(Debug, Clone, Copy, PartialEq, Eq)]
pub enum RateType {
    /// Constant Bit Rate (CBR): steady rate, may use an extra thread
    Cbr,
    /// Poison mode: send invalid packets at line rate, the DUT ignores them
    Poison,
    /// Hardware rate limiting: most reliable, limited to NIC support
    Hw,
}

/// The name of a rate type.
pub open spec fn rate_type_name(r: RateType) -> Seq<char> {
    match r {
        RateType::Cbr => "cbr"@,
        RateType::Poison => "poison"@,
        RateType::Hw => "hw"@,
    }
}

impl Default for RateType {
    /// Constant bit rate unless told otherwise.
    fn default() -> (r: Self)
        ensures
            r == RateType::Cbr,
    {
        RateType::Cbr
    }
}

impl RateType {
    /// The rate type's name, as printed in reports.
    pub fn to_string(&self) -> (r: String)
        ensures
            r@ == rate_type_name(*self),
    {
        let s = match self {
            RateType::Cbr => "cbr",
            RateType::Poison => "poison",
            RateType::Hw => "hw",
        };
        s.to_owned()
    }
}

// ── Output formats ───────────────────────────────────────────────────────

/// Result output format.
#[derive(Debug, Clone, Copy, PartialEq, Eq)]
pub enum OutputFormat {
    Text,
    Json,
    Csv,
    Html,
}

impl Default for OutputFormat {
    /// Plain text unless told otherwise.
    fn default() -> (f: Self)
        ensures
            f == OutputFormat::Text,
    {
        OutputFormat::Text
    }
}

// ── Port mode ────────────────────────────────────────────────────────────

/// Port mode: a physical interface or an endpoint.
#[derive(Debug, Clone, Copy, PartialEq, Eq)]
pub enum PortMode {
    /// Physical port mode
    Port,
    /// Endpoint mode (with NAT discovery)
    Endpoint,
}

impl Default for PortMode {
    /// A physical port unless told otherwise.
    fn default() -> (m: Self)
        ensures
            m == PortMode::Port,
    {
        PortMode::Port
    }
}

// ── Back-to-back config ──────────────────────────────────────────────────

/// Settings of the back-to-back test (RFC 2544 §26.4).
#[derive(Debug, Clone, Copy)]
pub struct BackToBackConfig {
    /// Initial burst size
    pub initial_burst: u64,
    /// Number of trials per burst size
    pub trials: u32,
}

impl Default for BackToBackConfig {
    /// Bursts start at 1000 frames; 50 trials.
    fn default() -> (c: Self)
        ensures
            c.initial_burst == 1000,
            c.trials == 50,
    {
        BackToBackConfig { initial_burst: default_b2b_initial(), trials: default_b2b_trials() }
    }
}

// ── Y.1731 OAM ───────────────────────────────────────────────────────────

/// Settings of the Y.1731 OAM tests.
#[derive(Debug)]
pub struct Y1731Config {
    pub mep_id: u32,
    pub meg_level: u8,
    pub meg_id: String,
    pub ccm_interval: u32,
    pub probe_count: u32,
    pub probe_interval: Duration,
}

impl Clone for Y1731Config {
    /// A copy with the same settings.
    fn clone(&self) -> (c: Self)
        ensures
            c == *self,
    {
        Y1731Config {
            mep_id: self.mep_id,
            meg_level: self.meg_level,
            meg_id: self.meg_id.clone(),
            ccm_interval: self.ccm_interval,
            probe_count: self.probe_count,
            probe_interval: self.probe_interval,
        }
    }
}

impl Default for Y1731Config {
    /// MEP 1 at MEG level 4 of "DEFAULT-MEG", CCM every 1000 ms, 100 probes
    /// one second apart.
    fn default() -> (c: Self)
        ensures
            c.mep_id == 1,
            c.meg_level == 4,
            c.meg_id@ == "DEFAULT-MEG"@,
            c.ccm_interval == 1000,
            c.probe_count == 100,
            c.probe_interval == duration_of_secs(1),
    {
        Y1731Config {
            mep_id: default_y1731_mep_id(),
            meg_level: default_y1731_meg_level(),
            meg_id: default_y1731_meg_id(),
            ccm_interval: default_y1731_ccm_interval(),
            probe_count: default_y1731_probe_count(),
            probe_interval: default_y1731_probe_interval(),
        }
    }
}

// ── TSN ──────────────────────────────────────────────────────────────────

/// Settings of the TSN tests.
#[derive(Debug, Clone, Copy)]
pub struct TsnConfig {
    pub num_classes: u32,
    pub cycle_time_ns: u64,
    pub max_latency_ns: u64,
    pub max_jitter_ns: u64,
    pub max_sync_offset_ns: u64,
    pub test_duration: Duration,
    pub frame_size: u32,
}

impl Default for TsnConfig {
    /// Eight classes, a 1 ms cycle, at most 100 µs latency, 10 µs jitter and
    /// 1 µs sync offset, for 60 seconds with 128-byte frames.
    fn default() -> (c: Self)
        ensures
            c.num_classes == 8,
            c.cycle_time_ns == 1_000_000,
            c.max_latency_ns == 100_000,
            c.max_jitter_ns == 10_000,
            c.max_sync_offset_ns == 1_000,
            c.test_duration == duration_of_secs(60),
            c.frame_size == 128,
    {
        TsnConfig {
            num_classes: default_tsn_classes(),
            cycle_time_ns: default_tsn_cycle_ns(),
            max_latency_ns: default_tsn_latency_ns(),
            max_jitter_ns: default_tsn_jitter_ns(),
            max_sync_offset_ns: default_tsn_sync_ns(),
            test_duration: default_tsn_duration(),
            frame_size: default_tsn_frame_size(),
        }
    }
}

// ── Default values ───────────────────────────────────────────────────────

/// Default line rate: 10 Gbps, in Mbps.
pub fn default_line_rate() -> (r: u64)
    ensures
        r == 10000,
{
    10000
}

/// Default trial duration: 60 seconds.
pub fn default_trial_duration() -> (d: Duration)
    ensures
        d == duration_of_secs(60),
{
    duration_from_secs(60)
}

/// Default warmup period: 2 seconds.
pub fn default_warmup() -> (d: Duration)
    ensures
        d == duration_of_secs(2),
{
    duration_from_secs(2)
}

/// Default UDP source and destination port of test packets: 42.
pub fn default_udp_port() -> (r: u16)
    ensures
        r == 42,
{
    42
}

/// Default payload pattern byte: 0x0f.
pub fn default_payload_pattern() -> (r: u8)
    ensures
        r == 0x0f,
{
    0x0f
}

/// Default number of queues: 1.
pub fn default_num_queues() -> (r: u32)
    ensures
        r == 1,
{
    1
}

/// By default the NIC is detected automatically.
pub fn default_auto_detect_nic() -> (r: bool)
    ensures
        r,
{
    true
}

/// By default hardware timestamps are used.
pub fn default_hw_timestamp() -> (r: bool)
    ensures
        r,
{
    true
}

/// By default transmission is paced.
pub fn default_use_pacing() -> (r: bool)
    ensures
        r,
{
    true
}

/// By default jumbo frames are not included.
pub fn default_include_jumbo() -> (r: bool)
    ensures
        !r,
{
    false
}

/// By default output is not verbose.
pub fn default_verbose() -> (r: bool)
    ensures
        !r,
{
    false
}

/// Default MEF committed burst size: 12000 bytes.
pub fn default_mef_cbs_bytes() -> (r: u32)
    ensures
        r == 12000,
{
    12000
}

/// Default MEF excess burst size: 0 bytes.
pub fn default_mef_ebs_bytes() -> (r: u32)
    ensures
        r == 0,
{
    0
}

/// By default both the Y.1564 configuration and performance tests run.
pub fn default_y1564_run_tests() -> (r: bool)
    ensures
        r,
{
    true
}

/// Default maximum number of binary search iterations: 25.
pub fn default_max_iterations() -> (r: u32)
    ensures
        r == 25,
{
    25
}

/// Default number of latency samples per trial: 1000.
pub fn default_latency_samples() -> (r: u32)
    ensures
        r == 1000,
{
    1000
}

/// Default initial back-to-back burst: 1000 frames.
pub fn default_b2b_initial() -> (r: u64)
    ensures
        r == 1000,
{
    1000
}

/// Default number of back-to-back trials: 50.
pub fn default_b2b_trials() -> (r: u32)
    ensures
        r == 50,
{
    50
}

/// Default batch size: 32 packets.
pub fn default_batch_size() -> (r: u32)
    ensures
        r == 32,
{
    32
}

/// Default Y.1564 step duration: 60 seconds.
pub fn default_step_duration() -> (d: Duration)
    ensures
        d == duration_of_secs(60),
{
    duration_from_secs(60)
}

/// Default Y.1564 performance test duration: 900 seconds.
pub fn default_perf_duration() -> (d: Duration)
    ensures
        d == duration_of_secs(900),
{
    duration_from_secs(900)
}

/// Default RFC 2889 port count: 2.
pub fn default_rfc2889_port_count() -> (r: u32)
    ensures
        r == 2,
{
    2
}

/// Default RFC 2889 address count: 8192.
pub fn default_rfc2889_addr_count() -> (r: u32)
    ensures
        r == 8192,
{
    8192
}

/// Default RFC 2889 trial duration: 60 seconds.
pub fn default_rfc2889_trial_duration() -> (d: Duration)
    ensures
        d == duration_of_secs(60),
{
    duration_from_secs(60)
}

/// Default RFC 6349 MSS: 1460 bytes.
pub fn default_rfc6349_mss() -> (r: u32)
    ensures
        r == 1460,
{
    1460
}

/// Default RFC 6349 receive window: 65535 bytes.
pub fn default_rfc6349_rwnd() -> (r: u32)
    ensures
        r == 65535,
{
    65535
}

/// Default RFC 6349 test duration: 30 seconds.
pub fn default_rfc6349_duration() -> (d: Duration)
    ensures
        d == duration_of_secs(30),
{
    duration_from_secs(30)
}

/// Default number of parallel RFC 6349 streams: 1.
pub fn default_rfc6349_streams() -> (r: u32)
    ensures
        r == 1,
{
    1
}

/// Default Y.1731 MEP ID: 1.
pub fn default_y1731_mep_id() -> (r: u32)
    ensures
        r == 1,
{
    1
}

/// Default Y.1731 MEG level: 4.
pub fn default_y1731_meg_level() -> (r: u8)
    ensures
        r == 4,
{
    4
}

/// Default Y.1731 MEG ID: "DEFAULT-MEG".
pub fn default_y1731_meg_id() -> (r: String)
    ensures
        r@ == "DEFAULT-MEG"@,
{
    "DEFAULT-MEG".to_owned()
}

/// Default Y.1731 CCM interval: 1000 ms.
pub fn default_y1731_ccm_interval() -> (r: u32)
    ensures
        r == 1000,
{
    1000
}

/// Default number of Y.1731 probes: 100.
pub fn default_y1731_probe_count() -> (r: u32)
    ensures
        r == 100,
{
    100
}

/// Default interval between Y.1731 probes: 1 second.
pub fn default_y1731_probe_interval() -> (d: Duration)
    ensures
        d == duration_of_secs(1),
{
    duration_from_secs(1)
}

/// Default MEF configuration test duration: 60 seconds.
pub fn default_mef_config_duration() -> (d: Duration)
    ensures
        d == duration_of_secs(60),
{
    duration_from_secs(60)
}

/// Default MEF performance test duration: 900 seconds.
pub fn default_mef_perf_duration() -> (d: Duration)
    ensures
        d == duration_of_secs(900),
{
    duration_from_secs(900)
}

/// Default number of TSN traffic classes: 8.
pub fn default_tsn_classes() -> (r: u32)
    ensures
        r == 8,
{
    8
}

/// Default TSN gate cycle: 1 ms, in nanoseconds.
pub fn default_tsn_cycle_ns() -> (r: u64)
    ensures
        r == 1_000_000,
{
    1_000_000
}

/// Default TSN latency bound: 100 µs, in nanoseconds.
pub fn default_tsn_latency_ns() -> (r: u64)
    ensures
        r == 100_000,
{
    100_000
}

/// Default TSN jitter bound: 10 µs, in nanoseconds.
pub fn default_tsn_jitter_ns() -> (r: u64)
    ensures
        r == 10_000,
{
    10_000
}

/// Default TSN sync offset bound: 1 µs, in nanoseconds.
pub fn default_tsn_sync_ns() -> (r: u64)
    ensures
        r == 1_000,
{
    1_000
}

/// Default TSN test duration: 60 seconds.
pub fn default_tsn_duration() -> (d: Duration)
    ensures
        d == duration_of_secs(60),
{
    duration_from_secs(60)
}

/// Default TSN frame size: 128 bytes.
pub fn default_tsn_frame_size() -> (r: u32)
    ensures
        r == 128,
{
    128
}

/// Default number of IMIX frame sets: 1000.
pub fn default_imix_count() -> (r: u32)
    ensures
        r == 1000,
{
    1000
}

/// Default frame sizes: the standard RFC 2544 sizes.
pub fn default_frame_size() -> (r: Vec<u32>)
    ensures
        r@ == standard_frame_sizes(),
{
    let mut v: Vec<u32> = Vec::new();
    let mut i: usize = 0;
    let sizes = STANDARD_FRAME_SIZES;
    assert(sizes@ =~= standard_frame_sizes());
    while i < 7
        invariant
            i <= 7,
            sizes@ == standard_frame_sizes(),
            v@ =~= standard_frame_sizes().take(i as int),
        decreases 7 - i,
    {
        v.push(sizes[i]);
        i = i + 1;
    }
    assert(standard_frame_sizes().take(7) =~= standard_frame_sizes());
    v
}

// ── Frame sizes of a run ─────────────────────────────────────────────────

/// The sizes that the frame size 0 stands for: all standard sizes plus the
/// jumbo size.
pub open spec fn all_sizes() -> Seq<u32> {
    standard_frame_sizes().push(JUMBO_FRAME_SIZE)
}

/// What one configured frame size stands for: 0 for all standard sizes plus
/// jumbo, any other size for itself.
pub open spec fn expand_frame_size(size: u32) -> Seq<u32> {
    if size == 0 {
        all_sizes()
    } else {
        seq![size]
    }
}

/// The configured frame sizes with each 0 replaced by all standard sizes
/// plus jumbo.
pub open spec fn expand_frame_sizes(frame_sizes: Seq<u32>) -> Seq<u32>
    decreases frame_sizes.len(),
{
    if frame_sizes.len() == 0 {
        Seq::empty()
    } else {
        expand_frame_sizes(frame_sizes.drop_last()) + expand_frame_size(frame_sizes.last())
    }
}

/// The frame sizes a run covers, before sorting: the configured sizes with
/// each 0 expanded, and the jumbo size added when jumbo frames are included
/// and it is not already there.
pub open spec fn with_jumbo(frame_sizes: Seq<u32>, include_jumbo: bool) -> Seq<u32> {
    let e = expand_frame_sizes(frame_sizes);
    if include_jumbo && !e.contains(JUMBO_FRAME_SIZE) {
        e.push(JUMBO_FRAME_SIZE)
    } else {
        e
    }
}

/// Expanded frame sizes hold no 0.
pub proof fn lemma_expand_no_zero(frame_sizes: Seq<u32>)
    ensures
        forall|i: int|
            0 <= i < expand_frame_sizes(frame_sizes).len() ==> #[trigger] expand_frame_sizes(
                frame_sizes,
            )[i] != 0,
    decreases frame_sizes.len(),
{
    if frame_sizes.len() > 0 {
        lemma_expand_no_zero(frame_sizes.drop_last());
        let a = expand_frame_sizes(frame_sizes.drop_last());
        let b = expand_frame_size(frame_sizes.last());
        assert forall|i: int| 0 <= i < (a + b).len() implies #[trigger] (a + b)[i] != 0 by {
            if i >= a.len() {
                assert((a + b)[i] == b[i - a.len()]);
            }
        }
    }
}

/// Frame sizes without 0 expand to themselves.
pub proof fn lemma_expand_identity(frame_sizes: Seq<u32>)
    requires
        forall|i: int| 0 <= i < frame_sizes.len() ==> #[trigger] frame_sizes[i] != 0,
    ensures
        expand_frame_sizes(frame_sizes) == frame_sizes,
    decreases frame_sizes.len(),
{
    if frame_sizes.len() > 0 {
        let d = frame_sizes.drop_last();
        assert forall|i: int| 0 <= i < d.len() implies #[trigger] d[i] != 0 by {
            assert(d[i] == frame_sizes[i]);
        }
        lemma_expand_identity(d);
        assert(frame_sizes.last() != 0);
        assert(d + seq![frame_sizes.last()] =~= frame_sizes);
    }
}

/// Appends what `size` stands for to `sizes`.
fn push_expanded(sizes: &mut Vec<u32>, size: u32)
    ensures
        final(sizes)@ == old(sizes)@ + expand_frame_size(size),
{
    if size == 0 {
        let standard = STANDARD_FRAME_SIZES;
        let mut i: usize = 0;
        let ghost start = sizes@;
        assert(standard@ =~= standard_frame_sizes());
        while i < 7
            invariant
                i <= 7,
                standard@ == standard_frame_sizes(),
                sizes@ =~= start + standard_frame_sizes().take(i as int),
            decreases 7 - i,
        {
            sizes.push(standard[i]);
            i = i + 1;
        }
        sizes.push(JUMBO_FRAME_SIZE);
        assert(standard_frame_sizes().take(7) =~= standard_frame_sizes());
        assert(sizes@ =~= start + all_sizes());
    } else {
        sizes.push(size);
        assert(sizes@ =~= old(sizes)@ + seq![size]);
    }
}

/// The full set of frame sizes a run covers, in ascending order: the
/// configured sizes, where 0 stands for all standard sizes plus jumbo, and,
/// when jumbo frames are included, the jumbo size (once).
pub fn all_frame_sizes(frame_sizes: &Vec<u32>, include_jumbo: bool) -> (r: Vec<u32>)
    ensures
        r@ == ascending_u32(with_jumbo(frame_sizes@, include_jumbo)),
{
    let mut sizes: Vec<u32> = Vec::new();
    let mut i: usize = 0;
    while i < frame_sizes.len()
        invariant
            i <= frame_sizes@.len(),
            sizes@ == expand_frame_sizes(frame_sizes@.take(i as int)),
        decreases frame_sizes@.len() - i,
    {
        let size = frame_sizes[i];
        assert(frame_sizes@.take(i + 1).drop_last() =~= frame_sizes@.take(i as int));
        push_expanded(&mut sizes, size);
        i = i + 1;
    }
    assert(frame_sizes@.take(frame_sizes@.len() as int) =~= frame_sizes@);
    if include_jumbo && !contains_u32(&sizes, JUMBO_FRAME_SIZE) {
        sizes.push(JUMBO_FRAME_SIZE);
    }
    sort_u32(&sizes)
}

/// Law: a frame size of 0 stands for all standard sizes plus jumbo: the full
/// set of frame sizes of a run configured with 0 alone is the seven standard
/// sizes followed by 9000, whether or not jumbo frames are included.
pub proof fn lemma_zero_means_all_sizes(include_jumbo: bool)
    ensures
        ascending_u32(with_jumbo(seq![0u32], include_jumbo)) == all_sizes(),
{
    let s = seq![0u32];
    assert(s.drop_last() =~= Seq::<u32>::empty());
    assert(expand_frame_sizes(s.drop_last()) == Seq::<u32>::empty());
    assert(s.last() == 0);
    assert(expand_frame_size(s.last()) == all_sizes());
    assert(Seq::<u32>::empty() + all_sizes() =~= all_sizes());
    assert(expand_frame_sizes(s) =~= all_sizes());
    assert(all_sizes()[7] == JUMBO_FRAME_SIZE);
    assert(all_sizes().contains(JUMBO_FRAME_SIZE));
    assert(with_jumbo(s, include_jumbo) == all_sizes());
    assert(is_ascending_u32(all_sizes()));
    lemma_ascending_u32(all_sizes(), all_sizes());
}

/// Law: taking the full set of frame sizes of a full set of frame sizes
/// changes nothing; the set is sorted and holds the jumbo size when jumbo
/// frames are included.
pub proof fn lemma_all_frame_sizes_idempotent(frame_sizes: Seq<u32>, include_jumbo: bool)
    ensures
        ascending_u32(with_jumbo(ascending_u32(with_jumbo(frame_sizes, include_jumbo)), include_jumbo))
            == ascending_u32(with_jumbo(frame_sizes, include_jumbo)),
        include_jumbo ==> ascending_u32(with_jumbo(frame_sizes, include_jumbo)).contains(
            JUMBO_FRAME_SIZE,
        ),
{
    let e = expand_frame_sizes(frame_sizes);
    let w = with_jumbo(frame_sizes, include_jumbo);
    let t = ascending_u32(w);
    lemma_expand_no_zero(frame_sizes);
    lemma_ascending_u32_facts(w);
    w.to_multiset_ensures();
    t.to_multiset_ensures();
    assert forall|i: int| 0 <= i < w.len() implies #[trigger] w[i] != 0 by {
        if i < e.len() {
            assert(w[i] == e[i]);
        }
    }
    assert forall|i: int| 0 <= i < t.len() implies #[trigger] t[i] != 0 by {
        assert(t.contains(t[i]));
        assert(t.to_multiset().count(t[i]) > 0);
        assert(w.to_multiset().count(t[i]) > 0);
        assert(w.contains(t[i]));
    }
    lemma_expand_identity(t);
    if include_jumbo {
        assert(w.contains(JUMBO_FRAME_SIZE)) by {
            if !e.contains(JUMBO_FRAME_SIZE) {
                assert(w[w.len() - 1] == JUMBO_FRAME_SIZE);
            }
        }
        assert(w.to_multiset().count(JUMBO_FRAME_SIZE) > 0);
        assert(t.contains(JUMBO_FRAME_SIZE));
    }
    assert(with_jumbo(t, include_jumbo) == t);
    lemma_ascending_u32(t, t);
}

/// Whether `v` holds `x`.
fn contains_u32(v: &Vec<u32>, x: u32) -> (r: bool)
    ensures
        r == v@.contains(x),
{
    let mut i: usize = 0;
    while i < v.len()
        invariant
            i <= v@.len(),
            forall|j: int| 0 <= j < i ==> v@[j] != x,
        decreases v@.len() - i,
    {
        if v[i] == x {
            return true;
        }
        i = i + 1;
    }
    false
}

/// The frame size that a command-line run measures: the jumbo size when
/// jumbo frames are asked for, else the first size given, else the minimum
/// standard frame of 64 bytes.
pub fn primary_frame_size(include_jumbo: bool, sizes: &Vec<u32>) -> (r: u32)
    ensures
        r == if include_jumbo {
            JUMBO_FRAME_SIZE
        } else if sizes@.len() > 0 {
            sizes@[0]
        } else {
            64u32
        },
{
    if include_jumbo {
        JUMBO_FRAME_SIZE
    } else if sizes.len() > 0 {
        sizes[0]
    } else {
        64
    }
}

// ── Validation ───────────────────────────────────────────────────────────

/// Why a configuration is refused.
#[derive(Debug, Clone, Copy, PartialEq, Eq)]
pub enum ConfigError {
    /// No interface was given.
    InterfaceRequired,
    /// The trial duration is shorter than a second.
    ZeroTrialDuration,
    /// The throughput resolution is not in (0, 10] percent.
    ResolutionOutOfRange,
}

/// The message of a configuration error.
pub open spec fn config_error_message(e: ConfigError) -> Seq<char> {
    match e {
        ConfigError::InterfaceRequired => "interface is required"@,
        ConfigError::ZeroTrialDuration => "trial_duration must be > 0"@,
        ConfigError::ResolutionOutOfRange => "throughput resolution must be between 0 and 10%"@,
    }
}

impl ConfigError {
    /// The error's message.
    pub fn to_string(&self) -> (r: String)
        ensures
            r@ == config_error_message(*self),
    {
        let s = match self {
            ConfigError::InterfaceRequired => "interface is required",
            ConfigError::ZeroTrialDuration => "trial_duration must be > 0",
            ConfigError::ResolutionOutOfRange => "throughput resolution must be between 0 and 10%",
        };
        s.to_owned()
    }
}

/// Checks the settings every run needs: an interface, and a trial duration
/// of at least one whole second. The interface is checked first.
pub fn validate_settings(interface: &String, trial_duration: &Duration) -> (r: Result<
    (),
    ConfigError,
>)
    ensures
        r == if interface@.len() == 0 {
            Err::<(), ConfigError>(ConfigError::InterfaceRequired)
        } else if duration_whole_secs(*trial_duration) == 0 {
            Err::<(), ConfigError>(ConfigError::ZeroTrialDuration)
        } else {
            Ok::<(), ConfigError>(())
        },
{
    if interface.as_str().is_empty() {
        return Err(ConfigError::InterfaceRequired);
    }
    if duration_as_secs(trial_duration) == 0 {
        return Err(ConfigError::ZeroTrialDuration);
    }
    Ok(())
}

} // verus!
