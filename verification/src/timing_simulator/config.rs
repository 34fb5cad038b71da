//! Configuration of the timing simulator: caches, pipeline, Tomasulo
//! out-of-order engine and the simulator as a whole.
use vstd::prelude::*;

verus! {

#[derive(Debug, Clone, Copy, PartialEq, Eq, Structural)]
pub enum ReplacementPolicy {
    /// Least recently used.
    LRU,
    /// First in, first out.
    FIFO,
    /// Random replacement.
    Random,
    /// Least frequently used.
    LFU,
}

#[derive(Debug, Clone, Copy, PartialEq, Eq, Structural)]
pub enum PrefetchStrategy {
    /// Prefetch the next N sequential blocks.
    NextNBlocks(usize),
    /// Prefetch blocks from N adjacent sets.
    AdjacentSets(usize),
    /// Prefetch with a specific stride pattern.
    Stride(isize),
    /// Custom prefetch strategy.
    Custom,
}

#[derive(Debug, Clone, Copy, PartialEq, Eq, Structural)]
pub struct CacheConfig {
    /// Cache size in bytes.
    pub size: usize,
    /// Number of ways (lines per set).
    pub associativity: usize,
    /// Size of each cache line in bytes.
    pub block_size: usize,
    pub replacement_policy: ReplacementPolicy,
    /// Cache hit latency in cycles.
    pub hit_latency: usize,
    /// Additional latency on cache miss.
    pub miss_penalty: usize,
    /// Write-back (true) or write-through (false).
    pub write_back: bool,
    /// Write-allocate (true) or no-write-allocate (false).
    pub write_allocate: bool,
    pub prefetch_enabled: bool,
    pub prefetch_strategy: PrefetchStrategy,
}

impl CacheConfig {
    /// A valid cache geometry: positive sizes, and the size a multiple of
    /// one set's bytes.
    pub open spec fn valid_geometry(size: usize, associativity: usize, block_size: usize) -> bool {
        &&& size > 0
        &&& associativity > 0
        &&& block_size > 0
        &&& associativity * block_size <= usize::MAX
        &&& size % (associativity * block_size) as usize == 0
    }

    pub fn new(size: usize, associativity: usize, block_size: usize) -> (r: Self)
        requires
            Self::valid_geometry(size, associativity, block_size),
        ensures
            r == (CacheConfig {
                size,
                associativity,
                block_size,
                replacement_policy: ReplacementPolicy::LRU,
                hit_latency: 1,
                miss_penalty: 10,
                write_back: true,
                write_allocate: true,
                prefetch_enabled: false,
                prefetch_strategy: PrefetchStrategy::NextNBlocks(1),
            }),
    {
        Self {
            size,
            associativity,
            block_size,
            replacement_policy: ReplacementPolicy::LRU,
            hit_latency: 1,
            miss_penalty: 10,
            write_back: true,
            write_allocate: true,
            prefetch_enabled: false,
            prefetch_strategy: PrefetchStrategy::NextNBlocks(1),
        }
    }
}

#[derive(Debug, Clone, Copy, PartialEq, Eq, Structural)]
pub enum BranchPredictorType {
    /// Always predict taken or not taken.
    Static,
    /// Remember last outcome.
    OneBit,
    /// 2-bit saturating counter.
    TwoBit,
    /// Use history of recent branches.
    Correlating,
    /// Combine multiple predictors.
    Tournament,
}

/// Configuration for Tomasulo's algorithm.
#[derive(Debug, Clone, Copy, PartialEq, Eq, Structural)]
pub struct TomasuloConfig {
    pub num_reservation_stations: usize,
    pub rob_size: usize,
    pub num_alu_units: usize,
    pub num_fpu_units: usize,
    pub num_load_store_units: usize,
    pub num_branch_units: usize,
    /// Instructions committed per cycle.
    pub commit_width: usize,
    /// Instructions issued per cycle.
    pub issue_width: usize,
}

impl TomasuloConfig {
    pub fn new() -> (r: Self)
        ensures
            r == (TomasuloConfig {
                num_reservation_stations: 16,
                rob_size: 32,
                num_alu_units: 2,
                num_fpu_units: 2,
                num_load_store_units: 1,
                num_branch_units: 1,
                commit_width: 4,
                issue_width: 2,
            }),
    {
        Self {
            num_reservation_stations: 16,
            rob_size: 32,
            num_alu_units: 2,
            num_fpu_units: 2,
            num_load_store_units: 1,
            num_branch_units: 1,
            commit_width: 4,
            issue_width: 2,
        }
    }

    pub fn with_reservation_stations(self, num: usize) -> (r: Self)
        ensures
            r == (TomasuloConfig { num_reservation_stations: num, ..self }),
    {
        Self { num_reservation_stations: num, ..self }
    }

    pub fn with_rob_size(self, size: usize) -> (r: Self)
        ensures
            r == (TomasuloConfig { rob_size: size, ..self }),
    {
        Self { rob_size: size, ..self }
    }

    pub fn with_alu_units(self, num: usize) -> (r: Self)
        ensures
            r == (TomasuloConfig { num_alu_units: num, ..self }),
    {
        Self { num_alu_units: num, ..self }
    }

    pub fn with_fpu_units(self, num: usize) -> (r: Self)
        ensures
            r == (TomasuloConfig { num_fpu_units: num, ..self }),
    {
        Self { num_fpu_units: num, ..self }
    }

    pub fn with_load_store_units(self, num: usize) -> (r: Self)
        ensures
            r == (TomasuloConfig { num_load_store_units: num, ..self }),
    {
        Self { num_load_store_units: num, ..self }
    }

    pub fn with_branch_units(self, num: usize) -> (r: Self)
        ensures
            r == (TomasuloConfig { num_branch_units: num, ..self }),
    {
        Self { num_branch_units: num, ..self }
    }

    pub fn with_commit_width(self, width: usize) -> (r: Self)
        ensures
            r == (TomasuloConfig { commit_width: width, ..self }),
    {
        Self { commit_width: width, ..self }
    }

    pub fn with_issue_width(self, width: usize) -> (r: Self)
        ensures
            r == (TomasuloConfig { issue_width: width, ..self }),
    {
        Self { issue_width: width, ..self }
    }
}

pub struct PipelineConfig {
    pub num_stages: usize,
    pub stage_latencies: Vec<usize>,
    pub forwarding_enabled: bool,
    pub branch_prediction_enabled: bool,
    pub branch_predictor_type: BranchPredictorType,
    /// Out-of-order execution settings; `None` for an in-order pipeline.
    pub tomasulo_config: Option<TomasuloConfig>,
    pub superscalar_width: usize,
}

impl PipelineConfig {
    /// A pipeline of `num_stages` stages of one cycle each, with forwarding
    /// and two-bit branch prediction.
    pub fn new(num_stages: usize) -> (r: Self)
        ensures
            r.num_stages == num_stages,
            r.stage_latencies@ == Seq::new(num_stages as nat, |i: int| 1usize),
            r.forwarding_enabled,
            r.branch_prediction_enabled,
            r.branch_predictor_type == BranchPredictorType::TwoBit,
            r.tomasulo_config is None,
            r.superscalar_width == 1,
    {
        let mut stage_latencies: Vec<usize> = Vec::new();
        let mut i: usize = 0;
        while i < num_stages
            invariant
                i <= num_stages,
                stage_latencies@ == Seq::new(i as nat, |k: int| 1usize),
            decreases num_stages - i,
        {
            stage_latencies.push(1);
            i = i + 1;
        }
        Self {
            num_stages,
            stage_latencies,
            forwarding_enabled: true,
            branch_prediction_enabled: true,
            branch_predictor_type: BranchPredictorType::TwoBit,
            tomasulo_config: None,
            superscalar_width: 1,
        }
    }

    pub fn with_latencies(self, latencies: Vec<usize>) -> (r: Self)
        requires
            latencies.len() == self.num_stages,
        ensures
            r.stage_latencies@ == latencies@,
            r.num_stages == self.num_stages,
            r.forwarding_enabled == self.forwarding_enabled,
            r.branch_prediction_enabled == self.branch_prediction_enabled,
            r.branch_predictor_type == self.branch_predictor_type,
            r.tomasulo_config == self.tomasulo_config,
            r.superscalar_width == self.superscalar_width,
    {
        Self { stage_latencies: latencies, ..self }
    }

    pub fn with_forwarding(self, enabled: bool) -> (r: Self)
        ensures
            r.forwarding_enabled == enabled,
            r.stage_latencies@ == self.stage_latencies@,
            r.num_stages == self.num_stages,
            r.branch_prediction_enabled == self.branch_prediction_enabled,
            r.branch_predictor_type == self.branch_predictor_type,
            r.tomasulo_config == self.tomasulo_config,
            r.superscalar_width == self.superscalar_width,
    {
        Self { forwarding_enabled: enabled, ..self }
    }

    pub fn with_branch_prediction(self, enabled: bool, predictor_type: BranchPredictorType) -> (r:
        Self)
        ensures
            r.branch_prediction_enabled == enabled,
            r.branch_predictor_type == predictor_type,
            r.stage_latencies@ == self.stage_latencies@,
            r.num_stages == self.num_stages,
            r.forwarding_enabled == self.forwarding_enabled,
            r.tomasulo_config == self.tomasulo_config,
            r.superscalar_width == self.superscalar_width,
    {
        Self { branch_prediction_enabled: enabled, branch_predictor_type: predictor_type, ..self }
    }

    /// Enables (with `config`) or disables out-of-order execution.
    pub fn with_tomasulo(self, enabled: bool, config: TomasuloConfig) -> (r: Self)
        ensures
            r.tomasulo_config == if enabled {
                Some(config)
            } else {
                None
            },
            r.stage_latencies@ == self.stage_latencies@,
            r.num_stages == self.num_stages,
            r.forwarding_enabled == self.forwarding_enabled,
            r.branch_prediction_enabled == self.branch_prediction_enabled,
            r.branch_predictor_type == self.branch_predictor_type,
            r.superscalar_width == self.superscalar_width,
    {
        Self {
            tomasulo_config: if enabled {
                Some(config)
            } else {
                None
            },
            ..self
        }
    }

    pub fn with_superscalar(self, width: usize) -> (r: Self)
        requires
            width > 0,
        ensures
            r.superscalar_width == width,
            r.stage_latencies@ == self.stage_latencies@,
            r.num_stages == self.num_stages,
            r.forwarding_enabled == self.forwarding_enabled,
            r.branch_prediction_enabled == self.branch_prediction_enabled,
            r.branch_predictor_type == self.branch_predictor_type,
            r.tomasulo_config == self.tomasulo_config,
    {
        Self { superscalar_width: width, ..self }
    }
}

pub struct SimulatorConfig {
    pub memory_size: usize,
    pub max_instructions: usize,
    pub pipeline_config: PipelineConfig,
    pub l1_cache_config: CacheConfig,
    pub l2_cache_config: Option<CacheConfig>,
    pub debug_enabled: bool,
    pub trace_enabled: bool,
    pub statistics_enabled: bool,
}

impl SimulatorConfig {
    /// Defaults: a five-stage pipeline, a 32 KiB 4-way L1 cache with 64-byte
    /// blocks, no L2, a limit of a million instructions, statistics on.
    pub fn new(memory_size: usize) -> (r: Self)
        ensures
            r.memory_size == memory_size,
            r.max_instructions == 1000000,
            r.pipeline_config.num_stages == 5,
            r.pipeline_config.stage_latencies@ == Seq::new(5, |i: int| 1usize),
            r.pipeline_config.tomasulo_config is None,
            r.l1_cache_config.size == 32768,
            r.l1_cache_config.associativity == 4,
            r.l1_cache_config.block_size == 64,
            r.l2_cache_config is None,
            !r.debug_enabled,
            !r.trace_enabled,
            r.statistics_enabled,
    {
        assert(32768usize % 256usize == 0) by (nonlinear_arith);
        Self {
            memory_size,
            max_instructions: 1000000,
            pipeline_config: PipelineConfig::new(5),
            l1_cache_config: CacheConfig::new(32768, 4, 64),
            l2_cache_config: None,
            debug_enabled: false,
            trace_enabled: false,
            statistics_enabled: true,
        }
    }

    pub fn with_pipeline(self, pipeline_config: PipelineConfig) -> (r: Self)
        ensures
            r.pipeline_config == pipeline_config,
            r.memory_size == self.memory_size,
            r.max_instructions == self.max_instructions,
            r.l1_cache_config == self.l1_cache_config,
            r.l2_cache_config == self.l2_cache_config,
    {
        Self { pipeline_config, ..self }
    }

    pub fn with_l1_cache(self, cache_config: CacheConfig) -> (r: Self)
        ensures
            r.l1_cache_config == cache_config,
            r.memory_size == self.memory_size,
            r.max_instructions == self.max_instructions,
            r.l2_cache_config == self.l2_cache_config,
    {
        Self { l1_cache_config: cache_config, ..self }
    }

    pub fn with_l2_cache(self, cache_config: CacheConfig) -> (r: Self)
        ensures
            r.l2_cache_config == Some(cache_config),
            r.memory_size == self.memory_size,
            r.max_instructions == self.max_instructions,
            r.l1_cache_config == self.l1_cache_config,
    {
        Self { l2_cache_config: Some(cache_config), ..self }
    }

    pub fn with_max_instructions(self, max_instructions: usize) -> (r: Self)
        ensures
            r.max_instructions == max_instructions,
            r.memory_size == self.memory_size,
            r.l1_cache_config == self.l1_cache_config,
            r.l2_cache_config == self.l2_cache_config,
    {
        Self { max_instructions, ..self }
    }

    pub fn with_debug(self, enabled: bool) -> (r: Self)
        ensures
            r.debug_enabled == enabled,
            r.trace_enabled == self.trace_enabled,
            r.statistics_enabled == self.statistics_enabled,
            r.memory_size == self.memory_size,
    {
        Self { debug_enabled: enabled, ..self }
    }

    pub fn with_trace(self, enabled: bool) -> (r: Self)
        ensures
            r.trace_enabled == enabled,
            r.debug_enabled == self.debug_enabled,
            r.statistics_enabled == self.statistics_enabled,
            r.memory_size == self.memory_size,
    {
        Self { trace_enabled: enabled, ..self }
    }

    pub fn with_statistics(self, enabled: bool) -> (r: Self)
        ensures
            r.statistics_enabled == enabled,
            r.debug_enabled == self.debug_enabled,
            r.trace_enabled == self.trace_enabled,
            r.memory_size == self.memory_size,
    {
        Self { statistics_enabled: enabled, ..self }
    }
}

} // verus!
