//! Configuration values of the inference library: the device, the compute type,
//! how batches are measured and the translator's settings.
use vstd::prelude::*;

verus! {

/// Where the model runs.
#[derive(Debug, Clone, Copy, PartialEq, Eq, Hash, Structural)]
pub enum Device {
    Cpu,
    Cuda,
}

/// The numeric type of the model's computations.
#[derive(Debug, Clone, Copy, PartialEq, Eq, Hash, Structural)]
pub enum ComputeType {
    Default,
    Auto,
    Float32,
    Int8,
    Int8Float32,
    Int8Float16,
    Int8Bfloat16,
    Int16,
    BFfloat16,
    Float16,
}

/// How the size of a batch is measured.
#[derive(Debug, Clone, Copy, PartialEq, Eq, Hash, Structural)]
pub enum BatchType {
    Examples,
    Tokens,
}

impl Device {
    /// The code of the device in the native interface.
    pub fn code(&self) -> (r: i32)
        ensures
            r == match *self {
                Device::Cpu => 0i32,
                Device::Cuda => 1i32,
            },
    {
        match self {
            Device::Cpu => 0,
            Device::Cuda => 1,
        }
    }
}

/// The code of a compute type in the native interface: its position in the list.
pub open spec fn compute_type_code(c: ComputeType) -> i32 {
    match c {
        ComputeType::Default => 0,
        ComputeType::Auto => 1,
        ComputeType::Float32 => 2,
        ComputeType::Int8 => 3,
        ComputeType::Int8Float32 => 4,
        ComputeType::Int8Float16 => 5,
        ComputeType::Int8Bfloat16 => 6,
        ComputeType::Int16 => 7,
        ComputeType::BFfloat16 => 8,
        ComputeType::Float16 => 9,
    }
}

impl ComputeType {
    /// The code of the compute type in the native interface.
    pub fn code(&self) -> (r: i32)
        ensures
            r == compute_type_code(*self),
    {
        match self {
            ComputeType::Default => 0,
            ComputeType::Auto => 1,
            ComputeType::Float32 => 2,
            ComputeType::Int8 => 3,
            ComputeType::Int8Float32 => 4,
            ComputeType::Int8Float16 => 5,
            ComputeType::Int8Bfloat16 => 6,
            ComputeType::Int16 => 7,
            ComputeType::BFfloat16 => 8,
            ComputeType::Float16 => 9,
        }
    }
}

impl BatchType {
    /// The code of the batch type in the native interface.
    pub fn code(&self) -> (r: i32)
        ensures
            r == match *self {
                BatchType::Examples => 0i32,
                BatchType::Tokens => 1i32,
            },
    {
        match self {
            BatchType::Examples => 0,
            BatchType::Tokens => 1,
        }
    }
}

/// The settings a translator is created with.
#[derive(Debug, Clone, PartialEq, Eq)]
pub struct TranslatorConfig {
    pub device: Device,
    pub compute_type: ComputeType,
    pub device_indices: Vec<i32>,
    pub tensor_parallel: bool,
    pub num_threads_per_replica: usize,
    pub max_queued_batches: i64,
    pub cpu_core_offset: i32,
}

impl Default for TranslatorConfig {
    /// One CPU replica on device 0 with the default compute type; the native
    /// library picks the thread count and the queue length, and no core offset.
    fn default() -> (r: Self)
        ensures
            r.device == Device::Cpu,
            r.compute_type == ComputeType::Default,
            r.device_indices@ == seq![0i32],
            !r.tensor_parallel,
            r.num_threads_per_replica == 0,
            r.max_queued_batches == 0,
            r.cpu_core_offset == -1,
    {
        TranslatorConfig {
            device: Device::Cpu,
            compute_type: ComputeType::Default,
            device_indices: vec![0],
            tensor_parallel: false,
            num_threads_per_replica: 0,
            max_queued_batches: 0,
            cpu_core_offset: -1,
        }
    }
}

} // verus!
