//! The simulation parameter model shared by both executors, and the
//! executor choice it implies. Every force tunable is carried as the bit
//! pattern of an IEEE-754 single-precision value; only the iteration count,
//! the bounds switch and the mode are interpreted here.

use vstd::prelude::*;

verus! {

/// Bit pattern of the default integration step (0.016 seconds, about
/// sixty ticks a second).
pub const DEFAULT_TIME_STEP_BITS: u32 = 0x3C83126F;

/// Advisory phase tag for the UI; the stepper does not interpret it.
#[derive(Debug, Clone, Copy, PartialEq, Eq, Structural)]
pub enum SimulationPhase {
    Initial,
    Dynamic,
    Settling,
}

/// Where the simulation runs. `Remote` and `GPU` ask for the parallel
/// executor, `Local` for the in-process one.
#[derive(Debug, Clone, Copy, PartialEq, Eq, Structural)]
pub enum SimulationMode {
    Remote,
    GPU,
    Local,
}

/// Which executor a tick uses.
#[derive(Debug, Clone, Copy, PartialEq, Eq, Structural)]
pub enum Executor {
    Gpu,
    Cpu,
}

/// The tunables of one layout run. Every `u32` force field holds an
/// IEEE-754 bit pattern; `iterations` counts steps and `enable_bounds`
/// switches the boundary clamp.
#[derive(Debug, Clone, Copy, PartialEq, Eq, Structural)]
pub struct SimulationParams {
    pub iterations: u32,
    /// Bit pattern of the spring strength.
    pub spring_strength: u32,
    /// Bit pattern of the repulsion strength.
    pub repulsion: u32,
    /// Bit pattern of the velocity damping factor.
    pub damping: u32,
    /// Bit pattern of the repulsion cutoff distance.
    pub max_repulsion_distance: u32,
    /// Bit pattern of the viewport bound.
    pub viewport_bounds: u32,
    /// Bit pattern of the mass scale.
    pub mass_scale: u32,
    /// Bit pattern of the boundary damping factor.
    pub boundary_damping: u32,
    pub enable_bounds: bool,
    /// Bit pattern of the integration step.
    pub time_step: u32,
    pub phase: SimulationPhase,
    pub mode: SimulationMode,
}

impl Default for SimulationParams {
    /// Neutral parameters: no iterations, all force tunables zero, the
    /// default integration step, dynamic phase, remote mode.
    fn default() -> (r: SimulationParams)
        ensures
            r.iterations == 0u32,
            r.spring_strength == 0u32,
            r.repulsion == 0u32,
            r.damping == 0u32,
            r.max_repulsion_distance == 0u32,
            r.viewport_bounds == 0u32,
            r.mass_scale == 0u32,
            r.boundary_damping == 0u32,
            r.enable_bounds == false,
            r.time_step == DEFAULT_TIME_STEP_BITS,
            r.phase == SimulationPhase::Dynamic,
            r.mode == SimulationMode::Remote,
    {
        SimulationParams {
            iterations: 0,
            spring_strength: 0,
            repulsion: 0,
            damping: 0,
            max_repulsion_distance: 0,
            viewport_bounds: 0,
            mass_scale: 0,
            boundary_damping: 0,
            enable_bounds: false,
            time_step: DEFAULT_TIME_STEP_BITS,
            phase: SimulationPhase::Dynamic,
            mode: SimulationMode::Remote,
        }
    }
}

/// The executor a mode asks for: the parallel one for `Remote` and `GPU`
/// when it is available, the in-process one otherwise and for `Local`.
pub open spec fn spec_executor_for(mode: SimulationMode, gpu_available: bool) -> Executor {
    match mode {
        SimulationMode::Remote => if gpu_available {
            Executor::Gpu
        } else {
            Executor::Cpu
        },
        SimulationMode::GPU => if gpu_available {
            Executor::Gpu
        } else {
            Executor::Cpu
        },
        SimulationMode::Local => Executor::Cpu,
    }
}

/// Chooses the executor for a tick.
pub fn executor_for(mode: SimulationMode, gpu_available: bool) -> (r: Executor)
    ensures
        r == spec_executor_for(mode, gpu_available),
        !gpu_available ==> r == Executor::Cpu,
{
    match mode {
        SimulationMode::Remote => if gpu_available {
            Executor::Gpu
        } else {
            Executor::Cpu
        },
        SimulationMode::GPU => if gpu_available {
            Executor::Gpu
        } else {
            Executor::Cpu
        },
        SimulationMode::Local => Executor::Cpu,
    }
}

/// Without an available parallel executor every mode runs on the
/// in-process one: after initialization gives up, the service is
/// CPU-only.
pub proof fn lemma_cpu_only_without_gpu(mode: SimulationMode)
    ensures
        spec_executor_for(mode, false) == Executor::Cpu,
{
}

} // verus!
