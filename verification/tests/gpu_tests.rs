use graphflow::gpu::{
    buffer_bytes, launch_config, retry_delay_ms, GpuInitTracker, GpuState, BLOCK_SIZE,
    MAX_GPU_INIT_RETRIES, MAX_NODES, SHARED_MEM_SIZE,
};
use graphflow::params::{executor_for, Executor, SimulationMode, SimulationParams};

#[test]
fn test_retry_backoff_doubles() {
    assert_eq!(retry_delay_ms(0), 500);
    assert_eq!(retry_delay_ms(1), 1000);
    assert_eq!(retry_delay_ms(2), 2000);
}

#[test]
fn test_gpu_gives_up_after_third_failure_and_runs_cpu_only() {
    let mut t = GpuInitTracker::new();
    for attempt in 0..MAX_GPU_INIT_RETRIES {
        assert!(t.may_retry());
        assert!(t.try_begin().is_ok());
        t.record_failure();
        assert_eq!(t.failures, attempt + 1);
    }
    assert!(t.gave_up);
    assert!(!t.available);
    assert!(!t.may_retry());
    // With the executor gone for good, every mode runs in process.
    assert_eq!(executor_for(SimulationMode::Remote, t.available), Executor::Cpu);
    assert_eq!(executor_for(SimulationMode::GPU, t.available), Executor::Cpu);
    assert_eq!(executor_for(SimulationMode::Local, t.available), Executor::Cpu);
}

#[test]
fn test_gpu_init_single_flight() {
    let mut t = GpuInitTracker::new();
    assert!(t.try_begin().is_ok());
    // Only one initialization may be in progress at any time.
    assert!(t.try_begin().is_err());
    t.record_success();
    assert!(t.available);
    assert!(!t.gave_up);
}

#[test]
fn test_executor_selection() {
    assert_eq!(executor_for(SimulationMode::Remote, true), Executor::Gpu);
    assert_eq!(executor_for(SimulationMode::GPU, true), Executor::Gpu);
    assert_eq!(executor_for(SimulationMode::Local, true), Executor::Cpu);
    assert_eq!(executor_for(SimulationMode::Remote, false), Executor::Cpu);
}

#[test]
fn test_launch_config_covers_all_nodes() {
    assert_eq!(launch_config(0), (1, BLOCK_SIZE, SHARED_MEM_SIZE));
    assert_eq!(launch_config(1).0, 1);
    assert_eq!(launch_config(256).0, 1);
    assert_eq!(launch_config(257).0, 2);
    assert_eq!(launch_config(MAX_NODES).0, (MAX_NODES + 255) / 256);
    assert_eq!(SHARED_MEM_SIZE, 256 * 28);
}

#[test]
fn test_buffer_bytes() {
    assert_eq!(buffer_bytes(0), 0);
    assert_eq!(buffer_bytes(10), 280);
}

#[test]
fn test_node_count_change_resets_iterations() {
    let mut s = GpuState::new(5).unwrap();
    assert_eq!(s.iteration_count, 0);
    s.step_counter();
    s.step_counter();
    assert_eq!(s.iteration_count, 2);
    // Same count: no reallocation, the counter survives.
    assert!(!s.update_graph_data(5));
    assert_eq!(s.iteration_count, 2);
    // Changed count: reallocation and a fresh counter.
    assert!(s.update_graph_data(6));
    assert_eq!(s.num_nodes, 6);
    assert_eq!(s.iteration_count, 0);
}

#[test]
fn test_node_limit() {
    assert!(GpuState::new(MAX_NODES).is_ok());
    assert!(GpuState::new(MAX_NODES + 1).is_err());
}

#[test]
fn test_step_counter_reports_value_seen_by_kernel() {
    let mut s = GpuState::new(1).unwrap();
    assert_eq!(s.step_counter(), 0);
    assert_eq!(s.step_counter(), 1);
}

#[test]
fn test_default_params() {
    let p = SimulationParams::default();
    assert_eq!(p.iterations, 0);
    assert_eq!(f32::from_bits(p.time_step), 0.016);
    assert!(!p.enable_bounds);
    assert_eq!(p.mode, SimulationMode::Remote);
}
