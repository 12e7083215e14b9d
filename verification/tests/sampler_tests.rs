use ttfb_gate::config::RunConfig;
use ttfb_gate::gate::GateMode;
use ttfb_gate::sampler::{summarize_samples, SampleError, Sampler};

#[test]
fn transport_failure_aborts_run() {
    let mut sampler = Sampler::new(3);
    sampler.record_response(120, 200);
    sampler.record_failure();
    assert!(sampler.has_failed());
    assert!(!sampler.is_complete());
    let r = sampler.finish();
    assert!(matches!(r, Err(SampleError::TransportAborted)));
}

#[test]
fn failure_after_all_responses_still_aborts() {
    let mut sampler = Sampler::new(2);
    sampler.record_response(100, 200);
    sampler.record_response(110, 200);
    sampler.record_failure();
    let r = sampler.finish();
    assert!(matches!(r, Err(SampleError::TransportAborted)));
}

#[test]
fn incomplete_run_is_refused() {
    let mut sampler = Sampler::new(3);
    sampler.record_response(100, 200);
    sampler.record_response(110, 200);
    let r = sampler.finish();
    assert!(matches!(r, Err(SampleError::Incomplete)));
}

#[test]
fn complete_run_produces_sample_set() {
    let mut sampler = Sampler::new(3);
    sampler.record_response(300, 200);
    sampler.record_response(100, 204);
    sampler.record_response(200, 500);
    assert!(sampler.is_complete());
    let set = sampler.finish().unwrap();
    assert_eq!(set.len(), 3);
    assert_eq!(set.sample_at(0).index, 1);
    assert_eq!(set.sample_at(1).index, 2);
    assert_eq!(set.sample_at(2).index, 3);
    assert_eq!(set.sample_at(0).latency_ms, 300);
    assert_eq!(set.sample_at(1).status_code, 204);
    assert_eq!(set.latencies(), vec![300, 100, 200]);
    let s = summarize_samples(&set);
    assert_eq!(s.min_ms, 100);
    assert_eq!(s.max_ms, 300);
    assert_eq!(s.median_ms, 200);
    assert_eq!(s.mean_num_ms, 600);
    assert_eq!(s.sample_count, 3);
    assert_eq!(s.mean_floor_ms(), 200);
}

#[test]
fn single_request_pipeline() {
    let mut sampler = Sampler::new(1);
    sampler.record_response(77, 200);
    let set = sampler.finish().unwrap();
    let s = summarize_samples(&set);
    assert_eq!(s.min_ms, 77);
    assert_eq!(s.max_ms, 77);
    assert_eq!(s.median_ms, 77);
    assert_eq!(s.p95_ms, 77);
    assert_eq!(s.p99_ms, 77);
    assert_eq!(s.mean_floor_ms(), 77);
    assert_eq!(s.sample_count, 1);
}

#[test]
fn default_config_values() {
    let c = RunConfig::default();
    assert_eq!(c.count, 100);
    assert_eq!(c.threshold_ms, 1000);
    assert_eq!(c.mode, GateMode::Disabled);
    assert!(!c.verbose);
    assert!(c.is_valid());
}

#[test]
fn zero_count_config_is_invalid() {
    let c = RunConfig { count: 0, ..RunConfig::default() };
    assert!(!c.is_valid());
}
