use cellex_actor_core_rs::{
    choose_failure_telemetry, complete_observation, register_extension_if_absent, resolve_settings, worker_after_processing, worker_loop_head,
    NonZeroCapacity, ObservationSettings, SettingsSources, WorkerAction,
};
use std::cell::Cell;

fn sources(
    config_factory: Option<u32>,
    runtime_factory: Option<u32>,
    worker_count: Option<usize>,
) -> SettingsSources<u32, &'static str, u8> {
    SettingsSources {
        config_receive_timeout_factory: config_factory,
        runtime_receive_timeout_factory: runtime_factory,
        config_failure_listener: None,
        runtime_failure_listener: Some("runtime"),
        config_metrics_sink: Some(1),
        runtime_metrics_sink: Some(2),
        config_ready_queue_worker_count: worker_count.and_then(NonZeroCapacity::new),
    }
}

#[test]
fn driver_factory_used_when_nothing_configured() {
    let (r, unused) = resolve_settings(sources(None, None, None), || Some(30));
    assert!(unused.is_none());
    assert_eq!(r.receive_timeout_factory, Some(30));
    assert_eq!(r.ready_queue_worker_count, 1);
}

#[test]
fn runtime_factory_preferred_over_driver() {
    let mut built = false;
    let (r, unused) = resolve_settings(sources(None, Some(20), None), || {
        built = true;
        Some(30)
    });
    assert_eq!(r.receive_timeout_factory, Some(20));
    assert!(unused.is_some());
    drop(unused);
    assert!(!built);
}

#[test]
fn config_factory_preferred_over_runtime_and_driver() {
    let (r, unused) = resolve_settings(sources(Some(10), Some(20), Some(4)), || Some(30));
    assert_eq!(unused.map(|driver| driver()), Some(Some(30)));
    assert_eq!(r.receive_timeout_factory, Some(10));
    assert_eq!(r.ready_queue_worker_count, 4);
}

#[test]
fn config_metrics_preferred_listener_falls_back() {
    let (r, _) = resolve_settings(sources(None, None, Some(0)), || None);
    assert_eq!(r.metrics_sink, Some(1));
    assert_eq!(r.root_event_listener, Some("runtime"));
    assert_eq!(r.receive_timeout_factory, None);
    assert_eq!(r.ready_queue_worker_count, 1);
}

#[test]
fn worker_loop_decisions() {
    assert_eq!(worker_loop_head(true), WorkerAction::Stop);
    assert_eq!(worker_loop_head(false), WorkerAction::ProcessReady);
    assert_eq!(worker_after_processing(Some(true), true), WorkerAction::YieldAndContinue);
    assert_eq!(worker_after_processing(Some(false), true), WorkerAction::WaitForReadyOrShutdown);
    assert_eq!(worker_after_processing(None, false), WorkerAction::Yield);
}

#[test]
fn telemetry_from_builder_when_configured() {
    let defaults = Cell::new(0);
    let t = choose_failure_telemetry(Some(3), Some(100), |b: i32| b * 10, || {
        defaults.set(defaults.get() + 1);
        -1
    });
    assert_eq!(t, 30);
    assert_eq!(defaults.get(), 0);
}

#[test]
fn telemetry_configured_without_builder() {
    let t = choose_failure_telemetry(None::<i32>, Some(100), |b: i32| b * 10, || -1);
    assert_eq!(t, 100);
}

#[test]
fn telemetry_default_when_nothing_configured() {
    let t = choose_failure_telemetry(None::<i32>, None, |b: i32| b * 10, || -1);
    assert_eq!(t, -1);
}

#[test]
fn observation_takes_system_sink_when_it_names_none() {
    let r = complete_observation(ObservationSettings { metrics_sink: None, record_timing: false }, Some("sys"), true);
    assert_eq!(r.metrics_sink, Some("sys"));
    assert!(r.record_timing);
}

#[test]
fn observation_keeps_its_own_sink() {
    let r = complete_observation(ObservationSettings { metrics_sink: Some("own"), record_timing: false }, Some("sys"), false);
    assert_eq!(r.metrics_sink, Some("own"));
    assert!(!r.record_timing);
}

#[test]
fn observation_without_system_sink_is_unchanged() {
    let r = complete_observation(ObservationSettings { metrics_sink: None::<&str>, record_timing: false }, None, true);
    assert_eq!(r.metrics_sink, None);
    assert!(!r.record_timing);
    let r = complete_observation(ObservationSettings { metrics_sink: None::<&str>, record_timing: true }, None, false);
    assert!(r.record_timing);
}

#[test]
fn serializer_extension_registered_only_when_absent() {
    let mut extensions: Vec<(u64, &str)> = vec![(3, "counter")];
    let built = Cell::new(0);
    let make = || {
        built.set(built.get() + 1);
        "serializer"
    };
    assert!(register_extension_if_absent(&mut extensions, 7, make).is_none());
    assert_eq!(extensions, vec![(3, "counter"), (7, "serializer")]);
    assert!(register_extension_if_absent(&mut extensions, 7, make).is_some());
    assert_eq!(extensions.len(), 2);
    assert_eq!(built.get(), 1);
}
