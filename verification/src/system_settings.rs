//! How an actor system chooses its root-level settings: a setting given in
//! the system configuration wins over the one the runtime offers, the
//! receive-timeout factory falls back to one built by the runtime's driver,
//! the failure telemetry comes from the configured builder, the configured
//! telemetry or the default, and the failure observation configuration is
//! completed with the system's metrics sink, and the serializer extension
//! is registered only when none is. Also the decisions of the ready-queue
//! worker loop.

use vstd::prelude::*;

use crate::coordinator_types::NonZeroCapacity;

verus! {

/// The candidates for each root-level setting: `F` is the receive-timeout
/// scheduler factory, `L` the failure event listener, `M` the metrics sink.
pub struct SettingsSources<F, L, M> {
    /// Receive-timeout factory from the system configuration.
    pub config_receive_timeout_factory: Option<F>,
    /// Receive-timeout factory offered by the runtime.
    pub runtime_receive_timeout_factory: Option<F>,
    /// Failure event listener from the system configuration.
    pub config_failure_listener: Option<L>,
    /// Failure event listener offered by the runtime.
    pub runtime_failure_listener: Option<L>,
    /// Metrics sink from the system configuration.
    pub config_metrics_sink: Option<M>,
    /// Metrics sink offered by the runtime.
    pub runtime_metrics_sink: Option<M>,
    /// Ready-queue worker count from the system configuration.
    pub config_ready_queue_worker_count: Option<NonZeroCapacity>,
}

/// The settings an actor system runs with.
pub struct ResolvedSettings<F, L, M> {
    /// The receive-timeout scheduler factory.
    pub receive_timeout_factory: Option<F>,
    /// The root failure event listener.
    pub root_event_listener: Option<L>,
    /// The metrics sink.
    pub metrics_sink: Option<M>,
    /// The number of ready-queue workers (never zero).
    pub ready_queue_worker_count: usize,
}

/// The configured value if there is one, else the runtime's.
pub open spec fn prefer<T>(configured: Option<T>, offered: Option<T>) -> Option<T> {
    match configured {
        Some(v) => Some(v),
        None => offered,
    }
}

/// Chooses the actor system's settings: configuration first, then the
/// runtime; the receive-timeout factory falls back to the one the runtime's
/// driver builds, which is built only when neither is given; the worker
/// count defaults to one. The driver is handed back, uncalled, when a
/// configured or runtime factory is chosen.
pub fn resolve_settings<F, L, M, D>(sources: SettingsSources<F, L, M>, driver_factory: D) -> (r: (
    ResolvedSettings<F, L, M>,
    Option<D>,
))
    where
        D: FnOnce() -> Option<F>,
    requires
        driver_factory.requires(()),
    ensures
        (sources.config_receive_timeout_factory is Some || sources.runtime_receive_timeout_factory is Some)
            ==> (r.0.receive_timeout_factory == prefer(
            sources.config_receive_timeout_factory,
            sources.runtime_receive_timeout_factory,
        ) && r.1 == Some(driver_factory)),
        (sources.config_receive_timeout_factory is None && sources.runtime_receive_timeout_factory is None)
            ==> (driver_factory.ensures((), r.0.receive_timeout_factory) && r.1 is None),
        r.0.root_event_listener == prefer(sources.config_failure_listener, sources.runtime_failure_listener),
        r.0.metrics_sink == prefer(sources.config_metrics_sink, sources.runtime_metrics_sink),
        r.0.ready_queue_worker_count == (match sources.config_ready_queue_worker_count {
            Some(c) => c@,
            None => 1,
        }),
        r.0.ready_queue_worker_count > 0,
{
    let SettingsSources {
        config_receive_timeout_factory,
        runtime_receive_timeout_factory,
        config_failure_listener,
        runtime_failure_listener,
        config_metrics_sink,
        runtime_metrics_sink,
        config_ready_queue_worker_count,
    } = sources;
    let (receive_timeout_factory, unused_driver) = match config_receive_timeout_factory {
        Some(f) => (Some(f), Some(driver_factory)),
        None => match runtime_receive_timeout_factory {
            Some(f) => (Some(f), Some(driver_factory)),
            None => (driver_factory(), None),
        },
    };
    let root_event_listener = match config_failure_listener {
        Some(l) => Some(l),
        None => runtime_failure_listener,
    };
    let metrics_sink = match config_metrics_sink {
        Some(m) => Some(m),
        None => runtime_metrics_sink,
    };
    let ready_queue_worker_count = match config_ready_queue_worker_count {
        Some(c) => c.get(),
        None => 1,
    };
    (
        ResolvedSettings { receive_timeout_factory, root_event_listener, metrics_sink, ready_queue_worker_count },
        unused_driver,
    )
}

/// Chooses the root failure telemetry: the configured builder builds it
/// when there is one; otherwise the configured telemetry is taken, and
/// without one the default telemetry is made. Only the chosen way runs.
pub fn choose_failure_telemetry<B, T, Build, Make>(
    builder: Option<B>,
    configured: Option<T>,
    build: Build,
    make_default: Make,
) -> (telemetry: T)
    where
        Build: FnOnce(B) -> T,
        Make: FnOnce() -> T,
    requires
        forall|b: B| build.requires((b,)),
        make_default.requires(()),
    ensures
        builder matches Some(b) ==> build.ensures((b,), telemetry),
        builder is None && configured is Some ==> telemetry == configured.unwrap(),
        builder is None && configured is None ==> make_default.ensures((), telemetry),
{
    match builder {
        Some(b) => build(b),
        None => match configured {
            Some(t) => t,
            None => make_default(),
        },
    }
}

/// The parts of the failure observation configuration that the actor
/// system completes: the metrics sink and whether timings are recorded.
pub struct ObservationSettings<M> {
    /// Metrics sink that observations are recorded to.
    pub metrics_sink: Option<M>,
    /// Whether the time spent handling failures is recorded.
    pub record_timing: bool,
}

/// Completes the observation configuration with the system's metrics sink:
/// when there is a sink, it is used where the configuration names none,
/// and, when `timing_with_metrics` holds, timings are recorded.
pub fn complete_observation<M>(
    config: ObservationSettings<M>,
    metrics_sink: Option<M>,
    timing_with_metrics: bool,
) -> (r: ObservationSettings<M>)
    ensures
        r.metrics_sink == prefer(config.metrics_sink, metrics_sink),
        r.record_timing == (config.record_timing || (metrics_sink is Some && timing_with_metrics)),
{
    let ObservationSettings { metrics_sink: configured_sink, record_timing } = config;
    match metrics_sink {
        Some(sink) => {
            let chosen = match configured_sink {
                Some(c) => Some(c),
                None => Some(sink),
            };
            ObservationSettings { metrics_sink: chosen, record_timing: record_timing || timing_with_metrics }
        },
        None => ObservationSettings { metrics_sink: configured_sink, record_timing },
    }
}

/// Whether an extension is registered under `id`.
pub open spec fn has_extension<X>(extensions: Seq<(u64, X)>, id: u64) -> bool {
    exists|k: int| 0 <= k < extensions.len() && (#[trigger] extensions[k]).0 == id
}

/// Registers the extension that `make` builds under `id`, unless one is
/// registered under `id` already; `make` runs only then. Hands `make` back,
/// uncalled, when nothing was registered.
pub fn register_extension_if_absent<X, Make: FnOnce() -> X>(
    extensions: &mut Vec<(u64, X)>,
    id: u64,
    make: Make,
) -> (unused: Option<Make>)
    requires
        make.requires(()),
    ensures
        has_extension(old(extensions)@, id) ==> (final(extensions)@ == old(extensions)@ && unused == Some(make)),
        !has_extension(old(extensions)@, id) ==> (unused is None && final(extensions)@.len() == old(
            extensions,
        )@.len() + 1 && final(extensions)@.drop_last() == old(extensions)@ && final(extensions)@.last().0 == id
            && make.ensures((), final(extensions)@.last().1)),
{
    let mut k: usize = 0;
    while k < extensions.len()
        invariant
            k <= extensions.len(),
            forall|t: int| 0 <= t < k ==> (#[trigger] extensions@[t]).0 != id,
        decreases extensions.len() - k,
    {
        if extensions[k].0 == id {
            return Some(make);
        }
        k += 1;
    }
    let ghost before = extensions@;
    let x = make();
    extensions.push((id, x));
    assert(extensions@.drop_last() =~= before);
    None
}

/// What a ready-queue worker does next.
#[derive(Clone, Copy, Debug, PartialEq, Eq, Structural)]
pub enum WorkerAction {
    /// Shutdown was triggered: leave the loop.
    Stop,
    /// Process one ready actor.
    ProcessReady,
    /// Progress was made: yield, then continue the loop.
    YieldAndContinue,
    /// Wait until an actor becomes ready or shutdown is triggered.
    WaitForReadyOrShutdown,
    /// Nothing to wait for: yield, then continue the loop.
    Yield,
}

/// The step at the head of the worker loop: stop once shutdown is
/// triggered, otherwise process a ready actor.
pub fn worker_loop_head(shutdown_triggered: bool) -> (a: WorkerAction)
    ensures
        a == (if shutdown_triggered {
            WorkerAction::Stop
        } else {
            WorkerAction::ProcessReady
        }),
{
    if shutdown_triggered {
        WorkerAction::Stop
    } else {
        WorkerAction::ProcessReady
    }
}

/// The step after processing: `progress` is what processing one ready
/// actor reported, `can_wait` whether a wait for readiness is available.
/// Progress yields and continues; otherwise the worker waits when it can
/// and yields when it cannot.
pub fn worker_after_processing(progress: Option<bool>, can_wait: bool) -> (a: WorkerAction)
    ensures
        progress == Some(true) ==> a == WorkerAction::YieldAndContinue,
        progress != Some(true) && can_wait ==> a == WorkerAction::WaitForReadyOrShutdown,
        progress != Some(true) && !can_wait ==> a == WorkerAction::Yield,
{
    if let Some(true) = progress {
        return WorkerAction::YieldAndContinue;
    }
    if can_wait {
        WorkerAction::WaitForReadyOrShutdown
    } else {
        WorkerAction::Yield
    }
}

} // verus!
