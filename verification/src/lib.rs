//! Ready-queue scheduling core of the cellex actor runtime.
//!
//! The crate holds the mailbox identifiers and invocation outcomes exchanged
//! between actors and the scheduler, the ready-queue coordinators that decide
//! which mailbox is processed next, and the bookkeeping that suspends and
//! resumes actors.

pub mod mailbox_index;
pub mod coordinator_types;
pub mod ready_model;
pub mod retry_schedule;
pub mod coordinator;
pub mod coordinator_replay;
pub mod lock_free_coordinator;
pub mod ordered_keys;
pub mod suspend_registry;
pub mod suspend_laws;
pub mod ready_queue_state;
pub mod scheduler_core;
pub mod immediate_scheduler;
pub mod core_laws;
pub mod scheduler_replay;
pub mod ready_queue_context;
pub mod system_settings;

pub use coordinator::{
    AdaptiveCoordinator, CoordinatorState, DefaultReadyQueueCoordinator, DefaultReadyQueueCoordinatorV2,
    ReadyQueueCoordinator, ReadyQueueCoordinatorV2,
};
pub use coordinator_replay::{apply_call, replay_calls, CoordinatorCall};
pub use coordinator_types::{
    ActorState, Delay, InvokeResult, MailboxOptions, NonZeroCapacity, OverflowStrategy, ResumeCondition, Signal,
    SuspendReason,
};
pub use immediate_scheduler::ImmediateScheduler;
pub use lock_free_coordinator::{LockFreeCoordinator, LockFreeCoordinatorV2};
pub use mailbox_index::{MailboxIndex, SignalKey};
pub use ready_model::ReadyQueueModel;
pub use ready_queue_context::ReadyQueueContext;
pub use ready_queue_state::ReadyQueueState;
pub use scheduler_core::{ActorCell, ActorReport, MetricsEvent, ReadyQueueSchedulerCore};
pub use scheduler_replay::{replay_scheduler_calls, CoreScheduler, SchedulerAnswer, SchedulerCall};
pub use suspend_registry::SuspendRegistry;
pub use system_settings::{
    choose_failure_telemetry, complete_observation, register_extension_if_absent, resolve_settings, worker_after_processing, worker_loop_head,
    ObservationSettings, ResolvedSettings, SettingsSources, WorkerAction,
};
