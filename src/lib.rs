//! Single-timer time tracking: the timer state engine, the record store of
//! finished work sessions, and the per-project aggregations over that store.
//!
//! The library holds no files and no locks. A caller loads the stored
//! sessions and configuration into a `PersistenceManager`, runs operations
//! on it and on the `NetupiCore`, and writes back what the manager reports as
//! changed.

pub mod clock;
pub mod model;
pub mod order;
pub mod persistence;
pub mod summary;
pub mod timer;
pub mod tracker;

pub use clock::{day_of_timestamp, CLOCK_MAX_MS, DAY_MS};
pub use model::{
    SessionView, TimerConfig, TimerData, TimerEvent, TimerState, TimerType, WorkSession,
    DEFAULT_LONG_BREAK_INTERVAL, DEFAULT_LONG_BREAK_MS, DEFAULT_SHORT_BREAK_MS, DEFAULT_WORK_MS,
    MINUTE_MS,
};
pub use persistence::{PersistenceManager, StoreView};
pub use summary::{project_totals, sessions_for_project};
pub use timer::{EngineView, TimerEngine};
pub use tracker::NetupiCore;
