//! The tracker as its callers see it: one timer engine, and the queries and
//! deletions over the record store that the caller has loaded.
use vstd::prelude::*;
use crate::clock::{day_of, day_of_timestamp, is_clock_reading, now_millis};
use crate::model::{
    idle_data, opt_text_view, sessions_view, TimerData, TimerEvent, TimerType, WorkSession,
};
use crate::persistence::{after_config_load, loaded_config, without_project, PersistenceManager};
use crate::summary::{
    are_project_totals, newest_first, project_totals, sessions_for_project, sessions_of,
};
use crate::timer::{engine_wf, observed, started, stopped, stopped_store, EngineView, TimerEngine};

verus! {

/// The time tracker: the single timer engine shared by all its callers.
pub struct NetupiCore {
    timer_engine: TimerEngine,
}

impl View for NetupiCore {
    type V = EngineView;

    closed spec fn view(&self) -> EngineView {
        self.timer_engine@
    }
}

impl NetupiCore {
    /// The tracker's invariant: that of its engine.
    pub open spec fn wf(&self) -> bool {
        engine_wf(self@)
    }

    /// A tracker with an idle timer and the configuration loaded from
    /// `persistence`.
    pub fn new(persistence: &mut PersistenceManager) -> (r: NetupiCore)
        ensures
            r.wf(),
            r@ == (EngineView {
                data: idle_data(),
                config: loaded_config(old(persistence)@),
                session: None,
                subscribed: false,
                events: Seq::empty(),
            }),
            final(persistence)@ == after_config_load(old(persistence)@),
    {
        NetupiCore { timer_engine: TimerEngine::new(persistence) }
    }

    /// The timer engine.
    pub fn timer(&self) -> (r: &TimerEngine)
        ensures
            r@ == self@,
            r.wf() == self.wf(),
    {
        &self.timer_engine
    }

    /// Starts a stopwatch session for `project_name`.
    pub fn start_work_session(&mut self, project_name: String, description: Option<String>)
        requires
            old(self).wf(),
        ensures
            final(self).wf(),
            exists|now: i64, id: u128|
                is_clock_reading(now as int) && final(self)@ == #[trigger] started(
                    old(self)@,
                    TimerType::Stopwatch,
                    Some(project_name@),
                    opt_text_view(description),
                    now,
                    id,
                ),
    {
        let ghost p = project_name@;
        let project = Some(project_name);
        assert(opt_text_view(project) == Some(p));
        self.timer_engine.start_work_session(TimerType::Stopwatch, project, description);
    }

    /// Starts a timer of kind `t` without project or description.
    pub fn start_timer(&mut self, t: TimerType)
        requires
            old(self).wf(),
        ensures
            final(self).wf(),
            exists|now: i64, id: u128|
                is_clock_reading(now as int) && final(self)@ == #[trigger] started(
                    old(self)@,
                    t,
                    None,
                    None,
                    now,
                    id,
                ),
    {
        self.timer_engine.start_timer(t);
    }

    /// The timer's data, read now.
    pub fn get_current_state(&mut self) -> (r: TimerData)
        requires
            old(self).wf(),
        ensures
            final(self).wf(),
            exists|now: i64|
                is_clock_reading(now as int) && final(self)@ == #[trigger] observed(old(self)@, now),
            r == final(self)@.data,
    {
        self.timer_engine.get_current_state()
    }

    /// Stops the timer now, saving the session in flight to `persistence`.
    pub fn stop_timer(&mut self, persistence: &mut PersistenceManager)
        requires
            old(self).wf(),
        ensures
            final(self).wf(),
            final(self)@ == stopped(old(self)@),
            exists|now: i64|
                is_clock_reading(now as int) && final(persistence)@ == #[trigger] stopped_store(
                    old(self)@,
                    old(persistence)@,
                    now,
                ),
    {
        self.timer_engine.stop_timer(persistence);
    }

    /// Registers the subscriber of lifecycle events.
    pub fn subscribe_events(&mut self)
        ensures
            final(self)@ == (EngineView { subscribed: true, ..old(self)@ }),
    {
        self.timer_engine.subscribe_events();
    }

    /// Hands over the lifecycle events kept so far, oldest first.
    pub fn take_events(&mut self) -> (r: Vec<TimerEvent>)
        ensures
            r@ == old(self)@.events,
            final(self)@ == (EngineView { events: Seq::empty(), ..old(self)@ }),
    {
        self.timer_engine.take_events()
    }

    /// All stored sessions.
    pub fn get_sessions(&self, persistence: &PersistenceManager) -> (r: Vec<WorkSession>)
        ensures
            sessions_view(r@) == persistence@.sessions,
    {
        persistence.load_sessions()
    }

    /// Each project's total time over the finished stopwatch sessions with a
    /// project, by ascending project name.
    pub fn get_projects(&self, persistence: &PersistenceManager) -> (r: Vec<(String, i128)>)
        ensures
            are_project_totals(r@, persistence@.sessions, None),
    {
        project_totals(persistence.stored_sessions(), None)
    }

    /// Each project's total time over the sessions that ended on `day`, the
    /// UTC calendar day counted from 1970-01-01.
    pub fn get_summary_for_day(&self, persistence: &PersistenceManager, day: i64) -> (r: Vec<
        (String, i128),
    >)
        ensures
            are_project_totals(r@, persistence@.sessions, Some(day as int)),
    {
        project_totals(persistence.stored_sessions(), Some(day))
    }

    /// Each project's total time over the sessions that ended today (UTC).
    pub fn get_today_summary(&self, persistence: &PersistenceManager) -> (r: Vec<(String, i128)>)
        ensures
            exists|now: i64|
                is_clock_reading(now as int) && are_project_totals(
                    r@,
                    persistence@.sessions,
                    Some(#[trigger] day_of(now as int)),
                ),
    {
        let now = now_millis();
        let today = day_of_timestamp(now);
        self.get_summary_for_day(persistence, today)
    }

    /// The finished stopwatch sessions of `project`, newest first.
    pub fn get_sessions_for_project(&self, persistence: &PersistenceManager, project: &str) -> (r:
        Vec<WorkSession>)
        ensures
            sessions_view(r@).to_multiset() == sessions_of(persistence@.sessions, project@).to_multiset(),
            newest_first(sessions_view(r@)),
    {
        sessions_for_project(persistence.stored_sessions(), project)
    }

    /// Removes the finished stopwatch sessions of `project` from
    /// `persistence` and returns how many there were.
    pub fn delete_project_sessions(&self, persistence: &mut PersistenceManager, project: &str) -> (r:
        usize)
        ensures
            final(persistence)@.sessions == without_project(old(persistence)@.sessions, project@),
            r == old(persistence)@.sessions.len() - final(persistence)@.sessions.len(),
            final(persistence)@.sessions_written == (old(persistence)@.sessions_written || r > 0),
            final(persistence)@.config == old(persistence)@.config,
            final(persistence)@.config_written == old(persistence)@.config_written,
            r == 0 ==> final(persistence)@ == old(persistence)@,
    {
        persistence.delete_sessions_for_project(project)
    }
}

} // verus!
