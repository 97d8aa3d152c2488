//! The timer engine: the single timer's live data, the session in flight,
//! and the lifecycle events published to a subscriber. Wall-clock time
//! enters only as the argument `now` of the transitions; the methods without
//! it read the clock and pass it on.
use vstd::prelude::*;
use crate::clock::{is_clock_reading, new_session_id, now_millis, CLOCK_MAX_MS};
use crate::model::{
    idle_data, opt_text_view, SessionView, TimerConfig, TimerData, TimerEvent, TimerState,
    TimerType, WorkSession,
};
use crate::persistence::{
    after_config_load, has_id, lemma_upsert_keeps_absent, lemma_upsert_same_id, loaded_config,
    upserted, PersistenceManager, StoreView,
};

verus! {

/// The timer engine as a mathematical value.
pub struct EngineView {
    pub data: TimerData,
    pub config: TimerConfig,
    pub session: Option<SessionView>,
    pub subscribed: bool,
    pub events: Seq<TimerEvent>,
}

/// The single timer, its configuration, the session in flight and the
/// events not yet handed to the subscriber.
pub struct TimerEngine {
    data: TimerData,
    config: TimerConfig,
    current_session: Option<WorkSession>,
    subscribed: bool,
    events: Vec<TimerEvent>,
}

impl View for TimerEngine {
    type V = EngineView;

    closed spec fn view(&self) -> EngineView {
        EngineView {
            data: self.data,
            config: self.config,
            session: match self.current_session {
                Some(s) => Some(s@),
                None => None,
            },
            subscribed: self.subscribed,
            events: self.events@,
        }
    }
}

/// The data of a timer in flight agrees with its session, and its instants
/// are clock readings.
pub open spec fn in_flight_wf(d: TimerData, s: SessionView) -> bool {
    &&& d.start_time matches Some(t) && is_clock_reading(t as int) && s.start_time == t
    &&& 0 <= d.paused_time <= CLOCK_MAX_MS
    &&& d.pause_start matches Some(p) ==> is_clock_reading(p as int)
    &&& s.session_type == d.timer_type
    &&& s.end_time is None
}

/// An idle engine has idle data and no session; any other has a session in
/// flight.
pub open spec fn engine_wf(e: EngineView) -> bool {
    &&& (e.data.state == TimerState::Idle <==> e.session is None)
    &&& e.data.state == TimerState::Idle ==> e.data == idle_data()
    &&& e.session matches Some(s) ==> in_flight_wf(e.data, s)
}

/// The target duration of a timer of kind `t`: the configured phase length
/// for the pomodoro kinds, none for the others.
pub open spec fn target_for(t: TimerType, c: TimerConfig) -> Option<i64> {
    match t {
        TimerType::PomodoroWork => Some(c.pomodoro_work_duration),
        TimerType::PomodoroShortBreak => Some(c.pomodoro_short_break_duration),
        TimerType::PomodoroLongBreak => Some(c.pomodoro_long_break_duration),
        _ => None,
    }
}

/// The events after publishing `ev`: kept only when there is a subscriber.
pub open spec fn published(e: EngineView, ev: TimerEvent) -> Seq<TimerEvent> {
    if e.subscribed {
        e.events.push(ev)
    } else {
        e.events
    }
}

/// The tags of a new session: the project, where one is given.
pub open spec fn tags_for(project: Option<Seq<char>>) -> Seq<Seq<char>> {
    match project {
        Some(p) => seq![p],
        None => Seq::empty(),
    }
}

/// The engine after starting a timer of kind `t` at `now`: whatever was in
/// flight is replaced, and a new session with identifier `id` begins.
pub open spec fn started(
    e: EngineView,
    t: TimerType,
    project: Option<Seq<char>>,
    description: Option<Seq<char>>,
    now: i64,
    id: u128,
) -> EngineView {
    EngineView {
        data: TimerData {
            timer_type: t,
            state: TimerState::Running,
            target_duration: target_for(t, e.config),
            elapsed: 0,
            paused_time: 0,
            start_time: Some(now),
            pause_start: None,
        },
        session: Some(
            SessionView {
                id,
                session_type: t,
                start_time: now,
                end_time: None,
                duration: 0,
                paused_duration: 0,
                description,
                tags: tags_for(project),
            },
        ),
        events: published(e, TimerEvent::Started),
        ..e
    }
}

/// The time from the start to `now`, pauses excluded.
pub open spec fn elapsed_at(d: TimerData, now: int) -> int {
    now - d.start_time.unwrap() - d.paused_time
}

/// The engine after reading its state at `now`: a running timer's elapsed
/// time is brought up to date, and a timer that has reached its target
/// completes.
pub open spec fn observed(e: EngineView, now: i64) -> EngineView {
    if e.data.state == TimerState::Running {
        let el = elapsed_at(e.data, now as int);
        let done = e.data.target_duration matches Some(t) && el >= t;
        EngineView {
            data: TimerData {
                elapsed: el as i64,
                state: if done {
                    TimerState::Completed
                } else {
                    TimerState::Running
                },
                ..e.data
            },
            events: if done {
                published(e, TimerEvent::Completed)
            } else {
                e.events
            },
            ..e
        }
    } else {
        e
    }
}

/// The paused time at `now`, a pause still going on included.
pub open spec fn paused_at(d: TimerData, now: int) -> int {
    d.paused_time + match d.pause_start {
        Some(p) => now - p,
        None => 0,
    }
}

/// The session in flight, finished at `now`.
pub open spec fn finished_session(e: EngineView, now: i64) -> SessionView {
    let s = e.session.unwrap();
    let paused = paused_at(e.data, now as int);
    SessionView {
        end_time: Some(now),
        duration: (now - s.start_time - paused) as i64,
        paused_duration: paused as i64,
        ..s
    }
}

/// The engine after stopping: idle, with no session in flight.
pub open spec fn stopped(e: EngineView) -> EngineView {
    EngineView {
        data: idle_data(),
        session: None,
        events: published(e, TimerEvent::Stopped),
        ..e
    }
}

/// The store after stopping the engine at `now`: the session in flight, if
/// any, finished and saved.
pub open spec fn stopped_store(e: EngineView, st: StoreView, now: i64) -> StoreView {
    match e.session {
        Some(_) => StoreView {
            sessions: upserted(st.sessions, finished_session(e, now)),
            sessions_written: true,
            ..st
        },
        None => st,
    }
}

/// Stopping a timer in flight saves a session that ends at the stop, whose
/// duration is the time from its start to its end less the time paused, and
/// whose paused time is the engine's paused time at the stop. Reading the
/// state before stopping does not change that session.
pub proof fn lemma_stop_records_elapsed(e: EngineView, st: StoreView, read_at: i64, now: i64)
    requires
        engine_wf(e),
        e.session is Some,
        is_clock_reading(read_at as int),
        is_clock_reading(now as int),
    ensures
        finished_session(e, now).end_time == Some(now),
        finished_session(e, now).duration == now - finished_session(e, now).start_time
            - finished_session(e, now).paused_duration,
        finished_session(e, now).paused_duration == paused_at(e.data, now as int),
        e.data.pause_start is None ==> finished_session(e, now).paused_duration
            == e.data.paused_time,
        stopped_store(e, st, now).sessions.contains(finished_session(e, now)),
        finished_session(observed(e, read_at), now) == finished_session(e, now),
{
    lemma_upsert_same_id(st.sessions, finished_session(e, now), finished_session(e, now));
}

/// Starting at `start` and stopping at `stop` saves one session of the kind
/// and project started, lasting from `start` to `stop` with no paused time.
pub proof fn lemma_start_then_stop(
    e: EngineView,
    st: StoreView,
    t: TimerType,
    project: Option<Seq<char>>,
    description: Option<Seq<char>>,
    start: i64,
    id: u128,
    stop: i64,
)
    requires
        engine_wf(e),
        is_clock_reading(start as int),
        is_clock_reading(stop as int),
    ensures
        ({
            let r = finished_session(started(e, t, project, description, start, id), stop);
            &&& r == (SessionView {
                id,
                session_type: t,
                start_time: start,
                end_time: Some(stop),
                duration: (stop - start) as i64,
                paused_duration: 0,
                description,
                tags: tags_for(project),
            })
            &&& stopped_store(started(e, t, project, description, start, id), st, stop)
                == (StoreView { sessions: upserted(st.sessions, r), sessions_written: true, ..st })
        }),
{
}

/// Starting while a session is in flight discards that session without
/// saving it: stopping after two starts saves exactly what stopping after
/// the second start alone would, so the first session's identifier, absent
/// from the store before, stays absent.
pub proof fn lemma_restart_discards(
    e: EngineView,
    st: StoreView,
    t1: TimerType,
    project1: Option<Seq<char>>,
    description1: Option<Seq<char>>,
    start1: i64,
    id1: u128,
    t2: TimerType,
    project2: Option<Seq<char>>,
    description2: Option<Seq<char>>,
    start2: i64,
    id2: u128,
    stop: i64,
)
    requires
        engine_wf(e),
        is_clock_reading(start1 as int),
        is_clock_reading(start2 as int),
        is_clock_reading(stop as int),
    ensures
        ({
            let twice = started(
                started(e, t1, project1, description1, start1, id1),
                t2,
                project2,
                description2,
                start2,
                id2,
            );
            let once = started(e, t2, project2, description2, start2, id2);
            &&& twice.data == once.data
            &&& twice.session == once.session
            &&& stopped_store(twice, st, stop) == stopped_store(once, st, stop)
            &&& !has_id(st.sessions, id1) && id1 != id2 ==> !has_id(
                stopped_store(twice, st, stop).sessions,
                id1,
            )
        }),
{
    let once = started(e, t2, project2, description2, start2, id2);
    if !has_id(st.sessions, id1) && id1 != id2 {
        lemma_upsert_keeps_absent(st.sessions, finished_session(once, stop), id1);
    }
}

impl TimerEngine {
    /// The engine's invariant.
    pub open spec fn wf(&self) -> bool {
        engine_wf(self@)
    }

    /// An idle engine with the configuration loaded from `persistence`.
    pub fn new(persistence: &mut PersistenceManager) -> (r: TimerEngine)
        ensures
            r.wf(),
            r@ == (EngineView {
                data: idle_data(),
                config: loaded_config(old(persistence)@),
                session: None,
                subscribed: false,
                events: Seq::empty(),
            }),
            final(persistence)@ == after_config_load(old(persistence)@),
    {
        let config = persistence.load_config();
        let r = TimerEngine {
            data: TimerData::default(),
            config,
            current_session: None,
            subscribed: false,
            events: Vec::new(),
        };
        assert(r@.events =~= Seq::<TimerEvent>::empty());
        r
    }

    /// The configuration the engine was built with.
    pub fn config(&self) -> (r: TimerConfig)
        ensures
            r == self@.config,
    {
        self.config
    }

    /// Registers the subscriber: from now on lifecycle events are kept until
    /// taken with `take_events`.
    pub fn subscribe_events(&mut self)
        ensures
            final(self)@ == (EngineView { subscribed: true, ..old(self)@ }),
    {
        self.subscribed = true;
    }

    /// Hands over the events kept so far, oldest first, and forgets them.
    pub fn take_events(&mut self) -> (r: Vec<TimerEvent>)
        ensures
            r@ == old(self)@.events,
            final(self)@ == (EngineView { events: Seq::empty(), ..old(self)@ }),
    {
        let mut r: Vec<TimerEvent> = Vec::new();
        std::mem::swap(&mut r, &mut self.events);
        assert(self@.events =~= Seq::<TimerEvent>::empty());
        r
    }

    /// Keeps `ev` for the subscriber, if there is one.
    fn publish(&mut self, ev: TimerEvent)
        ensures
            final(self)@ == (EngineView { events: published(old(self)@, ev), ..old(self)@ }),
    {
        if self.subscribed {
            self.events.push(ev);
        }
    }

    /// Starts a timer of kind `t` at `now` with a new session `id`. Whatever
    /// was in flight is discarded, not saved.
    pub fn start_work_session_at(
        &mut self,
        t: TimerType,
        project_name: Option<String>,
        description: Option<String>,
        now: i64,
        id: u128,
    )
        requires
            old(self).wf(),
            is_clock_reading(now as int),
        ensures
            final(self).wf(),
            final(self)@ == started(
                old(self)@,
                t,
                opt_text_view(project_name),
                opt_text_view(description),
                now,
                id,
            ),
    {
        let target_duration = match t {
            TimerType::PomodoroWork => Some(self.config.pomodoro_work_duration),
            TimerType::PomodoroShortBreak => Some(self.config.pomodoro_short_break_duration),
            TimerType::PomodoroLongBreak => Some(self.config.pomodoro_long_break_duration),
            _ => None,
        };
        self.data = TimerData {
            timer_type: t,
            state: TimerState::Running,
            target_duration,
            elapsed: 0,
            paused_time: 0,
            start_time: Some(now),
            pause_start: None,
        };
        let ghost project = opt_text_view(project_name);
        let mut tags: Vec<String> = Vec::new();
        if let Some(p) = project_name {
            tags.push(p);
        }
        assert(crate::model::texts_view(tags@) =~= tags_for(project));
        self.current_session = Some(
            WorkSession {
                id,
                session_type: t,
                start_time: now,
                end_time: None,
                duration: 0,
                paused_duration: 0,
                description,
                tags,
            },
        );
        self.publish(TimerEvent::Started);
    }

    /// Starts a timer of kind `t`, now, with a fresh session identifier.
    pub fn start_work_session(
        &mut self,
        t: TimerType,
        project_name: Option<String>,
        description: Option<String>,
    )
        requires
            old(self).wf(),
        ensures
            final(self).wf(),
            exists|now: i64, id: u128|
                is_clock_reading(now as int) && final(self)@ == #[trigger] started(
                    old(self)@,
                    t,
                    opt_text_view(project_name),
                    opt_text_view(description),
                    now,
                    id,
                ),
    {
        let now = now_millis();
        let id = new_session_id();
        self.start_work_session_at(t, project_name, description, now, id);
    }

    /// Starts a timer of kind `t` without project or description.
    pub fn start_timer(&mut self, t: TimerType)
        requires
            old(self).wf(),
        ensures
            final(self).wf(),
            exists|now: i64, id: u128|
                is_clock_reading(now as int) && final(self)@ == #[trigger] started(
                    old(self)@,
                    t,
                    None,
                    None,
                    now,
                    id,
                ),
    {
        self.start_work_session(t, None, None);
    }

    /// The timer's data at `now`, after bringing a running timer's elapsed
    /// time up to date and completing it once it reaches its target.
    pub fn get_current_state_at(&mut self, now: i64) -> (r: TimerData)
        requires
            old(self).wf(),
            is_clock_reading(now as int),
        ensures
            final(self).wf(),
            final(self)@ == observed(old(self)@, now),
            r == final(self)@.data,
    {
        if self.data.state == TimerState::Running {
            let start = self.data.start_time.unwrap();
            let elapsed = now - start - self.data.paused_time;
            self.data.elapsed = elapsed;
            let done = match self.data.target_duration {
                Some(target) => elapsed >= target,
                None => false,
            };
            if done {
                self.data.state = TimerState::Completed;
                self.publish(TimerEvent::Completed);
            }
        }
        self.data
    }

    /// The timer's data, read now.
    pub fn get_current_state(&mut self) -> (r: TimerData)
        requires
            old(self).wf(),
        ensures
            final(self).wf(),
            exists|now: i64|
                is_clock_reading(now as int) && final(self)@ == #[trigger] observed(old(self)@, now),
            r == final(self)@.data,
    {
        let now = now_millis();
        self.get_current_state_at(now)
    }

    /// Stops the timer at `now`: the session in flight, if any, is finished
    /// and saved to `persistence`, and the timer becomes idle.
    pub fn stop_timer_at(&mut self, persistence: &mut PersistenceManager, now: i64)
        requires
            old(self).wf(),
            is_clock_reading(now as int),
        ensures
            final(self).wf(),
            final(self)@ == stopped(old(self)@),
            final(persistence)@ == stopped_store(old(self)@, old(persistence)@, now),
    {
        let ghost e = self@;
        if let Some(session) = self.current_session.take() {
            let mut session = session;
            let paused = match self.data.pause_start {
                Some(p) => self.data.paused_time + (now - p),
                None => self.data.paused_time,
            };
            session.end_time = Some(now);
            session.duration = now - session.start_time - paused;
            session.paused_duration = paused;
            assert(session@ == finished_session(e, now));
            persistence.save_session(session);
        }
        self.data = TimerData::default();
        self.publish(TimerEvent::Stopped);
    }

    /// Stops the timer now.
    pub fn stop_timer(&mut self, persistence: &mut PersistenceManager)
        requires
            old(self).wf(),
        ensures
            final(self).wf(),
            final(self)@ == stopped(old(self)@),
            exists|now: i64|
                is_clock_reading(now as int) && final(persistence)@ == #[trigger] stopped_store(
                    old(self)@,
                    old(persistence)@,
                    now,
                ),
    {
        let now = now_millis();
        self.stop_timer_at(persistence, now);
    }
}

} // verus!
