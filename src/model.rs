//! The data of the tracker: timer kinds and states, the live timer data,
//! the persisted work session record and the timer configuration.
//!
//! Instants are milliseconds since the Unix epoch (UTC); durations are
//! milliseconds.
use vstd::prelude::*;

verus! {

/// Milliseconds in one minute.
pub const MINUTE_MS: i64 = 60_000;

/// Default length of a pomodoro work phase: 25 minutes.
pub const DEFAULT_WORK_MS: i64 = 25 * MINUTE_MS;

/// Default length of a short break: 5 minutes.
pub const DEFAULT_SHORT_BREAK_MS: i64 = 5 * MINUTE_MS;

/// Default length of a long break: 15 minutes.
pub const DEFAULT_LONG_BREAK_MS: i64 = 15 * MINUTE_MS;

/// Default number of work phases between long breaks.
pub const DEFAULT_LONG_BREAK_INTERVAL: u32 = 4;

/// The kind of a timer; the pomodoro kinds carry a target duration.
#[derive(Clone, Copy, Debug, PartialEq, Eq, Structural)]
pub enum TimerType {
    Stopwatch,
    PomodoroWork,
    PomodoroShortBreak,
    PomodoroLongBreak,
    CustomTimer,
}

/// The lifecycle state of the single timer.
#[derive(Clone, Copy, Debug, PartialEq, Eq, Structural)]
pub enum TimerState {
    Idle,
    Running,
    Paused,
    Completed,
}

/// Durations of each pomodoro phase, the long-break interval and the
/// auto-start flags.
#[derive(Clone, Copy, Debug, PartialEq, Eq, Structural)]
pub struct TimerConfig {
    pub pomodoro_work_duration: i64,
    pub pomodoro_short_break_duration: i64,
    pub pomodoro_long_break_duration: i64,
    pub long_break_interval: u32,
    pub auto_start_breaks: bool,
    pub auto_start_work: bool,
}

/// The configuration used when none has been stored: 25 minutes of work,
/// 5 and 15 minutes of break, a long break every 4 pomodoros, no auto-start.
pub open spec fn default_config() -> TimerConfig {
    TimerConfig {
        pomodoro_work_duration: DEFAULT_WORK_MS,
        pomodoro_short_break_duration: DEFAULT_SHORT_BREAK_MS,
        pomodoro_long_break_duration: DEFAULT_LONG_BREAK_MS,
        long_break_interval: DEFAULT_LONG_BREAK_INTERVAL,
        auto_start_breaks: false,
        auto_start_work: false,
    }
}

impl Default for TimerConfig {
    fn default() -> (r: TimerConfig)
        ensures
            r == default_config(),
    {
        TimerConfig {
            pomodoro_work_duration: DEFAULT_WORK_MS,
            pomodoro_short_break_duration: DEFAULT_SHORT_BREAK_MS,
            pomodoro_long_break_duration: DEFAULT_LONG_BREAK_MS,
            long_break_interval: DEFAULT_LONG_BREAK_INTERVAL,
            auto_start_breaks: false,
            auto_start_work: false,
        }
    }
}

/// A lifecycle event of the timer, published to a subscriber.
#[derive(Clone, Copy, Debug, PartialEq, Eq, Structural)]
pub enum TimerEvent {
    Started,
    Paused,
    Resumed,
    Stopped,
    Completed,
    Tick(i64),
}

/// The live state of the single timer. While the timer runs, `elapsed` is
/// derived from the clock: `now - start_time - paused_time`.
#[derive(Clone, Copy, Debug, PartialEq, Eq, Structural)]
pub struct TimerData {
    pub timer_type: TimerType,
    pub state: TimerState,
    pub target_duration: Option<i64>,
    pub elapsed: i64,
    pub paused_time: i64,
    pub start_time: Option<i64>,
    pub pause_start: Option<i64>,
}

/// The data of an idle timer.
pub open spec fn idle_data() -> TimerData {
    TimerData {
        timer_type: TimerType::Stopwatch,
        state: TimerState::Idle,
        target_duration: None,
        elapsed: 0,
        paused_time: 0,
        start_time: None,
        pause_start: None,
    }
}

impl Default for TimerData {
    fn default() -> (r: TimerData)
        ensures
            r == idle_data(),
    {
        TimerData {
            timer_type: TimerType::Stopwatch,
            state: TimerState::Idle,
            target_duration: None,
            elapsed: 0,
            paused_time: 0,
            start_time: None,
            pause_start: None,
        }
    }
}

/// One tracked interval of work or break time. The first tag, when there is
/// one, names the project the session belongs to.
#[derive(Debug)]
pub struct WorkSession {
    pub id: u128,
    pub session_type: TimerType,
    pub start_time: i64,
    pub end_time: Option<i64>,
    pub duration: i64,
    pub paused_duration: i64,
    pub description: Option<String>,
    pub tags: Vec<String>,
}

/// A work session as a mathematical value: its texts as character sequences.
pub struct SessionView {
    pub id: u128,
    pub session_type: TimerType,
    pub start_time: i64,
    pub end_time: Option<i64>,
    pub duration: i64,
    pub paused_duration: i64,
    pub description: Option<Seq<char>>,
    pub tags: Seq<Seq<char>>,
}

/// The characters of each text of a list.
pub open spec fn texts_view(v: Seq<String>) -> Seq<Seq<char>> {
    v.map_values(|t: String| t@)
}

/// The characters of an optional text.
pub open spec fn opt_text_view(t: Option<String>) -> Option<Seq<char>> {
    match t {
        Some(x) => Some(x@),
        None => None,
    }
}

impl View for WorkSession {
    type V = SessionView;

    open spec fn view(&self) -> SessionView {
        SessionView {
            id: self.id,
            session_type: self.session_type,
            start_time: self.start_time,
            end_time: self.end_time,
            duration: self.duration,
            paused_duration: self.paused_duration,
            description: opt_text_view(self.description),
            tags: texts_view(self.tags@),
        }
    }
}

/// The views of a list of sessions.
pub open spec fn sessions_view(v: Seq<WorkSession>) -> Seq<SessionView> {
    v.map_values(|s: WorkSession| s@)
}

impl Clone for WorkSession {
    fn clone(&self) -> (r: WorkSession)
        ensures
            r@ == self@,
    {
        let tags = self.tags.clone();
        assert(texts_view(tags@) =~= texts_view(self.tags@));
        WorkSession {
            id: self.id,
            session_type: self.session_type,
            start_time: self.start_time,
            end_time: self.end_time,
            duration: self.duration,
            paused_duration: self.paused_duration,
            description: self.description.clone(),
            tags,
        }
    }
}

/// A finished stopwatch session with a project: the only kind of session
/// that the project queries count and that project deletion removes.
pub open spec fn is_project_session(s: SessionView) -> bool {
    &&& s.session_type == TimerType::Stopwatch
    &&& s.end_time is Some
    &&& s.tags.len() > 0
}

/// The project of a session: its first tag.
pub open spec fn project_of(s: SessionView) -> Seq<char>
    recommends
        s.tags.len() > 0,
{
    s.tags[0]
}

/// A finished stopwatch session of project `p`.
pub open spec fn belongs_to(s: SessionView, p: Seq<char>) -> bool {
    is_project_session(s) && project_of(s) == p
}

impl WorkSession {
    /// Whether this is a finished stopwatch session of `project`.
    pub fn belongs_to_project(&self, project: &String) -> (r: bool)
        ensures
            r == belongs_to(self@, project@),
    {
        if self.session_type == TimerType::Stopwatch && self.end_time.is_some() && self.tags.len()
            > 0 {
            self.tags[0] == *project
        } else {
            false
        }
    }
}

} // verus!
