use vstd::prelude::*;

use crate::main_loop::AppInfo;
use crate::types::TimerMinute;

verus! {

/// Nanoseconds in a second.
pub const NANOS_PER_SEC: i128 = 1_000_000_000;

/// The largest length of a `chrono::TimeDelta`, in nanoseconds (its
/// smallest is the negation).
pub const TIME_DELTA_MAX_NANOS: i128 = 9_223_372_036_854_775_807_000_000;

/// Whether a length in nanoseconds is one that `chrono::TimeDelta` holds.
pub open spec fn in_delta_range(x: int) -> bool {
    -TIME_DELTA_MAX_NANOS <= x <= TIME_DELTA_MAX_NANOS
}

/// Whether a point in time, in nanoseconds since the Unix epoch, is one that
/// a clock reading can give: not before the epoch, and below `u64::MAX + 1`
/// seconds after it.
pub open spec fn is_clock_time(t: int) -> bool {
    0 <= t < (0xffff_ffff_ffff_ffff_i128 + 1) * NANOS_PER_SEC
}

/// A reading of the system clock: whole seconds since the Unix epoch and
/// the nanoseconds after that second.
pub struct ClockReading {
    pub secs: u64,
    pub subsec_nanos: u32,
}

/// Reads `SystemTime::now().duration_since(UNIX_EPOCH)` as the duration's
/// `as_secs()` and `subsec_nanos()`; `None` when the clock reads before the
/// epoch (the error of `duration_since`). The time depends on when it is
/// called, so nothing is stated of it but what std documents of
/// `subsec_nanos`: it is below one second.
#[verifier::external_body]
fn read_clock() -> (r: Option<ClockReading>)
    ensures
        r matches Some(c) ==> c.subsec_nanos < 1_000_000_000,
{
    match std::time::SystemTime::now().duration_since(std::time::UNIX_EPOCH) {
        Ok(d) => Some(ClockReading { secs: d.as_secs(), subsec_nanos: d.subsec_nanos() }),
        Err(_) => None,
    }
}

/// A clock reading in nanoseconds since the Unix epoch.
pub fn clock_nanos(c: &ClockReading) -> (r: i128)
    requires
        c.subsec_nanos < 1_000_000_000,
    ensures
        r == c.secs * NANOS_PER_SEC + c.subsec_nanos,
        is_clock_time(r as int),
{
    c.secs as i128 * NANOS_PER_SEC + c.subsec_nanos as i128
}

/// The current time in nanoseconds since the Unix epoch; `None` when the
/// system clock reads before the epoch.
pub fn now_nanos() -> (r: Option<i128>)
    ensures
        r matches Some(t) ==> is_clock_time(t as int),
{
    match read_clock() {
        Some(c) => Some(clock_nanos(&c)),
        None => None,
    }
}

/// Whether the timer counts down or is paused.
#[derive(Debug, Clone, Copy, PartialEq, Eq, Structural)]
pub enum TimerStatus {
    Running,
    Paused { pause_start_time: i128 },
}

/// A timer that only computes the time left. Times are in nanoseconds;
/// points in time count from the Unix epoch.
#[derive(Debug, Clone, Copy, PartialEq, Eq, Structural)]
pub struct Timer {
    pub rest_time: i128,
    pub last_calc_time: i128,
    pub timer_status: TimerStatus,
}

/// The timer after computing its rest time at `now`: while running, the time
/// since the last computation is taken off; while paused, only the part of
/// it before the pause began (if any).
pub open spec fn calc_at(t: Timer, now: int) -> Timer {
    match t.timer_status {
        TimerStatus::Running => Timer {
            rest_time: (t.rest_time - (now - t.last_calc_time)) as i128,
            last_calc_time: now as i128,
            timer_status: t.timer_status,
        },
        TimerStatus::Paused { pause_start_time } => Timer {
            rest_time: if pause_start_time > t.last_calc_time {
                (t.rest_time - (pause_start_time - t.last_calc_time)) as i128
            } else {
                t.rest_time
            },
            last_calc_time: now as i128,
            timer_status: t.timer_status,
        },
    }
}

/// Whether computing the rest time at `now` stays within the lengths that
/// `chrono::TimeDelta` holds (else chrono panics).
pub open spec fn calc_in_range(t: Timer, now: int) -> bool {
    &&& in_delta_range(now - t.last_calc_time)
    &&& match t.timer_status {
        TimerStatus::Running => in_delta_range(t.rest_time - (now - t.last_calc_time)),
        TimerStatus::Paused { pause_start_time } => pause_start_time > t.last_calc_time
            ==> in_delta_range(pause_start_time - t.last_calc_time) && in_delta_range(
            t.rest_time - (pause_start_time - t.last_calc_time),
        ),
    }
}

/// The timer after a pause: its rest time computed at `calc_now`, then, if
/// it was running, paused from `pause_now`.
pub open spec fn pause_at(t: Timer, calc_now: int, pause_now: int) -> Timer {
    let c = calc_at(t, calc_now);
    match c.timer_status {
        TimerStatus::Running => Timer {
            timer_status: TimerStatus::Paused { pause_start_time: pause_now as i128 },
            ..c
        },
        _ => c,
    }
}

/// The timer after a resume: its rest time computed at `now`, then running.
pub open spec fn resume_at(t: Timer, now: int) -> Timer {
    Timer { timer_status: TimerStatus::Running, ..calc_at(t, now) }
}

/// Whether `x` is a length that `chrono::TimeDelta` holds.
fn fits_delta(x: i128) -> (r: bool)
    ensures
        r == in_delta_range(x as int),
{
    -TIME_DELTA_MAX_NANOS <= x && x <= TIME_DELTA_MAX_NANOS
}

impl Timer {
    /// Whether computing the rest time at `now` stays within the lengths of
    /// `chrono::TimeDelta` (see [`calc_in_range`]).
    pub fn calc_fits(&self, now: i128) -> (r: bool)
        ensures
            r == calc_in_range(*self, now as int),
    {
        let elapsed = match now.checked_sub(self.last_calc_time) {
            Some(d) => d,
            None => return false,
        };
        if !fits_delta(elapsed) {
            return false;
        }
        match self.timer_status {
            TimerStatus::Running => match self.rest_time.checked_sub(elapsed) {
                Some(left) => fits_delta(left),
                None => false,
            },
            TimerStatus::Paused { pause_start_time } => {
                if pause_start_time > self.last_calc_time {
                    match pause_start_time.checked_sub(self.last_calc_time) {
                        Some(before) => fits_delta(before) && match self.rest_time.checked_sub(before) {
                            Some(left) => fits_delta(left),
                            None => false,
                        },
                        None => false,
                    }
                } else {
                    true
                }
            },
        }
    }

    /// A running timer of `duration` started at `now`.
    pub fn start_at(duration: i128, now: i128) -> (r: Self)
        ensures
            r == (Timer { rest_time: duration, last_calc_time: now, timer_status: TimerStatus::Running }),
    {
        Self { rest_time: duration, last_calc_time: now, timer_status: TimerStatus::Running }
    }

    /// A running timer of `duration` started now; `None` when the system
    /// clock reads before the Unix epoch.
    pub fn start(duration: i128) -> (r: Option<Self>)
        ensures
            r matches Some(t) ==> t.rest_time == duration && t.timer_status == TimerStatus::Running && is_clock_time(
                t.last_calc_time as int,
            ),
    {
        match now_nanos() {
            Some(now) => Some(Self::start_at(duration, now)),
            None => None,
        }
    }

    pub fn status(&self) -> (r: &TimerStatus)
        ensures
            *r == self.timer_status,
    {
        &self.timer_status
    }

    /// Computes the rest time at `now`.
    pub fn calc_rest_time_at(&mut self, now: i128) -> (r: i128)
        requires
            calc_in_range(*old(self), now as int),
        ensures
            *final(self) == calc_at(*old(self), now as int),
            r == final(self).rest_time,
    {
        match self.timer_status {
            TimerStatus::Running => {
                self.rest_time = self.rest_time - (now - self.last_calc_time);
                self.last_calc_time = now;
                self.rest_time
            },
            TimerStatus::Paused { pause_start_time } => {
                if pause_start_time > self.last_calc_time {
                    self.rest_time = self.rest_time - (pause_start_time - self.last_calc_time);
                }
                self.last_calc_time = now;
                self.rest_time
            },
        }
    }

    /// Pauses the timer: computes the rest time at `calc_now`, then, if it
    /// was running, marks it paused from `pause_now`.
    pub fn pause_at(&mut self, calc_now: i128, pause_now: i128)
        requires
            calc_in_range(*old(self), calc_now as int),
        ensures
            *final(self) == pause_at(*old(self), calc_now as int, pause_now as int),
    {
        self.calc_rest_time_at(calc_now);
        if let TimerStatus::Running = self.timer_status {
            self.timer_status = TimerStatus::Paused { pause_start_time: pause_now };
        }
    }

    /// Resumes the timer: computes the rest time at `now`, then runs.
    pub fn resume_at(&mut self, now: i128)
        requires
            calc_in_range(*old(self), now as int),
        ensures
            *final(self) == resume_at(*old(self), now as int),
    {
        self.calc_rest_time_at(now);
        if let TimerStatus::Paused { pause_start_time: _ } = self.timer_status {
            self.timer_status = TimerStatus::Running;
        }
    }
}

/// The law of the timer: started with `duration` at `t0`, paused at `t1`,
/// resumed at `t2` and read at `t3`, it has lost exactly the time during
/// which it ran, `(t1 - t0) + (t3 - t2)`.
pub proof fn lemma_timer_counts_running_time(duration: int, t0: int, t1: int, t2: int, t3: int)
    requires
        t0 <= t1 <= t2 <= t3,
        is_clock_time(t0),
        is_clock_time(t3),
        in_delta_range(duration),
        in_delta_range(t3 - t0),
        in_delta_range(duration - (t3 - t0)),
    ensures
        ({
            let s = Timer { rest_time: duration as i128, last_calc_time: t0 as i128, timer_status: TimerStatus::Running };
            let p = pause_at(s, t1, t1);
            let q = resume_at(p, t2);
            calc_at(q, t3).rest_time == duration - (t1 - t0) - (t3 - t2)
        }),
{
    let s = Timer { rest_time: duration as i128, last_calc_time: t0 as i128, timer_status: TimerStatus::Running };
    assert(s.rest_time == duration && s.last_calc_time == t0);
    let p = pause_at(s, t1, t1);
    assert(p.rest_time == duration - (t1 - t0));
    assert(p.last_calc_time == t1);
    assert(p.timer_status == TimerStatus::Paused { pause_start_time: t1 as i128 });
    let q = resume_at(p, t2);
    assert(q.rest_time == duration - (t1 - t0));
    assert(q.last_calc_time == t2);
}

/// While paused, once the time up to the pause has been taken off, the rest
/// time no longer changes.
pub proof fn lemma_paused_timer_keeps_rest_time(t: Timer, now: int)
    requires
        t.timer_status matches TimerStatus::Paused { pause_start_time } && pause_start_time <= t.last_calc_time,
    ensures
        calc_at(t, now).rest_time == t.rest_time,
{
}

/// The commands of the timer loop.
#[derive(Debug, Clone, Copy, PartialEq, Eq, Structural)]
pub enum TimerCommand {
    /// Start the timer for this many minutes.
    Start(TimerMinute),
    /// Pause the timer.
    Pause,
    /// Resume a paused timer.
    Resume,
    /// Reset the timer.
    Reset,
    /// Skip the timer.
    Skip,
    /// End the timer loop.
    Terminate,
}

/// The state of the timer loop: the timer and the seconds and minutes that
/// it has yet to count down.
pub struct TimerLoop {
    pub timer: Option<Timer>,
    pub seconds_counter: Option<u32>,
    pub minute_counter: Option<TimerMinute>,
}

/// What a command asks the loop to do: send this information (if any), then
/// end (if `terminate`).
pub struct CommandOutcome {
    pub info: Option<AppInfo>,
    pub terminate: bool,
}

/// What the loop does next: sleep, and after the sleep count one second
/// down (if `count`).
#[derive(Debug, Clone, Copy, PartialEq, Eq, Structural)]
pub struct TickPlan {
    pub sleep_nanos: i128,
    pub count: bool,
}

/// Whether the loop counts down at its next step: the timer runs and a
/// second is left to count.
pub open spec fn counting(s: TimerLoop) -> bool {
    &&& s.timer matches Some(t) && t.timer_status is Running
    &&& s.seconds_counter matches Some(n) && n != 0
    &&& s.minute_counter is Some
}

/// A length without its whole seconds, as `rest - TimeDelta::seconds(rest.num_seconds())`
/// computes it (`num_seconds` rounds towards zero).
pub open spec fn below_a_second(rest: int) -> int {
    if rest >= 0 {
        rest % (NANOS_PER_SEC as int)
    } else {
        -((-rest) % (NANOS_PER_SEC as int))
    }
}

/// Whether handling the command at the given clock readings stays within the
/// lengths of `chrono::TimeDelta`.
pub open spec fn command_in_range(s: TimerLoop, cmd: TimerCommand, now: int) -> bool {
    match cmd {
        TimerCommand::Pause | TimerCommand::Resume => s.timer matches Some(t) ==> calc_in_range(t, now),
        TimerCommand::Start(m) => true,
        _ => true,
    }
}

/// The state and outcome of a command at the given clock readings.
pub open spec fn command_effect(s: TimerLoop, cmd: TimerCommand, now: int, pause_now: int) -> (
    Option<Timer>,
    Option<u32>,
    Option<TimerMinute>,
    Option<AppInfo>,
    bool,
) {
    match cmd {
        TimerCommand::Start(m) => (
            Some(Timer { rest_time: (m@ * 60 * NANOS_PER_SEC) as i128, last_calc_time: now as i128, timer_status: TimerStatus::Running }),
            Some((m@ * 60) as u32),
            Some(m),
            Some(AppInfo::TimerStarted(m)),
            false,
        ),
        TimerCommand::Pause => match s.timer {
            Some(t) => (Some(pause_at(t, now, pause_now)), s.seconds_counter, s.minute_counter, Some(AppInfo::TimerPaused), false),
            None => (s.timer, s.seconds_counter, s.minute_counter, None, false),
        },
        TimerCommand::Resume => match s.timer {
            Some(t) => (Some(resume_at(t, now)), s.seconds_counter, s.minute_counter, Some(AppInfo::TimerResumed), false),
            None => (s.timer, s.seconds_counter, s.minute_counter, None, false),
        },
        TimerCommand::Reset => (None, None, None, Some(AppInfo::TimerReset), false),
        TimerCommand::Skip => (None, None, None, Some(AppInfo::TimerSkipped), false),
        TimerCommand::Terminate => (s.timer, s.seconds_counter, s.minute_counter, Some(AppInfo::TimerTerminated), true),
    }
}

/// Whether the minutes to show are the seconds left rounded up to whole
/// minutes.
pub open spec fn minutes_match_seconds(s: TimerLoop) -> bool {
    match (s.seconds_counter, s.minute_counter) {
        (Some(n), Some(m)) => m@ == (n + 59) / 60,
        _ => true,
    }
}

impl TimerLoop {
    /// No timer.
    pub fn new() -> (r: Self)
        ensures
            r.timer is None,
            r.seconds_counter is None,
            r.minute_counter is None,
            minutes_match_seconds(r),
    {
        TimerLoop { timer: None, seconds_counter: None, minute_counter: None }
    }

    /// Handles a command received at `now`; a pause takes its start from
    /// `pause_now`, a second reading of the clock.
    pub fn on_command(&mut self, cmd: TimerCommand, now: i128, pause_now: i128) -> (r: CommandOutcome)
        requires
            command_in_range(*old(self), cmd, now as int),
        ensures
            ({
                let (t, sc, mc, info, term) = command_effect(*old(self), cmd, now as int, pause_now as int);
                &&& final(self).timer == t
                &&& final(self).seconds_counter == sc
                &&& final(self).minute_counter == mc
                &&& r.info == info
                &&& r.terminate == term
            }),
            minutes_match_seconds(*old(self)) ==> minutes_match_seconds(*final(self)),
    {
        match cmd {
            TimerCommand::Start(minutes) => {
                let m = minutes.as_u8();
                self.timer = Some(Timer::start_at(m as i128 * 60 * NANOS_PER_SEC, now));
                self.seconds_counter = Some(minutes.as_secs());
                self.minute_counter = Some(minutes);
                CommandOutcome { info: Some(AppInfo::TimerStarted(minutes)), terminate: false }
            },
            TimerCommand::Pause => {
                match &mut self.timer {
                    Some(timer) => {
                        timer.pause_at(now, pause_now);
                        CommandOutcome { info: Some(AppInfo::TimerPaused), terminate: false }
                    },
                    None => CommandOutcome { info: None, terminate: false },
                }
            },
            TimerCommand::Resume => {
                match &mut self.timer {
                    Some(timer) => {
                        timer.resume_at(now);
                        CommandOutcome { info: Some(AppInfo::TimerResumed), terminate: false }
                    },
                    None => CommandOutcome { info: None, terminate: false },
                }
            },
            TimerCommand::Reset => {
                self.timer = None;
                self.seconds_counter = None;
                self.minute_counter = None;
                CommandOutcome { info: Some(AppInfo::TimerReset), terminate: false }
            },
            TimerCommand::Skip => {
                self.timer = None;
                self.seconds_counter = None;
                self.minute_counter = None;
                CommandOutcome { info: Some(AppInfo::TimerSkipped), terminate: false }
            },
            TimerCommand::Terminate => CommandOutcome { info: Some(AppInfo::TimerTerminated), terminate: true },
        }
    }

    /// Whether handling `cmd` at `now` stays within the lengths of
    /// `chrono::TimeDelta` (see [`command_in_range`]).
    pub fn command_fits(&self, cmd: TimerCommand, now: i128) -> (r: bool)
        ensures
            r == command_in_range(*self, cmd, now as int),
    {
        match cmd {
            TimerCommand::Pause | TimerCommand::Resume => match &self.timer {
                Some(t) => t.calc_fits(now),
                None => true,
            },
            _ => true,
        }
    }

    /// Whether planning the next step at `now` stays within the lengths of
    /// `chrono::TimeDelta`.
    pub fn tick_fits(&self, now: i128) -> (r: bool)
        ensures
            r == (counting(*self) ==> calc_in_range(self.timer.unwrap(), now as int)),
    {
        if self.is_counting() {
            match &self.timer {
                Some(t) => t.calc_fits(now),
                None => true,
            }
        } else {
            true
        }
    }

    /// Whether the loop counts down at its next step.
    pub fn is_counting(&self) -> (r: bool)
        ensures
            r == counting(*self),
    {
        match (&self.timer, &self.seconds_counter, &self.minute_counter) {
            (Some(t), Some(n), Some(_)) => {
                match t.timer_status {
                    TimerStatus::Running => *n != 0,
                    _ => false,
                }
            },
            _ => false,
        }
    }

    /// Plans the next step at `now`: while counting, the rest time is
    /// computed; when the next second is due within `internal` the loop is
    /// to sleep until then and count it, else it sleeps for `internal`.
    pub fn tick(&mut self, now: i128, internal: i128) -> (r: TickPlan)
        requires
            counting(*old(self)) ==> calc_in_range(old(self).timer.unwrap(), now as int),
        ensures
            counting(*old(self)) ==> ({
                let t = calc_at(old(self).timer.unwrap(), now as int);
                let next = below_a_second(t.rest_time as int);
                &&& final(self).timer == Some(t)
                &&& final(self).seconds_counter == old(self).seconds_counter
                &&& final(self).minute_counter == old(self).minute_counter
                &&& r == (if next <= internal { TickPlan { sleep_nanos: next as i128, count: true } } else {
                    TickPlan { sleep_nanos: internal, count: false }
                })
            }),
            !counting(*old(self)) ==> final(self).timer == old(self).timer && final(self).seconds_counter
                == old(self).seconds_counter && final(self).minute_counter == old(self).minute_counter && r
                == (TickPlan { sleep_nanos: internal, count: false }),
            minutes_match_seconds(*old(self)) ==> minutes_match_seconds(*final(self)),
    {
        if !self.is_counting() {
            return TickPlan { sleep_nanos: internal, count: false };
        }
        match &mut self.timer {
            Some(timer) => {
                let rest = timer.calc_rest_time_at(now);
                let next = if rest >= 0 {
                    rest % NANOS_PER_SEC
                } else {
                    -((-rest) % NANOS_PER_SEC)
                };
                if next <= internal {
                    TickPlan { sleep_nanos: next, count: true }
                } else {
                    TickPlan { sleep_nanos: internal, count: false }
                }
            },
            None => TickPlan { sleep_nanos: internal, count: false },
        }
    }

    /// Counts one second down after the sleep that [`TimerLoop::tick`]
    /// planned: the seconds left are sent; when they reach a whole minute,
    /// one minute is taken off and sent; when they reach zero, the end is
    /// sent.
    pub fn count_second(&mut self) -> (r: Vec<AppInfo>)
        requires
            counting(*old(self)),
        ensures
            ({
                let n = (old(self).seconds_counter.unwrap() - 1) as u32;
                let m0 = old(self).minute_counter.unwrap();
                let m = if (n as int) % 60 == 0 {
                    if m0@ == 0 { m0@ } else { (m0@ - 1) as u8 }
                } else {
                    m0@
                };
                &&& final(self).timer == old(self).timer
                &&& final(self).seconds_counter == Some(n)
                &&& final(self).minute_counter matches Some(mc) && mc@ == m
                &&& r@.len() == 1 + (if (n as int) % 60 == 0 { 1int } else { 0 }) + (if n == 0 { 1int } else { 0 })
                &&& r@[0] == AppInfo::Seconds(n)
                &&& (n as int) % 60 == 0 ==> r@[1] == AppInfo::Minutes(final(self).minute_counter.unwrap())
                &&& n == 0 ==> r@[r@.len() - 1] == AppInfo::TimerFinished
            }),
            minutes_match_seconds(*old(self)) ==> minutes_match_seconds(*final(self)),
    {
        let mut infos: Vec<AppInfo> = Vec::new();
        let n = match self.seconds_counter {
            Some(n) => n - 1,
            None => 0,
        };
        self.seconds_counter = Some(n);
        infos.push(AppInfo::Seconds(n));
        if n % 60 == 0 {
            match &mut self.minute_counter {
                Some(m) => {
                    m.decrement();
                    infos.push(AppInfo::Minutes(*m));
                },
                None => {},
            }
        }
        if n == 0 {
            infos.push(AppInfo::TimerFinished);
        }
        infos
    }

    /// Drops a timer that has run out.
    pub fn clear_finished(&mut self)
        ensures
            old(self).seconds_counter == Some(0u32) ==> final(self).timer is None
                && final(self).seconds_counter is None && final(self).minute_counter is None,
            old(self).seconds_counter != Some(0u32) ==> final(self).timer == old(self).timer
                && final(self).seconds_counter == old(self).seconds_counter
                && final(self).minute_counter == old(self).minute_counter,
            minutes_match_seconds(*old(self)) ==> minutes_match_seconds(*final(self)),
    {
        if let Some(0) = self.seconds_counter {
            self.timer = None;
            self.seconds_counter = None;
            self.minute_counter = None;
        }
    }
}

/// The state of the timer loop after a command, as [`command_effect`] gives
/// it.
pub open spec fn loop_after(s: TimerLoop, cmd: TimerCommand, now: int, pause_now: int) -> TimerLoop {
    let e = command_effect(s, cmd, now, pause_now);
    TimerLoop { timer: e.0, seconds_counter: e.1, minute_counter: e.2 }
}

/// The law of the timer loop: from any state, a timer started for `m`
/// minutes at `t0`, paused at `t1`, resumed at `t2` and read at `t3` has
/// lost exactly the time during which it ran, `(t1 - t0) + (t3 - t2)`; each
/// of these commands stays within the lengths that the loop handles, and
/// the seconds and minutes left to count are those of the start.
pub proof fn lemma_loop_counts_running_time(s: TimerLoop, m: TimerMinute, t0: int, t1: int, t2: int, t3: int)
    requires
        t0 <= t1 <= t2 <= t3,
        is_clock_time(t0),
        is_clock_time(t3),
        in_delta_range(t3 - t0),
    ensures
        ({
            let s1 = loop_after(s, TimerCommand::Start(m), t0, t0);
            let s2 = loop_after(s1, TimerCommand::Pause, t1, t1);
            let s3 = loop_after(s2, TimerCommand::Resume, t2, t2);
            &&& command_in_range(s1, TimerCommand::Pause, t1)
            &&& command_in_range(s2, TimerCommand::Resume, t2)
            &&& s3.timer matches Some(t) && calc_in_range(t, t3) && calc_at(t, t3).rest_time == m@ * 60
                * NANOS_PER_SEC - (t1 - t0) - (t3 - t2)
            &&& s3.seconds_counter == Some((m@ * 60) as u32)
            &&& s3.minute_counter == Some(m)
        }),
{
    let d: int = m@ * 60 * NANOS_PER_SEC;
    assert(0 <= d <= 255 * 60 * 1_000_000_000) by (nonlinear_arith)
        requires
            d == m@ * 60 * 1_000_000_000,
            0 <= m@ < 256,
    ;
    lemma_timer_counts_running_time(d, t0, t1, t2, t3);
}

/// Reset and Skip drop the timer: the loop then counts nothing, and a
/// pause or a resume neither changes it nor reports anything.
pub proof fn lemma_reset_and_skip_stop_the_loop(s: TimerLoop, cmd: TimerCommand, now: int, later: int)
    requires
        cmd is Reset || cmd is Skip,
    ensures
        ({
            let s1 = loop_after(s, cmd, now, now);
            &&& !counting(s1)
            &&& s1.timer is None && s1.seconds_counter is None && s1.minute_counter is None
            &&& loop_after(s1, TimerCommand::Pause, later, later) == s1
            &&& command_effect(s1, TimerCommand::Pause, later, later).3 is None
            &&& loop_after(s1, TimerCommand::Resume, later, later) == s1
            &&& command_effect(s1, TimerCommand::Resume, later, later).3 is None
        }),
{
}

} // verus!
