use pomodoro_sni::timer::{Timer, TimerLoop, TimerStatus, NANOS_PER_SEC};
use pomodoro_sni::{AppInfo, TimerCommand, TimerMinute};

const S: i128 = NANOS_PER_SEC;

#[test]
fn timer_counts_only_running_time() {
    // Started with 8 s at t=100 s, paused at 103 s, resumed at 105 s, read at 107 s.
    let mut timer = Timer::start_at(8 * S, 100 * S);
    assert_eq!(timer.calc_rest_time_at(103 * S), 5 * S);
    timer.pause_at(103 * S, 103 * S);
    assert_eq!(timer.calc_rest_time_at(105 * S), 5 * S);
    timer.resume_at(105 * S);
    assert_eq!(timer.calc_rest_time_at(107 * S), 3 * S);
    assert_eq!(timer.calc_rest_time_at(110 * S), 0);
    assert_eq!(*timer.status(), TimerStatus::Running);
}

#[test]
fn paused_timer_takes_off_the_time_before_the_pause() {
    let mut timer = Timer::start_at(10 * S, 0);
    timer.pause_at(2 * S, 3 * S);
    assert_eq!(timer.rest_time, 8 * S);
    assert_eq!(timer.calc_rest_time_at(9 * S), 7 * S);
    assert_eq!(timer.calc_rest_time_at(20 * S), 7 * S);
}

#[test]
fn timer_loop_counts_down_seconds_and_minutes() {
    let mut l = TimerLoop::new();
    let out = l.on_command(TimerCommand::Start(TimerMinute::try_from(1u8).unwrap()), 0, 0);
    assert!(!out.terminate);
    assert!(matches!(out.info, Some(AppInfo::TimerStarted(m)) if m.as_u8() == 1));
    assert!(l.is_counting());
    let mut minute_infos = 0;
    let mut finished = false;
    let mut now: i128 = 0;
    for _ in 0..60 {
        let plan = l.tick(now, S / 10);
        if !plan.count {
            now += S;
            let plan = l.tick(now, 2 * S);
            assert!(plan.count);
        }
        for info in l.count_second() {
            match info {
                AppInfo::Minutes(m) => {
                    minute_infos += 1;
                    assert_eq!(m.as_u8(), 0);
                }
                AppInfo::TimerFinished => finished = true,
                _ => {}
            }
        }
    }
    assert_eq!(minute_infos, 1);
    assert!(finished);
    assert_eq!(l.seconds_counter, Some(0));
    assert!(!l.is_counting());
    l.clear_finished();
    assert!(l.timer.is_none());
}

#[test]
fn tick_waits_for_the_next_second() {
    let mut l = TimerLoop::new();
    l.on_command(TimerCommand::Start(TimerMinute::try_from(1u8).unwrap()), 0, 0);
    // 0.3 s after the start the next second is due in 0.7 s.
    let plan = l.tick(3 * S / 10, S / 10);
    assert!(!plan.count);
    assert_eq!(plan.sleep_nanos, S / 10);
    let plan = l.tick(3 * S / 10, S);
    assert!(plan.count);
    assert_eq!(plan.sleep_nanos, 7 * S / 10);
}

#[test]
fn commands_of_the_timer_loop() {
    let mut l = TimerLoop::new();
    assert!(l.on_command(TimerCommand::Pause, 0, 0).info.is_none());
    l.on_command(TimerCommand::Start(TimerMinute::try_from(2u8).unwrap()), 0, 0);
    assert!(matches!(l.on_command(TimerCommand::Pause, S, S).info, Some(AppInfo::TimerPaused)));
    assert!(!l.is_counting());
    assert!(matches!(l.on_command(TimerCommand::Resume, 2 * S, 2 * S).info, Some(AppInfo::TimerResumed)));
    assert!(l.is_counting());
    assert!(matches!(l.on_command(TimerCommand::Skip, 3 * S, 3 * S).info, Some(AppInfo::TimerSkipped)));
    assert!(l.timer.is_none());
    assert!(matches!(l.on_command(TimerCommand::Reset, 3 * S, 3 * S).info, Some(AppInfo::TimerReset)));
    let out = l.on_command(TimerCommand::Terminate, 4 * S, 4 * S);
    assert!(out.terminate);
    assert!(matches!(out.info, Some(AppInfo::TimerTerminated)));
}

#[test]
fn timer_started_now_reads_the_clock() {
    let t = Timer::start(5 * S).unwrap();
    assert_eq!(t.rest_time, 5 * S);
    assert_eq!(t.timer_status, TimerStatus::Running);
    // Well after 2020-01-01 in nanoseconds since the epoch.
    assert!(t.last_calc_time > 1_577_836_800 * S);
    let now = pomodoro_sni::timer::now_nanos().unwrap();
    assert!(now >= t.last_calc_time);
}

#[test]
fn clock_readings_in_nanoseconds() {
    let c = pomodoro_sni::timer::ClockReading { secs: 2, subsec_nanos: 5 };
    assert_eq!(pomodoro_sni::timer::clock_nanos(&c), 2_000_000_005);
    let c = pomodoro_sni::timer::ClockReading { secs: u64::MAX, subsec_nanos: 999_999_999 };
    assert_eq!(pomodoro_sni::timer::clock_nanos(&c), (u64::MAX as i128 + 1) * S - 1);
}

#[test]
fn range_checks_of_the_timer_loop() {
    let mut l = TimerLoop::new();
    assert!(l.command_fits(TimerCommand::Pause, 0));
    l.on_command(TimerCommand::Start(TimerMinute::try_from(1u8).unwrap()), 0, 0);
    assert!(l.command_fits(TimerCommand::Pause, 10 * S));
    assert!(l.tick_fits(10 * S));
    assert!(!l.command_fits(TimerCommand::Pause, i128::MAX));
    assert!(!l.tick_fits(i128::MIN));
}

#[test]
fn minutes_shown_are_the_seconds_left_rounded_up() {
    let mut l = TimerLoop::new();
    l.on_command(TimerCommand::Start(TimerMinute::try_from(3u8).unwrap()), 0, 0);
    let mut now: i128 = 0;
    while l.is_counting() {
        now += S;
        let plan = l.tick(now, 2 * S);
        assert!(plan.count);
        l.count_second();
        let n = l.seconds_counter.unwrap();
        let m = l.minute_counter.unwrap().as_u8() as u32;
        assert_eq!(m, (n + 59) / 60);
    }
    assert_eq!(l.seconds_counter, Some(0));
}

#[test]
fn paused_time_is_not_counted() {
    let mut l = TimerLoop::new();
    l.on_command(TimerCommand::Start(TimerMinute::try_from(1u8).unwrap()), 0, 0);
    l.on_command(TimerCommand::Pause, 10 * S, 10 * S);
    l.on_command(TimerCommand::Resume, 20 * S, 20 * S);
    let mut t = l.timer.unwrap();
    assert_eq!(t.calc_rest_time_at(25 * S), 45 * S);
    assert_eq!(l.seconds_counter, Some(60));
    assert_eq!(l.minute_counter.unwrap().as_u8(), 1);
}

#[test]
fn reset_and_skip_stop_the_loop() {
    for cmd in [TimerCommand::Reset, TimerCommand::Skip] {
        let mut l = TimerLoop::new();
        l.on_command(TimerCommand::Start(TimerMinute::try_from(2u8).unwrap()), 0, 0);
        l.on_command(cmd, S, S);
        assert!(!l.is_counting());
        assert!(l.timer.is_none());
        assert!(l.on_command(TimerCommand::Pause, 2 * S, 2 * S).info.is_none());
        assert!(l.on_command(TimerCommand::Resume, 3 * S, 3 * S).info.is_none());
        assert!(l.timer.is_none());
    }
}
