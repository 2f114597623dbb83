use pomodoro_sni::dbusmenu::{PHASE_ID, RAP_ID, STATUS_ID};
use pomodoro_sni::error::send_or_error;
use pomodoro_sni::main_loop::minute_bitmap;
use pomodoro_sni::menu_tree::PropertyValue;
use pomodoro_sni::{
    AppConfig, AppError, AppInfo, AudioCommand, DbusMenu, LongBreakPos, MainState, Phase, Rgb, SoundFileType,
    SoundVolume, StatusNotifierItem, TimerCommand, TimerMinute,
};

fn minutes(m: u8) -> TimerMinute {
    TimerMinute::try_from(m).unwrap()
}

fn label(menu: &DbusMenu, id: i32) -> String {
    match menu.get_property(id, "label") {
        PropertyValue::Str(s) => s,
        other => panic!("label of {id} is {other:?}"),
    }
}

struct Fixture {
    state: MainState,
    menu: DbusMenu,
    sni: StatusNotifierItem,
    timer_tx: async_channel::Sender<TimerCommand>,
    timer_rx: async_channel::Receiver<TimerCommand>,
}

fn config() -> AppConfig {
    let mut c = AppConfig::default();
    c.short_break_font_color = Rgb { r: 1, g: 2, b: 3 };
    c.short_break_bg_color = Rgb { r: 4, g: 5, b: 6 };
    c.long_break_font_color = Rgb { r: 7, g: 8, b: 9 };
    c.long_break_bg_color = Rgb { r: 10, g: 11, b: 12 };
    c.long_break_pos = LongBreakPos::EveryRap(2);
    c
}

fn fixture(c: AppConfig) -> Fixture {
    let (tx, rx) = async_channel::unbounded();
    let menu = DbusMenu::new(c.work_time);
    let sni = StatusNotifierItem::new(minute_bitmap(c.work_time), c.work_font_color, c.work_bg_color);
    Fixture { state: MainState::new(c), menu, sni, timer_tx: tx, timer_rx: rx }
}

impl Fixture {
    fn step(&mut self, info: AppInfo) -> pomodoro_sni::main_loop::MainStep {
        // As the program around the loop does: the timer command goes out first.
        let step = self.state.handle_info(info, &mut self.menu, &mut self.sni);
        if let Some(command) = step.timer_command {
            send_or_error(&self.timer_tx, command, "DbusMenu: timer_cmd_sender").unwrap();
        }
        step
    }
}

#[test]
fn phases_alternate_with_a_long_break_every_second_rap() {
    let mut f = fixture(config());
    let mut seen = Vec::new();
    for _ in 0..6 {
        f.step(AppInfo::TimerFinished);
        seen.push((f.state.phase, f.state.rap_counter));
    }
    assert_eq!(
        seen,
        vec![
            (Phase::ShortBreak, 1),
            (Phase::Working, 2),
            (Phase::LongBreak, 2),
            (Phase::Working, 3),
            (Phase::ShortBreak, 3),
            (Phase::Working, 4),
        ]
    );
    assert_eq!(label(&f.menu, PHASE_ID), "Phase: Working");
    assert_eq!(label(&f.menu, RAP_ID), "Rap: 4");
    assert_eq!(label(&f.menu, STATUS_ID), "Status: Running");
}

#[test]
fn finished_timer_starts_the_next_phase() {
    let mut f = fixture(config());
    let step = f.step(AppInfo::TimerFinished);
    assert!(!step.icon_changed);
    assert!(!step.terminate);
    assert!(step.audio.is_empty());
    let updates = step.menu_updates.unwrap();
    let ids: Vec<i32> = updates.iter().map(|(id, _)| *id).collect();
    assert_eq!(ids, vec![PHASE_ID, STATUS_ID, 21, 23, 22]);
    assert_eq!(f.timer_rx.try_recv().unwrap(), TimerCommand::Start(minutes(10)));
}

#[test]
fn specific_raps_give_the_long_breaks() {
    let mut c = config();
    c.long_break_pos = LongBreakPos::SpecificRap(vec![1, 3]);
    let mut f = fixture(c);
    let mut phases = Vec::new();
    for _ in 0..6 {
        f.step(AppInfo::TimerSkipped);
        phases.push(f.state.phase);
    }
    assert_eq!(
        phases,
        vec![Phase::LongBreak, Phase::Working, Phase::ShortBreak, Phase::Working, Phase::LongBreak, Phase::Working]
    );
    assert_eq!(f.state.rap_counter, 4);
    // A skip starts nothing.
    assert!(f.timer_rx.try_recv().is_err());
}

#[test]
fn skip_shows_the_next_phase_on_the_icon() {
    let mut f = fixture(config());
    let step = f.step(AppInfo::TimerSkipped);
    assert!(step.icon_changed);
    assert_eq!(f.sni.bitmap, minute_bitmap(minutes(10)));
    assert_eq!(f.sni.font_color, Rgb { r: 1, g: 2, b: 3 });
    assert_eq!(f.sni.bg_color, Rgb { r: 4, g: 5, b: 6 });
    assert_eq!(label(&f.menu, PHASE_ID), "Phase: ShortBreak");
}

#[test]
fn reset_goes_back_to_the_first_working_period() {
    let mut f = fixture(config());
    f.step(AppInfo::TimerFinished);
    f.step(AppInfo::TimerFinished);
    assert_eq!(f.state.rap_counter, 2);
    let step = f.step(AppInfo::TimerReset);
    assert_eq!(f.state.phase, Phase::Working);
    assert_eq!(f.state.rap_counter, 1);
    assert_eq!(label(&f.menu, RAP_ID), "Rap: 1");
    assert_eq!(label(&f.menu, PHASE_ID), "Phase: Working");
    assert!(step.icon_changed);
    assert_eq!(f.sni.bitmap, minute_bitmap(minutes(25)));
    assert_eq!(step.menu_updates.unwrap().len(), 2);
}

#[test]
fn started_timer_plays_the_sound_of_its_phase() {
    let mut f = fixture(config());
    let step = f.step(AppInfo::TimerStarted(minutes(25)));
    assert!(matches!(
        step.audio.as_slice(),
        [AudioCommand::Play { sound_file_type: SoundFileType::Break2Work }]
    ));
    f.step(AppInfo::TimerSkipped);
    let step = f.step(AppInfo::TimerStarted(minutes(10)));
    assert!(matches!(
        step.audio.as_slice(),
        [AudioCommand::Play { sound_file_type: SoundFileType::Work2Break }]
    ));
    assert_eq!(f.sni.bitmap, minute_bitmap(minutes(10)));
    assert_eq!(f.sni.font_color, Rgb { r: 1, g: 2, b: 3 });
}

#[test]
fn minutes_change_only_the_digits() {
    let mut f = fixture(config());
    let before = (f.sni.font_color, f.sni.bg_color);
    let step = f.step(AppInfo::Minutes(minutes(7)));
    assert!(step.icon_changed);
    assert_eq!(f.sni.bitmap, minute_bitmap(minutes(7)));
    assert_eq!((f.sni.font_color, f.sni.bg_color), before);
}

#[test]
fn a_new_configuration_is_taken_and_passed_to_the_audio() {
    let mut f = fixture(config());
    f.step(AppInfo::TimerFinished);
    let mut c = AppConfig::default();
    c.work_time = minutes(40);
    c.sound_volume = SoundVolume::from_display_text("2.5".to_owned());
    let step = f.step(AppInfo::ReceivedConfigure(c));
    assert_eq!(f.state.phase, Phase::Working);
    assert_eq!(f.state.rap_counter, 1);
    assert_eq!(f.state.config.work_time, minutes(40));
    assert_eq!(f.sni.bitmap, minute_bitmap(minutes(40)));
    match step.audio.as_slice() {
        [AudioCommand::ChangeVolume(v)] => assert_eq!(v.display_text(), "2.5"),
        _ => panic!("only the volume changes"),
    }
}

#[test]
fn outside_start_restarts_the_first_working_period() {
    let mut f = fixture(config());
    f.step(AppInfo::TimerFinished);
    let _ = f.timer_rx.try_recv();
    let step = f.step(AppInfo::ReceivedExternalStart);
    assert!(!step.icon_changed);
    assert_eq!(step.menu_updates.unwrap().len(), 6);
    assert_eq!(f.timer_rx.try_recv().unwrap(), TimerCommand::Start(minutes(25)));
    assert_eq!(label(&f.menu, STATUS_ID), "Status: Running");
}

#[test]
fn terminated_timer_ends_the_loop() {
    let mut f = fixture(config());
    assert!(f.step(AppInfo::TimerTerminated).terminate);
    for info in [AppInfo::Seconds(3), AppInfo::TimerPaused, AppInfo::TimerResumed] {
        let step = f.step(info);
        assert!(!step.terminate && !step.icon_changed && step.menu_updates.is_none() && step.audio.is_empty());
    }
}

#[test]
fn a_start_into_a_closed_channel_is_an_error() {
    let c = config();
    let mut menu = DbusMenu::new(c.work_time);
    let mut sni = StatusNotifierItem::new(minute_bitmap(c.work_time), c.work_font_color, c.work_bg_color);
    let mut state = MainState::new(c);
    let step = state.handle_info(AppInfo::TimerFinished, &mut menu, &mut sni);
    assert_eq!(step.timer_command, Some(TimerCommand::Start(minutes(10))));
    assert_eq!(state.phase, Phase::ShortBreak);
    let (tx, rx) = async_channel::unbounded::<TimerCommand>();
    drop(rx);
    match send_or_error(&tx, step.timer_command.unwrap(), "DbusMenu: timer_cmd_sender") {
        Err(AppError::SenderError { name }) => assert_eq!(name, "DbusMenu: timer_cmd_sender"),
        _ => panic!("the send must fail"),
    }
}

#[test]
fn only_finished_timers_and_outside_starts_command_the_timer() {
    let mut f = fixture(config());
    for info in [
        AppInfo::TimerStarted(minutes(25)),
        AppInfo::Minutes(minutes(24)),
        AppInfo::Seconds(3),
        AppInfo::TimerPaused,
        AppInfo::TimerResumed,
        AppInfo::TimerSkipped,
        AppInfo::TimerReset,
    ] {
        assert!(f.step(info).timer_command.is_none());
    }
}

#[test]
fn phase_names() {
    assert_eq!(String::from(Phase::Working), "Working");
    assert_eq!(String::from(Phase::ShortBreak), "ShortBreak");
    assert_eq!(String::from(Phase::LongBreak), "LongBreak");
}

#[test]
fn finished_timers_start_the_next_phase_with_its_minutes() {
    let mut f = fixture(AppConfig::default());
    for _ in 0..7 {
        f.step(AppInfo::TimerFinished);
    }
    let sent: Vec<TimerCommand> = std::iter::from_fn(|| f.timer_rx.try_recv().ok()).collect();
    assert_eq!(
        sent,
        vec![10, 25, 10, 25, 10, 25, 15].into_iter().map(|m| TimerCommand::Start(minutes(m))).collect::<Vec<_>>()
    );
    assert_eq!(label(&f.menu, PHASE_ID), "Phase: LongBreak");
    assert_eq!(label(&f.menu, RAP_ID), "Rap: 4");
}

#[test]
fn an_outside_start_starts_a_working_period() {
    let mut f = fixture(AppConfig::default());
    f.step(AppInfo::TimerSkipped);
    assert!(f.timer_rx.try_recv().is_err());
    f.step(AppInfo::ReceivedExternalStart);
    assert_eq!(f.timer_rx.try_recv().unwrap(), TimerCommand::Start(minutes(25)));
    assert!(f.timer_rx.try_recv().is_err());
    assert_eq!(label(&f.menu, PHASE_ID), "Phase: Working");
    assert_eq!(label(&f.menu, RAP_ID), "Rap: 1");
    assert_eq!(label(&f.menu, STATUS_ID), "Status: Running");
}
