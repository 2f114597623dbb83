use pomodoro_sni::audio::{AudioAction, AudioState};
use pomodoro_sni::channel::SendFailure;
use pomodoro_sni::error::{send_failure_error, send_or_error, send_result};
use pomodoro_sni::terminal::TerminalType;
use pomodoro_sni::{
    try_send_error_to_app_error, AppConfig, AppError, AppInfo, AudioCommand, PomodoroSniController, SoundFilePath,
    SoundFileType, SoundVolume, StatusNotifierItem, TimerMinute,
};

#[test]
fn audio_plays_the_chosen_file_or_the_shipped_sound() {
    let mut a = AudioState::new();
    assert!(matches!(
        a.on_command(AudioCommand::Play { sound_file_type: SoundFileType::Work2Break }),
        AudioAction::PlayDefault(SoundFileType::Work2Break)
    ));
    let f = SoundFilePath::from_checked("./sounds/bell.wav".to_owned(), Some("wav".to_owned()), true).unwrap();
    assert!(matches!(
        a.on_command(AudioCommand::ChangeFile { file: f, sound_file_type: SoundFileType::Break2Work }),
        AudioAction::Nothing
    ));
    match a.on_command(AudioCommand::Play { sound_file_type: SoundFileType::Break2Work }) {
        AudioAction::PlayFile(p) => assert_eq!(p.path(), "./sounds/bell.wav"),
        _ => panic!("the chosen file plays"),
    }
    assert!(matches!(
        a.on_command(AudioCommand::Play { sound_file_type: SoundFileType::Work2Break }),
        AudioAction::PlayDefault(SoundFileType::Work2Break)
    ));
    match a.on_command(AudioCommand::ChangeVolume(SoundVolume::from_display_text("2".to_owned()))) {
        AudioAction::SetVolume(v) => assert_eq!(v.display_text(), "2"),
        _ => panic!("the volume is set"),
    }
    assert!(matches!(a.on_command(AudioCommand::Terminate), AudioAction::Stop));
}

#[test]
fn controller_keeps_and_forwards_the_configuration() {
    let mut c = PomodoroSniController::new(AppConfig::default());
    let mut next = AppConfig::default();
    next.work_time = TimerMinute::try_from(33u8).unwrap();
    let info = c.set_config(next);
    assert!(matches!(info, AppInfo::ReceivedConfigure(ref cfg) if cfg.work_time.as_u8() == 33));
    assert_eq!(c.get_config().work_time.as_u8(), 33);
    assert!(matches!(c.external_start(), AppInfo::ReceivedExternalStart));
    assert_eq!(c.get_config().work_time.as_u8(), 33);
}

#[test]
fn send_errors_map_by_kind() {
    assert!(matches!(
        send_failure_error(SendFailure::Full, "x".to_owned()),
        AppError::ChannelFullError { name } if name == "x"
    ));
    assert!(matches!(
        send_failure_error(SendFailure::Closed, "y".to_owned()),
        AppError::SenderError { name } if name == "y"
    ));
    let (tx, _rx) = async_channel::bounded::<u8>(1);
    tx.try_send(1).unwrap();
    let e = tx.try_send(2).unwrap_err();
    assert!(matches!(try_send_error_to_app_error(e, "z".to_owned()), AppError::ChannelFullError { name } if name == "z"));
}

#[test]
fn error_messages() {
    assert_eq!(AppError::SenderError { name: "a".to_owned() }.message(), "SenderError: Receiver was dropped: a");
    assert_eq!(AppError::ReceiverError { name: "b".to_owned() }.message(), "ReceiverError: Sender was dropped: b");
    assert_eq!(AppError::ChannelFullError { name: "c".to_owned() }.message(), "ChannelFullError: channel is full: c");
    assert_eq!(AppError::TypeError("d".to_owned()).message(), "TypeError: d");
    assert_eq!(AppError::ArgError("e".to_owned()).message(), "ArgError: e");
    assert_eq!(AppError::IoError("f".to_owned()).message(), "IoError: f");
}

#[test]
fn terminal_commands() {
    assert_eq!(TerminalType::GnomeTerminal.command(), "gnome-terminal");
    assert_eq!(TerminalType::Ptyxis.execute_args(), vec!["--new-window".to_owned(), "--".to_owned()]);
    assert!(TerminalType::Kitty.execute_args().is_empty());
    let (prog, args) = TerminalType::Konsole.settings_command_line("/bin/p".to_owned());
    assert_eq!(prog, "konsole");
    assert_eq!(args, vec!["-e".to_owned(), "/bin/p".to_owned(), "configure".to_owned()]);
    let mut found = [false; 10];
    assert!(TerminalType::first_available(&found).is_err());
    found[3] = true;
    found[7] = true;
    assert_eq!(TerminalType::first_available(&found).unwrap().command(), "alacritty");
}

#[test]
fn icon_pixmap_is_argb() {
    let mut bitmap = [false; 256];
    bitmap[0] = true;
    let sni = StatusNotifierItem::new(
        bitmap,
        pomodoro_sni::Rgb { r: 1, g: 2, b: 3 },
        pomodoro_sni::Rgb { r: 4, g: 5, b: 6 },
    );
    let p = sni.icon_pixmap();
    assert_eq!(p.len(), 1);
    assert_eq!((p[0].0, p[0].1), (16, 16));
    assert_eq!(p[0].2.len(), 1024);
    assert_eq!(&p[0].2[0..8], &[255, 1, 2, 3, 255, 4, 5, 6]);
}

#[test]
fn send_results_by_outcome() {
    assert!(send_result(Ok(()), "ch").is_ok());
    assert!(matches!(send_result(Err(SendFailure::Full), "ch"), Err(AppError::ChannelFullError { name }) if name == "ch"));
    assert!(matches!(send_result(Err(SendFailure::Closed), "ch"), Err(AppError::SenderError { name }) if name == "ch"));
}

#[test]
fn controller_messages_on_a_full_channel() {
    let (tx, rx) = async_channel::bounded(1);
    let c = PomodoroSniController::new(AppConfig::default());
    send_or_error(&tx, c.external_start(), "PomodoroSniController: controller_sender").unwrap();
    match send_or_error(&tx, c.external_start(), "PomodoroSniController: controller_sender") {
        Err(AppError::ChannelFullError { name }) => assert_eq!(name, "PomodoroSniController: controller_sender"),
        _ => panic!("the channel is full"),
    }
    assert!(matches!(rx.try_recv().unwrap(), AppInfo::ReceivedExternalStart));
    assert!(rx.try_recv().is_err());
}
