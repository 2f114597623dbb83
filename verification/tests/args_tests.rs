use pomodoro_sni::args::{choose_subcommand, classify_option, CliArg, CliOption};
use pomodoro_sni::config::ConfigField;
use pomodoro_sni::{parse_args, AppConfig, AppError, ArgsOutcome, CliSubcommand, LogLevel, SoundVolume};

fn volume_from_text(t: String) -> Result<SoundVolume, AppError> {
    let v: f32 = t
        .parse()
        .map_err(|_| AppError::TypeError(format!("Couldn't parse as f32. :{t}")))?;
    if v < 0.2 || 5.0 < v {
        Err(AppError::TypeError(format!("SoundVolume must be in the range of [0.2, 5.0]. :{v}")))
    } else {
        Ok(SoundVolume::from_display_text(v.to_string()))
    }
}

fn parse(words: &[&str]) -> Result<ArgsOutcome, AppError> {
    parse_args(AppConfig::default(), words.iter().map(|w| w.to_string()).collect(), volume_from_text)
}

fn run(words: &[&str]) -> pomodoro_sni::Args {
    match parse(words) {
        Ok(ArgsOutcome::Run(a)) => a,
        Ok(ArgsOutcome::Help) => panic!("help was not asked for"),
        Err(e) => panic!("{}", e.message()),
    }
}

#[test]
fn no_arguments_run_the_app() {
    let a = run(&[]);
    assert_eq!(a.subcommand, CliSubcommand::App);
    assert_eq!(a.log_level, LogLevel::Info);
    assert_eq!(a.app_config.work_time.as_u8(), 25);
}

#[test]
fn subcommands() {
    assert_eq!(run(&["configure"]).subcommand, CliSubcommand::Configure);
    assert_eq!(run(&["start"]).subcommand, CliSubcommand::Start);
    assert_eq!(run(&["app"]).subcommand, CliSubcommand::App);
    assert!(matches!(parse(&["--help"]), Ok(ArgsOutcome::Help)));
    assert!(matches!(parse(&["-h"]), Ok(ArgsOutcome::Help)));
    assert!(matches!(parse(&["app", "-h"]), Ok(ArgsOutcome::Help)));
    match parse(&["serve"]) {
        Err(AppError::ArgError(m)) => assert_eq!(
            m,
            "pomodoro-sni has two subcommand \"pomodoro-sni app\" and \"pomodoro-sni configure\"."
        ),
        _ => panic!("an unknown subcommand is refused"),
    }
}

#[test]
fn app_options_set_the_configuration() {
    let a = run(&[
        "app",
        "-d",
        "--work-time",
        "30",
        "--short-break-time=7",
        "--work-font-color",
        "#102030",
        "--long-break-pos",
        "[2,4]",
        "--sound-volume",
        "1.5",
    ]);
    assert_eq!(a.log_level, LogLevel::Debug);
    assert_eq!(a.app_config.work_time.as_u8(), 30);
    assert_eq!(a.app_config.short_break_time.as_u8(), 7);
    assert_eq!(String::from(a.app_config.work_font_color), "#102030");
    assert_eq!(String::from(a.app_config.long_break_pos), "[2,4]");
    assert_eq!(a.app_config.sound_volume.display_text(), "1.5");
}

#[test]
fn long_break_time_option_sets_the_long_break_time() {
    let a = run(&["app", "--long-break-time", "20"]);
    assert_eq!(a.app_config.long_break_time.as_u8(), 20);
    assert_eq!(a.app_config.short_break_time.as_u8(), 10);
}

#[test]
fn app_options_with_a_list_and_a_background() {
    let a = run(&["app", "-d", "--work-time", "30", "--long-break-pos", "[1, 3]", "--work-bg-color", "#102030"]);
    assert_eq!(a.subcommand, CliSubcommand::App);
    assert_eq!(a.log_level, LogLevel::Debug);
    assert_eq!(a.app_config.work_time.as_u8(), 30);
    assert_eq!(String::from(a.app_config.long_break_pos), "[1,3]");
    assert_eq!(String::from(a.app_config.work_bg_color), "#102030");
    assert_eq!(a.app_config.short_break_time.as_u8(), 10);
}

#[test]
fn other_subcommands_keep_the_configuration() {
    for (w, s) in [("start", CliSubcommand::Start), ("configure", CliSubcommand::Configure)] {
        let a = run(&[w]);
        assert_eq!(a.subcommand, s);
        assert_eq!(a.log_level, LogLevel::Info);
        assert_eq!(a.app_config.work_time.as_u8(), 25);
    }
}

#[test]
fn shapes_that_lexopt_splits() {
    // `--name=value` carries its value in the same argument.
    assert_eq!(run(&["app", "--work-time=40"]).app_config.work_time.as_u8(), 40);
    // `-dh` is two short options.
    assert!(matches!(parse(&["app", "-dh"]), Ok(ArgsOutcome::Help)));
    // After `--` every argument is positional.
    assert!(matches!(parse(&["app", "--", "-d"]), Err(AppError::ArgError(_))));
    assert!(matches!(parse(&["app", "--work-font-color", "#12"]), Err(AppError::TypeError(_))));
    // A value given to a flag is refused; one given to --help is not read.
    assert!(matches!(parse(&["app", "--debug=1"]), Err(AppError::ArgError(_))));
    assert!(matches!(parse(&["app", "--help=1"]), Ok(ArgsOutcome::Help)));
    assert!(matches!(parse(&["app", "--work-time=x"]), Err(AppError::TypeError(_))));
    assert!(matches!(parse(&["app", "--bogus=1"]), Err(AppError::ArgError(_))));
}

#[test]
fn options_are_only_read_for_the_app() {
    let a = run(&["configure", "--work-time", "30"]);
    assert_eq!(a.app_config.work_time.as_u8(), 25);
}

#[test]
fn bad_options_are_errors() {
    assert!(matches!(parse(&["app", "--what"]), Err(AppError::ArgError(m)) if m.contains("--what")));
    assert!(matches!(parse(&["app", "stray"]), Err(AppError::ArgError(_))));
    assert!(matches!(parse(&["app", "--work-time"]), Err(AppError::ArgError(_))));
    assert!(matches!(parse(&["app", "--work-time", "100"]), Err(AppError::TypeError(_))));
    assert!(matches!(parse(&["app", "--sound-volume", "9"]), Err(AppError::TypeError(_))));
}

#[test]
fn first_words() {
    assert_eq!(choose_subcommand(None).unwrap(), Some(CliSubcommand::App));
    assert_eq!(choose_subcommand(Some("start".to_owned())).unwrap(), Some(CliSubcommand::Start));
    assert_eq!(choose_subcommand(Some("--help".to_owned())).unwrap(), None);
    assert!(choose_subcommand(Some("x".to_owned())).is_err());
}

#[test]
fn option_meanings() {
    assert_eq!(classify_option(&CliArg::Short('d')), CliOption::Debug);
    assert_eq!(classify_option(&CliArg::Short('x')), CliOption::Unexpected);
    assert_eq!(classify_option(&CliArg::Long("help".to_owned())), CliOption::Help);
    assert_eq!(
        classify_option(&CliArg::Long("work2break-path".to_owned())),
        CliOption::Setting(ConfigField::SoundWorkToBreak)
    );
    assert_eq!(classify_option(&CliArg::Value("7".to_owned())), CliOption::Unexpected);
}

#[test]
fn an_empty_sound_path_means_the_shipped_sound() {
    let a = run(&["app", "--break2work-path", ""]);
    assert!(matches!(a.app_config.sound_break_to_work, pomodoro_sni::StringOpt::Empty));
    let a = run(&["app", "--work2break-path="]);
    assert!(matches!(a.app_config.sound_work_to_break, pomodoro_sni::StringOpt::Empty));
    assert!(matches!(parse(&["app", "--break2work-path"]), Err(AppError::ArgError(_))));
    assert!(matches!(parse(&["app", "--break2work-path", "x.mp3"]), Err(AppError::TypeError(_))));
}
