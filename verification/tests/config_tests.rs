use pomodoro_sni::config::{parse_config_line, parse_config_lines, ConfigField};
use pomodoro_sni::{AppConfig, AppError, LongBreakPos, Rgb, SoundVolume, StringOpt, TimerMinute};

fn volume_from_text(t: String) -> Result<SoundVolume, AppError> {
    let v: f32 = t
        .parse()
        .map_err(|_| AppError::TypeError(format!("Couldn't parse as f32. :{t}")))?;
    if v < 0.2 || 5.0 < v {
        Err(AppError::TypeError(format!("SoundVolume must be in the range of [0.2, 5.0]. :{v}")))
    } else {
        Ok(SoundVolume::from_display_text(v.to_string()))
    }
}

fn same(a: &AppConfig, b: &AppConfig) -> bool {
    a.config_file_text() == b.config_file_text()
}

fn read_text(text: &str) -> Result<AppConfig, AppError> {
    let lines: Vec<String> = text.lines().map(|l| l.to_owned()).collect();
    AppConfig::try_from_string_map(parse_config_lines(&lines)?, volume_from_text)
}

#[test]
fn default_configuration_reads_back() {
    let text = AppConfig::default().config_file_text();
    assert!(same(&read_text(&text).unwrap(), &AppConfig::default()));
}

#[test]
fn default_configuration_file_text() {
    assert_eq!(
        AppConfig::default().config_file_text(),
        "work_font_color=#ffffff\nwork_bg_color=#000000\nshort_break_font_color=#ffffff\nshort_break_bg_color=#000000\n\
long_break_font_color=#ffffff\nlong_break_bg_color=#000000\nwork_time=25\nshort_break_time=10\nlong_break_time=15\n\
long_break_pos=4\nsound_break_to_work=\nsound_work_to_break=\nsound_volume=1\n"
    );
}

#[test]
fn string_map_keeps_the_file_order() {
    let keys: Vec<String> = AppConfig::default().string_map().keys().cloned().collect();
    assert_eq!(keys[0], "work_font_color");
    assert_eq!(keys[9], "long_break_pos");
    assert_eq!(keys[12], "sound_volume");
    assert_eq!(keys.len(), 13);
}

#[test]
fn configuration_round_trip() {
    let mut c = AppConfig::default();
    c.work_time = TimerMinute::try_from(50u8).unwrap();
    c.short_break_bg_color = Rgb { r: 1, g: 0xab, b: 0xff };
    c.long_break_pos = LongBreakPos::SpecificRap(vec![2, 3, 9]);
    c.sound_volume = SoundVolume::from_display_text("0.5".to_owned());
    let back = read_text(&c.config_file_text()).unwrap();
    assert!(same(&back, &c));
    assert!(matches!(back.sound_break_to_work, StringOpt::Empty));
}

#[test]
fn config_lines_are_trimmed_and_cut_at_the_second_equals_sign() {
    let (k, v) = parse_config_line("  work_time = 30 = ignored ").unwrap();
    assert_eq!(k, "work_time");
    assert_eq!(v, "30");
    match parse_config_line("no equals sign") {
        Err(AppError::CustomError(m)) => assert_eq!(m, "Invalid config file."),
        _ => panic!("a line without = is refused"),
    }
}

#[test]
fn missing_setting_is_an_error() {
    match read_text("work_font_color=#ffffff\n") {
        Err(AppError::CustomError(m)) => assert_eq!(m, "Could'nt get value from string map."),
        _ => panic!("a missing setting is refused"),
    }
}

#[test]
fn bad_volume_is_refused_by_the_reader() {
    let text = AppConfig::default().config_file_text().replace("sound_volume=1", "sound_volume=9");
    assert!(matches!(read_text(&text), Err(AppError::TypeError(_))));
}

#[test]
fn settings_read_from_text() {
    let mut c = AppConfig::default();
    c.set_from_text(ConfigField::WorkTime, "45".to_owned()).unwrap();
    assert_eq!(c.work_time.as_u8(), 45);
    assert!(c.set_from_text(ConfigField::WorkTime, "450".to_owned()).is_err());
    assert_eq!(c.work_time.as_u8(), 45);
    c.set_from_text(ConfigField::LongBreakBgColor, "#010203".to_owned()).unwrap();
    assert_eq!(c.long_break_bg_color, Rgb { r: 1, g: 2, b: 3 });
    c.set_from_text(ConfigField::LongBreakPos, "[1,2]".to_owned()).unwrap();
    assert_eq!(c.field_text(ConfigField::LongBreakPos), "[1,2]");
    c.set_from_text(ConfigField::SoundBreakToWork, "".to_owned()).unwrap();
    assert!(matches!(c.sound_break_to_work, StringOpt::Empty));
    assert!(c.set_from_text(ConfigField::SoundWorkToBreak, "x.mp3".to_owned()).is_err());
    assert_eq!(c.field_text(ConfigField::WorkTime), "45");
    assert_eq!(c.field_text(ConfigField::LongBreakBgColor), "#010203");
}

#[test]
fn the_first_failing_setting_decides_the_error() {
    // A missing setting after a bad one: the bad one is reported.
    match read_text("work_font_color=#ffffff\nwork_bg_color=black\n") {
        Err(AppError::TypeError(m)) => assert_eq!(m, "Invalid color hex: black"),
        _ => panic!("the bad colour is reported"),
    }
    // A bad setting after a missing one: the missing one is reported.
    let text = AppConfig::default().config_file_text().replace("work_bg_color=#000000\n", "").replace("work_time=25", "work_time=x");
    match read_text(&text) {
        Err(AppError::CustomError(m)) => assert_eq!(m, "Could'nt get value from string map."),
        _ => panic!("the missing setting is reported"),
    }
}

#[test]
fn missing_last_settings_are_errors() {
    for line in ["sound_work_to_break=\n", "sound_volume=1\n"] {
        let text = AppConfig::default().config_file_text().replace(line, "");
        match read_text(&text) {
            Err(AppError::CustomError(m)) => assert_eq!(m, "Could'nt get value from string map."),
            _ => panic!("a missing {line} is refused"),
        }
    }
}
