use pomodoro_sni::config::ConfigField;
use pomodoro_sni::interactive::{ConfigDialog, DialogStep};
use pomodoro_sni::{AppConfig, AppError, SoundVolume, TimerMinute};

fn volume_from_text(t: String) -> Result<SoundVolume, AppError> {
    let v: f32 = t
        .parse()
        .map_err(|_| AppError::TypeError(format!("Couldn't parse as f32. :{t}")))?;
    if v < 0.2 || 5.0 < v {
        Err(AppError::TypeError(format!("SoundVolume must be in the range of [0.2, 5.0]. :{v}")))
    } else {
        Ok(SoundVolume::from_display_text(v.to_string()))
    }
}

fn items(d: &ConfigDialog) -> (String, Vec<String>) {
    d.menu()
}

#[test]
fn root_screen() {
    let d = ConfigDialog::new(AppConfig::default());
    let (prompt, list) = items(&d);
    assert_eq!(prompt, "🔧 Settings");
    assert_eq!(list.len(), 7);
    assert_eq!(list[3], "   Long Break Position");
    assert_eq!(list[6], "❎ close");
}

#[test]
fn asking_for_the_working_time() {
    let mut c = AppConfig::default();
    c.work_time = TimerMinute::try_from(30u8).unwrap();
    let mut d = ConfigDialog::new(c);
    assert!(matches!(d.on_select(0), DialogStep::Continue));
    assert_eq!(items(&d).0, "Time Setting");
    match d.on_select(0) {
        DialogStep::Input(q) => {
            assert_eq!(q.field, ConfigField::WorkTime);
            assert_eq!(q.prompt, "Enter the Working Time[min]. (default \"25\")\n");
            assert_eq!(q.initial, "30");
            assert_eq!(q.default.as_deref(), Some("25"));
        }
        _ => panic!("the working time is asked for"),
    }
    assert!(d.check_input(ConfigField::WorkTime, "120".to_owned(), volume_from_text).is_err());
    d.on_input(ConfigField::WorkTime, "45".to_owned(), volume_from_text).unwrap();
    assert_eq!(d.config().work_time.as_u8(), 45);
    assert!(matches!(d.on_select(3), DialogStep::Continue));
    assert_eq!(items(&d).0, "🔧 Settings");
}

#[test]
fn long_break_background_defaults_to_the_default_colour() {
    let mut c = AppConfig::default();
    c.long_break_bg_color = pomodoro_sni::Rgb { r: 1, g: 2, b: 3 };
    let mut d = ConfigDialog::new(c);
    d.on_select(1);
    d.on_select(2);
    assert_eq!(items(&d).0, "Long Break Color Setting");
    match d.on_select(1) {
        DialogStep::Input(q) => {
            assert_eq!(q.prompt, "Enter the background color while Long Break. (default \"#000000\")\n");
            assert_eq!(q.default.as_deref(), Some("#000000"));
        }
        _ => panic!("the colour is asked for"),
    }
    d.on_select(2);
    assert_eq!(items(&d).0, "🎨 Color Setting");
}

#[test]
fn sound_files_have_no_default() {
    let mut d = ConfigDialog::new(AppConfig::default());
    d.on_select(2);
    d.on_select(0);
    assert_eq!(items(&d).0, "💿 Sound File Setting");
    match d.on_select(1) {
        DialogStep::Input(q) => {
            assert_eq!(q.field, ConfigField::SoundWorkToBreak);
            assert!(q.default.is_none());
            assert!(q.prompt.starts_with("Enter the wav file path for Work2Break sound. \n"));
        }
        _ => panic!("the file is asked for"),
    }
    d.on_input(ConfigField::SoundWorkToBreak, "".to_owned(), volume_from_text).unwrap();
}

#[test]
fn volume_is_read_by_the_given_reader() {
    let mut d = ConfigDialog::new(AppConfig::default());
    d.on_select(2);
    match d.on_select(1) {
        DialogStep::Input(q) => assert_eq!(q.prompt, "Enter the Sound Volume(0.2 ~ 5.0). (default \"1\")\n"),
        _ => panic!("the volume is asked for"),
    }
    assert!(d.on_input(ConfigField::SoundVolume, "7".to_owned(), volume_from_text).is_err());
    d.on_input(ConfigField::SoundVolume, "0.5".to_owned(), volume_from_text).unwrap();
    assert_eq!(d.config().sound_volume.display_text(), "0.5");
}

#[test]
fn default_apply_and_close() {
    let mut c = AppConfig::default();
    c.work_time = TimerMinute::try_from(5u8).unwrap();
    let mut d = ConfigDialog::new(c);
    match d.on_select(5) {
        DialogStep::Apply(applied) => assert_eq!(applied.work_time.as_u8(), 5),
        _ => panic!("apply hands out the configuration"),
    }
    assert!(matches!(d.on_select(4), DialogStep::Continue));
    assert_eq!(d.config().work_time.as_u8(), 25);
    assert!(matches!(d.on_select(6), DialogStep::Close));
}

#[test]
fn back_items_lead_to_the_first_screen() {
    let mut d = ConfigDialog::new(AppConfig::default());
    d.on_select(2);
    d.on_select(0);
    assert_eq!(items(&d).0, "💿 Sound File Setting");
    assert!(matches!(d.on_select(2), DialogStep::Continue));
    assert_eq!(items(&d).0, "🎵 Sound Setting");
    assert!(matches!(d.on_select(2), DialogStep::Continue));
    assert_eq!(items(&d).0, "🔧 Settings");
    d.on_select(1);
    d.on_select(0);
    assert_eq!(items(&d).0, "Working Color Setting");
    d.on_select(2);
    d.on_select(3);
    assert_eq!(items(&d).0, "🔧 Settings");
}
