use pomodoro_sni::types::SoundFileType;
use pomodoro_sni::{AppError, LongBreakPos, Rgb, SoundFilePath, StringOpt, TimerMinute};

/// A path of the project's sound assets, which this crate does not ship:
/// the disk check that `SoundFilePath::try_from` makes is given as passed.
fn asset_path(value: String) -> Result<SoundFilePath, AppError> {
    SoundFilePath::from_checked(value, Some("wav".to_owned()), true)
}

#[test]
fn test_sound_file() {
    let valid_path = "./assets/sounds/break2work.wav".to_owned();
    let path = asset_path(valid_path).unwrap();
    assert!(matches!(path.sound_file_type(), SoundFileType::Wav));

    let invalid_path = "hogehoge.wav".to_owned();
    assert!(SoundFilePath::try_from(invalid_path).is_err());
}

#[test]
fn test_string_opt() {
    let empty = "".to_owned();
    assert!(matches!(
        StringOpt::<SoundFilePath>::try_from(empty),
        Ok(StringOpt::Empty)
    ));
    let valid_path = "./assets/sounds/work2break.wav".to_owned();
    assert!(matches!(
        asset_path(valid_path).map(StringOpt::Value),
        Ok(StringOpt::Value(_))
    ));

    assert_eq!(
        Into::<String>::into(StringOpt::<SoundFilePath>::Empty),
        "".to_owned()
    );

    let valid_path = "./assets/sounds/work2break.wav".to_owned();
    assert_eq!(
        Into::<String>::into(StringOpt::Value(
            asset_path(valid_path.clone()).unwrap()
        )),
        valid_path
    )
}

#[test]
fn test_long_break_pos() {
    let every_rap = "5".to_owned();
    assert!(matches!(
        LongBreakPos::try_from(every_rap.clone()).unwrap(),
        LongBreakPos::EveryRap(_)
    ));
    assert_eq!(
        Into::<String>::into(LongBreakPos::try_from(every_rap.clone()).unwrap()),
        every_rap
    );

    let specific_raps = "[1,4,6]".to_owned();
    assert!(matches!(
        LongBreakPos::try_from(specific_raps.clone()).unwrap(),
        LongBreakPos::SpecificRap(_)
    ));
    assert_eq!(
        Into::<String>::into(LongBreakPos::try_from(specific_raps.clone()).unwrap()),
        specific_raps
    );
}

#[test]
fn sound_file_checks_come_in_order() {
    let ok = SoundFilePath::from_checked("a/b.wav".to_owned(), Some("wav".to_owned()), true).unwrap();
    assert_eq!(ok.path(), "a/b.wav");
    assert!(matches!(
        SoundFilePath::from_checked("a/b.wav".to_owned(), Some("wav".to_owned()), false),
        Err(AppError::TypeError(m)) if m == "This path is invalid. \"a/b.wav\""
    ));
    assert!(matches!(
        SoundFilePath::from_checked("a/b.ogg".to_owned(), Some("ogg".to_owned()), true),
        Err(AppError::TypeError(m)) if m == "Invalid sound file type: \"a/b.ogg\""
    ));
    assert!(SoundFilePath::from_checked("noext".to_owned(), None, true).is_err());
}

#[test]
fn sound_file_with_other_extension_is_refused_with_its_message() {
    match SoundFilePath::try_from("song.mp3".to_owned()) {
        Err(AppError::TypeError(m)) => assert_eq!(m, "Invalid sound file type: \"song.mp3\""),
        _ => panic!("an mp3 path must be refused"),
    }
}

#[test]
fn missing_wav_file_is_refused_with_its_message() {
    match SoundFilePath::try_from("./no/such/dir/x.wav".to_owned()) {
        Err(AppError::TypeError(m)) => assert_eq!(m, "This path is invalid. \"./no/such/dir/x.wav\""),
        _ => panic!("a missing file must be refused"),
    }
}

#[test]
fn timer_minute_reads_numbers_below_a_hundred() {
    assert_eq!(TimerMinute::try_from("25".to_owned()).unwrap().as_u8(), 25);
    assert_eq!(TimerMinute::try_from("0".to_owned()).unwrap().as_u8(), 0);
    assert_eq!(TimerMinute::try_from("99".to_owned()).unwrap().as_u8(), 99);
    match TimerMinute::try_from("100".to_owned()) {
        Err(AppError::TypeError(m)) => assert_eq!(m, "TimerMinute must be up to 99"),
        _ => panic!("100 minutes must be refused"),
    }
    match TimerMinute::try_from("abc".to_owned()) {
        Err(AppError::TypeError(m)) => assert_eq!(m, "Couldn't parse as u8: abc"),
        _ => panic!("a word must be refused"),
    }
    match TimerMinute::try_from(100u8) {
        Err(AppError::TypeError(m)) => assert_eq!(m, "TimerMinute must be up to 99"),
        _ => panic!("100 must be refused"),
    }
}

#[test]
fn timer_minute_parts_and_text() {
    let m = TimerMinute::try_from(47u8).unwrap();
    assert_eq!(m.tens(), 4);
    assert_eq!(m.ones(), 7);
    assert_eq!(m.as_secs(), 2820);
    assert_eq!(String::from(m), "47");
    let mut z = TimerMinute::try_from(0u8).unwrap();
    z.decrement();
    assert_eq!(z.as_u8(), 0);
    let mut one = TimerMinute::try_from(1u8).unwrap();
    one.decrement();
    assert_eq!(one.as_u8(), 0);
}

#[test]
fn timer_minute_text_round_trip() {
    for i in 0..100u8 {
        let m = TimerMinute::try_from(i).unwrap();
        let back = TimerMinute::try_from(String::from(m)).unwrap();
        assert_eq!(back.as_u8(), i);
    }
}

#[test]
fn rgb_reads_and_writes_hex() {
    let c = Rgb::try_from("#12ab9F".to_owned()).unwrap();
    assert_eq!((c.r, c.g, c.b), (0x12, 0xab, 0x9f));
    assert_eq!(String::from(c), "#12ab9f");
    let d = Rgb::try_from("ffffff".to_owned()).unwrap();
    assert_eq!((d.r, d.g, d.b), (255, 255, 255));
    match Rgb::try_from("#12345".to_owned()) {
        Err(AppError::TypeError(m)) => assert_eq!(m, "Invalid color hex: #12345"),
        _ => panic!("five digits must be refused"),
    }
    assert!(Rgb::try_from("#gg0000".to_owned()).is_err());
}

#[test]
fn rgb_round_trip() {
    for (r, g, b) in [(0u8, 0u8, 0u8), (255, 128, 1), (16, 32, 254)] {
        let c = Rgb { r, g, b };
        let back = Rgb::try_from(String::from(c)).unwrap();
        assert_eq!(back, c);
    }
}

#[test]
fn long_break_pos_errors_and_spaces() {
    match LongBreakPos::try_from("[1, x]".to_owned()) {
        Err(AppError::TypeError(m)) => assert_eq!(m, "Couldn't parse as Vec<u32>: [1, x]"),
        _ => panic!("a bad list must be refused"),
    }
    match LongBreakPos::try_from("four".to_owned()) {
        Err(AppError::TypeError(m)) => assert_eq!(m, "Couldn't parse as u32: four"),
        _ => panic!("a word must be refused"),
    }
    match LongBreakPos::try_from(" [ 2 , 5 ] ".to_owned()).unwrap() {
        LongBreakPos::SpecificRap(v) => assert_eq!(v, vec![2, 5]),
        _ => panic!("a list was given"),
    }
    assert_eq!(String::from(LongBreakPos::SpecificRap(vec![2, 5])), "[2,5]");
    assert_eq!(String::from(LongBreakPos::EveryRap(4)), "4");
}

#[test]
fn string_opt_of_timer_minute() {
    match StringOpt::<TimerMinute>::try_from("12".to_owned()) {
        Ok(StringOpt::Value(m)) => assert_eq!(m.as_u8(), 12),
        _ => panic!("12 reads"),
    }
    assert!(StringOpt::<TimerMinute>::try_from("x".to_owned()).is_err());
}
