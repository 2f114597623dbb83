use pomodoro_sni::digit::{figure_str_to_bitmap, Digit, DoubleDigit};
use pomodoro_sni::TimerMinute;

#[test]
fn test_double_digit() {
    for i in 0..100_u8 {
        let double_digit = DoubleDigit::from(TimerMinute::try_from(i).unwrap());

        let bitmap_and_flatten = double_digit
            .bitmap()
            .into_iter()
            .flatten()
            .collect::<Vec<_>>();
        let bitmap_flatten = double_digit
            .bitmap_flatten()
            .into_iter()
            .collect::<Vec<_>>();

        assert!(bitmap_and_flatten == bitmap_flatten);
    }
}

#[test]
fn icon_keeps_two_blank_columns_between_the_digits() {
    for i in 0..100_u8 {
        let rows = DoubleDigit::from(TimerMinute::try_from(i).unwrap()).bitmap();
        for row in rows.iter() {
            assert!(!row[7]);
            assert!(!row[8]);
        }
    }
}

#[test]
fn icon_columns_are_the_digit_glyphs() {
    let rows = DoubleDigit::from(TimerMinute::try_from(38u8).unwrap()).bitmap();
    let three = Digit::try_from(3u8).unwrap().bitmap();
    let eight = Digit::try_from(8u8).unwrap().bitmap();
    for i in 0..16 {
        assert_eq!(&rows[i][0..7], &three[i][..]);
        assert_eq!(&rows[i][9..16], &eight[i][..]);
    }
}

#[test]
fn digits_have_different_glyphs() {
    let glyphs: Vec<[[bool; 7]; 16]> = (0..10u8).map(|d| Digit::try_from(d).unwrap().bitmap()).collect();
    for a in 0..10 {
        for b in (a + 1)..10 {
            assert_ne!(glyphs[a], glyphs[b]);
        }
    }
}

#[test]
fn digit_refuses_ten() {
    assert!(Digit::try_from(10u8).is_err());
}

fn figure_of(rows: &[[bool; 7]; 16], line_end: &str) -> String {
    let mut s = String::from("\n  ");
    for row in rows.iter() {
        for &p in row.iter() {
            s.push(if p { '■' } else { '□' });
        }
        s.push_str(line_end);
    }
    s.push_str("   ");
    s
}

#[test]
fn figure_text_draws_the_glyphs() {
    for d in 0..10u8 {
        let glyph = Digit::try_from(d).unwrap().bitmap();
        assert_eq!(figure_str_to_bitmap(&figure_of(&glyph, "\n")), glyph);
        assert_eq!(figure_str_to_bitmap(&figure_of(&glyph, "\r\n")), glyph);
    }
}

#[test]
fn short_figure_rows_stay_blank_beyond_the_text() {
    let b = figure_str_to_bitmap("■□■\n\n□■");
    assert_eq!(&b[0][0..4], &[true, false, true, false]);
    assert!(b[1].iter().all(|p| !p));
    assert_eq!(&b[2][0..2], &[false, true]);
    assert!(b[3..].iter().all(|r| r.iter().all(|p| !p)));
}
