use vstd::prelude::*;

use crate::error::{prefixed, AppError};
use vstd::std_specs::cmp::{PartialEqSpec, PartialEqSpecImpl};
use vstd::std_specs::convert::{FromSpecImpl, TryFromSpecImpl};
use crate::paths::{file_extension, path_debug, path_debug_text, path_exists, path_extension};
use crate::text::{
    decimal_string, decimal_text, hex_byte_text, in_class, join_commas, lemma_hex_char,
    lemma_parse_decimal_text, lemma_parse_hex_byte, lemma_split_nonempty, lemma_split_prefix, parse_decimal,
    parse_hex_byte, parse_hex_pair, parse_unsigned, push_char, push_decimal, push_hex_byte,
    split_commas, str_eq, strip, strip_both, strip_front, strip_start, CharClass,
    lemma_decimal_text, lemma_decimal_text_plain, lemma_digit_not_stripped, lemma_join_ends,
    lemma_split_join, lemma_strip_noop, has_no_comma, is_ascii_digit, strip_end,
};

verus! {

/// A number of minutes that the timer can show: at most 99.
#[derive(Debug, Clone, Copy, PartialEq, Eq, Structural)]
pub struct TimerMinute(u8);

impl View for TimerMinute {
    type V = u8;

    closed spec fn view(&self) -> u8 {
        self.0
    }
}

impl TimerMinute {
    #[verifier::type_invariant]
    spec fn below_a_hundred(self) -> bool {
        self.0 < 100
    }

    /// The minutes `v`, which must be below 100.
    pub fn with_minutes(v: u8) -> (r: TimerMinute)
        requires
            v < 100,
        ensures
            r@ == v,
    {
        TimerMinute(v)
    }

    pub fn as_u8(&self) -> (r: u8)
        ensures
            r == self@,
            r < 100,
    {
        proof {
            use_type_invariant(self);
        }
        self.0
    }

    pub fn as_secs(&self) -> (r: u32)
        ensures
            r == self@ * 60,
    {
        self.0 as u32 * 60
    }

    pub fn tens(&self) -> (r: u8)
        ensures
            r == self@ / 10,
            r < 10,
    {
        proof {
            use_type_invariant(self);
        }
        self.0 / 10
    }

    pub fn ones(&self) -> (r: u8)
        ensures
            r == self@ % 10,
    {
        self.0 % 10
    }

    /// One minute less, but never below zero.
    pub fn decrement(&mut self)
        ensures
            final(self)@ == if old(self)@ == 0 { 0 } else { (old(self)@ - 1) as u8 },
    {
        proof {
            use_type_invariant(&*self);
        }
        self.0 = if self.0 == 0 { 0 } else { self.0 - 1 };
    }
}

impl TryFrom<u8> for TimerMinute {
    type Error = AppError;

    fn try_from(value: u8) -> (r: Result<Self, Self::Error>)
        ensures
            value < 100 ==> (r matches Ok(t) && t@ == value),
            value >= 100 ==> (r matches Err(AppError::TypeError(m)) && m@ == "TimerMinute must be up to 99"@),
    {
        if value < 100 {
            Ok(TimerMinute(value))
        } else {
            Err(AppError::TypeError(String::from_str("TimerMinute must be up to 99")))
        }
    }
}

/// The minutes that a text denotes: a decimal number below 100, as `u8`'s
/// `parse` reads it.
pub open spec fn timer_minute_from_text(s: Seq<char>) -> Option<u8> {
    match parse_unsigned(s, 255) {
        Some(v) if v < 100 => Some(v as u8),
        _ => None,
    }
}

impl TryFrom<String> for TimerMinute {
    type Error = AppError;

    fn try_from(value: String) -> (r: Result<Self, Self::Error>)
        ensures
            match parse_unsigned(value@, 255) {
                None => r matches Err(AppError::TypeError(m)) && m@ == "Couldn't parse as u8: "@ + value@,
                Some(v) => if v < 100 {
                    r matches Ok(t) && t@ == v
                } else {
                    r matches Err(AppError::TypeError(m)) && m@ == "TimerMinute must be up to 99"@
                },
            },
    {
        match parse_decimal(value.as_str(), 255) {
            Some(v) => TimerMinute::try_from(v as u8),
            None => Err(AppError::TypeError(prefixed("Couldn't parse as u8: ", value.as_str()))),
        }
    }
}

impl From<TimerMinute> for String {
    fn from(value: TimerMinute) -> (r: String)
        ensures
            r@ == decimal_text(value@ as nat),
    {
        decimal_string(value.0 as u32)
    }
}

/// A colour as its red, green and blue components.
#[derive(Debug, Clone, Copy, PartialEq, Eq, Structural)]
pub struct Rgb {
    pub r: u8,
    pub g: u8,
    pub b: u8,
}

/// The colour that a text denotes: any number of leading `#`, then six
/// characters read two by two as `u8::from_str_radix(_, 16)` reads them.
pub open spec fn rgb_from_text(s: Seq<char>) -> Option<Rgb> {
    let h = strip_start(s, CharClass::Hash);
    if h.len() == 6 {
        match (parse_hex_pair(h[0], h[1]), parse_hex_pair(h[2], h[3]), parse_hex_pair(h[4], h[5])) {
            (Some(r), Some(g), Some(b)) => Some(Rgb { r: r as u8, g: g as u8, b: b as u8 }),
            _ => None,
        }
    } else {
        None
    }
}

/// The text of a colour: `#` and two lower-case hexadecimal digits for each
/// component.
pub open spec fn rgb_text(c: Rgb) -> Seq<char> {
    seq!['#'] + hex_byte_text(c.r) + hex_byte_text(c.g) + hex_byte_text(c.b)
}

impl TryFrom<String> for Rgb {
    type Error = AppError;

    /// Reads a colour. Where the part after the leading `#` is six bytes but
    /// not six characters, this returns the error rather than panicking.
    fn try_from(hex: String) -> (r: Result<Self, Self::Error>)
        ensures
            match rgb_from_text(hex@) {
                Some(c) => r == Ok::<Rgb, AppError>(c),
                None => r matches Err(AppError::TypeError(m)) && m@ == "Invalid color hex: "@ + hex@,
            },
    {
        let h = strip_front(hex.as_str(), CharClass::Hash);
        if h.unicode_len() != 6 {
            return Err(AppError::TypeError(prefixed("Invalid color hex: ", hex.as_str())));
        }
        let red = parse_hex_byte(h.get_char(0), h.get_char(1));
        let green = parse_hex_byte(h.get_char(2), h.get_char(3));
        let blue = parse_hex_byte(h.get_char(4), h.get_char(5));
        match (red, green, blue) {
            (Some(r), Some(g), Some(b)) => Ok(Rgb { r, g, b }),
            _ => Err(AppError::TypeError(prefixed("Invalid color hex: ", hex.as_str()))),
        }
    }
}

impl From<Rgb> for String {
    fn from(value: Rgb) -> (r: String)
        ensures
            r@ == rgb_text(value),
    {
        let mut buf = String::new();
        push_char(&mut buf, '#');
        push_hex_byte(&mut buf, value.r);
        push_hex_byte(&mut buf, value.g);
        push_hex_byte(&mut buf, value.b);
        buf
    }
}

/// Reading back the text of a colour gives the colour.
pub proof fn lemma_rgb_round_trip(c: Rgb)
    ensures
        rgb_from_text(rgb_text(c)) == Some(c),
{
    let t = rgb_text(c);
    lemma_hex_char((c.r / 16) as nat);
    lemma_hex_char((c.r % 16) as nat);
    lemma_hex_char((c.g / 16) as nat);
    lemma_hex_char((c.g % 16) as nat);
    lemma_hex_char((c.b / 16) as nat);
    lemma_hex_char((c.b % 16) as nat);
    let h = t.drop_first();
    assert(t[0] == '#');
    assert(!in_class(CharClass::Hash, h[0]));
    assert(strip_start(h, CharClass::Hash) == h);
    assert(strip_start(t, CharClass::Hash) == strip_start(h, CharClass::Hash));
    lemma_parse_hex_byte(c.r);
    lemma_parse_hex_byte(c.g);
    lemma_parse_hex_byte(c.b);
    assert(h[0] == hex_byte_text(c.r)[0] && h[1] == hex_byte_text(c.r)[1]);
    assert(h[2] == hex_byte_text(c.g)[0] && h[3] == hex_byte_text(c.g)[1]);
    assert(h[4] == hex_byte_text(c.b)[0] && h[5] == hex_byte_text(c.b)[1]);
}

/// Reading back the text of a number of minutes gives the number.
pub proof fn lemma_timer_minute_round_trip(t: TimerMinute)
    requires
        t@ < 100,
    ensures
        timer_minute_from_text(decimal_text(t@ as nat)) == Some(t@),
{
    lemma_parse_decimal_text(t@ as nat, 255);
}

/// The kinds of sound file that can be played: only WAV files.
#[derive(Debug, Clone, Copy, PartialEq, Eq, Structural)]
pub enum SoundFileType {
    Wav,
}

/// The path of a sound file that had a known sound file extension and
/// existed when it was checked.
#[derive(Debug, PartialEq, Eq)]
pub struct SoundFilePath {
    sound_file_type: SoundFileType,
    path_buf: String,
}

impl View for SoundFilePath {
    type V = Seq<char>;

    closed spec fn view(&self) -> Seq<char> {
        self.path_buf@
    }
}

impl Clone for SoundFilePath {
    fn clone(&self) -> (r: Self)
        ensures
            r == *self,
    {
        proof {
            use_type_invariant(self);
        }
        SoundFilePath { sound_file_type: self.sound_file_type, path_buf: self.path_buf.clone() }
    }
}

impl SoundFilePath {
    #[verifier::type_invariant]
    spec fn has_wav_extension(self) -> bool {
        file_extension(self.path_buf@) == Some("wav"@)
    }

    pub fn sound_file_type(&self) -> (r: SoundFileType)
        ensures
            r == SoundFileType::Wav,
    {
        self.sound_file_type
    }

    /// The path, as text.
    pub fn path(&self) -> (r: &str)
        ensures
            r@ == self@,
            file_extension(r@) == Some("wav"@),
    {
        proof {
            use_type_invariant(self);
        }
        self.path_buf.as_str()
    }

    /// Decides on a path once its extension (`Path::extension`) and its
    /// presence on disk are known.
    pub fn from_checked(value: String, extension: Option<String>, exists: bool) -> (r: Result<
        SoundFilePath,
        AppError,
    >)
        requires
            (extension matches Some(e) && e@ == "wav"@) ==> file_extension(value@) == Some("wav"@),
        ensures
            !(extension matches Some(e) && e@ == "wav"@) ==> (r matches Err(AppError::TypeError(m))
                && m@ == "Invalid sound file type: "@ + path_debug_text(value@)),
            (extension matches Some(e) && e@ == "wav"@) && !exists ==> (r matches Err(
                AppError::TypeError(m),
            ) && m@ == "This path is invalid. "@ + path_debug_text(value@)),
            (extension matches Some(e) && e@ == "wav"@) && exists ==> (r matches Ok(p) && p@
                == value@),
    {
        let is_wav = match &extension {
            Some(e) => str_eq(e.as_str(), "wav"),
            None => false,
        };
        if !is_wav {
            let d = path_debug(value.as_str());
            return Err(AppError::TypeError(prefixed("Invalid sound file type: ", d.as_str())));
        }
        if !exists {
            let d = path_debug(value.as_str());
            return Err(AppError::TypeError(prefixed("This path is invalid. ", d.as_str())));
        }
        Ok(SoundFilePath { sound_file_type: SoundFileType::Wav, path_buf: value })
    }
}

impl TryFrom<String> for SoundFilePath {
    type Error = AppError;

    /// Checks the extension of the path, then that the path exists on disk.
    fn try_from(value: String) -> (r: Result<Self, Self::Error>)
        ensures
            file_extension(value@) != Some("wav"@) ==> (r matches Err(AppError::TypeError(m))
                && m@ == "Invalid sound file type: "@ + path_debug_text(value@)),
            file_extension(value@) == Some("wav"@) ==> (r matches Ok(p) && p@ == value@) || (
            r matches Err(AppError::TypeError(m)) && m@ == "This path is invalid. "@
                + path_debug_text(value@)),
    {
        let extension = path_extension(value.as_str());
        let exists = match &extension {
            Some(e) => if str_eq(e.as_str(), "wav") { path_exists(value.as_str()) } else { false },
            None => false,
        };
        SoundFilePath::from_checked(value, extension, exists)
    }
}

impl From<SoundFilePath> for String {
    fn from(value: SoundFilePath) -> (r: String)
        ensures
            r@ == value@,
    {
        value.path_buf
    }
}

/// A value or nothing, where nothing is written as the empty text (D-Bus has
/// no optional values).
#[derive(Debug, Clone)]
pub enum StringOpt<T> where T: TryFrom<String, Error = AppError> + Into<String> + Clone {
    Value(T),
    Empty,
}

impl<T> PartialEq for StringOpt<T> where
    T: TryFrom<String, Error = AppError> + Into<String> + Clone + PartialEq,
 {
    fn eq(&self, other: &Self) -> (r: bool) {
        match (self, other) {
            (StringOpt::Value(x), StringOpt::Value(y)) => x == y,
            (StringOpt::Empty, StringOpt::Empty) => true,
            _ => false,
        }
    }
}

impl<T> PartialEqSpecImpl for StringOpt<T> where
    T: TryFrom<String, Error = AppError> + Into<String> + Clone + PartialEq,
 {
    open spec fn obeys_eq_spec() -> bool {
        <T as PartialEqSpec>::obeys_eq_spec()
    }

    open spec fn eq_spec(&self, other: &Self) -> bool {
        match (*self, *other) {
            (StringOpt::Value(x), StringOpt::Value(y)) => <T as PartialEqSpec>::eq_spec(&x, &y),
            (StringOpt::Empty, StringOpt::Empty) => true,
            _ => false,
        }
    }
}

impl<T> Eq for StringOpt<T> where
    T: TryFrom<String, Error = AppError> + Into<String> + Clone + PartialEq,
 {

}

impl<T> TryFrom<String> for StringOpt<T> where
    T: TryFrom<String, Error = AppError> + Into<String> + Clone,
 {
    type Error = AppError;

    /// The empty text is nothing; any other text is read as a `T`.
    fn try_from(value: String) -> (r: Result<Self, Self::Error>)
        ensures
            value@.len() == 0 ==> r matches Ok(StringOpt::Empty),
            value@.len() > 0 ==> exists|t: Result<T, AppError>|
                call_ensures(T::try_from, (value,), t) && #[trigger] lift_string_opt(t) == r,
    {
        if value.as_str().unicode_len() == 0 {
            return Ok(StringOpt::Empty);
        }
        let t = T::try_from(value);
        let r = match t {
            Ok(v) => Ok(StringOpt::Value(v)),
            Err(e) => Err(e),
        };
        assert(lift_string_opt(t) == r);
        r
    }
}

/// A read `T` as a read `StringOpt<T>`.
pub open spec fn lift_string_opt<T>(t: Result<T, AppError>) -> Result<StringOpt<T>, AppError> where
    T: TryFrom<String, Error = AppError> + Into<String> + Clone,
 {
    match t {
        Ok(v) => Ok(StringOpt::Value(v)),
        Err(e) => Err(e),
    }
}

impl<T> From<StringOpt<T>> for String where
    T: TryFrom<String, Error = AppError> + Into<String> + Clone,
 {
    /// Nothing is the empty text; a value is its own text.
    fn from(value: StringOpt<T>) -> (r: String)
        ensures
            value is Empty ==> r@.len() == 0,
            value matches StringOpt::Value(v) ==> call_ensures(T::into, (v,), r),
    {
        match value {
            StringOpt::Empty => String::new(),
            StringOpt::Value(v) => v.into(),
        }
    }
}

/// Where the long breaks go.
/// - `EveryRap(n)`: after every `n`-th working period.
/// - `SpecificRap(v)`: after the working periods whose numbers are in `v`.
#[derive(Debug, PartialEq, Eq)]
pub enum LongBreakPos {
    EveryRap(u32),
    SpecificRap(Vec<u32>),
}

/// The mathematical form of a [`LongBreakPos`].
pub enum LongBreakPosView {
    EveryRap(u32),
    SpecificRap(Seq<u32>),
}

impl View for LongBreakPos {
    type V = LongBreakPosView;

    open spec fn view(&self) -> LongBreakPosView {
        match self {
            LongBreakPos::EveryRap(n) => LongBreakPosView::EveryRap(*n),
            LongBreakPos::SpecificRap(v) => LongBreakPosView::SpecificRap(v@),
        }
    }
}

impl Clone for LongBreakPos {
    fn clone(&self) -> (r: Self)
        ensures
            r@ == self@,
    {
        match self {
            LongBreakPos::EveryRap(n) => LongBreakPos::EveryRap(*n),
            LongBreakPos::SpecificRap(v) => {
                let w = v.clone();
                assert(w@ =~= v@);
                LongBreakPos::SpecificRap(w)
            },
        }
    }
}

/// The number in one piece of a list: the piece without surrounding
/// whitespace, read as a `u32`.
pub open spec fn parse_rap(piece: Seq<char>) -> Option<nat> {
    parse_unsigned(strip(piece, CharClass::Whitespace), u32::MAX as nat)
}

/// The numbers in the pieces of a list, or nothing when one of them is not
/// a number.
pub open spec fn parse_raps(ps: Seq<Seq<char>>) -> Option<Seq<u32>>
    decreases ps.len(),
{
    if ps.len() == 0 {
        Some(Seq::<u32>::empty())
    } else {
        match (parse_raps(ps.drop_last()), parse_rap(ps.last())) {
            (Some(v), Some(x)) => Some(v.push(x as u32)),
            _ => None,
        }
    }
}

/// Whether the text, without surrounding whitespace, starts with `[`.
pub open spec fn is_rap_list_text(s: Seq<char>) -> bool {
    let t = strip(s, CharClass::Whitespace);
    t.len() > 0 && t[0] == '['
}

/// The long break position that a text denotes: `"[1, 4, 6]"` is a list of
/// periods, `"4"` a period length. Surrounding whitespace is ignored, and
/// so are any `[` and `]` at the ends of a list.
pub open spec fn long_break_pos_from_text(s: Seq<char>) -> Option<LongBreakPosView> {
    let t = strip(s, CharClass::Whitespace);
    if is_rap_list_text(s) {
        match parse_raps(split_commas(strip(t, CharClass::Bracket))) {
            Some(v) => Some(LongBreakPosView::SpecificRap(v)),
            None => None,
        }
    } else {
        match parse_unsigned(t, u32::MAX as nat) {
            Some(n) => Some(LongBreakPosView::EveryRap(n as u32)),
            None => None,
        }
    }
}

/// The texts of the numbers of a list.
pub open spec fn rap_texts(v: Seq<u32>) -> Seq<Seq<char>> {
    v.map_values(|x: u32| decimal_text(x as nat))
}

/// The text of a long break position: `[1,4,6]` or `4`.
pub open spec fn long_break_pos_text(p: LongBreakPosView) -> Seq<char> {
    match p {
        LongBreakPosView::EveryRap(n) => decimal_text(n as nat),
        LongBreakPosView::SpecificRap(v) => seq!['['] + join_commas(rap_texts(v)) + seq![']'],
    }
}

/// Reads the numbers of a comma separated list.
fn parse_rap_list(inner: &str) -> (r: Option<Vec<u32>>)
    ensures
        match parse_raps(split_commas(inner@)) {
            Some(v) => r matches Some(w) && w@ == v,
            None => r is None,
        },
{
    let n = inner.unicode_len();
    let mut out: Vec<u32> = Vec::new();
    let mut start: usize = 0;
    let mut i: usize = 0;
    assert(inner@.take(0) =~= Seq::<char>::empty());
    assert(split_commas(inner@.take(0)).drop_last() =~= Seq::<Seq<char>>::empty());
    while i < n
        invariant
            n == inner@.len(),
            start <= i <= n,
            split_commas(inner@.take(i as int)).len() >= 1,
            split_commas(inner@.take(i as int)).last() == inner@.subrange(start as int, i as int),
            parse_raps(split_commas(inner@.take(i as int)).drop_last()) == Some(out@),
        decreases n - i,
    {
        proof {
            lemma_split_nonempty(inner@.take(i as int));
        }
        let ghost sp = split_commas(inner@.take(i as int));
        let c = inner.get_char(i);
        let ghost t1 = inner@.take(i + 1);
        assert(t1.drop_last() == inner@.take(i as int));
        assert(t1.last() == c);
        if c == ',' {
            let piece = strip_both(inner.substring_char(start, i), CharClass::Whitespace);
            match parse_decimal(piece, u32::MAX) {
                Some(x) => {
                    out.push(x);
                    assert(split_commas(t1) == sp.push(Seq::<char>::empty()));
                    assert(split_commas(t1).drop_last() == sp);
                    assert(sp == sp.drop_last().push(sp.last()));
                },
                None => {
                    proof {
                        assert(split_commas(t1) == sp.push(Seq::<char>::empty()));
                        lemma_split_prefix(inner@, i + 1, n as int);
                        assert(inner@.take(n as int) == inner@);
                        assert forall|j: int| 0 <= j < sp.len() implies split_commas(inner@)[j]
                            == sp[j] by {
                            assert(split_commas(t1)[j] == sp[j]);
                        }
                        lemma_parse_raps_prefix_fails(split_commas(inner@), sp);
                    }
                    return None;
                },
            }
            start = i + 1;
        } else {
            assert(split_commas(t1) == sp.update(sp.len() - 1, sp.last().push(c)));
            assert(split_commas(t1).drop_last() == sp.drop_last());
            assert(inner@.subrange(start as int, i + 1) == inner@.subrange(start as int, i as int).push(c));
        }
        i += 1;
    }
    assert(inner@.take(n as int) == inner@);
    proof {
        lemma_split_nonempty(inner@);
    }
    let ghost sp = split_commas(inner@);
    let piece = strip_both(inner.substring_char(start, n), CharClass::Whitespace);
    match parse_decimal(piece, u32::MAX) {
        Some(x) => {
            out.push(x);
            assert(sp == sp.drop_last().push(sp.last()));
            Some(out)
        },
        None => None,
    }
}

/// Once a prefix of the pieces (all but the last of `sp`) is followed by a
/// piece that does not read, the whole list does not read.
proof fn lemma_parse_raps_prefix_fails(all: Seq<Seq<char>>, sp: Seq<Seq<char>>)
    requires
        sp.len() >= 1,
        parse_rap(sp.last()) is None,
        sp.len() <= all.len(),
        forall|j: int| 0 <= j < sp.len() ==> all[j] == sp[j],
    ensures
        parse_raps(all) is None,
    decreases all.len(),
{
    if all.len() == sp.len() {
        assert(all.last() == sp.last());
    } else {
        let a0 = all.drop_last();
        assert forall|j: int| 0 <= j < sp.len() implies a0[j] == sp[j] by {
            assert(a0[j] == all[j]);
        }
        lemma_parse_raps_prefix_fails(a0, sp);
    }
}

impl TryFrom<String> for LongBreakPos {
    type Error = AppError;

    fn try_from(value: String) -> (r: Result<Self, Self::Error>)
        ensures
            match long_break_pos_from_text(value@) {
                Some(p) => r matches Ok(q) && q@ == p,
                None => r matches Err(AppError::TypeError(m)) && m@ == (if is_rap_list_text(value@) {
                    "Couldn't parse as Vec<u32>: "@
                } else {
                    "Couldn't parse as u32: "@
                }) + value@,
            },
    {
        let trimmed = strip_both(value.as_str(), CharClass::Whitespace);
        if trimmed.unicode_len() > 0 && trimmed.get_char(0) == '[' {
            let inner = strip_both(trimmed, CharClass::Bracket);
            match parse_rap_list(inner) {
                Some(v) => Ok(LongBreakPos::SpecificRap(v)),
                None => Err(AppError::TypeError(prefixed("Couldn't parse as Vec<u32>: ", value.as_str()))),
            }
        } else {
            match parse_decimal(trimmed, u32::MAX) {
                Some(n) => Ok(LongBreakPos::EveryRap(n)),
                None => Err(AppError::TypeError(prefixed("Couldn't parse as u32: ", value.as_str()))),
            }
        }
    }
}

impl From<LongBreakPos> for String {
    fn from(value: LongBreakPos) -> (r: String)
        ensures
            r@ == long_break_pos_text(value@),
    {
        match value {
            LongBreakPos::SpecificRap(raps) => {
                let mut s = String::new();
                push_char(&mut s, '[');
                let n = raps.len();
                let mut i: usize = 0;
                while i < n
                    invariant
                        n == raps@.len(),
                        i <= n,
                        s@ == seq!['['] + join_commas(rap_texts(raps@.take(i as int))),
                    decreases n - i,
                {
                    let ghost prev = rap_texts(raps@.take(i as int));
                    let ghost next = rap_texts(raps@.take(i + 1));
                    assert(next.drop_last() == prev);
                    assert(next.last() == decimal_text(raps@[i as int] as nat));
                    if i > 0 {
                        push_char(&mut s, ',');
                    }
                    push_decimal(&mut s, raps[i]);
                    if i == 0 {
                        assert(prev.len() == 0);
                        assert(join_commas(prev) =~= Seq::<char>::empty());
                        assert(next.len() == 1);
                    }
                    i += 1;
                }
                assert(raps@.take(n as int) == raps@);
                push_char(&mut s, ']');
                s
            },
            LongBreakPos::EveryRap(rap_n) => decimal_string(rap_n),
        }
    }
}

/// The volume multiplier of the sounds: 1 plays a file at its own volume;
/// the application accepts values from 0.2 to 5.0. The library carries the
/// number as the text that `f32`'s `Display` writes for it; reading the
/// number, checking its range and comparing volumes is done where floating
/// point is available.
#[derive(Debug)]
pub struct SoundVolume {
    text: String,
}

impl View for SoundVolume {
    type V = Seq<char>;

    closed spec fn view(&self) -> Seq<char> {
        self.text@
    }
}

impl Clone for SoundVolume {
    fn clone(&self) -> (r: Self)
        ensures
            r == *self,
    {
        SoundVolume { text: self.text.clone() }
    }
}

impl SoundVolume {
    /// The volume whose `f32` value `Display` writes as `text`.
    pub fn from_display_text(text: String) -> (r: Self)
        ensures
            r@ == text@,
    {
        SoundVolume { text }
    }

    /// The volume of the file itself (the multiplier 1).
    pub fn unit() -> (r: Self)
        ensures
            r@ == "1"@,
    {
        SoundVolume { text: String::from_str("1") }
    }

    /// The text that `f32`'s `Display` writes for the volume.
    pub fn display_text(&self) -> (r: &str)
        ensures
            r@ == self@,
    {
        self.text.as_str()
    }
}

impl From<SoundVolume> for String {
    fn from(value: SoundVolume) -> (r: String)
        ensures
            r@ == value@,
    {
        value.text
    }
}

/// The numbers of a list read back from their texts.
proof fn lemma_parse_rap_texts(v: Seq<u32>)
    ensures
        parse_raps(rap_texts(v)) == Some(v),
    decreases v.len(),
{
    if v.len() > 0 {
        lemma_parse_rap_texts(v.drop_last());
        assert(rap_texts(v).drop_last() == rap_texts(v.drop_last()));
        let x = v.last();
        assert(rap_texts(v).last() == decimal_text(x as nat));
        lemma_decimal_text_plain(x as nat);
        lemma_parse_decimal_text(x as nat, u32::MAX as nat);
        assert(v.drop_last().push(x) == v);
    }
}

/// Reading back the text of a long break position gives the position, for
/// every position but the empty list (whose text `[]` does not read).
pub proof fn lemma_long_break_pos_round_trip(p: LongBreakPosView)
    requires
        p matches LongBreakPosView::SpecificRap(v) ==> v.len() > 0,
    ensures
        long_break_pos_from_text(long_break_pos_text(p)) == Some(p),
{
    match p {
        LongBreakPosView::EveryRap(n) => {
            lemma_decimal_text_plain(n as nat);
            lemma_digit_not_stripped(decimal_text(n as nat)[0]);
            lemma_parse_decimal_text(n as nat, u32::MAX as nat);
        },
        LongBreakPosView::SpecificRap(v) => {
            let ps = rap_texts(v);
            assert forall|i: int| 0 <= i < ps.len() implies has_no_comma(#[trigger] ps[i]) && ps[i].len() > 0
                && is_ascii_digit(ps[i][0]) && is_ascii_digit(ps[i].last()) by {
                lemma_decimal_text_plain(v[i] as nat);
                lemma_decimal_text(v[i] as nat);
            }
            lemma_join_ends(ps);
            let j = join_commas(ps);
            assert(ps.last() == ps[ps.len() - 1]);
            lemma_digit_not_stripped(j[0]);
            lemma_digit_not_stripped(j.last());
            let t = seq!['['] + j + seq![']'];
            assert(t[0] == '[');
            assert(t.last() == ']');
            lemma_strip_noop(t, CharClass::Whitespace);
            assert(t.drop_first() == j + seq![']']);
            assert((j + seq![']'])[0] == j[0]);
            assert(strip_start(j + seq![']'], CharClass::Bracket) == j + seq![']']);
            assert(strip_start(t, CharClass::Bracket) == j + seq![']']);
            assert((j + seq![']']).drop_last() == j);
            assert(strip_end(j, CharClass::Bracket) == j);
            assert(strip(t, CharClass::Bracket) == j);
            lemma_split_join(ps);
            lemma_parse_rap_texts(v);
        },
    }
}

// The conversions above state their results in their own `ensures`;
// they make no claim through the generic conversion specifications.

impl TryFromSpecImpl<u8> for TimerMinute {
    open spec fn obeys_try_from_spec() -> bool {
        false
    }

    open spec fn try_from_spec(v: u8) -> Result<Self, AppError> {
        arbitrary()
    }
}

impl TryFromSpecImpl<String> for TimerMinute {
    open spec fn obeys_try_from_spec() -> bool {
        false
    }

    open spec fn try_from_spec(v: String) -> Result<Self, AppError> {
        arbitrary()
    }
}

impl FromSpecImpl<TimerMinute> for String {
    open spec fn obeys_from_spec() -> bool {
        false
    }

    open spec fn from_spec(v: TimerMinute) -> String {
        arbitrary()
    }
}

impl TryFromSpecImpl<String> for Rgb {
    open spec fn obeys_try_from_spec() -> bool {
        false
    }

    open spec fn try_from_spec(v: String) -> Result<Self, AppError> {
        arbitrary()
    }
}

impl FromSpecImpl<Rgb> for String {
    open spec fn obeys_from_spec() -> bool {
        false
    }

    open spec fn from_spec(v: Rgb) -> String {
        arbitrary()
    }
}

impl TryFromSpecImpl<String> for SoundFilePath {
    open spec fn obeys_try_from_spec() -> bool {
        false
    }

    open spec fn try_from_spec(v: String) -> Result<Self, AppError> {
        arbitrary()
    }
}

impl FromSpecImpl<SoundFilePath> for String {
    open spec fn obeys_from_spec() -> bool {
        false
    }

    open spec fn from_spec(v: SoundFilePath) -> String {
        arbitrary()
    }
}

impl TryFromSpecImpl<String> for LongBreakPos {
    open spec fn obeys_try_from_spec() -> bool {
        false
    }

    open spec fn try_from_spec(v: String) -> Result<Self, AppError> {
        arbitrary()
    }
}

impl FromSpecImpl<SoundVolume> for String {
    open spec fn obeys_from_spec() -> bool {
        false
    }

    open spec fn from_spec(v: SoundVolume) -> String {
        arbitrary()
    }
}

impl FromSpecImpl<LongBreakPos> for String {
    open spec fn obeys_from_spec() -> bool {
        false
    }

    open spec fn from_spec(v: LongBreakPos) -> String {
        arbitrary()
    }
}

impl<T> TryFromSpecImpl<String> for StringOpt<T> where
    T: TryFrom<String, Error = AppError> + Into<String> + Clone,
 {
    open spec fn obeys_try_from_spec() -> bool {
        false
    }

    open spec fn try_from_spec(v: String) -> Result<Self, AppError> {
        arbitrary()
    }
}

impl<T> FromSpecImpl<StringOpt<T>> for String where
    T: TryFrom<String, Error = AppError> + Into<String> + Clone,
 {
    open spec fn obeys_from_spec() -> bool {
        false
    }

    open spec fn from_spec(v: StringOpt<T>) -> String {
        arbitrary()
    }
}

} // verus!
