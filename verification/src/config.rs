use vstd::prelude::*;

use indexmap::IndexMap;

use crate::error::{prefixed, AppError};
use crate::string_map::{
    entries_insert, entry_lookup, entry_position, keys_unique, lemma_position_absent,
    lemma_position_of_entry, string_map_entries, string_map_get, string_map_insert, string_map_new,
};
use crate::text::{
    all_digits, decimal_text, hex_byte_text, is_ascii_digit, is_unicode_whitespace, join_commas, lemma_decimal_text,
    lemma_hex_char, lemma_parse_decimal_text, lemma_strip_noop, push_char, push_str, strip, strip_both, strip_end,
    strip_start, CharClass,
};
use crate::types::{
    lemma_long_break_pos_round_trip, lemma_rgb_round_trip, long_break_pos_from_text,
    long_break_pos_text, rap_texts, rgb_from_text, rgb_text, timer_minute_from_text, LongBreakPos,
    LongBreakPosView, Rgb, SoundFilePath, SoundVolume, StringOpt, TimerMinute,
};

verus! {

/// The configuration of the application.
pub struct AppConfig {
    pub work_font_color: Rgb,
    pub work_bg_color: Rgb,
    pub short_break_font_color: Rgb,
    pub short_break_bg_color: Rgb,
    pub long_break_font_color: Rgb,
    pub long_break_bg_color: Rgb,
    pub work_time: TimerMinute,
    pub short_break_time: TimerMinute,
    pub long_break_time: TimerMinute,
    pub long_break_pos: LongBreakPos,
    pub sound_break_to_work: StringOpt<SoundFilePath>,
    pub sound_work_to_break: StringOpt<SoundFilePath>,
    pub sound_volume: SoundVolume,
}

/// The mathematical form of an [`AppConfig`]: the sound files are their
/// paths (or nothing), the volume its text.
pub struct AppConfigView {
    pub work_font_color: Rgb,
    pub work_bg_color: Rgb,
    pub short_break_font_color: Rgb,
    pub short_break_bg_color: Rgb,
    pub long_break_font_color: Rgb,
    pub long_break_bg_color: Rgb,
    pub work_time: u8,
    pub short_break_time: u8,
    pub long_break_time: u8,
    pub long_break_pos: LongBreakPosView,
    pub sound_break_to_work: Option<Seq<char>>,
    pub sound_work_to_break: Option<Seq<char>>,
    pub sound_volume: Seq<char>,
}

/// The path of a sound file setting, or nothing.
pub open spec fn sound_setting_view(s: StringOpt<SoundFilePath>) -> Option<Seq<char>> {
    match s {
        StringOpt::Value(p) => Some(p@),
        StringOpt::Empty => None,
    }
}

impl View for AppConfig {
    type V = AppConfigView;

    open spec fn view(&self) -> AppConfigView {
        AppConfigView {
            work_font_color: self.work_font_color,
            work_bg_color: self.work_bg_color,
            short_break_font_color: self.short_break_font_color,
            short_break_bg_color: self.short_break_bg_color,
            long_break_font_color: self.long_break_font_color,
            long_break_bg_color: self.long_break_bg_color,
            work_time: self.work_time@,
            short_break_time: self.short_break_time@,
            long_break_time: self.long_break_time@,
            long_break_pos: self.long_break_pos@,
            sound_break_to_work: sound_setting_view(self.sound_break_to_work),
            sound_work_to_break: sound_setting_view(self.sound_work_to_break),
            sound_volume: self.sound_volume@,
        }
    }
}

/// A copy of a sound file setting.
pub fn clone_sound_setting(s: &StringOpt<SoundFilePath>) -> (r: StringOpt<SoundFilePath>)
    ensures
        sound_setting_view(r) == sound_setting_view(*s),
{
    match s {
        StringOpt::Value(p) => StringOpt::Value(p.clone()),
        StringOpt::Empty => StringOpt::Empty,
    }
}

impl Clone for AppConfig {
    fn clone(&self) -> (r: Self)
        ensures
            r@ == self@,
    {
        AppConfig {
            work_font_color: self.work_font_color,
            work_bg_color: self.work_bg_color,
            short_break_font_color: self.short_break_font_color,
            short_break_bg_color: self.short_break_bg_color,
            long_break_font_color: self.long_break_font_color,
            long_break_bg_color: self.long_break_bg_color,
            work_time: self.work_time,
            short_break_time: self.short_break_time,
            long_break_time: self.long_break_time,
            long_break_pos: self.long_break_pos.clone(),
            sound_break_to_work: clone_sound_setting(&self.sound_break_to_work),
            sound_work_to_break: clone_sound_setting(&self.sound_work_to_break),
            sound_volume: self.sound_volume.clone(),
        }
    }
}

/// The configuration that the application starts with.
pub open spec fn default_config() -> AppConfigView {
    AppConfigView {
        work_font_color: Rgb { r: 255, g: 255, b: 255 },
        work_bg_color: Rgb { r: 0, g: 0, b: 0 },
        short_break_font_color: Rgb { r: 255, g: 255, b: 255 },
        short_break_bg_color: Rgb { r: 0, g: 0, b: 0 },
        long_break_font_color: Rgb { r: 255, g: 255, b: 255 },
        long_break_bg_color: Rgb { r: 0, g: 0, b: 0 },
        work_time: 25,
        short_break_time: 10,
        long_break_time: 15,
        long_break_pos: LongBreakPosView::EveryRap(4),
        sound_break_to_work: None,
        sound_work_to_break: None,
        sound_volume: "1"@,
    }
}

impl Default for AppConfig {
    fn default() -> (r: Self)
        ensures
            r@ == default_config(),
    {
        AppConfig {
            work_font_color: Rgb { r: 255, g: 255, b: 255 },
            work_bg_color: Rgb { r: 0, g: 0, b: 0 },
            short_break_font_color: Rgb { r: 255, g: 255, b: 255 },
            short_break_bg_color: Rgb { r: 0, g: 0, b: 0 },
            long_break_font_color: Rgb { r: 255, g: 255, b: 255 },
            long_break_bg_color: Rgb { r: 0, g: 0, b: 0 },
            work_time: TimerMinute::with_minutes(25),
            short_break_time: TimerMinute::with_minutes(10),
            long_break_time: TimerMinute::with_minutes(15),
            long_break_pos: LongBreakPos::EveryRap(4),
            sound_break_to_work: StringOpt::Empty,
            sound_work_to_break: StringOpt::Empty,
            sound_volume: SoundVolume::unit(),
        }
    }
}

/// The keys of the configuration file, in the order in which they are
/// written.
pub open spec fn config_key(i: int) -> Seq<char> {
    if i == 0 { "work_font_color"@ }
    else if i == 1 { "work_bg_color"@ }
    else if i == 2 { "short_break_font_color"@ }
    else if i == 3 { "short_break_bg_color"@ }
    else if i == 4 { "long_break_font_color"@ }
    else if i == 5 { "long_break_bg_color"@ }
    else if i == 6 { "work_time"@ }
    else if i == 7 { "short_break_time"@ }
    else if i == 8 { "long_break_time"@ }
    else if i == 9 { "long_break_pos"@ }
    else if i == 10 { "sound_break_to_work"@ }
    else if i == 11 { "sound_work_to_break"@ }
    else { "sound_volume"@ }
}

/// The number of settings.
pub const CONFIG_KEY_COUNT: usize = 13;

/// The text of a sound file setting: its path, or the empty text.
pub open spec fn sound_setting_text(s: Option<Seq<char>>) -> Seq<char> {
    match s {
        Some(p) => p,
        None => Seq::<char>::empty(),
    }
}

/// The text of each setting, in the order of [`config_key`].
pub open spec fn config_value_text(c: AppConfigView, i: int) -> Seq<char> {
    if i == 0 { rgb_text(c.work_font_color) }
    else if i == 1 { rgb_text(c.work_bg_color) }
    else if i == 2 { rgb_text(c.short_break_font_color) }
    else if i == 3 { rgb_text(c.short_break_bg_color) }
    else if i == 4 { rgb_text(c.long_break_font_color) }
    else if i == 5 { rgb_text(c.long_break_bg_color) }
    else if i == 6 { decimal_text(c.work_time as nat) }
    else if i == 7 { decimal_text(c.short_break_time as nat) }
    else if i == 8 { decimal_text(c.long_break_time as nat) }
    else if i == 9 { long_break_pos_text(c.long_break_pos) }
    else if i == 10 { sound_setting_text(c.sound_break_to_work) }
    else if i == 11 { sound_setting_text(c.sound_work_to_break) }
    else { c.sound_volume }
}

/// The entries of the configuration file of a configuration.
pub open spec fn config_entries(c: AppConfigView) -> Seq<(Seq<char>, Seq<char>)> {
    Seq::new(13, |i: int| (config_key(i), config_value_text(c, i)))
}

/// No two settings have the same key.
pub proof fn lemma_config_keys_distinct()
    ensures
        forall|i: int, j: int| 0 <= i < j < 13 ==> #[trigger] config_key(i) != #[trigger] config_key(j),
{
    reveal_strlit("work_font_color");
    reveal_strlit("work_bg_color");
    reveal_strlit("short_break_font_color");
    reveal_strlit("short_break_bg_color");
    reveal_strlit("long_break_font_color");
    reveal_strlit("long_break_bg_color");
    reveal_strlit("work_time");
    reveal_strlit("short_break_time");
    reveal_strlit("long_break_time");
    reveal_strlit("long_break_pos");
    reveal_strlit("sound_break_to_work");
    reveal_strlit("sound_work_to_break");
    reveal_strlit("sound_volume");
    assert forall|i: int, j: int| 0 <= i < j < 13 implies #[trigger] config_key(i) != #[trigger] config_key(j) by {
        if config_key(i).len() == config_key(j).len() {
            assert(config_key(i)[0] != config_key(j)[0] || config_key(i)[6] != config_key(j)[6]);
        }
    }
}

/// The first `n` keys do not include key `n`.
proof fn lemma_fresh_key(c: AppConfigView, n: int)
    requires
        0 <= n < 13,
    ensures
        forall|i: int| 0 <= i < config_entries(c).take(n).len() ==> #[trigger] config_entries(c).take(n)[i].0 != config_key(n),
        keys_unique(config_entries(c).take(n + 1)),
{
    lemma_config_keys_distinct();
    assert forall|i: int| 0 <= i < config_entries(c).take(n).len() implies #[trigger] config_entries(c).take(n)[i].0 != config_key(n) by {
        assert(config_entries(c).take(n)[i].0 == config_key(i));
        assert(config_key(i) != config_key(n));
    }
    let e = config_entries(c).take(n + 1);
    assert forall|a: int, b: int| 0 <= a < b < e.len() implies #[trigger] e[a].0 != #[trigger] e[b].0 by {
        assert(e[a].0 == config_key(a));
        assert(e[b].0 == config_key(b));
        assert(config_key(a) != config_key(b));
    }
}

/// Inserts a key that the map does not hold yet.
fn insert_new(m: &mut IndexMap<String, String>, k: &str, v: String)
    requires
        keys_unique(string_map_entries(*old(m))),
        forall|i: int| 0 <= i < string_map_entries(*old(m)).len() ==> #[trigger] string_map_entries(*old(m))[i].0 != k@,
    ensures
        string_map_entries(*final(m)) == string_map_entries(*old(m)).push((k@, v@)),
        keys_unique(string_map_entries(*final(m))),
{
    proof {
        lemma_position_absent(string_map_entries(*m), k@);
    }
    let _ = string_map_insert(m, String::from_str(k), v);
}

impl AppConfig {
    /// The settings as (key, value) texts, in the order of the
    /// configuration file.
    pub fn string_map(&self) -> (r: IndexMap<String, String>)
        ensures
            string_map_entries(r) == config_entries(self@),
            keys_unique(string_map_entries(r)),
    {
        proof {
            lemma_config_keys_distinct();
        }
        let mut map = string_map_new();
        let ghost e = config_entries(self@);
        assert(string_map_entries(map) == e.take(0));
        proof {
            lemma_fresh_key(self@, 0);
        }
        insert_new(&mut map, "work_font_color", String::from(self.work_font_color));
        assert(string_map_entries(map) == e.take(1));
        proof {
            lemma_fresh_key(self@, 1);
        }
        insert_new(&mut map, "work_bg_color", String::from(self.work_bg_color));
        assert(string_map_entries(map) == e.take(2));
        proof {
            lemma_fresh_key(self@, 2);
        }
        insert_new(&mut map, "short_break_font_color", String::from(self.short_break_font_color));
        assert(string_map_entries(map) == e.take(3));
        proof {
            lemma_fresh_key(self@, 3);
        }
        insert_new(&mut map, "short_break_bg_color", String::from(self.short_break_bg_color));
        assert(string_map_entries(map) == e.take(4));
        proof {
            lemma_fresh_key(self@, 4);
        }
        insert_new(&mut map, "long_break_font_color", String::from(self.long_break_font_color));
        assert(string_map_entries(map) == e.take(5));
        proof {
            lemma_fresh_key(self@, 5);
        }
        insert_new(&mut map, "long_break_bg_color", String::from(self.long_break_bg_color));
        assert(string_map_entries(map) == e.take(6));
        proof {
            lemma_fresh_key(self@, 6);
        }
        insert_new(&mut map, "work_time", String::from(self.work_time));
        assert(string_map_entries(map) == e.take(7));
        proof {
            lemma_fresh_key(self@, 7);
        }
        insert_new(&mut map, "short_break_time", String::from(self.short_break_time));
        assert(string_map_entries(map) == e.take(8));
        proof {
            lemma_fresh_key(self@, 8);
        }
        insert_new(&mut map, "long_break_time", String::from(self.long_break_time));
        assert(string_map_entries(map) == e.take(9));
        proof {
            lemma_fresh_key(self@, 9);
        }
        insert_new(&mut map, "long_break_pos", String::from(self.long_break_pos.clone()));
        assert(string_map_entries(map) == e.take(10));
        proof {
            lemma_fresh_key(self@, 10);
        }
        insert_new(&mut map, "sound_break_to_work", sound_setting_string(&self.sound_break_to_work));
        assert(string_map_entries(map) == e.take(11));
        proof {
            lemma_fresh_key(self@, 11);
        }
        insert_new(&mut map, "sound_work_to_break", sound_setting_string(&self.sound_work_to_break));
        assert(string_map_entries(map) == e.take(12));
        proof {
            lemma_fresh_key(self@, 12);
        }
        insert_new(&mut map, "sound_volume", String::from(self.sound_volume.clone()));
        assert(string_map_entries(map) == e.take(13));
        assert(e.take(13) == e);
        map
    }
}

/// The text of setting `i` in the entries.
pub open spec fn setting_text(e: Seq<(Seq<char>, Seq<char>)>, i: int) -> Option<Seq<char>> {
    entry_lookup(e, config_key(i))
}

/// Whether every setting is present.
pub open spec fn all_settings_present(e: Seq<(Seq<char>, Seq<char>)>) -> bool {
    forall|i: int| 0 <= i < 13 ==> #[trigger] setting_text(e, i) is Some
}

/// The sound file setting that a text stands for, as a path or nothing.
pub open spec fn sound_setting_of_text(t: Seq<char>) -> Option<Seq<char>> {
    if t.len() == 0 {
        None
    } else {
        Some(t)
    }
}

/// Whether every setting is present and every setting but the sound files
/// and the volume reads.
pub open spec fn plain_settings_read(e: Seq<(Seq<char>, Seq<char>)>) -> bool {
    &&& all_settings_present(e)
    &&& forall|i: int| 0 <= i < 6 ==> rgb_from_text(#[trigger] setting_text(e, i).unwrap()) is Some
    &&& forall|i: int| 6 <= i < 9 ==> timer_minute_from_text(#[trigger] setting_text(e, i).unwrap()) is Some
    &&& long_break_pos_from_text(setting_text(e, 9).unwrap()) is Some
}

/// Whether a configuration is what the entries say, but for the volume.
pub open spec fn config_read_from(c: AppConfigView, e: Seq<(Seq<char>, Seq<char>)>) -> bool {
    &&& plain_settings_read(e)
    &&& Some(c.work_font_color) == rgb_from_text(setting_text(e, 0).unwrap())
    &&& Some(c.work_bg_color) == rgb_from_text(setting_text(e, 1).unwrap())
    &&& Some(c.short_break_font_color) == rgb_from_text(setting_text(e, 2).unwrap())
    &&& Some(c.short_break_bg_color) == rgb_from_text(setting_text(e, 3).unwrap())
    &&& Some(c.long_break_font_color) == rgb_from_text(setting_text(e, 4).unwrap())
    &&& Some(c.long_break_bg_color) == rgb_from_text(setting_text(e, 5).unwrap())
    &&& Some(c.work_time) == timer_minute_from_text(setting_text(e, 6).unwrap())
    &&& Some(c.short_break_time) == timer_minute_from_text(setting_text(e, 7).unwrap())
    &&& Some(c.long_break_time) == timer_minute_from_text(setting_text(e, 8).unwrap())
    &&& Some(c.long_break_pos) == long_break_pos_from_text(setting_text(e, 9).unwrap())
    &&& c.sound_break_to_work == sound_setting_of_text(setting_text(e, 10).unwrap())
    &&& c.sound_work_to_break == sound_setting_of_text(setting_text(e, 11).unwrap())
}

/// Whether setting `i` (one of those before the sound files) is present
/// and reads.
pub open spec fn setting_reads(e: Seq<(Seq<char>, Seq<char>)>, i: int) -> bool {
    &&& setting_text(e, i) is Some
    &&& if i < 6 {
        rgb_from_text(setting_text(e, i).unwrap()) is Some
    } else if i < 9 {
        timer_minute_from_text(setting_text(e, i).unwrap()) is Some
    } else {
        long_break_pos_from_text(setting_text(e, i).unwrap()) is Some
    }
}

/// Whether the settings before `i` are present and read.
pub open spec fn settings_read_before(e: Seq<(Seq<char>, Seq<char>)>, i: int) -> bool {
    forall|j: int| 0 <= j < i ==> #[trigger] setting_reads(e, j)
}

/// The message for a setting that the map lacks.
pub open spec fn missing_setting_message() -> Seq<char> {
    "Could'nt get value from string map."@
}

/// Where the settings before `k` read and setting `k` is missing or does
/// not read, `k` is the first setting that fails.
proof fn lemma_first_unread(e: Seq<(Seq<char>, Seq<char>)>, k: int)
    requires
        0 <= k <= 10,
        settings_read_before(e, k),
        k < 10 ==> !setting_reads(e, k),
        k == 10 ==> setting_text(e, 10) is None,
    ensures
        forall|i: int|
            0 <= i <= 10 && settings_read_before(e, i) && #[trigger] setting_text(e, i) is None ==> i == k,
        forall|i: int|
            0 <= i < 10 && settings_read_before(e, i) && setting_text(e, i) is Some && !#[trigger] setting_reads(e, i)
                ==> i == k,
        k < 10 ==> !settings_read_before(e, 10),
{
    if k < 10 && settings_read_before(e, 10) {
        assert(setting_reads(e, k));
    }
    assert forall|i: int|
        0 <= i <= 10 && settings_read_before(e, i) && #[trigger] setting_text(e, i) is None implies i == k by {
        if i < k {
            assert(setting_reads(e, i));
        } else if i > k {
            assert(setting_reads(e, k));
        }
    }
    assert forall|i: int|
        0 <= i < 10 && settings_read_before(e, i) && setting_text(e, i) is Some && !#[trigger] setting_reads(e, i)
            implies i == k by {
        if i < k {
            assert(setting_reads(e, i));
        } else if i > k {
            assert(setting_reads(e, k));
        }
    }
}

/// Where the settings before the sound files read and the first sound file
/// setting is present, no setting before it fails.
proof fn lemma_all_read(e: Seq<(Seq<char>, Seq<char>)>)
    requires
        settings_read_before(e, 10),
        setting_text(e, 10) is Some,
    ensures
        forall|i: int| 0 <= i <= 10 && settings_read_before(e, i) ==> #[trigger] setting_text(e, i) is Some,
        forall|i: int| 0 <= i < 10 ==> #[trigger] setting_reads(e, i),
{
    assert forall|i: int| 0 <= i < 10 implies #[trigger] setting_reads(e, i) by {
    }
    assert forall|i: int| 0 <= i <= 10 && settings_read_before(e, i) implies #[trigger] setting_text(e, i) is Some by {
        if i < 10 {
            assert(setting_reads(e, i));
        }
    }
}

/// The text of the setting of key `k`.
fn setting_string(m: &IndexMap<String, String>, k: &str) -> (r: Result<String, AppError>)
    ensures
        match entry_lookup(string_map_entries(*m), k@) {
            Some(t) => r matches Ok(s) && s@ == t,
            None => r matches Err(AppError::CustomError(msg)) && msg@ == missing_setting_message(),
        },
{
    match string_map_get(m, k) {
        Some(v) => Ok(v),
        None => Err(AppError::CustomError(String::from_str("Could'nt get value from string map."))),
    }
}

impl AppConfig {
    /// Reads a configuration from its (key, value) texts. The volume is read
    /// by `volume_from_text`, which works on floating point numbers.
    #[verifier::rlimit(40)]
    pub fn try_from_string_map<F: Fn(String) -> Result<SoundVolume, AppError>>(
        string_map: IndexMap<String, String>,
        volume_from_text: F,
    ) -> (r: Result<Self, AppError>)
        requires
            forall|t: String| volume_from_text.requires((t,)),
        ensures
            r matches Ok(c) ==> config_read_from(c@, string_map_entries(string_map)) && exists|t: String|
                t@ == setting_text(string_map_entries(string_map), 12).unwrap() && #[trigger] volume_from_text.ensures(
                    (t,),
                    Ok::<SoundVolume, AppError>(c.sound_volume),
                ),
            !plain_settings_read(string_map_entries(string_map)) ==> r is Err,
            forall|i: int|
                0 <= i <= 10 && settings_read_before(string_map_entries(string_map), i) && #[trigger] setting_text(
                    string_map_entries(string_map),
                    i,
                ) is None ==> (r matches Err(AppError::CustomError(m)) && m@ == missing_setting_message()),
            forall|i: int|
                0 <= i < 10 && settings_read_before(string_map_entries(string_map), i) && setting_text(
                    string_map_entries(string_map),
                    i,
                ) is Some && !#[trigger] setting_reads(string_map_entries(string_map), i) ==> r matches Err(
                    AppError::TypeError(_),
                ),
            settings_read_before(string_map_entries(string_map), 10) && setting_text(string_map_entries(string_map), 10)
                is Some && setting_text(string_map_entries(string_map), 11) is None ==> ((r matches Err(
                AppError::CustomError(m),
            ) && m@ == missing_setting_message()) || (setting_text(string_map_entries(string_map), 10).unwrap().len()
                > 0 && r matches Err(AppError::TypeError(_)))),
            settings_read_before(string_map_entries(string_map), 10) && setting_text(string_map_entries(string_map), 10)
                is Some && setting_text(string_map_entries(string_map), 11) is Some && setting_text(
                string_map_entries(string_map),
                12,
            ) is None ==> ((r matches Err(AppError::CustomError(m)) && m@ == missing_setting_message()) || ((setting_text(
                string_map_entries(string_map),
                10,
            ).unwrap().len() > 0 || setting_text(string_map_entries(string_map), 11).unwrap().len() > 0) && r matches Err(
                AppError::TypeError(_),
            ))),
            plain_settings_read(string_map_entries(string_map)) && setting_text(
                string_map_entries(string_map),
                10,
            ).unwrap().len() == 0 && setting_text(string_map_entries(string_map), 11).unwrap().len()
                == 0 ==> (r is Ok || exists|t: String, er: AppError|
                t@ == setting_text(string_map_entries(string_map), 12).unwrap() && r == Err::<AppConfig, AppError>(er)
                    && #[trigger] volume_from_text.ensures((t,), Err::<SoundVolume, AppError>(er))),
    {
        let ghost e = string_map_entries(string_map);
        let m = &string_map;
        let t = match setting_string(m, "work_font_color") {
            Ok(t) => t,
            Err(er) => {
                assert(setting_text(e, 0) is None);
                proof {
                    lemma_first_unread(e, 0);
                }
                return Err(er);
            },
        };
        assert(setting_text(e, 0) == Some(t@));
        let work_font_color = match Rgb::try_from(t) {
            Ok(v) => v,
            Err(er) => {
                assert(rgb_from_text(setting_text(e, 0).unwrap()) is None);
                proof {
                    lemma_first_unread(e, 0);
                }
                return Err(er);
            },
        };
        assert(setting_reads(e, 0));
        let t = match setting_string(m, "work_bg_color") {
            Ok(t) => t,
            Err(er) => {
                assert(setting_text(e, 1) is None);
                proof {
                    lemma_first_unread(e, 1);
                }
                return Err(er);
            },
        };
        assert(setting_text(e, 1) == Some(t@));
        let work_bg_color = match Rgb::try_from(t) {
            Ok(v) => v,
            Err(er) => {
                assert(rgb_from_text(setting_text(e, 1).unwrap()) is None);
                proof {
                    lemma_first_unread(e, 1);
                }
                return Err(er);
            },
        };
        assert(setting_reads(e, 1));
        let t = match setting_string(m, "short_break_font_color") {
            Ok(t) => t,
            Err(er) => {
                assert(setting_text(e, 2) is None);
                proof {
                    lemma_first_unread(e, 2);
                }
                return Err(er);
            },
        };
        assert(setting_text(e, 2) == Some(t@));
        let short_break_font_color = match Rgb::try_from(t) {
            Ok(v) => v,
            Err(er) => {
                assert(rgb_from_text(setting_text(e, 2).unwrap()) is None);
                proof {
                    lemma_first_unread(e, 2);
                }
                return Err(er);
            },
        };
        assert(setting_reads(e, 2));
        let t = match setting_string(m, "short_break_bg_color") {
            Ok(t) => t,
            Err(er) => {
                assert(setting_text(e, 3) is None);
                proof {
                    lemma_first_unread(e, 3);
                }
                return Err(er);
            },
        };
        assert(setting_text(e, 3) == Some(t@));
        let short_break_bg_color = match Rgb::try_from(t) {
            Ok(v) => v,
            Err(er) => {
                assert(rgb_from_text(setting_text(e, 3).unwrap()) is None);
                proof {
                    lemma_first_unread(e, 3);
                }
                return Err(er);
            },
        };
        assert(setting_reads(e, 3));
        let t = match setting_string(m, "long_break_font_color") {
            Ok(t) => t,
            Err(er) => {
                assert(setting_text(e, 4) is None);
                proof {
                    lemma_first_unread(e, 4);
                }
                return Err(er);
            },
        };
        assert(setting_text(e, 4) == Some(t@));
        let long_break_font_color = match Rgb::try_from(t) {
            Ok(v) => v,
            Err(er) => {
                assert(rgb_from_text(setting_text(e, 4).unwrap()) is None);
                proof {
                    lemma_first_unread(e, 4);
                }
                return Err(er);
            },
        };
        assert(setting_reads(e, 4));
        let t = match setting_string(m, "long_break_bg_color") {
            Ok(t) => t,
            Err(er) => {
                assert(setting_text(e, 5) is None);
                proof {
                    lemma_first_unread(e, 5);
                }
                return Err(er);
            },
        };
        assert(setting_text(e, 5) == Some(t@));
        let long_break_bg_color = match Rgb::try_from(t) {
            Ok(v) => v,
            Err(er) => {
                assert(rgb_from_text(setting_text(e, 5).unwrap()) is None);
                proof {
                    lemma_first_unread(e, 5);
                }
                return Err(er);
            },
        };
        assert(setting_reads(e, 5));
        let t = match setting_string(m, "work_time") {
            Ok(t) => t,
            Err(er) => {
                assert(setting_text(e, 6) is None);
                proof {
                    lemma_first_unread(e, 6);
                }
                return Err(er);
            },
        };
        assert(setting_text(e, 6) == Some(t@));
        let work_time = match TimerMinute::try_from(t) {
            Ok(v) => v,
            Err(er) => {
                assert(timer_minute_from_text(setting_text(e, 6).unwrap()) is None);
                proof {
                    lemma_first_unread(e, 6);
                }
                return Err(er);
            },
        };
        assert(setting_reads(e, 6));
        let t = match setting_string(m, "short_break_time") {
            Ok(t) => t,
            Err(er) => {
                assert(setting_text(e, 7) is None);
                proof {
                    lemma_first_unread(e, 7);
                }
                return Err(er);
            },
        };
        assert(setting_text(e, 7) == Some(t@));
        let short_break_time = match TimerMinute::try_from(t) {
            Ok(v) => v,
            Err(er) => {
                assert(timer_minute_from_text(setting_text(e, 7).unwrap()) is None);
                proof {
                    lemma_first_unread(e, 7);
                }
                return Err(er);
            },
        };
        assert(setting_reads(e, 7));
        let t = match setting_string(m, "long_break_time") {
            Ok(t) => t,
            Err(er) => {
                assert(setting_text(e, 8) is None);
                proof {
                    lemma_first_unread(e, 8);
                }
                return Err(er);
            },
        };
        assert(setting_text(e, 8) == Some(t@));
        let long_break_time = match TimerMinute::try_from(t) {
            Ok(v) => v,
            Err(er) => {
                assert(timer_minute_from_text(setting_text(e, 8).unwrap()) is None);
                proof {
                    lemma_first_unread(e, 8);
                }
                return Err(er);
            },
        };
        assert(setting_reads(e, 8));
        let t = match setting_string(m, "long_break_pos") {
            Ok(t) => t,
            Err(er) => {
                assert(setting_text(e, 9) is None);
                proof {
                    lemma_first_unread(e, 9);
                }
                return Err(er);
            },
        };
        assert(setting_text(e, 9) == Some(t@));
        let long_break_pos = match LongBreakPos::try_from(t) {
            Ok(v) => v,
            Err(er) => {
                assert(long_break_pos_from_text(setting_text(e, 9).unwrap()) is None);
                proof {
                    lemma_first_unread(e, 9);
                }
                return Err(er);
            },
        };
        assert(setting_reads(e, 9));
        let t = match setting_string(m, "sound_break_to_work") {
            Ok(t) => t,
            Err(er) => {
                assert(setting_text(e, 10) is None);
                proof {
                    lemma_first_unread(e, 10);
                }
                return Err(er);
            },
        };
        assert(setting_text(e, 10) == Some(t@));
        assert(settings_read_before(e, 10));
        proof {
            lemma_all_read(e);
        }
        let sound_break_to_work = match read_sound_setting(t) {
            Ok(v) => v,
            Err(er) => return Err(er),
        };
        let t = match setting_string(m, "sound_work_to_break") {
            Ok(t) => t,
            Err(er) => {
                assert(setting_text(e, 11) is None);
                return Err(er);
            },
        };
        assert(setting_text(e, 11) == Some(t@));
        let sound_work_to_break = match read_sound_setting(t) {
            Ok(v) => v,
            Err(er) => return Err(er),
        };
        let t = match setting_string(m, "sound_volume") {
            Ok(t) => t,
            Err(er) => {
                assert(setting_text(e, 12) is None);
                return Err(er);
            },
        };
        assert(setting_text(e, 12) == Some(t@));
        let ghost vt = t;
        let vr = volume_from_text(t);
        let sound_volume = match vr { Ok(v) => v, Err(er) => return Err(er) };
        let c = AppConfig {
            work_font_color,
            work_bg_color,
            short_break_font_color,
            short_break_bg_color,
            long_break_font_color,
            long_break_bg_color,
            work_time,
            short_break_time,
            long_break_time,
            long_break_pos,
            sound_break_to_work,
            sound_work_to_break,
            sound_volume,
        };
        Ok(c)
    }
}

/// Reads a sound file setting: the empty text is no file; any other text is
/// a path that must name an existing WAV file.
pub fn read_sound_setting(t: String) -> (r: Result<StringOpt<SoundFilePath>, AppError>)
    ensures
        r matches Ok(s) ==> sound_setting_view(s) == sound_setting_of_text(t@),
        r matches Err(e) ==> e is TypeError,
        t@.len() == 0 ==> r is Ok,
{
    if t.as_str().unicode_len() == 0 {
        return Ok(StringOpt::Empty);
    }
    match SoundFilePath::try_from(t) {
        Ok(p) => Ok(StringOpt::Value(p)),
        Err(er) => Err(er),
    }
}

/// Whether two configurations agree on everything but the volume.
pub open spec fn same_but_volume(a: AppConfigView, b: AppConfigView) -> bool {
    &&& a.work_font_color == b.work_font_color
    &&& a.work_bg_color == b.work_bg_color
    &&& a.short_break_font_color == b.short_break_font_color
    &&& a.short_break_bg_color == b.short_break_bg_color
    &&& a.long_break_font_color == b.long_break_font_color
    &&& a.long_break_bg_color == b.long_break_bg_color
    &&& a.work_time == b.work_time
    &&& a.short_break_time == b.short_break_time
    &&& a.long_break_time == b.long_break_time
    &&& a.long_break_pos == b.long_break_pos
    &&& a.sound_break_to_work == b.sound_break_to_work
    &&& a.sound_work_to_break == b.sound_work_to_break
}

/// Reading back the settings that [`AppConfig::string_map`] writes gives
/// the configuration back, but for the volume, whose text is handed to the
/// volume reader unchanged. This holds for every configuration whose times
/// are below 100 and whose long break list is not empty (the text `[]` of an
/// empty list does not read).
#[verifier::spinoff_prover]
#[verifier::rlimit(40)]
pub proof fn lemma_config_map_round_trip(c: AppConfigView)
    requires
        c.work_time < 100,
        c.short_break_time < 100,
        c.long_break_time < 100,
        c.long_break_pos matches LongBreakPosView::SpecificRap(v) ==> v.len() > 0,
        c.sound_break_to_work matches Some(p) ==> p.len() > 0,
        c.sound_work_to_break matches Some(p) ==> p.len() > 0,
    ensures
        plain_settings_read(config_entries(c)),
        setting_text(config_entries(c), 12) == Some(c.sound_volume),
        forall|d: AppConfigView| #[trigger] config_read_from(d, config_entries(c)) ==> same_but_volume(d, c),
{
    let e = config_entries(c);
    lemma_fresh_key(c, 12);
    assert(e.take(13) == e);
    assert forall|i: int| 0 <= i < 13 implies #[trigger] setting_text(e, i) == Some(config_value_text(c, i)) by {
        lemma_position_of_entry(e, i);
        assert(e[i].0 == config_key(i));
    }
    assert(setting_text(e, 0) == Some(config_value_text(c, 0)));
    assert(setting_text(e, 1) == Some(config_value_text(c, 1)));
    assert(setting_text(e, 2) == Some(config_value_text(c, 2)));
    assert(setting_text(e, 3) == Some(config_value_text(c, 3)));
    assert(setting_text(e, 4) == Some(config_value_text(c, 4)));
    assert(setting_text(e, 5) == Some(config_value_text(c, 5)));
    assert(setting_text(e, 6) == Some(config_value_text(c, 6)));
    assert(setting_text(e, 7) == Some(config_value_text(c, 7)));
    assert(setting_text(e, 8) == Some(config_value_text(c, 8)));
    assert(setting_text(e, 9) == Some(config_value_text(c, 9)));
    assert(setting_text(e, 10) == Some(config_value_text(c, 10)));
    assert(setting_text(e, 11) == Some(config_value_text(c, 11)));
    assert(setting_text(e, 12) == Some(config_value_text(c, 12)));
    lemma_rgb_round_trip(c.work_font_color);
    lemma_rgb_round_trip(c.work_bg_color);
    lemma_rgb_round_trip(c.short_break_font_color);
    lemma_rgb_round_trip(c.short_break_bg_color);
    lemma_rgb_round_trip(c.long_break_font_color);
    lemma_rgb_round_trip(c.long_break_bg_color);
    lemma_parse_decimal_text(c.work_time as nat, 255);
    lemma_parse_decimal_text(c.short_break_time as nat, 255);
    lemma_parse_decimal_text(c.long_break_time as nat, 255);
    lemma_long_break_pos_round_trip(c.long_break_pos);
    assert(all_settings_present(e));
    assert forall|i: int| 0 <= i < 6 implies rgb_from_text(#[trigger] setting_text(e, i).unwrap()) is Some by {
        assert(setting_text(e, i) == Some(config_value_text(c, i)));
    }
    assert forall|i: int| 6 <= i < 9 implies timer_minute_from_text(#[trigger] setting_text(e, i).unwrap()) is Some by {
        assert(setting_text(e, i) == Some(config_value_text(c, i)));
    }
    assert(sound_setting_of_text(sound_setting_text(c.sound_break_to_work)) == c.sound_break_to_work);
    assert(sound_setting_of_text(sound_setting_text(c.sound_work_to_break)) == c.sound_work_to_break);
}

/// The position of the first `c` in `s` at or after `start`, or the length
/// of `s` when there is none.
pub open spec fn index_of_from(s: Seq<char>, c: char, start: int) -> int
    decreases s.len() - start,
{
    if start >= s.len() || start < 0 {
        s.len() as int
    } else if s[start] == c {
        start
    } else {
        index_of_from(s, c, start + 1)
    }
}

/// The (key, value) of a line of the configuration file: without the
/// whitespace around the line, the part before the first `=` and the part
/// between the first and the second `=` (or the end), each without the
/// whitespace around it; nothing when the line has no `=`.
pub open spec fn config_line_entry(line: Seq<char>) -> Option<(Seq<char>, Seq<char>)> {
    let t = strip(line, CharClass::Whitespace);
    let a = index_of_from(t, '=', 0);
    if a >= t.len() {
        None
    } else {
        let b = index_of_from(t, '=', a + 1);
        Some((strip(t.subrange(0, a), CharClass::Whitespace), strip(t.subrange(a + 1, b), CharClass::Whitespace)))
    }
}

/// The entries of the lines of a configuration file, later lines taking
/// the place of earlier ones with the same key; nothing when a line has no
/// `=`.
pub open spec fn lines_entries(ls: Seq<Seq<char>>) -> Option<Seq<(Seq<char>, Seq<char>)>>
    decreases ls.len(),
{
    if ls.len() == 0 {
        Some(Seq::empty())
    } else {
        match (lines_entries(ls.drop_last()), config_line_entry(ls.last())) {
            (Some(e), Some(kv)) => Some(entries_insert(e, kv.0, kv.1)),
            _ => None,
        }
    }
}

/// The message for a line without `=`.
pub open spec fn invalid_config_message() -> Seq<char> {
    "Invalid config file."@
}

/// The position of the first `c` in `s` at or after `start`.
fn find_char(s: &str, c: char, start: usize) -> (r: usize)
    requires
        start <= s@.len(),
    ensures
        r == index_of_from(s@, c, start as int),
        start <= r <= s@.len(),
{
    let n = s.unicode_len();
    let mut i = start;
    while i < n
        invariant
            n == s@.len(),
            start <= i <= n,
            index_of_from(s@, c, start as int) == index_of_from(s@, c, i as int),
        decreases n - i,
    {
        if s.get_char(i) == c {
            return i;
        }
        i += 1;
    }
    i
}

/// Reads one line of a configuration file as (key, value).
pub fn parse_config_line(line: &str) -> (r: Result<(String, String), AppError>)
    ensures
        match config_line_entry(line@) {
            Some(kv) => r matches Ok(p) && p.0@ == kv.0 && p.1@ == kv.1,
            None => r matches Err(AppError::CustomError(m)) && m@ == invalid_config_message(),
        },
{
    let t = strip_both(line, CharClass::Whitespace);
    let n = t.unicode_len();
    let a = find_char(t, '=', 0);
    if a >= n {
        return Err(AppError::CustomError(String::from_str("Invalid config file.")));
    }
    let b = find_char(t, '=', a + 1);
    let key = strip_both(t.substring_char(0, a), CharClass::Whitespace);
    let value = strip_both(t.substring_char(a + 1, b), CharClass::Whitespace);
    Ok((String::from_str(key), String::from_str(value)))
}

/// The texts of lines.
pub open spec fn line_texts(lines: Seq<String>) -> Seq<Seq<char>> {
    lines.map_values(|l: String| l@)
}

/// Reads the lines of a configuration file into (key, value) texts.
pub fn parse_config_lines(lines: &Vec<String>) -> (r: Result<IndexMap<String, String>, AppError>)
    ensures
        match lines_entries(line_texts(lines@)) {
            Some(e) => r matches Ok(m) && string_map_entries(m) == e,
            None => r matches Err(AppError::CustomError(msg)) && msg@ == invalid_config_message(),
        },
{
    let mut map = string_map_new();
    let n = lines.len();
    for i in 0..n
        invariant
            n == lines@.len(),
            lines_entries(line_texts(lines@.take(i as int))) == Some(string_map_entries(map)),
    {
        assert(line_texts(lines@.take(i + 1)).drop_last() == line_texts(lines@.take(i as int)));
        assert(line_texts(lines@.take(i + 1)).last() == lines@[i as int]@);
        match parse_config_line(lines[i].as_str()) {
            Ok((k, v)) => {
                let _ = string_map_insert(&mut map, k, v);
            },
            Err(er) => {
                proof {
                    lemma_lines_entries_prefix_fails(line_texts(lines@), (i + 1) as int);
                    assert(line_texts(lines@).take(i + 1) == line_texts(lines@.take(i + 1)));
                }
                return Err(er);
            },
        }
    }
    assert(lines@.take(n as int) == lines@);
    Ok(map)
}

/// Once a prefix of the lines does not read, the whole does not.
proof fn lemma_lines_entries_prefix_fails(ls: Seq<Seq<char>>, k: int)
    requires
        0 <= k <= ls.len(),
        lines_entries(ls.take(k)) is None,
    ensures
        lines_entries(ls) is None,
    decreases ls.len() - k,
{
    if k < ls.len() {
        assert(ls.take(k + 1).drop_last() == ls.take(k));
        lemma_lines_entries_prefix_fails(ls, k + 1);
    } else {
        assert(ls.take(k) == ls);
    }
}

/// The text of a configuration file with the given entries: one
/// `key=value` line for each.
pub open spec fn config_file_text_of(e: Seq<(Seq<char>, Seq<char>)>) -> Seq<char>
    decreases e.len(),
{
    if e.len() == 0 {
        Seq::empty()
    } else {
        config_file_text_of(e.drop_last()) + e.last().0 + seq!['='] + e.last().1 + seq!['\n']
    }
}

impl AppConfig {
    /// The text of the configuration file of this configuration.
    pub fn config_file_text(&self) -> (r: String)
        ensures
            r@ == config_file_text_of(config_entries(self@)),
    {
        let map = self.string_map();
        let keys: [&str; 13] = [
            "work_font_color",
            "work_bg_color",
            "short_break_font_color",
            "short_break_bg_color",
            "long_break_font_color",
            "long_break_bg_color",
            "work_time",
            "short_break_time",
            "long_break_time",
            "long_break_pos",
            "sound_break_to_work",
            "sound_work_to_break",
            "sound_volume",
        ];
        let ghost e = config_entries(self@);
        proof {
            lemma_fresh_key(self@, 12);
            assert(e.take(13) == e);
        }
        let mut out = String::new();
        for i in 0..CONFIG_KEY_COUNT
            invariant
                keys@.len() == 13,
                forall|j: int| 0 <= j < 13 ==> #[trigger] keys@[j]@ == config_key(j),
                string_map_entries(map) == e,
                keys_unique(e),
                e == config_entries(self@),
                out@ == config_file_text_of(e.take(i as int)),
        {
            let key = keys[i];
            proof {
                lemma_position_of_entry(e, i as int);
            }
            let value = match string_map_get(&map, key) {
                Some(v) => v,
                None => String::new(),
            };
            assert(e.take(i + 1).drop_last() == e.take(i as int));
            push_str(&mut out, key);
            push_char(&mut out, '=');
            push_str(&mut out, value.as_str());
            push_char(&mut out, '\n');
        }
        assert(e.take(13) == e);
        out
    }
}

/// The text of a sound file setting.
fn sound_setting_string(s: &StringOpt<SoundFilePath>) -> (r: String)
    ensures
        r@ == sound_setting_text(sound_setting_view(*s)),
{
    match s {
        StringOpt::Value(p) => String::from(p.clone()),
        StringOpt::Empty => String::new(),
    }
}

/// The settings of the configuration, in the order of the configuration
/// file.
#[derive(Debug, Clone, Copy, PartialEq, Eq, Structural)]
pub enum ConfigField {
    WorkFontColor,
    WorkBgColor,
    ShortBreakFontColor,
    ShortBreakBgColor,
    LongBreakFontColor,
    LongBreakBgColor,
    WorkTime,
    ShortBreakTime,
    LongBreakTime,
    LongBreakPos,
    SoundBreakToWork,
    SoundWorkToBreak,
    SoundVolume,
}

/// Whether the setting is a sound file.
pub open spec fn is_sound_field(f: ConfigField) -> bool {
    f == ConfigField::SoundBreakToWork || f == ConfigField::SoundWorkToBreak
}

/// The configuration with setting `f` read from `t`, or nothing when `t`
/// does not read (a sound file reads from any text here; whether the file
/// exists is checked on disk; the volume is read elsewhere).
pub open spec fn config_with_text(c: AppConfigView, f: ConfigField, t: Seq<char>) -> Option<AppConfigView> {
    match f {
        ConfigField::WorkFontColor => match rgb_from_text(t) {
            Some(x) => Some(AppConfigView { work_font_color: x, ..c }),
            None => None,
        },
        ConfigField::WorkBgColor => match rgb_from_text(t) {
            Some(x) => Some(AppConfigView { work_bg_color: x, ..c }),
            None => None,
        },
        ConfigField::ShortBreakFontColor => match rgb_from_text(t) {
            Some(x) => Some(AppConfigView { short_break_font_color: x, ..c }),
            None => None,
        },
        ConfigField::ShortBreakBgColor => match rgb_from_text(t) {
            Some(x) => Some(AppConfigView { short_break_bg_color: x, ..c }),
            None => None,
        },
        ConfigField::LongBreakFontColor => match rgb_from_text(t) {
            Some(x) => Some(AppConfigView { long_break_font_color: x, ..c }),
            None => None,
        },
        ConfigField::LongBreakBgColor => match rgb_from_text(t) {
            Some(x) => Some(AppConfigView { long_break_bg_color: x, ..c }),
            None => None,
        },
        ConfigField::WorkTime => match timer_minute_from_text(t) {
            Some(x) => Some(AppConfigView { work_time: x, ..c }),
            None => None,
        },
        ConfigField::ShortBreakTime => match timer_minute_from_text(t) {
            Some(x) => Some(AppConfigView { short_break_time: x, ..c }),
            None => None,
        },
        ConfigField::LongBreakTime => match timer_minute_from_text(t) {
            Some(x) => Some(AppConfigView { long_break_time: x, ..c }),
            None => None,
        },
        ConfigField::LongBreakPos => match long_break_pos_from_text(t) {
            Some(x) => Some(AppConfigView { long_break_pos: x, ..c }),
            None => None,
        },
        ConfigField::SoundBreakToWork => Some(AppConfigView { sound_break_to_work: sound_setting_of_text(t), ..c }),
        ConfigField::SoundWorkToBreak => Some(AppConfigView { sound_work_to_break: sound_setting_of_text(t), ..c }),
        ConfigField::SoundVolume => None,
    }
}

impl AppConfig {
    /// Reads setting `field` (not the volume) from `text` into the
    /// configuration; on an error the configuration is kept.
    pub fn set_from_text(&mut self, field: ConfigField, text: String) -> (r: Result<(), AppError>)
        requires
            field != ConfigField::SoundVolume,
        ensures
            r is Err ==> final(self)@ == old(self)@,
            r is Ok ==> (config_with_text(old(self)@, field, text@) matches Some(c) && final(self)@ == c),
            !is_sound_field(field) ==> (r is Ok <==> config_with_text(old(self)@, field, text@) is Some),
            r matches Err(e) ==> e is TypeError,
            is_sound_field(field) && text@.len() == 0 ==> r is Ok,
    {
        match field {
            ConfigField::WorkFontColor => match Rgb::try_from(text) {
                Ok(v) => {
                    self.work_font_color = v;
                    Ok(())
                },
                Err(e) => Err(e),
            },
            ConfigField::WorkBgColor => match Rgb::try_from(text) {
                Ok(v) => {
                    self.work_bg_color = v;
                    Ok(())
                },
                Err(e) => Err(e),
            },
            ConfigField::ShortBreakFontColor => match Rgb::try_from(text) {
                Ok(v) => {
                    self.short_break_font_color = v;
                    Ok(())
                },
                Err(e) => Err(e),
            },
            ConfigField::ShortBreakBgColor => match Rgb::try_from(text) {
                Ok(v) => {
                    self.short_break_bg_color = v;
                    Ok(())
                },
                Err(e) => Err(e),
            },
            ConfigField::LongBreakFontColor => match Rgb::try_from(text) {
                Ok(v) => {
                    self.long_break_font_color = v;
                    Ok(())
                },
                Err(e) => Err(e),
            },
            ConfigField::LongBreakBgColor => match Rgb::try_from(text) {
                Ok(v) => {
                    self.long_break_bg_color = v;
                    Ok(())
                },
                Err(e) => Err(e),
            },
            ConfigField::WorkTime => match TimerMinute::try_from(text) {
                Ok(v) => {
                    self.work_time = v;
                    Ok(())
                },
                Err(e) => Err(e),
            },
            ConfigField::ShortBreakTime => match TimerMinute::try_from(text) {
                Ok(v) => {
                    self.short_break_time = v;
                    Ok(())
                },
                Err(e) => Err(e),
            },
            ConfigField::LongBreakTime => match TimerMinute::try_from(text) {
                Ok(v) => {
                    self.long_break_time = v;
                    Ok(())
                },
                Err(e) => Err(e),
            },
            ConfigField::LongBreakPos => match LongBreakPos::try_from(text) {
                Ok(v) => {
                    self.long_break_pos = v;
                    Ok(())
                },
                Err(e) => Err(e),
            },
            ConfigField::SoundBreakToWork => match read_sound_setting(text) {
                Ok(v) => {
                    self.sound_break_to_work = v;
                    Ok(())
                },
                Err(e) => Err(e),
            },
            ConfigField::SoundWorkToBreak => match read_sound_setting(text) {
                Ok(v) => {
                    self.sound_work_to_break = v;
                    Ok(())
                },
                Err(e) => Err(e),
            },
            ConfigField::SoundVolume => Ok(()),
        }
    }

    /// Sets the volume.
    pub fn set_volume(&mut self, volume: SoundVolume)
        ensures
            final(self)@ == (AppConfigView { sound_volume: volume@, ..old(self)@ }),
    {
        self.sound_volume = volume;
    }
}

/// The place of a setting in the configuration file.
pub open spec fn field_index(f: ConfigField) -> int {
    match f {
        ConfigField::WorkFontColor => 0,
        ConfigField::WorkBgColor => 1,
        ConfigField::ShortBreakFontColor => 2,
        ConfigField::ShortBreakBgColor => 3,
        ConfigField::LongBreakFontColor => 4,
        ConfigField::LongBreakBgColor => 5,
        ConfigField::WorkTime => 6,
        ConfigField::ShortBreakTime => 7,
        ConfigField::LongBreakTime => 8,
        ConfigField::LongBreakPos => 9,
        ConfigField::SoundBreakToWork => 10,
        ConfigField::SoundWorkToBreak => 11,
        ConfigField::SoundVolume => 12,
    }
}

impl AppConfig {
    /// The text of one setting, as the configuration file holds it.
    pub fn field_text(&self, field: ConfigField) -> (r: String)
        ensures
            r@ == config_value_text(self@, field_index(field)),
    {
        match field {
            ConfigField::WorkFontColor => String::from(self.work_font_color),
            ConfigField::WorkBgColor => String::from(self.work_bg_color),
            ConfigField::ShortBreakFontColor => String::from(self.short_break_font_color),
            ConfigField::ShortBreakBgColor => String::from(self.short_break_bg_color),
            ConfigField::LongBreakFontColor => String::from(self.long_break_font_color),
            ConfigField::LongBreakBgColor => String::from(self.long_break_bg_color),
            ConfigField::WorkTime => String::from(self.work_time),
            ConfigField::ShortBreakTime => String::from(self.short_break_time),
            ConfigField::LongBreakTime => String::from(self.long_break_time),
            ConfigField::LongBreakPos => String::from(self.long_break_pos.clone()),
            ConfigField::SoundBreakToWork => sound_setting_string(&self.sound_break_to_work),
            ConfigField::SoundWorkToBreak => sound_setting_string(&self.sound_work_to_break),
            ConfigField::SoundVolume => String::from(self.sound_volume.clone()),
        }
    }
}

/// A setting text that a line of the configuration file carries unchanged:
/// no `=` in it and no whitespace at either end.
pub open spec fn is_plain_text(v: Seq<char>) -> bool {
    &&& forall|i: int| 0 <= i < v.len() ==> #[trigger] v[i] != '='
    &&& strip(v, CharClass::Whitespace) == v
}

/// The line of the configuration file for setting `i`: `key=value`.
pub open spec fn config_line(c: AppConfigView, i: int) -> Seq<char> {
    config_key(i) + seq!['='] + config_value_text(c, i)
}

/// The lines of the configuration file, as [`AppConfig::config_file_text`]
/// writes them (each followed by a line feed).
pub open spec fn config_lines(c: AppConfigView) -> Seq<Seq<char>> {
    Seq::new(13, |i: int| config_line(c, i))
}

/// Stripping never lengthens a text.
proof fn lemma_strip_len(s: Seq<char>, k: CharClass)
    ensures
        strip_start(s, k).len() <= s.len(),
        strip_end(s, k).len() <= s.len(),
    decreases s.len(),
{
    if s.len() > 0 {
        lemma_strip_len(s.drop_first(), k);
        lemma_strip_len(s.drop_last(), k);
    }
}

/// A text that stripping leaves as it is has no whitespace at its ends.
proof fn lemma_plain_ends(v: Seq<char>)
    requires
        strip(v, CharClass::Whitespace) == v,
        v.len() > 0,
    ensures
        !is_unicode_whitespace(v[0]),
        !is_unicode_whitespace(v.last()),
{
    let k = CharClass::Whitespace;
    lemma_strip_len(v, k);
    lemma_strip_len(strip_start(v, k), k);
    if is_unicode_whitespace(v[0]) {
        lemma_strip_len(v.drop_first(), k);
        assert(strip_start(v, k) == strip_start(v.drop_first(), k));
        assert(false);
    }
    assert(strip_start(v, k) == v);
    if is_unicode_whitespace(v.last()) {
        lemma_strip_len(v.drop_last(), k);
        assert(strip_end(v, k) == strip_end(v.drop_last(), k));
        assert(false);
    }
}

/// A text of characters that are neither `=` nor whitespace is plain.
proof fn lemma_plain_by_chars(v: Seq<char>)
    requires
        forall|i: int| 0 <= i < v.len() ==> #[trigger] v[i] != '=' && !is_unicode_whitespace(v[i]),
    ensures
        is_plain_text(v),
{
    if v.len() > 0 {
        assert(v.last() == v[v.len() - 1]);
    }
    lemma_strip_noop(v, CharClass::Whitespace);
}

/// The position of the first `c` from `start` skips a stretch without `c`.
proof fn lemma_index_skip(s: Seq<char>, c: char, start: int, end: int)
    requires
        0 <= start <= end <= s.len(),
        forall|j: int| start <= j < end ==> #[trigger] s[j] != c,
    ensures
        index_of_from(s, c, start) == index_of_from(s, c, end),
    decreases end - start,
{
    if start < end {
        lemma_index_skip(s, c, start + 1, end);
    }
}

/// A line `key=value` with a plain, nonempty key and a plain value reads
/// back as (key, value).
pub proof fn lemma_config_line_entry(k: Seq<char>, v: Seq<char>)
    requires
        k.len() > 0,
        is_plain_text(k),
        is_plain_text(v),
    ensures
        config_line_entry(k + seq!['='] + v) == Some((k, v)),
{
    let line = k + seq!['='] + v;
    lemma_plain_ends(k);
    assert(line[0] == k[0]);
    if v.len() > 0 {
        lemma_plain_ends(v);
        assert(line.last() == v.last());
    } else {
        assert(line.last() == '=');
    }
    lemma_strip_noop(line, CharClass::Whitespace);
    let a = k.len() as int;
    assert forall|j: int| 0 <= j < a implies #[trigger] line[j] != '=' by {
        assert(line[j] == k[j]);
    }
    lemma_index_skip(line, '=', 0, a);
    assert(line[a] == '=');
    assert(index_of_from(line, '=', 0) == a);
    assert forall|j: int| a + 1 <= j < line.len() implies #[trigger] line[j] != '=' by {
        assert(line[j] == v[j - a - 1]);
    }
    lemma_index_skip(line, '=', a + 1, line.len() as int);
    assert(index_of_from(line, '=', a + 1) == line.len());
    assert(line.subrange(0, a) =~= k);
    assert(line.subrange(a + 1, line.len() as int) =~= v);
}

/// The text of a list of digit strings joined by commas holds only digits
/// and commas.
proof fn lemma_join_digits(ps: Seq<Seq<char>>)
    requires
        forall|i: int| 0 <= i < ps.len() ==> all_digits(#[trigger] ps[i]),
    ensures
        forall|j: int|
            0 <= j < join_commas(ps).len() ==> is_ascii_digit(#[trigger] join_commas(ps)[j]) || join_commas(ps)[j] == ',',
    decreases ps.len(),
{
    if ps.len() > 1 {
        let init = ps.drop_last();
        assert forall|i: int| 0 <= i < init.len() implies all_digits(#[trigger] init[i]) by {
            assert(init[i] == ps[i]);
        }
        lemma_join_digits(init);
        let j1 = join_commas(init);
        let l = ps.last();
        assert(all_digits(ps[ps.len() - 1]));
        assert forall|j: int| 0 <= j < join_commas(ps).len() implies is_ascii_digit(#[trigger] join_commas(ps)[j])
            || join_commas(ps)[j] == ',' by {
            if j < j1.len() {
                assert(join_commas(ps)[j] == j1[j]);
            } else if j > j1.len() {
                assert(join_commas(ps)[j] == l[j - j1.len() - 1]);
            }
        }
    } else if ps.len() == 1 {
        assert(all_digits(ps[0]));
    }
}

/// The text of every setting but the sound files and the volume is plain.
proof fn lemma_plain_values(c: AppConfigView, i: int)
    requires
        0 <= i < 10,
    ensures
        is_plain_text(config_value_text(c, i)),
{
    let v = config_value_text(c, i);
    if i < 6 {
        let col = if i == 0 {
            c.work_font_color
        } else if i == 1 {
            c.work_bg_color
        } else if i == 2 {
            c.short_break_font_color
        } else if i == 3 {
            c.short_break_bg_color
        } else if i == 4 {
            c.long_break_font_color
        } else {
            c.long_break_bg_color
        };
        assert(v == rgb_text(col));
        lemma_hex_char((col.r / 16) as nat);
        lemma_hex_char((col.r % 16) as nat);
        lemma_hex_char((col.g / 16) as nat);
        lemma_hex_char((col.g % 16) as nat);
        lemma_hex_char((col.b / 16) as nat);
        lemma_hex_char((col.b % 16) as nat);
        assert(v =~= seq!['#'] + hex_byte_text(col.r) + hex_byte_text(col.g) + hex_byte_text(col.b));
        lemma_plain_by_chars(v);
    } else if i < 9 {
        let n = if i == 6 {
            c.work_time
        } else if i == 7 {
            c.short_break_time
        } else {
            c.long_break_time
        };
        assert(v == decimal_text(n as nat));
        lemma_decimal_text(n as nat);
        lemma_plain_by_chars(v);
    } else {
        match c.long_break_pos {
            LongBreakPosView::EveryRap(n) => {
                lemma_decimal_text(n as nat);
                lemma_plain_by_chars(v);
            },
            LongBreakPosView::SpecificRap(raps) => {
                let ps = rap_texts(raps);
                assert forall|j: int| 0 <= j < ps.len() implies all_digits(#[trigger] ps[j]) by {
                    lemma_decimal_text(raps[j] as nat);
                }
                lemma_join_digits(ps);
                let jn = join_commas(ps);
                assert(v == seq!['['] + jn + seq![']']);
                assert forall|j: int| 0 <= j < v.len() implies #[trigger] v[j] != '=' && !is_unicode_whitespace(v[j]) by {
                    if 0 < j < v.len() - 1 {
                        assert(v[j] == jn[j - 1]);
                    }
                }
                lemma_plain_by_chars(v);
            },
        }
    }
}

/// The first `i` lines of the configuration file read back as the first
/// `i` entries.
proof fn lemma_config_lines_prefix(c: AppConfigView, i: int)
    requires
        0 <= i <= 13,
        is_plain_text(sound_setting_text(c.sound_break_to_work)),
        is_plain_text(sound_setting_text(c.sound_work_to_break)),
        is_plain_text(c.sound_volume),
    ensures
        lines_entries(config_lines(c).take(i)) == Some(config_entries(c).take(i)),
    decreases i,
{
    let ls = config_lines(c);
    let e = config_entries(c);
    if i == 0 {
        assert(ls.take(0) =~= Seq::<Seq<char>>::empty());
        assert(e.take(0) =~= Seq::<(Seq<char>, Seq<char>)>::empty());
    } else {
        let n = i - 1;
        lemma_config_lines_prefix(c, n);
        reveal_strlit("work_font_color");
        reveal_strlit("work_bg_color");
        reveal_strlit("short_break_font_color");
        reveal_strlit("short_break_bg_color");
        reveal_strlit("long_break_font_color");
        reveal_strlit("long_break_bg_color");
        reveal_strlit("work_time");
        reveal_strlit("short_break_time");
        reveal_strlit("long_break_time");
        reveal_strlit("long_break_pos");
        reveal_strlit("sound_break_to_work");
        reveal_strlit("sound_work_to_break");
        reveal_strlit("sound_volume");
        let k = config_key(n);
        let v = config_value_text(c, n);
        assert forall|j: int| 0 <= j < k.len() implies #[trigger] k[j] != '=' && !is_unicode_whitespace(k[j]) by {}
        lemma_plain_by_chars(k);
        if n < 10 {
            lemma_plain_values(c, n);
        }
        lemma_config_line_entry(k, v);
        assert(ls.take(i).drop_last() == ls.take(n));
        assert(ls.take(i).last() == config_line(c, n));
        lemma_fresh_key(c, n);
        lemma_position_absent(e.take(n), k);
        assert(e.take(n).push((k, v)) =~= e.take(i));
    }
}

/// Reading back the lines of the configuration file gives the entries that
/// were written, in their order, for every configuration whose sound file
/// paths and volume text hold no `=` and no whitespace at their ends.
pub proof fn lemma_config_lines_round_trip(c: AppConfigView)
    requires
        is_plain_text(sound_setting_text(c.sound_break_to_work)),
        is_plain_text(sound_setting_text(c.sound_work_to_break)),
        is_plain_text(c.sound_volume),
    ensures
        lines_entries(config_lines(c)) == Some(config_entries(c)),
{
    lemma_config_lines_prefix(c, 13);
    assert(config_lines(c).take(13) =~= config_lines(c));
    assert(config_entries(c).take(13) =~= config_entries(c));
}

/// Writing a configuration to its file lines and reading them back gives
/// the configuration, but for the volume, whose text reaches the volume
/// reader unchanged; for every configuration whose times are below 100,
/// whose long break list is not empty, and whose sound file paths (when
/// set) and volume text are nonempty and hold no `=` and no whitespace at
/// their ends.
pub proof fn lemma_config_file_round_trip(c: AppConfigView)
    requires
        c.work_time < 100,
        c.short_break_time < 100,
        c.long_break_time < 100,
        c.long_break_pos matches LongBreakPosView::SpecificRap(v) ==> v.len() > 0,
        c.sound_break_to_work matches Some(p) ==> p.len() > 0,
        c.sound_work_to_break matches Some(p) ==> p.len() > 0,
        is_plain_text(sound_setting_text(c.sound_break_to_work)),
        is_plain_text(sound_setting_text(c.sound_work_to_break)),
        is_plain_text(c.sound_volume),
    ensures
        lines_entries(config_lines(c)) matches Some(e) && plain_settings_read(e) && setting_text(e, 12) == Some(
            c.sound_volume,
        ) && forall|d: AppConfigView| #[trigger] config_read_from(d, e) ==> same_but_volume(d, c),
{
    lemma_config_lines_round_trip(c);
    lemma_config_map_round_trip(c);
}

/// Lines, each followed by a line feed.
pub open spec fn joined_lines(ls: Seq<Seq<char>>) -> Seq<char>
    decreases ls.len(),
{
    if ls.len() == 0 {
        Seq::empty()
    } else {
        joined_lines(ls.drop_last()) + ls.last() + seq!['\n']
    }
}

proof fn lemma_file_text_prefix(c: AppConfigView, i: int)
    requires
        0 <= i <= 13,
    ensures
        config_file_text_of(config_entries(c).take(i)) == joined_lines(config_lines(c).take(i)),
    decreases i,
{
    if i > 0 {
        lemma_file_text_prefix(c, i - 1);
        assert(config_entries(c).take(i).drop_last() == config_entries(c).take(i - 1));
        assert(config_lines(c).take(i).drop_last() == config_lines(c).take(i - 1));
        assert(config_entries(c).take(i).last() == (config_key(i - 1), config_value_text(c, i - 1)));
        assert(config_lines(c).take(i).last() == config_line(c, i - 1));
        assert(config_file_text_of(config_entries(c).take(i)) =~= joined_lines(config_lines(c).take(i)));
    }
}

/// The text of the configuration file is its lines, each followed by a
/// line feed.
pub proof fn lemma_config_file_text_lines(c: AppConfigView)
    ensures
        config_file_text_of(config_entries(c)) == joined_lines(config_lines(c)),
{
    lemma_file_text_prefix(c, 13);
    assert(config_lines(c).take(13) =~= config_lines(c));
    assert(config_entries(c).take(13) =~= config_entries(c));
}


/// Reading a text into a setting changes that setting alone: in the
/// settings file every other key keeps its text, and the setting's own key
/// gets the text of the value read (a colour, a number of minutes, a long
/// break position, or a sound file path as given).
pub proof fn lemma_reading_a_setting_changes_it_alone(c: AppConfigView, f: ConfigField, t: Seq<char>)
    ensures
        config_with_text(c, f, t) matches Some(c2) ==> {
            &&& forall|j: int| 0 <= j < 13 && j != field_index(f) ==> #[trigger] config_value_text(c2, j) == config_value_text(c, j)
            &&& field_index(f) < 6 ==> config_value_text(c2, field_index(f)) == rgb_text(rgb_from_text(t).unwrap())
            &&& 6 <= field_index(f) < 9 ==> config_value_text(c2, field_index(f)) == decimal_text(
                timer_minute_from_text(t).unwrap() as nat,
            )
            &&& field_index(f) == 9 ==> config_value_text(c2, 9) == long_break_pos_text(long_break_pos_from_text(t).unwrap())
            &&& field_index(f) == 10 || field_index(f) == 11 ==> config_value_text(c2, field_index(f)) == t
        },
        f == ConfigField::SoundVolume ==> config_with_text(c, f, t) is None,
{
}

} // verus!
