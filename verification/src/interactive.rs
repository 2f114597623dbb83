use vstd::prelude::*;

use crate::config::{
    config_value_text, default_config, field_index, is_sound_field, config_with_text, AppConfig, AppConfigView,
    ConfigField,
};
use crate::error::AppError;
use crate::text::{decimal_text, push_str};
use crate::types::rgb_text;
use crate::types::SoundVolume;

verus! {

/// The screens of the settings dialog, each a list to select from.
#[derive(Debug, Clone, Copy, PartialEq, Eq, Structural)]
pub enum DialogScreen {
    Root,
    Time,
    Color,
    WorkingColor,
    ShortBreakColor,
    LongBreakColor,
    Sound,
    SoundFile,
}

/// A text to ask for: the setting it goes to, the prompt, the text shown
/// at first, and the text taken for an empty answer (none: the empty text
/// is taken as it is).
pub struct InputRequest {
    pub field: ConfigField,
    pub prompt: String,
    pub initial: String,
    pub default: Option<String>,
}

/// What follows a selection.
pub enum DialogStep {
    /// Show the (new) current screen.
    Continue,
    /// Ask for a text, then show the current screen again.
    Input(InputRequest),
    /// Apply this configuration, then show the current screen again.
    Apply(AppConfig),
    /// Close the dialog.
    Close,
}

/// What a selection does, apart from moving between screens.
#[derive(Debug, Clone, Copy, PartialEq, Eq, Structural)]
pub enum SelectEffect {
    Nothing,
    Ask(ConfigField),
    ResetToDefault,
    Apply,
    Close,
}

/// The prompt of a screen.
pub open spec fn screen_prompt(s: DialogScreen) -> Seq<char> {
    match s {
        DialogScreen::Root => "🔧 Settings"@,
        DialogScreen::Time => "Time Setting"@,
        DialogScreen::Color => "🎨 Color Setting"@,
        DialogScreen::WorkingColor => "Working Color Setting"@,
        DialogScreen::ShortBreakColor => "Short Break Color Setting"@,
        DialogScreen::LongBreakColor => "Long Break Color Setting"@,
        DialogScreen::Sound => "🎵 Sound Setting"@,
        DialogScreen::SoundFile => "💿 Sound File Setting"@,
    }
}

/// The items of a screen, in the order shown.
pub open spec fn screen_items(s: DialogScreen) -> Seq<Seq<char>> {
    match s {
        DialogScreen::Root => seq![
            "⏰ Time"@,
            "🎨 Color"@,
            "🎵 Sound"@,
            "   Long Break Position"@,
            "   default"@,
            "✅ apply"@,
            "❎ close"@,
        ],
        DialogScreen::Time | DialogScreen::Color => seq!["📝 Working"@, "🍵 Short Break"@, "🍙 Long Break"@, "🔙 back"@],
        DialogScreen::WorkingColor | DialogScreen::ShortBreakColor | DialogScreen::LongBreakColor => seq![
            "❌ font"@,
            "❎ background"@,
            "🔙 back"@,
        ],
        DialogScreen::Sound => seq!["💿 Sound File"@, "🔊 Volume"@, "🔙 back"@],
        DialogScreen::SoundFile => seq!["📝 Break2Work"@, "🍵 Work2Break"@, "🔙 back"@],
    }
}

/// The screen after selecting item `i` of screen `s`, and what the
/// selection does besides.
pub open spec fn select_effect(s: DialogScreen, i: int) -> (DialogScreen, SelectEffect) {
    match s {
        DialogScreen::Root => if i == 0 {
            (DialogScreen::Time, SelectEffect::Nothing)
        } else if i == 1 {
            (DialogScreen::Color, SelectEffect::Nothing)
        } else if i == 2 {
            (DialogScreen::Sound, SelectEffect::Nothing)
        } else if i == 3 {
            (DialogScreen::Root, SelectEffect::Ask(ConfigField::LongBreakPos))
        } else if i == 4 {
            (DialogScreen::Root, SelectEffect::ResetToDefault)
        } else if i == 5 {
            (DialogScreen::Root, SelectEffect::Apply)
        } else {
            (DialogScreen::Root, SelectEffect::Close)
        },
        DialogScreen::Time => if i == 0 {
            (DialogScreen::Time, SelectEffect::Ask(ConfigField::WorkTime))
        } else if i == 1 {
            (DialogScreen::Time, SelectEffect::Ask(ConfigField::ShortBreakTime))
        } else if i == 2 {
            (DialogScreen::Time, SelectEffect::Ask(ConfigField::LongBreakTime))
        } else {
            (DialogScreen::Root, SelectEffect::Nothing)
        },
        DialogScreen::Color => if i == 0 {
            (DialogScreen::WorkingColor, SelectEffect::Nothing)
        } else if i == 1 {
            (DialogScreen::ShortBreakColor, SelectEffect::Nothing)
        } else if i == 2 {
            (DialogScreen::LongBreakColor, SelectEffect::Nothing)
        } else {
            (DialogScreen::Root, SelectEffect::Nothing)
        },
        DialogScreen::WorkingColor => if i == 0 {
            (s, SelectEffect::Ask(ConfigField::WorkFontColor))
        } else if i == 1 {
            (s, SelectEffect::Ask(ConfigField::WorkBgColor))
        } else {
            (DialogScreen::Color, SelectEffect::Nothing)
        },
        DialogScreen::ShortBreakColor => if i == 0 {
            (s, SelectEffect::Ask(ConfigField::ShortBreakFontColor))
        } else if i == 1 {
            (s, SelectEffect::Ask(ConfigField::ShortBreakBgColor))
        } else {
            (DialogScreen::Color, SelectEffect::Nothing)
        },
        DialogScreen::LongBreakColor => if i == 0 {
            (s, SelectEffect::Ask(ConfigField::LongBreakFontColor))
        } else if i == 1 {
            (s, SelectEffect::Ask(ConfigField::LongBreakBgColor))
        } else {
            (DialogScreen::Color, SelectEffect::Nothing)
        },
        DialogScreen::Sound => if i == 0 {
            (DialogScreen::SoundFile, SelectEffect::Nothing)
        } else if i == 1 {
            (DialogScreen::Sound, SelectEffect::Ask(ConfigField::SoundVolume))
        } else {
            (DialogScreen::Root, SelectEffect::Nothing)
        },
        DialogScreen::SoundFile => if i == 0 {
            (s, SelectEffect::Ask(ConfigField::SoundBreakToWork))
        } else if i == 1 {
            (s, SelectEffect::Ask(ConfigField::SoundWorkToBreak))
        } else {
            (DialogScreen::Sound, SelectEffect::Nothing)
        },
    }
}

/// The last item of every screen but the first goes back one screen, and
/// two steps back at most reach the first screen; the last item of the
/// first screen closes the dialog.
pub proof fn lemma_back_reaches_root(s: DialogScreen)
    ensures
        ({
            let back = screen_items(s).len() - 1;
            let (p, e) = select_effect(s, back);
            &&& s == DialogScreen::Root ==> e == SelectEffect::Close
            &&& s != DialogScreen::Root ==> e == SelectEffect::Nothing && (p == DialogScreen::Root || select_effect(
                p,
                screen_items(p).len() - 1,
            ).0 == DialogScreen::Root)
        }),
{
}

/// The prompt of a setting up to its default value.
pub open spec fn prompt_head(f: ConfigField) -> Seq<char> {
    match f {
        ConfigField::WorkTime => "Enter the Working Time[min]. (default \""@,
        ConfigField::ShortBreakTime => "Enter the Short Break Time[min]. (default \""@,
        ConfigField::LongBreakTime => "Enter the Long Break Time[min]. (default \""@,
        ConfigField::WorkFontColor => "Enter the font color while Working. (default \""@,
        ConfigField::WorkBgColor => "Enter the background color while Working. (default \""@,
        ConfigField::ShortBreakFontColor => "Enter the font color while Short Break. (default \""@,
        ConfigField::ShortBreakBgColor => "Enter the background color while Short Break. (default \""@,
        ConfigField::LongBreakFontColor => "Enter the font color while Long Break. (default \""@,
        ConfigField::LongBreakBgColor => "Enter the background color while Long Break. (default \""@,
        ConfigField::SoundBreakToWork => "Enter the wav file path for Break2Work sound. \nEmpty input means to use the default sound. (default \""@,
        ConfigField::SoundWorkToBreak => "Enter the wav file path for Work2Break sound. \nEmpty input means to use the default sound. (default \""@,
        ConfigField::SoundVolume => "Enter the Sound Volume(0.2 ~ 5.0). (default \""@,
        ConfigField::LongBreakPos => "Enter the Long Break Strategy. \nIf you enter a single integer(like \"5\"), Long Break will be inserted at every specified raps.\nIf you enter a list of integer(like \"[2, 5, 7]\"), Long Break will be inserted at specific positions of rap. (default \""@,
    }
}

/// The prompt of a setting: what to enter and the default value.
pub open spec fn field_prompt(f: ConfigField, defaults: AppConfigView) -> Seq<char> {
    prompt_head(f) + config_value_text(defaults, field_index(f)) + "\")\n"@
}

/// The text taken for an empty answer: the default value that the prompt
/// names, but none for the sound files (an empty answer means the sound
/// that ships with the program).
pub open spec fn field_default(f: ConfigField, defaults: AppConfigView) -> Option<Seq<char>> {
    if is_sound_field(f) {
        None
    } else {
        Some(config_value_text(defaults, field_index(f)))
    }
}

/// The settings dialog: the screen shown, the configuration being edited
/// and the defaults.
pub struct ConfigDialog {
    screen: DialogScreen,
    config: AppConfig,
    defaults: AppConfig,
}

/// The mathematical form of a [`ConfigDialog`].
pub struct ConfigDialogView {
    pub screen: DialogScreen,
    pub config: AppConfigView,
    pub defaults: AppConfigView,
}

impl View for ConfigDialog {
    type V = ConfigDialogView;

    closed spec fn view(&self) -> ConfigDialogView {
        ConfigDialogView { screen: self.screen, config: self.config@, defaults: self.defaults@ }
    }
}

/// The screen after selecting item `i` of screen `s`, and what the
/// selection does besides (see [`select_effect`]).
fn select_target(s: DialogScreen, i: usize) -> (r: (DialogScreen, SelectEffect))
    ensures
        r == select_effect(s, i as int),
{
    match s {
        DialogScreen::Root => if i == 0 {
            (DialogScreen::Time, SelectEffect::Nothing)
        } else if i == 1 {
            (DialogScreen::Color, SelectEffect::Nothing)
        } else if i == 2 {
            (DialogScreen::Sound, SelectEffect::Nothing)
        } else if i == 3 {
            (DialogScreen::Root, SelectEffect::Ask(ConfigField::LongBreakPos))
        } else if i == 4 {
            (DialogScreen::Root, SelectEffect::ResetToDefault)
        } else if i == 5 {
            (DialogScreen::Root, SelectEffect::Apply)
        } else {
            (DialogScreen::Root, SelectEffect::Close)
        },
        DialogScreen::Time => if i == 0 {
            (DialogScreen::Time, SelectEffect::Ask(ConfigField::WorkTime))
        } else if i == 1 {
            (DialogScreen::Time, SelectEffect::Ask(ConfigField::ShortBreakTime))
        } else if i == 2 {
            (DialogScreen::Time, SelectEffect::Ask(ConfigField::LongBreakTime))
        } else {
            (DialogScreen::Root, SelectEffect::Nothing)
        },
        DialogScreen::Color => if i == 0 {
            (DialogScreen::WorkingColor, SelectEffect::Nothing)
        } else if i == 1 {
            (DialogScreen::ShortBreakColor, SelectEffect::Nothing)
        } else if i == 2 {
            (DialogScreen::LongBreakColor, SelectEffect::Nothing)
        } else {
            (DialogScreen::Root, SelectEffect::Nothing)
        },
        DialogScreen::WorkingColor => if i == 0 {
            (s, SelectEffect::Ask(ConfigField::WorkFontColor))
        } else if i == 1 {
            (s, SelectEffect::Ask(ConfigField::WorkBgColor))
        } else {
            (DialogScreen::Color, SelectEffect::Nothing)
        },
        DialogScreen::ShortBreakColor => if i == 0 {
            (s, SelectEffect::Ask(ConfigField::ShortBreakFontColor))
        } else if i == 1 {
            (s, SelectEffect::Ask(ConfigField::ShortBreakBgColor))
        } else {
            (DialogScreen::Color, SelectEffect::Nothing)
        },
        DialogScreen::LongBreakColor => if i == 0 {
            (s, SelectEffect::Ask(ConfigField::LongBreakFontColor))
        } else if i == 1 {
            (s, SelectEffect::Ask(ConfigField::LongBreakBgColor))
        } else {
            (DialogScreen::Color, SelectEffect::Nothing)
        },
        DialogScreen::Sound => if i == 0 {
            (DialogScreen::SoundFile, SelectEffect::Nothing)
        } else if i == 1 {
            (DialogScreen::Sound, SelectEffect::Ask(ConfigField::SoundVolume))
        } else {
            (DialogScreen::Root, SelectEffect::Nothing)
        },
        DialogScreen::SoundFile => if i == 0 {
            (s, SelectEffect::Ask(ConfigField::SoundBreakToWork))
        } else if i == 1 {
            (s, SelectEffect::Ask(ConfigField::SoundWorkToBreak))
        } else {
            (DialogScreen::Sound, SelectEffect::Nothing)
        },
    }
}

/// The prompt of a setting up to its default value.
fn prompt_head_str(f: ConfigField) -> (r: &'static str)
    ensures
        r@ == prompt_head(f),
{
    match f {
        ConfigField::WorkTime => "Enter the Working Time[min]. (default \"",
        ConfigField::ShortBreakTime => "Enter the Short Break Time[min]. (default \"",
        ConfigField::LongBreakTime => "Enter the Long Break Time[min]. (default \"",
        ConfigField::WorkFontColor => "Enter the font color while Working. (default \"",
        ConfigField::WorkBgColor => "Enter the background color while Working. (default \"",
        ConfigField::ShortBreakFontColor => "Enter the font color while Short Break. (default \"",
        ConfigField::ShortBreakBgColor => "Enter the background color while Short Break. (default \"",
        ConfigField::LongBreakFontColor => "Enter the font color while Long Break. (default \"",
        ConfigField::LongBreakBgColor => "Enter the background color while Long Break. (default \"",
        ConfigField::SoundBreakToWork => "Enter the wav file path for Break2Work sound. \nEmpty input means to use the default sound. (default \"",
        ConfigField::SoundWorkToBreak => "Enter the wav file path for Work2Break sound. \nEmpty input means to use the default sound. (default \"",
        ConfigField::SoundVolume => "Enter the Sound Volume(0.2 ~ 5.0). (default \"",
        ConfigField::LongBreakPos => "Enter the Long Break Strategy. \nIf you enter a single integer(like \"5\"), Long Break will be inserted at every specified raps.\nIf you enter a list of integer(like \"[2, 5, 7]\"), Long Break will be inserted at specific positions of rap. (default \"",
    }
}

/// A list of item texts.
fn items(texts: &[&str]) -> (r: Vec<String>)
    ensures
        r@.len() == texts@.len(),
        forall|i: int| 0 <= i < texts@.len() ==> #[trigger] r@[i]@ == texts@[i]@,
{
    let mut out: Vec<String> = Vec::new();
    let n = texts.len();
    for i in 0..n
        invariant
            n == texts@.len(),
            out@.len() == i,
            forall|k: int| 0 <= k < i ==> #[trigger] out@[k]@ == texts@[k]@,
    {
        out.push(texts[i].to_owned());
    }
    out
}

impl ConfigDialog {
    /// The dialog on its first screen, editing `config`.
    pub fn new(config: AppConfig) -> (r: Self)
        ensures
            r@ == (ConfigDialogView { screen: DialogScreen::Root, config: config@, defaults: default_config() }),
    {
        ConfigDialog { screen: DialogScreen::Root, config, defaults: AppConfig::default() }
    }

    /// The configuration being edited.
    pub fn config(&self) -> (r: &AppConfig)
        ensures
            r@ == self@.config,
    {
        &self.config
    }

    /// The prompt and the items of the current screen.
    pub fn menu(&self) -> (r: (String, Vec<String>))
        ensures
            r.0@ == screen_prompt(self@.screen),
            r.1@.len() == screen_items(self@.screen).len(),
            forall|i: int| 0 <= i < r.1@.len() ==> #[trigger] r.1@[i]@ == screen_items(self@.screen)[i],
    {
        let phases: [&str; 4] = ["📝 Working", "🍵 Short Break", "🍙 Long Break", "🔙 back"];
        let color_types: [&str; 3] = ["❌ font", "❎ background", "🔙 back"];
        let (prompt, list) = match self.screen {
            DialogScreen::Root => {
                let root: [&str; 7] = [
                    "⏰ Time",
                    "🎨 Color",
                    "🎵 Sound",
                    "   Long Break Position",
                    "   default",
                    "✅ apply",
                    "❎ close",
                ];
                ("🔧 Settings", items(&root))
            },
            DialogScreen::Time => ("Time Setting", items(&phases)),
            DialogScreen::Color => ("🎨 Color Setting", items(&phases)),
            DialogScreen::WorkingColor => ("Working Color Setting", items(&color_types)),
            DialogScreen::ShortBreakColor => ("Short Break Color Setting", items(&color_types)),
            DialogScreen::LongBreakColor => ("Long Break Color Setting", items(&color_types)),
            DialogScreen::Sound => {
                let sound: [&str; 3] = ["💿 Sound File", "🔊 Volume", "🔙 back"];
                ("🎵 Sound Setting", items(&sound))
            },
            DialogScreen::SoundFile => {
                let files: [&str; 3] = ["📝 Break2Work", "🍵 Work2Break", "🔙 back"];
                ("💿 Sound File Setting", items(&files))
            },
        };
        assert(list@.len() == screen_items(self@.screen).len());
        (prompt.to_owned(), list)
    }

    /// The request for the text of a setting.
    fn input_request(&self, field: ConfigField) -> (r: InputRequest)
        ensures
            r.field == field,
            r.prompt@ == field_prompt(field, self@.defaults),
            r.initial@ == config_value_text(self@.config, field_index(field)),
            match field_default(field, self@.defaults) {
                Some(d) => r.default matches Some(x) && x@ == d,
                None => r.default is None,
            },
    {
        let mut prompt = String::new();
        push_str(&mut prompt, prompt_head_str(field));
        let shown_default = self.defaults.field_text(field);
        push_str(&mut prompt, shown_default.as_str());
        push_str(&mut prompt, "\")\n");
        let default = match field {
            ConfigField::SoundBreakToWork | ConfigField::SoundWorkToBreak => None,
            _ => Some(shown_default),
        };
        InputRequest { field, prompt, initial: self.config.field_text(field), default }
    }

    /// Acts on the selection of item `index` of the current screen (see
    /// [`select_effect`]).
    pub fn on_select(&mut self, index: usize) -> (r: DialogStep)
        requires
            index < screen_items(old(self)@.screen).len(),
        ensures
            final(self)@.screen == select_effect(old(self)@.screen, index as int).0,
            final(self)@.defaults == old(self)@.defaults,
            match select_effect(old(self)@.screen, index as int).1 {
                SelectEffect::Nothing => r is Continue && final(self)@.config == old(self)@.config,
                SelectEffect::Ask(f) => final(self)@.config == old(self)@.config && (r matches DialogStep::Input(q) && {
                    &&& q.field == f
                    &&& q.prompt@ == field_prompt(f, old(self)@.defaults)
                    &&& q.initial@ == config_value_text(old(self)@.config, field_index(f))
                    &&& match field_default(f, old(self)@.defaults) {
                        Some(d) => q.default matches Some(x) && x@ == d,
                        None => q.default is None,
                    }
                }),
                SelectEffect::ResetToDefault => r is Continue && final(self)@.config == default_config(),
                SelectEffect::Apply => final(self)@.config == old(self)@.config && (r matches DialogStep::Apply(c) && c@
                    == old(self)@.config),
                SelectEffect::Close => r is Close && final(self)@.config == old(self)@.config,
            },
    {
        let (next, effect) = select_target(self.screen, index);
        self.screen = next;
        match effect {
            SelectEffect::Nothing => DialogStep::Continue,
            SelectEffect::Ask(field) => DialogStep::Input(self.input_request(field)),
            SelectEffect::ResetToDefault => {
                self.config = AppConfig::default();
                DialogStep::Continue
            },
            SelectEffect::Apply => DialogStep::Apply(self.config.clone()),
            SelectEffect::Close => DialogStep::Close,
        }
    }

    /// Checks that `text` reads as the setting `field`, as the prompt for it
    /// does before it takes the answer; the volume is read by
    /// `volume_from_text`.
    pub fn check_input<F: Fn(String) -> Result<SoundVolume, AppError>>(
        &self,
        field: ConfigField,
        text: String,
        volume_from_text: F,
    ) -> (r: Result<(), AppError>)
        requires
            volume_from_text.requires((text,)),
        ensures
            field != ConfigField::SoundVolume && !is_sound_field(field) ==> (r is Ok <==> config_with_text(
                self@.config,
                field,
                text@,
            ) is Some),
            field != ConfigField::SoundVolume && !is_sound_field(field) ==> (r matches Err(e) ==> e is TypeError),
            is_sound_field(field) && text@.len() == 0 ==> r is Ok,
            field == ConfigField::SoundVolume ==> (r is Ok ==> exists|v: SoundVolume| #[trigger]
                volume_from_text.ensures((text,), Ok::<SoundVolume, AppError>(v))),
            field == ConfigField::SoundVolume ==> (r matches Err(e) ==> volume_from_text.ensures(
                (text,),
                Err::<SoundVolume, AppError>(e),
            )),
    {
        match field {
            ConfigField::SoundVolume => match volume_from_text(text) {
                Ok(_) => Ok(()),
                Err(e) => Err(e),
            },
            _ => {
                let mut scratch = self.config.clone();
                scratch.set_from_text(field, text)
            },
        }
    }

    /// Takes the answer `text` for the setting `field`; on an error the
    /// configuration is kept. The volume is read by `volume_from_text`.
    pub fn on_input<F: Fn(String) -> Result<SoundVolume, AppError>>(
        &mut self,
        field: ConfigField,
        text: String,
        volume_from_text: F,
    ) -> (r: Result<(), AppError>)
        requires
            volume_from_text.requires((text,)),
        ensures
            final(self)@.screen == old(self)@.screen,
            final(self)@.defaults == old(self)@.defaults,
            r is Err ==> final(self)@.config == old(self)@.config,
            field != ConfigField::SoundVolume && r is Ok ==> (config_with_text(old(self)@.config, field, text@) matches Some(
                c,
            ) && final(self)@.config == c),
            field != ConfigField::SoundVolume && !is_sound_field(field) ==> (r is Ok <==> config_with_text(
                old(self)@.config,
                field,
                text@,
            ) is Some),
            is_sound_field(field) && text@.len() == 0 ==> r is Ok,
            field == ConfigField::SoundVolume ==> (r is Ok ==> exists|v: SoundVolume| #[trigger]
                volume_from_text.ensures((text,), Ok::<SoundVolume, AppError>(v)) && final(self)@.config == (
                AppConfigView { sound_volume: v@, ..old(self)@.config })),
            field == ConfigField::SoundVolume ==> (r matches Err(e) ==> volume_from_text.ensures(
                (text,),
                Err::<SoundVolume, AppError>(e),
            )),
    {
        match field {
            ConfigField::SoundVolume => match volume_from_text(text) {
                Ok(v) => {
                    self.config.set_volume(v);
                    Ok(())
                },
                Err(e) => Err(e),
            },
            _ => self.config.set_from_text(field, text),
        }
    }
}

/// Each item that asks for a setting asks for the one that its screen and
/// label name: on the time screen Working, Short Break and Long Break ask
/// for the working, short break and long break times; on each colour
/// screen, font and background ask for that phase's font and background
/// colours; the sound screens ask for the volume and the two sound files;
/// the first screen asks for the long break position.
pub proof fn lemma_items_ask_for_what_they_name()
    ensures
        screen_items(DialogScreen::Time)[0] == "📝 Working"@ && select_effect(DialogScreen::Time, 0).1
            == SelectEffect::Ask(ConfigField::WorkTime),
        screen_items(DialogScreen::Time)[1] == "🍵 Short Break"@ && select_effect(DialogScreen::Time, 1).1
            == SelectEffect::Ask(ConfigField::ShortBreakTime),
        screen_items(DialogScreen::Time)[2] == "🍙 Long Break"@ && select_effect(DialogScreen::Time, 2).1
            == SelectEffect::Ask(ConfigField::LongBreakTime),
        select_effect(DialogScreen::Color, 0).0 == DialogScreen::WorkingColor,
        select_effect(DialogScreen::Color, 1).0 == DialogScreen::ShortBreakColor,
        select_effect(DialogScreen::Color, 2).0 == DialogScreen::LongBreakColor,
        screen_items(DialogScreen::WorkingColor)[0] == "❌ font"@ && screen_items(DialogScreen::WorkingColor)[1]
            == "❎ background"@,
        select_effect(DialogScreen::WorkingColor, 0).1 == SelectEffect::Ask(ConfigField::WorkFontColor),
        select_effect(DialogScreen::WorkingColor, 1).1 == SelectEffect::Ask(ConfigField::WorkBgColor),
        select_effect(DialogScreen::ShortBreakColor, 0).1 == SelectEffect::Ask(ConfigField::ShortBreakFontColor),
        select_effect(DialogScreen::ShortBreakColor, 1).1 == SelectEffect::Ask(ConfigField::ShortBreakBgColor),
        select_effect(DialogScreen::LongBreakColor, 0).1 == SelectEffect::Ask(ConfigField::LongBreakFontColor),
        select_effect(DialogScreen::LongBreakColor, 1).1 == SelectEffect::Ask(ConfigField::LongBreakBgColor),
        screen_items(DialogScreen::Sound)[1] == "🔊 Volume"@ && select_effect(DialogScreen::Sound, 1).1
            == SelectEffect::Ask(ConfigField::SoundVolume),
        screen_items(DialogScreen::SoundFile)[0] == "📝 Break2Work"@ && select_effect(DialogScreen::SoundFile, 0).1
            == SelectEffect::Ask(ConfigField::SoundBreakToWork),
        screen_items(DialogScreen::SoundFile)[1] == "🍵 Work2Break"@ && select_effect(DialogScreen::SoundFile, 1).1
            == SelectEffect::Ask(ConfigField::SoundWorkToBreak),
        screen_items(DialogScreen::Root)[3] == "   Long Break Position"@ && select_effect(DialogScreen::Root, 3).1
            == SelectEffect::Ask(ConfigField::LongBreakPos),
{
}

/// Every setting can be set from the dialog: for each setting there is an
/// item of some screen that asks for it.
pub proof fn lemma_every_setting_is_asked_for(f: ConfigField)
    ensures
        exists|s: DialogScreen, i: int|
            0 <= i < screen_items(s).len() && #[trigger] select_effect(s, i).1 == SelectEffect::Ask(f),
{
    let (s, i): (DialogScreen, int) = match f {
        ConfigField::WorkTime => (DialogScreen::Time, 0),
        ConfigField::ShortBreakTime => (DialogScreen::Time, 1),
        ConfigField::LongBreakTime => (DialogScreen::Time, 2),
        ConfigField::WorkFontColor => (DialogScreen::WorkingColor, 0),
        ConfigField::WorkBgColor => (DialogScreen::WorkingColor, 1),
        ConfigField::ShortBreakFontColor => (DialogScreen::ShortBreakColor, 0),
        ConfigField::ShortBreakBgColor => (DialogScreen::ShortBreakColor, 1),
        ConfigField::LongBreakFontColor => (DialogScreen::LongBreakColor, 0),
        ConfigField::LongBreakBgColor => (DialogScreen::LongBreakColor, 1),
        ConfigField::SoundVolume => (DialogScreen::Sound, 1),
        ConfigField::SoundBreakToWork => (DialogScreen::SoundFile, 0),
        ConfigField::SoundWorkToBreak => (DialogScreen::SoundFile, 1),
        ConfigField::LongBreakPos => (DialogScreen::Root, 3),
    };
    assert(0 <= i < screen_items(s).len() && select_effect(s, i).1 == SelectEffect::Ask(f));
}

/// The first screen leads to the time, colour and sound screens, and its
/// last three items reset to the defaults, apply and close; the colour
/// screen leads to the working, short break and long break colours.
pub proof fn lemma_first_screen_items()
    ensures
        select_effect(DialogScreen::Root, 0).0 == DialogScreen::Time,
        select_effect(DialogScreen::Root, 1).0 == DialogScreen::Color,
        select_effect(DialogScreen::Root, 2).0 == DialogScreen::Sound,
        screen_items(DialogScreen::Root)[4] == "   default"@ && select_effect(DialogScreen::Root, 4).1
            == SelectEffect::ResetToDefault,
        screen_items(DialogScreen::Root)[5] == "✅ apply"@ && select_effect(DialogScreen::Root, 5).1 == SelectEffect::Apply,
        screen_items(DialogScreen::Root)[6] == "❎ close"@ && select_effect(DialogScreen::Root, 6).1 == SelectEffect::Close,
        select_effect(DialogScreen::Sound, 0).0 == DialogScreen::SoundFile,
{
}

/// The question for each time and colour setting names that setting: its
/// phase, and time, font colour or background colour; and each shows the
/// default from the setting's own place in the configuration.
pub proof fn lemma_prompts_name_their_settings(d: AppConfigView)
    ensures
        prompt_head(ConfigField::WorkTime) == "Enter the Working Time[min]. (default \""@,
        prompt_head(ConfigField::ShortBreakTime) == "Enter the Short Break Time[min]. (default \""@,
        prompt_head(ConfigField::LongBreakTime) == "Enter the Long Break Time[min]. (default \""@,
        prompt_head(ConfigField::WorkFontColor) == "Enter the font color while Working. (default \""@,
        prompt_head(ConfigField::WorkBgColor) == "Enter the background color while Working. (default \""@,
        prompt_head(ConfigField::ShortBreakFontColor) == "Enter the font color while Short Break. (default \""@,
        prompt_head(ConfigField::ShortBreakBgColor) == "Enter the background color while Short Break. (default \""@,
        prompt_head(ConfigField::LongBreakFontColor) == "Enter the font color while Long Break. (default \""@,
        prompt_head(ConfigField::LongBreakBgColor) == "Enter the background color while Long Break. (default \""@,
        field_prompt(ConfigField::LongBreakTime, d) == "Enter the Long Break Time[min]. (default \""@ + decimal_text(
            d.long_break_time as nat,
        ) + "\")\n"@,
        field_prompt(ConfigField::LongBreakBgColor, d) == "Enter the background color while Long Break. (default \""@
            + rgb_text(d.long_break_bg_color) + "\")\n"@,
{
}

} // verus!
