use vstd::prelude::*;

use crate::audio::{AudioCommand, SoundFileType};
use crate::config::AppConfig;
use crate::menu_tree::{lemma_property_insert, property_lookup, property_position};
use crate::text::decimal_text;
use crate::dbusmenu::{
    has_control_items, lemma_status_tree_agrees, menu_wf, menu_with_status, phase_label,
    phase_set, phase_updates, rap_label, rap_set, rap_updates, status_updates, tree_property, update_view, DbusMenu,
    DbusMenuView, TimerControllerStatus, default_tree, UpdateProperties, PHASE_ID, RAP_ID,
};
use crate::digit::{icon_pixel, DoubleDigit};
use crate::menu_tree::{MenuProperties, PropertyValueView};
use crate::sni::StatusNotifierItem;
use crate::timer::TimerCommand;
use crate::types::{LongBreakPos, LongBreakPosView, Rgb, StringOpt, TimerMinute};
use vstd::std_specs::convert::FromSpecImpl;

verus! {

/// What the timer and the D-Bus controller tell the main loop.
pub enum AppInfo {
    /// The timer started, for this many minutes.
    TimerStarted(TimerMinute),
    /// A second passed; the seconds left.
    Seconds(u32),
    /// A minute passed; the minutes left.
    Minutes(TimerMinute),
    /// The timer was paused.
    TimerPaused,
    /// The timer was resumed.
    TimerResumed,
    /// The timer was reset.
    TimerReset,
    /// The timer was skipped.
    TimerSkipped,
    /// The timer ran out.
    TimerFinished,
    /// The timer loop ended.
    TimerTerminated,
    /// A new configuration came in.
    ReceivedConfigure(AppConfig),
    /// A start was asked for from outside.
    ReceivedExternalStart,
}

/// The phase of the pomodoro cycle.
#[derive(Debug, Clone, Copy, PartialEq, Eq, Structural)]
pub enum Phase {
    Working,
    ShortBreak,
    LongBreak,
}

/// The name of a phase.
pub open spec fn phase_text(p: Phase) -> Seq<char> {
    match p {
        Phase::Working => "Working"@,
        Phase::ShortBreak => "ShortBreak"@,
        Phase::LongBreak => "LongBreak"@,
    }
}

impl From<Phase> for String {
    fn from(value: Phase) -> (r: String)
        ensures
            r@ == phase_text(value),
    {
        match value {
            Phase::Working => "Working".to_owned(),
            Phase::ShortBreak => "ShortBreak".to_owned(),
            Phase::LongBreak => "LongBreak".to_owned(),
        }
    }
}

impl FromSpecImpl<Phase> for String {
    open spec fn obeys_from_spec() -> bool {
        false
    }

    open spec fn from_spec(v: Phase) -> String {
        arbitrary()
    }
}

/// The phase after `p` ends: a working period is followed by a long break
/// when the rap is a long break position (every `n`-th rap, or a rap of the
/// list), by a short break otherwise; a break is followed by work.
pub open spec fn next_phase(p: Phase, rap: u32, pos: LongBreakPosView) -> Phase {
    match p {
        Phase::Working => match pos {
            LongBreakPosView::EveryRap(every) => if rap % every == 0 {
                Phase::LongBreak
            } else {
                Phase::ShortBreak
            },
            LongBreakPosView::SpecificRap(v) => if v.contains(rap) {
                Phase::LongBreak
            } else {
                Phase::ShortBreak
            },
        },
        _ => Phase::Working,
    }
}

/// The minutes of a phase.
pub open spec fn phase_minutes(c: AppConfig, p: Phase) -> TimerMinute {
    match p {
        Phase::Working => c.work_time,
        Phase::ShortBreak => c.short_break_time,
        Phase::LongBreak => c.long_break_time,
    }
}

/// The font and background colours of the icon in a phase.
pub open spec fn phase_colors(c: AppConfig, p: Phase) -> (Rgb, Rgb) {
    match p {
        Phase::Working => (c.work_font_color, c.work_bg_color),
        Phase::ShortBreak => (c.short_break_font_color, c.short_break_bg_color),
        Phase::LongBreak => (c.long_break_font_color, c.long_break_bg_color),
    }
}

/// The sound played when a timer of a phase starts: the end of a break at
/// the start of work, the end of work at the start of a break.
pub open spec fn start_sound(p: Phase) -> SoundFileType {
    match p {
        Phase::Working => SoundFileType::Break2Work,
        _ => SoundFileType::Work2Break,
    }
}

/// Whether the pixels show the minutes `m` as two digits.
pub open spec fn shows_minutes(bitmap: [bool; 256], m: TimerMinute) -> bool {
    forall|i: int, j: int|
        0 <= i < 16 && 0 <= j < 16 ==> bitmap[16 * i + j] == #[trigger] icon_pixel((m@ / 10) as nat, (m@ % 10) as nat, i, j)
}

/// The icon pixels of the minutes `m`.
pub fn minute_bitmap(m: TimerMinute) -> (r: [bool; 256])
    ensures
        shows_minutes(r, m),
{
    let d = DoubleDigit::from(m);
    assert(d@ == ((m@ / 10) as nat, (m@ % 10) as nat));
    let r = d.bitmap_flatten();
    assert forall|i: int, j: int| 0 <= i < 16 && 0 <= j < 16 implies r[16 * i + j] == #[trigger] icon_pixel(
        (m@ / 10) as nat,
        (m@ % 10) as nat,
        i,
        j,
    ) by {
        assert(r[16 * i + j] == icon_pixel(d@.0, d@.1, i, j));
    }
    r
}

/// The state of the main loop: the phase, the number of the working period
/// (the rap), and the configuration.
pub struct MainState {
    pub phase: Phase,
    pub rap_counter: u32,
    pub config: AppConfig,
}

/// What the program around the main loop does after a step: send the timer
/// its command, send the audio commands, announce the changed menu
/// properties (after counting a new revision), announce a new icon, or end
/// the loop.
pub struct MainStep {
    pub timer_command: Option<TimerCommand>,
    pub audio: Vec<AudioCommand>,
    pub menu_updates: Option<UpdateProperties>,
    pub icon_changed: bool,
    pub terminate: bool,
}

/// Whether a step on `info` stays within the numbers: the division by the
/// long break interval needs a nonzero interval, and the rap counter must
/// not pass `u32::MAX`.
pub open spec fn step_in_range(s: MainState, info: AppInfo) -> bool {
    (info is TimerFinished || info is TimerSkipped) ==> match s.phase {
        Phase::Working => !(s.config.long_break_pos@ matches LongBreakPosView::EveryRap(e) && e == 0),
        _ => s.rap_counter < u32::MAX,
    }
}

/// The state after a step: the end or skip of a timer moves to the next
/// phase (counting a new rap when work begins); a reset, an outside start or
/// a new configuration begin again with the first working period.
pub open spec fn state_after(s: MainState, info: AppInfo) -> MainState {
    match info {
        AppInfo::TimerFinished | AppInfo::TimerSkipped => {
            let p = next_phase(s.phase, s.rap_counter, s.config.long_break_pos@);
            MainState {
                phase: p,
                rap_counter: if p == Phase::Working { (s.rap_counter + 1) as u32 } else { s.rap_counter },
                config: s.config,
            }
        },
        AppInfo::TimerReset | AppInfo::ReceivedExternalStart => MainState { phase: Phase::Working, rap_counter: 1, config: s.config },
        AppInfo::ReceivedConfigure(c) => MainState { phase: Phase::Working, rap_counter: 1, config: c },
        _ => s,
    }
}

/// The menu made pending and then started.
pub open spec fn restarted(v: DbusMenuView) -> DbusMenuView {
    menu_with_status(menu_with_status(v, TimerControllerStatus::Pending), TimerControllerStatus::Running)
}

/// The command for the timer after a step: at the end of a timer and at an
/// outside start, a start with the minutes of the new phase; else none.
pub open spec fn timer_command_after(s: MainState, info: AppInfo) -> Option<TimerCommand> {
    let n = state_after(s, info);
    match info {
        AppInfo::TimerFinished | AppInfo::ReceivedExternalStart => Some(
            TimerCommand::Start(phase_minutes(n.config, n.phase)),
        ),
        _ => None,
    }
}

/// The menu after a step: the next timer's minutes and the phase are set,
/// the rap when it changed; at the end of a timer and at an outside start
/// the controller is made pending and then started.
pub open spec fn menu_after(v: DbusMenuView, s: MainState, info: AppInfo) -> DbusMenuView {
    let n = state_after(s, info);
    let shown = phase_set(DbusMenuView { time: phase_minutes(n.config, n.phase), ..v }, phase_text(n.phase));
    let with_rap = if n.phase == Phase::Working { rap_set(shown, n.rap_counter) } else { shown };
    match info {
        AppInfo::TimerFinished => restarted(with_rap),
        AppInfo::TimerSkipped => with_rap,
        AppInfo::TimerReset | AppInfo::ReceivedConfigure(_) => rap_set(shown, 1),
        AppInfo::ReceivedExternalStart => restarted(rap_set(shown, 1)),
        _ => v,
    }
}

/// The menu properties that a step announces as changed, if any.
pub open spec fn updates_after(s: MainState, info: AppInfo) -> Option<Seq<(i32, Seq<(Seq<char>, PropertyValueView)>)>> {
    let n = state_after(s, info);
    let pu = phase_updates(phase_text(n.phase));
    let ru = if n.phase == Phase::Working { rap_updates(n.rap_counter) } else { Seq::empty() };
    match info {
        AppInfo::TimerFinished => Some(pu + ru + status_updates(TimerControllerStatus::Running)),
        AppInfo::TimerSkipped => Some(pu + ru),
        AppInfo::TimerReset | AppInfo::ReceivedConfigure(_) => Some(pu + rap_updates(1)),
        AppInfo::ReceivedExternalStart => Some(pu + rap_updates(1) + status_updates(TimerControllerStatus::Running)),
        _ => None,
    }
}

/// Whether a step shows a new icon.
pub open spec fn icon_changes(info: AppInfo) -> bool {
    info is TimerStarted || info is Minutes || info is TimerReset || info is TimerSkipped || info is ReceivedConfigure
}

/// Whether the icon `f` is what a step makes of the icon `o`: the minutes
/// of a started timer in its phase's colours, the minutes left (colours
/// kept), or the minutes and colours of the phase that a reset, skip or new
/// configuration leads to.
pub open spec fn icon_after(f: StatusNotifierItem, o: StatusNotifierItem, s: MainState, info: AppInfo) -> bool {
    let n = state_after(s, info);
    match info {
        AppInfo::TimerStarted(m) => shows_minutes(f.bitmap, m) && (f.font_color, f.bg_color) == phase_colors(
            s.config,
            s.phase,
        ),
        AppInfo::Minutes(m) => shows_minutes(f.bitmap, m) && f.font_color == o.font_color && f.bg_color == o.bg_color,
        AppInfo::TimerReset | AppInfo::TimerSkipped | AppInfo::ReceivedConfigure(_) => shows_minutes(
            f.bitmap,
            phase_minutes(n.config, n.phase),
        ) && (f.font_color, f.bg_color) == phase_colors(n.config, n.phase),
        _ => f == o,
    }
}

/// The audio commands of a new configuration: its sound files, where set,
/// then its volume.
pub open spec fn config_audio(c: AppConfig) -> Seq<AudioCommand> {
    let b2w = match c.sound_break_to_work {
        StringOpt::Value(f) => seq![AudioCommand::ChangeFile { file: f, sound_file_type: SoundFileType::Break2Work }],
        StringOpt::Empty => Seq::empty(),
    };
    let w2b = match c.sound_work_to_break {
        StringOpt::Value(f) => seq![AudioCommand::ChangeFile { file: f, sound_file_type: SoundFileType::Work2Break }],
        StringOpt::Empty => Seq::empty(),
    };
    b2w + w2b + seq![AudioCommand::ChangeVolume(c.sound_volume)]
}

/// The audio commands of a step: the start sound of the phase when a timer
/// starts, the settings of a new configuration.
pub open spec fn audio_after(s: MainState, info: AppInfo) -> Seq<AudioCommand> {
    match info {
        AppInfo::TimerStarted(_) => seq![AudioCommand::Play { sound_file_type: start_sound(s.phase) }],
        AppInfo::ReceivedConfigure(c) => config_audio(c),
        _ => Seq::empty(),
    }
}

/// Whether the menu shows the phase and the rap of the state.
pub open spec fn menu_shows_state(v: DbusMenuView, s: MainState) -> bool {
    &&& tree_property(v.tree, PHASE_ID, "label"@) == Some(PropertyValueView::Str(phase_label(phase_text(s.phase))))
    &&& tree_property(v.tree, RAP_ID, "label"@) == Some(PropertyValueView::Str(rap_label(s.rap_counter)))
}

/// An update list of two parts is the two update lists one after the other.
pub proof fn lemma_update_view_concat(a: Seq<(i32, MenuProperties)>, b: Seq<(i32, MenuProperties)>)
    ensures
        update_view(a + b) == update_view(a) + update_view(b),
{
    assert(update_view(a + b) =~= update_view(a) + update_view(b));
}

/// Whether `x` is one of the raps of `v`.
fn contains_rap(v: &Vec<u32>, x: u32) -> (r: bool)
    ensures
        r == v@.contains(x),
{
    let n = v.len();
    let mut i: usize = 0;
    while i < n
        invariant
            n == v@.len(),
            i <= n,
            forall|k: int| 0 <= k < i ==> v@[k] != x,
        decreases n - i,
    {
        if v[i] == x {
            assert(v@[i as int] == x);
            return true;
        }
        i += 1;
    }
    false
}

/// Shows the minutes `m` in the colours `colors`.
fn show_minutes(sni: &mut StatusNotifierItem, m: TimerMinute, colors: (Rgb, Rgb))
    ensures
        shows_minutes(final(sni).bitmap, m),
        final(sni).font_color == colors.0,
        final(sni).bg_color == colors.1,
{
    sni.bitmap = minute_bitmap(m);
    sni.font_color = colors.0;
    sni.bg_color = colors.1;
}

impl MainState {
    /// The first working period under `config`.
    pub fn new(config: AppConfig) -> (r: Self)
        ensures
            r.phase == Phase::Working,
            r.rap_counter == 1,
            r.config == config,
    {
        MainState { phase: Phase::Working, rap_counter: 1, config }
    }

    /// Whether a step on `info` stays within the numbers (see
    /// [`step_in_range`]).
    pub fn can_handle(&self, info: &AppInfo) -> (r: bool)
        ensures
            r == step_in_range(*self, *info),
    {
        match info {
            AppInfo::TimerFinished | AppInfo::TimerSkipped => match self.phase {
                Phase::Working => match &self.config.long_break_pos {
                    LongBreakPos::EveryRap(e) => *e != 0,
                    LongBreakPos::SpecificRap(_) => true,
                },
                _ => self.rap_counter < u32::MAX,
            },
            _ => true,
        }
    }

    /// The minutes of the current phase.
    fn minutes_of_phase(&self) -> (r: TimerMinute)
        ensures
            r == phase_minutes(self.config, self.phase),
    {
        match self.phase {
            Phase::Working => self.config.work_time,
            Phase::ShortBreak => self.config.short_break_time,
            Phase::LongBreak => self.config.long_break_time,
        }
    }

    /// The icon colours of the current phase.
    fn colors_of_phase(&self) -> (r: (Rgb, Rgb))
        ensures
            r == phase_colors(self.config, self.phase),
    {
        match self.phase {
            Phase::Working => (self.config.work_font_color, self.config.work_bg_color),
            Phase::ShortBreak => (self.config.short_break_font_color, self.config.short_break_bg_color),
            Phase::LongBreak => (self.config.long_break_font_color, self.config.long_break_bg_color),
        }
    }

    /// Moves to the next phase, counting a new rap when work begins.
    fn advance_phase(&mut self)
        requires
            step_in_range(*old(self), AppInfo::TimerFinished),
        ensures
            *final(self) == state_after(*old(self), AppInfo::TimerFinished),
    {
        let next = match self.phase {
            Phase::Working => match &self.config.long_break_pos {
                LongBreakPos::EveryRap(every) => {
                    if self.rap_counter % *every == 0 {
                        Phase::LongBreak
                    } else {
                        Phase::ShortBreak
                    }
                },
                LongBreakPos::SpecificRap(raps) => {
                    if contains_rap(raps, self.rap_counter) {
                        Phase::LongBreak
                    } else {
                        Phase::ShortBreak
                    }
                },
            },
            _ => Phase::Working,
        };
        self.phase = next;
        match next {
            Phase::Working => {
                self.rap_counter = self.rap_counter + 1;
            },
            _ => {},
        }
    }

    /// Sets the next timer's minutes and shows the phase in the menu, and
    /// the rap when `with_rap`.
    fn show_phase(&self, menu: &mut DbusMenu, with_rap: bool) -> (r: UpdateProperties)
        ensures
            ({
                let shown = phase_set(
                    DbusMenuView { time: phase_minutes(self.config, self.phase), ..old(menu)@ },
                    phase_text(self.phase),
                );
                final(menu)@ == if with_rap { rap_set(shown, self.rap_counter) } else { shown }
            }),
            update_view(r@) == phase_updates(phase_text(self.phase)) + (if with_rap {
                rap_updates(self.rap_counter)
            } else {
                Seq::empty()
            }),
            menu_wf(old(menu)@) ==> menu_wf(final(menu)@),
            has_control_items(old(menu)@.tree) ==> has_control_items(final(menu)@.tree) && tree_property(
                final(menu)@.tree,
                PHASE_ID,
                "label"@,
            ) == Some(PropertyValueView::Str(phase_label(phase_text(self.phase)))),
            has_control_items(old(menu)@.tree) && with_rap ==> tree_property(final(menu)@.tree, RAP_ID, "label"@) == Some(
                PropertyValueView::Str(rap_label(self.rap_counter)),
            ),
            !with_rap ==> tree_property(final(menu)@.tree, RAP_ID, "label"@) == tree_property(old(menu)@.tree, RAP_ID, "label"@),
    {
        proof {
            if has_control_items(menu@.tree) {
                lemma_property_insert(
                    menu@.tree[PHASE_ID].properties,
                    "label"@,
                    PropertyValueView::Str(phase_label(phase_text(self.phase))),
                );
            }
        }
        menu.set_time(self.minutes_of_phase());
        let mut updates = menu.set_phase_name(String::from(self.phase)).unwrap();
        if with_rap {
            proof {
                if has_control_items(menu@.tree) {
                    lemma_property_insert(
                        menu@.tree[RAP_ID].properties,
                        "label"@,
                        PropertyValueView::Str(rap_label(self.rap_counter)),
                    );
                }
            }
            let mut rap_updates_list = menu.set_rap(self.rap_counter).unwrap();
            let ghost a = updates@;
            let ghost b = rap_updates_list@;
            updates.append(&mut rap_updates_list);
            proof {
                lemma_update_view_concat(a, b);
            }
        } else {
            assert(update_view(updates@) + Seq::empty() =~= update_view(updates@));
        }
        updates
    }

    /// Makes the controller pending and then starts it: the changed
    /// properties, and the start with the menu's minutes for the timer.
    fn restart_menu(menu: &mut DbusMenu) -> (r: (UpdateProperties, TimerCommand))
        ensures
            final(menu)@ == restarted(old(menu)@),
            update_view(r.0@) == status_updates(TimerControllerStatus::Running),
            r.1 == TimerCommand::Start(old(menu)@.time),
            menu_wf(old(menu)@) ==> menu_wf(final(menu)@),
            has_control_items(old(menu)@.tree) ==> has_control_items(final(menu)@.tree) && tree_property(
                final(menu)@.tree,
                PHASE_ID,
                "label"@,
            ) == tree_property(old(menu)@.tree, PHASE_ID, "label"@) && tree_property(final(menu)@.tree, RAP_ID, "label"@)
                == tree_property(old(menu)@.tree, RAP_ID, "label"@),
    {
        proof {
            if has_control_items(menu@.tree) {
                lemma_status_tree_agrees(menu@.tree, TimerControllerStatus::Pending);
                lemma_status_tree_agrees(
                    menu_with_status(menu@, TimerControllerStatus::Pending).tree,
                    TimerControllerStatus::Running,
                );
            }
        }
        let _ = menu.pending();
        let started = menu.start();
        (started.updates, started.command.unwrap())
    }

    /// Handles one message of the timer or the controller. The menu and
    /// the icon are changed here; the returned step says which command the
    /// timer is sent, what to announce and which audio commands to send.
    pub fn handle_info(&mut self, info: AppInfo, menu: &mut DbusMenu, sni: &mut StatusNotifierItem) -> (r: MainStep)
        requires
            step_in_range(*old(self), info),
        ensures
            *final(self) == state_after(*old(self), info),
            final(menu)@ == menu_after(old(menu)@, *old(self), info),
            icon_after(*final(sni), *old(sni), *old(self), info),
            r.timer_command == timer_command_after(*old(self), info),
            r.audio@ == audio_after(*old(self), info),
            r.icon_changed == icon_changes(info),
            r.terminate == (info is TimerTerminated),
            match updates_after(*old(self), info) {
                Some(u) => r.menu_updates matches Some(x) && update_view(x@) == u,
                None => r.menu_updates is None,
            },
            menu_wf(old(menu)@) ==> menu_wf(final(menu)@),
            menu_wf(old(menu)@) && menu_shows_state(old(menu)@, *old(self)) ==> menu_shows_state(
                final(menu)@,
                *final(self),
            ),
    {
        let ghost s0 = *self;
        let ghost info0 = info;
        match info {
            AppInfo::TimerStarted(start_minutes) => {
                let sound = match self.phase {
                    Phase::Working => SoundFileType::Break2Work,
                    _ => SoundFileType::Work2Break,
                };
                let mut audio: Vec<AudioCommand> = Vec::new();
                audio.push(AudioCommand::Play { sound_file_type: sound });
                show_minutes(sni, start_minutes, self.colors_of_phase());
                assert(audio@ =~= audio_after(s0, info0));
                MainStep { timer_command: None, audio, menu_updates: None, icon_changed: true, terminate: false }
            },
            AppInfo::Minutes(rest_minutes) => {
                sni.bitmap = minute_bitmap(rest_minutes);
                MainStep { timer_command: None, audio: Vec::new(), menu_updates: None, icon_changed: true, terminate: false }
            },
            AppInfo::TimerFinished => {
                self.advance_phase();
                let with_rap = match self.phase {
                    Phase::Working => true,
                    _ => false,
                };
                let mut updates = self.show_phase(menu, with_rap);
                let (mut started, command) = Self::restart_menu(menu);
                let ghost a = updates@;
                let ghost b = started@;
                updates.append(&mut started);
                proof {
                    lemma_update_view_concat(a, b);
                }
                MainStep {
                    timer_command: Some(command),
                    audio: Vec::new(),
                    menu_updates: Some(updates),
                    icon_changed: false,
                    terminate: false,
                }
            },
            AppInfo::TimerReset => {
                self.phase = Phase::Working;
                self.rap_counter = 1;
                let updates = self.show_phase(menu, true);
                show_minutes(sni, self.minutes_of_phase(), self.colors_of_phase());
                MainStep { timer_command: None, audio: Vec::new(), menu_updates: Some(updates), icon_changed: true, terminate: false }
            },
            AppInfo::TimerSkipped => {
                self.advance_phase();
                let with_rap = match self.phase {
                    Phase::Working => true,
                    _ => false,
                };
                let updates = self.show_phase(menu, with_rap);
                show_minutes(sni, self.minutes_of_phase(), self.colors_of_phase());
                MainStep { timer_command: None, audio: Vec::new(), menu_updates: Some(updates), icon_changed: true, terminate: false }
            },
            AppInfo::ReceivedConfigure(configure) => {
                self.config = configure;
                self.phase = Phase::Working;
                self.rap_counter = 1;
                let updates = self.show_phase(menu, true);
                show_minutes(sni, self.minutes_of_phase(), self.colors_of_phase());
                let mut audio: Vec<AudioCommand> = Vec::new();
                match &self.config.sound_break_to_work {
                    StringOpt::Value(file) => {
                        audio.push(AudioCommand::ChangeFile { file: file.clone(), sound_file_type: SoundFileType::Break2Work });
                    },
                    StringOpt::Empty => {},
                }
                match &self.config.sound_work_to_break {
                    StringOpt::Value(file) => {
                        audio.push(AudioCommand::ChangeFile { file: file.clone(), sound_file_type: SoundFileType::Work2Break });
                    },
                    StringOpt::Empty => {},
                }
                audio.push(AudioCommand::ChangeVolume(self.config.sound_volume.clone()));
                assert(audio@ =~= config_audio(self.config));
                MainStep { timer_command: None, audio, menu_updates: Some(updates), icon_changed: true, terminate: false }
            },
            AppInfo::ReceivedExternalStart => {
                self.phase = Phase::Working;
                self.rap_counter = 1;
                let mut updates = self.show_phase(menu, true);
                let (mut started, command) = Self::restart_menu(menu);
                let ghost a = updates@;
                let ghost b = started@;
                updates.append(&mut started);
                proof {
                    lemma_update_view_concat(a, b);
                }
                MainStep {
                    timer_command: Some(command),
                    audio: Vec::new(),
                    menu_updates: Some(updates),
                    icon_changed: false,
                    terminate: false,
                }
            },
            AppInfo::TimerTerminated => {
                MainStep { timer_command: None, audio: Vec::new(), menu_updates: None, icon_changed: false, terminate: true }
            },
            _ => MainStep { timer_command: None, audio: Vec::new(), menu_updates: None, icon_changed: false, terminate: false },
        }
    }
}

/// The menu as first shown agrees with the first working period: it shows
/// the phase Working and the rap 1, and the controller as pending.
pub proof fn lemma_first_menu_shows_first_state(s: MainState, time: TimerMinute)
    requires
        s.phase == Phase::Working,
        s.rap_counter == 1,
    ensures
        menu_shows_state(
            DbusMenuView { tree: default_tree(), revision: 1, status: TimerControllerStatus::Pending, time },
            s,
        ),
{
    reveal_strlit("label");
    reveal_strlit("enabled");
    reveal_strlit("Rap: 1");
    reveal_strlit("Rap: ");
    reveal_strlit("Phase: Working");
    reveal_strlit("Phase: ");
    reveal_strlit("Working");
    let t = default_tree();
    assert(t[PHASE_ID].properties.last().0 == "enabled"@);
    assert(t[PHASE_ID].properties.drop_last() =~= seq![(("label"@), PropertyValueView::Str("Phase: Working"@))]);
    assert(t[RAP_ID].properties.drop_last() =~= seq![(("label"@), PropertyValueView::Str("Rap: 1"@))]);
    assert(property_lookup(t[PHASE_ID].properties, "label"@) == Some(PropertyValueView::Str("Phase: Working"@))) by {
        reveal_with_fuel(property_position, 3);
    }
    assert(property_lookup(t[RAP_ID].properties, "label"@) == Some(PropertyValueView::Str("Rap: 1"@))) by {
        reveal_with_fuel(property_position, 3);
    }
    assert(decimal_text(1) =~= seq!['1']) by {
        reveal_with_fuel(decimal_text, 2);
    }
    assert(phase_label(phase_text(Phase::Working)) =~= "Phase: Working"@);
    assert(rap_label(1) =~= "Rap: 1"@);
}

/// Work and breaks alternate: a working period is followed by a break, a
/// break by a working period.
pub proof fn lemma_phases_alternate(p: Phase, rap: u32, pos: LongBreakPosView)
    ensures
        (next_phase(p, rap, pos) == Phase::Working) <==> (p != Phase::Working),
{
}

/// A whole cycle, a working period and the break after it, ends in the next
/// working period with the rap counted up by one; the break is long exactly
/// when the rap is a long break position.
pub proof fn lemma_cycle_counts_one_rap(s: MainState, info: AppInfo)
    requires
        s.phase == Phase::Working,
        info is TimerFinished || info is TimerSkipped,
        step_in_range(s, info),
        s.rap_counter < u32::MAX,
    ensures
        state_after(state_after(s, info), info).phase == Phase::Working,
        state_after(state_after(s, info), info).rap_counter == s.rap_counter + 1,
        state_after(state_after(s, info), info).config == s.config,
        (state_after(s, info).phase == Phase::LongBreak) == match s.config.long_break_pos@ {
            LongBreakPosView::EveryRap(every) => s.rap_counter % every == 0,
            LongBreakPosView::SpecificRap(v) => v.contains(s.rap_counter),
        },
{
}

/// The icon of each phase is drawn in that phase's own configured colours:
/// its font colour as the digits, its background colour behind them.
pub proof fn lemma_phase_colors_are_configured(c: AppConfig)
    ensures
        phase_colors(c, Phase::Working) == (c.work_font_color, c.work_bg_color),
        phase_colors(c, Phase::ShortBreak) == (c.short_break_font_color, c.short_break_bg_color),
        phase_colors(c, Phase::LongBreak) == (c.long_break_font_color, c.long_break_bg_color),
{
}

/// A started timer plays the sound of the change it begins: the start of
/// work plays the break-to-work sound, the start of a break the
/// work-to-break sound; and each phase runs for its own configured minutes.
pub proof fn lemma_phase_sounds_and_minutes(s: MainState, m: TimerMinute, c: AppConfig)
    ensures
        audio_after(s, AppInfo::TimerStarted(m)) == seq![
            AudioCommand::Play {
                sound_file_type: if s.phase == Phase::Working {
                    SoundFileType::Break2Work
                } else {
                    SoundFileType::Work2Break
                },
            },
        ],
        phase_minutes(c, Phase::Working) == c.work_time,
        phase_minutes(c, Phase::ShortBreak) == c.short_break_time,
        phase_minutes(c, Phase::LongBreak) == c.long_break_time,
{
}

/// After the end of a timer the timer is started for the minutes of the
/// next phase: a break after work (the long one on the configured raps),
/// work after a break; an outside start starts work.
pub proof fn lemma_finished_timer_starts_next_phase(s: MainState)
    requires
        step_in_range(s, AppInfo::TimerFinished),
    ensures
        ({
            let p = next_phase(s.phase, s.rap_counter, s.config.long_break_pos@);
            &&& s.phase != Phase::Working ==> p == Phase::Working
            &&& timer_command_after(s, AppInfo::TimerFinished) == Some(TimerCommand::Start(phase_minutes(s.config, p)))
        }),
        timer_command_after(s, AppInfo::ReceivedExternalStart) == Some(TimerCommand::Start(s.config.work_time)),
        timer_command_after(s, AppInfo::TimerSkipped) is None,
        timer_command_after(s, AppInfo::TimerReset) is None,
{
}

/// A reset and an outside start go back to the first working period with
/// the same configuration; a new configuration does the same with the new
/// one, and hands the audio loop each chosen sound file under its own kind
/// and then the volume.
pub proof fn lemma_restarts_and_new_configurations(s: MainState, c: AppConfig)
    ensures
        state_after(s, AppInfo::TimerReset) == (MainState { phase: Phase::Working, rap_counter: 1, config: s.config }),
        state_after(s, AppInfo::ReceivedExternalStart) == (MainState {
            phase: Phase::Working,
            rap_counter: 1,
            config: s.config,
        }),
        state_after(s, AppInfo::ReceivedConfigure(c)) == (MainState { phase: Phase::Working, rap_counter: 1, config: c }),
        audio_after(s, AppInfo::ReceivedConfigure(c)) == sound_file_changes(c) + seq![
            AudioCommand::ChangeVolume(c.sound_volume),
        ],
{
}

/// The sound files of a configuration, break-to-work first, each under its
/// own kind.
pub open spec fn sound_file_changes(c: AppConfig) -> Seq<AudioCommand> {
    let first: Seq<AudioCommand> = match c.sound_break_to_work {
        StringOpt::Value(f) => seq![(AudioCommand::ChangeFile { file: f, sound_file_type: SoundFileType::Break2Work })],
        StringOpt::Empty => seq![],
    };
    let second: Seq<AudioCommand> = match c.sound_work_to_break {
        StringOpt::Value(f) => seq![(AudioCommand::ChangeFile { file: f, sound_file_type: SoundFileType::Work2Break })],
        StringOpt::Empty => seq![],
    };
    first + second
}

} // verus!
