use vstd::prelude::*;

use lexopt::{Arg, Parser, ValueExt};

use crate::config::{config_key, config_with_text, field_index, is_sound_field, AppConfig, AppConfigView, ConfigField};
use crate::error::AppError;
use crate::types::SoundVolume;

verus! {

/// The command line parser of `lexopt`.
#[verifier::external_type_specification]
#[verifier::external_body]
pub struct ExParser(Parser);

/// The error of `lexopt`.
#[verifier::external_type_specification]
#[verifier::external_body]
pub struct ExLexoptError(lexopt::Error);

/// The subcommands of the program.
#[derive(Debug, Clone, Copy, PartialEq, Eq, Structural)]
pub enum CliSubcommand {
    /// The timer itself.
    App,
    /// The interactive settings dialog, which talks to a running timer.
    Configure,
    /// Starts a running timer from outside.
    Start,
}

/// How much the program logs.
#[derive(Debug, Clone, Copy, PartialEq, Eq, Structural)]
pub enum LogLevel {
    Info,
    Debug,
}

/// The parsed command line.
pub struct Args {
    pub subcommand: CliSubcommand,
    pub log_level: LogLevel,
    pub app_config: AppConfig,
}

/// What the command line asks for: a run, or the help text.
pub enum ArgsOutcome {
    Run(Args),
    Help,
}

/// An item of the command line as `lexopt` reads it.
#[derive(Debug)]
pub enum CliArg {
    /// A short option such as `-d`.
    Short(char),
    /// A long option such as `--debug`, without the dashes.
    Long(String),
    /// A positional argument.
    Value(String),
}

/// What an option of the `app` subcommand asks for.
#[derive(Debug, Clone, Copy, PartialEq, Eq, Structural)]
pub enum CliOption {
    Help,
    Debug,
    /// Read the next argument into a setting.
    Setting(ConfigField),
    Unexpected,
}

/// The message for a first argument that names no subcommand.
pub open spec fn subcommand_message() -> Seq<char> {
    "pomodoro-sni has two subcommand \"pomodoro-sni app\" and \"pomodoro-sni configure\"."@
}

/// What the first argument asks for: a subcommand (`app` when there is
/// none), the help text (`None`), or nothing known (an error).
pub open spec fn first_word_meaning(w: Option<Seq<char>>) -> Option<Option<CliSubcommand>> {
    match w {
        None => Some(Some(CliSubcommand::App)),
        Some(t) => if t == "app"@ {
            Some(Some(CliSubcommand::App))
        } else if t == "configure"@ {
            Some(Some(CliSubcommand::Configure))
        } else if t == "start"@ {
            Some(Some(CliSubcommand::Start))
        } else if t == "-h"@ || t == "--help"@ {
            Some(None)
        } else {
            None
        },
    }
}

/// The meaning of an option of the `app` subcommand.
pub open spec fn option_meaning(a: CliArg) -> CliOption {
    match a {
        CliArg::Short(c) => short_option_meaning(c),
        CliArg::Long(s) => long_option_meaning(s@),
        CliArg::Value(_) => CliOption::Unexpected,
    }
}

/// The meaning of a short option, by its letter.
pub open spec fn short_option_meaning(c: char) -> CliOption {
    if c == 'h' {
        CliOption::Help
    } else if c == 'd' {
        CliOption::Debug
    } else {
        CliOption::Unexpected
    }
}

/// The meaning of a long option, by its name.
pub open spec fn long_option_meaning(s: Seq<char>) -> CliOption {
    if s == "help"@ {
        CliOption::Help
    } else if s == "debug"@ {
        CliOption::Debug
    } else if s == "work-time"@ {
        CliOption::Setting(ConfigField::WorkTime)
    } else if s == "short-break-time"@ {
        CliOption::Setting(ConfigField::ShortBreakTime)
    } else if s == "long-break-time"@ {
        CliOption::Setting(ConfigField::LongBreakTime)
    } else if s == "work-font-color"@ {
        CliOption::Setting(ConfigField::WorkFontColor)
    } else if s == "work-bg-color"@ {
        CliOption::Setting(ConfigField::WorkBgColor)
    } else if s == "short-break-font-color"@ {
        CliOption::Setting(ConfigField::ShortBreakFontColor)
    } else if s == "short-break-bg-color"@ {
        CliOption::Setting(ConfigField::ShortBreakBgColor)
    } else if s == "long-break-font-color"@ {
        CliOption::Setting(ConfigField::LongBreakFontColor)
    } else if s == "long-break-bg-color"@ {
        CliOption::Setting(ConfigField::LongBreakBgColor)
    } else if s == "break2work-path"@ {
        CliOption::Setting(ConfigField::SoundBreakToWork)
    } else if s == "work2break-path"@ {
        CliOption::Setting(ConfigField::SoundWorkToBreak)
    } else if s == "long-break-pos"@ {
        CliOption::Setting(ConfigField::LongBreakPos)
    } else if s == "sound-volume"@ {
        CliOption::Setting(ConfigField::SoundVolume)
    } else {
        CliOption::Unexpected
    }
}

/// A settings file key as a command line option name: `_` becomes `-`.
pub open spec fn option_name_of_key(key: Seq<char>) -> Seq<char> {
    key.map_values(|ch: char| if ch == '_' { '-' } else { ch })
}

/// Each setting but the sound files has the long option named after its
/// key in the settings file (`long_break_bg_color` gives
/// `--long-break-bg-color`), and that option sets exactly that setting; the
/// sound files are set by `--break2work-path` and `--work2break-path`.
pub proof fn lemma_options_are_named_after_their_settings(f: ConfigField)
    ensures
        !is_sound_field(f) ==> long_option_meaning(option_name_of_key(config_key(field_index(f))))
            == CliOption::Setting(f),
        f == ConfigField::SoundBreakToWork ==> long_option_meaning("break2work-path"@) == CliOption::Setting(f),
        f == ConfigField::SoundWorkToBreak ==> long_option_meaning("work2break-path"@) == CliOption::Setting(f),
{
    reveal_strlit("help");
    reveal_strlit("debug");
    reveal_strlit("work-time");
    reveal_strlit("short-break-time");
    reveal_strlit("long-break-time");
    reveal_strlit("work-font-color");
    reveal_strlit("work-bg-color");
    reveal_strlit("short-break-font-color");
    reveal_strlit("short-break-bg-color");
    reveal_strlit("long-break-font-color");
    reveal_strlit("long-break-bg-color");
    reveal_strlit("break2work-path");
    reveal_strlit("work2break-path");
    reveal_strlit("long-break-pos");
    reveal_strlit("sound-volume");
    reveal_strlit("work_font_color");
    reveal_strlit("work_bg_color");
    reveal_strlit("short_break_font_color");
    reveal_strlit("short_break_bg_color");
    reveal_strlit("long_break_font_color");
    reveal_strlit("long_break_bg_color");
    reveal_strlit("work_time");
    reveal_strlit("short_break_time");
    reveal_strlit("long_break_time");
    reveal_strlit("long_break_pos");
    reveal_strlit("sound_volume");
    let n = option_name_of_key(config_key(field_index(f)));
    match f {
        ConfigField::WorkFontColor => {
            assert(n =~= "work-font-color"@);
            assert("work-font-color"@[0] != "long-break-time"@[0]);
        },
        ConfigField::WorkBgColor => {
            assert(n =~= "work-bg-color"@);
        },
        ConfigField::ShortBreakFontColor => {
            assert(n =~= "short-break-font-color"@);
        },
        ConfigField::ShortBreakBgColor => {
            assert(n =~= "short-break-bg-color"@);
        },
        ConfigField::LongBreakFontColor => {
            assert(n =~= "long-break-font-color"@);
        },
        ConfigField::LongBreakBgColor => {
            assert(n =~= "long-break-bg-color"@);
        },
        ConfigField::WorkTime => {
            assert(n =~= "work-time"@);
        },
        ConfigField::ShortBreakTime => {
            assert(n =~= "short-break-time"@);
        },
        ConfigField::LongBreakTime => {
            assert(n =~= "long-break-time"@);
        },
        ConfigField::LongBreakPos => {
            assert(n =~= "long-break-pos"@);
        },
        ConfigField::SoundVolume => {
            assert(n =~= "sound-volume"@);
        },
        ConfigField::SoundBreakToWork => {
            assert("break2work-path"@[0] != "long-break-time"@[0]);
            assert("break2work-path"@[0] != "work-font-color"@[0]);
        },
        ConfigField::SoundWorkToBreak => {
            assert("work2break-path"@[0] != "long-break-time"@[0]);
            assert("work2break-path"@[4] != "work-font-color"@[4]);
            assert("work2break-path"@[0] != "break2work-path"@[0]);
        },
    }
}

/// `-h` and `--help` ask for the help text, `-d` and `--debug` for debug
/// logging; the first word names the subcommand: `app` (or no word) the
/// timer, `configure` the settings dialog, `start` an outside start, `-h`
/// and `--help` the help text, and any other word is refused.
pub proof fn lemma_help_debug_and_subcommands(w: Seq<char>)
    ensures
        short_option_meaning('h') == CliOption::Help,
        short_option_meaning('d') == CliOption::Debug,
        long_option_meaning("help"@) == CliOption::Help,
        long_option_meaning("debug"@) == CliOption::Debug,
        first_word_meaning(None) == Some(Some(CliSubcommand::App)),
        first_word_meaning(Some("app"@)) == Some(Some(CliSubcommand::App)),
        first_word_meaning(Some("configure"@)) == Some(Some(CliSubcommand::Configure)),
        first_word_meaning(Some("start"@)) == Some(Some(CliSubcommand::Start)),
        first_word_meaning(Some("-h"@)) == Some(None::<CliSubcommand>),
        first_word_meaning(Some("--help"@)) == Some(None::<CliSubcommand>),
        w != "app"@ && w != "configure"@ && w != "start"@ && w != "-h"@ && w != "--help"@ ==> first_word_meaning(
            Some(w),
        ) is None,
{
    reveal_strlit("help");
    reveal_strlit("debug");
    reveal_strlit("app");
    reveal_strlit("configure");
    reveal_strlit("start");
    reveal_strlit("-h");
    reveal_strlit("--help");
    assert("debug"@.len() != "help"@.len());
    assert("configure"@.len() != "app"@.len());
    assert("start"@.len() != "app"@.len());
    assert("start"@.len() != "configure"@.len());
    assert("-h"@.len() != "app"@.len());
    assert("--help"@.len() != "app"@.len());
}

/// Whether two strings hold the same characters.
fn same_text(a: &str, b: &str) -> (r: bool)
    ensures
        r == (a@ == b@),
{
    crate::text::str_eq(a, b)
}

/// What the first argument asks for (see [`first_word_meaning`]).
pub fn choose_subcommand(word: Option<String>) -> (r: Result<Option<CliSubcommand>, AppError>)
    ensures
        match first_word_meaning(
            match word {
                Some(w) => Some(w@),
                None => None,
            },
        ) {
            Some(x) => r == Ok::<Option<CliSubcommand>, AppError>(x),
            None => r matches Err(AppError::ArgError(m)) && m@ == subcommand_message(),
        },
{
    match word {
        None => Ok(Some(CliSubcommand::App)),
        Some(w) => {
            let t = w.as_str();
            if same_text(t, "app") {
                Ok(Some(CliSubcommand::App))
            } else if same_text(t, "configure") {
                Ok(Some(CliSubcommand::Configure))
            } else if same_text(t, "start") {
                Ok(Some(CliSubcommand::Start))
            } else if same_text(t, "-h") || same_text(t, "--help") {
                Ok(None)
            } else {
                Err(
                    AppError::ArgError(
                        "pomodoro-sni has two subcommand \"pomodoro-sni app\" and \"pomodoro-sni configure\".".to_owned(),
                    ),
                )
            }
        },
    }
}

/// The meaning of an option of the `app` subcommand (see
/// [`option_meaning`]).
pub fn classify_option(arg: &CliArg) -> (r: CliOption)
    ensures
        r == option_meaning(*arg),
{
    match arg {
        CliArg::Short(c) => {
            if *c == 'h' {
                CliOption::Help
            } else if *c == 'd' {
                CliOption::Debug
            } else {
                CliOption::Unexpected
            }
        },
        CliArg::Long(s) => {
            let s = s.as_str();
            if same_text(s, "help") {
                CliOption::Help
            } else if same_text(s, "debug") {
                CliOption::Debug
            } else if same_text(s, "work-time") {
                CliOption::Setting(ConfigField::WorkTime)
            } else if same_text(s, "short-break-time") {
                CliOption::Setting(ConfigField::ShortBreakTime)
            } else if same_text(s, "long-break-time") {
                CliOption::Setting(ConfigField::LongBreakTime)
            } else if same_text(s, "work-font-color") {
                CliOption::Setting(ConfigField::WorkFontColor)
            } else if same_text(s, "work-bg-color") {
                CliOption::Setting(ConfigField::WorkBgColor)
            } else if same_text(s, "short-break-font-color") {
                CliOption::Setting(ConfigField::ShortBreakFontColor)
            } else if same_text(s, "short-break-bg-color") {
                CliOption::Setting(ConfigField::ShortBreakBgColor)
            } else if same_text(s, "long-break-font-color") {
                CliOption::Setting(ConfigField::LongBreakFontColor)
            } else if same_text(s, "long-break-bg-color") {
                CliOption::Setting(ConfigField::LongBreakBgColor)
            } else if same_text(s, "break2work-path") {
                CliOption::Setting(ConfigField::SoundBreakToWork)
            } else if same_text(s, "work2break-path") {
                CliOption::Setting(ConfigField::SoundWorkToBreak)
            } else if same_text(s, "long-break-pos") {
                CliOption::Setting(ConfigField::LongBreakPos)
            } else if same_text(s, "sound-volume") {
                CliOption::Setting(ConfigField::SoundVolume)
            } else {
                CliOption::Unexpected
            }
        },
        CliArg::Value(_) => CliOption::Unexpected,
    }
}

/// The arguments that a `lexopt` parser has not handed out yet, each by its
/// text. The parser holds them in a list that it walks from the front.
pub uninterp spec fn parser_args(p: Parser) -> Seq<Seq<char>>;

/// Where a `lexopt` parser stands in its arguments.
pub enum ParserPosition {
    /// Between two arguments: no part of an argument is left over, and no
    /// `--` was met.
    Between,
    /// After `--name=value`, with `value` left over.
    AfterEquals(Seq<char>),
    /// Anywhere else (inside `-abc`, or after `--`).
    Elsewhere,
}

/// Where a `lexopt` parser stands in its arguments.
pub uninterp spec fn parser_position(p: Parser) -> ParserPosition;

/// Whether a `lexopt` parser stands between two arguments.
pub open spec fn parser_clean(p: Parser) -> bool {
    parser_position(p) is Between
}

/// The texts of the arguments.
pub open spec fn arg_texts(args: Seq<String>) -> Seq<Seq<char>> {
    args.map_values(|a: String| a@)
}

/// `--name` with a name of at least one character and no `=`.
pub open spec fn is_long_flag(a: Seq<char>) -> bool {
    a.len() > 2 && a[0] == '-' && a[1] == '-' && !a.contains('=')
}

/// `-c` with one character `c` that is not `-`.
pub open spec fn is_short_flag(a: Seq<char>) -> bool {
    a.len() == 2 && a[0] == '-' && a[1] != '-'
}

/// `--name=value`: the name runs to the first `=`, the value from after it.
pub open spec fn is_long_with_value(a: Seq<char>) -> bool {
    a.len() > 2 && a[0] == '-' && a[1] == '-' && a.contains('=')
}

/// The place of the first `=` in `a` (its length when there is none).
pub open spec fn first_equals(a: Seq<char>) -> nat
    decreases a.len(),
{
    if a.len() == 0 {
        0
    } else if a[0] == '=' {
        0
    } else {
        1 + first_equals(a.drop_first())
    }
}

/// The name of `--name=value`.
pub open spec fn long_name(a: Seq<char>) -> Seq<char> {
    a.subrange(2, first_equals(a) as int)
}

/// The value of `--name=value`.
pub open spec fn long_value(a: Seq<char>) -> Seq<char> {
    a.subrange(first_equals(a) + 1int, a.len() as int)
}

/// An argument that `lexopt` hands out as a positional argument: one that
/// does not start with `-`, or `-` alone.
pub open spec fn is_plain_value(a: Seq<char>) -> bool {
    a.len() <= 1 || a[0] != '-'
}

/// Calls `Parser::from_args`: a parser over the arguments that follow the
/// program's name. `Parser::new` stores them in order, in the state that
/// stands between two arguments.
#[verifier::external_body]
fn lexopt_parser(args: Vec<String>) -> (p: Parser)
    ensures
        parser_args(p) == arg_texts(args@),
        parser_clean(p),
{
    Parser::from_args(args)
}

/// Calls `Parser::value`, then `ValueExt::parse::<String>` on the value.
/// Between two arguments, `value` hands out the next argument whole, or
/// fails when none is left; after `--name=value` it hands out `value` and
/// stands between two arguments again. The text of an argument that came
/// from a `String` always reads as a `String`.
#[verifier::external_body]
fn lexopt_value(parser: &mut Parser) -> (r: Result<String, lexopt::Error>)
    ensures
        parser_clean(*old(parser)) ==> parser_clean(*final(parser)),
        parser_position(*old(parser)) matches ParserPosition::AfterEquals(v) ==> (r matches Ok(x) && x@ == v
            && parser_clean(*final(parser)) && parser_args(*final(parser)) == parser_args(*old(parser))),
        parser_clean(*old(parser)) && parser_args(*old(parser)).len() > 0 ==> (r matches Ok(v) && v@ == parser_args(
            *old(parser),
        )[0] && parser_args(*final(parser)) == parser_args(*old(parser)).drop_first()),
        parser_clean(*old(parser)) && parser_args(*old(parser)).len() == 0 ==> (r is Err && parser_args(*final(parser))
            == parser_args(*old(parser))),
{
    parser.value()?.parse::<String>()
}

/// Calls `Parser::next`, handing the item out as a [`CliArg`] (a positional
/// argument as its text). Between two arguments: with none left it gives
/// `None`; `--name` gives the long option `name`, `-c` the short option
/// `c`, and an argument that does not start with `-` (or `-` alone) the
/// argument itself, each taking that one argument and leaving the parser
/// between two arguments again; `--name=value` gives the long option
/// `name` and leaves `value` over. With a value left over, `next` fails
/// (the value was not asked for) and stands between two arguments again.
/// What the other shapes give (`--`, `-abc`) is left unsaid.
#[verifier::external_body]
fn lexopt_next(parser: &mut Parser) -> (r: Result<Option<CliArg>, lexopt::Error>)
    ensures
        parser_position(*old(parser)) is AfterEquals ==> (r is Err && parser_clean(*final(parser)) && parser_args(
            *final(parser),
        ) == parser_args(*old(parser))),
        parser_clean(*old(parser)) && parser_args(*old(parser)).len() == 0 ==> (r matches Ok(None) && parser_clean(
            *final(parser),
        ) && parser_args(*final(parser)) == parser_args(*old(parser))),
        parser_clean(*old(parser)) && parser_args(*old(parser)).len() > 0 ==> ({
            let a = parser_args(*old(parser))[0];
            &&& is_long_flag(a) ==> (r matches Ok(Some(CliArg::Long(n))) && n@ == a.skip(2))
            &&& is_short_flag(a) ==> (r matches Ok(Some(CliArg::Short(c))) && c == a[1])
            &&& is_plain_value(a) ==> (r matches Ok(Some(CliArg::Value(v))) && v@ == a)
            &&& is_long_with_value(a) ==> (r matches Ok(Some(CliArg::Long(n))) && n@ == long_name(a) && parser_position(
                *final(parser),
            ) == ParserPosition::AfterEquals(long_value(a)) && parser_args(*final(parser)) == parser_args(
                *old(parser),
            ).drop_first())
            &&& is_long_flag(a) || is_short_flag(a) || is_plain_value(a) ==> (parser_clean(*final(parser))
                && parser_args(*final(parser)) == parser_args(*old(parser)).drop_first())
        }),
{
    Ok(
        match parser.next()? {
            None => None,
            Some(Arg::Short(c)) => Some(CliArg::Short(c)),
            Some(Arg::Long(s)) => Some(CliArg::Long(s.to_owned())),
            Some(Arg::Value(v)) => Some(CliArg::Value(v.to_string_lossy().into_owned())),
        },
    )
}

/// Calls `Arg::unexpected` on the item: the error for an option or
/// argument that the program does not take. Nothing is stated: the error is
/// opaque.
#[verifier::external_body]
fn lexopt_unexpected(arg: CliArg) -> lexopt::Error {
    match arg {
        CliArg::Short(c) => Arg::Short(c).unexpected(),
        CliArg::Long(s) => Arg::Long(&s).unexpected(),
        CliArg::Value(v) => Arg::Value(v.into()).unexpected(),
    }
}

/// The text of a `lexopt` error, as its `Display` writes it. Nothing is
/// stated of the text.
#[verifier::external_body]
fn lexopt_error_text(e: lexopt::Error) -> String {
    e.to_string()
}

/// The error of the application for an error of `lexopt`.
fn arg_error(e: lexopt::Error) -> (r: AppError)
    ensures
        r is ArgError,
{
    AppError::ArgError(lexopt_error_text(e))
}

/// One, and for each argument one more than its number of characters.
pub open spec fn args_budget(args: Seq<String>) -> int
    decreases args.len(),
{
    if args.len() == 0 {
        1
    } else {
        args_budget(args.drop_last()) + args.last()@.len() + 1
    }
}

/// The number of items that `lexopt` can hand out for these arguments: one
/// per argument and one per character at most (see [`args_budget`]), or
/// `usize::MAX` when that number does not fit.
fn item_budget(args: &Vec<String>) -> (r: usize)
    ensures
        r == if args_budget(args@) <= usize::MAX { args_budget(args@) } else { usize::MAX as int },
{
    let n = args.len();
    let mut total: usize = 1;
    let mut i: usize = 0;
    assert(args@.take(0) =~= Seq::<String>::empty());
    while i < n
        invariant
            n == args@.len(),
            i <= n,
            args_budget(args@.take(i as int)) >= 1,
            total == if args_budget(args@.take(i as int)) <= usize::MAX {
                args_budget(args@.take(i as int))
            } else {
                usize::MAX as int
            },
        decreases n - i,
    {
        let len = args[i].as_str().unicode_len();
        assert(args@.take(i + 1).drop_last() =~= args@.take(i as int));
        assert(args@.take(i + 1).last() == args@[i as int]);
        total = if total < usize::MAX && len < usize::MAX - total { total + len + 1 } else { usize::MAX };
        i += 1;
    }
    assert(args@.take(n as int) =~= args@);
    total
}

/// The meaning of an argument of `app` that `lexopt` hands out whole as
/// one item; nothing for the other shapes.
pub open spec fn item_meaning(a: Seq<char>) -> Option<CliOption> {
    if is_long_flag(a) {
        Some(long_option_meaning(a.skip(2)))
    } else if is_short_flag(a) {
        Some(short_option_meaning(a[1]))
    } else if is_plain_value(a) {
        Some(CliOption::Unexpected)
    } else {
        None
    }
}

/// Whether `r` is a result that reading the arguments `rest` of `app`, on
/// top of configuration `c` and log level `level`, may give, where the
/// volume is read by `f`: options are read in order; a help option gives
/// the help text; an option that the program does not take, a setting
/// without its value, or a value given to `--debug`, an error of the
/// argument reader; a setting's value is read as [`setting_result_allowed`]
/// says. What an argument that `lexopt` reads in parts (`-abc`) or one
/// after `--` gives is left open.
pub open spec fn app_result_allowed<F: Fn(String) -> Result<SoundVolume, AppError>>(
    f: F,
    c: AppConfigView,
    level: LogLevel,
    rest: Seq<Seq<char>>,
    r: Result<ArgsOutcome, AppError>,
) -> bool
    decreases rest.len(), 0int,
{
    if rest.len() == 0 {
        r matches Ok(ArgsOutcome::Run(a)) && a.subcommand == CliSubcommand::App && a.log_level == level
            && a.app_config@ == c
    } else if is_long_with_value(rest[0]) {
        match long_option_meaning(long_name(rest[0])) {
            CliOption::Help => r matches Ok(ArgsOutcome::Help),
            CliOption::Setting(field) => setting_result_allowed(
                f,
                c,
                level,
                field,
                long_value(rest[0]),
                rest.drop_first(),
                r,
            ),
            _ => r matches Err(AppError::ArgError(_)),
        }
    } else {
        match item_meaning(rest[0]) {
            None => true,
            Some(CliOption::Help) => r matches Ok(ArgsOutcome::Help),
            Some(CliOption::Debug) => app_result_allowed(f, c, LogLevel::Debug, rest.drop_first(), r),
            Some(CliOption::Unexpected) => r matches Err(AppError::ArgError(_)),
            Some(CliOption::Setting(field)) => if rest.len() < 2 {
                r matches Err(AppError::ArgError(_))
            } else {
                setting_result_allowed(f, c, level, field, rest[1], rest.skip(2), r)
            },
        }
    }
}

/// Whether `r` is a result that reading `text` into setting `field`, then
/// the arguments `later`, may give: the volume goes through `f` (its error
/// is the result); a sound file path that is not empty reads when the file
/// is there, else it is a type error; any other setting reads as
/// [`config_with_text`] says, else it is a type error.
pub open spec fn setting_result_allowed<F: Fn(String) -> Result<SoundVolume, AppError>>(
    f: F,
    c: AppConfigView,
    level: LogLevel,
    field: ConfigField,
    text: Seq<char>,
    later: Seq<Seq<char>>,
    r: Result<ArgsOutcome, AppError>,
) -> bool
    decreases later.len(), 1int,
{
    if field == ConfigField::SoundVolume {
        ||| exists|x: String, v: SoundVolume|
            x@ == text && #[trigger] f.ensures((x,), Ok::<SoundVolume, AppError>(v)) && app_result_allowed(
                f,
                AppConfigView { sound_volume: v@, ..c },
                level,
                later,
                r,
            )
        ||| exists|x: String, e: AppError|
            x@ == text && #[trigger] f.ensures((x,), Err::<SoundVolume, AppError>(e)) && r == Err::<
                ArgsOutcome,
                AppError,
            >(e)
    } else {
        match config_with_text(c, field, text) {
            Some(c2) => app_result_allowed(f, c2, level, later, r) || (is_sound_field(field) && text.len() > 0
                && r matches Err(AppError::TypeError(_))),
            None => r matches Err(AppError::TypeError(_)),
        }
    }
}

/// Whether every result is one that reading `w0` on top of `c0` may give.
spec fn anything_allowed<F: Fn(String) -> Result<SoundVolume, AppError>>(f: F, c0: AppConfigView, w0: Seq<Seq<char>>) -> bool {
    forall|r: Result<ArgsOutcome, AppError>| #[trigger] app_result_allowed(f, c0, LogLevel::Info, w0, r)
}

/// Whether every result that reading `rest` on top of `c` at `level` may
/// give is one that reading `w0` on top of `c0` may give.
spec fn leads_back<F: Fn(String) -> Result<SoundVolume, AppError>>(
    f: F,
    c: AppConfigView,
    level: LogLevel,
    rest: Seq<Seq<char>>,
    c0: AppConfigView,
    w0: Seq<Seq<char>>,
) -> bool {
    forall|r: Result<ArgsOutcome, AppError>|
        app_result_allowed(f, c, level, rest, r) ==> #[trigger] app_result_allowed(f, c0, LogLevel::Info, w0, r)
}

/// Whether every error of the argument reader is a result that reading
/// `w0` on top of `c0` may give.
spec fn arg_errors_allowed<F: Fn(String) -> Result<SoundVolume, AppError>>(
    f: F,
    c0: AppConfigView,
    w0: Seq<Seq<char>>,
) -> bool {
    forall|r: Result<ArgsOutcome, AppError>|
        r matches Err(AppError::ArgError(_)) ==> #[trigger] app_result_allowed(f, c0, LogLevel::Info, w0, r)
}

/// The first argument, if there is one.
pub open spec fn first_word(args: Seq<String>) -> Option<Seq<char>> {
    if args.len() > 0 {
        Some(args[0]@)
    } else {
        None
    }
}

/// The arguments after the first, by their texts.
pub open spec fn later_words(args: Seq<String>) -> Seq<Seq<char>> {
    if args.len() > 0 {
        arg_texts(args).drop_first()
    } else {
        Seq::empty()
    }
}

/// There are more items than arguments.
proof fn lemma_args_budget(args: Seq<String>)
    ensures
        args_budget(args) >= args.len() + 1,
    decreases args.len(),
{
    if args.len() > 0 {
        lemma_args_budget(args.drop_last());
    }
}

/// Reads the command line (the arguments after the program's name) on top
/// of `app_config`. The first argument names the subcommand (`app` when
/// there is none; `-h` or `--help` asks for the help text). The options of
/// `app` set the log level and the settings (see [`app_result_allowed`]); the volume
/// is read by `volume_from_text`, which works on floating point numbers.
#[verifier::loop_isolation(false)]
pub fn parse_args<F: Fn(String) -> Result<SoundVolume, AppError>>(
    app_config: AppConfig,
    args: Vec<String>,
    volume_from_text: F,
) -> (r: Result<ArgsOutcome, AppError>)
    requires
        forall|t: String| volume_from_text.requires((t,)),
    ensures
        match first_word_meaning(first_word(args@)) {
            None => r matches Err(AppError::ArgError(m)) && m@ == subcommand_message(),
            Some(None) => r matches Ok(ArgsOutcome::Help),
            Some(Some(s)) => if s == CliSubcommand::App {
                app_result_allowed(volume_from_text, app_config@, LogLevel::Info, later_words(args@), r)
            } else {
                r matches Ok(ArgsOutcome::Run(a)) && a.subcommand == s && a.log_level == LogLevel::Info && a.app_config
                    == app_config
            },
        },
{
    let mut app_config = app_config;
    // The number of arguments fits in a `usize`, so the budget exceeds it.
    let _count = args.len();
    let budget = item_budget(&args);
    proof {
        lemma_args_budget(args@);
    }
    let mut parser = lexopt_parser(args);
    let word = match lexopt_value(&mut parser) {
        Ok(w) => Some(w),
        Err(_) => None,
    };
    assert(parser_args(parser) =~= later_words(args@));
    assert(match word {
        Some(w) => first_word(args@) == Some(w@),
        None => first_word(args@) is None,
    });
    let subcommand = match choose_subcommand(word) {
        Ok(Some(s)) => s,
        Ok(None) => return Ok(ArgsOutcome::Help),
        Err(e) => return Err(e),
    };
    match subcommand {
        CliSubcommand::App => {},
        _ => {
            return Ok(ArgsOutcome::Run(Args { subcommand, log_level: LogLevel::Info, app_config }));
        },
    }
    let ghost f = volume_from_text;
    let ghost c0 = app_config@;
    let ghost w0 = parser_args(parser);
    let mut log_level = LogLevel::Info;
    let mut left = budget;
    let mut finished = false;
    assert(leads_back(f, app_config@, log_level, parser_args(parser), c0, w0));
    while left > 0 && !finished
        invariant
            forall|t: String| volume_from_text.requires((t,)),
            f == volume_from_text,
            anything_allowed(f, c0, w0) || {
                &&& !finished ==> left > parser_args(parser).len()
                &&& finished ==> parser_args(parser).len() == 0 && parser_clean(parser)
                &&& (parser_clean(parser) && leads_back(f, app_config@, log_level, parser_args(parser), c0, w0)) || (
                parser_position(parser) is AfterEquals && arg_errors_allowed(f, c0, w0))
            },
        decreases left,
    {
        left -= 1;
        let ghost c_before = app_config@;
        let ghost level_before = log_level;
        let ghost rest = parser_args(parser);
        let ghost clean_before = parser_clean(parser);
        let next = lexopt_next(&mut parser);
        proof {
            if !anything_allowed(f, c0, w0) && clean_before && rest.len() > 0 && !is_long_with_value(rest[0])
                && item_meaning(rest[0]) is None {
                assert forall|r: Result<ArgsOutcome, AppError>| #[trigger]
                    app_result_allowed(f, c0, LogLevel::Info, w0, r) by {
                    assert(app_result_allowed(f, c_before, level_before, rest, r));
                }
            }
        }
        let arg = match next {
            Ok(Some(a)) => a,
            Ok(None) => {
                finished = true;
                continue;
            },
            Err(e) => {
                let result = Err(arg_error(e));
                proof {
                    if !anything_allowed(f, c0, w0) && clean_before {
                        assert(app_result_allowed(f, c_before, level_before, rest, result));
                    }
                }
                return result;
            },
        };
        match classify_option(&arg) {
            CliOption::Help => {
                let result = Ok(ArgsOutcome::Help);
                proof {
                    if !anything_allowed(f, c0, w0) {
                        assert(app_result_allowed(f, c_before, level_before, rest, result));
                    }
                }
                return result;
            },
            CliOption::Debug => {
                log_level = LogLevel::Debug;
                proof {
                    if !anything_allowed(f, c0, w0) {
                        if is_long_with_value(rest[0]) {
                            assert forall|r: Result<ArgsOutcome, AppError>|
                                r matches Err(AppError::ArgError(_)) implies #[trigger] app_result_allowed(
                                f,
                                c0,
                                LogLevel::Info,
                                w0,
                                r,
                            ) by {
                                assert(app_result_allowed(f, c_before, level_before, rest, r));
                            }
                        } else {
                            assert forall|r: Result<ArgsOutcome, AppError>|
                                app_result_allowed(f, app_config@, log_level, parser_args(parser), r) implies #[trigger]
                                app_result_allowed(f, c0, LogLevel::Info, w0, r) by {
                                assert(app_result_allowed(f, c_before, level_before, rest, r));
                            }
                        }
                    }
                }
            },
            CliOption::Setting(field) => {
                let text = match lexopt_value(&mut parser) {
                    Ok(t) => t,
                    Err(e) => {
                        let result = Err(arg_error(e));
                        proof {
                            if !anything_allowed(f, c0, w0) {
                                assert(app_result_allowed(f, c_before, level_before, rest, result));
                            }
                        }
                        return result;
                    },
                };
                let ghost later = parser_args(parser);
                let ghost text_view = text@;
                proof {
                    if !anything_allowed(f, c0, w0) {
                        if !is_long_with_value(rest[0]) {
                            assert(rest.drop_first().drop_first() =~= rest.skip(2));
                        }
                        assert forall|r: Result<ArgsOutcome, AppError>|
                            setting_result_allowed(f, c_before, level_before, field, text_view, later, r) implies
                            #[trigger] app_result_allowed(f, c0, LogLevel::Info, w0, r) by {
                            assert(app_result_allowed(f, c_before, level_before, rest, r));
                        }
                    }
                }
                match field {
                    ConfigField::SoundVolume => {
                        let ghost sent_text = text;
                        match volume_from_text(text) {
                            Ok(v) => {
                                app_config.set_volume(v);
                                proof {
                                    if !anything_allowed(f, c0, w0) {
                                        assert forall|r: Result<ArgsOutcome, AppError>|
                                            app_result_allowed(f, app_config@, log_level, later, r) implies #[trigger]
                                            app_result_allowed(f, c0, LogLevel::Info, w0, r) by {
                                            assert(f.ensures((sent_text,), Ok::<SoundVolume, AppError>(v)));
                                            assert(setting_result_allowed(
                                                f,
                                                c_before,
                                                level_before,
                                                field,
                                                text_view,
                                                later,
                                                r,
                                            ));
                                        }
                                    }
                                }
                            },
                            Err(e) => {
                                let result = Err(e);
                                proof {
                                    if !anything_allowed(f, c0, w0) {
                                        assert(f.ensures((sent_text,), Err::<SoundVolume, AppError>(e)));
                                        assert(setting_result_allowed(
                                            f,
                                            c_before,
                                            level_before,
                                            field,
                                            text_view,
                                            later,
                                            result,
                                        ));
                                    }
                                }
                                return result;
                            },
                        }
                    },
                    _ => match app_config.set_from_text(field, text) {
                        Ok(()) => {
                            proof {
                                if !anything_allowed(f, c0, w0) {
                                    assert forall|r: Result<ArgsOutcome, AppError>|
                                        app_result_allowed(f, app_config@, log_level, later, r) implies #[trigger]
                                        app_result_allowed(f, c0, LogLevel::Info, w0, r) by {
                                        assert(setting_result_allowed(
                                            f,
                                            c_before,
                                            level_before,
                                            field,
                                            text_view,
                                            later,
                                            r,
                                        ));
                                    }
                                }
                            }
                        },
                        Err(e) => {
                            let result = Err(e);
                            proof {
                                if !anything_allowed(f, c0, w0) {
                                    assert(setting_result_allowed(
                                        f,
                                        c_before,
                                        level_before,
                                        field,
                                        text_view,
                                        later,
                                        result,
                                    ));
                                }
                            }
                            return result;
                        },
                    },
                }
            },
            CliOption::Unexpected => {
                let result = Err(arg_error(lexopt_unexpected(arg)));
                proof {
                    if !anything_allowed(f, c0, w0) {
                        assert(app_result_allowed(f, c_before, level_before, rest, result));
                    }
                }
                return result;
            },
        }
    }
    let ghost config_read = app_config@;
    let result = Ok(ArgsOutcome::Run(Args { subcommand: CliSubcommand::App, log_level, app_config }));
    proof {
        if !anything_allowed(f, c0, w0) {
            assert(app_result_allowed(f, config_read, log_level, parser_args(parser), result));
        }
    }
    result
}

} // verus!
