//! A pomodoro timer that shows its remaining minutes as a 16x16 icon on a
//! StatusNotifierItem-aware status bar, with a dbusmenu context menu.
//!
//! This crate holds the timer's logic: the value types and their textual
//! forms, the digit bitmaps of the icon, the timer and its loop, the menu
//! model, the configuration file format, and the state machines that drive
//! the application. Sessions on D-Bus, audio output and terminal prompts
//! are performed by the program around it.
pub mod channel;
pub mod error;
pub mod text;
pub mod types;
pub mod digit;
pub mod terminal;
pub mod sni;
pub mod string_map;
pub mod config;
pub mod timer;
pub mod main_loop;
pub mod menu_tree;
pub mod dbusmenu;
pub mod audio;
pub mod controller;
pub mod args;
pub mod interactive;
pub mod paths;

pub use args::{parse_args, Args, ArgsOutcome, CliSubcommand, LogLevel};
pub use audio::{AudioCommand, SoundFileType};
pub use config::AppConfig;
pub use controller::PomodoroSniController;
pub use dbusmenu::DbusMenu;
pub use error::{try_send_error_to_app_error, AppError};
pub use main_loop::{AppInfo, MainState, Phase};
pub use sni::StatusNotifierItem;
pub use timer::TimerCommand;
pub use types::{LongBreakPos, Rgb, SoundFilePath, SoundVolume, StringOpt, TimerMinute};
