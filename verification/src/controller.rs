use vstd::prelude::*;

use crate::config::AppConfig;
use crate::main_loop::AppInfo;

verus! {

/// The interface through which other processes read and change the
/// configuration and start the timer: it keeps the configuration last set
/// and decides the messages that the main loop is sent.
pub struct PomodoroSniController {
    app_config: AppConfig,
}

impl PomodoroSniController {
    pub fn new(app_config: AppConfig) -> (r: Self)
        ensures
            r.config_view() == app_config@,
    {
        Self { app_config }
    }

    /// The configuration last set.
    pub closed spec fn config_view(&self) -> crate::config::AppConfigView {
        self.app_config@
    }

    /// A copy of the configuration last set.
    pub fn get_config(&self) -> (r: AppConfig)
        ensures
            r@ == self.config_view(),
    {
        self.app_config.clone()
    }

    /// Keeps `config`; the main loop is to be sent it.
    pub fn set_config(&mut self, config: AppConfig) -> (r: AppInfo)
        ensures
            final(self).config_view() == config@,
            r == AppInfo::ReceivedConfigure(config),
    {
        self.app_config = config.clone();
        AppInfo::ReceivedConfigure(config)
    }

    /// The main loop is to be asked to start from the first working period.
    pub fn external_start(&self) -> (r: AppInfo)
        ensures
            r == AppInfo::ReceivedExternalStart,
    {
        AppInfo::ReceivedExternalStart
    }
}

} // verus!
