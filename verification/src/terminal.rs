use vstd::prelude::*;

use crate::error::AppError;

verus! {

/// The terminal emulators in which the settings dialog can be opened, in the
/// order in which they are looked for.
#[derive(Debug, Clone, Copy, PartialEq, Eq, Structural)]
pub enum TerminalType {
    GnomeTerminal,
    Konsole,
    Xfce4Terminal,
    Alacritty,
    Kitty,
    MateTerminal,
    Ptyxis,
    LxTerminal,
    QTerminal,
    Kgx,
}

/// The number of known terminal emulators.
pub const TERMINAL_COUNT: usize = 10;

/// The terminal emulator at position `i` of the search order.
pub open spec fn terminal_at(i: int) -> TerminalType {
    if i == 0 { TerminalType::GnomeTerminal }
    else if i == 1 { TerminalType::Konsole }
    else if i == 2 { TerminalType::Xfce4Terminal }
    else if i == 3 { TerminalType::Alacritty }
    else if i == 4 { TerminalType::Kitty }
    else if i == 5 { TerminalType::MateTerminal }
    else if i == 6 { TerminalType::Ptyxis }
    else if i == 7 { TerminalType::LxTerminal }
    else if i == 8 { TerminalType::QTerminal }
    else { TerminalType::Kgx }
}

/// The program name of a terminal emulator.
pub open spec fn terminal_command(t: TerminalType) -> Seq<char> {
    match t {
        TerminalType::GnomeTerminal => "gnome-terminal"@,
        TerminalType::Konsole => "konsole"@,
        TerminalType::Xfce4Terminal => "xfce4-terminal"@,
        TerminalType::Alacritty => "alacritty"@,
        TerminalType::Kitty => "kitty"@,
        TerminalType::MateTerminal => "mate-terminal"@,
        TerminalType::Ptyxis => "ptyxis"@,
        TerminalType::LxTerminal => "lxterminal"@,
        TerminalType::QTerminal => "qterminal"@,
        TerminalType::Kgx => "kgx"@,
    }
}

/// The arguments that make a terminal emulator run the command that follows
/// them.
pub open spec fn terminal_execute_args(t: TerminalType) -> Seq<Seq<char>> {
    match t {
        TerminalType::GnomeTerminal => seq!["--"@],
        TerminalType::Konsole => seq!["-e"@],
        TerminalType::Xfce4Terminal => seq!["-x"@],
        TerminalType::Alacritty => seq!["-e"@],
        TerminalType::Kitty => Seq::empty(),
        TerminalType::MateTerminal => seq!["-x"@],
        TerminalType::Ptyxis => seq!["--new-window"@, "--"@],
        TerminalType::LxTerminal => seq!["-e"@],
        TerminalType::QTerminal => seq!["-e"@],
        TerminalType::Kgx => seq!["-e"@],
    }
}

/// The message when no terminal emulator is found.
pub open spec fn no_terminal_message() -> Seq<char> {
    "Could not find available terminal. Please use command line arguments instead of interactive cli."@
}

/// Calls `which::which` for a program name and tells whether it found the
/// program. What it finds depends on `PATH` and the file system, so nothing
/// is stated of the result.
#[verifier::external_body]
fn program_is_on_path(name: &str) -> bool {
    which::which(name).is_ok()
}

fn str_vec(items: &[&str]) -> (r: Vec<String>)
    ensures
        r@.len() == items@.len(),
        forall|i: int| 0 <= i < items@.len() ==> #[trigger] r@[i]@ == items@[i]@,
{
    let mut out: Vec<String> = Vec::new();
    for i in 0..items.len()
        invariant
            out@.len() == i,
            forall|k: int| 0 <= k < i ==> #[trigger] out@[k]@ == items@[k]@,
    {
        out.push(String::from_str(items[i]));
    }
    out
}

impl TerminalType {
    pub fn command(&self) -> (r: String)
        ensures
            r@ == terminal_command(*self),
    {
        let terminal = match self {
            TerminalType::GnomeTerminal => "gnome-terminal",
            TerminalType::Konsole => "konsole",
            TerminalType::Xfce4Terminal => "xfce4-terminal",
            TerminalType::Alacritty => "alacritty",
            TerminalType::Kitty => "kitty",
            TerminalType::MateTerminal => "mate-terminal",
            TerminalType::Ptyxis => "ptyxis",
            TerminalType::LxTerminal => "lxterminal",
            TerminalType::QTerminal => "qterminal",
            TerminalType::Kgx => "kgx",
        };
        String::from_str(terminal)
    }

    pub fn execute_args(&self) -> (r: Vec<String>)
        ensures
            r@.len() == terminal_execute_args(*self).len(),
            forall|i: int| 0 <= i < r@.len() ==> #[trigger] r@[i]@ == terminal_execute_args(*self)[i],
    {
        match self {
            TerminalType::GnomeTerminal => str_vec(&["--"]),
            TerminalType::Konsole => str_vec(&["-e"]),
            TerminalType::Xfce4Terminal => str_vec(&["-x"]),
            TerminalType::Alacritty => str_vec(&["-e"]),
            TerminalType::Kitty => Vec::new(),
            TerminalType::MateTerminal => str_vec(&["-x"]),
            TerminalType::Ptyxis => str_vec(&["--new-window", "--"]),
            TerminalType::LxTerminal => str_vec(&["-e"]),
            TerminalType::QTerminal => str_vec(&["-e"]),
            TerminalType::Kgx => str_vec(&["-e"]),
        }
    }

    /// The terminal emulator at position `i` of the search order.
    pub fn nth(i: usize) -> (r: TerminalType)
        requires
            i < TERMINAL_COUNT,
        ensures
            r == terminal_at(i as int),
    {
        if i == 0 { TerminalType::GnomeTerminal }
        else if i == 1 { TerminalType::Konsole }
        else if i == 2 { TerminalType::Xfce4Terminal }
        else if i == 3 { TerminalType::Alacritty }
        else if i == 4 { TerminalType::Kitty }
        else if i == 5 { TerminalType::MateTerminal }
        else if i == 6 { TerminalType::Ptyxis }
        else if i == 7 { TerminalType::LxTerminal }
        else if i == 8 { TerminalType::QTerminal }
        else { TerminalType::Kgx }
    }

    /// The first terminal emulator of the search order that was found, given
    /// for each whether it was found.
    pub fn first_available(found: &[bool; 10]) -> (r: Result<TerminalType, AppError>)
        ensures
            match r {
                Ok(t) => exists|i: int|
                    0 <= i < 10 && t == terminal_at(i) && found[i] && forall|k: int|
                        0 <= k < i ==> !#[trigger] found[k],
                Err(e) => (forall|k: int| 0 <= k < 10 ==> !#[trigger] found[k]) && (e matches AppError::CustomError(m)
                    && m@ == no_terminal_message()),
            },
    {
        for i in 0..TERMINAL_COUNT
            invariant
                forall|k: int| 0 <= k < i ==> !#[trigger] found[k],
        {
            if found[i] {
                return Ok(TerminalType::nth(i));
            }
        }
        Err(
            AppError::CustomError(
                String::from_str(
                    "Could not find available terminal. Please use command line arguments instead of interactive cli.",
                ),
            ),
        )
    }

    /// The first terminal emulator of the search order that `which` finds:
    /// each is looked up on the `PATH`, and [`TerminalType::first_available`]
    /// picks from what was found.
    pub fn available() -> (r: Result<TerminalType, AppError>)
        ensures
            r matches Ok(t) ==> exists|i: int| 0 <= i < 10 && t == #[trigger] terminal_at(i),
            r matches Err(e) ==> (e matches AppError::CustomError(m) && m@ == no_terminal_message()),
    {
        let mut found: [bool; 10] = [false; 10];
        for i in 0..TERMINAL_COUNT {
            assert(i < 10);
            let command = TerminalType::nth(i).command();
            found[i] = program_is_on_path(command.as_str());
        }
        TerminalType::first_available(&found)
    }

    /// The program and arguments that open the settings dialog of the
    /// program at `exe` in this terminal emulator: the terminal's own
    /// arguments, then `exe configure`.
    pub fn settings_command_line(&self, exe: String) -> (r: (String, Vec<String>))
        ensures
            r.0@ == terminal_command(*self),
            r.1@.len() == terminal_execute_args(*self).len() + 2,
            forall|i: int| 0 <= i < terminal_execute_args(*self).len() ==> #[trigger] r.1@[i]@ == terminal_execute_args(*self)[i],
            r.1@[terminal_execute_args(*self).len() as int]@ == exe@,
            r.1@[terminal_execute_args(*self).len() + 1int]@ == "configure"@,
    {
        let mut args = self.execute_args();
        args.push(exe);
        args.push(String::from_str("configure"));
        (self.command(), args)
    }
}

} // verus!
