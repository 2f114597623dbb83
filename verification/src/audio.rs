use vstd::prelude::*;

use crate::types::{SoundFilePath, SoundVolume};

verus! {

/// Which of the two sounds: the one at the end of a working period or the
/// one at the end of a break.
#[derive(Debug, Clone, Copy, PartialEq, Eq, Structural)]
pub enum SoundFileType {
    Work2Break,
    Break2Work,
}

/// The commands of the audio loop.
#[derive(Debug)]
pub enum AudioCommand {
    /// Play one of the two sounds and wait until it ends.
    Play { sound_file_type: SoundFileType },
    /// Use a file for one of the two sounds from now on.
    ChangeFile { file: SoundFilePath, sound_file_type: SoundFileType },
    /// Play at another volume from now on.
    ChangeVolume(SoundVolume),
    /// End the audio loop.
    Terminate,
}

impl Clone for AudioCommand {
    fn clone(&self) -> (r: Self)
        ensures
            r == *self,
    {
        match self {
            AudioCommand::Play { sound_file_type } => AudioCommand::Play { sound_file_type: *sound_file_type },
            AudioCommand::ChangeFile { file, sound_file_type } => AudioCommand::ChangeFile {
                file: file.clone(),
                sound_file_type: *sound_file_type,
            },
            AudioCommand::ChangeVolume(v) => AudioCommand::ChangeVolume(v.clone()),
            AudioCommand::Terminate => AudioCommand::Terminate,
        }
    }
}

/// What the audio loop does for a command.
#[derive(Debug)]
pub enum AudioAction {
    /// Play the sound file at this path.
    PlayFile(SoundFilePath),
    /// Play the sound that ships with the program.
    PlayDefault(SoundFileType),
    /// Set the volume of the player.
    SetVolume(SoundVolume),
    /// Nothing to play or set.
    Nothing,
    /// Leave the loop.
    Stop,
}

/// The files chosen for the two sounds; none means the sound that ships
/// with the program.
pub struct AudioState {
    pub work2break: Option<SoundFilePath>,
    pub break2work: Option<SoundFilePath>,
}

/// The file chosen for a sound.
pub open spec fn chosen_file(s: AudioState, t: SoundFileType) -> Option<SoundFilePath> {
    match t {
        SoundFileType::Work2Break => s.work2break,
        SoundFileType::Break2Work => s.break2work,
    }
}

/// The state and the action after a command: a play plays the chosen file,
/// or the shipped sound when none was chosen; a file change chooses the
/// file for its sound; a volume change sets the volume; a terminate ends
/// the loop.
pub open spec fn audio_step(s: AudioState, cmd: AudioCommand) -> (AudioState, AudioAction) {
    match cmd {
        AudioCommand::Play { sound_file_type } => (s, match chosen_file(s, sound_file_type) {
            Some(f) => AudioAction::PlayFile(f),
            None => AudioAction::PlayDefault(sound_file_type),
        }),
        AudioCommand::ChangeFile { file, sound_file_type } => (
            match sound_file_type {
                SoundFileType::Break2Work => AudioState { break2work: Some(file), ..s },
                SoundFileType::Work2Break => AudioState { work2break: Some(file), ..s },
            },
            AudioAction::Nothing,
        ),
        AudioCommand::ChangeVolume(v) => (s, AudioAction::SetVolume(v)),
        AudioCommand::Terminate => (s, AudioAction::Stop),
    }
}

/// A play after a file change for the same sound plays that file, whatever
/// was chosen before; the other sound keeps its choice.
pub proof fn lemma_play_after_change(s: AudioState, f: SoundFilePath, t: SoundFileType, u: SoundFileType)
    ensures
        audio_step(
            audio_step(s, AudioCommand::ChangeFile { file: f, sound_file_type: t }).0,
            AudioCommand::Play { sound_file_type: t },
        ).1 == AudioAction::PlayFile(f),
        u != t ==> chosen_file(audio_step(s, AudioCommand::ChangeFile { file: f, sound_file_type: t }).0, u)
            == chosen_file(s, u),
{
}

impl AudioState {
    /// Both sounds as shipped.
    pub fn new() -> (r: Self)
        ensures
            r.work2break is None,
            r.break2work is None,
    {
        AudioState { work2break: None, break2work: None }
    }

    /// Handles one command (see [`audio_step`]).
    pub fn on_command(&mut self, cmd: AudioCommand) -> (r: AudioAction)
        ensures
            (*final(self), r) == audio_step(*old(self), cmd),
    {
        match cmd {
            AudioCommand::Play { sound_file_type } => {
                let chosen = match sound_file_type {
                    SoundFileType::Break2Work => &self.break2work,
                    SoundFileType::Work2Break => &self.work2break,
                };
                match chosen {
                    Some(f) => AudioAction::PlayFile(f.clone()),
                    None => AudioAction::PlayDefault(sound_file_type),
                }
            },
            AudioCommand::ChangeFile { file, sound_file_type } => {
                match sound_file_type {
                    SoundFileType::Break2Work => {
                        self.break2work = Some(file);
                    },
                    SoundFileType::Work2Break => {
                        self.work2break = Some(file);
                    },
                }
                AudioAction::Nothing
            },
            AudioCommand::ChangeVolume(v) => AudioAction::SetVolume(v),
            AudioCommand::Terminate => AudioAction::Stop,
        }
    }
}

/// A play uses the file chosen for the sound that is asked for, and when
/// none was chosen for it, the shipped sound of that same kind: the start
/// of work plays the break-to-work sound, the start of a break the
/// work-to-break sound.
pub proof fn lemma_play_uses_its_own_sound(s: AudioState)
    ensures
        audio_step(s, AudioCommand::Play { sound_file_type: SoundFileType::Break2Work }).1 == match s.break2work {
            Some(f) => AudioAction::PlayFile(f),
            None => AudioAction::PlayDefault(SoundFileType::Break2Work),
        },
        audio_step(s, AudioCommand::Play { sound_file_type: SoundFileType::Work2Break }).1 == match s.work2break {
            Some(f) => AudioAction::PlayFile(f),
            None => AudioAction::PlayDefault(SoundFileType::Work2Break),
        },
        audio_step(s, AudioCommand::Play { sound_file_type: SoundFileType::Break2Work }).0 == s,
        audio_step(s, AudioCommand::Play { sound_file_type: SoundFileType::Work2Break }).0 == s,
{
}

} // verus!
