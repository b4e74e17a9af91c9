//! The player's settings.

use vstd::prelude::*;

verus! {

/// Whether sounds are played.
#[derive(Debug, Clone, Copy, PartialEq, Eq, Structural)]
pub enum AudioSettings {
    ON,
    OFF,
}

/// The settings of the game.
#[derive(Debug, Clone, Copy, PartialEq, Eq, Structural)]
pub struct GameSettings {
    pub audio: AudioSettings,
    /// Which of the snake skins is drawn.
    pub snake_index: usize,
}

impl Default for GameSettings {
    fn default() -> (settings: GameSettings)
        ensures
            settings.audio == AudioSettings::ON,
            settings.snake_index == 8,
    {
        GameSettings { audio: AudioSettings::ON, snake_index: 8 }
    }
}

impl AudioSettings {
    /// The other setting.
    pub open spec fn spec_toggled(self) -> AudioSettings {
        match self {
            AudioSettings::ON => AudioSettings::OFF,
            AudioSettings::OFF => AudioSettings::ON,
        }
    }

    /// The other setting.
    pub fn toggled(self) -> (other: AudioSettings)
        ensures
            other == self.spec_toggled(),
            other != self,
    {
        match self {
            AudioSettings::ON => AudioSettings::OFF,
            AudioSettings::OFF => AudioSettings::ON,
        }
    }

    /// Whether the box that stands for the setting is ticked.
    pub fn checked(self) -> (checked: bool)
        ensures
            checked == (self == AudioSettings::ON),
    {
        match self {
            AudioSettings::ON => true,
            AudioSettings::OFF => false,
        }
    }
}

impl GameSettings {
    /// Switches the sound on or off and says whether the click that did it
    /// is to be heard: it is if the sound was on before.
    pub fn toggle_audio(&mut self) -> (audible: bool)
        ensures
            final(self).audio == old(self).audio.spec_toggled(),
            final(self).snake_index == old(self).snake_index,
            audible == (old(self).audio == AudioSettings::ON),
    {
        let audible = self.audio.checked();
        self.audio = self.audio.toggled();
        audible
    }

    /// Picks the snake skin with the given index.
    pub fn select_snake(&mut self, index: usize)
        ensures
            final(self).snake_index == index,
            final(self).audio == old(self).audio,
    {
        self.snake_index = index;
    }
}

} // verus!
