//! The screens the game moves through.

use vstd::prelude::*;

verus! {

/// The screen the game is on. The simulation runs only while playing.
#[derive(Clone, Copy, Debug, PartialEq, Eq, Hash, Structural)]
pub enum GameState {
    Loading,
    MainMenu,
    Settings,
    Playing,
    Paused,
    GameOver,
}

/// What can move the game from one screen to another.
#[derive(Clone, Copy, Debug, PartialEq, Eq, Structural)]
pub enum Prompt {
    /// Everything the game shows and plays has been loaded.
    Loaded,
    /// The player asked to start, from the main menu.
    Start,
    /// The player asked to start again, from the last screen.
    Restart,
}

impl GameState {
    /// The screen that follows `self` on `prompt`: loading leads to the main
    /// menu, the main menu to play, the last screen back to play. A prompt
    /// that does not belong to the screen changes nothing.
    pub open spec fn spec_next(self, prompt: Prompt) -> GameState {
        match (self, prompt) {
            (GameState::Loading, Prompt::Loaded) => GameState::MainMenu,
            (GameState::MainMenu, Prompt::Start) => GameState::Playing,
            (GameState::GameOver, Prompt::Restart) => GameState::Playing,
            _ => self,
        }
    }

    /// The screen that follows `self` on `prompt`.
    pub fn next(self, prompt: Prompt) -> (s: GameState)
        ensures
            s == self.spec_next(prompt),
    {
        match (self, prompt) {
            (GameState::Loading, Prompt::Loaded) => GameState::MainMenu,
            (GameState::MainMenu, Prompt::Start) => GameState::Playing,
            (GameState::GameOver, Prompt::Restart) => GameState::Playing,
            _ => self,
        }
    }

    /// Whether the simulation runs on this screen.
    pub fn is_playing(self) -> (p: bool)
        ensures
            p == (self == GameState::Playing),
    {
        match self {
            GameState::Playing => true,
            _ => false,
        }
    }
}

impl Default for GameState {
    fn default() -> (s: GameState)
        ensures
            s == GameState::Loading,
    {
        GameState::Loading
    }
}

} // verus!
