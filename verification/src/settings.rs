//! The settings of the application.

use vstd::prelude::*;
use crate::app::App;

verus! {

/// What the user did on the settings page.
#[derive(Clone, Copy, Debug, PartialEq, Eq, Structural)]
pub enum Message {
    /// The user chose whether closing the window keeps the application
    /// running.
    CloseToTray(bool),
}

/// What the settings page asks its caller to do.
#[derive(Clone, Copy, Debug, PartialEq, Eq, Structural)]
pub enum Task {
    /// Store the settings.
    Save,
}

impl App {
    /// Takes what the user did on the settings page. No setting is kept, so
    /// nothing changes and nothing is asked for.
    pub fn update_settings(&mut self, message: Message) -> (task: Option<Task>)
        ensures
            task is None,
            *final(self) == *old(self),
    {
        match message {
            Message::CloseToTray(_) => None,
        }
    }
}

} // verus!
