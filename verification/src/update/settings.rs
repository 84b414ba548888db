//! Decisions on settings; each change is saved at once.

use vstd::prelude::*;
use crate::config::CopyIncludeReferencePolicy;
use crate::state::{Action, ActionView, AppState, ConfigView, Modal, ModalView, StateView};

verus! {

/// What happens in the settings dialog.
#[derive(Debug)]
pub enum SettingsMessage {
    Toggle,
    SetCopyReferencePolicy(CopyIncludeReferencePolicy),
    ToggleCopyVerseNumbers(bool),
    ToggleCopyDelimiter(bool),
}

/// The state with the current book and chapter recorded in the settings, as
/// they are before the settings are saved.
pub open spec fn sync_config_spec(s: StateView) -> StateView {
    StateView { config: ConfigView { book_key: s.book_key, chapter: s.chapter, ..s.config }, ..s }
}

/// How a message about settings changes the state and what it asks for.
pub open spec fn settings_transition(
    old: StateView,
    message: SettingsMessage,
    new: StateView,
    r: ActionView,
) -> bool {
    &&& r == ActionView::SaveConfig
    &&& new == sync_config_spec(
        match message {
            SettingsMessage::Toggle => StateView {
                modal: match old.modal {
                    Some(ModalView::Settings) => None,
                    _ => Some(ModalView::Settings),
                },
                ..old
            },
            SettingsMessage::SetCopyReferencePolicy(p) => StateView {
                config: ConfigView { copy_includes_reference_policy: p, ..old.config },
                ..old
            },
            SettingsMessage::ToggleCopyVerseNumbers(b) => StateView {
                config: ConfigView { copy_includes_verse_numbers: b, ..old.config },
                ..old
            },
            SettingsMessage::ToggleCopyDelimiter(b) => StateView {
                config: ConfigView { copy_delimitate_with_newline: b, ..old.config },
                ..old
            },
        },
    )
}

impl AppState {
    /// Records the current book and chapter in the settings, before they are saved.
    pub fn sync_config(&mut self)
        ensures
            final(self)@ == sync_config_spec(old(self)@),
    {
        self.config.book_key = match &self.book_key {
            Some(k) => Some(k.clone()),
            None => None,
        };
        self.config.chapter = self.chapter;
    }

    /// Decides on a message about settings.
    pub fn update_settings(&mut self, message: SettingsMessage) -> (r: Action)
        ensures
            settings_transition(old(self)@, message, final(self)@, r@),
    {
        match message {
            SettingsMessage::Toggle => {
                let open = match &self.modal {
                    Some(Modal::Settings) => true,
                    _ => false,
                };
                self.modal = if open { None } else { Some(Modal::Settings) };
            },
            SettingsMessage::SetCopyReferencePolicy(policy) => {
                self.config.copy_includes_reference_policy = policy;
            },
            SettingsMessage::ToggleCopyVerseNumbers(enabled) => {
                self.config.copy_includes_verse_numbers = enabled;
            },
            SettingsMessage::ToggleCopyDelimiter(enabled) => {
                self.config.copy_delimitate_with_newline = enabled;
            },
        }
        self.sync_config();
        Action::SaveConfig
    }
}

} // verus!
