//! The shortcut registrar: the set of live hotkey registrations, at most
//! one per action, and the dispatch relation that says which action a
//! key event triggers.
//!
//! Installing a combination with the operating system is the surrounding
//! program's job; this module owns the decision of what is registered
//! and what a delivered key event means.

use vstd::prelude::*;
use crate::hotkey::{parse, spec_parse, KeyCombination};
use crate::settings::ShortcutSettings;

verus! {

/// The two actions a global shortcut can trigger.
#[derive(Clone, Copy, PartialEq, Eq, Structural, Debug)]
pub enum Action {
    ToggleOverlay,
    PasteAssetInject,
}

/// The transition a key event reports. Only a pressed transition fires
/// an action; repeats and releases are ignored.
#[derive(Clone, Copy, PartialEq, Eq, Structural, Debug)]
pub enum PressState {
    Pressed,
    Released,
}

/// Why one action's registration was skipped, naming the binding text.
#[derive(Clone, Debug)]
pub struct RegistrationError {
    pub text: String,
}

/// Per-action outcomes of a register call. Registration is never
/// all-or-nothing: one action's failure leaves the other's registration
/// standing.
#[derive(Debug)]
pub struct RegistrationReport {
    pub toggle: Result<(), RegistrationError>,
    pub paste: Result<(), RegistrationError>,
}

/// The action a key event triggers against the two live registrations.
pub open spec fn spec_dispatch(
    toggle_reg: Option<KeyCombination>,
    paste_reg: Option<KeyCombination>,
    combo: KeyCombination,
    state: PressState,
) -> Option<Action> {
    if state != PressState::Pressed {
        None
    } else if toggle_reg == Some(combo) {
        Some(Action::ToggleOverlay)
    } else if paste_reg == Some(combo) {
        Some(Action::PasteAssetInject)
    } else {
        None
    }
}

/// Law: with no live registrations, no key event dispatches to any
/// action — after `unregister_all`, neither of a pair's combinations
/// (nor any other) triggers a callback.
pub proof fn lemma_unregistered_is_silent(combo: KeyCombination, state: PressState)
    ensures
        spec_dispatch(None, None, combo, state) is None,
{
}

/// The live registrations: at most one per action by construction.
pub struct Registrar {
    toggle_reg: Option<KeyCombination>,
    paste_reg: Option<KeyCombination>,
}

impl Registrar {
    /// The combination the toggle action is live under, if any.
    pub closed spec fn spec_toggle(&self) -> Option<KeyCombination> {
        self.toggle_reg
    }

    /// The combination the paste action is live under, if any.
    pub closed spec fn spec_paste(&self) -> Option<KeyCombination> {
        self.paste_reg
    }

    /// A registrar with no live registrations.
    pub fn new() -> (r: Registrar)
        ensures
            r.spec_toggle() is None,
            r.spec_paste() is None,
    {
        Registrar { toggle_reg: None, paste_reg: None }
    }

    /// Remove every live registration, regardless of action. Idempotent;
    /// never fails.
    pub fn unregister_all(&mut self)
        ensures
            final(self).spec_toggle() is None,
            final(self).spec_paste() is None,
    {
        self.toggle_reg = None;
        self.paste_reg = None;
    }

    /// Install registrations for a pair, each action independently: a
    /// binding that parses replaces that action's registration; one that
    /// does not leaves the action as it was and is reported, while the
    /// other action proceeds.
    pub fn register(&mut self, pair: &ShortcutSettings) -> (r: RegistrationReport)
        ensures
            final(self).spec_toggle() == (if spec_parse(pair@.0) is Some {
                spec_parse(pair@.0)
            } else {
                old(self).spec_toggle()
            }),
            final(self).spec_paste() == (if spec_parse(pair@.1) is Some {
                spec_parse(pair@.1)
            } else {
                old(self).spec_paste()
            }),
            r.toggle is Ok <==> spec_parse(pair@.0) is Some,
            r.paste is Ok <==> spec_parse(pair@.1) is Some,
            r.toggle matches Err(e) ==> e.text@ == pair@.0,
            r.paste matches Err(e) ==> e.text@ == pair@.1,
    {
        let toggle = match parse(pair.toggle_str()) {
            Ok(c) => {
                self.toggle_reg = Some(c);
                Ok(())
            },
            Err(e) => Err(RegistrationError { text: e.input }),
        };
        let paste = match parse(pair.paste_str()) {
            Ok(c) => {
                self.paste_reg = Some(c);
                Ok(())
            },
            Err(e) => Err(RegistrationError { text: e.input }),
        };
        RegistrationReport { toggle, paste }
    }

    /// The action a key event triggers: only a pressed transition of a
    /// live combination fires, the toggle registration checked first.
    pub fn dispatch(&self, combo: &KeyCombination, state: PressState) -> (r: Option<Action>)
        ensures
            r == spec_dispatch(self.spec_toggle(), self.spec_paste(), *combo, state),
    {
        if state != PressState::Pressed {
            return None;
        }
        let toggle_hit = match self.toggle_reg {
            Some(c) => c == *combo,
            None => false,
        };
        if toggle_hit {
            return Some(Action::ToggleOverlay);
        }
        let paste_hit = match self.paste_reg {
            Some(c) => c == *combo,
            None => false,
        };
        if paste_hit {
            return Some(Action::PasteAssetInject);
        }
        None
    }
}

} // verus!
