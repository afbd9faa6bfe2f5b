//! The live shortcut state and the update workflow: a state cell holding
//! the committed binding pair, the registrar that mirrors it, and the
//! two-phase update protocol.
//!
//! An update request first goes through [`ShortcutService::propose_update`],
//! which validates both bindings and, only if both are valid, hands back
//! the exact text to persist; the proposing caller writes that text to the
//! settings file and, only when the write succeeded, calls
//! [`ShortcutService::commit_update`], which replaces the cached pair and
//! swaps the live registrations. A rejected or unwritten proposal leaves
//! the cached pair, the registrations and the file's prior contents
//! untouched — the commit is all-or-nothing.

use vstd::prelude::*;
use crate::codec::json_text_of;
use crate::hotkey::{parse, spec_parse, valid_shortcut, KeyCombination, ParseError};
use crate::registrar::{spec_dispatch, Action, PressState, Registrar, RegistrationReport};
use crate::settings::{pair_valid, save_content, spec_load, ShortcutSettings};

verus! {

/// The committed binding pair and the registrations mirroring it.
pub struct ShortcutService {
    settings: ShortcutSettings,
    registrar: Registrar,
}

impl ShortcutService {
    /// The committed pair.
    pub closed spec fn spec_settings(&self) -> (Seq<char>, Seq<char>) {
        self.settings@
    }

    /// The two live registrations.
    pub closed spec fn spec_regs(&self) -> (Option<KeyCombination>, Option<KeyCombination>) {
        (self.registrar.spec_toggle(), self.registrar.spec_paste())
    }

    /// The committed pair is always valid.
    pub open spec fn inv(&self) -> bool {
        pair_valid(self.spec_settings())
    }

    /// A service holding `initial` with nothing registered yet.
    pub fn new(initial: ShortcutSettings) -> (s: ShortcutService)
        requires
            pair_valid(initial@),
        ensures
            s.inv(),
            s.spec_settings() == initial@,
            s.spec_regs().0 is None,
            s.spec_regs().1 is None,
    {
        ShortcutService { settings: initial, registrar: Registrar::new() }
    }

    /// A copy of the committed pair.
    pub fn get_shortcuts(&self) -> (r: ShortcutSettings)
        ensures
            r@ == self.spec_settings(),
    {
        ShortcutSettings {
            toggle_overlay: self.settings.toggle_overlay.clone(),
            paste_asset: self.settings.paste_asset.clone(),
        }
    }

    /// Install registrations for the committed pair (the startup step).
    /// Both bindings of a committed pair are valid, so both actions end
    /// up live under their parsed combinations.
    pub fn register_current(&mut self) -> (r: RegistrationReport)
        requires
            old(self).inv(),
        ensures
            final(self).inv(),
            final(self).spec_settings() == old(self).spec_settings(),
            final(self).spec_regs().0 == spec_parse(old(self).spec_settings().0),
            final(self).spec_regs().1 == spec_parse(old(self).spec_settings().1),
            final(self).spec_regs().0 is Some,
            final(self).spec_regs().1 is Some,
            r.toggle is Ok,
            r.paste is Ok,
    {
        self.registrar.register(&self.settings)
    }

    /// Validate a proposed pair. If both bindings are valid shortcuts,
    /// return the exact settings-file text to persist — a text that loads
    /// back to the proposed pair. Otherwise reject, naming the first
    /// offending binding, and decide nothing else: the committed state is
    /// untouched by a proposal.
    pub fn propose_update(&self, proposed: &ShortcutSettings) -> (r: Result<String, ParseError>)
        ensures
            r is Ok <==> pair_valid(proposed@),
            r matches Ok(content) ==> content@ == json_text_of(proposed@.0, proposed@.1)
                && spec_load(Some(content@)) == proposed@,
            !valid_shortcut(proposed@.0) ==> (r matches Err(e) && e.input@ == proposed@.0),
            (valid_shortcut(proposed@.0) && !valid_shortcut(proposed@.1)) ==> (r matches Err(e)
                && e.input@ == proposed@.1),
    {
        match parse(proposed.toggle_str()) {
            Err(e) => Err(e),
            Ok(_) => match parse(proposed.paste_str()) {
                Err(e) => Err(e),
                Ok(_) => Ok(save_content(proposed)),
            },
        }
    }

    /// Commit a validated pair: replace the cached pair, then tear down
    /// every live registration and install the new ones. To be called
    /// only after the proposal's text was durably written.
    pub fn commit_update(&mut self, proposed: ShortcutSettings) -> (r: RegistrationReport)
        requires
            pair_valid(proposed@),
        ensures
            final(self).inv(),
            final(self).spec_settings() == proposed@,
            final(self).spec_regs().0 == spec_parse(proposed@.0),
            final(self).spec_regs().1 == spec_parse(proposed@.1),
            r.toggle is Ok,
            r.paste is Ok,
    {
        self.settings = proposed;
        self.registrar.unregister_all();
        self.registrar.register(&self.settings)
    }

    /// Remove every live registration; the committed pair stays.
    pub fn unregister_all(&mut self)
        requires
            old(self).inv(),
        ensures
            final(self).inv(),
            final(self).spec_settings() == old(self).spec_settings(),
            final(self).spec_regs().0 is None,
            final(self).spec_regs().1 is None,
    {
        self.registrar.unregister_all()
    }

    /// The action a key event triggers against the live registrations.
    pub fn dispatch(&self, combo: &KeyCombination, state: PressState) -> (r: Option<Action>)
        ensures
            r == spec_dispatch(self.spec_regs().0, self.spec_regs().1, *combo, state),
    {
        self.registrar.dispatch(combo, state)
    }
}

} // verus!
