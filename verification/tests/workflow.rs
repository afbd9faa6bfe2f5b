//! Tests for loading and saving settings, the update workflow, the
//! registrar, and the overlay decisions.

use overlay_hotkeys::hotkey::parse;
use overlay_hotkeys::overlay::{normalize_nav_path, paste_plan, toggle_command, OverlayCommand, PastePlan};
use overlay_hotkeys::registrar::{Action, PressState, Registrar};
use overlay_hotkeys::service::ShortcutService;
use overlay_hotkeys::settings::{default_settings, load_from_content, save_content, ShortcutSettings};

fn pair(toggle: &str, paste: &str) -> ShortcutSettings {
    ShortcutSettings {
        toggle_overlay: toggle.to_string(),
        paste_asset: paste.to_string(),
    }
}

fn assert_default(s: &ShortcutSettings) {
    assert_eq!(s.toggle_overlay, "Ctrl+Shift+O");
    assert_eq!(s.paste_asset, "Ctrl+Shift+V");
}

#[test]
fn defaults_are_the_compiled_in_pair() {
    assert_default(&default_settings());
    assert_default(&ShortcutSettings::default());
}

#[test]
fn load_missing_file_yields_defaults() {
    assert_default(&load_from_content(None));
}

#[test]
fn load_empty_file_yields_defaults() {
    assert_default(&load_from_content(Some("")));
}

#[test]
fn load_invalid_json_yields_defaults() {
    assert_default(&load_from_content(Some("{invalid")));
    assert_default(&load_from_content(Some("garbage")));
}

#[test]
fn load_unparsable_binding_yields_defaults() {
    let text = "{\"toggle_overlay\":\"NotAKey\",\"paste_asset\":\"Ctrl+Shift+V\"}";
    assert_default(&load_from_content(Some(text)));
}

#[test]
fn load_keeps_a_valid_file() {
    let text = "{\"toggle_overlay\":\"Ctrl+Alt+O\",\"paste_asset\":\"shift+5\"}";
    let s = load_from_content(Some(text));
    assert_eq!(s.toggle_overlay, "Ctrl+Alt+O");
    assert_eq!(s.paste_asset, "shift+5");
}

#[test]
fn save_then_load_round_trips() {
    let s = pair("Ctrl+Alt+P", "shift+5");
    let content = save_content(&s);
    let back = load_from_content(Some(&content));
    assert_eq!(back.toggle_overlay, "Ctrl+Alt+P");
    assert_eq!(back.paste_asset, "shift+5");
}

#[test]
fn update_with_valid_pair_commits_and_redirects_dispatch() {
    let mut service = ShortcutService::new(default_settings());
    let startup = service.register_current();
    assert!(startup.toggle.is_ok());
    assert!(startup.paste.is_ok());

    let proposed = pair("Ctrl+Alt+O", "Ctrl+Shift+V");
    let content = service.propose_update(&proposed).unwrap();
    // The caller persists `content` here; only then:
    service.commit_update(proposed);

    let now = service.get_shortcuts();
    assert_eq!(now.toggle_overlay, "Ctrl+Alt+O");
    assert_eq!(now.paste_asset, "Ctrl+Shift+V");
    assert_eq!(
        content,
        "{\"toggle_overlay\":\"Ctrl+Alt+O\",\"paste_asset\":\"Ctrl+Shift+V\"}"
    );

    let new_toggle = parse("Ctrl+Alt+O").unwrap();
    let old_toggle = parse("Ctrl+Shift+O").unwrap();
    let paste = parse("Ctrl+Shift+V").unwrap();
    assert_eq!(
        service.dispatch(&new_toggle, PressState::Pressed),
        Some(Action::ToggleOverlay)
    );
    assert_eq!(service.dispatch(&old_toggle, PressState::Pressed), None);
    assert_eq!(
        service.dispatch(&paste, PressState::Pressed),
        Some(Action::PasteAssetInject)
    );
    assert_eq!(service.dispatch(&new_toggle, PressState::Released), None);
}

#[test]
fn update_with_invalid_binding_is_rejected_whole() {
    let mut service = ShortcutService::new(default_settings());
    service.register_current();

    let e = service
        .propose_update(&pair("NotAKey", "Ctrl+Shift+V"))
        .unwrap_err();
    assert_eq!(e.input, "NotAKey");
    assert_default(&service.get_shortcuts());

    // One valid and one invalid binding: the whole request is rejected.
    let e = service
        .propose_update(&pair("Ctrl+Alt+O", "NotAKey"))
        .unwrap_err();
    assert_eq!(e.input, "NotAKey");
    assert_default(&service.get_shortcuts());

    let toggle = parse("Ctrl+Shift+O").unwrap();
    assert_eq!(
        service.dispatch(&toggle, PressState::Pressed),
        Some(Action::ToggleOverlay)
    );
}

#[test]
fn unregister_all_silences_both_combinations() {
    let mut reg = Registrar::new();
    let p = pair("Ctrl+Shift+O", "Ctrl+Shift+V");
    let report = reg.register(&p);
    assert!(report.toggle.is_ok());
    assert!(report.paste.is_ok());

    reg.unregister_all();
    let toggle = parse("Ctrl+Shift+O").unwrap();
    let paste = parse("Ctrl+Shift+V").unwrap();
    assert_eq!(reg.dispatch(&toggle, PressState::Pressed), None);
    assert_eq!(reg.dispatch(&paste, PressState::Pressed), None);
}

#[test]
fn registration_failures_are_isolated_per_action() {
    let mut reg = Registrar::new();
    let report = reg.register(&pair("NotAKey", "Ctrl+Shift+V"));
    assert_eq!(report.toggle.unwrap_err().text, "NotAKey");
    assert!(report.paste.is_ok());
    let paste = parse("Ctrl+Shift+V").unwrap();
    assert_eq!(
        reg.dispatch(&paste, PressState::Pressed),
        Some(Action::PasteAssetInject)
    );

    let mut reg = Registrar::new();
    let report = reg.register(&pair("Ctrl+Shift+O", "Bad+"));
    assert!(report.toggle.is_ok());
    assert_eq!(report.paste.unwrap_err().text, "Bad+");
    let toggle = parse("Ctrl+Shift+O").unwrap();
    assert_eq!(
        reg.dispatch(&toggle, PressState::Pressed),
        Some(Action::ToggleOverlay)
    );
}

#[test]
fn toggle_command_flips_visibility() {
    assert_eq!(toggle_command(true), OverlayCommand::Hide);
    assert_eq!(toggle_command(false), OverlayCommand::Show);
}

#[test]
fn paste_plan_trims_and_skips_blank_text() {
    match paste_plan("  hello world \n") {
        PastePlan::SetField(v) => assert_eq!(v, "hello world"),
        PastePlan::ShowOnly => panic!("non-blank text should reach the field"),
    }
    assert!(matches!(paste_plan(""), PastePlan::ShowOnly));
    assert!(matches!(paste_plan(" \t\r\n"), PastePlan::ShowOnly));
    match paste_plan("x") {
        PastePlan::SetField(v) => assert_eq!(v, "x"),
        PastePlan::ShowOnly => panic!("single character should reach the field"),
    }
}

#[test]
fn normalize_nav_path_roots_once() {
    assert_eq!(normalize_nav_path("options/options.html"), "/options/options.html");
    assert_eq!(normalize_nav_path("/settings/settings.html"), "/settings/settings.html");
    assert_eq!(normalize_nav_path("///a"), "/a");
    assert_eq!(normalize_nav_path(""), "/");
}
