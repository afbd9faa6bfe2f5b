//! Tests for the shortcut grammar and the settings-file codec.

use overlay_hotkeys::codec::{decode, encode};
use overlay_hotkeys::hotkey::{parse, Key};

#[test]
fn parse_default_toggle() {
    let c = parse("Ctrl+Shift+O").unwrap();
    assert!(c.mods.ctrl);
    assert!(c.mods.shift);
    assert!(!c.mods.alt);
    assert!(!c.mods.meta);
    assert_eq!(c.key, Key::Letter('O'));
}

#[test]
fn parse_is_case_insensitive() {
    assert_eq!(
        parse("ctrl+shift+o").unwrap(),
        parse("Ctrl+Shift+O").unwrap()
    );
    assert_eq!(parse("CTRL+SHIFT+O").unwrap(), parse("Ctrl+Shift+O").unwrap());
}

#[test]
fn parse_modifier_aliases() {
    assert!(parse("control+O").unwrap().mods.ctrl);
    assert!(parse("option+O").unwrap().mods.alt);
    assert!(parse("alt+O").unwrap().mods.alt);
    for m in ["super", "cmd", "command", "meta", "win", "windows"] {
        let c = parse(&format!("{}+O", m)).unwrap();
        assert!(c.mods.meta, "{} should set the meta modifier", m);
        assert!(!c.mods.ctrl && !c.mods.shift && !c.mods.alt);
    }
}

#[test]
fn parse_single_key() {
    let c = parse("O").unwrap();
    assert!(!c.mods.ctrl && !c.mods.shift && !c.mods.alt && !c.mods.meta);
    assert_eq!(c.key, Key::Letter('O'));
    assert_eq!(parse("7").unwrap().key, Key::Digit('7'));
    assert_eq!(parse("o").unwrap().key, Key::Letter('O'));
}

#[test]
fn parse_function_keys() {
    assert_eq!(parse("F1").unwrap().key, Key::Function(1));
    assert_eq!(parse("f9").unwrap().key, Key::Function(9));
    assert_eq!(parse("Ctrl+F10").unwrap().key, Key::Function(10));
    assert_eq!(parse("F12").unwrap().key, Key::Function(12));
    assert_eq!(parse("F").unwrap().key, Key::Letter('F'));
    for bad in ["F0", "F13", "F123", "Fa", "F1 "] {
        assert!(parse(bad).is_err(), "{:?} should be rejected", bad);
    }
}

#[test]
fn parse_named_keys() {
    assert_eq!(parse("Ctrl+Space").unwrap().key, Key::Space);
    assert_eq!(parse("space").unwrap().key, Key::Space);
    assert_eq!(parse("Shift+Enter").unwrap().key, Key::Enter);
    assert_eq!(parse("Tab").unwrap().key, Key::Tab);
    assert_eq!(parse("Alt+Escape").unwrap().key, Key::Escape);
    assert!(parse("Space+O").is_err());
    assert!(parse("Esc").is_err());
}

#[test]
fn parse_repeated_modifier_is_accepted() {
    let c = parse("Ctrl+Ctrl+O").unwrap();
    assert!(c.mods.ctrl);
    assert_eq!(c.key, Key::Letter('O'));
}

#[test]
fn parse_rejects_malformed() {
    for bad in [
        "",
        "NotAKey",
        "Ctrl+",
        "+O",
        "Ctrl+Shift",
        "Ctrl++O",
        "Ctrl + O",
        "Ctrl+OO",
        "F13",
        "Ctrl+Shift+@",
    ] {
        assert!(parse(bad).is_err(), "{:?} should be rejected", bad);
    }
}

#[test]
fn parse_error_names_the_text() {
    let e = parse("NotAKey").unwrap_err();
    assert_eq!(e.input, "NotAKey");
    let e = parse("Ctrl+Nope+O").unwrap_err();
    assert_eq!(e.input, "Ctrl+Nope+O");
}

#[test]
fn encode_is_canonical() {
    let text = encode("Ctrl+Shift+O", "Ctrl+Shift+V");
    assert_eq!(
        text,
        "{\"toggle_overlay\":\"Ctrl+Shift+O\",\"paste_asset\":\"Ctrl+Shift+V\"}"
    );
}

#[test]
fn decode_reads_encoded_text() {
    let text = encode("Ctrl+Alt+5", "shift+x");
    let (t, p) = decode(&text).unwrap();
    assert_eq!(t, "Ctrl+Alt+5");
    assert_eq!(p, "shift+x");
}

#[test]
fn decode_accepts_pretty_layout() {
    let text = "{\n  \"toggle_overlay\": \"Ctrl+Shift+O\",\n  \"paste_asset\": \"Ctrl+Shift+V\"\n}\n";
    let (t, p) = decode(text).unwrap();
    assert_eq!(t, "Ctrl+Shift+O");
    assert_eq!(p, "Ctrl+Shift+V");
}

#[test]
fn decode_rejects_malformed_text() {
    for bad in [
        "",
        "{}",
        "not json at all",
        "{\"toggle_overlay\":\"Ctrl+Shift+O\"}",
        "{\"paste_asset\":\"Ctrl+Shift+V\",\"toggle_overlay\":\"Ctrl+Shift+O\"}",
        "{\"toggle_overlay\":\"Ctrl+Shift+O\",\"paste_asset\":\"Ctrl+Shift+V\"} extra",
        "{\"toggle_overlay\":\"a\\\"b\",\"paste_asset\":\"Ctrl+Shift+V\"}",
        "{\"toggle_overlay\":\"Ctrl+Shift+O\",\"paste_asset\":\"Ctrl+Shift+V\"",
    ] {
        assert!(decode(bad).is_none(), "{:?} should not decode", bad);
    }
}
