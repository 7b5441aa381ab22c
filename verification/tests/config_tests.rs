use cartographer::config::{validate, Config, ConfigError, GridConfig, HotkeyConfig};
use cartographer::keys::{key_name_to_keycode, modifier_name_to_flag, ModifierFlags};

fn row(keys: &[&str]) -> Vec<String> {
    keys.iter().map(|k| k.to_string()).collect()
}

#[test]
fn default_config_is_valid() {
    let config = Config::default();
    assert!(validate(&config).is_ok());
}

#[test]
fn key_name_mapping_basics() {
    assert_eq!(key_name_to_keycode("t"), Some(17));
    assert_eq!(key_name_to_keycode("q"), Some(12));
    assert_eq!(key_name_to_keycode("a"), Some(0));
    assert_eq!(key_name_to_keycode("v"), Some(9));
    assert_eq!(key_name_to_keycode("space"), Some(49));
    assert_eq!(key_name_to_keycode("nope"), None);
}

#[test]
fn key_name_case_insensitive() {
    assert_eq!(key_name_to_keycode("T"), Some(17));
    assert_eq!(key_name_to_keycode("Q"), Some(12));
    assert_eq!(key_name_to_keycode("SPACE"), Some(49));
}

#[test]
fn modifier_mapping() {
    assert!(modifier_name_to_flag("alt").is_some());
    assert!(modifier_name_to_flag("cmd").is_some());
    assert!(modifier_name_to_flag("shift").is_some());
    assert!(modifier_name_to_flag("ctrl").is_some());
    assert!(modifier_name_to_flag("option").is_some());
    assert!(modifier_name_to_flag("command").is_some());
    assert!(modifier_name_to_flag("nope").is_none());
}

#[test]
fn default_hotkey_resolves() {
    let hk = HotkeyConfig::default();
    let (keycode, flags) = hk.resolve().unwrap();
    assert_eq!(keycode, 17); // T
    assert!(flags.contains(ModifierFlags::alternate()));
    assert!(flags.contains(ModifierFlags::command()));
}

#[test]
fn default_grid_builds_keycode_map() {
    let gc = GridConfig::default();
    let map = gc.build_keycode_map().unwrap();
    assert_eq!(map.len(), 12);
    // Q -> (12, 0, 0)
    assert!(map.contains(&(12, 0, 0)));
    // V -> (9, 3, 2)
    assert!(map.contains(&(9, 3, 2)));
}

#[test]
fn grid_key_count_mismatch_fails() {
    let config = Config {
        grid: GridConfig {
            cols: 5, // says 5 but keys have 4 per row
            ..GridConfig::default()
        },
        ..Config::default()
    };
    assert!(validate(&config).is_err());
}

#[test]
fn duplicate_key_fails() {
    let config = Config {
        grid: GridConfig {
            keys: vec![
                row(&["q", "q", "e", "r"]), // q twice
                row(&["a", "s", "d", "f"]),
                row(&["z", "x", "c", "v"]),
            ],
            ..GridConfig::default()
        },
        ..Config::default()
    };
    assert!(validate(&config).is_err());
}

#[test]
fn unknown_key_fails_validation() {
    let config = Config {
        grid: GridConfig {
            keys: vec![
                row(&["q", "w", "e", "nope"]),
                row(&["a", "s", "d", "f"]),
                row(&["z", "x", "c", "v"]),
            ],
            ..GridConfig::default()
        },
        ..Config::default()
    };
    assert!(validate(&config).is_err());
}

#[test]
fn label_string_builds_correctly() {
    let gc = GridConfig::default();
    assert_eq!(gc.build_label_string(), "Q,W,E,R;A,S,D,F;Z,X,C,V");
}

#[test]
fn timeout_too_low_fails() {
    let config = Config {
        grid: GridConfig {
            selection_timeout_ms: 50,
            ..GridConfig::default()
        },
        ..Config::default()
    };
    assert!(validate(&config).is_err());
}

// -- each refusal of validate, with the error it gives --

#[test]
fn empty_grid_is_refused() {
    let config = Config {
        grid: GridConfig { cols: 0, ..GridConfig::default() },
        ..Config::default()
    };
    assert!(matches!(validate(&config), Err(ConfigError::EmptyGrid)));
    let config = Config {
        grid: GridConfig { rows: 0, ..GridConfig::default() },
        ..Config::default()
    };
    assert!(matches!(validate(&config), Err(ConfigError::EmptyGrid)));
}

#[test]
fn row_count_mismatch_names_counts() {
    let config = Config {
        grid: GridConfig { rows: 4, ..GridConfig::default() },
        ..Config::default()
    };
    match validate(&config) {
        Err(ConfigError::RowCountMismatch { expected, found }) => {
            assert_eq!(expected, 4);
            assert_eq!(found, 3);
        }
        other => panic!("unexpected {:?}", other),
    }
}

#[test]
fn row_length_mismatch_names_first_bad_row() {
    let config = Config {
        grid: GridConfig {
            keys: vec![
                row(&["q", "w", "e", "r"]),
                row(&["a", "s", "d"]),
                row(&["z", "x"]),
            ],
            ..GridConfig::default()
        },
        ..Config::default()
    };
    match validate(&config) {
        Err(ConfigError::RowLengthMismatch { row, found, expected }) => {
            assert_eq!(row, 1);
            assert_eq!(found, 3);
            assert_eq!(expected, 4);
        }
        other => panic!("unexpected {:?}", other),
    }
}

#[test]
fn duplicate_key_names_the_later_key() {
    let gc = GridConfig {
        keys: vec![
            row(&["q", "w", "e", "r"]),
            row(&["a", "s", "d", "f"]),
            row(&["z", "x", "c", "Q"]),
        ],
        ..GridConfig::default()
    };
    match gc.build_keycode_map() {
        Err(ConfigError::DuplicateKey(name)) => assert_eq!(name, "Q"),
        other => panic!("unexpected {:?}", other),
    }
}

#[test]
fn unknown_key_names_the_key() {
    let gc = GridConfig {
        keys: vec![row(&["q", "huh", "nope"])],
        ..GridConfig::default()
    };
    match gc.build_keycode_map() {
        Err(ConfigError::UnknownKey(name)) => assert_eq!(name, "huh"),
        other => panic!("unexpected {:?}", other),
    }
}

#[test]
fn keycode_map_is_row_major() {
    let gc = GridConfig {
        cols: 2,
        rows: 2,
        keys: vec![row(&["1", "2"]), row(&["Tab", "ESC"])],
        selection_timeout_ms: 300,
    };
    assert_eq!(gc.build_keycode_map().unwrap(), vec![(18, 0, 0), (19, 1, 0), (48, 0, 1), (53, 1, 1)]);
}

#[test]
fn unknown_trigger_key_is_refused_before_modifiers() {
    let hk = HotkeyConfig { trigger_key: "huh".to_string(), modifiers: vec!["nope".to_string()] };
    match hk.resolve() {
        Err(ConfigError::UnknownTriggerKey(name)) => assert_eq!(name, "huh"),
        other => panic!("unexpected {:?}", other),
    }
}

#[test]
fn unknown_modifier_is_refused() {
    let hk = HotkeyConfig {
        trigger_key: "g".to_string(),
        modifiers: vec!["ctrl".to_string(), "hyper".to_string(), "meta".to_string()],
    };
    match hk.resolve() {
        Err(ConfigError::UnknownModifier(name)) => assert_eq!(name, "hyper"),
        other => panic!("unexpected {:?}", other),
    }
    let config = Config {
        hotkey: HotkeyConfig { trigger_key: "t".to_string(), modifiers: vec!["hyper".to_string()] },
        ..Config::default()
    };
    assert!(matches!(validate(&config), Err(ConfigError::UnknownModifier(_))));
}

#[test]
fn resolve_unites_modifier_bits() {
    let hk = HotkeyConfig {
        trigger_key: "Return".to_string(),
        modifiers: vec!["Shift".to_string(), "control".to_string(), "opt".to_string()],
    };
    let (keycode, flags) = hk.resolve().unwrap();
    assert_eq!(keycode, 36);
    assert_eq!(flags.bits, 0x0002_0000 | 0x0004_0000 | 0x0008_0000);
    assert!(!flags.contains(ModifierFlags::command()));
}

#[test]
fn timeout_of_exactly_100_ms_is_valid() {
    let config = Config {
        grid: GridConfig { selection_timeout_ms: 100, ..GridConfig::default() },
        ..Config::default()
    };
    assert!(validate(&config).is_ok());
}

#[test]
fn selection_timeout_converts_millis() {
    let gc = GridConfig { selection_timeout_ms: 250, ..GridConfig::default() };
    assert_eq!(gc.selection_timeout().nanos, 250_000_000);
}

#[test]
fn label_string_of_uneven_rows() {
    let gc = GridConfig {
        keys: vec![row(&["a"]), row(&["b", "esc"]), row(&[])],
        ..GridConfig::default()
    };
    assert_eq!(gc.build_label_string(), "A;B,ESC;");
}

#[test]
fn keycodes_cover_0_to_53_but_10_and_52() {
    let names = [
        "a", "s", "d", "f", "h", "g", "z", "x", "c", "v", "b", "q", "w", "e", "r", "y", "t", "1",
        "2", "3", "4", "5", "6", "7", "8", "9", "0", "o", "u", "i", "p", "l", "j", "k", "n", "m",
        "space", "return", "enter", "tab", "escape", "esc", "backspace", "delete", "minus",
        "equal", "equals", "leftbracket", "rightbracket", "semicolon", "quote", "comma", "period",
        "slash", "backslash", "backtick", "grave",
    ];
    let mut seen = vec![false; 54];
    for n in names {
        let k = key_name_to_keycode(n).unwrap() as usize;
        assert!(k <= 53 && k != 10 && k != 52);
        seen[k] = true;
    }
    for k in 0..54 {
        assert_eq!(seen[k], k != 10 && k != 52, "keycode {k}");
    }
}

#[test]
fn aliases_share_keycodes() {
    for (a, b) in [("return", "enter"), ("escape", "esc"), ("backspace", "delete"), ("equal", "equals"), ("backtick", "grave")] {
        assert_eq!(key_name_to_keycode(a), key_name_to_keycode(b));
    }
    assert_eq!(key_name_to_keycode("ReTuRn"), key_name_to_keycode("return"));
}

#[test]
fn labels_split_back_into_upper_case_names() {
    let gc = GridConfig {
        keys: vec![row(&["q", "Tab"]), row(&["esc"])],
        ..GridConfig::default()
    };
    let label = gc.build_label_string();
    let back: Vec<Vec<String>> = label.split(';').map(|r| r.split(',').map(|k| k.to_string()).collect()).collect();
    assert_eq!(back, vec![vec!["Q".to_string(), "TAB".to_string()], vec!["ESC".to_string()]]);
}
