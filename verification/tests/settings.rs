use dockshell::settings::{is_known_theme, load, with_known_theme, Settings};

#[test]
fn defaults_when_file_is_missing() {
    assert_eq!(load(None), Settings::default());
}

#[test]
fn default_settings_values() {
    let d = Settings::default();
    assert_eq!(d.theme, "system");
    assert_eq!(d.refresh_interval_secs, 10);
}

#[test]
fn stored_settings_are_kept() {
    let settings = Settings {
        theme: "light".to_string(),
        refresh_interval_secs: 30,
    };
    assert_eq!(load(Some(settings.clone())), settings);
}

#[test]
fn known_themes_load_as_stored() {
    for theme in ["dark", "light", "system"] {
        let s = Settings { theme: theme.to_string(), refresh_interval_secs: 5 };
        assert_eq!(load(Some(s.clone())), s);
    }
}

#[test]
fn an_unknown_stored_theme_loads_as_system() {
    let s = Settings { theme: "blue".to_string(), refresh_interval_secs: 30 };
    let loaded = load(Some(s));
    assert_eq!(loaded.theme, "system");
    assert_eq!(loaded.refresh_interval_secs, 30);
    assert_eq!(load(Some(Settings { theme: "Dark".into(), refresh_interval_secs: 1 })).theme, "system");
}

#[test]
fn with_known_theme_keeps_offered_themes() {
    assert!(is_known_theme("light"));
    assert!(!is_known_theme(""));
    let s = Settings { theme: "dark".into(), refresh_interval_secs: 3 };
    assert_eq!(with_known_theme(s.clone()), s);
    assert_eq!(with_known_theme(Settings { theme: "x".into(), refresh_interval_secs: 3 }).theme, "system");
}
