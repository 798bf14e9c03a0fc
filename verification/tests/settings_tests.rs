use dynamic_island::settings::{
    default_blacklist_processes, default_theme, normalize_blacklist, SettingsData,
};

#[test]
fn defaults() {
    let s = SettingsData::default();
    assert!(!s.auto_start && !s.debug_mode && !s.blacklist_enabled);
    assert!(s.blacklist_processes.is_empty());
    assert_eq!(s.theme, "dark");
    assert_eq!(default_theme(), "dark");
    assert!(default_blacklist_processes().is_empty());
}

#[test]
fn blacklist_is_trimmed_lowercased_and_empty_entries_dropped() {
    let input: Vec<String> = vec!["  Game.EXE ", "", "   ", "\tObs64.exe\n", "VLC.exe"]
        .into_iter()
        .map(String::from)
        .collect();
    assert_eq!(normalize_blacklist(&input), vec!["game.exe", "obs64.exe", "vlc.exe"]);
}

#[test]
fn blacklist_keeps_unicode_lowercasing() {
    let input = vec!["  ÄPFEL.exe".to_string(), "Σ.EXE".to_string()];
    assert_eq!(normalize_blacklist(&input), vec!["äpfel.exe", "σ.exe"]);
}

#[test]
fn saving_blacklist_twice_changes_nothing_more() {
    let mut s = SettingsData::default();
    s.save_blacklist(&vec![" A.exe ".to_string()]);
    let once = s.blacklist_processes.clone();
    s.save_blacklist(&once);
    assert_eq!(s.blacklist_processes, once);
}

#[test]
fn setters_change_one_field() {
    let mut s = SettingsData::default();
    s.apply_auto_start_choice(None);
    assert!(!s.auto_start);
    s.apply_auto_start_choice(Some(true));
    assert!(s.auto_start);
    s.set_auto_start(false);
    assert!(!s.auto_start);
    s.set_debug_mode(true);
    assert!(s.debug_mode);
    s.set_blacklist_enabled(true);
    assert!(s.blacklist_enabled);
    s.save_theme("light".to_string());
    assert_eq!(s.theme, "light");
    assert!(!s.auto_start);
}

#[test]
fn blacklist_trims_unicode_white_space_only() {
    let input = vec![
        "\u{3000}A.exe\u{00A0}".to_string(),
        "\u{0085}\u{2028}b.exe\u{205F}".to_string(),
        "\u{200B}c.exe".to_string(),
        "\u{2000}\u{200A}\u{202F}".to_string(),
    ];
    assert_eq!(normalize_blacklist(&input), vec!["a.exe", "b.exe", "\u{200B}c.exe"]);
}

#[test]
fn blank_entries_are_the_only_ones_dropped() {
    let input = vec![" \t ".to_string(), "İ".to_string(), String::new(), " X ".to_string()];
    let saved = normalize_blacklist(&input);
    assert_eq!(saved.len(), 2);
    assert_eq!(saved[0], "i\u{307}");
    assert_eq!(saved[1], "x");
}
