use riff::config::{default_language, default_shortcut, default_true, load, Config};
use riff::tray::{
    autostart_next, build_tray, menu_choice, shortcut_option, MenuChoice, MenuEntry, SHORTCUTS,
};

fn config(shortcut: &str, polish: bool) -> Config {
    Config {
        api_key: "k".to_string(),
        shortcut: shortcut.to_string(),
        polish,
        language: "en".to_string(),
    }
}

fn fields(c: &Config) -> (&str, &str, bool, &str) {
    (&c.api_key, &c.shortcut, c.polish, &c.language)
}

#[test]
fn defaults_hold_where_nothing_was_set() {
    assert_eq!(default_shortcut(), "Alt+R");
    assert!(default_true());
    assert_eq!(default_language(), "es");
    assert_eq!(fields(&Config::default()), ("", "Alt+R", true, "es"));
    assert_eq!(fields(&load(None)), ("", "Alt+R", true, "es"));
    assert_eq!(fields(&load(Some(config("Alt+Q", false)))), ("k", "Alt+Q", false, "en"));
}

#[test]
fn a_copy_of_the_settings_is_the_same() {
    let c = config("Alt+J", true);
    assert_eq!(fields(&c.clone()), fields(&c));
}

#[test]
fn a_blank_key_is_no_key() {
    let mut c = Config::default();
    assert!(!c.has_key());
    c.api_key = " \n".to_string();
    assert!(!c.has_key());
    c.api_key = " x ".to_string();
    assert!(c.has_key());
}

#[test]
fn the_menu_in_the_tray() {
    let shown: Vec<String> = build_tray(&config("Alt+Q", false), true)
        .iter()
        .map(|entry| match entry {
            MenuEntry::Item { id, label, enabled } => format!("{id}|{label}|{enabled}"),
            MenuEntry::Check(c) => format!("{}|{}|{}|{}", c.id, c.label, c.enabled, c.checked),
            MenuEntry::Separator => "-".to_string(),
            MenuEntry::Submenu { id, label, enabled, items } => {
                let inner: Vec<String> =
                    items.iter().map(|c| format!("{}|{}|{}|{}", c.id, c.label, c.enabled, c.checked)).collect();
                format!("{id}|{label}|{enabled}|{}", inner.join(","))
            }
        })
        .collect();
    assert_eq!(
        shown,
        vec![
            "heading|Riff · Alt+Q|false",
            "-",
            "shortcuts|Atajo|true|shortcut:Alt+R|Alt+R|true|false,shortcut:Alt+J|Alt+J|true|false,shortcut:Alt+Q|Alt+Q|true|true,shortcut:Ctrl+Space|Ctrl+Space|true|false",
            "polish|Pulir con IA|true|false",
            "autostart|Iniciar con Windows|true|true",
            "-",
            "settings|Ajustes…|true",
            "quit|Salir de Riff|true",
        ]
    );
}

#[test]
fn entries_stand_for_what_they_were_made_for() {
    for choice in SHORTCUTS {
        let item = shortcut_option(choice, &config(choice, true));
        assert!(item.checked);
        assert!(matches!(menu_choice(&item.id), MenuChoice::Shortcut(c) if c == choice));
    }
    assert!(matches!(menu_choice("quit"), MenuChoice::Quit));
    assert!(matches!(menu_choice("settings"), MenuChoice::Settings));
    assert!(matches!(menu_choice("polish"), MenuChoice::Polish));
    assert!(matches!(menu_choice("autostart"), MenuChoice::Autostart));
    assert!(matches!(menu_choice("shortcut:"), MenuChoice::Shortcut(c) if c.is_empty()));
    assert!(matches!(menu_choice("heading"), MenuChoice::Nothing));
    assert!(matches!(menu_choice("shortcuts"), MenuChoice::Nothing));
    assert!(matches!(menu_choice(""), MenuChoice::Nothing));
}

#[test]
fn starting_with_the_system_is_turned_round() {
    assert!(!autostart_next(Some(true)));
    assert!(autostart_next(Some(false)));
    assert!(autostart_next(None));
}
