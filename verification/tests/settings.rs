use vimcord::config::{Config, load_config, load_emojis, emojis_or_empty};
use vimcord::keys::{Key, TermEvent, action_for_event};
use vimcord::app::AppAction;

#[test]
fn default_config() {
    let c = Config::default();
    assert_eq!(c.version, 1);
    assert!(c.vim_mode);
    assert!(!c.discreet_notifs);
    assert!(!c.slient_typing);
    assert!(c.emoji_map.is_empty());
}

#[test]
fn emoji_dictionary_is_read() {
    let (m, err) = load_emojis("[[\"smile\",\"😄\"],[\"heart\",\"❤\"]]");
    assert!(err.is_none());
    assert_eq!(m, vec![
        ("smile".to_string(), "😄".to_string()),
        ("heart".to_string(), "❤".to_string()),
    ]);
    let (m, err) = load_emojis("not json");
    assert!(m.is_empty());
    assert!(err.is_some());
    let (m, err) = emojis_or_empty(Err("bad".to_string()));
    assert!(m.is_empty());
    assert_eq!(err.as_deref(), Some("bad"));
}

#[test]
fn config_without_emojis_gets_them_and_is_stored() {
    let stored = Config { version: 1, vim_mode: false, discreet_notifs: true, slient_typing: false, emoji_map: vec![] };
    let (c, store, err) = load_config(Ok(stored), "[[\"a\",\"b\"]]");
    assert!(store);
    assert!(err.is_none());
    assert!(!c.vim_mode);
    assert!(c.discreet_notifs);
    assert_eq!(c.emoji_map, vec![("a".to_string(), "b".to_string())]);
    let (again, store_again, _) = load_config(Ok(c), "[[\"a\",\"b\"]]");
    assert!(!store_again);
    assert_eq!(again.emoji_map, vec![("a".to_string(), "b".to_string())]);
}

#[test]
fn unreadable_config_gives_defaults() {
    let (c, store, err) = load_config(Err("bad file".to_string()), "[]");
    assert!(err.is_none());
    assert!(!store);
    assert!(c.vim_mode);
    assert_eq!(c.version, 1);
}

fn key(k: Key) -> TermEvent {
    TermEvent::Key { key: k, press: true, ctrl: false }
}

#[test]
fn terminal_events_map_to_actions() {
    assert!(matches!(action_for_event(key(Key::Esc)), Some(AppAction::InputEscape)));
    assert!(matches!(action_for_event(key(Key::Enter)), Some(AppAction::InputSubmit)));
    assert!(matches!(action_for_event(key(Key::Up)), Some(AppAction::SelectPrevious)));
    assert!(matches!(action_for_event(key(Key::Down)), Some(AppAction::SelectNext)));
    assert!(matches!(action_for_event(key(Key::Char('q'))), Some(AppAction::InputChar('q'))));
    assert!(matches!(
        action_for_event(TermEvent::Key { key: Key::Char('c'), press: true, ctrl: true }),
        Some(AppAction::SigInt)
    ));
    assert!(action_for_event(TermEvent::Key { key: Key::Enter, press: false, ctrl: false }).is_none());
    assert!(matches!(action_for_event(TermEvent::Paste("x".to_string())), Some(AppAction::Paste(_))));
    assert!(action_for_event(key(Key::Other)).is_none());
}

#[test]
fn unreadable_dictionary_is_reported() {
    let stored = Config { version: 1, vim_mode: true, discreet_notifs: false, slient_typing: false, emoji_map: vec![] };
    let (c, store, err) = load_config(Ok(stored), "{oops");
    assert!(store);
    assert!(c.emoji_map.is_empty());
    assert!(err.is_some());
}
