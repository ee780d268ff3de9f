use ratback::client::{AppState, ClientAction, ClientState, Key, Reason};

#[test]
fn typing_a_name_and_registering() {
    let mut c = ClientState::new();
    assert!(matches!(c.handle_key(Key::Char('r')), ClientAction::Nothing));
    assert_eq!(c.state, AppState::TextInput(Reason::Register));
    assert_eq!(c.text_input.as_deref(), Some(""));
    for ch in ['b', 'o', 'x'] {
        c.handle_key(Key::Char(ch));
    }
    c.handle_key(Key::Backspace);
    c.handle_key(Key::Char('b'));
    assert_eq!(c.text_input.as_deref(), Some("bob"));
    match c.handle_key(Key::Enter) {
        ClientAction::RegisterUser(name) => assert_eq!(name, "bob"),
        _ => panic!("expected a registration"),
    }
    assert_eq!(c.state, AppState::Main);
    assert!(c.text_input.is_none());
}

#[test]
fn backspace_on_empty_text_keeps_it_empty() {
    let mut c = ClientState::new();
    c.handle_key(Key::Char('r'));
    c.handle_key(Key::Backspace);
    assert_eq!(c.text_input.as_deref(), Some(""));
}

#[test]
fn escape_leaves_text_collection() {
    let mut c = ClientState::new();
    c.handle_key(Key::Char('r'));
    c.handle_key(Key::Char('q'));
    assert!(!c.exit);
    c.handle_key(Key::Esc);
    assert_eq!(c.state, AppState::Main);
    assert_eq!(c.text_input.as_deref(), Some("q"));
}

#[test]
fn main_screen_keys() {
    let mut c = ClientState::new();
    assert!(matches!(c.handle_key(Key::Char('c')), ClientAction::CreateCharacter));
    assert!(matches!(c.handle_key(Key::Char('a')), ClientAction::StartQuest));
    assert!(matches!(c.handle_key(Key::Char('z')), ClientAction::Nothing));
    assert!(!c.exit);
    c.handle_key(Key::Char('q'));
    assert!(c.exit);
}

#[test]
fn toggle_from_other_screen_returns_to_main() {
    let mut c = ClientState::new();
    c.state = AppState::Party;
    c.handle_key(Key::Char('r'));
    assert_eq!(c.state, AppState::Main);
    assert!(c.text_input.is_none());
}
