use vstd::prelude::*;

verus! {

/// Why the client is collecting text.
#[derive(Clone, Copy, Debug, PartialEq, Eq, Structural)]
pub enum Reason {
    Register,
    CreateCharacter,
}

/// The screen the client shows.
#[derive(Clone, Copy, Debug, PartialEq, Eq, Structural)]
pub enum AppState {
    Main,
    TextInput(Reason),
    FinishInput(Reason),
    Party,
    Combat,
}

/// A key press, as far as the client cares.
#[derive(Clone, Copy, Debug, PartialEq, Eq, Structural)]
pub enum Key {
    Char(char),
    Enter,
    Backspace,
    Esc,
    Other,
}

/// What the client must do after a key press.
#[derive(Clone, Debug)]
pub enum ClientAction {
    Nothing,
    /// Register a user with this name.
    RegisterUser(String),
    CreateCharacter,
    StartQuest,
}

/// The client's input state: the screen, the text typed so far (while
/// collecting text) and whether it should quit.
#[derive(Clone, Debug)]
pub struct ClientState {
    pub exit: bool,
    pub state: AppState,
    pub text_input: Option<String>,
}

/// Relies on `String::push`: appends one character.
#[verifier::external_body]
fn push_char(s: &mut String, c: char)
    ensures
        final(s)@ == old(s)@.push(c),
{
    s.push(c)
}

/// Relies on `String::pop`: removes the last character, if any.
#[verifier::external_body]
fn pop_char(s: &mut String)
    ensures
        old(s)@.len() == 0 ==> final(s)@.len() == 0,
        old(s)@.len() > 0 ==> final(s)@ == old(s)@.drop_last(),
{
    s.pop();
}

/// The text after a key press while collecting text.
pub open spec fn edited(t: Seq<char>, key: Key) -> Seq<char> {
    match key {
        Key::Char(c) => t.push(c),
        Key::Backspace => if t.len() == 0 {
            t
        } else {
            t.drop_last()
        },
        _ => t,
    }
}

/// The screen after the key that opens or closes text collection: from the
/// main screen, collection starts; from any other screen, back to main.
pub open spec fn toggled(s: AppState) -> AppState {
    match s {
        AppState::Main => AppState::TextInput(Reason::Register),
        _ => AppState::Main,
    }
}

impl ClientState {
    /// A client on the main screen with no text.
    pub fn new() -> (r: ClientState)
        ensures
            !r.exit,
            r.state == AppState::Main,
            r.text_input is None,
    {
        ClientState { exit: false, state: AppState::Main, text_input: None }
    }

    /// Handles one key press and says what the client must do next.
    ///
    /// While collecting text: a character is appended, backspace removes the
    /// last one, escape returns to the main screen, and enter returns to the
    /// main screen, clears the text and asks to register a user with it.
    /// Elsewhere: `q` quits, `r` toggles text collection, `c` asks for a new
    /// character and `a` asks to start a quest.
    pub fn handle_key(&mut self, key: Key) -> (r: ClientAction)
        ensures
            old(self).state is TextInput ==> match key {
                Key::Enter => {
                    &&& final(self).state == AppState::Main
                    &&& final(self).text_input is None
                    &&& final(self).exit == old(self).exit
                    &&& match old(self).text_input {
                        Some(t) => r is RegisterUser && r->RegisterUser_0@ == t@,
                        None => r is Nothing,
                    }
                },
                Key::Esc => {
                    &&& final(self).state == AppState::Main
                    &&& final(self).text_input == old(self).text_input
                    &&& final(self).exit == old(self).exit
                    &&& r is Nothing
                },
                _ => {
                    &&& final(self).state == old(self).state
                    &&& final(self).exit == old(self).exit
                    &&& r is Nothing
                    &&& match old(self).text_input {
                        Some(t) => final(self).text_input is Some
                            && final(self).text_input->Some_0@ == edited(t@, key),
                        None => final(self).text_input is None,
                    }
                },
            },
            !(old(self).state is TextInput) ==> match key {
                Key::Char('q') => {
                    &&& final(self).exit
                    &&& final(self).state == old(self).state
                    &&& final(self).text_input == old(self).text_input
                    &&& r is Nothing
                },
                Key::Char('r') => {
                    &&& final(self).exit == old(self).exit
                    &&& final(self).state == toggled(old(self).state)
                    &&& r is Nothing
                    &&& if old(self).state is Main {
                        final(self).text_input is Some && final(self).text_input->Some_0@.len() == 0
                    } else {
                        final(self).text_input == old(self).text_input
                    }
                },
                _ => {
                    &&& final(self).exit == old(self).exit
                    &&& final(self).state == old(self).state
                    &&& final(self).text_input == old(self).text_input
                    &&& match key {
                        Key::Char('c') => r is CreateCharacter,
                        Key::Char('a') => r is StartQuest,
                        _ => r is Nothing,
                    }
                },
            },
    {
        match self.state {
            AppState::TextInput(_) => match key {
                Key::Enter => {
                    self.state = AppState::Main;
                    match self.text_input.take() {
                        Some(name) => ClientAction::RegisterUser(name),
                        None => ClientAction::Nothing,
                    }
                },
                Key::Char(c) => {
                    match &mut self.text_input {
                        Some(t) => push_char(t, c),
                        None => {},
                    }
                    ClientAction::Nothing
                },
                Key::Backspace => {
                    match &mut self.text_input {
                        Some(t) => pop_char(t),
                        None => {},
                    }
                    ClientAction::Nothing
                },
                Key::Esc => {
                    self.state = AppState::Main;
                    ClientAction::Nothing
                },
                Key::Other => ClientAction::Nothing,
            },
            _ => match key {
                Key::Char('q') => {
                    self.exit = true;
                    ClientAction::Nothing
                },
                Key::Char('r') => {
                    match self.state {
                        AppState::Main => {
                            self.text_input = Some(String::new());
                            self.state = AppState::TextInput(Reason::Register);
                        },
                        _ => {
                            self.state = AppState::Main;
                        },
                    }
                    ClientAction::Nothing
                },
                Key::Char('c') => ClientAction::CreateCharacter,
                Key::Char('a') => ClientAction::StartQuest,
                _ => ClientAction::Nothing,
            },
        }
    }
}

} // verus!
