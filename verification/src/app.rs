//! The hosted application's state machine: one instance of this state lives
//! in each session, and one normalized event steps it at a time.
//!
//! The application is a small recipe browser and editor. Its transitions
//! are given by [`update_spec`], and the executable [`update`] is proved to
//! implement them exactly.

use vstd::prelude::*;

use crate::events::{EventValue, KeyCode, Modifiers, StructuredEvent};

verus! {

/// What the user is doing overall.
#[derive(Clone, Copy, Debug, PartialEq, Eq, Structural)]
pub enum CurrentMode {
    Main,
    Editing,
    Exiting,
}

/// Which listing is on screen.
#[derive(Clone, Copy, Debug, PartialEq, Eq, Structural)]
pub enum CurrentScreen {
    Recipes,
    Ingredients,
}

/// Which field of the recipe under edit has focus.
#[derive(Clone, Copy, Debug, PartialEq, Eq, Structural)]
pub enum CurrentlyEditing {
    Name,
    Ingredients,
    Description,
}

/// One user's application state: the listing cursor, the mode, and the
/// fields of the recipe under edit. Recipe names are byte strings as typed.
///
/// A fresh state starts with an empty listing: the recipe database that
/// would seed it is an external collaborator, out of this library's scope,
/// and a host that has one pushes its names into `recipes` before starting
/// the session.
#[derive(Debug)]
pub struct App {
    pub current_screen: CurrentScreen,
    pub current_mode: CurrentMode,
    pub currently_editing: Option<CurrentlyEditing>,
    pub should_quit: bool,
    pub recipes: Vec<Vec<u8>>,
    pub selected: Option<usize>,
    pub name_text: Vec<u8>,
    pub desc_text: Vec<u8>,
}

/// The mathematical value of an [`App`].
#[verifier::ext_equal]
pub struct AppValue {
    pub current_screen: CurrentScreen,
    pub current_mode: CurrentMode,
    pub currently_editing: Option<CurrentlyEditing>,
    pub should_quit: bool,
    pub recipes: Seq<Seq<u8>>,
    pub selected: Option<usize>,
    pub name_text: Seq<u8>,
    pub desc_text: Seq<u8>,
}

impl View for App {
    type V = AppValue;

    open spec fn view(&self) -> AppValue {
        AppValue {
            current_screen: self.current_screen,
            current_mode: self.current_mode,
            currently_editing: self.currently_editing,
            should_quit: self.should_quit,
            recipes: self.recipes@.map_values(|r: Vec<u8>| r@),
            selected: self.selected,
            name_text: self.name_text@,
            desc_text: self.desc_text@,
        }
    }
}

/// The state a fresh session starts from.
pub open spec fn initial_app() -> AppValue {
    AppValue {
        current_screen: CurrentScreen::Recipes,
        current_mode: CurrentMode::Main,
        currently_editing: None,
        should_quit: false,
        recipes: Seq::empty(),
        selected: None,
        name_text: Seq::empty(),
        desc_text: Seq::empty(),
    }
}

// ---------------------------------------------------------------------------
// Transitions.
// ---------------------------------------------------------------------------

/// Saving the recipe under edit: an empty name saves nothing; otherwise the
/// name joins the listing and the edit focus is released.
pub open spec fn save_spec(a: AppValue) -> AppValue {
    if a.name_text.len() == 0 {
        a
    } else {
        AppValue { recipes: a.recipes.push(a.name_text), currently_editing: None, ..a }
    }
}

/// Rotating the edit focus: nothing focused focuses the name; the name and
/// the description alternate; the ingredients field hands focus back to the
/// name.
pub open spec fn toggle_spec(a: AppValue) -> AppValue {
    let next = match a.currently_editing {
        None => CurrentlyEditing::Name,
        Some(CurrentlyEditing::Name) => CurrentlyEditing::Description,
        Some(CurrentlyEditing::Description) => CurrentlyEditing::Name,
        Some(CurrentlyEditing::Ingredients) => CurrentlyEditing::Name,
    };
    AppValue { currently_editing: Some(next), ..a }
}

/// Moving the listing cursor one down, saturating at the last entry.
pub open spec fn select_next_spec(a: AppValue) -> AppValue {
    let sel = if a.recipes.len() == 0 {
        None
    } else {
        match a.selected {
            None => Some(0usize),
            Some(i) => if i + 1 < a.recipes.len() {
                Some((i + 1) as usize)
            } else {
                Some((a.recipes.len() - 1) as usize)
            },
        }
    };
    AppValue { selected: sel, ..a }
}

/// Moving the listing cursor one up, saturating at the first entry; with no
/// cursor it starts from the last entry.
pub open spec fn select_prev_spec(a: AppValue) -> AppValue {
    let sel = if a.recipes.len() == 0 {
        None
    } else {
        match a.selected {
            None => Some((a.recipes.len() - 1) as usize),
            Some(i) => if i > 0 {
                Some((i - 1) as usize)
            } else {
                Some(0usize)
            },
        }
    };
    AppValue { selected: sel, ..a }
}

/// Recalling the selected recipe's name into the edit buffer.
pub open spec fn recall_spec(a: AppValue) -> AppValue {
    match a.selected {
        Some(i) => if i < a.recipes.len() {
            AppValue { name_text: a.recipes[i as int], ..a }
        } else {
            a
        },
        None => a,
    }
}

/// One character typed while editing, appended to the focused field.
pub open spec fn type_char_spec(a: AppValue, c: u8) -> AppValue {
    match a.currently_editing {
        Some(CurrentlyEditing::Name) => AppValue { name_text: a.name_text.push(c), ..a },
        Some(CurrentlyEditing::Description) => AppValue { desc_text: a.desc_text.push(c), ..a },
        _ => a,
    }
}

/// One erase while editing, dropped from the end of the focused field.
pub open spec fn erase_char_spec(a: AppValue) -> AppValue {
    match a.currently_editing {
        Some(CurrentlyEditing::Name) => if a.name_text.len() > 0 {
            AppValue { name_text: a.name_text.drop_last(), ..a }
        } else {
            a
        },
        Some(CurrentlyEditing::Description) => if a.desc_text.len() > 0 {
            AppValue { desc_text: a.desc_text.drop_last(), ..a }
        } else {
            a
        },
        _ => a,
    }
}

/// The transition for one key press.
///
/// Chords with control or alt held name commands, never text: the
/// control-c chord quits from any mode, and every other chord is reserved
/// and changes nothing, so a chorded letter can neither type into a field
/// nor trigger that letter's bare command.
pub open spec fn update_key_spec(a: AppValue, code: KeyCode, mods: Modifiers) -> AppValue {
    if mods.ctrl && code == KeyCode::Char(0x63) {
        // control-c quits from any mode
        AppValue { should_quit: true, ..a }
    } else if mods.ctrl || mods.alt {
        a
    } else {
        match a.current_mode {
            CurrentMode::Main => match code {
                KeyCode::Char(c) => if c == 0x65 {
                    AppValue {
                        current_mode: CurrentMode::Editing,
                        currently_editing: Some(CurrentlyEditing::Name),
                        ..a
                    }
                } else if c == 0x71 {
                    AppValue { current_mode: CurrentMode::Exiting, ..a }
                } else if c == 0x73 {
                    save_spec(a)
                } else if c == 0x6a {
                    select_next_spec(a)
                } else if c == 0x6b {
                    select_prev_spec(a)
                } else {
                    a
                },
                KeyCode::Down => select_next_spec(a),
                KeyCode::Up => select_prev_spec(a),
                KeyCode::Esc => AppValue { selected: None, ..a },
                KeyCode::Enter => recall_spec(a),
                _ => a,
            },
            CurrentMode::Exiting => match code {
                KeyCode::Char(c) => if c == 0x79 || c == 0x6e || c == 0x71 {
                    AppValue { should_quit: true, ..a }
                } else {
                    a
                },
                _ => a,
            },
            CurrentMode::Editing => match code {
                KeyCode::Enter => match a.currently_editing {
                    Some(CurrentlyEditing::Name) => AppValue {
                        currently_editing: Some(CurrentlyEditing::Description),
                        ..a
                    },
                    Some(CurrentlyEditing::Description) => AppValue {
                        current_mode: CurrentMode::Main,
                        ..save_spec(a)
                    },
                    _ => a,
                },
                KeyCode::Esc => AppValue {
                    current_mode: CurrentMode::Main,
                    currently_editing: None,
                    ..a
                },
                KeyCode::Tab => toggle_spec(a),
                KeyCode::Backspace => erase_char_spec(a),
                KeyCode::Char(c) => type_char_spec(a, c),
                _ => a,
            },
        }
    }
}

/// The application's whole transition function: key presses act as above;
/// every other event leaves the state entirely unchanged — geometry
/// changes belong to the session, and pasted or unrecognized input names
/// no command of this application.
pub open spec fn update_spec(a: AppValue, ev: EventValue) -> AppValue {
    match ev {
        EventValue::Key(code, mods) => update_key_spec(a, code, mods),
        EventValue::Paste(_) => a,
        EventValue::Resize(_, _) => a,
        EventValue::Unknown => a,
    }
}

// ---------------------------------------------------------------------------
// The executable application.
// ---------------------------------------------------------------------------

impl App {
    /// A fresh application state.
    pub fn new() -> (r: App)
        ensures
            r@ == initial_app(),
    {
        let r = App {
            current_screen: CurrentScreen::Recipes,
            current_mode: CurrentMode::Main,
            currently_editing: None,
            should_quit: false,
            recipes: Vec::new(),
            selected: None,
            name_text: Vec::new(),
            desc_text: Vec::new(),
        };
        proof {
            assert(r@ =~= initial_app());
        }
        r
    }

    /// Save the recipe under edit; reports whether a recipe was saved.
    pub fn save_current_recipe(&mut self) -> (r: Option<()>)
        ensures
            final(self)@ == save_spec(old(self)@),
            r is Some <==> old(self)@.name_text.len() > 0,
    {
        if self.name_text.len() == 0 {
            return None;
        }
        let name = clone_bytes(&self.name_text);
        self.recipes.push(name);
        self.currently_editing = None;
        proof {
            assert(self@.recipes =~= old(self)@.recipes.push(old(self)@.name_text));
            assert(self@ =~= save_spec(old(self)@));
        }
        Some(())
    }

    /// Rotate the edit focus.
    pub fn toggle_editing(&mut self)
        ensures
            final(self)@ == toggle_spec(old(self)@),
    {
        let next = match self.currently_editing {
            None => CurrentlyEditing::Name,
            Some(CurrentlyEditing::Name) => CurrentlyEditing::Description,
            Some(CurrentlyEditing::Description) => CurrentlyEditing::Name,
            Some(CurrentlyEditing::Ingredients) => CurrentlyEditing::Name,
        };
        self.currently_editing = Some(next);
        proof {
            assert(self@ =~= toggle_spec(old(self)@));
        }
    }
}

impl Default for App {
    fn default() -> (r: App)
        ensures
            r@ == initial_app(),
    {
        App::new()
    }
}

/// A fresh copy of a byte string.
fn clone_bytes(v: &Vec<u8>) -> (r: Vec<u8>)
    ensures
        r@ == v@,
{
    let mut r: Vec<u8> = Vec::new();
    let mut k: usize = 0;
    while k < v.len()
        invariant
            k <= v@.len(),
            r@ =~= v@.subrange(0, k as int),
        decreases v@.len() - k,
    {
        r.push(v[k]);
        assert(r@ =~= v@.subrange(0, k + 1 as int));
        k = k + 1;
    }
    proof {
        assert(r@ =~= v@);
    }
    r
}

/// Apply one key press.
fn update_key(app: &mut App, code: KeyCode, mods: Modifiers)
    ensures
        final(app)@ == update_key_spec(old(app)@, code, mods),
{
    if mods.ctrl && matches!(code, KeyCode::Char(c) if c == 0x63) {
        app.should_quit = true;
        proof {
            assert(app@ =~= update_key_spec(old(app)@, code, mods));
        }
        return ;
    }
    if mods.ctrl || mods.alt {
        return ;
    }
    match app.current_mode {
        CurrentMode::Main => {
            match code {
                KeyCode::Char(c) => {
                    if c == 0x65 {
                        app.current_mode = CurrentMode::Editing;
                        app.currently_editing = Some(CurrentlyEditing::Name);
                    } else if c == 0x71 {
                        app.current_mode = CurrentMode::Exiting;
                    } else if c == 0x73 {
                        let _ = app.save_current_recipe();
                    } else if c == 0x6a {
                        select_next(app);
                    } else if c == 0x6b {
                        select_prev(app);
                    }
                },
                KeyCode::Down => select_next(app),
                KeyCode::Up => select_prev(app),
                KeyCode::Esc => {
                    app.selected = None;
                },
                KeyCode::Enter => recall_selected(app),
                _ => {},
            }
        },
        CurrentMode::Exiting => {
            match code {
                KeyCode::Char(c) => {
                    if c == 0x79 || c == 0x6e || c == 0x71 {
                        app.should_quit = true;
                    }
                },
                _ => {},
            }
        },
        CurrentMode::Editing => {
            match code {
                KeyCode::Enter => {
                    match app.currently_editing {
                        Some(CurrentlyEditing::Name) => {
                            app.currently_editing = Some(CurrentlyEditing::Description);
                        },
                        Some(CurrentlyEditing::Description) => {
                            let _ = app.save_current_recipe();
                            app.current_mode = CurrentMode::Main;
                        },
                        _ => {},
                    }
                },
                KeyCode::Esc => {
                    app.current_mode = CurrentMode::Main;
                    app.currently_editing = None;
                },
                KeyCode::Tab => app.toggle_editing(),
                KeyCode::Backspace => {
                    match app.currently_editing {
                        Some(CurrentlyEditing::Name) => {
                            let _ = app.name_text.pop();
                        },
                        Some(CurrentlyEditing::Description) => {
                            let _ = app.desc_text.pop();
                        },
                        _ => {},
                    }
                },
                KeyCode::Char(c) => {
                    match app.currently_editing {
                        Some(CurrentlyEditing::Name) => app.name_text.push(c),
                        Some(CurrentlyEditing::Description) => app.desc_text.push(c),
                        _ => {},
                    }
                },
                _ => {},
            }
        },
    }
    proof {
        assert(app@ =~= update_key_spec(old(app)@, code, mods));
    }
}

/// Move the listing cursor one down.
fn select_next(app: &mut App)
    ensures
        final(app)@ == select_next_spec(old(app)@),
{
    let len = app.recipes.len();
    app.selected = if len == 0 {
        None
    } else {
        match app.selected {
            None => Some(0),
            Some(i) => if i < len - 1 {
                Some(i + 1)
            } else {
                Some(len - 1)
            },
        }
    };
    proof {
        assert(app@ =~= select_next_spec(old(app)@));
    }
}

/// Move the listing cursor one up.
fn select_prev(app: &mut App)
    ensures
        final(app)@ == select_prev_spec(old(app)@),
{
    let len = app.recipes.len();
    app.selected = if len == 0 {
        None
    } else {
        match app.selected {
            None => Some(len - 1),
            Some(i) => if i > 0 {
                Some(i - 1)
            } else {
                Some(0)
            },
        }
    };
    proof {
        assert(app@ =~= select_prev_spec(old(app)@));
    }
}

/// Recall the selected recipe's name into the edit buffer.
fn recall_selected(app: &mut App)
    ensures
        final(app)@ == recall_spec(old(app)@),
{
    match app.selected {
        Some(i) => {
            if i < app.recipes.len() {
                let name = clone_bytes(&app.recipes[i]);
                app.name_text = name;
                proof {
                    assert(app@ =~= recall_spec(old(app)@));
                }
            }
        },
        None => {},
    }
}

/// Apply one normalized event to the application state.
pub fn update(app: &mut App, event: StructuredEvent)
    ensures
        final(app)@ == update_spec(old(app)@, event@),
{
    match event {
        StructuredEvent::Key(code, mods) => update_key(app, code, mods),
        StructuredEvent::Paste(_) => {},
        StructuredEvent::Resize(_, _) => {},
        StructuredEvent::Unknown => {},
    }
}

} // verus!
