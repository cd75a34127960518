use calicomp::app::{update, App, CurrentMode, CurrentlyEditing};
use calicomp::events::{KeyCode, Modifiers, StructuredEvent};

fn no_mods() -> Modifiers {
    Modifiers { shift: false, alt: false, ctrl: false }
}

fn press(app: &mut App, code: KeyCode) {
    update(app, StructuredEvent::Key(code, no_mods()));
}

fn type_str(app: &mut App, s: &str) {
    for b in s.bytes() {
        press(app, KeyCode::Char(b));
    }
}

#[test]
fn fresh_app_is_browsing_and_not_quitting() {
    let app = App::new();
    assert!(matches!(app.current_mode, CurrentMode::Main));
    assert!(app.currently_editing.is_none());
    assert!(!app.should_quit);
    assert!(app.recipes.is_empty());
    assert!(app.selected.is_none());
}

#[test]
fn quit_takes_prompt_then_confirmation() {
    let mut app = App::new();
    press(&mut app, KeyCode::Char(b'q'));
    assert!(matches!(app.current_mode, CurrentMode::Exiting));
    assert!(!app.should_quit);
    press(&mut app, KeyCode::Char(b'y'));
    assert!(app.should_quit);

    // Declining also leaves the application.
    let mut app = App::new();
    press(&mut app, KeyCode::Char(b'q'));
    press(&mut app, KeyCode::Char(b'n'));
    assert!(app.should_quit);
}

#[test]
fn control_c_quits_from_any_mode() {
    let ctrl = Modifiers { shift: false, alt: false, ctrl: true };
    let mut app = App::new();
    update(&mut app, StructuredEvent::Key(KeyCode::Char(b'c'), ctrl));
    assert!(app.should_quit);

    let mut app = App::new();
    press(&mut app, KeyCode::Char(b'e'));
    update(&mut app, StructuredEvent::Key(KeyCode::Char(b'c'), ctrl));
    assert!(app.should_quit);
}

#[test]
fn editing_a_recipe_to_completion_saves_it() {
    let mut app = App::new();
    press(&mut app, KeyCode::Char(b'e'));
    assert!(matches!(app.current_mode, CurrentMode::Editing));
    assert!(matches!(app.currently_editing, Some(CurrentlyEditing::Name)));

    type_str(&mut app, "Daiquiri");
    press(&mut app, KeyCode::Enter);
    assert!(matches!(app.currently_editing, Some(CurrentlyEditing::Description)));
    type_str(&mut app, "rum and lime");
    press(&mut app, KeyCode::Enter);

    assert!(matches!(app.current_mode, CurrentMode::Main));
    assert_eq!(app.recipes.len(), 1);
    assert_eq!(app.recipes[0].as_slice(), b"Daiquiri");
    assert_eq!(app.desc_text.as_slice(), b"rum and lime");
}

#[test]
fn escape_abandons_the_edit() {
    let mut app = App::new();
    press(&mut app, KeyCode::Char(b'e'));
    type_str(&mut app, "half");
    press(&mut app, KeyCode::Esc);
    assert!(matches!(app.current_mode, CurrentMode::Main));
    assert!(app.currently_editing.is_none());
    assert!(app.recipes.is_empty());
}

#[test]
fn tab_rotates_the_edit_focus() {
    let mut app = App::new();
    press(&mut app, KeyCode::Char(b'e'));
    assert!(matches!(app.currently_editing, Some(CurrentlyEditing::Name)));
    press(&mut app, KeyCode::Tab);
    assert!(matches!(app.currently_editing, Some(CurrentlyEditing::Description)));
    press(&mut app, KeyCode::Tab);
    assert!(matches!(app.currently_editing, Some(CurrentlyEditing::Name)));
}

#[test]
fn backspace_erases_from_the_focused_field() {
    let mut app = App::new();
    press(&mut app, KeyCode::Char(b'e'));
    type_str(&mut app, "abc");
    press(&mut app, KeyCode::Backspace);
    assert_eq!(app.name_text.as_slice(), b"ab");
    // Erasing an empty field is a no-op.
    press(&mut app, KeyCode::Backspace);
    press(&mut app, KeyCode::Backspace);
    press(&mut app, KeyCode::Backspace);
    assert!(app.name_text.is_empty());
}

#[test]
fn saving_an_empty_name_saves_nothing() {
    let mut app = App::new();
    press(&mut app, KeyCode::Char(b's'));
    assert!(app.recipes.is_empty());
    assert_eq!(app.save_current_recipe(), None);
}

#[test]
fn selection_moves_and_saturates() {
    let mut app = App::new();
    // No entries: no selection.
    press(&mut app, KeyCode::Down);
    assert!(app.selected.is_none());

    app.recipes = vec![b"one".to_vec(), b"two".to_vec(), b"three".to_vec()];
    press(&mut app, KeyCode::Down);
    assert_eq!(app.selected, Some(0));
    press(&mut app, KeyCode::Down);
    assert_eq!(app.selected, Some(1));
    press(&mut app, KeyCode::Char(b'j'));
    assert_eq!(app.selected, Some(2));
    press(&mut app, KeyCode::Down);
    assert_eq!(app.selected, Some(2), "the cursor saturates at the last entry");
    press(&mut app, KeyCode::Char(b'k'));
    assert_eq!(app.selected, Some(1));
    press(&mut app, KeyCode::Up);
    assert_eq!(app.selected, Some(0));
    press(&mut app, KeyCode::Up);
    assert_eq!(app.selected, Some(0), "the cursor saturates at the first entry");
    press(&mut app, KeyCode::Esc);
    assert!(app.selected.is_none());
    press(&mut app, KeyCode::Up);
    assert_eq!(app.selected, Some(2), "moving up from nothing starts at the end");
}

#[test]
fn enter_recalls_the_selected_name() {
    let mut app = App::new();
    app.recipes = vec![b"one".to_vec(), b"two".to_vec()];
    press(&mut app, KeyCode::Down);
    press(&mut app, KeyCode::Down);
    press(&mut app, KeyCode::Enter);
    assert_eq!(app.name_text.as_slice(), b"two");
}

#[test]
fn paste_leaves_the_application_unchanged() {
    let mut app = App::new();
    update(&mut app, StructuredEvent::Paste(b"ignored".to_vec()));
    assert!(app.name_text.is_empty());
    assert!(matches!(app.current_mode, CurrentMode::Main));

    // Even while editing, a paste names no command and types nothing.
    press(&mut app, KeyCode::Char(b'e'));
    type_str(&mut app, "Mai");
    update(&mut app, StructuredEvent::Paste(b" Tai".to_vec()));
    assert_eq!(app.name_text.as_slice(), b"Mai");
    assert_eq!(app.desc_text.as_slice(), b"");
    assert!(matches!(app.currently_editing, Some(CurrentlyEditing::Name)));
}

#[test]
fn toggle_editing_from_nothing_focuses_the_name() {
    let mut app = App::new();
    app.toggle_editing();
    assert!(matches!(app.currently_editing, Some(CurrentlyEditing::Name)));
}

#[test]
fn unknown_events_change_nothing() {
    let mut app = App::new();
    update(&mut app, StructuredEvent::Unknown);
    update(&mut app, StructuredEvent::Resize(80, 24));
    assert!(matches!(app.current_mode, CurrentMode::Main));
    assert!(!app.should_quit);
    assert!(app.recipes.is_empty());
}
