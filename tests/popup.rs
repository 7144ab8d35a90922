use bfrepl::popup::{ConfirmationField, ConfirmationPopup, Key, PopupStatus, TextEntryPopup};

#[test]
fn text_popup_edits_and_confirms() {
    let mut p = TextEntryPopup::new("Save".to_string(), 1);
    assert!(p.status == PopupStatus::Closed);
    p.show();
    assert!(p.status == PopupStatus::InUse);
    assert!(p.handle_input(Key::Char('a')));
    assert!(p.handle_input(Key::Char('b')));
    assert!(p.handle_input(Key::Left));
    assert!(p.handle_input(Key::Backspace));
    assert!(p.handle_input(Key::Right));
    assert_eq!(p.text_field.get_str(), "b");
    assert!(!p.handle_input(Key::Tab));
    assert!(p.handle_input(Key::Enter));
    assert!(p.status == PopupStatus::Confirmed);
    assert_eq!(p.take(), "b");
    assert_eq!(p.text_field.get_str(), "");
}

#[test]
fn text_popup_cancel_and_reset() {
    let mut p = TextEntryPopup::default();
    assert!(p.status == PopupStatus::Closed);
    p.handle_input(Key::Char('z'));
    assert!(p.handle_input(Key::Esc));
    assert!(p.status == PopupStatus::Canceled);
    p.reset();
    assert!(p.status == PopupStatus::Closed);
    assert_eq!(p.text_field.get_str(), "");
    p.show();
    p.close();
    assert!(p.status == PopupStatus::Closed);
}

#[test]
fn confirmation_keys() {
    let mut c = ConfirmationPopup::new("Quit".to_string(), "Really?".to_string());
    assert!(c.status == PopupStatus::Closed);
    c.show();
    assert!(!c.decision());
    assert!(c.handle_input(Key::Tab));
    assert!(c.decision());
    assert!(c.handle_input(Key::BackTab));
    assert!(!c.decision());
    assert!(c.handle_input(Key::Char('q')));
    assert!(!c.handle_input(Key::Char('x')));
    assert!(!c.handle_input(Key::Left));
    assert!(c.status == PopupStatus::InUse);
    assert!(c.handle_input(Key::Char('y')));
    assert!(c.decision());
    assert!(c.status == PopupStatus::Confirmed);
    assert!(c.handle_input(Key::Char('n')));
    assert!(!c.decision());
    c.show();
    c.handle_input(Key::Tab);
    assert!(c.handle_input(Key::Esc));
    assert!(!c.decision());
    assert!(c.status == PopupStatus::Canceled);
    c.show();
    c.handle_input(Key::Tab);
    assert!(c.handle_input(Key::Enter));
    assert!(c.decision());
    assert!(c.status == PopupStatus::Confirmed);
    c.close();
    assert!(c.status == PopupStatus::Closed);
}

#[test]
fn confirmation_field_cycles() {
    let mut f = ConfirmationField::default();
    assert_eq!(f, ConfirmationField::No);
    f.cycle_next();
    assert_eq!(f, ConfirmationField::Yes);
    f.cycle_next();
    assert_eq!(f, ConfirmationField::No);
    assert!(PopupStatus::default() == PopupStatus::Closed);
}
