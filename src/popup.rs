//! The state of the two dialog boxes: a text prompt and a yes/no question.
use vstd::prelude::*;
use crate::widgets::{TextEntry, TextEntryView};

verus! {

/// A key press, as far as the dialogs tell keys apart.
#[derive(Debug, Clone, Copy, PartialEq, Eq, Structural)]
pub enum Key {
    Enter,
    Esc,
    Tab,
    BackTab,
    Backspace,
    Left,
    Right,
    Char(char),
    Other,
}

#[derive(Debug, Clone, Copy, PartialEq, Eq, Structural)]
pub enum PopupStatus {
    InUse,
    Canceled,
    Confirmed,
    Closed,
}

impl Default for PopupStatus {
    fn default() -> (r: PopupStatus)
        ensures
            r == PopupStatus::Closed,
    {
        PopupStatus::Closed
    }
}

/// A dialog that asks for a line of text.
pub struct TextEntryPopup {
    pub text_field: TextEntry,
    pub title: String,
    pub status: PopupStatus,
    pub max_lines: u16,
}

/// What a key does to the text field of a prompt.
pub open spec fn text_key_effect(v: TextEntryView, key: Key) -> TextEntryView {
    match key {
        Key::Char(c) => v.inserted(c),
        Key::Backspace => v.removed(),
        Key::Left => v.moved_left(),
        Key::Right => v.moved_right(),
        _ => v,
    }
}

/// What a key does to the status of a prompt.
pub open spec fn text_key_status(s: PopupStatus, key: Key) -> PopupStatus {
    match key {
        Key::Enter => PopupStatus::Confirmed,
        Key::Esc => PopupStatus::Canceled,
        _ => s,
    }
}

/// Whether a prompt uses a key.
pub open spec fn text_key_captured(key: Key) -> bool {
    match key {
        Key::Enter | Key::Esc | Key::Char(_) | Key::Backspace | Key::Left | Key::Right => true,
        _ => false,
    }
}

impl Default for TextEntryPopup {
    fn default() -> (r: TextEntryPopup)
        ensures
            r.text_field@ == (TextEntryView { text: Seq::empty(), cursor: 0 }),
            r.title@ == Seq::<char>::empty(),
            r.status == PopupStatus::Closed,
            r.max_lines == 0,
    {
        TextEntryPopup::new(String::new(), 0)
    }
}

impl TextEntryPopup {
    /// Applies a key press; returns whether the prompt used it.
    pub fn handle_input(&mut self, key: Key) -> (r: bool)
        requires
            old(self).text_field@.text.len() < usize::MAX,
        ensures
            r == text_key_captured(key),
            final(self).text_field@ == text_key_effect(old(self).text_field@, key),
            final(self).status == text_key_status(old(self).status, key),
            final(self).title == old(self).title,
            final(self).max_lines == old(self).max_lines,
    {
        let mut input_captured = true;
        match key {
            Key::Enter => self.confirm(),
            Key::Esc => self.cancel(),
            Key::Char(c) => self.text_field.insert(c),
            Key::Backspace => self.text_field.remove(),
            Key::Left => self.text_field.move_cursor_left(),
            Key::Right => self.text_field.move_cursor_right(),
            _ => input_captured = false,
        }
        input_captured
    }

    /// A closed prompt with an empty field.
    pub fn new(title: String, max_lines: u16) -> (r: TextEntryPopup)
        ensures
            r.text_field@ == (TextEntryView { text: Seq::empty(), cursor: 0 }),
            r.title == title,
            r.status == PopupStatus::Closed,
            r.max_lines == max_lines,
    {
        TextEntryPopup {
            text_field: TextEntry::new(),
            title,
            status: PopupStatus::Closed,
            max_lines,
        }
    }

    fn confirm(&mut self)
        ensures
            final(self).status == PopupStatus::Confirmed,
            final(self).text_field == old(self).text_field,
            final(self).title == old(self).title,
            final(self).max_lines == old(self).max_lines,
    {
        self.status = PopupStatus::Confirmed;
    }

    fn cancel(&mut self)
        ensures
            final(self).status == PopupStatus::Canceled,
            final(self).text_field == old(self).text_field,
            final(self).title == old(self).title,
            final(self).max_lines == old(self).max_lines,
    {
        self.status = PopupStatus::Canceled;
    }

    pub fn close(&mut self)
        ensures
            final(self).status == PopupStatus::Closed,
            final(self).text_field == old(self).text_field,
            final(self).title == old(self).title,
            final(self).max_lines == old(self).max_lines,
    {
        self.status = PopupStatus::Closed;
    }

    pub fn show(&mut self)
        ensures
            final(self).status == PopupStatus::InUse,
            final(self).text_field == old(self).text_field,
            final(self).title == old(self).title,
            final(self).max_lines == old(self).max_lines,
    {
        self.status = PopupStatus::InUse;
    }

    /// Closes the prompt and empties its field.
    pub fn reset(&mut self)
        ensures
            final(self).status == PopupStatus::Closed,
            final(self).text_field@ == (TextEntryView { text: Seq::empty(), cursor: 0 }),
            final(self).title == old(self).title,
            final(self).max_lines == old(self).max_lines,
    {
        self.close();
        self.text_field.clear();
    }

    /// Hands out the text typed so far and empties the field; the
    /// cursor stays.
    pub fn take(&mut self) -> (r: String)
        ensures
            r@ == old(self).text_field@.text,
            final(self).text_field@ == (TextEntryView {
                text: Seq::empty(),
                cursor: old(self).text_field@.cursor,
            }),
            final(self).status == old(self).status,
            final(self).title == old(self).title,
            final(self).max_lines == old(self).max_lines,
    {
        self.text_field.take()
    }
}

/// The two answers of a yes/no dialog.
#[derive(Debug, Clone, Copy, PartialEq, Eq, Structural)]
pub enum ConfirmationField {
    Yes,
    No,
}

impl Default for ConfirmationField {
    fn default() -> (r: ConfirmationField)
        ensures
            r == ConfirmationField::No,
    {
        ConfirmationField::No
    }
}

impl ConfirmationField {
    pub open spec fn other(self) -> ConfirmationField {
        match self {
            ConfirmationField::No => ConfirmationField::Yes,
            ConfirmationField::Yes => ConfirmationField::No,
        }
    }

    /// Selects the other answer.
    pub fn cycle_next(&mut self)
        ensures
            *final(self) == old(self).other(),
    {
        *self = match *self {
            ConfirmationField::No => ConfirmationField::Yes,
            ConfirmationField::Yes => ConfirmationField::No,
        }
    }
}

/// A dialog that asks a yes/no question.
pub struct ConfirmationPopup {
    pub title: String,
    pub body: String,
    pub status: PopupStatus,
    selected_field: ConfirmationField,
}

/// What a key does to the selected answer of a question.
pub open spec fn confirm_key_selection(f: ConfirmationField, key: Key) -> ConfirmationField {
    match key {
        Key::Tab | Key::BackTab => f.other(),
        Key::Char(c) => if c == 'y' {
            ConfirmationField::Yes
        } else if c == 'n' {
            ConfirmationField::No
        } else {
            f
        },
        Key::Esc => ConfirmationField::No,
        _ => f,
    }
}

/// What a key does to the status of a question.
pub open spec fn confirm_key_status(s: PopupStatus, key: Key) -> PopupStatus {
    match key {
        Key::Char(c) => if c == 'y' || c == 'n' {
            PopupStatus::Confirmed
        } else {
            s
        },
        Key::Esc => PopupStatus::Canceled,
        Key::Enter => PopupStatus::Confirmed,
        _ => s,
    }
}

/// Whether a question uses a key.
pub open spec fn confirm_key_captured(key: Key) -> bool {
    match key {
        Key::Tab | Key::BackTab | Key::Esc | Key::Enter => true,
        Key::Char(c) => c == 'y' || c == 'n' || c == 'q',
        _ => false,
    }
}

/// What a yes/no dialog holds, as mathematical values.
pub struct ConfirmationView {
    pub title: Seq<char>,
    pub body: Seq<char>,
    pub status: PopupStatus,
    pub selected: ConfirmationField,
}

impl View for ConfirmationPopup {
    type V = ConfirmationView;

    closed spec fn view(&self) -> ConfirmationView {
        ConfirmationView {
            title: self.title@,
            body: self.body@,
            status: self.status,
            selected: self.selected_field,
        }
    }
}

impl ConfirmationPopup {
    /// Applies a key press; returns whether the question used it.
    pub fn handle_input(&mut self, key: Key) -> (r: bool)
        ensures
            r == confirm_key_captured(key),
            final(self)@.selected == confirm_key_selection(old(self)@.selected, key),
            final(self)@.status == confirm_key_status(old(self)@.status, key),
            final(self)@.title == old(self)@.title,
            final(self)@.body == old(self)@.body,
    {
        match key {
            Key::Tab => {
                self.selected_field.cycle_next();
                true
            },
            Key::BackTab => {
                self.selected_field.cycle_next();
                true
            },
            Key::Char('y') => {
                self.selected_field = ConfirmationField::Yes;
                self.status = PopupStatus::Confirmed;
                true
            },
            Key::Char('n') => {
                self.selected_field = ConfirmationField::No;
                self.status = PopupStatus::Confirmed;
                true
            },
            Key::Esc => {
                self.selected_field = ConfirmationField::No;
                self.status = PopupStatus::Canceled;
                true
            },
            Key::Enter => {
                self.status = PopupStatus::Confirmed;
                true
            },
            Key::Char('q') => true,
            _ => false,
        }
    }

    /// A closed question with "no" selected.
    pub fn new(new_title: String, new_body: String) -> (r: ConfirmationPopup)
        ensures
            r@.title == new_title@,
            r@.body == new_body@,
            r@.status == PopupStatus::Closed,
            r@.selected == ConfirmationField::No,
    {
        ConfirmationPopup {
            selected_field: ConfirmationField::No,
            title: new_title,
            body: new_body,
            status: PopupStatus::Closed,
        }
    }

    /// Opens the question with "no" selected.
    pub fn show(&mut self)
        ensures
            final(self)@.status == PopupStatus::InUse,
            final(self)@.selected == ConfirmationField::No,
            final(self)@.title == old(self)@.title,
            final(self)@.body == old(self)@.body,
    {
        self.selected_field = ConfirmationField::No;
        self.status = PopupStatus::InUse;
    }

    pub fn close(&mut self)
        ensures
            final(self)@.status == PopupStatus::Closed,
            final(self)@.selected == old(self)@.selected,
            final(self)@.title == old(self)@.title,
            final(self)@.body == old(self)@.body,
    {
        self.status = PopupStatus::Closed;
    }

    /// Whether "yes" is selected.
    pub fn decision(&self) -> (r: bool)
        ensures
            r == (self@.selected == ConfirmationField::Yes),
    {
        match self.selected_field {
            ConfirmationField::No => false,
            ConfirmationField::Yes => true,
        }
    }
}

} // verus!
