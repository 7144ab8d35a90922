//! A one-line text field with a cursor, counted in characters.
use vstd::prelude::*;
use vstd::string::{StrSliceExecFns, StringExecFns};

verus! {

/// What a text field holds: its characters and the cursor, counted in
/// characters. The cursor may stand past the end of the text (after
/// `set_text` or `take`); typing and backspace then act at the end.
pub struct TextEntryView {
    pub text: Seq<char>,
    pub cursor: nat,
}

impl TextEntryView {
    /// Where typing and backspace act: the cursor, or the end of the text
    /// when the cursor is past it.
    pub open spec fn spot(self) -> nat {
        if self.cursor <= self.text.len() {
            self.cursor
        } else {
            self.text.len()
        }
    }

    /// Typing `c` at the spot; the cursor moves right while it is not past
    /// the new end.
    pub open spec fn inserted(self, c: char) -> TextEntryView {
        TextEntryView {
            text: self.text.insert(self.spot() as int, c),
            cursor: if self.cursor <= self.text.len() {
                self.cursor + 1
            } else {
                self.cursor
            },
        }
    }

    /// Backspace: with a non-empty text and the cursor not at the start, a
    /// cursor past the end first moves to the end; then the character
    /// before it goes and the cursor moves back over it.
    pub open spec fn removed(self) -> TextEntryView {
        if self.text.len() == 0 || self.cursor == 0 {
            self
        } else {
            TextEntryView {
                text: self.text.remove(self.spot() - 1),
                cursor: (self.spot() - 1) as nat,
            }
        }
    }

    pub open spec fn moved_left(self) -> TextEntryView {
        TextEntryView { cursor: if self.cursor > 0 { (self.cursor - 1) as nat } else { 0 }, ..self }
    }

    pub open spec fn moved_right(self) -> TextEntryView {
        TextEntryView {
            cursor: if self.cursor < self.text.len() {
                self.cursor + 1
            } else {
                self.cursor
            },
            ..self
        }
    }
}

/// Relies on `String::push`: the character is appended at the end.
#[verifier::external_body]
fn push_char(s: &mut String, c: char)
    ensures
        final(s)@ == old(s)@.push(c),
{
    s.push(c)
}

/// An editable line of text with a cursor.
pub struct TextEntry {
    text: String,
    cursor_pos: usize,
}

impl View for TextEntry {
    type V = TextEntryView;

    closed spec fn view(&self) -> TextEntryView {
        TextEntryView { text: self.text@, cursor: self.cursor_pos as nat }
    }
}

impl Default for TextEntry {
    fn default() -> (r: TextEntry)
        ensures
            r@ == (TextEntryView { text: Seq::empty(), cursor: 0 }),
    {
        TextEntry::new()
    }
}

impl TextEntry {
    /// An empty field with the cursor at the start.
    pub fn new() -> (r: TextEntry)
        ensures
            r@ == (TextEntryView { text: Seq::empty(), cursor: 0 }),
    {
        TextEntry { text: String::new(), cursor_pos: 0 }
    }

    /// Hands out the text and leaves the field empty; the cursor stays.
    pub fn take(&mut self) -> (r: String)
        ensures
            r@ == old(self)@.text,
            final(self)@ == (TextEntryView { text: Seq::empty(), cursor: old(self)@.cursor }),
    {
        let mut out = String::new();
        std::mem::swap(&mut out, &mut self.text);
        out
    }

    /// Replaces the text; the cursor stays.
    pub fn set_text(&mut self, new_text: String)
        ensures
            final(self)@ == (TextEntryView { text: new_text@, cursor: old(self)@.cursor }),
    {
        self.text = new_text;
    }

    /// Empties the field and moves the cursor to the start.
    pub fn clear(&mut self)
        ensures
            final(self)@ == (TextEntryView { text: Seq::empty(), cursor: 0 }),
    {
        self.text = String::new();
        self.move_cursor_home();
    }

    pub fn get_str(&self) -> (r: &str)
        ensures
            r@ == self@.text,
    {
        self.text.as_str()
    }

    pub fn get_cursor_pos(&self) -> (r: usize)
        ensures
            r == self@.cursor,
    {
        self.cursor_pos
    }

    pub fn move_cursor_home(&mut self)
        ensures
            final(self)@ == (TextEntryView { cursor: 0, ..old(self)@ }),
    {
        self.cursor_pos = 0;
    }

    pub fn move_cursor_left(&mut self)
        requires
        ensures
            final(self)@ == old(self)@.moved_left(),
    {
        if self.cursor_pos > 0 {
            self.cursor_pos -= 1;
        }
    }

    pub fn move_cursor_end(&mut self)
        ensures
            final(self)@ == (TextEntryView { cursor: old(self)@.text.len(), ..old(self)@ }),
    {
        self.cursor_pos = self.text.as_str().unicode_len();
    }

    pub fn move_cursor_right(&mut self)
        requires
        ensures
            final(self)@ == old(self)@.moved_right(),
    {
        if self.cursor_pos < self.text.as_str().unicode_len() {
            self.cursor_pos += 1;
        }
    }

    /// Types `c` at the cursor (at the end, when the cursor is past it)
    /// and moves the cursor right.
    pub fn insert(&mut self, c: char)
        requires
            old(self)@.text.len() < usize::MAX,
        ensures
            final(self)@ == old(self)@.inserted(c),
    {
        let len = self.text.as_str().unicode_len();
        let spot = if self.cursor_pos <= len { self.cursor_pos } else { len };
        let mut s = String::from_str(self.text.as_str().substring_char(0, spot));
        push_char(&mut s, c);
        s.append(self.text.as_str().substring_char(spot, len));
        proof {
            let t = self.text@;
            assert(s@ =~= t.insert(spot as int, c));
        }
        self.text = s;
        self.move_cursor_right();
    }

    /// Backspace: removes the character before the cursor, if any, and
    /// moves the cursor back over it; a cursor past the end counts as being
    /// at the end.
    pub fn remove(&mut self)
        ensures
            final(self)@ == old(self)@.removed(),
    {
        let len = self.text.as_str().unicode_len();
        if len == 0 {
            return;
        }
        if self.cursor_pos == 0 {
            return;
        }
        if self.cursor_pos > len {
            self.cursor_pos = len;
        }
        self.move_cursor_left();
        let mut s = String::from_str(self.text.as_str().substring_char(0, self.cursor_pos));
        s.append(self.text.as_str().substring_char(self.cursor_pos + 1, len));
        proof {
            let t = self.text@;
            assert(s@ =~= t.remove(self.cursor_pos as int));
        }
        self.text = s;
    }
}

} // verus!
