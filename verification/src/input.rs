//! The in-progress text being typed, with its cursor.
use vstd::prelude::*;
use crate::text::push_char;

verus! {

/// A text-edit action on the input buffer.
#[derive(Clone, Copy, Debug, PartialEq, Eq, Structural)]
pub enum EditEvent {
    /// Insert a character at the cursor.
    Insert(char),
    /// Remove the character before the cursor.
    Backspace,
    /// Remove the character under the cursor.
    Delete,
    /// Move the cursor one character left.
    Left,
    /// Move the cursor one character right.
    Right,
    /// Move the cursor to the start of the text.
    Home,
    /// Move the cursor to the end of the text.
    End,
}

/// The in-progress text being typed: its characters and the cursor offset,
/// counted in characters.
#[derive(Debug)]
pub struct InputBuffer {
    /// The characters of the text.
    pub chars: Vec<char>,
    /// Where the next insertion happens: between 0 and the text's length.
    pub cursor: usize,
}

/// The text after one edit action.
pub open spec fn spec_edit_text(text: Seq<char>, cursor: nat, ev: EditEvent) -> Seq<char> {
    match ev {
        EditEvent::Insert(c) => text.insert(cursor as int, c),
        EditEvent::Backspace => if cursor > 0 {
            text.remove(cursor - 1)
        } else {
            text
        },
        EditEvent::Delete => if cursor < text.len() {
            text.remove(cursor as int)
        } else {
            text
        },
        _ => text,
    }
}

/// The cursor after one edit action.
pub open spec fn spec_edit_cursor(text: Seq<char>, cursor: nat, ev: EditEvent) -> nat {
    match ev {
        EditEvent::Insert(_) => cursor + 1,
        EditEvent::Backspace => if cursor > 0 {
            (cursor - 1) as nat
        } else {
            0
        },
        EditEvent::Delete => cursor,
        EditEvent::Left => if cursor > 0 {
            (cursor - 1) as nat
        } else {
            0
        },
        EditEvent::Right => if cursor < text.len() {
            cursor + 1
        } else {
            cursor
        },
        EditEvent::Home => 0,
        EditEvent::End => text.len(),
    }
}

/// The horizontal offset that keeps the cursor inside a pane of the given
/// width.
pub open spec fn spec_visual_scroll(cursor: nat, width: nat) -> nat {
    if width == 0 {
        cursor
    } else if cursor < width {
        0
    } else {
        (cursor - (width - 1)) as nat
    }
}

impl InputBuffer {
    /// Well-formed: the cursor stands inside the text or right after it.
    pub open spec fn inv(self) -> bool {
        self.cursor <= self.chars@.len()
    }

    /// A fresh, empty buffer.
    pub fn new() -> (r: InputBuffer)
        ensures
            r.inv(),
            r.chars@ == Seq::<char>::empty(),
            r.cursor == 0,
    {
        InputBuffer { chars: Vec::new(), cursor: 0 }
    }

    /// Empties the text and puts the cursor at the start.
    pub fn reset(&mut self)
        ensures
            final(self).inv(),
            final(self).chars@ == Seq::<char>::empty(),
            final(self).cursor == 0,
    {
        self.chars = Vec::new();
        self.cursor = 0;
    }

    /// Applies one edit action to the text and the cursor.
    pub fn handle_edit(&mut self, ev: EditEvent)
        requires
            old(self).inv(),
        ensures
            final(self).inv(),
            final(self).chars@ == spec_edit_text(old(self).chars@, old(self).cursor as nat, ev),
            final(self).cursor == spec_edit_cursor(old(self).chars@, old(self).cursor as nat, ev),
    {
        match ev {
            EditEvent::Insert(c) => {
                self.chars.insert(self.cursor, c);
                let n = self.chars.len();
                assert(self.cursor < n);
                self.cursor = self.cursor + 1;
            },
            EditEvent::Backspace => {
                if self.cursor > 0 {
                    self.cursor = self.cursor - 1;
                    self.chars.remove(self.cursor);
                }
            },
            EditEvent::Delete => {
                if self.cursor < self.chars.len() {
                    self.chars.remove(self.cursor);
                }
            },
            EditEvent::Left => {
                if self.cursor > 0 {
                    self.cursor = self.cursor - 1;
                }
            },
            EditEvent::Right => {
                if self.cursor < self.chars.len() {
                    self.cursor = self.cursor + 1;
                }
            },
            EditEvent::Home => {
                self.cursor = 0;
            },
            EditEvent::End => {
                self.cursor = self.chars.len();
            },
        }
    }

    /// The text as a string.
    pub fn value(&self) -> (r: String)
        ensures
            r@ == self.chars@,
    {
        let mut out = String::new();
        let mut i: usize = 0;
        while i < self.chars.len()
            invariant
                0 <= i <= self.chars@.len(),
                out@ =~= self.chars@.subrange(0, i as int),
            decreases self.chars@.len() - i,
        {
            push_char(&mut out, self.chars[i]);
            i = i + 1;
        }
        proof {
            assert(out@ =~= self.chars@);
        }
        out
    }

    /// The horizontal offset that keeps the cursor visible in a pane of the
    /// given width.
    pub fn visual_scroll(&self, width: usize) -> (r: usize)
        requires
            self.inv(),
        ensures
            r == spec_visual_scroll(self.cursor as nat, width as nat),
    {
        if width == 0 {
            self.cursor
        } else if self.cursor < width {
            0
        } else {
            self.cursor - (width - 1)
        }
    }
}

} // verus!
