//! A single-line text input with a cursor.
use vstd::prelude::*;
use crate::keys::Key;
use crate::text::{chars_of, string_of, trim, trim_bounds};

verus! {

/// An editable text field. The cursor is a character position in the value.
#[derive(Debug, Clone)]
pub struct InputField {
    pub value: String,
    pub cursor: usize,
    pub placeholder: String,
    pub label: String,
    pub focused: bool,
}

/// The field after an editing key: characters are inserted at the cursor,
/// Backspace and Delete remove around it, the arrows, Home and End move it;
/// any other key is not handled and changes nothing. Label, placeholder and
/// focus never change.
pub open spec fn edited(o: InputField, n: InputField, key: Key, r: bool) -> bool {
    &&& n.label == o.label
    &&& n.placeholder == o.placeholder
    &&& n.focused == o.focused
    &&& ({
                let v = o.value@;
                let c = o.cursor as int;
                match key {
                    Key::Char(ch) => r && n.value@ == v.insert(c, ch) && n.cursor
                        == c + 1,
                    Key::Backspace => r && if c > 0 {
                        n.value@ == v.remove(c - 1) && n.cursor == c - 1
                    } else {
                        n.value@ == v && n.cursor == c
                    },
                    Key::Delete => r && n.cursor == c && if c < v.len() {
                        n.value@ == v.remove(c)
                    } else {
                        n.value@ == v
                    },
                    Key::Left => r && n.value@ == v && n.cursor == if c > 0 {
                        c - 1
                    } else {
                        c
                    },
                    Key::Right => r && n.value@ == v && n.cursor == if c
                        < v.len() {
                        c + 1
                    } else {
                        c
                    },
                    Key::Home => r && n.value@ == v && n.cursor == 0,
                    Key::End => r && n.value@ == v && n.cursor == v.len(),
                    _ => !r && n.value@ == v && n.cursor == c,
                }
            })
}

impl InputField {
    pub open spec fn wf(&self) -> bool {
        self.cursor <= self.value@.len()
    }

    pub fn new(label: &str, placeholder: &str) -> (r: InputField)
        ensures
            r.wf(),
            r.value@ == Seq::<char>::empty(),
            r.cursor == 0,
            r.label@ == label@,
            r.placeholder@ == placeholder@,
            !r.focused,
    {
        InputField {
            value: String::new(),
            cursor: 0,
            placeholder: placeholder.to_owned(),
            label: label.to_owned(),
            focused: false,
        }
    }

    /// Whether the value holds anything but whitespace.
    pub fn is_valid(&self) -> (r: bool)
        ensures
            r == (trim(self.value@).len() > 0),
    {
        let v = chars_of(self.value.as_str());
        let (a, b) = trim_bounds(&v);
        a < b
    }

    /// Empties the field.
    pub fn clear(&mut self)
        ensures
            final(self).wf(),
            final(self).value@ == Seq::<char>::empty(),
            final(self).cursor == 0,
            final(self).label == old(self).label,
            final(self).placeholder == old(self).placeholder,
            final(self).focused == old(self).focused,
    {
        self.value = String::new();
        self.cursor = 0;
    }

    /// Replaces the value, the cursor moving to its end.
    pub fn set_value(&mut self, v: &str)
        ensures
            final(self).wf(),
            final(self).value@ == v@,
            final(self).cursor == v@.len(),
            final(self).label == old(self).label,
            final(self).placeholder == old(self).placeholder,
            final(self).focused == old(self).focused,
    {
        let c = chars_of(v);
        self.value = v.to_owned();
        self.cursor = c.len();
    }

    /// Applies an editing key; whether the key was handled.
    pub fn handle_key(&mut self, key: Key) -> (r: bool)
        requires
            old(self).wf(),
        ensures
            final(self).wf(),
            edited(*old(self), *final(self), key, r),
    {
        let mut v = chars_of(self.value.as_str());
        match key {
            Key::Char(ch) => {
                v.insert(self.cursor, ch);
                let n = v.len();
                assert(self.cursor < n);
                self.value = string_of(&v);
                self.cursor = self.cursor + 1;
                true
            },
            Key::Backspace => {
                if self.cursor > 0 {
                    self.cursor = self.cursor - 1;
                    v.remove(self.cursor);
                    self.value = string_of(&v);
                }
                true
            },
            Key::Delete => {
                if self.cursor < v.len() {
                    v.remove(self.cursor);
                    self.value = string_of(&v);
                }
                true
            },
            Key::Left => {
                if self.cursor > 0 {
                    self.cursor = self.cursor - 1;
                }
                true
            },
            Key::Right => {
                if self.cursor < v.len() {
                    self.cursor = self.cursor + 1;
                }
                true
            },
            Key::Home => {
                self.cursor = 0;
                true
            },
            Key::End => {
                self.cursor = v.len();
                true
            },
            _ => false,
        }
    }
}

} // verus!
