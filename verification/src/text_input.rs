use vstd::prelude::*;

use crate::chars::{is_whitespace_char, skip_word_back, skip_word_fwd, skip_ws_back, skip_ws_fwd};
use crate::key_event::{AppKeyCode, AppKeyEvent};

verus! {

/// Where the cursor lands on a word-left motion: first skip whitespace
/// leftwards, then skip the word itself.
pub open spec fn word_left_target(s: Seq<char>, i: int) -> int {
    skip_word_back(s, skip_ws_back(s, i))
}

/// Where the cursor lands on a word-right motion: first skip the word,
/// then the whitespace after it.
pub open spec fn word_right_target(s: Seq<char>, i: int) -> int {
    skip_ws_fwd(s, skip_word_fwd(s, i))
}

/// Single-line text edit buffer. The text is held as a vector of Unicode
/// scalar values and the cursor is a character index, so multi-byte input
/// can never split a code point.
#[derive(Debug, Clone)]
pub struct TextInput {
    pub value: Vec<char>,
    pub cursor: usize,
}

impl TextInput {
    /// The cursor always addresses a position inside `[0, value.len()]`.
    pub open spec fn wf(&self) -> bool {
        self.cursor <= self.value@.len()
    }

    pub fn new(value: Vec<char>) -> (r: TextInput)
        ensures
            r.wf(),
            r.value@ == value@,
            r.cursor == r.value@.len(),
    {
        let len = value.len();
        TextInput { value, cursor: len }
    }

    pub fn from_string(value: Vec<char>) -> (r: TextInput)
        ensures
            r.wf(),
            r.value@ == value@,
            r.cursor == r.value@.len(),
    {
        TextInput::new(value)
    }

    /// Whether the buffer consumes this key, letting callers fall through
    /// to mode-specific bindings otherwise.
    pub open spec fn consumes(key: AppKeyEvent) -> bool {
        match key.code {
            AppKeyCode::Char(_) => !key.ctrl && !key.alt,
            AppKeyCode::Backspace => true,
            AppKeyCode::Delete => true,
            AppKeyCode::Left => true,
            AppKeyCode::Right => true,
            AppKeyCode::Home => true,
            AppKeyCode::End => true,
            _ => false,
        }
    }

    /// The buffer contents and cursor after a consumed key.
    pub open spec fn after_key(s: Seq<char>, cur: int, key: AppKeyEvent) -> (Seq<char>, int) {
        match key.code {
            AppKeyCode::Char(c) => (s.insert(cur, c), cur + 1),
            AppKeyCode::Backspace => if cur > 0 {
                (s.remove(cur - 1), cur - 1)
            } else {
                (s, cur)
            },
            AppKeyCode::Delete => if cur < s.len() {
                (s.remove(cur), cur)
            } else {
                (s, cur)
            },
            AppKeyCode::Left => if key.ctrl {
                (s, word_left_target(s, cur))
            } else if cur > 0 {
                (s, cur - 1)
            } else {
                (s, 0)
            },
            AppKeyCode::Right => if key.ctrl {
                (s, word_right_target(s, cur))
            } else if cur < s.len() {
                (s, cur + 1)
            } else {
                (s, cur)
            },
            AppKeyCode::Home => (s, 0),
            AppKeyCode::End => (s, s.len() as int),
            _ => (s, cur),
        }
    }

    /// Routes an input key to the matching edit operation; returns whether
    /// the key was consumed.
    pub fn handle_key(&mut self, key: &AppKeyEvent) -> (r: bool)
        requires
            old(self).wf(),
            old(self).value@.len() < usize::MAX,
        ensures
            final(self).wf(),
            r == Self::consumes(*key),
            r ==> (final(self).value@, final(self).cursor as int) == Self::after_key(
                old(self).value@,
                old(self).cursor as int,
                *key,
            ),
            !r ==> *final(self) == *old(self),
    {
        match key.code {
            AppKeyCode::Char(c) => {
                if !key.ctrl && !key.alt {
                    self.insert_char(c);
                    true
                } else {
                    false
                }
            },
            AppKeyCode::Backspace => {
                self.delete_char_back();
                true
            },
            AppKeyCode::Delete => {
                self.delete_char_forward();
                true
            },
            AppKeyCode::Left => {
                if key.ctrl {
                    self.move_word_left();
                } else {
                    self.move_left();
                }
                true
            },
            AppKeyCode::Right => {
                if key.ctrl {
                    self.move_word_right();
                } else {
                    self.move_right();
                }
                true
            },
            AppKeyCode::Home => {
                self.cursor = 0;
                true
            },
            AppKeyCode::End => {
                self.cursor = self.value.len();
                true
            },
            _ => { false },
        }
    }

    pub fn insert_char(&mut self, c: char)
        requires
            old(self).wf(),
            old(self).value@.len() < usize::MAX,
        ensures
            final(self).wf(),
            final(self).value@ == old(self).value@.insert(old(self).cursor as int, c),
            final(self).cursor == old(self).cursor + 1,
    {
        self.value.insert(self.cursor, c);
        self.cursor = self.cursor + 1;
    }

    /// Deleting behind the cursor at position 0 is a no-op.
    pub fn delete_char_back(&mut self)
        requires
            old(self).wf(),
        ensures
            final(self).wf(),
            old(self).cursor == 0 ==> *final(self) == *old(self),
            old(self).cursor > 0 ==> {
                &&& final(self).value@ == old(self).value@.remove(old(self).cursor - 1)
                &&& final(self).cursor == old(self).cursor - 1
            },
    {
        if self.cursor > 0 {
            self.value.remove(self.cursor - 1);
            self.cursor = self.cursor - 1;
        }
    }

    /// Deleting at the end of the buffer is a no-op.
    pub fn delete_char_forward(&mut self)
        requires
            old(self).wf(),
        ensures
            final(self).wf(),
            old(self).cursor == old(self).value@.len() ==> *final(self) == *old(self),
            old(self).cursor < old(self).value@.len() ==> {
                &&& final(self).value@ == old(self).value@.remove(old(self).cursor as int)
                &&& final(self).cursor == old(self).cursor
            },
    {
        if self.cursor < self.value.len() {
            self.value.remove(self.cursor);
        }
    }

    pub fn move_left(&mut self)
        requires
            old(self).wf(),
        ensures
            final(self).wf(),
            final(self).value@ == old(self).value@,
            final(self).cursor == if old(self).cursor > 0 {
                old(self).cursor - 1
            } else {
                0int
            },
    {
        if self.cursor > 0 {
            self.cursor = self.cursor - 1;
        }
    }

    pub fn move_right(&mut self)
        requires
            old(self).wf(),
        ensures
            final(self).wf(),
            final(self).value@ == old(self).value@,
            final(self).cursor == if old(self).cursor < old(self).value@.len() {
                old(self).cursor + 1
            } else {
                old(self).cursor as int
            },
    {
        if self.cursor < self.value.len() {
            self.cursor = self.cursor + 1;
        }
    }

    pub fn move_word_left(&mut self)
        requires
            old(self).wf(),
        ensures
            final(self).wf(),
            final(self).value@ == old(self).value@,
            final(self).cursor == word_left_target(old(self).value@, old(self).cursor as int),
    {
        let ghost s = self.value@;
        let ghost c0 = self.cursor as int;
        if self.cursor == 0 {
            return ;
        }
        let mut idx: usize = self.cursor;
        while idx > 0 && is_whitespace_char(self.value[idx - 1])
            invariant
                self.wf(),
                idx <= self.value@.len(),
                self.value@ == s,
                self.cursor == c0,
                skip_ws_back(s, c0) == skip_ws_back(s, idx as int),
            decreases idx,
        {
            idx = idx - 1;
        }
        assert(skip_ws_back(s, idx as int) == idx as int);
        while idx > 0 && !is_whitespace_char(self.value[idx - 1])
            invariant
                self.wf(),
                idx <= self.value@.len(),
                self.value@ == s,
                self.cursor == c0,
                skip_word_back(s, skip_ws_back(s, c0)) == skip_word_back(s, idx as int),
            decreases idx,
        {
            idx = idx - 1;
        }
        assert(skip_word_back(s, idx as int) == idx as int);
        self.cursor = idx;
    }

    pub fn move_word_right(&mut self)
        requires
            old(self).wf(),
        ensures
            final(self).wf(),
            final(self).value@ == old(self).value@,
            final(self).cursor == word_right_target(old(self).value@, old(self).cursor as int),
    {
        let ghost s = self.value@;
        let ghost c0 = self.cursor as int;
        let len = self.value.len();
        if self.cursor >= len {
            return ;
        }
        let mut idx: usize = self.cursor;
        while idx < len && !is_whitespace_char(self.value[idx])
            invariant
                self.wf(),
                len == self.value@.len(),
                idx <= len,
                self.value@ == s,
                self.cursor == c0,
                skip_word_fwd(s, c0) == skip_word_fwd(s, idx as int),
            decreases len - idx,
        {
            idx = idx + 1;
        }
        assert(skip_word_fwd(s, idx as int) == idx as int);
        while idx < len && is_whitespace_char(self.value[idx])
            invariant
                self.wf(),
                len == self.value@.len(),
                idx <= len,
                self.value@ == s,
                self.cursor == c0,
                skip_ws_fwd(s, skip_word_fwd(s, c0)) == skip_ws_fwd(s, idx as int),
            decreases len - idx,
        {
            idx = idx + 1;
        }
        assert(skip_ws_fwd(s, idx as int) == idx as int);
        self.cursor = idx;
    }

    pub fn clear(&mut self)
        ensures
            final(self).wf(),
            final(self).value@ == Seq::<char>::empty(),
            final(self).cursor == 0,
    {
        self.value.clear();
        self.cursor = 0;
    }
}

/// How one buffer value follows another under a consumed key.
pub open spec fn input_stepped(pre: TextInput, post: TextInput, key: AppKeyEvent) -> bool {
    (post.value@, post.cursor as int) == TextInput::after_key(pre.value@, pre.cursor as int, key)
}

/// Law: a well-formed buffer's cursor always addresses a position
/// inside the content; every operation above both assumes and
/// re-establishes this.
pub proof fn lemma_cursor_in_range(t: TextInput)
    requires
        t.wf(),
    ensures
        0 <= t.cursor <= t.value@.len(),
{
}

/// Law: on any well-formed buffer, `insert_char` followed by
/// `delete_char_back` is the identity on the content. The two calls take
/// the content from `s` to `s.insert(cur, c)` with the cursor after the
/// new character, and back to `s`.
pub proof fn lemma_insert_delete_round_trip(t: TextInput, c: char)
    requires
        t.wf(),
    ensures
        t.value@.insert(t.cursor as int, c).remove(t.cursor as int) == t.value@,
{
    assert(t.value@.insert(t.cursor as int, c).remove(t.cursor as int) =~= t.value@);
}

} // verus!
