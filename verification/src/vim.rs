//! The vim-mode keys the client carries out on the input line: entering
//! insert mode and moving the cursor by characters.
use vstd::prelude::*;
use crate::text::{byte_len, char_width, is_boundary, index_at, len_utf8, byte_length_checked,
    char_index, lemma_boundary_index, lemma_boundary_of_index, lemma_byte_len_full,
    lemma_byte_len_take_step, lemma_byte_len_take_le};
use crate::editing::{char_before, char_before_at};
use crate::app::{App, AppView, InputMode};

verus! {

/// The offset at the start of the character that ends at `pos`, or `pos`
/// when no character ends there.
pub open spec fn before_point(s: Seq<char>, pos: int) -> int {
    match char_before(s, pos) {
        Some(c) => pos - char_width(c),
        None => pos,
    }
}

/// The offset at the end of the character that starts at `pos`, or `pos`
/// at the end of the text.
pub open spec fn after_point(s: Seq<char>, pos: int) -> int {
    let k = index_at(s, pos);
    if k < s.len() {
        pos + char_width(s[k])
    } else {
        pos
    }
}

/// The cursor, pulled back to the end of the text when it lies past it.
pub open spec fn rest_point(v: AppView) -> int {
    if v.cursor_position <= byte_len(v.input) {
        v.cursor_position as int
    } else {
        byte_len(v.input) as int
    }
}

/// What a vim key does: `i`, `a`, `A`, `I` enter insert mode (at, after, at
/// the end of, at the start of the text); `h` and `l` move one character left
/// and right (`l` not onto the end); `0` and `$` go to the first and the last
/// character. A cursor inside a character does not move; other keys do
/// nothing.
pub open spec fn vim_keyed(v: AppView, c: char) -> AppView {
    let s = v.input;
    let len = byte_len(s) as int;
    let p = rest_point(v);
    let here = is_boundary(s, p);
    if len > usize::MAX {
        v
    } else if c == 'i' {
        AppView { mode: InputMode::Insert, ..v }
    } else if c == 'a' {
        if here {
            AppView {
                cursor_position: after_point(s, p) as usize,
                mode: InputMode::Insert,
                ..v
            }
        } else {
            v
        }
    } else if c == 'A' {
        AppView { cursor_position: len as usize, mode: InputMode::Insert, ..v }
    } else if c == 'I' {
        AppView { cursor_position: 0, mode: InputMode::Insert, ..v }
    } else if c == 'h' {
        if here {
            AppView { cursor_position: before_point(s, p) as usize, ..v }
        } else {
            v
        }
    } else if c == 'l' {
        if here && after_point(s, p) < len {
            AppView { cursor_position: after_point(s, p) as usize, ..v }
        } else {
            v
        }
    } else if c == '0' {
        AppView { cursor_position: 0, ..v }
    } else if c == '$' {
        AppView { cursor_position: before_point(s, len) as usize, ..v }
    } else {
        v
    }
}

/// In normal mode the cursor rests on a character: from the end of the text
/// it goes back onto the last character.
pub open spec fn cursor_clamped(v: AppView) -> AppView {
    let len = byte_len(v.input);
    if v.mode == InputMode::Normal && v.cursor_position >= len && len <= usize::MAX {
        AppView { cursor_position: before_point(v.input, len as int) as usize, ..v }
    } else {
        v
    }
}

fn after_at(s: &Vec<char>, p: usize, k: usize) -> (r: usize)
    requires
        is_boundary(s@, p as int),
        k == index_at(s@, p as int),
        byte_len(s@) <= usize::MAX,
    ensures
        r == after_point(s@, p as int),
{
    proof {
        lemma_boundary_index(s@, p as int);
    }
    if k < s.len() {
        proof {
            lemma_byte_len_take_step(s@, k as int);
            lemma_byte_len_take_le(s@, k + 1, s@.len() as int);
            lemma_byte_len_full(s@);
        }
        p + len_utf8(s[k])
    } else {
        p
    }
}

fn before_at(s: &Vec<char>, p: usize) -> (r: usize)
    requires
        is_boundary(s@, p as int),
    ensures
        r == before_point(s@, p as int),
{
    match char_before_at(s, p) {
        Some(ch) => p - len_utf8(ch),
        None => p,
    }
}

proof fn lemma_end_is_boundary(s: Seq<char>)
    ensures
        is_boundary(s, byte_len(s) as int),
{
    lemma_byte_len_full(s);
    lemma_boundary_of_index(s, s.len() as int);
}

impl App {
    /// Carries out a key that vim mode hands over.
    pub fn vim_key(&mut self, c: char)
        ensures
            final(self)@ == vim_keyed(old(self)@, c),
    {
        let ghost v = self@;
        let len = match byte_length_checked(&self.input) {
            Some(n) => n,
            None => {
                return;
            },
        };
        let p = if self.cursor_position <= len {
            self.cursor_position
        } else {
            len
        };
        let k = char_index(&self.input, p);
        if c == 'i' {
            self.mode = InputMode::Insert;
        } else if c == 'a' {
            if let Some(k) = k {
                self.cursor_position = after_at(&self.input, p, k);
                self.mode = InputMode::Insert;
            }
        } else if c == 'A' {
            self.cursor_position = len;
            self.mode = InputMode::Insert;
        } else if c == 'I' {
            self.cursor_position = 0;
            self.mode = InputMode::Insert;
        } else if c == 'h' {
            if k.is_some() {
                self.cursor_position = before_at(&self.input, p);
            }
        } else if c == 'l' {
            if let Some(k) = k {
                let next = after_at(&self.input, p, k);
                if next < len {
                    self.cursor_position = next;
                }
            }
        } else if c == '0' {
            self.cursor_position = 0;
        } else if c == '$' {
            proof {
                lemma_end_is_boundary(self.input@);
            }
            self.cursor_position = before_at(&self.input, len);
        }
        assert(self@ =~= vim_keyed(v, c));
    }

    /// In normal mode, keeps the cursor on a character.
    pub fn clamp_cursor(&mut self)
        ensures
            final(self)@ == cursor_clamped(old(self)@),
    {
        let ghost v = self@;
        let normal = match self.mode {
            InputMode::Normal => true,
            InputMode::Insert => false,
        };
        if normal {
            match byte_length_checked(&self.input) {
                Some(len) => {
                    if self.cursor_position >= len {
                        proof {
                            lemma_end_is_boundary(self.input@);
                        }
                        self.cursor_position = before_at(&self.input, len);
                    }
                },
                None => {},
            }
        }
        assert(self@ =~= cursor_clamped(v));
    }
}

} // verus!
