//! The text column bookkeeping of the console: where the cursor is after
//! printing, and how `TAB` moves it.

use vstd::prelude::*;

verus! {

/// The console's cursor column, counted from 0 (the characters printed
/// since the last line break).
pub struct DefaultConsole {
    column_position: usize,
}

impl DefaultConsole {
    /// The characters printed since the last line break.
    pub closed spec fn column(&self) -> nat {
        self.column_position as nat
    }

    /// A console at the start of a line.
    pub fn new() -> (c: DefaultConsole)
        ensures
            c.column() == 0,
    {
        DefaultConsole { column_position: 0 }
    }

    /// Records that `printed_len` more characters were printed on the line.
    pub fn record_print(&mut self, printed_len: usize)
        requires
            old(self).column() + printed_len <= usize::MAX,
        ensures
            final(self).column() == old(self).column() + printed_len,
    {
        self.column_position = self.column_position + printed_len;
    }

    /// Records a line break.
    pub fn record_print_line(&mut self)
        ensures
            final(self).column() == 0,
    {
        self.column_position = 0;
    }

    /// The cursor column counted from 1.
    pub fn current_text_column(&self) -> (r: usize)
        requires
            self.column() < usize::MAX,
        ensures
            r == self.column() + 1,
    {
        self.column_position + 1
    }
}

/// How `TAB(position)` moves a cursor at column `cur_column` (counted
/// from 1): whether a line break comes first, and how many spaces follow.
/// Ahead of the cursor, the distance to it less one is filled with spaces;
/// behind it, a line break is followed by `position` less one spaces.
pub fn position_adjustment(cur_column: usize, position: usize) -> (r: (bool, usize))
    ensures
        r.0 == (cur_column > position),
        cur_column <= position ==> r.1 == if position - cur_column >= 1 {
            position - cur_column - 1
        } else {
            0
        },
        cur_column > position ==> r.1 == if position >= 1 {
            position - 1
        } else {
            0
        },
{
    let num_spaces: usize;
    let newline: bool;
    if cur_column <= position {
        num_spaces = position - cur_column;
        newline = false;
    } else {
        num_spaces = position;
        newline = true;
    }
    if num_spaces >= 1 {
        (newline, num_spaces - 1)
    } else {
        (newline, 0)
    }
}

} // verus!
