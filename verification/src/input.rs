//! The key-event state machine of the raw-mode multiline input loop: Enter
//! inserts a literal newline, a control combination submits, cancels, exits
//! or switches to a menu, and backspace joins lines correctly when it crosses
//! a newline boundary.

use crate::text::push_char;
use vstd::prelude::*;

verus! {

/// A key as the input loop sees it. Keys the loop does not handle arrive as
/// `Other`.
#[derive(Clone, Copy)]
pub enum Key {
    Char(char),
    Enter,
    Backspace,
    Esc,
    Other,
}

/// One key event: the key and whether the control modifier was held.
#[derive(Clone, Copy)]
pub struct KeyPress {
    pub code: Key,
    pub ctrl: bool,
}

/// What one key event did to the input buffer, and what the terminal and the
/// session have to do about it.
#[derive(Clone, Copy, PartialEq, Eq, Structural, Debug)]
pub enum InputAction {
    /// Nothing changed: an unhandled key, or backspace on an empty buffer.
    Ignored,
    /// The character was appended to the buffer and is echoed.
    Echoed(char),
    /// A literal newline was appended to the buffer.
    BrokeLine,
    /// The last character was removed; the terminal erases one column.
    ErasedChar,
    /// A trailing newline was removed; the cursor moves up to the end of the
    /// previous line, whose length in characters is carried here.
    RejoinedLine(usize),
    /// The buffer is complete and is to be submitted.
    Submitted,
    /// The input was cancelled; the buffer's contents are to be discarded.
    Cancelled,
    /// The operator asked to leave the program.
    ExitRequested,
    /// The operator asked for the model menu; nothing is submitted.
    ModelMenuRequested,
    /// The operator asked for the help menu; nothing is submitted.
    HelpMenuRequested,
}

/// The length of the last line of the buffer: the number of characters after
/// the final newline, or of the whole buffer if it has none.
pub open spec fn line_suffix_len(s: Seq<char>) -> nat
    decreases s.len(),
{
    if s.len() == 0 {
        0
    } else if s.last() == '\n' {
        0
    } else {
        line_suffix_len(s.drop_last()) + 1
    }
}

proof fn lemma_line_suffix_at(s: Seq<char>, i: int)
    requires
        0 <= i <= s.len(),
        forall|k: int| i <= k < s.len() ==> s[k] != '\n',
        i == 0 || s[i - 1] == '\n',
    ensures
        line_suffix_len(s) == s.len() - i,
    decreases s.len(),
{
    if s.len() == 0 {
    } else if s.last() == '\n' {
        assert(i == s.len());
    } else {
        lemma_line_suffix_at(s.drop_last(), i);
    }
}

/// The length in characters of the buffer's last line, as
/// [`line_suffix_len`] states.
pub fn last_line_len(s: &str) -> (r: usize)
    ensures
        r == line_suffix_len(s@),
{
    let len = s.unicode_len();
    let mut i: usize = len;
    while i > 0 && s.get_char(i - 1) != '\n'
        invariant
            0 <= i <= len,
            len == s@.len(),
            forall|k: int| i <= k < len ==> s@[k] != '\n',
        decreases i,
    {
        i = i - 1;
    }
    proof {
        lemma_line_suffix_at(s@, i as int);
    }
    len - i
}

/// Applies one key event to the input buffer and reports what happened: the
/// control combinations submit (`s`), exit (`c`), open the model menu (`a`)
/// or the help menu (`h`); Enter appends a literal newline; backspace removes
/// the last character, rejoining lines across a newline boundary; Esc
/// cancels; any other character is appended.
pub fn input_step(buffer: &mut String, key: KeyPress) -> (action: InputAction)
    ensures
        match key.code {
            Key::Char(c) => {
                if key.ctrl && c == 's' {
                    final (buffer)@ == old(buffer)@ && action == InputAction::Submitted
                } else if key.ctrl && c == 'c' {
                    final (buffer)@ == old(buffer)@ && action == InputAction::ExitRequested
                } else if key.ctrl && c == 'a' {
                    final (buffer)@ == old(buffer)@ && action == InputAction::ModelMenuRequested
                } else if key.ctrl && c == 'h' {
                    final (buffer)@ == old(buffer)@ && action == InputAction::HelpMenuRequested
                } else {
                    final (buffer)@ == old(buffer)@.push(c) && action == InputAction::Echoed(c)
                }
            },
            Key::Enter => final (buffer)@ == old(buffer)@.push('\n') && action
                == InputAction::BrokeLine,
            Key::Backspace => {
                if old(buffer)@.len() == 0 {
                    final (buffer)@ == old(buffer)@ && action == InputAction::Ignored
                } else if old(buffer)@.last() == '\n' {
                    final (buffer)@ == old(buffer)@.drop_last() && (action matches
                    InputAction::RejoinedLine(col) && col == line_suffix_len(
                        old(buffer)@.drop_last(),
                    ))
                } else {
                    final (buffer)@ == old(buffer)@.drop_last() && action
                        == InputAction::ErasedChar
                }
            },
            Key::Esc => final (buffer)@ == old(buffer)@ && action == InputAction::Cancelled,
            Key::Other => final (buffer)@ == old(buffer)@ && action == InputAction::Ignored,
        },
{
    match key.code {
        Key::Char(c) => {
            if key.ctrl && c == 's' {
                InputAction::Submitted
            } else if key.ctrl && c == 'c' {
                InputAction::ExitRequested
            } else if key.ctrl && c == 'a' {
                InputAction::ModelMenuRequested
            } else if key.ctrl && c == 'h' {
                InputAction::HelpMenuRequested
            } else {
                push_char(buffer, c);
                InputAction::Echoed(c)
            }
        },
        Key::Enter => {
            push_char(buffer, '\n');
            InputAction::BrokeLine
        },
        Key::Backspace => {
            let len = buffer.as_str().unicode_len();
            if len == 0 {
                InputAction::Ignored
            } else {
                let last = buffer.as_str().get_char(len - 1);
                let shortened = String::from_str(buffer.as_str().substring_char(0, len - 1));
                *buffer = shortened;
                proof {
                    assert(buffer@ =~= old(buffer)@.drop_last());
                }
                if last == '\n' {
                    let col = last_line_len(buffer.as_str());
                    InputAction::RejoinedLine(col)
                } else {
                    InputAction::ErasedChar
                }
            }
        },
        Key::Esc => InputAction::Cancelled,
        Key::Other => InputAction::Ignored,
    }
}

} // verus!
