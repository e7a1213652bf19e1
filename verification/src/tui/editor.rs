//! The command editor: a one-line editor over a task's command line, whose
//! result runs through `sh -c`.

use vstd::prelude::*;

use crate::model::{command_line_of, shell_view, Task, TaskView};
use crate::text::{chars_of, is_blank, is_blank_text, string_from_chars, string_from_range};
use super::keys::{Key, KeyCode};

verus! {

broadcast use vstd::string::group_string_axioms;

/// Where an edited command goes: run in place of the interface, or in the
/// background on the dashboard.
#[derive(Clone, Copy, Debug, PartialEq, Eq, Structural)]
pub enum LaunchMode {
    OneShot,
    Dashboard,
}

/// What a key did to the editor.
#[derive(Debug)]
pub enum EditorResult {
    Continue,
    Cancel,
    Launch(Task, LaunchMode),
}

/// Editing a task's command line before running it.
#[derive(Debug)]
pub struct CommandEditor {
    pub task: Task,
    pub mode: LaunchMode,
    pub input: Vec<char>,
    pub cursor: usize,
    pub error: Option<&'static str>,
}

/// The editing keys' effect on the text and the cursor: movement with
/// Left, Right, Home and End; Backspace and Delete around the cursor;
/// Ctrl-U clears; other characters without Control or Alt are inserted at
/// the cursor.
pub open spec fn edit_step(input: Seq<char>, cursor: int, key: Key) -> (Seq<char>, int) {
    match key.code {
        KeyCode::Left => (input, if cursor > 0 {
            cursor - 1
        } else {
            0
        }),
        KeyCode::Right => (input, if cursor + 1 < input.len() {
            cursor + 1
        } else {
            input.len() as int
        }),
        KeyCode::Home => (input, 0),
        KeyCode::End => (input, input.len() as int),
        KeyCode::Backspace => if cursor > 0 {
            (input.remove(cursor - 1), cursor - 1)
        } else {
            (input, cursor)
        },
        KeyCode::Delete => if cursor < input.len() {
            (input.remove(cursor), cursor)
        } else {
            (input, cursor)
        },
        KeyCode::Char(c) => if c == 'u' && key.ctrl {
            (Seq::empty(), 0)
        } else if !key.ctrl && !key.alt {
            (input.insert(cursor, c), cursor + 1)
        } else {
            (input, cursor)
        },
        _ => (input, cursor),
    }
}

/// The message shown for an empty command.
pub open spec fn empty_command_message() -> Seq<char> {
    "Command cannot be empty"@
}

/// What a key does to the editor and what it reports. Esc cancels. Enter
/// launches the task as `sh -c` with the edited text, unless the text is
/// blank, which leaves an error message instead. Every other key edits
/// (see `edit_step`) and clears the error message.
pub open spec fn editor_step(old: CommandEditor, new: CommandEditor, key: Key, r: EditorResult) -> bool {
    &&& new.wf()
    &&& new.task == old.task
    &&& new.mode == old.mode
    &&& if key.code == KeyCode::Esc {
        r is Cancel && new.input == old.input && new.cursor == old.cursor && new.error is None
    } else if key.code == KeyCode::Enter {
        &&& new.input == old.input
        &&& new.cursor == old.cursor
        &&& if is_blank(old.input@) {
            r is Continue && new.error == Some("Command cannot be empty")
        } else {
            new.error is None && (r matches EditorResult::Launch(t, m) && t@ == shell_view(
                old.task@,
                old.input@,
            ) && m == old.mode)
        }
    } else {
        r is Continue && new.error is None && (new.input@, new.cursor as int) == edit_step(
            old.input@,
            old.cursor as int,
            key,
        )
    }
}

impl CommandEditor {
    /// The cursor stands within the text or just after it.
    pub open spec fn wf(&self) -> bool {
        self.cursor <= self.input@.len()
    }

    /// An editor over the task's command line, the cursor at its end.
    pub fn new(task: Task, mode: LaunchMode) -> (r: CommandEditor)
        ensures
            r.wf(),
            r.task@ == task@,
            r.mode == mode,
            r.input@ == command_line_of(task@),
            r.cursor == r.input@.len(),
            r.error is None,
    {
        let line = task.command_line();
        let input = chars_of(line.as_str());
        let cursor = input.len();
        CommandEditor { task, mode, input, cursor, error: None }
    }

    /// Handles a key (see `editor_step`).
    pub fn handle_key(&mut self, key: Key) -> (r: EditorResult)
        requires
            old(self).wf(),
            old(self).input@.len() < usize::MAX,
        ensures
            editor_step(*old(self), *final(self), key, r),
    {
        self.error = None;
        match key.code {
            KeyCode::Esc => {
                return EditorResult::Cancel;
            },
            KeyCode::Enter => {
                if is_blank_text(self.input.as_slice()) {
                    self.error = Some("Command cannot be empty");
                } else {
                    let command = string_from_chars(self.input.as_slice());
                    return EditorResult::Launch(
                        self.task.clone().with_shell_command(command),
                        self.mode,
                    );
                }
            },
            KeyCode::Left => {
                self.cursor = if self.cursor > 0 { self.cursor - 1 } else { 0 };
            },
            KeyCode::Right => {
                self.cursor = if self.cursor < self.input.len() {
                    self.cursor + 1
                } else {
                    self.input.len()
                };
            },
            KeyCode::Home => {
                self.cursor = 0;
            },
            KeyCode::End => {
                self.cursor = self.input.len();
            },
            KeyCode::Backspace => {
                if self.cursor > 0 {
                    self.cursor = self.cursor - 1;
                    self.input.remove(self.cursor);
                }
            },
            KeyCode::Delete => {
                if self.cursor < self.input.len() {
                    self.input.remove(self.cursor);
                }
            },
            KeyCode::Char(c) => {
                if c == 'u' && key.ctrl {
                    self.input.clear();
                    self.cursor = 0;
                } else if !key.ctrl && !key.alt {
                    self.input.insert(self.cursor, c);
                    self.cursor = self.cursor + 1;
                }
            },
            _ => {},
        }
        EditorResult::Continue
    }

    /// The text before the cursor, the character under it (a space at the
    /// end), and the text after it, as the editor shows them.
    pub fn split_at_cursor(&self) -> (r: (String, char, String))
        requires
            self.wf(),
        ensures
            r.0@ == self.input@.take(self.cursor as int),
            r.1 == if self.cursor < self.input@.len() {
                self.input@[self.cursor as int]
            } else {
                ' '
            },
            r.2@ == if self.cursor < self.input@.len() {
                self.input@.skip(self.cursor + 1)
            } else {
                Seq::<char>::empty()
            },
    {
        let before = string_from_range(self.input.as_slice(), 0, self.cursor);
        if self.cursor < self.input.len() {
            let after = string_from_range(self.input.as_slice(), self.cursor + 1, self.input.len());
            (before, self.input[self.cursor], after)
        } else {
            (before, ' ', String::new())
        }
    }
}

/// Editing keeps the cursor within the text or just after it.
pub proof fn editing_keeps_cursor_in_text(input: Seq<char>, cursor: int, key: Key)
    requires
        0 <= cursor <= input.len(),
    ensures
        0 <= edit_step(input, cursor, key).1 <= edit_step(input, cursor, key).0.len(),
{
}

/// Whatever the key, the editor keeps its task and its launch mode, its
/// cursor stays within the text, and it shows an error message only after
/// Enter on a blank command.
pub proof fn keys_keep_task_mode_and_cursor(
    old: CommandEditor,
    new: CommandEditor,
    key: Key,
    r: EditorResult,
)
    requires
        old.wf(),
        editor_step(old, new, key, r),
    ensures
        new.wf(),
        new.cursor <= new.input@.len(),
        new.task == old.task,
        new.mode == old.mode,
        new.error is Some ==> key.code == KeyCode::Enter && is_blank(old.input@),
{
}

/// Left and Right move the cursor one place, never past either end of the
/// text, and leave the text as it is.
pub proof fn arrows_move_the_cursor_one_place(
    old: CommandEditor,
    new: CommandEditor,
    key: Key,
    r: EditorResult,
)
    requires
        old.wf(),
        editor_step(old, new, key, r),
    ensures
        key.code == KeyCode::Left ==> {
            &&& r is Continue
            &&& new.input@ == old.input@
            &&& old.cursor > 0 ==> new.cursor == old.cursor - 1
            &&& old.cursor == 0 ==> new.cursor == 0
        },
        key.code == KeyCode::Right ==> {
            &&& r is Continue
            &&& new.input@ == old.input@
            &&& old.cursor < old.input@.len() ==> new.cursor == old.cursor + 1
            &&& old.cursor == old.input@.len() ==> new.cursor == old.cursor
        },
{
}

/// Home and End put the cursor at the start and the end of the text;
/// Backspace removes the character before the cursor and Delete the one
/// under it; a character typed without Control or Alt goes in at the
/// cursor, which moves past it; Ctrl-U empties the text.
pub proof fn editing_keys_change_the_text_at_the_cursor(
    old: CommandEditor,
    new: CommandEditor,
    key: Key,
    r: EditorResult,
)
    requires
        old.wf(),
        editor_step(old, new, key, r),
    ensures
        key.code == KeyCode::Home ==> new.input@ == old.input@ && new.cursor == 0,
        key.code == KeyCode::End ==> new.input@ == old.input@ && new.cursor == old.input@.len(),
        key.code == KeyCode::Backspace && old.cursor > 0 ==> {
            &&& new.cursor == old.cursor - 1
            &&& new.input@.len() == old.input@.len() - 1
            &&& forall|i: int| 0 <= i < new.cursor ==> new.input@[i] == old.input@[i]
            &&& forall|i: int| new.cursor <= i < new.input@.len() ==> new.input@[i] == old.input@[i + 1]
        },
        key.code == KeyCode::Delete && old.cursor < old.input@.len() ==> {
            &&& new.cursor == old.cursor
            &&& new.input@.len() == old.input@.len() - 1
            &&& forall|i: int| 0 <= i < new.cursor ==> new.input@[i] == old.input@[i]
            &&& forall|i: int| new.cursor <= i < new.input@.len() ==> new.input@[i] == old.input@[i + 1]
        },
        (key.code matches KeyCode::Char(c) && !key.ctrl && !key.alt) ==> {
            &&& new.cursor == old.cursor + 1
            &&& new.input@.len() == old.input@.len() + 1
            &&& key.code == KeyCode::Char(new.input@[old.cursor as int])
            &&& forall|i: int| 0 <= i < old.cursor ==> new.input@[i] == old.input@[i]
            &&& forall|i: int| old.cursor <= i < old.input@.len() ==> new.input@[i + 1] == old.input@[i]
        },
        key.code == KeyCode::Char('u') && key.ctrl ==> new.input@.len() == 0 && new.cursor == 0,
{
}

/// Typing a character and then pressing Backspace gives back the text and
/// the cursor as they were.
pub proof fn typing_then_backspace_restores(input: Seq<char>, cursor: int, c: char)
    requires
        0 <= cursor <= input.len(),
    ensures
        ({
            let typed = edit_step(input, cursor, Key { code: KeyCode::Char(c), ctrl: false, alt: false });
            edit_step(typed.0, typed.1, Key { code: KeyCode::Backspace, ctrl: false, alt: false })
        }) == (input, cursor),
{
    let typed = input.insert(cursor, c);
    assert(typed.remove(cursor) =~= input);
}

} // verus!
